//! Locator: pick from a directory-listing page the first anchor whose href
//! contains all three selector substrings.

use vstd::prelude::*;
use crate::text::{contains_seq, contains_str};

verus! {

/// The href attributes of the anchor (`a`) elements of `html`, in document
/// order; `None` where an anchor lacks the attribute.
pub uninterp spec fn anchor_hrefs(html: Seq<char>) -> Seq<Option<Seq<char>>>;

/// Relies on scraper: `Html::parse_document` followed by selecting every
/// `a` element yields the document's anchors in document order, and
/// `attr("href")` is each one's href attribute, when present.
#[verifier::external_body]
fn scan_anchor_hrefs(html: &str) -> (r: Vec<Option<String>>)
    ensures
        r.deep_view() == anchor_hrefs(html@),
{
    let document = scraper::Html::parse_document(html);
    let selector = scraper::Selector::parse("a").expect("a is a valid selector");
    let mut hrefs = Vec::new();
    for element in document.select(&selector) {
        hrefs.push(element.value().attr("href").map(|href| href.to_string()));
    }
    hrefs
}

/// An anchor qualifies when it has an href holding `term`, `module` and
/// `version`, each as a case-sensitive substring.
pub open spec fn href_matches(
    href: Option<Seq<char>>,
    term: Seq<char>,
    module: Seq<char>,
    version: Seq<char>,
) -> bool {
    match href {
        Some(h) => contains_seq(h, term) && contains_seq(h, module) && contains_seq(
            h,
            version,
        ),
        None => false,
    }
}

/// The first qualifying href of `anchors`, in order; the empty string when
/// none qualifies. Anchors without an href never qualify.
pub open spec fn locate_spec(
    anchors: Seq<Option<Seq<char>>>,
    term: Seq<char>,
    module: Seq<char>,
    version: Seq<char>,
) -> Seq<char>
    decreases anchors.len(),
{
    if anchors.len() == 0 {
        Seq::empty()
    } else if href_matches(anchors[0], term, module, version) {
        anchors[0].unwrap()
    } else {
        locate_spec(anchors.drop_first(), term, module, version)
    }
}

/// The selection law: when the anchor at `i` is the first that qualifies,
/// it is the one selected, whatever follows it.
pub proof fn lemma_locate_first(
    anchors: Seq<Option<Seq<char>>>,
    term: Seq<char>,
    module: Seq<char>,
    version: Seq<char>,
    i: int,
)
    requires
        0 <= i < anchors.len(),
        href_matches(anchors[i], term, module, version),
        forall|k: int| 0 <= k < i ==> !href_matches(anchors[k], term, module, version),
    ensures
        locate_spec(anchors, term, module, version) == anchors[i].unwrap(),
    decreases i,
{
    if i > 0 {
        lemma_locate_first(anchors.drop_first(), term, module, version, i - 1);
    }
}

/// The no-match law: when no anchor qualifies, the selection is empty.
pub proof fn lemma_locate_none(
    anchors: Seq<Option<Seq<char>>>,
    term: Seq<char>,
    module: Seq<char>,
    version: Seq<char>,
)
    requires
        forall|k: int| 0 <= k < anchors.len() ==> !href_matches(
            anchors[k],
            term,
            module,
            version,
        ),
    ensures
        locate_spec(anchors, term, module, version) == Seq::<char>::empty(),
    decreases anchors.len(),
{
    if anchors.len() > 0 {
        lemma_locate_none(anchors.drop_first(), term, module, version);
    }
}

/// The malformed-anchor law: an anchor without an href attribute, wherever
/// it stands, never changes what is selected.
pub proof fn lemma_locate_skips_hrefless(
    anchors: Seq<Option<Seq<char>>>,
    term: Seq<char>,
    module: Seq<char>,
    version: Seq<char>,
    i: int,
)
    requires
        0 <= i <= anchors.len(),
    ensures
        locate_spec(anchors.insert(i, None), term, module, version) == locate_spec(
            anchors,
            term,
            module,
            version,
        ),
    decreases anchors.len(),
{
    let inserted = anchors.insert(i, None);
    if i == 0 {
        assert(inserted.drop_first() =~= anchors);
    } else {
        assert(inserted[0] == anchors[0]);
        lemma_locate_skips_hrefless(anchors.drop_first(), term, module, version, i - 1);
        assert(inserted.drop_first() =~= anchors.drop_first().insert(i - 1, None));
    }
}

/// Select from a list of anchor hrefs the first, in order, that contains
/// `term`, `module` and `version` all as case-sensitive substrings; the
/// empty string when none does. An anchor without an href (`None`) is
/// skipped, never an error.
pub fn select_href(anchors: &Vec<Option<String>>, term: &str, module: &str, version: &str) -> (r:
    String)
    ensures
        r@ == locate_spec(anchors.deep_view(), term@, module@, version@),
{
    let ghost model = anchors.deep_view();
    let mut i: usize = 0;
    while i < anchors.len()
        invariant
            model == anchors.deep_view(),
            0 <= i <= anchors@.len(),
            forall|k: int| 0 <= k < i ==> !href_matches(model[k], term@, module@, version@),
        decreases anchors@.len() - i,
    {
        match &anchors[i] {
            Some(href) => {
                let sel = contains_str(href.as_str(), term) && contains_str(
                    href.as_str(),
                    module,
                ) && contains_str(href.as_str(), version);
                if sel {
                    proof {
                        lemma_locate_first(model, term@, module@, version@, i as int);
                    }
                    return href.clone();
                }
            },
            None => {},
        }
        i += 1;
    }
    proof {
        lemma_locate_none(model, term@, module@, version@);
    }
    String::new()
}

/// Parse a directory-listing page and return the href of the first anchor,
/// in document order, whose target contains `term`, `module` and `version`
/// all as case-sensitive substrings; the empty string when none does.
/// Anchors lacking an href attribute are skipped, not an error.
pub fn extract_page_url(html_text: &str, term: &str, module: &str, version: &str) -> (r:
    String)
    ensures
        r@ == locate_spec(anchor_hrefs(html_text@), term@, module@, version@),
{
    let anchors = scan_anchor_hrefs(html_text);
    select_href(&anchors, term, module, version)
}

} // verus!
