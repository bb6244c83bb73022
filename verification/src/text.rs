//! Character-level text operations: substring containment and extraction of
//! the final `/`-separated component of a path or URL.

use vstd::prelude::*;

verus! {

/// `needle` occurs in `hay` as the contiguous block starting at position `i`.
pub open spec fn matches_at(hay: Seq<char>, needle: Seq<char>, i: int) -> bool {
    0 <= i && i + needle.len() <= hay.len() && hay.subrange(i, i + needle.len() as int)
        == needle
}

/// `needle` occurs somewhere in `hay` as a contiguous substring.
pub open spec fn contains_seq(hay: Seq<char>, needle: Seq<char>) -> bool {
    exists|i: int| matches_at(hay, needle, i)
}

/// The text after the last `/` of `s`; all of `s` when it has no `/`.
pub open spec fn last_component(s: Seq<char>) -> Seq<char>
    decreases s.len(),
{
    if s.len() == 0 {
        s
    } else if s.last() == '/' {
        Seq::empty()
    } else {
        last_component(s.drop_last()).push(s.last())
    }
}

/// Whether `needle` occurs in `hay` starting exactly at position `i`.
fn matches_at_exec(hay: &str, needle: &str, i: usize) -> (r: bool)
    requires
        i + needle@.len() <= hay@.len() <= usize::MAX,
    ensures
        r == matches_at(hay@, needle@, i as int),
{
    let nlen = needle.unicode_len();
    let mut j: usize = 0;
    while j < nlen
        invariant
            nlen == needle@.len(),
            i + nlen <= hay@.len() <= usize::MAX,
            0 <= j <= nlen,
            forall|k: int| 0 <= k < j ==> hay@[i + k] == needle@[k],
        decreases nlen - j,
    {
        if hay.get_char(i + j) != needle.get_char(j) {
            proof {
                assert(hay@.subrange(i as int, i + needle@.len() as int)[j as int]
                    == hay@[i + j]);
            }
            return false;
        }
        j += 1;
    }
    proof {
        assert(hay@.subrange(i as int, i + needle@.len() as int) =~= needle@);
    }
    true
}

/// Whether `needle` occurs in `hay` as a case-sensitive contiguous substring.
pub fn contains_str(hay: &str, needle: &str) -> (r: bool)
    ensures
        r == contains_seq(hay@, needle@),
{
    let hlen = hay.unicode_len();
    let nlen = needle.unicode_len();
    if nlen > hlen {
        return false;
    }
    if nlen == 0 {
        proof {
            assert(hay@.subrange(0, 0) =~= needle@);
            assert(matches_at(hay@, needle@, 0));
        }
        return true;
    }
    let mut i: usize = 0;
    while i <= hlen - nlen
        invariant
            hlen == hay@.len() <= usize::MAX,
            nlen == needle@.len(),
            0 < nlen <= hlen,
            0 <= i <= hlen - nlen + 1,
            forall|k: int| 0 <= k < i ==> !matches_at(hay@, needle@, k),
        decreases hlen - i,
    {
        if matches_at_exec(hay, needle, i) {
            return true;
        }
        i += 1;
    }
    false
}

/// Whether two string slices hold exactly the same characters.
pub fn str_eq(a: &str, b: &str) -> (r: bool)
    ensures
        r == (a@ == b@),
{
    let alen = a.unicode_len();
    let blen = b.unicode_len();
    if alen != blen {
        return false;
    }
    let mut i: usize = 0;
    while i < alen
        invariant
            alen == a@.len() <= usize::MAX,
            alen == b@.len(),
            0 <= i <= alen,
            forall|k: int| 0 <= k < i ==> a@[k] == b@[k],
        decreases alen - i,
    {
        if a.get_char(i) != b.get_char(i) {
            return false;
        }
        i += 1;
    }
    proof {
        assert(a@ =~= b@);
    }
    true
}

/// `last_component` is the suffix that begins at `cut` whenever everything
/// from `cut` on is slash-free and `cut` is either 0 or preceded by a `/`.
proof fn lemma_last_component_is_suffix(s: Seq<char>, cut: int)
    requires
        0 <= cut <= s.len(),
        forall|k: int| cut <= k < s.len() ==> s[k] != '/',
        cut > 0 ==> s[cut - 1] == '/',
    ensures
        last_component(s) == s.subrange(cut, s.len() as int),
    decreases s.len(),
{
    if cut == s.len() {
        if s.len() == 0 {
            assert(last_component(s) =~= s.subrange(cut, s.len() as int));
        } else {
            assert(s.last() == '/');
            assert(last_component(s) =~= s.subrange(cut, s.len() as int));
        }
    } else {
        assert(s.last() != '/');
        lemma_last_component_is_suffix(s.drop_last(), cut);
        assert(last_component(s) =~= s.subrange(cut, s.len() as int));
    }
}

/// The flattening law of names: the final component of a path never
/// contains a `/` itself — whatever directory structure a path carries is
/// discarded whole.
pub proof fn lemma_last_component_slash_free(s: Seq<char>)
    ensures
        forall|k: int| 0 <= k < last_component(s).len() ==> last_component(s)[k] != '/',
    decreases s.len(),
{
    if s.len() > 0 && s.last() != '/' {
        lemma_last_component_slash_free(s.drop_last());
        assert forall|k: int| 0 <= k < last_component(s).len() implies last_component(s)[k]
            != '/' by {
            if k < last_component(s).len() - 1 {
                assert(last_component(s)[k] == last_component(s.drop_last())[k]);
            } else {
                assert(last_component(s)[k] == s.last());
            }
        }
    }
}

/// The text after the last `/` of `s`; all of `s` when it has no `/`.
pub fn last_component_str(s: &str) -> (r: String)
    ensures
        r@ == last_component(s@),
{
    let len = s.unicode_len();
    let mut i: usize = len;
    let mut cut: usize = 0;
    let mut searching = true;
    while searching && i > 0
        invariant
            len == s@.len() <= usize::MAX,
            0 <= i <= len,
            searching ==> cut == 0 && (forall|k: int| i <= k < len ==> s@[k] != '/'),
            !searching ==> 0 < cut && cut == i && s@[cut - 1] == '/' && (forall|k: int|
                cut <= k < len ==> s@[k] != '/'),
        decreases i + if searching { 1int } else { 0int },
    {
        if s.get_char(i - 1) == '/' {
            cut = i;
            searching = false;
        } else {
            i -= 1;
        }
    }
    proof {
        lemma_last_component_is_suffix(s@, cut as int);
    }
    let r = s.substring_char(cut, len);
    String::from_str(r)
}

} // verus!
