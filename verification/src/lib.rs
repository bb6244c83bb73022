//! Deployment helper for versioned front-end build artifacts.
//!
//! The pipeline locates an artifact on a directory-listing page, unpacks
//! the gzip-compressed tar archive it names, and plans the installation of
//! each extracted file into the directories of a locally checked-out
//! application. Fetching and every filesystem write are left to the
//! caller, which executes the returned plan; everything decided here — the
//! anchor selected, the entries kept, the names flattened, the
//! destinations routed — is computed over in-memory values.

pub mod archive;
pub mod error;
pub mod install;
pub mod locator;
pub mod model;
pub mod text;

use vstd::prelude::*;
use crate::archive::{extract_archive, flatten_spec, gunzip, tar_entries, ExtractedFile};
use crate::error::PipelineError;
use crate::install::{install_page, install_spec, CopyAction};
use crate::locator::{anchor_hrefs, extract_page_url, locate_spec};
use crate::model::{find_app_spec, Config};
use crate::text::{last_component, last_component_str};

verus! {

/// The names of the extracted files, in extraction order.
pub open spec fn file_names(files: Seq<(Seq<char>, Seq<u8>)>) -> Seq<Seq<char>> {
    files.map_values(|f: (Seq<char>, Seq<u8>)| f.0)
}

/// Everything one run writes to disk, computed before any of it is done:
/// the archive saved into the cache under `archive_name`, the flattened
/// regular files written into the cache, and the copies from the cache
/// into the app's destination directories, in order.
pub struct DeployPlan {
    pub archive_name: String,
    pub files: Vec<ExtractedFile>,
    pub copies: Vec<CopyAction>,
}

/// Run the pipeline on an already-fetched archive: derive the cache name
/// of the archive from the final path component of `url`, unpack the
/// archive's regular files, and plan their copies into the directories
/// configured for the app called `app`. A malformed archive is an
/// `ArchiveError`; an app name absent from the configuration is a
/// `ConfigError`; the archive is unpacked before the app is resolved.
pub fn execute_url(url: &str, archive: &[u8], app: &str, config: &Config) -> (r: Result<
    DeployPlan,
    PipelineError,
>)
    ensures
        match r {
            Ok(plan) => {
                &&& gunzip(archive@) is Some
                &&& tar_entries(gunzip(archive@).unwrap()) is Some
                &&& find_app_spec(config.apps@, app@) is Some
                &&& plan.archive_name@ == last_component(url@)
                &&& plan.files.deep_view() == flatten_spec(
                    tar_entries(gunzip(archive@).unwrap()).unwrap(),
                )
                &&& plan.copies.deep_view() == install_spec(
                    find_app_spec(config.apps@, app@).unwrap(),
                    file_names(plan.files.deep_view()),
                )
            },
            Err(e) => {
                ||| (e == PipelineError::ArchiveError && (gunzip(archive@) is None
                    || tar_entries(gunzip(archive@).unwrap()) is None))
                ||| (e == PipelineError::ConfigError && gunzip(archive@) is Some
                    && tar_entries(gunzip(archive@).unwrap()) is Some && find_app_spec(
                    config.apps@,
                    app@,
                ) is None)
            },
        },
{
    let files = match extract_archive(archive) {
        Ok(files) => files,
        Err(e) => {
            return Err(e);
        },
    };
    let mut names: Vec<String> = Vec::new();
    let mut i: usize = 0;
    while i < files.len()
        invariant
            0 <= i <= files@.len(),
            names@.len() == i,
            forall|j: int| 0 <= j < i ==> names@[j]@ == files@[j].name@,
        decreases files@.len() - i,
    {
        names.push(files[i].name.clone());
        i += 1;
    }
    proof {
        assert(names.deep_view() =~~= file_names(files.deep_view()));
    }
    let copies = match install_page(&names, app, config) {
        Ok(copies) => copies,
        Err(e) => {
            return Err(e);
        },
    };
    let archive_name = last_component_str(url);
    Ok(DeployPlan { archive_name, files, copies })
}

/// Run the locate step: pick from the listing page the href of the first
/// anchor, in document order, whose target contains `term`, `module` and
/// `version` all as case-sensitive substrings. When no anchor qualifies
/// the selection is empty, and that is a `NotFoundError`: the caller gets
/// a URL it can fetch, or a failure, never an empty URL.
pub fn execute_locator(html_text: &str, term: &str, module: &str, version: &str) -> (r:
    Result<String, PipelineError>)
    ensures
        match r {
            Ok(url) => {
                &&& url@ == locate_spec(anchor_hrefs(html_text@), term@, module@, version@)
                &&& url@.len() > 0
            },
            Err(e) => {
                &&& e == PipelineError::NotFoundError
                &&& locate_spec(anchor_hrefs(html_text@), term@, module@, version@).len()
                    == 0
            },
        },
{
    let url = extract_page_url(html_text, term, module, version);
    if url.as_str().unicode_len() == 0 {
        Err(PipelineError::NotFoundError)
    } else {
        Ok(url)
    }
}

} // verus!
