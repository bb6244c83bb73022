//! Extractor: decompress a gzip-compressed tar archive held in memory and
//! flatten its regular-file entries into named outputs.

use vstd::prelude::*;
use vstd::slice::slice_to_vec;
use crate::error::PipelineError;
use crate::text::{last_component, last_component_str};

verus! {

/// What gunzip makes of `bytes`: the whole decompressed stream, or `None`
/// when the gzip stream is malformed.
pub uninterp spec fn gunzip(bytes: Seq<u8>) -> Option<Seq<u8>>;

/// Relies on flate2's `read::GzDecoder`: reading it to the end yields the
/// whole decompressed stream, or fails on a malformed gzip stream; over an
/// in-memory slice the outcome is a function of the input bytes alone.
#[verifier::external_body]
fn gunzip_bytes(data: &[u8]) -> (r: Option<Vec<u8>>)
    ensures
        r.deep_view() == gunzip(data@),
{
    let mut decoded = Vec::new();
    let mut decoder = flate2::read::GzDecoder::new(data);
    match std::io::Read::read_to_end(&mut decoder, &mut decoded) {
        Ok(_) => Some(decoded),
        Err(_) => None,
    }
}

/// The entries of the tar stream `bytes`, in archive order: whether each is
/// a regular file, its path inside the archive, and its content. `None`
/// when the stream is malformed.
pub uninterp spec fn tar_entries(bytes: Seq<u8>) -> Option<Seq<(bool, Seq<char>, Seq<u8>)>>;

/// Relies on tar's `Archive`: `entries()` visits the entries in archive
/// order, `entry_type().is_file()` recognises a regular file, and the
/// path and content are read whole; a malformed header or a truncated
/// stream fails. Over an in-memory slice the outcome is a function of the
/// input bytes alone.
#[verifier::external_body]
fn read_tar_entries(data: &[u8]) -> (r: Option<Vec<(bool, String, Vec<u8>)>>)
    ensures
        r.deep_view() == tar_entries(data@),
{
    let mut archive = tar::Archive::new(data);
    let mut out = Vec::new();
    let entries = match archive.entries() { Ok(entries) => entries, Err(_) => return None };
    for entry in entries {
        let mut entry = match entry { Ok(entry) => entry, Err(_) => return None };
        let is_file = entry.header().entry_type().is_file();
        let path = String::from_utf8_lossy(&entry.path_bytes()).into_owned();
        let mut content = Vec::new();
        if std::io::Read::read_to_end(&mut entry, &mut content).is_err() { return None }
        out.push((is_file, path, content));
    }
    Some(out)
}

/// One regular file produced by unpacking: its flattened name (the final
/// path component of the entry it came from) and its content.
pub struct ExtractedFile {
    pub name: String,
    pub data: Vec<u8>,
}

impl View for ExtractedFile {
    type V = (Seq<char>, Seq<u8>);

    open spec fn view(&self) -> (Seq<char>, Seq<u8>) {
        (self.name@, self.data@)
    }
}

impl DeepView for ExtractedFile {
    type V = (Seq<char>, Seq<u8>);

    open spec fn deep_view(&self) -> (Seq<char>, Seq<u8>) {
        self.view()
    }
}

/// The flattening of tar entries: each regular-file entry, in archive
/// order, reduced to its final path component and its content; every other
/// entry kind dropped.
pub open spec fn flatten_spec(entries: Seq<(bool, Seq<char>, Seq<u8>)>) -> Seq<
    (Seq<char>, Seq<u8>),
>
    decreases entries.len(),
{
    if entries.len() == 0 {
        Seq::empty()
    } else {
        let rest = flatten_spec(entries.drop_first());
        if entries[0].0 {
            seq![(last_component(entries[0].1), entries[0].2)] + rest
        } else {
            rest
        }
    }
}

/// Appending one entry extends the flattening by that entry's output, if
/// it has one.
proof fn lemma_flatten_push(entries: Seq<(bool, Seq<char>, Seq<u8>)>, e: (bool, Seq<char>, Seq<u8>))
    ensures
        flatten_spec(entries.push(e)) == flatten_spec(entries) + (if e.0 {
            seq![(last_component(e.1), e.2)]
        } else {
            Seq::empty()
        }),
    decreases entries.len(),
{
    let tail = (if e.0 {
        seq![(last_component(e.1), e.2)]
    } else {
        Seq::<(Seq<char>, Seq<u8>)>::empty()
    });
    if entries.len() == 0 {
        assert(entries.push(e).len() == 1);
        assert(entries.push(e)[0] == e);
        assert(entries.push(e).drop_first() =~= entries);
        assert(flatten_spec(entries.push(e)) =~~= flatten_spec(entries) + tail);
    } else {
        assert(entries.push(e)[0] == entries[0]);
        assert(entries.push(e).drop_first() =~= entries.drop_first().push(e));
        lemma_flatten_push(entries.drop_first(), e);
        assert(flatten_spec(entries.push(e)) =~~= flatten_spec(entries) + tail);
    }
}

/// `out` is exactly what the regular-file entry at position `i` of
/// `entries` flattens to.
pub open spec fn output_from_entry(
    out: (Seq<char>, Seq<u8>),
    entries: Seq<(bool, Seq<char>, Seq<u8>)>,
    i: int,
) -> bool {
    0 <= i < entries.len() && entries[i].0 && out == (last_component(entries[i].1), entries[i].2)
}

/// `out` is what some regular-file entry of `entries` flattens to.
pub open spec fn comes_from_regular_file(
    out: (Seq<char>, Seq<u8>),
    entries: Seq<(bool, Seq<char>, Seq<u8>)>,
) -> bool {
    exists|i: int| output_from_entry(out, entries, i)
}

/// The skip-and-flatten law: every output of the flattening comes from a
/// regular-file entry, keeps that entry's content, and is named by the
/// final component of that entry's path; entries of any other kind
/// contribute nothing.
pub proof fn lemma_flatten_only_regular_files(entries: Seq<(bool, Seq<char>, Seq<u8>)>)
    ensures
        forall|j: int| 0 <= j < flatten_spec(entries).len() ==> comes_from_regular_file(
            #[trigger] flatten_spec(entries)[j],
            entries,
        ),
    decreases entries.len(),
{
    if entries.len() > 0 {
        lemma_flatten_only_regular_files(entries.drop_first());
        assert forall|j: int|
            0 <= j < flatten_spec(entries).len() implies comes_from_regular_file(
            #[trigger] flatten_spec(entries)[j],
            entries,
        ) by {
            let out = flatten_spec(entries);
            let rest = flatten_spec(entries.drop_first());
            if entries[0].0 && j == 0 {
                assert(out[0] == (last_component(entries[0].1), entries[0].2));
                assert(output_from_entry(out[0], entries, 0));
            } else {
                let j0 = if entries[0].0 { j - 1 } else { j };
                assert(out[j] == rest[j0]);
                assert(comes_from_regular_file(rest[j0], entries.drop_first()));
                let i0 = choose|i0: int| output_from_entry(rest[j0], entries.drop_first(), i0);
                assert(entries.drop_first()[i0] == entries[i0 + 1]);
                assert(output_from_entry(out[j], entries, i0 + 1));
            }
        }
    }
}

/// Unpack a gzip-compressed tar archive held in memory: decompress it,
/// walk the tar entries in order, and keep each regular file, flattened to
/// the final component of its path. Directories, links and every other
/// entry kind are skipped and produce nothing. A malformed gzip or tar
/// stream is an `ArchiveError`, and nothing is returned for it.
pub fn extract_archive(archive: &[u8]) -> (r: Result<Vec<ExtractedFile>, PipelineError>)
    ensures
        match r {
            Ok(files) => {
                &&& gunzip(archive@) is Some
                &&& tar_entries(gunzip(archive@).unwrap()) is Some
                &&& files.deep_view() == flatten_spec(
                    tar_entries(gunzip(archive@).unwrap()).unwrap(),
                )
            },
            Err(e) => {
                &&& e == PipelineError::ArchiveError
                &&& (gunzip(archive@) is None || tar_entries(gunzip(archive@).unwrap())
                    is None)
            },
        },
{
    let decoded = match gunzip_bytes(archive) {
        Some(decoded) => decoded,
        None => {
            return Err(PipelineError::ArchiveError);
        },
    };
    proof {
        assert(decoded.deep_view() =~= decoded@);
        assert(gunzip(archive@) == Some(decoded@));
    }
    let entries = match read_tar_entries(decoded.as_slice()) {
        Some(entries) => entries,
        None => {
            return Err(PipelineError::ArchiveError);
        },
    };
    proof {
        assert(tar_entries(decoded@) == Some(entries.deep_view()));
    }
    Ok(flatten_entries(&entries))
}

/// Flatten a list of tar entries: keep each regular file, in order, under
/// the final component of its path, with its content; drop every entry of
/// any other kind.
pub fn flatten_entries(entries: &Vec<(bool, String, Vec<u8>)>) -> (files: Vec<ExtractedFile>)
    ensures
        files.deep_view() == flatten_spec(entries.deep_view()),
{
    let ghost model = entries.deep_view();
    let mut files: Vec<ExtractedFile> = Vec::new();
    let mut i: usize = 0;
    while i < entries.len()
        invariant
            model == entries.deep_view(),
            0 <= i <= entries@.len(),
            files.deep_view() == flatten_spec(model.take(i as int)),
        decreases entries@.len() - i,
    {
        proof {
            assert(model.take(i + 1) =~= model.take(i as int).push(model[i as int]));
            lemma_flatten_push(model.take(i as int), model[i as int]);
        }
        let entry = &entries[i];
        if entry.0 {
            let name = last_component_str(entry.1.as_str());
            let data = slice_to_vec(entry.2.as_slice());
            files.push(ExtractedFile { name, data });
            proof {
                assert(files.deep_view() =~~= flatten_spec(model.take(i + 1)));
            }
        } else {
            proof {
                assert(files.deep_view() =~~= flatten_spec(model.take(i + 1)));
            }
        }
        i += 1;
    }
    proof {
        assert(model.take(entries@.len() as int) =~= model);
    }
    files
}

} // verus!
