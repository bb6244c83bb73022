use qpage::archive::{extract_archive, flatten_entries};
use qpage::error::PipelineError;

fn regular_entry(builder: &mut tar::Builder<Vec<u8>>, path: &str, data: &[u8]) {
    let mut header = tar::Header::new_gnu();
    header.set_entry_type(tar::EntryType::Regular);
    header.set_size(data.len() as u64);
    header.set_mode(0o644);
    header.set_cksum();
    builder.append_data(&mut header, path, data).unwrap();
}

fn directory_entry(builder: &mut tar::Builder<Vec<u8>>, path: &str) {
    let mut header = tar::Header::new_gnu();
    header.set_entry_type(tar::EntryType::Directory);
    header.set_size(0);
    header.set_mode(0o755);
    header.set_cksum();
    builder.append_data(&mut header, path, &[] as &[u8]).unwrap();
}

fn symlink_entry(builder: &mut tar::Builder<Vec<u8>>, path: &str, target: &str) {
    let mut header = tar::Header::new_gnu();
    header.set_entry_type(tar::EntryType::Symlink);
    header.set_size(0);
    header.set_mode(0o777);
    builder.append_link(&mut header, path, target).unwrap();
}

fn gzip(bytes: &[u8]) -> Vec<u8> {
    let mut encoder = flate2::write::GzEncoder::new(Vec::new(), flate2::Compression::default());
    std::io::Write::write_all(&mut encoder, bytes).unwrap();
    encoder.finish().unwrap()
}

#[test]
fn extractor_flattens_nested_paths() {
    let mut builder = tar::Builder::new(Vec::new());
    regular_entry(&mut builder, "bundle/app/index.html", b"<html></html>");
    let archive = gzip(&builder.into_inner().unwrap());

    let files = extract_archive(&archive).unwrap();
    assert_eq!(files.len(), 1);
    assert_eq!(files[0].name, "index.html");
    assert_eq!(files[0].data, b"<html></html>".to_vec());
}

#[test]
fn extractor_skips_non_regular_entries() {
    let mut builder = tar::Builder::new(Vec::new());
    directory_entry(&mut builder, "bundle/");
    symlink_entry(&mut builder, "bundle/link.html", "real.html");
    regular_entry(&mut builder, "bundle/real.html", b"content");
    directory_entry(&mut builder, "bundle/assets/");
    let archive = gzip(&builder.into_inner().unwrap());

    let files = extract_archive(&archive).unwrap();
    assert_eq!(files.len(), 1);
    assert_eq!(files[0].name, "real.html");
    assert_eq!(files[0].data, b"content".to_vec());
}

#[test]
fn extractor_keeps_archive_order() {
    let mut builder = tar::Builder::new(Vec::new());
    regular_entry(&mut builder, "one.js", b"1");
    regular_entry(&mut builder, "nested/two.js", b"2");
    regular_entry(&mut builder, "three.js", b"3");
    let archive = gzip(&builder.into_inner().unwrap());

    let files = extract_archive(&archive).unwrap();
    let names: Vec<&str> = files.iter().map(|f| f.name.as_str()).collect();
    assert_eq!(names, vec!["one.js", "two.js", "three.js"]);
}

#[test]
fn extractor_rejects_garbage_bytes() {
    let r = extract_archive(b"this is not a gzip stream at all");
    match r {
        Err(e) => assert_eq!(e, PipelineError::ArchiveError),
        Ok(_) => panic!("expected ArchiveError on garbage bytes"),
    }
}

#[test]
fn extractor_rejects_gzip_of_garbage_tar() {
    let archive = gzip(b"gzip is fine but this is no tar stream, far too short");
    let r = extract_archive(&archive);
    match r {
        Err(e) => assert_eq!(e, PipelineError::ArchiveError),
        Ok(_) => panic!("expected ArchiveError on a non-tar payload"),
    }
}

#[test]
fn flatten_entries_drops_non_files_and_flattens() {
    let entries: Vec<(bool, String, Vec<u8>)> = vec![
        (false, "bundle/".to_string(), Vec::new()),
        (true, "bundle/app/index.html".to_string(), b"a".to_vec()),
        (false, "bundle/link".to_string(), Vec::new()),
        (true, "top.txt".to_string(), b"b".to_vec()),
    ];
    let files = flatten_entries(&entries);
    assert_eq!(files.len(), 2);
    assert_eq!(files[0].name, "index.html");
    assert_eq!(files[0].data, b"a".to_vec());
    assert_eq!(files[1].name, "top.txt");
    assert_eq!(files[1].data, b"b".to_vec());
}
