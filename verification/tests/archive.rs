use std::io::{Cursor, Write};

use burn_in_zh_subtitles::archive::{
    extract_archive_bytes, extract_tar_xz_bytes, extract_zip_bytes, take_tar_members,
    take_zip_members,
};
use burn_in_zh_subtitles::managed::{ArchiveKind, ArchiveMember};
use burn_in_zh_subtitles::pipeline::ExtractFailure;

fn member(suffix: &str, destination_name: &str) -> ArchiveMember {
    ArchiveMember { suffix: suffix.to_owned(), destination_name: destination_name.to_owned() }
}

fn tools() -> Vec<ArchiveMember> {
    vec![member("ffmpeg", "ffmpeg"), member("ffprobe", "ffprobe")]
}

fn zip_of(entries: &[(&str, &[u8])]) -> Vec<u8> {
    let mut writer = zip::ZipWriter::new(Cursor::new(Vec::new()));
    let options = zip::write::SimpleFileOptions::default()
        .compression_method(zip::CompressionMethod::Stored);
    for (name, data) in entries {
        writer.start_file(*name, options).unwrap();
        writer.write_all(data).unwrap();
    }
    writer.finish().unwrap().into_inner()
}

fn tar_xz_of(entries: &[(&str, &[u8])]) -> Vec<u8> {
    let mut builder = tar::Builder::new(xz2::write::XzEncoder::new(Vec::new(), 6));
    for (name, data) in entries {
        let mut header = tar::Header::new_gnu();
        header.set_size(data.len() as u64);
        header.set_mode(0o755);
        header.set_cksum();
        builder.append_data(&mut header, name, *data).unwrap();
    }
    builder.into_inner().unwrap().finish().unwrap()
}

fn listing(entries: &[(&str, &[u8])]) -> Vec<(String, Vec<u8>)> {
    entries.iter().map(|(name, data)| (name.to_string(), data.to_vec())).collect()
}

fn files(result: Result<Vec<(String, Vec<u8>)>, ExtractFailure>) -> Vec<(String, Vec<u8>)> {
    match result {
        Ok(files) => files,
        Err(failure) => panic!("unexpected failure {:?}", failure),
    }
}

#[test]
fn zip_members_take_the_first_matching_entry_in_member_order() {
    let bytes = zip_of(&[
        ("ffmpeg-7/bin/ffprobe", b"probe"),
        ("ffmpeg-7/bin/ffmpeg", b"first"),
        ("other/ffmpeg", b"second"),
    ]);
    let taken = files(extract_zip_bytes(&bytes, &tools()));
    assert_eq!(
        taken,
        vec![("ffmpeg".to_owned(), b"first".to_vec()), ("ffprobe".to_owned(), b"probe".to_vec())]
    );
}

#[test]
fn zip_member_names_can_differ_from_entry_names() {
    let bytes = zip_of(&[("ffmpeg-7.1-essentials_build/bin/ffmpeg.exe", b"exe")]);
    let members = vec![member("bin/ffmpeg.exe", "ffmpeg.exe")];
    let taken = files(extract_zip_bytes(&bytes, &members));
    assert_eq!(taken, vec![("ffmpeg.exe".to_owned(), b"exe".to_vec())]);
}

#[test]
fn zip_reports_the_first_member_without_an_entry() {
    let bytes = zip_of(&[("bin/ffmpeg", b"m")]);
    assert!(matches!(extract_zip_bytes(&bytes, &tools()), Err(ExtractFailure::MemberMissing(1))));
    let empty = zip_of(&[]);
    assert!(matches!(extract_zip_bytes(&empty, &tools()), Err(ExtractFailure::MemberMissing(0))));
}

#[test]
fn zip_that_cannot_be_opened_is_an_io_failure() {
    assert!(matches!(extract_zip_bytes(b"not a zip archive", &tools()), Err(ExtractFailure::Io(_))));
    assert!(matches!(extract_zip_bytes(b"", &Vec::new()), Err(ExtractFailure::Io(_))));
}

#[test]
fn tar_xz_members_are_taken_in_archive_order() {
    let bytes = tar_xz_of(&[
        ("ffmpeg-7.0.2-amd64-static/readme.txt", b"text"),
        ("ffmpeg-7.0.2-amd64-static/ffprobe", b"probe"),
        ("ffmpeg-7.0.2-amd64-static/ffmpeg", b"mpeg"),
    ]);
    let taken = files(extract_tar_xz_bytes(&bytes, &tools()));
    assert_eq!(
        taken,
        vec![("ffprobe".to_owned(), b"probe".to_vec()), ("ffmpeg".to_owned(), b"mpeg".to_vec())]
    );
}

#[test]
fn tar_xz_reports_the_first_member_never_found() {
    let bytes = tar_xz_of(&[("d/ffprobe", b"probe"), ("d/notes", b"n")]);
    assert!(matches!(
        extract_tar_xz_bytes(&bytes, &tools()),
        Err(ExtractFailure::MemberMissing(0))
    ));
}

#[test]
fn tar_xz_that_cannot_be_decoded_is_an_io_failure() {
    assert!(matches!(extract_tar_xz_bytes(b"not xz data", &tools()), Err(ExtractFailure::Io(_))));
}

#[test]
fn extraction_dispatches_on_the_archive_kind() {
    let zip = zip_of(&[("a/ffmpeg", b"z1"), ("a/ffprobe", b"z2")]);
    let tar = tar_xz_of(&[("a/ffmpeg", b"t1"), ("a/ffprobe", b"t2")]);
    let from_zip = files(extract_archive_bytes(ArchiveKind::Zip, &zip, &tools()));
    let from_tar = files(extract_archive_bytes(ArchiveKind::TarXz, &tar, &tools()));
    assert_eq!(from_zip[0], ("ffmpeg".to_owned(), b"z1".to_vec()));
    assert_eq!(from_tar[1], ("ffprobe".to_owned(), b"t2".to_vec()));
    assert!(matches!(extract_archive_bytes(ArchiveKind::TarXz, &zip, &tools()), Err(ExtractFailure::Io(_))));
}

#[test]
fn tar_search_stops_once_every_member_is_found() {
    let entries = listing(&[("x/ffmpeg", b"m"), ("x/ffprobe", b"p")]);
    let late = Some("corrupt tail".to_owned());
    let taken = files(take_tar_members(&entries, &late, &tools()));
    assert_eq!(taken.len(), 2);
}

#[test]
fn tar_read_failure_before_every_member_is_found_is_reported() {
    let entries = listing(&[("x/ffmpeg", b"m")]);
    let failure = Some("unexpected end of archive".to_owned());
    match take_tar_members(&entries, &failure, &tools()) {
        Err(ExtractFailure::Io(details)) => assert_eq!(details, "unexpected end of archive"),
        other => panic!("unexpected result {:?}", other),
    }
}

#[test]
fn tar_entry_fills_only_the_first_open_member() {
    let members = vec![member("ffmpeg", "first"), member("ffmpeg", "second")];
    let entries = listing(&[("a/ffmpeg", b"1"), ("b/ffmpeg", b"2")]);
    let taken = files(take_tar_members(&entries, &None, &members));
    assert_eq!(
        taken,
        vec![("first".to_owned(), b"1".to_vec()), ("second".to_owned(), b"2".to_vec())]
    );
}

#[test]
fn zip_read_failure_is_reported_where_the_search_reaches_it() {
    let entries = listing(&[("x/ffmpeg", b"m")]);
    let failure = Some("bad entry".to_owned());
    let one = vec![member("ffmpeg", "ffmpeg")];
    assert_eq!(files(take_zip_members(&entries, &failure, &one)).len(), 1);
    match take_zip_members(&entries, &failure, &tools()) {
        Err(ExtractFailure::Io(details)) => assert_eq!(details, "bad entry"),
        other => panic!("unexpected result {:?}", other),
    }
    assert!(matches!(take_zip_members(&entries, &None, &tools()), Err(ExtractFailure::MemberMissing(1))));
}
