use std::io::{Cursor, Write};

use iptv_player::ziptext::{extract_srt_from_zip, srt_name, subtitle_text_from_download};
use zip::write::SimpleFileOptions;
use zip::ZipWriter;

fn archive_with(entries: &[(&str, &str)]) -> Vec<u8> {
    let mut writer = ZipWriter::new(Cursor::new(Vec::new()));
    for (name, content) in entries {
        writer.start_file(*name, SimpleFileOptions::default()).unwrap();
        writer.write_all(content.as_bytes()).unwrap();
    }
    writer.finish().unwrap().into_inner()
}

#[test]
fn first_srt_entry_is_extracted() {
    let data = archive_with(&[
        ("readme.txt", "not subtitles"),
        ("movie.srt", "1\n00:00:01,000 --> 00:00:02,000\nHello\n"),
        ("other.srt", "second"),
    ]);
    let text = extract_srt_from_zip(&data).unwrap();
    assert_eq!(text, "1\n00:00:01,000 --> 00:00:02,000\nHello\n".to_string());
}

#[test]
fn extension_matching_ignores_ascii_case() {
    let data = archive_with(&[("MOVIE.SRT", "upper case name")]);
    assert_eq!(extract_srt_from_zip(&data).unwrap(), "upper case name".to_string());
}

#[test]
fn archive_without_srt_is_an_error() {
    let data = archive_with(&[("readme.txt", "nothing here")]);
    assert_eq!(
        extract_srt_from_zip(&data).err().unwrap(),
        "No SRT file found in ZIP".to_string()
    );
}

#[test]
fn non_archive_payload_is_an_error() {
    let r = extract_srt_from_zip(&b"plain text, not a zip".to_vec());
    assert!(r.is_err());
}

#[test]
fn download_text_comes_from_the_archive_when_there_is_one() {
    let data = archive_with(&[("movie.srt", "from the archive")]);
    assert_eq!(subtitle_text_from_download(&data), "from the archive".to_string());
}

#[test]
fn download_text_falls_back_to_the_payload_itself() {
    let payload = b"1\n00:00:01,000 --> 00:00:02,000\nPlain\n".to_vec();
    assert_eq!(
        subtitle_text_from_download(&payload),
        "1\n00:00:01,000 --> 00:00:02,000\nPlain\n".to_string()
    );
}

#[test]
fn srt_name_checks_the_suffix() {
    assert!(srt_name(b"a.srt"));
    assert!(srt_name(b"A.SRT"));
    assert!(srt_name(b"dir/movie.SrT"));
    assert!(!srt_name(b"srt"));
    assert!(!srt_name(b"a.txt"));
    assert!(!srt_name(b"movie.srt.bak"));
}
