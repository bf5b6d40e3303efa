use std::io::Cursor;
use std::io::Write;

use librelaws::entry::Entry;
use librelaws::error::Error;
use zip::write::FileOptions;
use zip::CompressionMethod;
use zip::ZipWriter;

fn packed(members: &[(&str, &[u8])], method: CompressionMethod) -> Vec<u8> {
    let mut writer = ZipWriter::new(Cursor::new(Vec::new()));
    for (name, content) in members {
        writer.start_file(*name, FileOptions::default().compression_method(method)).unwrap();
        writer.write_all(content).unwrap();
    }
    writer.finish().unwrap().into_inner()
}

fn archive(members: &[(&str, &[u8])]) -> Vec<u8> {
    packed(members, CompressionMethod::Deflated)
}

const DOCUMENT: &str = "<dokumente><norm><standangabe><standkommentar>Zuletzt geändert durch Art. 1 V v. 27.4.2017 I 980</standkommentar></standangabe></norm></dokumente>";

#[test]
fn the_document_of_a_payload_is_unpacked() {
    let entry = Entry::new(&archive(&[("BJNR000010949.xml", DOCUMENT.as_bytes())])).unwrap();
    assert_eq!(entry.xml(), DOCUMENT);
}

#[test]
fn a_stored_document_is_unpacked_as_well() {
    let bytes = packed(&[("law.xml", DOCUMENT.as_bytes())], CompressionMethod::Stored);
    assert_eq!(Entry::new(&bytes).unwrap().xml(), DOCUMENT);
}

#[test]
fn other_members_may_stand_beside_the_document() {
    let bytes = archive(&[
        ("figure.gif", &[0xff, 0xfe, 0x00]),
        ("law.xml", DOCUMENT.as_bytes()),
        ("readme.txt", b"nothing"),
    ]);
    assert_eq!(Entry::new(&bytes).unwrap().xml(), DOCUMENT);
}

#[test]
fn the_mark_of_a_document_may_stand_anywhere_in_the_name() {
    let bytes = archive(&[("old.xml.bak", b"<a/>"), ("b.XML", b"<b/>"), ("xml", b"<c/>")]);
    assert_eq!(Entry::new(&bytes).unwrap().xml(), "<a/>");
}

#[test]
fn an_empty_document_is_a_document() {
    assert_eq!(Entry::new(&archive(&[("law.xml", b"")])).unwrap().xml(), "");
}

#[test]
fn a_payload_without_document_is_malformed() {
    assert_eq!(Entry::new(&archive(&[])).err(), Some(Error::MalformedPayload));
    assert_eq!(
        Entry::new(&archive(&[("law.txt", DOCUMENT.as_bytes())])).err(),
        Some(Error::MalformedPayload)
    );
}

#[test]
fn a_payload_with_two_documents_is_malformed() {
    let bytes = archive(&[("a.xml", b"<a/>"), ("b.xml", b"<b/>")]);
    assert_eq!(Entry::new(&bytes).err(), Some(Error::MalformedPayload));
    let bytes = archive(&[("a.xml", b"<a/>"), ("b.txt", b""), ("c.xml", b"<c/>")]);
    assert_eq!(Entry::new(&bytes).err(), Some(Error::MalformedPayload));
}

#[test]
fn bytes_that_are_no_archive_are_malformed() {
    assert_eq!(Entry::new(&[]).err(), Some(Error::MalformedPayload));
    assert_eq!(Entry::new(DOCUMENT.as_bytes()).err(), Some(Error::MalformedPayload));
    assert_eq!(Entry::new(&[0x50, 0x4b, 0x03, 0x04]).err(), Some(Error::MalformedPayload));
}

#[test]
fn a_document_that_is_no_text_is_malformed() {
    let bytes = archive(&[("law.xml", &[0x3c, 0xff, 0xfe, 0x3e])]);
    assert_eq!(Entry::new(&bytes).err(), Some(Error::MalformedPayload));
}

#[test]
fn a_document_that_is_damaged_is_malformed() {
    let mut bytes = packed(&[("law.xml", DOCUMENT.as_bytes())], CompressionMethod::Stored);
    let at = bytes.windows(9).position(|w| w == b"dokumente").unwrap();
    bytes[at] = b'D';
    assert_eq!(Entry::new(&bytes).err(), Some(Error::MalformedPayload));
}

#[test]
fn a_member_that_is_no_text_does_no_harm_beside_the_document() {
    let bytes = archive(&[("picture.bin", &[0xff, 0xff]), ("law.xml", b"<a/>")]);
    assert_eq!(Entry::new(&bytes).unwrap().xml(), "<a/>");
}
