use std::io::Cursor;
use std::io::Write;

use librelaws::date::Date;
use librelaws::error::Error;
use librelaws::gii::{toc_url, GiiResponse, ROOT, TOC};
use librelaws::snapshot::{Snapshot, SnapshotArchive, ETAG_FILE, PAYLOAD_FILE, PROCEEDINGS_FILE};
use zip::write::FileOptions;
use zip::ZipWriter;

fn payload(name: &str, content: &str) -> Vec<u8> {
    let mut writer = ZipWriter::new(Cursor::new(Vec::new()));
    writer.start_file(name, FileOptions::default()).unwrap();
    writer.write_all(content.as_bytes()).unwrap();
    writer.finish().unwrap().into_inner()
}

fn sealed(scratch: &str, key: &str, bytes: &[u8]) -> Snapshot {
    let mut snap = Snapshot::new(scratch, key);
    snap.add_zipped_snapshot(bytes, Some("5c0a-etag"));
    snap
}

fn comments(texts: &[&str]) -> Vec<String> {
    texts.iter().map(|text| text.to_string()).collect()
}

fn today() -> Date {
    Date::from_ymd(2019, 5, 1).unwrap()
}

#[test]
fn do_stuff() {
    let archive = SnapshotArchive::open("");
    let mut snaps = archive.into_iter();
    while let Some(_snap) = snaps.next() {}
}

#[test]
fn files_of_a_snapshot_have_their_names() {
    assert_eq!(PAYLOAD_FILE, "xml.zip");
    assert_eq!(ETAG_FILE, "etag_gii.txt");
    assert_eq!(PROCEEDINGS_FILE, "proceedings.html");
}

#[test]
fn a_new_snapshot_is_empty_and_named_after_its_key() {
    let snap = Snapshot::new("/tmp/.tmpAbC", "begdv_1");
    assert_eq!(snap.dir(), "/tmp/.tmpAbC/begdv_1");
    assert_eq!(snap.key(), Some("begdv_1"));
    assert_eq!(snap.zipped_snapshot(), Err(Error::StorageError));
    assert_eq!(snap.etag(), None);
    assert_eq!(snap.proceedings(), None);
    assert_eq!(snap.raw_proceedings(), None);
}

#[test]
fn a_snapshot_without_name_has_no_key() {
    assert_eq!(Snapshot::new("", "").key(), None);
    assert_eq!(Snapshot::new("/tmp", "..").key(), None);
    assert_eq!(Snapshot::new("/", ".").key(), None);
    assert_eq!(Snapshot::new("/tmp", "").key(), Some("tmp"));
}

#[test]
fn sealing_stores_payload_and_tag() {
    let mut snap = Snapshot::new("scratch", "bgb");
    snap.add_zipped_snapshot(&[1, 2, 3], Some("tag-1"));
    assert_eq!(snap.zipped_snapshot(), Ok(vec![1, 2, 3]));
    assert_eq!(snap.etag(), Some("tag-1"));
    assert_eq!(snap.dir(), "scratch/bgb");
}

#[test]
fn sealing_again_replaces_the_payload() {
    let mut snap = Snapshot::new("scratch", "bgb");
    snap.add_zipped_snapshot(&[1, 2, 3], Some("tag-1"));
    snap.add_zipped_snapshot(&[4, 5], Some("tag-2"));
    assert_eq!(snap.zipped_snapshot(), Ok(vec![4, 5]));
    assert_eq!(snap.etag(), Some("tag-2"));
    snap.add_zipped_snapshot(&[], None);
    assert_eq!(snap.zipped_snapshot(), Ok(vec![]));
    assert_eq!(snap.etag(), Some("tag-2"));
}

#[test]
fn sealing_twice_with_the_same_is_sealing_once() {
    let mut once = Snapshot::new("scratch", "bgb");
    once.add_zipped_snapshot(&[7, 8], Some("tag"));
    let mut twice = Snapshot::new("scratch", "bgb");
    twice.add_zipped_snapshot(&[7, 8], Some("tag"));
    twice.add_zipped_snapshot(&[7, 8], Some("tag"));
    assert_eq!(once.zipped_snapshot(), twice.zipped_snapshot());
    assert_eq!(once.etag(), twice.etag());
    assert_eq!(once.dir(), twice.dir());
    assert_eq!(once.proceedings(), twice.proceedings());
}

#[test]
fn a_snapshot_sealed_without_tag_has_none() {
    let mut snap = Snapshot::new("scratch", "bgb");
    snap.add_zipped_snapshot(&[1], None);
    assert_eq!(snap.etag(), None);
    assert_eq!(snap.zipped_snapshot(), Ok(vec![1]));
}

#[test]
fn proceedings_need_a_sealed_snapshot() {
    let mut snap = Snapshot::new("scratch", "bgb");
    assert_eq!(snap.add_proceedings(b"<html/>"), Err(Error::StorageError));
    assert_eq!(snap.proceedings(), None);
    snap.add_zipped_snapshot(&[1], None);
    assert_eq!(snap.add_proceedings(b"<html/>"), Ok(()));
    assert_eq!(snap.proceedings(), Some("<html/>".to_string()));
    assert_eq!(snap.zipped_snapshot(), Ok(vec![1]));
}

#[test]
fn proceedings_are_kept_as_they_came() {
    let mut snap = sealed("scratch", "bgb", &[1]);
    let text = "<html>Gesetzentwurf über die Änderung</html>";
    snap.add_proceedings(text.as_bytes()).unwrap();
    assert_eq!(snap.proceedings(), Some(text.to_string()));
    snap.add_proceedings(b"later").unwrap();
    assert_eq!(snap.proceedings(), Some("later".to_string()));
    snap.add_proceedings(b"").unwrap();
    assert_eq!(snap.proceedings(), Some(String::new()));
}

#[test]
fn proceedings_that_are_no_text_are_not_handed_out() {
    let mut snap = sealed("scratch", "bgb", &[1]);
    snap.add_proceedings(&[0x3c, 0xff, 0x3e]).unwrap();
    assert_eq!(snap.proceedings(), None);
    assert_eq!(snap.raw_proceedings(), Some(&[0x3c, 0xff, 0x3e][..]));
    snap.add_proceedings(&[0xc3, 0xa4]).unwrap();
    assert_eq!(snap.proceedings(), Some("ä".to_string()));
    snap.add_proceedings(&[0xc3]).unwrap();
    assert_eq!(snap.proceedings(), None);
}

#[test]
fn the_date_of_a_snapshot_is_that_of_its_latest_status() {
    let snap = sealed("scratch", "bgb", &payload("bgb.xml", "<dokumente/>"));
    let found = snap.date(&comments(&[
        "Ersetzt V v. 7.9.1954 I 271",
        "Zuletzt geändert durch Art. 1 V v. 27.4.2017 I 980",
    ]));
    assert_eq!(found, Ok(1_493_251_200));
}

#[test]
fn a_snapshot_that_is_not_sealed_has_no_date() {
    let snap = Snapshot::new("scratch", "bgb");
    assert_eq!(snap.date(&comments(&["G v. 27.4.2017 I 980"])), Err(Error::StorageError));
}

#[test]
fn a_snapshot_with_a_malformed_payload_has_no_date() {
    let snap = sealed("scratch", "bgb", b"not a zip archive");
    assert_eq!(snap.date(&comments(&["G v. 27.4.2017 I 980"])), Err(Error::MalformedPayload));
    let snap = sealed("scratch", "bgb", &payload("bgb.txt", "<dokumente/>"));
    assert_eq!(snap.date(&comments(&["G v. 27.4.2017 I 980"])), Err(Error::MalformedPayload));
}

#[test]
fn a_snapshot_without_status_has_no_date() {
    let snap = sealed("scratch", "bgb", &payload("bgb.xml", "<dokumente/>"));
    assert_eq!(snap.date(&Vec::new()), Err(Error::NoStatusFound));
    assert_eq!(
        snap.date(&comments(&["Berichtigung vom 2.10.2017 I 3527 ist berücksichtigt"])),
        Err(Error::NoStatusFound)
    );
}

#[test]
fn an_archive_starts_empty() {
    let archive = SnapshotArchive::open("/var/archive");
    assert_eq!(archive.root(), "/var/archive");
    assert_eq!(archive.len(), 0);
    assert!(archive.get("bgb").is_empty());
    assert!(archive.into_iter().next().is_none());
}

#[test]
fn a_snapshot_has_its_place_under_day_and_key() {
    let archive = SnapshotArchive::open("/var/archive");
    let snap = Snapshot::new("/tmp/.tmp1", "bgb");
    assert_eq!(
        archive.destination(&snap, &today()),
        Ok("/var/archive/2019-05-01/bgb".to_string())
    );
    let archive = SnapshotArchive::open("");
    assert_eq!(archive.destination(&snap, &today()), Ok("2019-05-01/bgb".to_string()));
    let nameless = Snapshot::new("/tmp", "..");
    assert_eq!(archive.destination(&nameless, &today()), Err(Error::StorageError));
}

#[test]
fn what_is_added_comes_out_as_it_was_sealed() {
    let bytes = payload("bgb.xml", "<dokumente>Bürgerliches Gesetzbuch</dokumente>");
    let mut snap = sealed("/tmp/.tmp1", "bgb", &bytes);
    snap.add_proceedings(b"<html/>").unwrap();
    let scratch = snap.dir().to_string();
    let mut archive = SnapshotArchive::open("/var/archive");
    assert_eq!(archive.add_snapshot(snap, &today()), Ok(()));
    assert_eq!(archive.len(), 1);
    let mut snaps = archive.into_iter();
    let found = snaps.next().unwrap();
    assert_eq!(found.zipped_snapshot(), Ok(bytes));
    assert_eq!(found.etag(), Some("5c0a-etag"));
    assert_eq!(found.proceedings(), Some("<html/>".to_string()));
    assert_eq!(found.key(), Some("bgb"));
    assert_eq!(found.dir(), "/var/archive/2019-05-01/bgb");
    assert_ne!(found.dir(), scratch);
    assert!(snaps.next().is_none());
    assert!(snaps.next().is_none());
}

#[test]
fn snapshots_come_out_in_the_order_they_went_in() {
    let mut archive = SnapshotArchive::open("root");
    for (key, byte) in [("c", 3u8), ("a", 1), ("b", 2), ("a", 4)] {
        archive.add_snapshot(sealed("scratch", key, &[byte]), &today()).unwrap();
    }
    assert_eq!(archive.len(), 4);
    let mut snaps = archive.into_iter();
    let mut seen = Vec::new();
    while let Some(snap) = snaps.next() {
        seen.push((snap.key().unwrap().to_string(), snap.zipped_snapshot().unwrap()));
    }
    assert_eq!(
        seen,
        vec![
            ("c".to_string(), vec![3]),
            ("a".to_string(), vec![1]),
            ("b".to_string(), vec![2]),
            ("a".to_string(), vec![4]),
        ]
    );
}

#[test]
fn a_snapshot_without_key_is_refused() {
    let mut archive = SnapshotArchive::open("root");
    archive.add_snapshot(sealed("scratch", "a", &[1]), &today()).unwrap();
    assert_eq!(archive.add_snapshot(Snapshot::new("", ""), &today()), Err(Error::StorageError));
    assert_eq!(archive.len(), 1);
    assert_eq!(archive.get("a").len(), 1);
}

#[test]
fn snapshots_of_a_lineage_are_found_by_its_key() {
    let mut archive = SnapshotArchive::open("root");
    let days = [(2019, 5, 1), (2019, 5, 2), (2019, 5, 3)];
    for (i, key) in ["a", "b", "a"].iter().enumerate() {
        let (year, month, day) = days[i];
        let day = Date::from_ymd(year, month, day).unwrap();
        archive.add_snapshot(sealed("scratch", key, &[i as u8]), &day).unwrap();
    }
    let found = archive.get("a");
    assert_eq!(found.len(), 2);
    assert_eq!(found[0].dir(), "root/2019-05-01/a");
    assert_eq!(found[0].zipped_snapshot(), Ok(vec![0]));
    assert_eq!(found[1].dir(), "root/2019-05-03/a");
    assert_eq!(found[1].zipped_snapshot(), Ok(vec![2]));
    assert_eq!(archive.get("b").len(), 1);
    assert!(archive.get("c").is_empty());
    assert!(archive.get("").is_empty());
}

#[test]
fn an_update_becomes_a_sealed_snapshot() {
    let response = GiiResponse::Update {
        url: "http://www.gesetze-im-internet.de/begdv_1/xml.zip".to_string(),
        buf: vec![9, 8, 7],
        etag: "\"abc\"".to_string(),
    };
    let snap = response.into_snapshot("/tmp/.tmp7").unwrap().unwrap();
    assert_eq!(snap.key(), Some("begdv_1"));
    assert_eq!(snap.dir(), "/tmp/.tmp7/begdv_1");
    assert_eq!(snap.zipped_snapshot(), Ok(vec![9, 8, 7]));
    assert_eq!(snap.etag(), Some("\"abc\""));
    assert_eq!(snap.proceedings(), None);
}

#[test]
fn an_unchanged_document_becomes_no_snapshot() {
    assert!(GiiResponse::Unchanged.into_snapshot("/tmp").unwrap().is_none());
}

#[test]
fn an_update_from_a_url_without_directory_is_refused() {
    let response =
        GiiResponse::Update { url: "xml.zip".to_string(), buf: vec![1], etag: String::new() };
    assert_eq!(response.into_snapshot("/tmp").err(), Some(Error::NoKey));
}

#[test]
fn the_table_of_contents_lies_under_the_root() {
    assert_eq!(ROOT, "http://www.gesetze-im-internet.de/");
    assert_eq!(TOC, "gii-toc.xml");
    assert_eq!(toc_url(), Some("http://www.gesetze-im-internet.de/gii-toc.xml".to_string()));
}
