//! Snapshots of single documents, and the archive that collects them.
//!
//! A snapshot is a directory: it holds the payload as it was downloaded, the
//! entity tag that came with it, and later the proceedings that led to the
//! change. The values here say what such a directory holds and where it
//! lies; reading and writing the directory itself is the caller's part.

use vstd::prelude::*;
use vstd::string::StringExecFns;
use vstd::utf8::{decode_utf8, valid_utf8};
use crate::date::{Date, DateView};
use crate::entry::{is_well_formed_payload, Entry};
use crate::error::Error;
use crate::path::{file_name, join, joined, name_of, parent_name, parent_name_of};
use crate::status::{latest_of, latest_status, statuses_of_texts};
use crate::text::{chars_of, same_text};

verus! {

/// The file of a snapshot that holds its payload.
pub const PAYLOAD_FILE: &'static str = "xml.zip";

/// The file of a snapshot that holds the entity tag of the payload.
pub const ETAG_FILE: &'static str = "etag_gii.txt";

/// The file of a snapshot that holds the proceedings.
pub const PROCEEDINGS_FILE: &'static str = "proceedings.html";

/// A snapshot as contracts speak of it.
pub struct SnapshotView {
    /// The directory of the snapshot. Its name is the key of the lineage.
    pub dir: Seq<char>,
    /// The payload, once the snapshot is sealed.
    pub payload: Option<Seq<u8>>,
    /// The entity tag that came with the payload.
    pub etag: Option<Seq<char>>,
    /// The proceedings, once they are attached.
    pub proceedings: Option<Seq<u8>>,
}

impl SnapshotView {
    /// The key of the lineage: the name of the snapshot's directory.
    pub open spec fn key(self) -> Option<Seq<char>> {
        file_name(self.dir)
    }

    /// The same snapshot in another directory.
    pub open spec fn moved_to(self, dir: Seq<char>) -> SnapshotView {
        SnapshotView { dir, ..self }
    }

    /// The snapshot sealed with a payload, and with the entity tag if one is
    /// given. Without one the snapshot keeps the tag it has.
    pub open spec fn sealed(self, payload: Seq<u8>, etag: Option<Seq<char>>) -> SnapshotView {
        SnapshotView {
            payload: Some(payload),
            etag: match etag {
                Some(tag) => Some(tag),
                None => self.etag,
            },
            ..self
        }
    }

    /// When the document of the snapshot took effect, in seconds, given the
    /// status comments of that document. The snapshot has to be sealed with
    /// a well-formed payload, and some comment has to state a status.
    pub open spec fn effective(self, comments: Seq<String>) -> Result<int, Error> {
        match self.payload {
            None => Err(Error::StorageError),
            Some(bytes) => if !is_well_formed_payload(bytes) {
                Err(Error::MalformedPayload)
            } else {
                match latest_of(statuses_of_texts(comments)) {
                    None => Err(Error::NoStatusFound),
                    Some(status) => Ok(status.1.seconds()),
                }
            },
        }
    }
}

/// One version of one document, as it was found on one day.
#[derive(Debug)]
pub struct Snapshot {
    dir: String,
    payload: Option<Vec<u8>>,
    etag: Option<String>,
    proceedings: Option<Vec<u8>>,
}

/// Bytes that may be there as contracts speak of them.
pub open spec fn bytes_view(bytes: Option<Vec<u8>>) -> Option<Seq<u8>> {
    match bytes {
        Some(bytes) => Some(bytes@),
        None => None,
    }
}

/// Text that may be there as contracts speak of it.
pub open spec fn text_view(text: Option<String>) -> Option<Seq<char>> {
    match text {
        Some(text) => Some(text@),
        None => None,
    }
}

impl View for Snapshot {
    type V = SnapshotView;

    closed spec fn view(&self) -> SnapshotView {
        SnapshotView {
            dir: self.dir@,
            payload: bytes_view(self.payload),
            etag: text_view(self.etag),
            proceedings: bytes_view(self.proceedings),
        }
    }
}

/// `std::str::from_utf8`, with the text copied out.
///
/// The claim: there is a result exactly for bytes that are UTF-8, and it is
/// the text that they encode.
#[verifier::external_body]
fn utf8_text(bytes: &[u8]) -> (text: Option<String>)
    ensures
        text is Some <==> valid_utf8(bytes@),
        text matches Some(t) ==> t@ == decode_utf8(bytes@),
{
    std::str::from_utf8(bytes).ok().map(|text| text.to_string())
}

impl Snapshot {
    /// A new, empty snapshot of lineage `key`, in a directory of that name
    /// under `scratch`.
    pub fn new(scratch: &str, key: &str) -> (snap: Snapshot)
        ensures
            snap@ == (SnapshotView {
                dir: joined(scratch@, key@),
                payload: None,
                etag: None,
                proceedings: None,
            }),
    {
        Snapshot { dir: join(scratch, key), payload: None, etag: None, proceedings: None }
    }

    /// The directory of the snapshot.
    pub fn dir(&self) -> (dir: &str)
        ensures
            dir@ == self@.dir,
    {
        self.dir.as_str()
    }

    /// The key of the lineage that the snapshot belongs to.
    pub fn key(&self) -> (key: Option<&str>)
        ensures
            match key {
                Some(key) => self@.key() == Some(key@),
                None => self@.key() is None,
            },
    {
        name_of(self.dir.as_str())
    }

    /// Date based on the inspection of the document: the second with which
    /// the day of its latest status begins.
    ///
    /// `comments` holds the text of the status comments of the payload's
    /// document, in the order of the document.
    pub fn date(&self, comments: &Vec<String>) -> (date: Result<i64, Error>)
        ensures
            match date {
                Ok(seconds) => self@.effective(comments@) == Ok::<int, Error>(seconds as int),
                Err(e) => self@.effective(comments@) == Err::<int, Error>(e),
            },
    {
        let payload = match &self.payload {
            Some(payload) => payload,
            None => {
                return Err(Error::StorageError);
            },
        };
        match Entry::new(payload.as_slice()) {
            Ok(_) => {},
            Err(e) => {
                return Err(e);
            },
        }
        match latest_status(comments) {
            Ok((_, date)) => Ok(date.timestamp()),
            Err(e) => Err(e),
        }
    }

    /// The proceedings, if they are attached and are text.
    pub fn proceedings(&self) -> (text: Option<String>)
        ensures
            text is Some <==> self@.proceedings is Some && valid_utf8(self@.proceedings->0),
            text matches Some(t) ==> t@ == decode_utf8(self@.proceedings->0),
    {
        match &self.proceedings {
            Some(bytes) => utf8_text(bytes.as_slice()),
            None => None,
        }
    }

    /// The proceedings as they were attached, byte for byte.
    pub fn raw_proceedings(&self) -> (bytes: Option<&[u8]>)
        ensures
            match bytes {
                Some(bytes) => self@.proceedings == Some(bytes@),
                None => self@.proceedings is None,
            },
    {
        match &self.proceedings {
            Some(bytes) => Some(bytes.as_slice()),
            None => None,
        }
    }

    /// Attach the proceedings, in place of any attached before. A snapshot
    /// that is not sealed takes none.
    pub fn add_proceedings(&mut self, buf: &[u8]) -> (done: Result<(), Error>)
        ensures
            done is Ok <==> old(self)@.payload is Some,
            done is Ok ==> final(self)@ == (SnapshotView {
                proceedings: Some(buf@),
                ..old(self)@
            }),
            done matches Err(e) ==> e == Error::StorageError && final(self)@ == old(self)@,
    {
        if self.payload.is_none() {
            return Err(Error::StorageError);
        }
        self.proceedings = Some(vstd::slice::slice_to_vec(buf));
        Ok(())
    }

    /// The payload, if the snapshot is sealed.
    pub fn zipped_snapshot(&self) -> (payload: Result<Vec<u8>, Error>)
        ensures
            match payload {
                Ok(bytes) => self@.payload == Some(bytes@),
                Err(e) => e == Error::StorageError && self@.payload is None,
            },
    {
        match &self.payload {
            Some(bytes) => Ok(vstd::slice::slice_to_vec(bytes.as_slice())),
            None => Err(Error::StorageError),
        }
    }

    /// Seal the snapshot: it holds this payload from now on, in place of any
    /// it held before, and the entity tag if one is given. Without one the
    /// snapshot keeps the tag it has.
    pub fn add_zipped_snapshot(&mut self, buf: &[u8], etag: Option<&str>)
        ensures
            final(self)@ == old(self)@.sealed(
                buf@,
                match etag {
                    Some(tag) => Some(tag@),
                    None => None,
                },
            ),
    {
        self.payload = Some(vstd::slice::slice_to_vec(buf));
        match etag {
            Some(tag) => {
                self.etag = Some(String::from_str(tag));
            },
            None => {},
        }
    }

    /// The entity tag that came with the payload, as it came.
    pub fn etag(&self) -> (etag: Option<&str>)
        ensures
            match etag {
                Some(tag) => self@.etag == Some(tag@),
                None => self@.etag is None,
            },
    {
        match &self.etag {
            Some(tag) => Some(tag.as_str()),
            None => None,
        }
    }

    /// The same snapshot in another directory.
    fn moved_to(self, dir: String) -> (moved: Snapshot)
        ensures
            moved@ == self@.moved_to(dir@),
    {
        Snapshot { dir, payload: self.payload, etag: self.etag, proceedings: self.proceedings }
    }
}

/// Figure out the correct key for a snapshot based on the URL from where it
/// was downloaded: the name of the directory that holds the file.
pub fn key_from_url(url: &str) -> (key: Result<String, Error>)
    ensures
        match key {
            Ok(key) => parent_name(url@) == Some(key@),
            Err(e) => e == Error::NoKey && parent_name(url@) is None,
        },
{
    match parent_name_of(url) {
        Some(name) => Ok(String::from_str(name)),
        None => Err(Error::NoKey),
    }
}

/// An archive as contracts speak of it.
pub struct ArchiveView {
    /// The directory under which the archive keeps its snapshots.
    pub root: Seq<char>,
    /// The snapshots in the order in which they were added.
    pub snaps: Seq<SnapshotView>,
}

impl ArchiveView {
    /// Where the archive keeps a snapshot of lineage `key` that was added on
    /// the day `today`: in a directory named after the key, under one named
    /// after the day.
    pub open spec fn place(self, today: DateView, key: Seq<char>) -> Seq<char> {
        joined(joined(self.root, today.iso()), key)
    }

    /// The archive after `snap` was added on the day `today`.
    pub open spec fn with(self, snap: SnapshotView, today: DateView) -> ArchiveView {
        ArchiveView {
            snaps: self.snaps.push(snap.moved_to(self.place(today, snap.key()->0))),
            ..self
        }
    }

    /// The snapshots of one lineage, in the order in which they were added.
    pub open spec fn of_lineage(self, key: Seq<char>) -> Seq<SnapshotView> {
        self.snaps.filter(|snap: SnapshotView| snap.key() == Some(key))
    }
}

/// The snapshots that were found, under a root directory of their own.
#[derive(Debug)]
pub struct SnapshotArchive {
    root: String,
    snaps: Vec<Snapshot>,
}

/// Snapshots as contracts speak of them.
pub open spec fn snapshots_view(snaps: Seq<Snapshot>) -> Seq<SnapshotView> {
    snaps.map_values(|snap: Snapshot| snap@)
}

/// Borrowed snapshots as contracts speak of them.
pub open spec fn borrowed_view(snaps: Seq<&Snapshot>) -> Seq<SnapshotView> {
    snaps.map_values(|snap: &Snapshot| snap@)
}

impl View for SnapshotArchive {
    type V = ArchiveView;

    closed spec fn view(&self) -> ArchiveView {
        ArchiveView { root: self.root@, snaps: snapshots_view(self.snaps@) }
    }
}

impl SnapshotArchive {
    /// The archive under `root`, with no snapshot in it yet.
    pub fn open(root: &str) -> (archive: SnapshotArchive)
        ensures
            archive@ == (ArchiveView { root: root@, snaps: Seq::empty() }),
    {
        let archive = SnapshotArchive { root: String::from_str(root), snaps: Vec::new() };
        assert(archive@.snaps =~= Seq::empty());
        archive
    }

    /// The directory under which the archive keeps its snapshots.
    pub fn root(&self) -> (root: &str)
        ensures
            root@ == self@.root,
    {
        self.root.as_str()
    }

    /// The number of snapshots in the archive.
    pub fn len(&self) -> (len: usize)
        ensures
            len == self@.snaps.len(),
    {
        self.snaps.len()
    }

    /// Where the archive would keep `snap` if it was added on the day
    /// `today`. A snapshot without a key has no place.
    pub fn destination(&self, snap: &Snapshot, today: &Date) -> (place: Result<String, Error>)
        ensures
            match place {
                Ok(place) => snap@.key() is Some && place@ == self@.place(today@, snap@.key()->0),
                Err(e) => e == Error::StorageError && snap@.key() is None,
            },
    {
        match snap.key() {
            Some(key) => {
                let dated = join(self.root.as_str(), today.iso().as_str());
                Ok(join(dated.as_str(), key))
            },
            None => Err(Error::StorageError),
        }
    }

    /// Take a snapshot into the archive, on the day `today`. The snapshot
    /// moves: it is the archive's from now on, in the place that the archive
    /// has for it, with all it holds. A snapshot without a key is refused, and
    /// the archive stays as it is.
    pub fn add_snapshot(&mut self, snap: Snapshot, today: &Date) -> (done: Result<(), Error>)
        ensures
            done is Ok <==> snap@.key() is Some,
            done is Ok ==> final(self)@ == old(self)@.with(snap@, today@),
            done matches Err(e) ==> e == Error::StorageError && final(self)@ == old(self)@,
    {
        let place = match self.destination(&snap, today) {
            Ok(place) => place,
            Err(e) => {
                return Err(e);
            },
        };
        let ghost before = self@;
        let ghost moved = snap@.moved_to(place@);
        self.snaps.push(snap.moved_to(place));
        assert(self@.snaps =~= before.snaps.push(moved));
        Ok(())
    }

    /// The snapshots of one lineage, in the order in which they were added.
    pub fn get(&self, key: &str) -> (found: Vec<&Snapshot>)
        ensures
            borrowed_view(found@) == self@.of_lineage(key@),
    {
        let wanted = chars_of(key);
        let ghost all = self@.snaps;
        let ghost keyed = |snap: SnapshotView| snap.key() == Some(key@);
        let mut found: Vec<&Snapshot> = Vec::new();
        let mut i: usize = 0;
        while i < self.snaps.len()
            invariant
                i <= self.snaps.len(),
                all == self@.snaps,
                all.len() == self.snaps.len(),
                wanted@ == key@,
                keyed == |snap: SnapshotView| snap.key() == Some(key@),
                borrowed_view(found@) == all.take(i as int).filter(keyed),
            decreases self.snaps.len() - i,
        {
            let ghost seen = borrowed_view(found@);
            let snap = &self.snaps[i];
            assert(all[i as int] == snap@);
            proof {
                reveal(Seq::filter);
                assert(all.take(i + 1).drop_last() =~= all.take(i as int));
                assert(all.take(i + 1).last() == snap@);
            }
            let same = match snap.key() {
                Some(this_key) => same_text(chars_of(this_key).as_slice(), wanted.as_slice()),
                None => false,
            };
            if same {
                found.push(snap);
                assert(borrowed_view(found@) =~= seen.push(snap@));
            }
            i += 1;
        }
        assert(all.take(i as int) =~= all);
        found
    }

    /// Hand the snapshots out one by one, in the order in which they were
    /// added. The archive is used up by this.
    pub fn into_iter(self) -> (iter: IntoIter)
        ensures
            iter@ == self@.snaps,
    {
        let mut snaps = self.snaps;
        let ghost all = snapshots_view(snaps@);
        let mut rest: Vec<Snapshot> = Vec::new();
        while snaps.len() > 0
            invariant
                snapshots_view(snaps@) + snapshots_view(rest@).reverse() =~= all,
            decreases snaps.len(),
        {
            let ghost front = snapshots_view(snaps@);
            let ghost back = snapshots_view(rest@);
            let snap = snaps.pop().unwrap();
            rest.push(snap);
            assert(snapshots_view(snaps@) =~= front.drop_last());
            assert(snapshots_view(rest@) =~= back.push(front.last()));
            assert(back.push(front.last()).reverse() =~= seq![front.last()] + back.reverse());
        }
        assert(snapshots_view(rest@).reverse() =~= all);
        IntoIter { rest }
    }
}

/// The snapshots of an archive that is being used up.
#[derive(Debug)]
pub struct IntoIter {
    /// What is still to come, the next one last.
    rest: Vec<Snapshot>,
}

impl View for IntoIter {
    type V = Seq<SnapshotView>;

    /// The snapshots that are still to come, the next one first.
    closed spec fn view(&self) -> Seq<SnapshotView> {
        snapshots_view(self.rest@).reverse()
    }
}

impl IntoIter {
    /// The next snapshot, which is the caller's from now on, or nothing once
    /// all are handed out.
    pub fn next(&mut self) -> (snap: Option<Snapshot>)
        ensures
            match snap {
                Some(snap) => old(self)@.len() > 0 && snap@ == old(self)@[0] && final(self)@
                    == old(self)@.drop_first(),
                None => old(self)@.len() == 0 && final(self)@ == old(self)@,
            },
    {
        let ghost before = snapshots_view(self.rest@);
        let snap = self.rest.pop();
        proof {
            if before.len() > 0 {
                assert(snapshots_view(self.rest@) =~= before.drop_last());
                assert(before.drop_last().reverse() =~= before.reverse().drop_first());
            }
        }
        snap
    }
}

/// Sealing is idempotent, and the last seal counts: a snapshot that is sealed
/// twice with the same is as if it was sealed once, and one that is sealed
/// anew holds the new payload whatever it held before.
pub proof fn lemma_sealing_again(
    snap: SnapshotView,
    first: Seq<u8>,
    second: Seq<u8>,
    etag: Option<Seq<char>>,
)
    ensures
        snap.sealed(first, etag).sealed(first, etag) == snap.sealed(first, etag),
        snap.sealed(first, etag).sealed(second, etag) == snap.sealed(second, etag),
        snap.sealed(first, etag).dir == snap.dir,
        snap.sealed(first, etag).proceedings == snap.proceedings,
{
}

/// What goes into an archive comes out of it again: a snapshot that is added
/// follows those that were there before, which stay as they are, and it
/// holds the payload, the entity tag and the proceedings it held when it was
/// added. It lies in the place that the archive has for it, under its old
/// key.
pub proof fn lemma_added_snapshot_comes_out(archive: ArchiveView, snap: SnapshotView, today: DateView)
    requires
        snap.key() is Some,
    ensures
        ({
            let after = archive.with(snap, today);
            &&& after.root == archive.root
            &&& after.snaps.len() == archive.snaps.len() + 1
            &&& after.snaps.drop_last() == archive.snaps
            &&& after.snaps.last().payload == snap.payload
            &&& after.snaps.last().etag == snap.etag
            &&& after.snaps.last().proceedings == snap.proceedings
            &&& after.snaps.last().dir == archive.place(today, snap.key()->0)
            &&& after.snaps.last().key() == snap.key()
        }),
{
    let after = archive.with(snap, today);
    assert(after.snaps.drop_last() =~= archive.snaps);
    crate::path::lemma_file_name_is_component(snap.dir);
    crate::path::lemma_joined_name(joined(archive.root, today.iso()), snap.key()->0);
}

} // verus!
