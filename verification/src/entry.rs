//! The payload of a snapshot: a zip archive that holds one XML document.

use std::io::Cursor;
use std::io::Read;
use vstd::prelude::*;
use zip::result::ZipError;
use zip::ZipArchive;
use crate::date::Date;
use crate::error::Error;
use crate::gazette::Gazette;
use crate::status::{latest_of, latest_status, status_view, statuses_of_texts};
use crate::text::{chars_of, contains, contains_text};

verus! {

/// `ZipArchive` of the `zip` crate: an archive that is open for reading.
/// Nothing is known of what is inside but through the functions below.
#[verifier::external_type_specification]
#[verifier::external_body]
#[verifier::reject_recursive_types(R)]
pub struct ExZipArchive<R>(ZipArchive<R>);

/// `Cursor` of the standard library, through which an archive reads bytes
/// that are held in memory.
#[verifier::external_type_specification]
#[verifier::external_body]
#[verifier::reject_recursive_types(T)]
pub struct ExCursor<T>(Cursor<T>);

/// `ZipError` of the `zip` crate: why bytes could not be read as an archive.
#[verifier::external_type_specification]
#[verifier::external_body]
pub struct ExZipError(ZipError);

/// A member of an archive as contracts speak of it: its name, and its
/// content where that can be unpacked and is text. There is nothing for a
/// member that cannot be opened.
pub type MemberView = Option<(Seq<char>, Option<Seq<char>>)>;

/// The members that the bytes of a zip archive list, in the order of the
/// archive's directory. There is no result for bytes that are no archive.
pub uninterp spec fn zip_listing(bytes: Seq<u8>) -> Option<Seq<MemberView>>;

/// The members of an open archive, in the order of its directory.
pub uninterp spec fn zip_members(archive: ZipArchive<Cursor<Vec<u8>>>) -> Seq<MemberView>;

/// `ZipArchive::new` of the `zip` crate, on bytes held in memory.
///
/// The claim: whether the bytes open as an archive, and what the archive then
/// holds, depends on the bytes alone.
#[verifier::external_body]
fn open_archive(bytes: Vec<u8>) -> (opened: Result<ZipArchive<Cursor<Vec<u8>>>, ZipError>)
    ensures
        match opened {
            Ok(archive) => zip_listing(bytes@) == Some(zip_members(archive)),
            Err(_) => zip_listing(bytes@) is None,
        },
{
    ZipArchive::new(Cursor::new(bytes))
}

/// `ZipArchive::len` of the `zip` crate: the number of members.
#[verifier::external_body]
fn member_count(archive: &ZipArchive<Cursor<Vec<u8>>>) -> (count: usize)
    ensures
        count == zip_members(*archive).len(),
{
    archive.len()
}

/// `ZipFile::name` of the `zip` crate, for the member that
/// `ZipArchive::by_index_decrypt` opens without a password.
///
/// The claim: the archive holds afterwards what it held before, and the
/// result is the name of the member at `index`, or nothing where that member
/// cannot be opened. (`by_index` would do but for a member that is marked as
/// encrypted in one place and not in another, on which it panics.)
#[verifier::external_body]
fn member_name(archive: &mut ZipArchive<Cursor<Vec<u8>>>, index: usize) -> (name: Option<String>)
    requires
        index < zip_members(*old(archive)).len(),
    ensures
        zip_members(*final(archive)) == zip_members(*old(archive)),
        match name {
            Some(name) => zip_members(*old(archive))[index as int] is Some && (zip_members(
                *old(archive),
            )[index as int]->0).0 == name@,
            None => zip_members(*old(archive))[index as int] is None,
        },
{
    let file = archive.by_index_decrypt(index, &[]).ok()?.ok()?;
    Some(file.name().to_string())
}

/// `Read::read_to_string` on the member that `ZipArchive::by_index_decrypt`
/// opens without a password.
///
/// The claim: the archive holds afterwards what it held before, and the
/// result is the content of the member at `index`, or nothing where the
/// member cannot be opened or unpacked or is no UTF-8 text.
#[verifier::external_body]
fn member_text(archive: &mut ZipArchive<Cursor<Vec<u8>>>, index: usize) -> (text: Option<String>)
    requires
        index < zip_members(*old(archive)).len(),
    ensures
        zip_members(*final(archive)) == zip_members(*old(archive)),
        match text {
            Some(text) => zip_members(*old(archive))[index as int] is Some && (zip_members(
                *old(archive),
            )[index as int]->0).1 == Some(text@),
            None => zip_members(*old(archive))[index as int] is None || (zip_members(
                *old(archive),
            )[index as int]->0).1 is None,
        },
{
    let mut file = archive.by_index_decrypt(index, &[]).ok()?.ok()?;
    let mut text = String::new();
    file.read_to_string(&mut text).ok()?;
    Some(text)
}

/// The mark of a document: its name holds `.xml`.
pub open spec fn is_document_name(name: Seq<char>) -> bool {
    contains_text(name, ".xml"@)
}

/// A member that is a document.
pub open spec fn is_document(member: MemberView) -> bool {
    member is Some && is_document_name((member->0).0)
}

/// The member at `k` is the only document among the members.
pub open spec fn is_only_document(members: Seq<MemberView>, k: int) -> bool {
    &&& 0 <= k < members.len()
    &&& is_document(members[k])
    &&& forall|j: int| 0 <= j < members.len() && j != k ==> !is_document(#[trigger] members[j])
}

/// Every member can be opened, and every document among them read.
pub open spec fn all_readable(members: Seq<MemberView>) -> bool {
    forall|j: int|
        0 <= j < members.len() ==> (#[trigger] members[j]) is Some && (is_document(members[j])
            ==> (members[j]->0).1 is Some)
}

/// The text `xml` is the one document of a well-formed payload.
pub open spec fn is_payload_document(bytes: Seq<u8>, xml: Seq<char>) -> bool {
    &&& zip_listing(bytes) is Some
    &&& all_readable(zip_listing(bytes)->0)
    &&& exists|k: int|
        is_only_document(zip_listing(bytes)->0, k) && ((#[trigger] (zip_listing(bytes)->0)[k])->0).1
            == Some(xml)
}

/// The payload is well-formed: an archive whose members can all be read and
/// of which exactly one is a document.
pub open spec fn is_well_formed_payload(bytes: Seq<u8>) -> bool {
    exists|xml: Seq<char>| is_payload_document(bytes, xml)
}

/// One document of the corpus.
#[derive(Debug)]
pub struct Entry {
    xml: String,
}

impl View for Entry {
    type V = Seq<char>;

    /// The text of the document.
    closed spec fn view(&self) -> Seq<char> {
        self.xml@
    }
}

impl Entry {
    /// Unpack the document of a payload.
    ///
    /// The payload is rejected as malformed unless it is a zip archive
    /// whose members can all be opened and of which exactly one, a readable
    /// one, has `.xml` in its name.
    pub fn new(buf: &[u8]) -> (entry: Result<Entry, Error>)
        ensures
            match entry {
                Ok(entry) => is_payload_document(buf@, entry@),
                Err(e) => e == Error::MalformedPayload && !is_well_formed_payload(buf@),
            },
    {
        let bytes = vstd::slice::slice_to_vec(buf);
        let mut archive = match open_archive(bytes) {
            Ok(archive) => archive,
            Err(_) => {
                return Err(Error::MalformedPayload);
            },
        };
        let ghost members = zip_members(archive);
        let count = member_count(&archive);
        let suffix = chars_of(".xml");
        let mut document: Option<String> = None;
        let ghost mut at: int = -1;
        let mut i: usize = 0;
        while i < count
            invariant
                i <= count,
                count == members.len(),
                zip_members(archive) == members,
                zip_listing(buf@) == Some(members),
                suffix@ == ".xml"@,
                all_readable(members.take(i as int)),
                document is None ==> forall|j: int| 0 <= j < i ==> !is_document(#[trigger] members[j]),
                document is Some ==> is_only_document(members.take(i as int), at) && (members[at]->0).1
                    == Some(document->0@),
            decreases count - i,
        {
            let ghost before = members.take(i as int);
            let ghost after = members.take(i + 1);
            assert(forall|j: int| 0 <= j < i ==> after[j] == before[j]);
            assert(after[i as int] == members[i as int]);
            let name = match member_name(&mut archive, i) {
                Some(name) => name,
                None => {
                    proof {
                        lemma_unreadable_member(buf@, i as int);
                    }
                    return Err(Error::MalformedPayload);
                },
            };
            if contains(chars_of(name.as_str()).as_slice(), suffix.as_slice()) {
                let text = match member_text(&mut archive, i) {
                    Some(text) => text,
                    None => {
                        proof {
                            lemma_unreadable_member(buf@, i as int);
                        }
                        return Err(Error::MalformedPayload);
                    },
                };
                if document.is_some() {
                    proof {
                        lemma_second_document(buf@, at, i as int);
                    }
                    return Err(Error::MalformedPayload);
                }
                document = Some(text);
                proof {
                    at = i as int;
                }
                assert(is_only_document(after, at));
            } else {
                assert(document is Some ==> is_only_document(after, at));
            }
            assert(all_readable(after));
            i += 1;
        }
        assert(members.take(i as int) =~= members);
        match document {
            Some(xml) => Ok(Entry { xml }),
            None => {
                assert(!is_well_formed_payload(buf@));
                Err(Error::MalformedPayload)
            },
        }
    }

    /// The text of the document.
    pub fn xml(&self) -> (xml: &str)
        ensures
            xml@ == self@,
    {
        self.xml.as_str()
    }

    /// The latest status that the document states.
    ///
    /// `comments` holds the text of the document's status comments, in the
    /// order of the document, as an XML reader finds them.
    pub fn latest_status(comments: &Vec<String>) -> (latest: Result<(Gazette, Date), Error>)
        ensures
            match latest {
                Ok(status) => latest_of(statuses_of_texts(comments@)) == status_view(Some(status)),
                Err(e) => e == Error::NoStatusFound && latest_of(statuses_of_texts(comments@))
                    is None,
            },
    {
        latest_status(comments)
    }
}

/// A payload with a member that cannot be read where it has to be is not
/// well-formed.
proof fn lemma_unreadable_member(bytes: Seq<u8>, i: int)
    requires
        zip_listing(bytes) is Some,
        0 <= i < (zip_listing(bytes)->0).len(),
        (zip_listing(bytes)->0)[i] is None || (is_document((zip_listing(bytes)->0)[i]) && ((
        zip_listing(bytes)->0)[i]->0).1 is None),
    ensures
        !is_well_formed_payload(bytes),
{
    assert(!all_readable(zip_listing(bytes)->0));
}

/// A payload with two documents is not well-formed.
proof fn lemma_second_document(bytes: Seq<u8>, i: int, j: int)
    requires
        zip_listing(bytes) is Some,
        0 <= i < j < (zip_listing(bytes)->0).len(),
        is_document((zip_listing(bytes)->0)[i]),
        is_document((zip_listing(bytes)->0)[j]),
    ensures
        !is_well_formed_payload(bytes),
{
    let members = zip_listing(bytes)->0;
    assert forall|k: int| !is_only_document(members, k) by {
        if is_only_document(members, k) {
            if k == i {
                assert(!is_document(members[j]));
            } else {
                assert(!is_document(members[i]));
            }
        }
    }
}

} // verus!
