//! The site that publishes the laws: where its table of contents lies, and
//! what a download from it yields.

use vstd::prelude::*;
use vstd::string::StringExecFns;
use crate::error::Error;
use crate::path::{file_name, joined, name_of, parent_name, parent_name_of};
use crate::snapshot::{key_from_url, Snapshot, SnapshotView};
use crate::text::{chars_of, same_text, trimmed, trimmed_len};

verus! {

/// The address of the site.
pub const ROOT: &'static str = "http://www.gesetze-im-internet.de/";

/// Where, under the site's address, the table of contents lies.
pub const TOC: &'static str = "gii-toc.xml";

/// The URL that a reference stands for when it is found in a document at the
/// URL `base`. There is no result where `base` is no absolute URL, or where
/// the two do not make a URL together.
pub uninterp spec fn url_join(base: Seq<char>, reference: Seq<char>) -> Option<Seq<char>>;

/// `Url::parse` and `Url::join` of the `url` crate, with the URL they make
/// written out as text.
///
/// The claim: what comes back depends on the two texts alone, and it is what
/// [`url_join`] names. Nothing else is claimed of it.
#[verifier::external_body]
fn join_url(base: &str, reference: &str) -> (url: Option<String>)
    ensures
        match url {
            Some(url) => url_join(base@, reference@) == Some(url@),
            None => url_join(base@, reference@) is None,
        },
{
    url::Url::parse(base).ok()?.join(reference).ok().map(String::from)
}

/// The URL of the table of contents, which links to every law that is
/// online.
pub fn toc_url() -> (url: Option<String>)
    ensures
        match url {
            Some(url) => url_join(ROOT@, TOC@) == Some(url@),
            None => url_join(ROOT@, TOC@) is None,
        },
{
    join_url(ROOT, TOC)
}

/// What a conditional download of a document yields.
#[derive(Debug, Clone, PartialEq, Eq)]
pub enum GiiResponse {
    /// The document has changed: where it came from, the payload and the
    /// entity tag that came with it.
    Update { url: String, buf: Vec<u8>, etag: String },
    /// The document is as the caller has it.
    Unchanged,
}

impl GiiResponse {
    /// The snapshot that a response amounts to: none for a document that has
    /// not changed, and for one that has a sealed snapshot under `scratch`,
    /// with the key that the URL gives.
    pub fn into_snapshot(self, scratch: &str) -> (snap: Result<Option<Snapshot>, Error>)
        ensures
            match self {
                GiiResponse::Unchanged => snap == Ok::<Option<Snapshot>, Error>(None),
                GiiResponse::Update { url, buf, etag } => match parent_name(url@) {
                    None => snap == Err::<Option<Snapshot>, Error>(Error::NoKey),
                    Some(key) => snap is Ok && snap->Ok_0 is Some && (snap->Ok_0->0)@ == (
                    SnapshotView {
                        dir: joined(scratch@, key),
                        payload: Some(buf@),
                        etag: Some(etag@),
                        proceedings: None,
                    }),
                },
            },
    {
        match self {
            GiiResponse::Unchanged => Ok(None),
            GiiResponse::Update { url, buf, etag } => {
                let key = match key_from_url(url.as_str()) {
                    Ok(key) => key,
                    Err(e) => {
                        return Err(e);
                    },
                };
                let mut snap = Snapshot::new(scratch, key.as_str());
                snap.add_zipped_snapshot(buf.as_slice(), Some(etag.as_str()));
                Ok(Some(snap))
            },
        }
    }
}

/// What the name of an archived payload ends in.
pub const ARCHIVED: &'static str = ".zip";

/// A lineage and the entity tag of its payload, as contracts speak of them.
pub type TagView = (Seq<char>, Seq<char>);

/// What the path of an archived payload says: the directory it lies in names
/// the lineage, and its own name, without the `.zip` it ends in, is the
/// entity tag it was downloaded with. A path without such a directory or
/// without a name says nothing.
pub open spec fn tag_of_path(path: Seq<char>) -> Option<TagView> {
    match (parent_name(path), file_name(path)) {
        (Some(key), Some(name)) => Some((key, trimmed(name, ARCHIVED@))),
        _ => None,
    }
}

/// What the paths of archived payloads say, in their order.
pub open spec fn tags_of_paths(paths: Seq<String>) -> Seq<TagView>
    decreases paths.len(),
{
    if paths.len() == 0 {
        Seq::empty()
    } else {
        match tag_of_path(paths.last()@) {
            Some(tag) => tags_of_paths(paths.drop_last()).push(tag),
            None => tags_of_paths(paths.drop_last()),
        }
    }
}

/// The entity tag that is known of a lineage: the last one that was found
/// for it.
pub open spec fn known_tag(tags: Seq<TagView>, key: Seq<char>) -> Option<Seq<char>>
    decreases tags.len(),
{
    if tags.len() == 0 {
        None
    } else if tags.last().0 == key {
        Some(tags.last().1)
    } else {
        known_tag(tags.drop_last(), key)
    }
}

/// The value of the header that asks for a document only if its entity tag
/// is another one by now: the tag between quotation marks.
pub open spec fn quoted(tag: Seq<char>) -> Seq<char> {
    seq!['"'] + tag + seq!['"']
}

/// The entity tags of the payloads that an archive holds, by lineage.
#[derive(Debug)]
pub struct EtagIndex {
    tags: Vec<(String, String)>,
}

/// Tags as contracts speak of them.
pub open spec fn tags_view(tags: Seq<(String, String)>) -> Seq<TagView> {
    tags.map_values(|tag: (String, String)| (tag.0@, tag.1@))
}

impl View for EtagIndex {
    type V = Seq<TagView>;

    closed spec fn view(&self) -> Seq<TagView> {
        tags_view(self.tags@)
    }
}

/// What the path of an archived payload says.
pub fn etag_of_path(path: &str) -> (tag: Option<(String, String)>)
    ensures
        match tag {
            Some(tag) => tag_of_path(path@) == Some((tag.0@, tag.1@)),
            None => tag_of_path(path@) is None,
        },
{
    let key = match parent_name_of(path) {
        Some(key) => key,
        None => {
            return None;
        },
    };
    let name = match name_of(path) {
        Some(name) => name,
        None => {
            return None;
        },
    };
    let len = trimmed_len(chars_of(name).as_slice(), chars_of(ARCHIVED).as_slice());
    let tag = name.substring_char(0, len);
    assert(tag@ =~= name@.take(len as int));
    Some((String::from_str(key), String::from_str(tag)))
}

impl EtagIndex {
    /// The entity tags that the paths of the archived payloads give.
    pub fn new(paths: &Vec<String>) -> (index: EtagIndex)
        ensures
            index@ == tags_of_paths(paths@),
    {
        let mut tags: Vec<(String, String)> = Vec::new();
        let mut i: usize = 0;
        while i < paths.len()
            invariant
                i <= paths.len(),
                tags_view(tags@) == tags_of_paths(paths@.take(i as int)),
            decreases paths.len() - i,
        {
            let ghost before = tags_view(tags@);
            assert(paths@.take(i + 1).drop_last() =~= paths@.take(i as int));
            assert(paths@.take(i + 1).last() == paths@[i as int]);
            match etag_of_path(paths[i].as_str()) {
                Some(tag) => {
                    let ghost view = (tag.0@, tag.1@);
                    tags.push(tag);
                    assert(tags_view(tags@) =~= before.push(view));
                },
                None => {},
            }
            i += 1;
        }
        assert(paths@.take(i as int) =~= paths@);
        EtagIndex { tags }
    }

    /// The entity tag that is known of the document at `url`, if one is.
    pub fn get(&self, url: &str) -> (tag: Option<&str>)
        ensures
            match tag {
                Some(tag) => parent_name(url@) is Some && known_tag(self@, parent_name(url@)->0)
                    == Some(tag@),
                None => parent_name(url@) is None || known_tag(self@, parent_name(url@)->0)
                    is None,
            },
    {
        let key = match parent_name_of(url) {
            Some(key) => chars_of(key),
            None => {
                return None;
            },
        };
        let ghost all = tags_view(self.tags@);
        let mut i: usize = self.tags.len();
        assert(all.take(i as int) =~= all);
        while i > 0
            invariant
                i <= self.tags.len(),
                all == tags_view(self.tags@),
                parent_name(url@) is Some,
                key@ == parent_name(url@)->0,
                known_tag(all, key@) == known_tag(all.take(i as int), key@),
            decreases i,
        {
            assert(all.take(i as int).drop_last() =~= all.take(i - 1));
            assert(all.take(i as int).last() == all[i - 1]);
            assert(all[i - 1] == (self.tags@[i - 1].0@, self.tags@[i - 1].1@));
            i -= 1;
            if same_text(chars_of(self.tags[i].0.as_str()).as_slice(), key.as_slice()) {
                assert(known_tag(all.take(i + 1), key@) == Some(all[i as int].1));
                return Some(self.tags[i].1.as_str());
            }
        }
        None
    }

    /// The value of the header that asks for the document at `url` only if
    /// it has changed, if an entity tag of that document is known.
    pub fn if_none_match(&self, url: &str) -> (value: Option<String>)
        ensures
            match value {
                Some(value) => parent_name(url@) is Some && known_tag(self@, parent_name(url@)->0)
                    is Some && value@ == quoted(known_tag(self@, parent_name(url@)->0)->0),
                None => parent_name(url@) is None || known_tag(self@, parent_name(url@)->0)
                    is None,
            },
    {
        match self.get(url) {
            Some(tag) => {
                proof {
                    reveal_strlit("\"");
                }
                let mut value = String::from_str("\"");
                value.append(tag);
                value.append("\"");
                assert(value@ =~= quoted(tag@));
                Some(value)
            },
            None => None,
        }
    }
}

} // verus!
