//! Paths written with `/` between their components, as URLs and the
//! directories of an archive are.
//!
//! Components are what stands between the separators. Empty ones do not
//! count, nor does a `.` unless the path begins with it.

use vstd::prelude::*;
use vstd::string::StringExecFns;
use crate::text::chars_of;

verus! {

/// Where the run of characters without a separator that ends before `end`
/// begins.
pub open spec fn segment_start(path: Seq<char>, end: int) -> int
    decreases end,
{
    if end <= 0 {
        0
    } else if path[end - 1] == '/' {
        end
    } else {
        segment_start(path, end - 1)
    }
}

/// The bounds of the last component that ends at or before `end`, a place
/// where a component can end.
pub open spec fn last_component(path: Seq<char>, end: int) -> Option<(int, int)>
    decreases end,
{
    if end <= 0 {
        None
    } else if path[end - 1] == '/' {
        last_component(path, end - 1)
    } else if end >= 2 && path[end - 1] == '.' && path[end - 2] == '/' {
        last_component(path, end - 1)
    } else {
        Some((segment_start(path, end), end))
    }
}

/// A component that names something, unlike `.` and `..`.
pub open spec fn is_name(component: Seq<char>) -> bool {
    component != seq!['.'] && component != seq!['.', '.']
}

/// The name that a path ends in, if it ends in one.
pub open spec fn file_name(path: Seq<char>) -> Option<Seq<char>> {
    match last_component(path, path.len() as int) {
        Some((start, end)) => if is_name(path.subrange(start, end)) {
            Some(path.subrange(start, end))
        } else {
            None
        },
        None => None,
    }
}

/// The name of the directory that holds what the path ends in: the last
/// component but one, if that is a name.
pub open spec fn parent_name(path: Seq<char>) -> Option<Seq<char>> {
    match last_component(path, path.len() as int) {
        Some((start, _)) => match last_component(path, start) {
            Some((start, end)) => if is_name(path.subrange(start, end)) {
                Some(path.subrange(start, end))
            } else {
                None
            },
            None => None,
        },
        None => None,
    }
}

/// `more` appended to `path` as a further component. A `more` that starts at
/// the root stands for itself.
pub open spec fn joined(path: Seq<char>, more: Seq<char>) -> Seq<char> {
    if more.len() > 0 && more[0] == '/' {
        more
    } else if path.len() == 0 || path.last() == '/' {
        path + more
    } else {
        path + seq!['/'] + more
    }
}

/// No separator stands in a text.
pub open spec fn is_single_component(text: Seq<char>) -> bool {
    text.len() > 0 && forall|i: int| 0 <= i < text.len() ==> text[i] != '/'
}

/// A run of characters without a separator begins where the last separator
/// before its end stands.
proof fn lemma_segment_start(path: Seq<char>, end: int)
    requires
        0 <= end <= path.len(),
    ensures
        0 <= segment_start(path, end) <= end,
        segment_start(path, end) == 0 || path[segment_start(path, end) - 1] == '/',
        forall|i: int| segment_start(path, end) <= i < end ==> path[i] != '/',
    decreases end,
{
    if end > 0 && path[end - 1] != '/' {
        lemma_segment_start(path, end - 1);
    }
}

/// A component is not empty and holds no separator.
proof fn lemma_component(path: Seq<char>, end: int)
    requires
        0 <= end <= path.len(),
        last_component(path, end) is Some,
    ensures
        ({
            let (from, to) = last_component(path, end)->0;
            0 <= from < to <= end && is_single_component(path.subrange(from, to))
        }),
    decreases end,
{
    if end > 0 {
        if path[end - 1] == '/' {
            lemma_component(path, end - 1);
        } else if end >= 2 && path[end - 1] == '.' && path[end - 2] == '/' {
            lemma_component(path, end - 1);
        } else {
            lemma_segment_start(path, end);
            lemma_segment_start(path, end - 1);
        }
    }
}

/// The name that a path ends in is a single component, and a name.
pub proof fn lemma_file_name_is_component(path: Seq<char>)
    requires
        file_name(path) is Some,
    ensures
        is_single_component(file_name(path)->0),
        is_name(file_name(path)->0),
{
    lemma_component(path, path.len() as int);
}

/// A path that a name was appended to ends in that name.
pub proof fn lemma_joined_name(path: Seq<char>, name: Seq<char>)
    requires
        is_single_component(name),
        is_name(name),
    ensures
        file_name(joined(path, name)) == Some(name),
{
    let whole = joined(path, name);
    let end = whole.len() as int;
    let from = end - name.len();
    assert(whole.subrange(from, end) =~= name);
    assert forall|i: int| from <= i < end implies whole[i] == name[i - from] by {}
    assert(whole[end - 1] == name[name.len() - 1]);
    assert(from == 0 || whole[from - 1] == '/');
    if end >= 2 && whole[end - 1] == '.' && whole[end - 2] == '/' {
        if name.len() == 1 {
            assert(name =~= seq!['.']);
        } else {
            assert(whole[end - 2] == name[name.len() - 2]);
        }
    }
    lemma_segment_start(whole, end);
    let start = segment_start(whole, end);
    if start < from {
        assert(whole[from - 1] == '/');
    } else if start > from {
        assert(whole[start - 1] == name[start - 1 - from]);
    }
}

/// The bounds of the last component before `end`.
fn find_component(path: &[char], end: usize) -> (bounds: Option<(usize, usize)>)
    requires
        end <= path.len(),
    ensures
        match bounds {
            Some((from, to)) => last_component(path@, end as int) == Some((from as int, to as int))
                && from < to <= end,
            None => last_component(path@, end as int) is None,
        },
{
    let mut to: usize = end;
    while to > 0 && (path[to - 1] == '/' || (to >= 2 && path[to - 1] == '.' && path[to - 2] == '/'))
        invariant
            to <= end <= path.len(),
            last_component(path@, end as int) == last_component(path@, to as int),
        decreases to,
    {
        to -= 1;
    }
    if to == 0 {
        return None;
    }
    let mut from: usize = to;
    while from > 0 && path[from - 1] != '/'
        invariant
            from <= to <= path.len(),
            to > 0,
            path@[to - 1] != '/',
            segment_start(path@, to as int) == segment_start(path@, from as int),
        decreases from,
    {
        from -= 1;
    }
    assert(from < to) by {
        if from == to {
            assert(path@[from - 1] == '/');
        }
    }
    Some((from, to))
}

/// Whether the characters between the bounds are a name.
fn names_something(path: &[char], from: usize, to: usize) -> (named: bool)
    requires
        from < to <= path.len(),
    ensures
        named == is_name(path@.subrange(from as int, to as int)),
{
    let component = Ghost(path@.subrange(from as int, to as int));
    if to - from == 1 && path[from] == '.' {
        assert(component@ =~= seq!['.']);
        false
    } else if to - from == 2 && path[from] == '.' && path[from + 1] == '.' {
        assert(component@ =~= seq!['.', '.']);
        false
    } else {
        assert(component@ != seq!['.']) by {
            if component@ == seq!['.'] {
                assert(component@.len() == 1 && component@[0] == '.');
            }
        }
        assert(component@ != seq!['.', '.']) by {
            if component@ == seq!['.', '.'] {
                assert(component@.len() == 2 && component@[0] == '.' && component@[1] == '.');
            }
        }
        true
    }
}

/// The name that a path ends in, if it ends in one.
pub fn name_of<'a>(path: &'a str) -> (name: Option<&'a str>)
    ensures
        match name {
            Some(name) => file_name(path@) == Some(name@),
            None => file_name(path@) is None,
        },
{
    let chars = chars_of(path);
    match find_component(chars.as_slice(), chars.len()) {
        Some((from, to)) => {
            if names_something(chars.as_slice(), from, to) {
                Some(path.substring_char(from, to))
            } else {
                None
            }
        },
        None => None,
    }
}

/// The name of the directory that holds what the path ends in.
pub fn parent_name_of<'a>(path: &'a str) -> (name: Option<&'a str>)
    ensures
        match name {
            Some(name) => parent_name(path@) == Some(name@),
            None => parent_name(path@) is None,
        },
{
    let chars = chars_of(path);
    let file = match find_component(chars.as_slice(), chars.len()) {
        Some((from, _)) => from,
        None => {
            return None;
        },
    };
    match find_component(chars.as_slice(), file) {
        Some((from, to)) => {
            if names_something(chars.as_slice(), from, to) {
                Some(path.substring_char(from, to))
            } else {
                None
            }
        },
        None => None,
    }
}

/// `more` appended to `path` as a further component.
pub fn join(path: &str, more: &str) -> (whole: String)
    ensures
        whole@ == joined(path@, more@),
{
    let head = chars_of(path);
    let tail = chars_of(more);
    if tail.len() > 0 && tail[0] == '/' {
        String::from_str(more)
    } else if head.len() == 0 || head[head.len() - 1] == '/' {
        let mut whole = String::from_str(path);
        whole.append(more);
        whole
    } else {
        proof {
            reveal_strlit("/");
        }
        let mut whole = String::from_str(path);
        whole.append("/");
        whole.append(more);
        assert(whole@ =~= path@ + seq!['/'] + more@);
        whole
    }
}

} // verus!
