//! Status comments: the free text in which a document says how it was last
//! changed, and the citation that some of these comments end in.
//!
//! A citation names the day of the change and the place of its announcement
//! in the gazette, as in `Art. 1 V v. 27.4.2017 I 980`. Most comments carry
//! none; that is no error.

use vstd::prelude::*;
use crate::date::{is_calendar_date, Date, DateView};
use crate::error::Error;
use crate::gazette::Gazette;
use crate::text::{chars_of, i32_of_text, parse_i32, parse_u32, u32_of_text};

verus! {

/// The citation as a regular expression: a word character and a full stop,
/// one white space, the day in one or two digits, a full stop, at most one
/// white space, the month in one or two digits, a full stop, the year in four
/// digits, one white space, the marker of the gazette's part, one white
/// space, the page. Day, month, year, marker and page are its five groups.
pub const CITATION_PATTERN: &'static str =
    "\\w\\.\\s(\\d{1,2})\\.\\s{0,1}(\\d{1,2})\\.(\\d{4})\\s(\\w+)\\s(\\d+)";

/// What the first match of a regular expression in a text captures: the text
/// of each group, the whole match first, with nothing for a group that took
/// no part in the match. There is no result where the expression matches
/// nowhere in the text, or is not a regular expression at all.
pub uninterp spec fn regex_captures(pattern: Seq<char>, haystack: Seq<char>) -> Option<
    Seq<Option<Seq<char>>>,
>;

/// One captured group as contracts speak of it.
pub open spec fn group_view(group: Option<String>) -> Option<Seq<char>> {
    match group {
        Some(text) => Some(text@),
        None => None,
    }
}

/// Captured groups as contracts speak of them.
pub open spec fn groups_view(groups: Seq<Option<String>>) -> Seq<Option<Seq<char>>> {
    groups.map_values(|group: Option<String>| group_view(group))
}

/// `Regex::new` and `Regex::captures` of the `regex` crate, with the groups
/// of the match copied out in the order of `Captures::iter`.
///
/// The claim: what comes back depends on the pattern and the text alone, and
/// it is what [`regex_captures`] names. Nothing else is claimed of it.
#[verifier::external_body]
fn captures(pattern: &str, haystack: &str) -> (groups: Option<Vec<Option<String>>>)
    ensures
        match groups {
            Some(found) => regex_captures(pattern@, haystack@) == Some(groups_view(found@)),
            None => regex_captures(pattern@, haystack@) is None,
        },
{
    let regex = regex::Regex::new(pattern).ok()?;
    let found = regex.captures(haystack)?;
    Some(found.iter().map(|group| group.map(|m| m.as_str().to_string())).collect())
}

/// A status as contracts speak of it: the announcement and the day.
pub type StatusView = (Gazette, DateView);

/// What a parsed comment says, as contracts speak of it.
pub open spec fn status_view(status: Option<(Gazette, Date)>) -> Option<StatusView> {
    match status {
        Some((gazette, date)) => Some((gazette, date@)),
        None => None,
    }
}

/// The part of the gazette that a marker stands for, with year and page.
pub open spec fn gazette_of_marker(marker: Seq<char>, year: i32, page: u32) -> Option<Gazette> {
    if marker == seq!['I'] {
        Some(Gazette::BGBl1 { year, page })
    } else if marker == seq!['I', 'I'] {
        Some(Gazette::BGBl2 { year, page })
    } else {
        None
    }
}

/// The status that the five groups of a citation spell out.
///
/// There is one where day, month, year and page are numbers, the three of
/// them name a day of the calendar, and the marker is a known one. The
/// gazette's year is the year of the date.
pub open spec fn status_of_groups(groups: Seq<Option<Seq<char>>>) -> Option<StatusView> {
    if groups.len() >= 6 && groups[1] is Some && groups[2] is Some && groups[3] is Some
        && groups[4] is Some && groups[5] is Some {
        let day = u32_of_text(groups[1]->0);
        let month = u32_of_text(groups[2]->0);
        let year = i32_of_text(groups[3]->0);
        let page = u32_of_text(groups[5]->0);
        if day is Some && month is Some && year is Some && page is Some && is_calendar_date(
            year->0 as int,
            month->0 as int,
            day->0 as int,
        ) {
            match gazette_of_marker(groups[4]->0, year->0, page->0) {
                Some(gazette) => Some(
                    (
                        gazette,
                        DateView {
                            year: year->0 as int,
                            month: month->0 as int,
                            day: day->0 as int,
                        },
                    ),
                ),
                None => None,
            }
        } else {
            None
        }
    } else {
        None
    }
}

/// The status that a comment states: that of the first citation in it.
pub open spec fn status_of_text(comment: Seq<char>) -> Option<StatusView> {
    match regex_captures(CITATION_PATTERN@, comment) {
        Some(groups) => status_of_groups(groups),
        None => None,
    }
}

/// The part of the gazette that a marker stands for.
fn gazette_for(marker: &[char], year: i32, page: u32) -> (gazette: Option<Gazette>)
    ensures
        gazette == gazette_of_marker(marker@, year, page),
{
    if marker.len() == 1 && marker[0] == 'I' {
        assert(marker@ =~= seq!['I']);
        Some(Gazette::BGBl1 { year, page })
    } else if marker.len() == 2 && marker[0] == 'I' && marker[1] == 'I' {
        assert(marker@ =~= seq!['I', 'I']);
        Some(Gazette::BGBl2 { year, page })
    } else {
        assert(marker@ != seq!['I']) by {
            if marker@ == seq!['I'] {
                assert(marker@.len() == 1 && marker@[0] == 'I');
            }
        }
        assert(marker@ != seq!['I', 'I']) by {
            if marker@ == seq!['I', 'I'] {
                assert(marker@.len() == 2 && marker@[0] == 'I' && marker@[1] == 'I');
            }
        }
        None
    }
}

/// The status that the groups of a matched citation spell out, if they do.
///
/// `groups` holds what a match of [`CITATION_PATTERN`] captured, the whole
/// match first.
pub fn status_from_groups(groups: &Vec<Option<String>>) -> (status: Option<(Gazette, Date)>)
    ensures
        status_view(status) == status_of_groups(groups_view(groups@)),
{
    if groups.len() < 6 {
        return None;
    }
    let ghost views = groups_view(groups@);
    assert(views[1] == group_view(groups@[1]));
    assert(views[2] == group_view(groups@[2]));
    assert(views[3] == group_view(groups@[3]));
    assert(views[4] == group_view(groups@[4]));
    assert(views[5] == group_view(groups@[5]));
    match (&groups[1], &groups[2], &groups[3], &groups[4], &groups[5]) {
        (Some(day), Some(month), Some(year), Some(marker), Some(page)) => {
            let day = match parse_u32(chars_of(day.as_str()).as_slice()) {
                Some(day) => day,
                None => {
                    return None;
                },
            };
            let month = match parse_u32(chars_of(month.as_str()).as_slice()) {
                Some(month) => month,
                None => {
                    return None;
                },
            };
            let year = match parse_i32(chars_of(year.as_str()).as_slice()) {
                Some(year) => year,
                None => {
                    return None;
                },
            };
            let page = match parse_u32(chars_of(page.as_str()).as_slice()) {
                Some(page) => page,
                None => {
                    return None;
                },
            };
            let date = match Date::from_ymd(year, month, day) {
                Some(date) => date,
                None => {
                    return None;
                },
            };
            match gazette_for(chars_of(marker.as_str()).as_slice(), year, page) {
                Some(gazette) => Some((gazette, date)),
                None => None,
            }
        },
        _ => None,
    }
}

/// Read the citation in a status comment. There is no result for a comment
/// that carries none, or one that does not make sense.
pub fn parse_status_comment(comment: &str) -> (status: Option<(Gazette, Date)>)
    ensures
        status_view(status) == status_of_text(comment@),
{
    match captures(CITATION_PATTERN, comment) {
        Some(groups) => status_from_groups(&groups),
        None => None,
    }
}

/// The latest of the statuses up to here: the one with the latest day, and
/// of several with that day the last.
pub open spec fn latest_of(statuses: Seq<Option<StatusView>>) -> Option<StatusView>
    decreases statuses.len(),
{
    if statuses.len() == 0 {
        None
    } else {
        let before = latest_of(statuses.drop_last());
        match (statuses.last(), before) {
            (None, _) => before,
            (Some(status), None) => Some(status),
            (Some(status), Some(best)) => if status.1.precedes(best.1) {
                Some(best)
            } else {
                Some(status)
            },
        }
    }
}

/// The status at `k` is the latest: no status has a later day, and none
/// after it has the same day.
pub open spec fn is_latest(statuses: Seq<Option<StatusView>>, k: int) -> bool {
    &&& 0 <= k < statuses.len()
    &&& statuses[k] is Some
    &&& forall|j: int|
        0 <= j < statuses.len() && statuses[j] is Some ==> !(statuses[k]->0).1.precedes(
            (#[trigger] statuses[j]->0).1,
        )
    &&& forall|j: int|
        k < j < statuses.len() && statuses[j] is Some ==> (#[trigger] statuses[j]->0).1.precedes(
            (statuses[k]->0).1,
        )
}

/// Parsed comments as contracts speak of them.
pub open spec fn statuses_view(statuses: Seq<Option<(Gazette, Date)>>) -> Seq<Option<StatusView>> {
    statuses.map_values(|status: Option<(Gazette, Date)>| status_view(status))
}

/// What each of the comments states.
pub open spec fn statuses_of_texts(comments: Seq<String>) -> Seq<Option<StatusView>> {
    comments.map_values(|comment: String| status_of_text(comment@))
}

/// The latest of a document's statuses, with the comments that state none
/// passed over.
pub fn select_latest(statuses: &Vec<Option<(Gazette, Date)>>) -> (latest: Option<(Gazette, Date)>)
    ensures
        status_view(latest) == latest_of(statuses_view(statuses@)),
{
    let ghost views = statuses_view(statuses@);
    let mut latest: Option<(Gazette, Date)> = None;
    let mut i: usize = 0;
    while i < statuses.len()
        invariant
            i <= statuses.len(),
            views == statuses_view(statuses@),
            status_view(latest) == latest_of(views.take(i as int)),
        decreases statuses.len() - i,
    {
        assert(views.take(i + 1).drop_last() =~= views.take(i as int));
        assert(views.take(i + 1).last() == status_view(statuses@[i as int]));
        match statuses[i] {
            None => {},
            Some((gazette, date)) => {
                match latest {
                    None => {
                        latest = Some((gazette, date));
                    },
                    Some((_, best)) => {
                        if !date.is_before(&best) {
                            latest = Some((gazette, date));
                        }
                    },
                }
            },
        }
        i += 1;
    }
    assert(views.take(i as int) =~= views);
    latest
}

/// The status that a document's comments state: that of the comment with the
/// latest day, and of several with that day the last one. `comments` holds
/// the comments in the order of the document.
pub fn latest_status(comments: &Vec<String>) -> (latest: Result<(Gazette, Date), Error>)
    ensures
        match latest {
            Ok(status) => latest_of(statuses_of_texts(comments@)) == status_view(Some(status)),
            Err(e) => e == Error::NoStatusFound && latest_of(statuses_of_texts(comments@)) is None,
        },
{
    let mut statuses: Vec<Option<(Gazette, Date)>> = Vec::new();
    let mut i: usize = 0;
    while i < comments.len()
        invariant
            i <= comments.len(),
            statuses@.len() == i,
            forall|j: int|
                0 <= j < i ==> status_view(#[trigger] statuses@[j]) == status_of_text(
                    comments@[j]@,
                ),
        decreases comments.len() - i,
    {
        statuses.push(parse_status_comment(comments[i].as_str()));
        i += 1;
    }
    assert(statuses_view(statuses@) =~= statuses_of_texts(comments@));
    match select_latest(&statuses) {
        Some(status) => Ok(status),
        None => Err(Error::NoStatusFound),
    }
}

/// A comment in which the citation is not found states nothing.
pub proof fn lemma_no_citation_no_status(comment: Seq<char>)
    ensures
        regex_captures(CITATION_PATTERN@, comment) is None ==> status_of_text(comment) is None,
{
}

/// The day that a comment states is the day its citation spells out: day,
/// month and year are the numbers that the first three groups of the match
/// write down, whatever else the comment holds and whatever stands between
/// the groups. The year of the gazette is that year, its page the number in
/// the last group.
pub proof fn lemma_status_is_as_cited(comment: Seq<char>)
    ensures
        status_of_text(comment) is Some ==> ({
            let groups = regex_captures(CITATION_PATTERN@, comment)->0;
            let (gazette, date) = status_of_text(comment)->0;
            &&& regex_captures(CITATION_PATTERN@, comment) is Some
            &&& u32_of_text(groups[1]->0) == Some(date.day as u32)
            &&& u32_of_text(groups[2]->0) == Some(date.month as u32)
            &&& i32_of_text(groups[3]->0) == Some(date.year as i32)
            &&& u32_of_text(groups[5]->0) == Some(gazette.spec_page())
            &&& gazette.spec_year() == date.year
            &&& date.valid()
        }),
{
}

/// There is a latest status exactly where some comment states one, and then
/// it is the one the selection yields: no status has a later day, and of
/// those with the same day it is the last.
pub proof fn lemma_latest_is_maximal(statuses: Seq<Option<StatusView>>)
    ensures
        latest_of(statuses) is None <==> forall|j: int|
            0 <= j < statuses.len() ==> #[trigger] statuses[j] is None,
        latest_of(statuses) is Some ==> exists|k: int|
            is_latest(statuses, k) && statuses[k] == latest_of(statuses),
    decreases statuses.len(),
{
    if statuses.len() > 0 {
        let front = statuses.drop_last();
        let last = statuses.len() - 1;
        lemma_latest_is_maximal(front);
        assert forall|j: int| 0 <= j < front.len() implies front[j] == statuses[j] by {}
        if latest_of(front) is None {
            assert forall|j: int| 0 <= j < last implies #[trigger] statuses[j] is None by {
                assert(front[j] is None);
            }
            if statuses.last() is Some {
                assert(is_latest(statuses, last));
            }
        } else {
            let k = choose|k: int| is_latest(front, k) && front[k] == latest_of(front);
            assert(statuses[k] is Some);
            match statuses.last() {
                None => {
                    assert(is_latest(statuses, k)) by {
                        assert forall|j: int|
                            0 <= j < statuses.len() && statuses[j] is Some implies !(
                            statuses[k]->0).1.precedes((#[trigger] statuses[j]->0).1) by {
                            assert(front[j] is Some);
                        }
                        assert forall|j: int|
                            k < j < statuses.len() && statuses[j] is Some implies (
                            #[trigger] statuses[j]->0).1.precedes((statuses[k]->0).1) by {
                            assert(front[j] is Some);
                        }
                    }
                },
                Some(status) => {
                    let best = latest_of(front)->0;
                    if status.1.precedes(best.1) {
                        assert(is_latest(statuses, k)) by {
                            assert forall|j: int|
                                0 <= j < statuses.len() && statuses[j] is Some implies !(
                                statuses[k]->0).1.precedes((#[trigger] statuses[j]->0).1) by {
                                if j < last {
                                    assert(front[j] is Some);
                                }
                            }
                            assert forall|j: int|
                                k < j < statuses.len() && statuses[j] is Some implies (
                                #[trigger] statuses[j]->0).1.precedes((statuses[k]->0).1) by {
                                if j < last {
                                    assert(front[j] is Some);
                                }
                            }
                        }
                    } else {
                        assert(is_latest(statuses, last)) by {
                            assert forall|j: int|
                                0 <= j < statuses.len() && statuses[j] is Some implies !(
                                statuses[last]->0).1.precedes((#[trigger] statuses[j]->0).1) by {
                                if j < last {
                                    assert(front[j] is Some);
                                    assert(!best.1.precedes((front[j]->0).1));
                                }
                            }
                        }
                    }
                },
            }
        }
    }
}

/// At most one status is the latest.
pub proof fn lemma_latest_is_unique(statuses: Seq<Option<StatusView>>, k: int, l: int)
    requires
        is_latest(statuses, k),
        is_latest(statuses, l),
    ensures
        k == l,
{
    if k < l {
        assert((statuses[l]->0).1.precedes((statuses[k]->0).1));
        assert(!(statuses[l]->0).1.precedes((statuses[k]->0).1));
    } else if l < k {
        assert((statuses[k]->0).1.precedes((statuses[l]->0).1));
        assert(!(statuses[k]->0).1.precedes((statuses[l]->0).1));
    }
}

} // verus!
