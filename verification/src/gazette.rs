//! References to the official gazette in which a change of law is announced.

use vstd::prelude::*;

verus! {

/// One announcement in the Federal Law Gazette: the part it appeared in,
/// the year of the volume and the page on which it starts.
#[derive(Debug, Clone, Copy, PartialEq, Eq, Structural)]
pub enum Gazette {
    /// Bundesgesetzblatt, part I.
    BGBl1 { year: i32, page: u32 },
    /// Bundesgesetzblatt, part II.
    BGBl2 { year: i32, page: u32 },
}

impl Gazette {
    /// The year of the volume, whichever part it belongs to.
    pub open spec fn spec_year(&self) -> i32 {
        match *self {
            Gazette::BGBl1 { year, .. } => year,
            Gazette::BGBl2 { year, .. } => year,
        }
    }

    /// The page, whichever part it belongs to.
    pub open spec fn spec_page(&self) -> u32 {
        match *self {
            Gazette::BGBl1 { page, .. } => page,
            Gazette::BGBl2 { page, .. } => page,
        }
    }

    /// The name of the gazette's part, as the documentation system of the
    /// parliament spells it.
    pub open spec fn spec_series_name(&self) -> Seq<char> {
        match *self {
            Gazette::BGBl1 { .. } => "BGBl I"@,
            Gazette::BGBl2 { .. } => "BGBl II"@,
        }
    }

    /// The name of the gazette's part, as the documentation system of the
    /// parliament spells it.
    pub fn series_name(&self) -> (name: &'static str)
        ensures
            name@ == self.spec_series_name(),
    {
        match self {
            Gazette::BGBl1 { .. } => "BGBl I",
            Gazette::BGBl2 { .. } => "BGBl II",
        }
    }

    /// The year of the volume.
    #[verifier::when_used_as_spec(spec_year)]
    pub fn year(&self) -> (y: i32)
        ensures
            y == self.spec_year(),
    {
        match self {
            Gazette::BGBl1 { year, .. } | Gazette::BGBl2 { year, .. } => *year,
        }
    }

    /// The page on which the announcement starts.
    #[verifier::when_used_as_spec(spec_page)]
    pub fn page(&self) -> (p: u32)
        ensures
            p == self.spec_page(),
    {
        match self {
            Gazette::BGBl1 { page, .. } | Gazette::BGBl2 { page, .. } => *page,
        }
    }
}

} // verus!
