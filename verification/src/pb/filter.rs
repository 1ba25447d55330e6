//! The colour filters an image can be given.
use vstd::prelude::*;

verus! {

/// A named colour filter.
#[derive(Clone, Copy, Debug, PartialEq, Eq, Structural)]
pub enum Filter {
    Unspecified,
    Oceanic,
    Islands,
    Marine,
}

/// The filter with protocol number `v`, if there is one.
pub open spec fn filter_of(v: i32) -> Option<Filter> {
    if v == 0 {
        Some(Filter::Unspecified)
    } else if v == 1 {
        Some(Filter::Oceanic)
    } else if v == 2 {
        Some(Filter::Islands)
    } else if v == 3 {
        Some(Filter::Marine)
    } else {
        None
    }
}

/// The protocol number of a filter.
pub open spec fn filter_number(f: Filter) -> i32 {
    match f {
        Filter::Unspecified => 0,
        Filter::Oceanic => 1,
        Filter::Islands => 2,
        Filter::Marine => 3,
    }
}

/// The name the image library knows a filter by; none for `Unspecified`.
pub open spec fn filter_name(f: Filter) -> Option<Seq<char>> {
    match f {
        Filter::Unspecified => None,
        Filter::Oceanic => Some(seq!['o', 'c', 'e', 'a', 'n', 'i', 'c']),
        Filter::Islands => Some(seq!['i', 's', 'l', 'a', 'n', 'd', 's']),
        Filter::Marine => Some(seq!['m', 'a', 'r', 'i', 'n', 'e']),
    }
}

impl Filter {
    /// The filter with protocol number `v`, if there is one.
    pub fn from_i32(v: i32) -> (r: Option<Filter>)
        ensures
            r == filter_of(v),
    {
        if v == 0 {
            Some(Filter::Unspecified)
        } else if v == 1 {
            Some(Filter::Oceanic)
        } else if v == 2 {
            Some(Filter::Islands)
        } else if v == 3 {
            Some(Filter::Marine)
        } else {
            None
        }
    }

    /// The protocol number of this filter.
    pub fn to_i32(&self) -> (r: i32)
        ensures
            r == filter_number(*self),
            filter_of(r) == Some(*self),
    {
        match self {
            Filter::Unspecified => 0,
            Filter::Oceanic => 1,
            Filter::Islands => 2,
            Filter::Marine => 3,
        }
    }

    /// The name the image library knows this filter by; none for `Unspecified`.
    pub fn to_string(&self) -> (r: Option<&'static str>)
        ensures
            match r {
                Some(s) => filter_name(*self) == Some(s@),
                None => filter_name(*self) is None,
            },
    {
        match self {
            Filter::Unspecified => None,
            Filter::Oceanic => {
                proof {
                    reveal_strlit("oceanic");
                }
                Some("oceanic")
            },
            Filter::Islands => {
                proof {
                    reveal_strlit("islands");
                }
                Some("islands")
            },
            Filter::Marine => {
                proof {
                    reveal_strlit("marine");
                }
                Some("marine")
            },
        }
    }
}

} // verus!
