//! Inclusive counting intervals `{min,max}` used by quantifiers and by the
//! node, array and map patterns.
use vstd::prelude::*;

use crate::text::{braced, decimal, push_decimal, push_str, string_of};

verus! {

/// An inclusive interval with a minimum and an optional maximum; a missing
/// maximum means the interval is unbounded above.
#[derive(Clone, Copy, Debug, PartialEq, Eq, Hash)]
pub struct Interval {
    min: usize,
    max: Option<usize>,
}

impl View for Interval {
    /// `(min, max)`, with `max == None` for an unbounded interval.
    type V = (usize, Option<usize>);

    closed spec fn view(&self) -> (usize, Option<usize>) {
        (self.min, self.max)
    }
}

/// Whether `count` lies in the interval `(min, max)`.
pub open spec fn interval_contains(iv: (usize, Option<usize>), count: int) -> bool {
    count >= iv.0 && match iv.1 {
        Some(m) => count <= m,
        None => true,
    }
}

/// `{n}`, `{n,m}` or `{n,}`.
pub open spec fn range_notation_spec(iv: (usize, Option<usize>)) -> Seq<char> {
    match iv.1 {
        Some(m) => if iv.0 == m {
            braced(decimal(iv.0 as nat))
        } else {
            braced(decimal(iv.0 as nat) + seq![','] + decimal(m as nat))
        },
        None => braced(decimal(iv.0 as nat) + seq![',']),
    }
}

/// Like `range_notation_spec`, but `{0,1}`, `{0,}` and `{1,}` are written
/// `?`, `*` and `+`.
pub open spec fn shorthand_notation_spec(iv: (usize, Option<usize>)) -> Seq<char> {
    if iv.0 == 0 && iv.1 == Some(1usize) {
        seq!['?']
    } else if iv.0 == 0 && iv.1 is None {
        seq!['*']
    } else if iv.0 == 1 && iv.1 is None {
        seq!['+']
    } else {
        range_notation_spec(iv)
    }
}

/// One end of a range of counts, as `std::ops::RangeBounds` gives it.
#[derive(Clone, Copy, Debug, PartialEq, Eq, Structural)]
pub enum RangeBound {
    Included(usize),
    Excluded(usize),
    Unbounded,
}

/// The inclusive interval a range with these ends stands for: an excluded
/// start counts from the next number, an excluded end stops at the one
/// before, and a missing start is zero.
pub open spec fn bounds_interval(start: RangeBound, end: RangeBound) -> (usize, Option<usize>) {
    (
        match start {
            RangeBound::Included(a) => a,
            RangeBound::Excluded(a) => (a + 1) as usize,
            RangeBound::Unbounded => 0,
        },
        match end {
            RangeBound::Included(b) => Some(b),
            RangeBound::Excluded(b) => Some((b - 1) as usize),
            RangeBound::Unbounded => None,
        },
    )
}

/// Whether the ends of a range can be turned into an inclusive interval of
/// `usize` counts: an excluded start below the largest count and an
/// excluded end above zero.
pub open spec fn bounds_fit(start: RangeBound, end: RangeBound) -> bool {
    start != RangeBound::Excluded(usize::MAX) && end != RangeBound::Excluded(0)
}

/// The inclusive `(min, max)` a range with these ends stands for.
pub fn interval_of_bounds(start: RangeBound, end: RangeBound) -> (r: (usize, Option<usize>))
    requires
        bounds_fit(start, end),
    ensures
        r == bounds_interval(start, end),
{
    let min = match start {
        RangeBound::Included(a) => a,
        RangeBound::Excluded(a) => a + 1,
        RangeBound::Unbounded => 0,
    };
    let max = match end {
        RangeBound::Included(b) => Some(b),
        RangeBound::Excluded(b) => Some(b - 1),
        RangeBound::Unbounded => None,
    };
    (min, max)
}

impl Interval {
    /// Creates the interval a range with the ends `start` and `end` covers.
    pub fn from_bounds(start: RangeBound, end: RangeBound) -> (r: Self)
        requires
            bounds_fit(start, end),
        ensures
            r@ == bounds_interval(start, end),
    {
        let (min, max) = interval_of_bounds(start, end);
        Interval { min, max }
    }

    /// Creates the interval `min..=max`, or `min..` when `max` is `None`.
    pub fn new(min: usize, max: Option<usize>) -> (r: Self)
        ensures
            r@ == (min, max),
    {
        Interval { min, max }
    }

    /// The minimum of the interval.
    pub fn min(&self) -> (r: usize)
        ensures
            r == self@.0,
    {
        self.min
    }

    /// The maximum of the interval, `None` if it is unbounded.
    pub fn max(&self) -> (r: Option<usize>)
        ensures
            r == self@.1,
    {
        self.max
    }

    /// Whether `count` lies within the interval.
    pub fn contains(&self, count: usize) -> (r: bool)
        ensures
            r == interval_contains(self@, count as int),
    {
        count >= self.min && match self.max {
            Some(m) => count <= m,
            None => true,
        }
    }

    /// Whether the interval holds exactly one value.
    pub fn is_single(&self) -> (r: bool)
        ensures
            r == (self@.1 == Some(self@.0)),
    {
        match self.max {
            Some(m) => m == self.min,
            None => false,
        }
    }

    /// Whether the interval has no maximum.
    pub fn is_unbounded(&self) -> (r: bool)
        ensures
            r == (self@.1 is None),
    {
        self.max.is_none()
    }

    /// `{n}`, `{n,m}` or `{n,}`.
    pub fn range_notation(&self) -> (r: String)
        ensures
            r@ == range_notation_spec(self@),
    {
        let mut out = string_of("{");
        push_decimal(&mut out, self.min);
        match self.max {
            Some(m) => {
                if m != self.min {
                    push_str(&mut out, ",");
                    push_decimal(&mut out, m);
                }
            },
            None => {
                push_str(&mut out, ",");
            },
        }
        push_str(&mut out, "}");
        proof {
            reveal_strlit("{");
            reveal_strlit("}");
            reveal_strlit(",");
        }
        assert(out@ =~= range_notation_spec(self@));
        out
    }

    /// The shorthand rendering: `?`, `*`, `+` where they apply, otherwise the
    /// range notation.
    pub fn shorthand_notation(&self) -> (r: String)
        ensures
            r@ == shorthand_notation_spec(self@),
    {
        proof {
            reveal_strlit("?");
            reveal_strlit("*");
            reveal_strlit("+");
        }
        match self.max {
            Some(m) => {
                if self.min == 0 && m == 1 {
                    string_of("?")
                } else {
                    self.range_notation()
                }
            },
            None => {
                if self.min == 0 {
                    string_of("*")
                } else if self.min == 1 {
                    string_of("+")
                } else {
                    self.range_notation()
                }
            },
        }
    }

    /// The interval rendered in range notation.
    pub fn to_string(&self) -> (r: String)
        ensures
            r@ == range_notation_spec(self@),
    {
        self.range_notation()
    }
}

} // verus!
