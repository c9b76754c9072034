//! Repetition ranges `{min,max}` with a greediness mode.
use vstd::prelude::*;

use crate::interval::{
    bounds_fit, bounds_interval, interval_contains, interval_of_bounds, range_notation_spec,
    RangeBound,
};
use crate::text::{push_decimal, push_str, string_of};

verus! {

/// How a repetition consumes matches.
#[derive(Clone, Copy, Debug, PartialEq, Eq, Hash)]
pub enum Greediness {
    /// As many repetitions as possible, backtracking when needed.
    Greedy,
    /// As few repetitions as possible.
    Lazy,
    /// As many repetitions as possible, never backtracking.
    Possessive,
}

/// The modifier written after a repetition range: nothing, `?` or `+`.
pub open spec fn greediness_modifier(g: Greediness) -> Seq<char> {
    match g {
        Greediness::Greedy => Seq::empty(),
        Greediness::Lazy => seq!['?'],
        Greediness::Possessive => seq!['+'],
    }
}

impl Greediness {
    /// The modifier that marks this greediness in pattern syntax.
    pub fn modifier(&self) -> (r: &'static str)
        ensures
            r@ == greediness_modifier(*self),
    {
        proof {
            reveal_strlit("");
            reveal_strlit("?");
            reveal_strlit("+");
        }
        match self {
            Greediness::Greedy => "",
            Greediness::Lazy => "?",
            Greediness::Possessive => "+",
        }
    }
}

/// A repetition count range with a minimum and an optional maximum.
#[derive(Clone, Debug, PartialEq, Eq, Hash)]
pub struct Repeat {
    min: usize,
    max: Option<usize>,
}

impl View for Repeat {
    /// `(min, max)`, with `max == None` when unbounded.
    type V = (usize, Option<usize>);

    closed spec fn view(&self) -> (usize, Option<usize>) {
        (self.min, self.max)
    }
}

impl Repeat {
    /// Creates the range with the ends `start` and `end`.
    pub fn from_bounds(start: RangeBound, end: RangeBound) -> (r: Self)
        requires
            bounds_fit(start, end),
        ensures
            r@ == bounds_interval(start, end),
    {
        let (min, max) = interval_of_bounds(start, end);
        Repeat { min, max }
    }

    /// Creates the range `min..=max`, or `min..` when `max` is `None`.
    pub fn new(min: usize, max: Option<usize>) -> (r: Self)
        ensures
            r@ == (min, max),
    {
        Repeat { min, max }
    }

    /// The minimum count.
    pub fn min(&self) -> (r: usize)
        ensures
            r == self@.0,
    {
        self.min
    }

    /// The maximum count, `None` if unbounded.
    pub fn max(&self) -> (r: Option<usize>)
        ensures
            r == self@.1,
    {
        self.max
    }

    /// Whether `count` lies within the range.
    pub fn contains(&self, count: usize) -> (r: bool)
        ensures
            r == interval_contains(self@, count as int),
    {
        count >= self.min && match self.max {
            Some(m) => count <= m,
            None => true,
        }
    }

    /// Whether the range holds exactly one count.
    pub fn is_single(&self) -> (r: bool)
        ensures
            r == (self@.1 == Some(self@.0)),
    {
        match self.max {
            Some(m) => m == self.min,
            None => false,
        }
    }

    /// Whether the range has no maximum.
    pub fn is_unbounded(&self) -> (r: bool)
        ensures
            r == (self@.1 is None),
    {
        self.max.is_none()
    }

    /// `{n}`, `{n,m}` or `{n,}`.
    pub fn to_string(&self) -> (r: String)
        ensures
            r@ == range_notation_spec(self@),
    {
        let mut out = string_of("{");
        push_decimal(&mut out, self.min);
        match self.max {
            Some(m) => {
                if m != self.min {
                    push_str(&mut out, ",");
                    push_decimal(&mut out, m);
                }
            },
            None => {
                push_str(&mut out, ",");
            },
        }
        push_str(&mut out, "}");
        proof {
            reveal_strlit("{");
            reveal_strlit("}");
            reveal_strlit(",");
        }
        assert(out@ =~= range_notation_spec(self@));
        out
    }
}

/// A repetition range together with its greediness.
#[derive(Clone, Debug, PartialEq, Eq, Hash)]
pub struct RepeatRange {
    pub repeat: Repeat,
    pub mode: Greediness,
}

impl RepeatRange {
    /// Creates the range with the ends `start` and `end` and the given mode.
    pub fn from_bounds(start: RangeBound, end: RangeBound, mode: Greediness) -> (r: Self)
        requires
            bounds_fit(start, end),
        ensures
            r.repeat@ == bounds_interval(start, end),
            r.mode == mode,
    {
        RepeatRange { repeat: Repeat::from_bounds(start, end), mode }
    }

    /// Creates the range `min..=max` (or `min..`) with the given mode.
    pub fn new(min: usize, max: Option<usize>, mode: Greediness) -> (r: Self)
        ensures
            r.repeat@ == (min, max),
            r.mode == mode,
    {
        RepeatRange { repeat: Repeat::new(min, max), mode }
    }

    /// Whether the range has no maximum.
    pub fn is_unbounded(&self) -> (r: bool)
        ensures
            r == (self.repeat@.1 is None),
    {
        self.repeat.is_unbounded()
    }

    /// The range notation followed by the greediness modifier.
    pub fn to_string(&self) -> (r: String)
        ensures
            r@ == range_notation_spec(self.repeat@) + greediness_modifier(self.mode),
    {
        let mut out = self.repeat.to_string();
        push_str(&mut out, self.mode.modifier());
        out
    }
}

} // verus!
