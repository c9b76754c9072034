//! Quantifiers: how many times a pattern may or must match, and how eagerly.
use vstd::prelude::*;

use crate::interval::{
    bounds_fit, bounds_interval, interval_contains, shorthand_notation_spec, Interval, RangeBound,
};
use crate::text::push_str;

verus! {

/// Reluctance for quantifiers.
#[derive(Clone, Copy, Debug, PartialEq, Eq, Hash)]
pub enum Reluctance {
    /// Grabs as many repetitions as possible, then backtracks if the rest of
    /// the pattern cannot match.
    Greedy,
    /// Starts with as few repetitions as possible, adding more only if the
    /// rest of the pattern cannot match.
    Lazy,
    /// Grabs as many repetitions as possible and never backtracks.
    Possessive,
}

/// The suffix written after a quantifier: nothing, `?` or `+`.
pub open spec fn reluctance_suffix(r: Reluctance) -> Seq<char> {
    match r {
        Reluctance::Greedy => Seq::empty(),
        Reluctance::Lazy => seq!['?'],
        Reluctance::Possessive => seq!['+'],
    }
}

impl Reluctance {
    /// The suffix that marks this reluctance in pattern syntax.
    pub fn suffix(&self) -> (r: &'static str)
        ensures
            r@ == reluctance_suffix(*self),
    {
        proof {
            reveal_strlit("");
            reveal_strlit("?");
            reveal_strlit("+");
        }
        match self {
            Reluctance::Greedy => "",
            Reluctance::Lazy => "?",
            Reluctance::Possessive => "+",
        }
    }
}

impl Default for Reluctance {
    fn default() -> (r: Self)
        ensures
            r == Reluctance::Greedy,
    {
        Reluctance::Greedy
    }
}

/// Defines how many times a pattern may or must match, with an interval and
/// a reluctance.
#[derive(Clone, Copy, Debug, PartialEq, Eq, Hash)]
pub struct Quantifier {
    interval: Interval,
    reluctance: Reluctance,
}

impl View for Quantifier {
    /// `((min, max), reluctance)`.
    type V = ((usize, Option<usize>), Reluctance);

    closed spec fn view(&self) -> ((usize, Option<usize>), Reluctance) {
        (self.interval@, self.reluctance)
    }
}

/// The rendering of a quantifier: its interval in shorthand notation followed
/// by the reluctance suffix.
pub open spec fn quantifier_text(q: ((usize, Option<usize>), Reluctance)) -> Seq<char> {
    shorthand_notation_spec(q.0) + reluctance_suffix(q.1)
}

impl Quantifier {
    /// Creates a quantifier over the range with the ends `start` and `end`,
    /// with the given reluctance.
    pub fn from_bounds(start: RangeBound, end: RangeBound, reluctance: Reluctance) -> (r: Self)
        requires
            bounds_fit(start, end),
        ensures
            r@ == (bounds_interval(start, end), reluctance),
    {
        Quantifier { interval: Interval::from_bounds(start, end), reluctance }
    }

    /// Creates a quantifier over `min..=max` (or `min..` when `max` is
    /// `None`) with the given reluctance.
    pub fn new(min: usize, max: Option<usize>, reluctance: Reluctance) -> (r: Self)
        ensures
            r@ == ((min, max), reluctance),
    {
        Quantifier { interval: Interval::new(min, max), reluctance }
    }

    /// The minimum number of repetitions.
    pub fn min(&self) -> (r: usize)
        ensures
            r == self@.0.0,
    {
        self.interval.min()
    }

    /// The maximum number of repetitions, `None` if unbounded.
    pub fn max(&self) -> (r: Option<usize>)
        ensures
            r == self@.0.1,
    {
        self.interval.max()
    }

    /// The interval of repetition counts.
    pub fn interval(&self) -> (r: Interval)
        ensures
            r@ == self@.0,
    {
        self.interval
    }

    /// The reluctance.
    pub fn reluctance(&self) -> (r: Reluctance)
        ensures
            r == self@.1,
    {
        self.reluctance
    }

    /// Whether `count` repetitions are allowed.
    pub fn contains(&self, count: usize) -> (r: bool)
        ensures
            r == interval_contains(self@.0, count as int),
    {
        self.interval.contains(count)
    }

    /// Whether the number of repetitions is unbounded.
    pub fn is_unbounded(&self) -> (r: bool)
        ensures
            r == (self@.0.1 is None),
    {
        self.interval.is_unbounded()
    }

    /// Exactly once, greedy.
    pub fn once() -> (r: Self)
        ensures
            r@ == ((1usize, Some(1usize)), Reluctance::Greedy),
    {
        Quantifier::new(1, Some(1), Reluctance::Greedy)
    }

    /// The quantifier in pattern syntax, e.g. `{1,5}`, `{3}?`, `*`, `++`.
    pub fn to_string(&self) -> (r: String)
        ensures
            r@ == quantifier_text(self@),
    {
        let mut out = self.interval.shorthand_notation();
        push_str(&mut out, self.reluctance.suffix());
        out
    }
}

impl Default for Quantifier {
    fn default() -> (r: Self)
        ensures
            r@ == ((1usize, Some(1usize)), Reluctance::Greedy),
    {
        Quantifier::once()
    }
}

} // verus!
