//! The pattern language: leaf patterns over dCBOR values, structure patterns
//! over the envelope tree, and meta patterns that combine other patterns.
use vstd::prelude::*;

use crate::interval::Interval;
use crate::quantifier::Quantifier;
use crate::text::{bytes_eq_ignore_ascii_case, bytes_eq_ignore_case, bytes_equal};
use vstd::std_specs::cmp::PartialEqSpecImpl;

verus! {

/// A pattern over envelopes.
#[derive(Debug, PartialEq, Eq)]
pub enum Pattern {
    /// Matches leaf values (dCBOR and known values).
    Leaf(LeafPattern),
    /// Matches the structure of the envelope tree.
    Structure(StructurePattern),
    /// Combines or modifies other patterns.
    Meta(MetaPattern),
}

/// Patterns over the value held by a leaf (or a known value).
#[derive(Debug, PartialEq, Eq, Hash)]
pub enum LeafPattern {
    /// Matches any leaf or known value.
    Any,
    /// Matches the specific CBOR.
    Cbor(CBORPattern),
    /// Matches a numeric value.
    Number(NumberPattern),
    /// Matches a text value.
    Text(TextPattern),
    /// Matches a byte string value.
    ByteString(ByteStringPattern),
    /// Matches a tagged value.
    Tag(TaggedPattern),
    /// Matches an array.
    Array(ArrayPattern),
    /// Matches a map.
    MapValue(MapPattern),
    /// Matches a boolean value.
    Bool(BoolPattern),
    /// Matches the null value.
    Null(NullPattern),
    /// Matches a date value.
    Date(DatePattern),
    /// Matches a known value.
    KnownValue(KnownValuePattern),
}

/// Matches CBOR values: any value, one exact value (held as its dCBOR
/// encoding), or a dcbor-pattern expression.
#[derive(Debug, PartialEq, Eq, Hash)]
pub enum CBORPattern {
    Any,
    Value(Vec<u8>),
    Pattern(String),
}

/// Matches numbers. Held as the dcbor-pattern expression that selects them.
#[derive(Debug, PartialEq, Eq, Hash)]
pub struct NumberPattern {
    pub expr: String,
}

/// Matches text values: any text, one exact text, or text matching a regular
/// expression (held as its source).
#[derive(Debug, PartialEq, Eq, Hash)]
pub enum TextPattern {
    Any,
    Value(String),
    Regex(String),
}

/// Matches byte strings. Held as the dcbor-pattern expression that selects
/// them.
#[derive(Debug, PartialEq, Eq, Hash)]
pub struct ByteStringPattern {
    pub expr: String,
}

/// Matches tagged values. Held as the dcbor-pattern expression that selects
/// them.
#[derive(Debug, PartialEq, Eq, Hash)]
pub struct TaggedPattern {
    pub expr: String,
}

/// Matches arrays: any array, arrays of an exact length, arrays whose length
/// lies in an interval, or arrays selected by a dcbor-pattern expression.
#[derive(Debug, PartialEq, Eq, Hash)]
pub enum ArrayPattern {
    Any,
    Count(usize),
    Range(Interval),
    Content(String),
}

/// Matches maps: any map, maps whose number of entries lies in an
/// interval, or maps selected by a dcbor-pattern expression.
#[derive(Debug, PartialEq, Eq, Hash)]
pub enum MapPattern {
    Any,
    Interval(Interval),
    Content(String),
}

/// Matches booleans. Held as the dcbor-pattern expression that selects them.
#[derive(Debug, PartialEq, Eq, Hash)]
pub struct BoolPattern {
    pub expr: String,
}

/// Matches the null value.
#[derive(Debug, PartialEq, Eq, Hash)]
pub struct NullPattern;

/// Matches dates. Held as the dcbor-pattern expression that selects them.
#[derive(Debug, PartialEq, Eq, Hash)]
pub struct DatePattern {
    pub expr: String,
}

/// Matches known values: any known value, one value (with the name it
/// is written with), the value with a given name, or values whose name
/// matches a regular expression (held as its source).
#[derive(Debug, PartialEq, Eq, Hash)]
pub enum KnownValuePattern {
    Any,
    Value { value: u64, name: String },
    Named(String),
    Regex(String),
}

/// Patterns over the structure of the envelope tree.
#[derive(Debug, PartialEq, Eq)]
pub enum StructurePattern {
    /// Matches assertions.
    Assertions(AssertionsPattern),
    /// Matches digests.
    Digest(DigestPattern),
    /// Matches leaf envelopes.
    Leaf(LeafStructurePattern),
    /// Matches nodes.
    Node(NodePattern),
    /// Matches objects.
    Object(ObjectPattern),
    /// Matches obscured elements.
    Obscured(ObscuredPattern),
    /// Matches predicates.
    Predicate(PredicatePattern),
    /// Matches subjects.
    Subject(SubjectPattern),
    /// Matches wrapped envelopes.
    Wrapped(WrappedPattern),
}

/// Matches the assertions of a node.
#[derive(Debug, PartialEq, Eq)]
pub enum AssertionsPattern {
    /// Any assertion.
    Any,
    /// Assertions whose predicate matches the pattern.
    WithPredicate(Box<Pattern>),
    /// Assertions whose object matches the pattern.
    WithObject(Box<Pattern>),
}

/// Matches envelopes by their digest. It has no `Hash`: its `==` compares
/// prefixes without regard to case, which a derived hash would not.
#[derive(Debug, Eq)]
pub enum DigestPattern {
    /// The exact digest.
    Digest(Vec<u8>),
    /// Digests that start with the given bytes, ASCII letters compared
    /// without regard to case.
    Prefix(Vec<u8>),
    /// Digests matched by a binary regular expression (held as its source).
    BinaryRegex(String),
}

/// When two digest patterns are equal: the same digest, prefixes equal
/// without regard to ASCII case, or regular expressions with the same
/// source.
pub open spec fn digest_patterns_equal(a: DigestPattern, b: DigestPattern) -> bool {
    match (a, b) {
        (DigestPattern::Digest(x), DigestPattern::Digest(y)) => x@ == y@,
        (DigestPattern::Prefix(x), DigestPattern::Prefix(y)) => bytes_eq_ignore_case(x@, y@),
        (DigestPattern::BinaryRegex(x), DigestPattern::BinaryRegex(y)) => x@ == y@,
        _ => false,
    }
}

impl PartialEq for DigestPattern {
    fn eq(&self, other: &Self) -> (r: bool) {
        let r = match self {
            DigestPattern::Digest(x) => match other {
                DigestPattern::Digest(y) => {
                    let e = bytes_equal(x.as_slice(), y.as_slice());
                    assert(e == (x@ == y@));
                    e
                },
                _ => false,
            },
            DigestPattern::Prefix(x) => match other {
                DigestPattern::Prefix(y) => {
                    let e = bytes_eq_ignore_ascii_case(x.as_slice(), y.as_slice());
                    assert(e == bytes_eq_ignore_case(x@, y@));
                    e
                },
                _ => false,
            },
            DigestPattern::BinaryRegex(x) => match other {
                DigestPattern::BinaryRegex(y) => {
                    let e = x.eq(y);
                    assert(e == (x@ == y@));
                    e
                },
                _ => false,
            },
        };
        proof {
            assert(r == digest_patterns_equal(*self, *other));
        }
        r
    }
}

impl PartialEqSpecImpl for DigestPattern {
    open spec fn obeys_eq_spec() -> bool {
        true
    }

    open spec fn eq_spec(&self, other: &Self) -> bool {
        digest_patterns_equal(*self, *other)
    }
}

/// Matches leaf envelopes and known values.
#[derive(Debug, PartialEq, Eq, Hash)]
pub struct LeafStructurePattern;

/// Matches nodes.
#[derive(Debug, PartialEq, Eq, Hash)]
pub enum NodePattern {
    /// Any node.
    Any,
    /// A node whose number of assertions lies in the interval.
    AssertionsInterval(Interval),
}

/// Matches the object of an assertion.
#[derive(Debug, PartialEq, Eq)]
pub enum ObjectPattern {
    Any,
    Pattern(Box<Pattern>),
}

/// Matches obscured elements.
#[derive(Debug, PartialEq, Eq, Hash)]
pub enum ObscuredPattern {
    /// Any obscured element.
    Any,
    /// Any elided element.
    Elided,
    /// Any encrypted element.
    Encrypted,
    /// Any compressed element.
    Compressed,
}

/// Matches the predicate of an assertion.
#[derive(Debug, PartialEq, Eq)]
pub enum PredicatePattern {
    Any,
    Pattern(Box<Pattern>),
}

/// Matches the subject of an envelope.
#[derive(Debug, PartialEq, Eq)]
pub enum SubjectPattern {
    Any,
    Pattern(Box<Pattern>),
}

/// Matches wrapped envelopes.
#[derive(Debug, PartialEq, Eq)]
pub enum WrappedPattern {
    /// Any wrapped envelope, without descending into it.
    Any,
    /// A wrapped envelope whose content matches the pattern.
    Unwrap(Box<Pattern>),
}

/// Patterns that combine or modify other patterns.
#[derive(Debug, PartialEq, Eq)]
pub enum MetaPattern {
    /// Always matches.
    Any(AnyPattern),
    /// Never matches.
    Never(NonePattern),
    /// Matches if all contained patterns match.
    And(AndPattern),
    /// Matches if any contained pattern matches.
    Or(OrPattern),
    /// Matches if the inner pattern does not match.
    Not(NotPattern),
    /// Searches the entire envelope tree for matches.
    Search(SearchPattern),
    /// Matches a traversal order of patterns.
    Traverse(TraversePattern),
    /// Matches with repetition.
    Group(GroupPattern),
    /// Captures a pattern match.
    Capture(CapturePattern),
}

/// Always matches.
#[derive(Debug, PartialEq, Eq, Hash)]
pub struct AnyPattern;

/// Never matches.
#[derive(Debug, PartialEq, Eq, Hash)]
pub struct NonePattern;

/// Matches if all contained patterns match.
#[derive(Debug, PartialEq, Eq)]
pub struct AndPattern(pub Vec<Pattern>);

/// Matches if any contained pattern matches.
#[derive(Debug, PartialEq, Eq)]
pub struct OrPattern(pub Vec<Pattern>);

/// Matches if the inner pattern does not match.
#[derive(Debug, PartialEq, Eq)]
pub struct NotPattern(pub Box<Pattern>);

/// Searches the whole envelope tree for elements the inner pattern matches.
#[derive(Debug, PartialEq, Eq)]
pub struct SearchPattern(pub Box<Pattern>);

/// Matches `first`, then the rest of the traversal from where `first` ended.
#[derive(Debug, PartialEq, Eq)]
pub struct TraversePattern {
    pub first: Box<Pattern>,
    pub rest: Option<Box<TraversePattern>>,
}

/// A sub-pattern repeated according to a quantifier.
#[derive(Debug, PartialEq, Eq)]
pub struct GroupPattern {
    pub pattern: Box<Pattern>,
    pub quantifier: Quantifier,
}

/// Records the paths its inner pattern matches under a name.
#[derive(Debug, PartialEq, Eq)]
pub struct CapturePattern {
    pub name: String,
    pub pattern: Box<Pattern>,
}

/// Matches `first`, then the rest of the sequence from where `first` ended.
#[derive(Debug, PartialEq, Eq)]
pub struct SequencePattern {
    pub first: Box<Pattern>,
    pub rest: Option<Box<SequencePattern>>,
}

// ---------------------------------------------------------------------------
// Size: a measure that strictly decreases from a pattern to its parts.
// ---------------------------------------------------------------------------

/// The number of pattern nodes in `p`.
pub open spec fn pattern_size(p: Pattern) -> nat
    decreases p, 0int,
{
    match p {
        Pattern::Leaf(_) => 1,
        Pattern::Structure(s) => match s {
            StructurePattern::Assertions(AssertionsPattern::WithPredicate(q)) => 1
                + pattern_size(*q),
            StructurePattern::Assertions(AssertionsPattern::WithObject(q)) => 1 + pattern_size(
                *q,
            ),
            StructurePattern::Object(ObjectPattern::Pattern(q)) => 1 + pattern_size(*q),
            StructurePattern::Predicate(PredicatePattern::Pattern(q)) => 1 + pattern_size(*q),
            StructurePattern::Subject(SubjectPattern::Pattern(q)) => 1 + pattern_size(*q),
            StructurePattern::Wrapped(WrappedPattern::Unwrap(q)) => 1 + pattern_size(*q),
            _ => 1,
        },
        Pattern::Meta(m) => match m {
            MetaPattern::And(AndPattern(v)) => 1 + patterns_size(v@, v@.len() as int),
            MetaPattern::Or(OrPattern(v)) => 1 + patterns_size(v@, v@.len() as int),
            MetaPattern::Not(NotPattern(q)) => 1 + pattern_size(*q),
            MetaPattern::Search(SearchPattern(q)) => 1 + pattern_size(*q),
            MetaPattern::Traverse(t) => 1 + traverse_size(t),
            MetaPattern::Group(g) => 1 + pattern_size(*g.pattern),
            MetaPattern::Capture(c) => 1 + pattern_size(*c.pattern),
            _ => 1,
        },
    }
}

/// The total size of the first `n` patterns of `s`.
pub open spec fn patterns_size(s: Seq<Pattern>, n: int) -> nat
    decreases s, n,
{
    if n <= 0 || n > s.len() {
        0
    } else {
        patterns_size(s, n - 1) + pattern_size(s[n - 1])
    }
}

/// The total size of the patterns of a traversal.
pub open spec fn traverse_size(t: TraversePattern) -> nat
    decreases t, 0int,
{
    match t.rest {
        Some(r) => pattern_size(*t.first) + traverse_size(*r),
        None => pattern_size(*t.first),
    }
}

/// Each pattern of a list is smaller than the list's total size plus one.
pub proof fn lemma_patterns_size_part(s: Seq<Pattern>, n: int, i: int)
    requires
        0 <= i < n <= s.len(),
    ensures
        pattern_size(s[i]) <= patterns_size(s, n),
    decreases n,
{
    if i < n - 1 {
        lemma_patterns_size_part(s, n - 1, i);
    }
}

/// The patterns of a traversal, in order.
pub open spec fn traverse_patterns(t: TraversePattern) -> Seq<Pattern>
    decreases t,
{
    match t.rest {
        Some(r) => seq![*t.first] + traverse_patterns(*r),
        None => seq![*t.first],
    }
}

/// The patterns of a sequence, in order.
pub open spec fn sequence_patterns(t: SequencePattern) -> Seq<Pattern>
    decreases t,
{
    match t.rest {
        Some(r) => seq![*t.first] + sequence_patterns(*r),
        None => seq![*t.first],
    }
}

} // verus!
