//! Constructors and accessors of patterns.
use vstd::prelude::*;

use crate::interval::{Interval};
use crate::pattern::{
    AndPattern, AnyPattern, ArrayPattern, AssertionsPattern, BoolPattern, ByteStringPattern,
    CBORPattern, CapturePattern, DatePattern, DigestPattern, GroupPattern, KnownValuePattern,
    LeafPattern, LeafStructurePattern, MapPattern, MetaPattern, NodePattern, NonePattern,
    NotPattern, NullPattern, NumberPattern, ObjectPattern, ObscuredPattern, OrPattern, Pattern,
    PredicatePattern, SearchPattern, SequencePattern, StructurePattern, SubjectPattern,
    TaggedPattern, TextPattern, TraversePattern, WrappedPattern, sequence_patterns,
    traverse_patterns,
};
use crate::quantifier::{Quantifier, Reluctance};
use crate::text::{
    decimal, hex_encode, hex_spec, push_decimal_u64, push_signed, push_str,
    signed_decimal, string_of,
};

verus! {

/// `prefix` followed by the signed decimal rendering of `v`.
fn signed_expr(prefix: &str, v: i64) -> (r: String)
    ensures
        r@ == prefix@ + signed_decimal(v as int),
{
    let mut out = string_of(prefix);
    push_signed(&mut out, v);
    out
}

/// `prefix` + `middle` + `suffix`.
fn wrap_expr(prefix: &str, middle: &str, suffix: &str) -> (r: String)
    ensures
        r@ == prefix@ + middle@ + suffix@,
{
    let mut out = string_of(prefix);
    push_str(&mut out, middle);
    push_str(&mut out, suffix);
    out
}

// ---------------------------------------------------------------------------
// Leaf patterns
// ---------------------------------------------------------------------------

impl NumberPattern {
    /// Matches any number.
    pub fn any() -> (r: Self)
        ensures
            r.expr@ == "number"@,
    {
        NumberPattern { expr: string_of("number") }
    }

    /// Matches the number `value`.
    pub fn exact(value: i64) -> (r: Self)
        ensures
            r.expr@ == signed_decimal(value as int),
    {
        proof {
            reveal_strlit("");
        }
        NumberPattern { expr: signed_expr("", value) }
    }

    /// Matches numbers from `min` to `max`, both included.
    pub fn range(min: i64, max: i64) -> (r: Self)
        ensures
            r.expr@ == signed_decimal(min as int) + "..."@ + signed_decimal(max as int),
    {
        proof {
            reveal_strlit("");
            reveal_strlit("...");
        }
        let mut out = signed_expr("", min);
        push_str(&mut out, "...");
        push_signed(&mut out, max);
        NumberPattern { expr: out }
    }

    /// Matches numbers greater than `value`.
    pub fn greater_than(value: i64) -> (r: Self)
        ensures
            r.expr@ == ">"@ + signed_decimal(value as int),
    {
        NumberPattern { expr: signed_expr(">", value) }
    }

    /// Matches numbers greater than or equal to `value`.
    pub fn greater_than_or_equal(value: i64) -> (r: Self)
        ensures
            r.expr@ == ">="@ + signed_decimal(value as int),
    {
        NumberPattern { expr: signed_expr(">=", value) }
    }

    /// Matches numbers less than `value`.
    pub fn less_than(value: i64) -> (r: Self)
        ensures
            r.expr@ == "<"@ + signed_decimal(value as int),
    {
        NumberPattern { expr: signed_expr("<", value) }
    }

    /// Matches numbers less than or equal to `value`.
    pub fn less_than_or_equal(value: i64) -> (r: Self)
        ensures
            r.expr@ == "<="@ + signed_decimal(value as int),
    {
        NumberPattern { expr: signed_expr("<=", value) }
    }

    /// Matches NaN.
    pub fn nan() -> (r: Self)
        ensures
            r.expr@ == "NaN"@,
    {
        NumberPattern { expr: string_of("NaN") }
    }

    /// The number pattern written as the dcbor-pattern expression `expr`.
    pub fn from_dcbor_pattern(expr: &str) -> (r: Self)
        ensures
            r.expr@ == expr@,
    {
        NumberPattern { expr: string_of(expr) }
    }
}

impl BoolPattern {
    /// Matches any boolean.
    pub fn any() -> (r: Self)
        ensures
            r.expr@ == "bool"@,
    {
        BoolPattern { expr: string_of("bool") }
    }

    /// Matches the boolean `value`.
    pub fn value(value: bool) -> (r: Self)
        ensures
            r.expr@ == (if value {
                "true"@
            } else {
                "false"@
            }),
    {
        if value {
            BoolPattern { expr: string_of("true") }
        } else {
            BoolPattern { expr: string_of("false") }
        }
    }

    /// The boolean pattern written as the dcbor-pattern expression `expr`.
    pub fn from_dcbor_pattern(expr: &str) -> (r: Self)
        ensures
            r.expr@ == expr@,
    {
        BoolPattern { expr: string_of(expr) }
    }
}

impl TextPattern {
    /// Matches any text.
    pub fn any() -> (r: Self)
        ensures
            r == TextPattern::Any,
    {
        TextPattern::Any
    }

    /// Matches the text `value`.
    pub fn value(value: &str) -> (r: Self)
        ensures
            r matches TextPattern::Value(v) && v@ == value@,
    {
        TextPattern::Value(string_of(value))
    }

    /// Matches text that the regular expression `regex` matches.
    pub fn regex(regex: &str) -> (r: Self)
        ensures
            r matches TextPattern::Regex(v) && v@ == regex@,
    {
        TextPattern::Regex(string_of(regex))
    }
}

impl ByteStringPattern {
    /// Matches any byte string.
    pub fn any() -> (r: Self)
        ensures
            r.expr@ == "bstr"@,
    {
        ByteStringPattern { expr: string_of("bstr") }
    }

    /// Matches the byte string `value`.
    pub fn value(value: &[u8]) -> (r: Self)
        ensures
            r.expr@ == "h'"@ + hex_spec(value@) + "'"@,
    {
        let h = hex_encode(value);
        ByteStringPattern { expr: wrap_expr("h'", h.as_str(), "'") }
    }

    /// Matches byte strings that the binary regular expression `regex`
    /// matches.
    pub fn regex(regex: &str) -> (r: Self)
        ensures
            r.expr@ == "h'/"@ + regex@ + "/'"@,
    {
        ByteStringPattern { expr: wrap_expr("h'/", regex, "/'") }
    }

    /// The byte string pattern written as the dcbor-pattern expression
    /// `expr`.
    pub fn from_dcbor_pattern(expr: &str) -> (r: Self)
        ensures
            r.expr@ == expr@,
    {
        ByteStringPattern { expr: string_of(expr) }
    }
}

impl DatePattern {
    /// Matches any date.
    pub fn any() -> (r: Self)
        ensures
            r.expr@ == "date"@,
    {
        DatePattern { expr: string_of("date") }
    }

    /// Matches the date written `iso` (ISO-8601).
    pub fn value(iso: &str) -> (r: Self)
        ensures
            r.expr@ == "date'"@ + iso@ + "'"@,
    {
        DatePattern { expr: wrap_expr("date'", iso, "'") }
    }

    /// Matches dates from `earliest` to `latest`, both included.
    pub fn range(earliest: &str, latest: &str) -> (r: Self)
        ensures
            r.expr@ == "date'"@ + earliest@ + "..."@ + latest@ + "'"@,
    {
        proof {
            reveal_strlit("...");
            reveal_strlit("'");
        }
        let mut out = wrap_expr("date'", earliest, "...");
        push_str(&mut out, latest);
        push_str(&mut out, "'");
        DatePattern { expr: out }
    }

    /// Matches dates on or after `date`.
    pub fn earliest(date: &str) -> (r: Self)
        ensures
            r.expr@ == "date'"@ + date@ + "...'"@,
    {
        DatePattern { expr: wrap_expr("date'", date, "...'") }
    }

    /// Matches dates on or before `date`.
    pub fn latest(date: &str) -> (r: Self)
        ensures
            r.expr@ == "date'..."@ + date@ + "'"@,
    {
        DatePattern { expr: wrap_expr("date'...", date, "'") }
    }

    /// Matches the date whose ISO-8601 rendering is `iso_string`.
    pub fn string(iso_string: &str) -> (r: Self)
        ensures
            r.expr@ == "date'"@ + iso_string@ + "'"@,
    {
        DatePattern { expr: wrap_expr("date'", iso_string, "'") }
    }

    /// Matches dates whose ISO-8601 rendering `regex` matches.
    pub fn regex(regex: &str) -> (r: Self)
        ensures
            r.expr@ == "date'/"@ + regex@ + "/'"@,
    {
        DatePattern { expr: wrap_expr("date'/", regex, "/'") }
    }

    /// The date pattern written as the dcbor-pattern expression `expr`.
    pub fn from_dcbor_pattern(expr: &str) -> (r: Self)
        ensures
            r.expr@ == expr@,
    {
        DatePattern { expr: string_of(expr) }
    }
}

impl KnownValuePattern {
    /// Matches any known value.
    pub fn any() -> (r: Self)
        ensures
            r == KnownValuePattern::Any,
    {
        KnownValuePattern::Any
    }

    /// Matches the known value `value`; `name` is how that known value is
    /// written (its assigned name, or its number when it has none).
    pub fn value(value: u64, name: &str) -> (r: Self)
        ensures
            r matches KnownValuePattern::Value { value: v, name: n } && v == value && n@ == name@,
    {
        KnownValuePattern::Value { value, name: string_of(name) }
    }

    /// Matches the known value named `name`.
    pub fn named(name: &str) -> (r: Self)
        ensures
            r matches KnownValuePattern::Named(n) && n@ == name@,
    {
        KnownValuePattern::Named(string_of(name))
    }

    /// Matches known values whose name `regex` matches.
    pub fn regex(regex: &str) -> (r: Self)
        ensures
            r matches KnownValuePattern::Regex(x) && x@ == regex@,
    {
        KnownValuePattern::Regex(string_of(regex))
    }
}

impl MapPattern {
    /// Matches any map.
    pub fn any() -> (r: Self)
        ensures
            r == MapPattern::Any,
    {
        MapPattern::Any
    }

    /// Matches maps whose number of entries lies in `min..=max` (`min..`
    /// when `max` is `None`).
    pub fn interval(min: usize, max: Option<usize>) -> (r: Self)
        ensures
            r matches MapPattern::Interval(iv) && iv@ == (min, max),
    {
        MapPattern::Interval(Interval::new(min, max))
    }

    /// The map pattern written as the dcbor-pattern expression `expr`.
    pub fn from_dcbor_pattern(expr: &str) -> (r: Self)
        ensures
            r matches MapPattern::Content(e) && e@ == expr@,
    {
        MapPattern::Content(string_of(expr))
    }
}

impl TaggedPattern {
    /// Matches any tagged value.
    pub fn any() -> (r: Self)
        ensures
            r.expr@ == "tagged"@,
    {
        TaggedPattern { expr: string_of("tagged") }
    }

    /// Matches values tagged `tag` whose content the dcbor-pattern
    /// expression `content` matches.
    pub fn with_tag(tag: u64, content: &str) -> (r: Self)
        ensures
            r.expr@ == "tagged("@ + decimal(tag as nat) + ", "@ + content@ + ")"@,
    {
        proof {
            reveal_strlit(", ");
            reveal_strlit(")");
        }
        let mut out = string_of("tagged(");
        push_decimal_u64(&mut out, tag);
        push_str(&mut out, ", ");
        push_str(&mut out, content);
        push_str(&mut out, ")");
        TaggedPattern { expr: out }
    }

    /// Matches values tagged `tag`, whatever their content.
    pub fn with_tag_any(tag: u64) -> (r: Self)
        ensures
            r.expr@ == "tagged("@ + decimal(tag as nat) + ", "@ + "*"@ + ")"@,
    {
        TaggedPattern::with_tag(tag, "*")
    }

    /// Matches values whose tag is named `name` and whose content the
    /// dcbor-pattern expression `content` matches.
    pub fn with_name(name: &str, content: &str) -> (r: Self)
        ensures
            r.expr@ == "tagged("@ + name@ + ", "@ + content@ + ")"@,
    {
        proof {
            reveal_strlit(")");
        }
        let mut out = wrap_expr("tagged(", name, ", ");
        push_str(&mut out, content);
        push_str(&mut out, ")");
        TaggedPattern { expr: out }
    }

    /// Matches values whose tag is named `name`, whatever their content.
    pub fn with_name_any(name: &str) -> (r: Self)
        ensures
            r.expr@ == "tagged("@ + name@ + ", "@ + "*"@ + ")"@,
    {
        TaggedPattern::with_name(name, "*")
    }

    /// Matches values whose tag name `regex` matches and whose content the
    /// dcbor-pattern expression `content` matches.
    pub fn with_regex(regex: &str, content: &str) -> (r: Self)
        ensures
            r.expr@ == "tagged(/"@ + regex@ + "/,  "@ + content@ + ")"@,
    {
        proof {
            reveal_strlit(")");
        }
        let mut out = wrap_expr("tagged(/", regex, "/,  ");
        push_str(&mut out, content);
        push_str(&mut out, ")");
        TaggedPattern { expr: out }
    }

    /// Matches values whose tag name `regex` matches, whatever their
    /// content.
    pub fn with_regex_any(regex: &str) -> (r: Self)
        ensures
            r.expr@ == "tagged(/"@ + regex@ + "/,  "@ + "*"@ + ")"@,
    {
        TaggedPattern::with_regex(regex, "*")
    }

    /// The tagged-value pattern written as the dcbor-pattern expression
    /// `expr`.
    pub fn from_dcbor_pattern(expr: &str) -> (r: Self)
        ensures
            r.expr@ == expr@,
    {
        TaggedPattern { expr: string_of(expr) }
    }
}

impl ArrayPattern {
    /// Matches any array.
    pub fn any() -> (r: Self)
        ensures
            r == ArrayPattern::Any,
    {
        ArrayPattern::Any
    }

    /// Matches arrays whose length lies in `min..=max` (`min..` when `max`
    /// is `None`).
    pub fn interval(min: usize, max: Option<usize>) -> (r: Self)
        ensures
            r matches ArrayPattern::Range(iv) && iv@ == (min, max),
    {
        ArrayPattern::Range(Interval::new(min, max))
    }

    /// Matches arrays of exactly `n` elements.
    pub fn count(n: usize) -> (r: Self)
        ensures
            r == ArrayPattern::Count(n),
    {
        ArrayPattern::Count(n)
    }

    /// Matches arrays that the dcbor-pattern expression `expr` matches.
    pub fn from_dcbor_pattern(expr: &str) -> (r: Self)
        ensures
            r matches ArrayPattern::Content(e) && e@ == expr@,
    {
        ArrayPattern::Content(string_of(expr))
    }

    /// Matches arrays that the dcbor-pattern array expression `expr`
    /// matches.
    pub fn from_dcbor_array_pattern(expr: &str) -> (r: Self)
        ensures
            r matches ArrayPattern::Content(e) && e@ == expr@,
    {
        ArrayPattern::Content(string_of(expr))
    }
}

impl CBORPattern {
    /// Matches any CBOR value.
    pub fn any() -> (r: Self)
        ensures
            r == CBORPattern::Any,
    {
        CBORPattern::Any
    }

    /// Matches the CBOR value whose dCBOR encoding is `cbor`.
    pub fn value(cbor: &[u8]) -> (r: Self)
        ensures
            r matches CBORPattern::Value(v) && v@ == cbor@,
    {
        CBORPattern::Value(crate::text::bytes_to_vec(cbor))
    }

    /// Matches CBOR values that the dcbor-pattern expression `expr`
    /// matches.
    pub fn pattern(expr: &str) -> (r: Self)
        ensures
            r matches CBORPattern::Pattern(e) && e@ == expr@,
    {
        CBORPattern::Pattern(string_of(expr))
    }

    /// Matches CBOR values that the dcbor-pattern expression `expr`
    /// matches.
    pub fn from_dcbor_pattern(expr: &str) -> (r: Self)
        ensures
            r matches CBORPattern::Pattern(e) && e@ == expr@,
    {
        CBORPattern::Pattern(string_of(expr))
    }
}

impl NullPattern {
    /// Matches the null value.
    pub fn new() -> (r: Self)
        ensures
            r == NullPattern,
    {
        NullPattern
    }
}

// ---------------------------------------------------------------------------
// Structure patterns
// ---------------------------------------------------------------------------

impl AssertionsPattern {
    /// Matches every assertion.
    pub fn any() -> (r: Self)
        ensures
            r == AssertionsPattern::Any,
    {
        AssertionsPattern::Any
    }

    /// Matches assertions whose predicate `pattern` matches.
    pub fn with_predicate(pattern: Pattern) -> (r: Self)
        ensures
            r == AssertionsPattern::WithPredicate(Box::new(pattern)),
    {
        AssertionsPattern::WithPredicate(Box::new(pattern))
    }

    /// Matches assertions whose object `pattern` matches.
    pub fn with_object(pattern: Pattern) -> (r: Self)
        ensures
            r == AssertionsPattern::WithObject(Box::new(pattern)),
    {
        AssertionsPattern::WithObject(Box::new(pattern))
    }
}

impl DigestPattern {
    /// Matches the element whose digest is `digest`.
    pub fn digest(digest: &[u8]) -> (r: Self)
        ensures
            r matches DigestPattern::Digest(d) && d@ == digest@,
    {
        DigestPattern::Digest(crate::text::bytes_to_vec(digest))
    }

    /// Matches elements whose digest starts with `prefix`.
    pub fn prefix(prefix: &[u8]) -> (r: Self)
        ensures
            r matches DigestPattern::Prefix(d) && d@ == prefix@,
    {
        DigestPattern::Prefix(crate::text::bytes_to_vec(prefix))
    }

    /// Matches elements whose digest the binary regular expression `regex`
    /// matches.
    pub fn binary_regex(regex: &str) -> (r: Self)
        ensures
            r matches DigestPattern::BinaryRegex(s) && s@ == regex@,
    {
        DigestPattern::BinaryRegex(string_of(regex))
    }
}

impl LeafStructurePattern {
    /// Matches leaves and known values.
    pub fn new() -> (r: Self)
        ensures
            r == LeafStructurePattern,
    {
        LeafStructurePattern
    }
}

impl NodePattern {
    /// Matches every node.
    pub fn any() -> (r: Self)
        ensures
            r == NodePattern::Any,
    {
        NodePattern::Any
    }

    /// Matches nodes whose number of assertions lies in `min..=max`
    /// (`min..` when `max` is `None`).
    pub fn interval(min: usize, max: Option<usize>) -> (r: Self)
        ensures
            r matches NodePattern::AssertionsInterval(iv) && iv@ == (min, max),
    {
        NodePattern::AssertionsInterval(Interval::new(min, max))
    }
}

impl ObjectPattern {
    /// Matches the object of every assertion.
    pub fn any() -> (r: Self)
        ensures
            r == ObjectPattern::Any,
    {
        ObjectPattern::Any
    }

    /// Matches the object of assertions whose object `pattern` matches.
    pub fn pattern(pattern: Pattern) -> (r: Self)
        ensures
            r == ObjectPattern::Pattern(Box::new(pattern)),
    {
        ObjectPattern::Pattern(Box::new(pattern))
    }
}

impl ObscuredPattern {
    /// Matches every obscured element.
    pub fn any() -> (r: Self)
        ensures
            r == ObscuredPattern::Any,
    {
        ObscuredPattern::Any
    }

    /// Matches elided elements.
    pub fn elided() -> (r: Self)
        ensures
            r == ObscuredPattern::Elided,
    {
        ObscuredPattern::Elided
    }

    /// Matches encrypted elements.
    pub fn encrypted() -> (r: Self)
        ensures
            r == ObscuredPattern::Encrypted,
    {
        ObscuredPattern::Encrypted
    }

    /// Matches compressed elements.
    pub fn compressed() -> (r: Self)
        ensures
            r == ObscuredPattern::Compressed,
    {
        ObscuredPattern::Compressed
    }
}

impl PredicatePattern {
    /// Matches the predicate of every assertion.
    pub fn any() -> (r: Self)
        ensures
            r == PredicatePattern::Any,
    {
        PredicatePattern::Any
    }

    /// Matches the predicate of assertions whose predicate `pattern`
    /// matches.
    pub fn pattern(pattern: Pattern) -> (r: Self)
        ensures
            r == PredicatePattern::Pattern(Box::new(pattern)),
    {
        PredicatePattern::Pattern(Box::new(pattern))
    }
}

impl SubjectPattern {
    /// Matches the subject of every element.
    pub fn any() -> (r: Self)
        ensures
            r == SubjectPattern::Any,
    {
        SubjectPattern::Any
    }

    /// Matches subjects that `pattern` matches.
    pub fn pattern(pattern: Pattern) -> (r: Self)
        ensures
            r == SubjectPattern::Pattern(Box::new(pattern)),
    {
        SubjectPattern::Pattern(Box::new(pattern))
    }
}

impl WrappedPattern {
    /// Matches wrapped envelopes, without descending into them.
    pub fn new() -> (r: Self)
        ensures
            r == WrappedPattern::Any,
    {
        WrappedPattern::Any
    }

    /// Matches wrapped envelopes whose content `pattern` matches.
    pub fn unwrap_matching(pattern: Pattern) -> (r: Self)
        ensures
            r == WrappedPattern::Unwrap(Box::new(pattern)),
    {
        WrappedPattern::Unwrap(Box::new(pattern))
    }

    /// Matches wrapped envelopes, descending into their content.
    pub fn unwrap() -> (r: Self)
        ensures
            r == WrappedPattern::Unwrap(Box::new(Pattern::Meta(MetaPattern::Any(AnyPattern)))),
    {
        WrappedPattern::unwrap_matching(Pattern::any())
    }
}

// ---------------------------------------------------------------------------
// Meta patterns
// ---------------------------------------------------------------------------

impl AnyPattern {
    /// Matches everything.
    pub fn new() -> (r: Self)
        ensures
            r == AnyPattern,
    {
        AnyPattern
    }
}

impl NonePattern {
    /// Matches nothing.
    pub fn new() -> (r: Self)
        ensures
            r == NonePattern,
    {
        NonePattern
    }
}

impl AndPattern {
    /// Matches when all of `patterns` match.
    pub fn new(patterns: Vec<Pattern>) -> (r: Self)
        ensures
            r.0 == patterns,
    {
        AndPattern(patterns)
    }

    /// The patterns that must all match.
    pub fn patterns(&self) -> (r: &Vec<Pattern>)
        ensures
            *r == self.0,
    {
        &self.0
    }
}

impl OrPattern {
    /// Matches when one of `patterns` matches.
    pub fn new(patterns: Vec<Pattern>) -> (r: Self)
        ensures
            r.0 == patterns,
    {
        OrPattern(patterns)
    }

    /// The alternatives.
    pub fn patterns(&self) -> (r: &Vec<Pattern>)
        ensures
            *r == self.0,
    {
        &self.0
    }
}

impl NotPattern {
    /// Matches when `pattern` does not.
    pub fn new(pattern: Pattern) -> (r: Self)
        ensures
            *r.0 == pattern,
    {
        NotPattern(Box::new(pattern))
    }

    /// The pattern that must not match.
    pub fn pattern(&self) -> (r: &Pattern)
        ensures
            *r == *self.0,
    {
        &self.0
    }
}

impl SearchPattern {
    /// Searches the whole tree for elements `pattern` matches.
    pub fn new(pattern: Pattern) -> (r: Self)
        ensures
            *r.0 == pattern,
    {
        SearchPattern(Box::new(pattern))
    }

    /// The pattern searched for.
    pub fn pattern(&self) -> (r: &Pattern)
        ensures
            *r == *self.0,
    {
        &self.0
    }
}

impl CapturePattern {
    /// Captures what `pattern` matches under `name`.
    pub fn new(name: &str, pattern: Pattern) -> (r: Self)
        ensures
            r.name@ == name@,
            *r.pattern == pattern,
    {
        CapturePattern { name: string_of(name), pattern: Box::new(pattern) }
    }

    /// The name of the capture.
    pub fn name(&self) -> (r: &str)
        ensures
            r@ == self.name@,
    {
        self.name.as_str()
    }

    /// The captured pattern.
    pub fn pattern(&self) -> (r: &Pattern)
        ensures
            *r == *self.pattern,
    {
        &self.pattern
    }
}

impl GroupPattern {
    /// `pattern` repeated as `quantifier` allows.
    pub fn repeat(pattern: Pattern, quantifier: Quantifier) -> (r: Self)
        ensures
            *r.pattern == pattern,
            r.quantifier == quantifier,
    {
        GroupPattern { pattern: Box::new(pattern), quantifier }
    }

    /// `pattern` matched exactly once.
    pub fn new(pattern: Pattern) -> (r: Self)
        ensures
            *r.pattern == pattern,
            r.quantifier@ == ((1usize, Some(1usize)), Reluctance::Greedy),
    {
        GroupPattern { pattern: Box::new(pattern), quantifier: Quantifier::once() }
    }

    /// The repeated pattern.
    pub fn pattern(&self) -> (r: &Pattern)
        ensures
            *r == *self.pattern,
    {
        &self.pattern
    }

    /// How often the pattern may repeat.
    pub fn quantifier(&self) -> (r: &Quantifier)
        ensures
            *r == self.quantifier,
    {
        &self.quantifier
    }
}

/// The traversal of `patterns[i..]`, or of a pattern that never matches when
/// there is none.
pub open spec fn traverse_of(patterns: Seq<Pattern>, i: int) -> TraversePattern
    decreases patterns.len() - i,
{
    if i >= patterns.len() || i < 0 {
        TraversePattern {
            first: Box::new(Pattern::Meta(MetaPattern::Never(NonePattern))),
            rest: None,
        }
    } else if i + 1 == patterns.len() {
        TraversePattern { first: Box::new(patterns[i]), rest: None }
    } else {
        TraversePattern { first: Box::new(patterns[i]), rest: Some(Box::new(traverse_of(patterns, i + 1))) }
    }
}

/// The sequence of `patterns[i..]`, or of a pattern that never matches when
/// there is none.
pub open spec fn sequence_of(patterns: Seq<Pattern>, i: int) -> SequencePattern
    decreases patterns.len() - i,
{
    if i >= patterns.len() || i < 0 {
        SequencePattern {
            first: Box::new(Pattern::Meta(MetaPattern::Never(NonePattern))),
            rest: None,
        }
    } else if i + 1 == patterns.len() {
        SequencePattern { first: Box::new(patterns[i]), rest: None }
    } else {
        SequencePattern { first: Box::new(patterns[i]), rest: Some(Box::new(sequence_of(patterns, i + 1))) }
    }
}

impl TraversePattern {
    /// Matches `patterns` one after the other, each from where the previous
    /// one ended. With no patterns, nothing matches.
    pub fn new(patterns: Vec<Pattern>) -> (r: Self)
        ensures
            r == traverse_of(patterns@, 0),
    {
        let mut patterns = patterns;
        let n = patterns.len();
        if n == 0 {
            return TraversePattern { first: Box::new(Pattern::none()), rest: None };
        }
        let ghost ps = patterns@;
        let mut acc = TraversePattern { first: Box::new(patterns.pop().unwrap()), rest: None };
        assert(acc == traverse_of(ps, n - 1));
        let mut k: usize = n - 1;
        while k > 0
            invariant
                k < n,
                n == ps.len(),
                patterns@ == ps.subrange(0, k as int),
                acc == traverse_of(ps, k as int),
            decreases k,
        {
            let p = patterns.pop().unwrap();
            acc = TraversePattern { first: Box::new(p), rest: Some(Box::new(acc)) };
            k = k - 1;
        }
        acc
    }

    /// The patterns of the traversal, in order.
    pub fn patterns(&self) -> (r: Vec<&Pattern>)
        ensures
            r@.len() == traverse_patterns(*self).len(),
            forall|i: int| 0 <= i < r@.len() ==> *r@[i] == traverse_patterns(*self)[i],
        decreases self,
    {
        let mut out: Vec<&Pattern> = Vec::new();
        out.push(&*self.first);
        match &self.rest {
            Some(r) => {
                let mut tail = r.patterns();
                out.append(&mut tail);
            },
            None => {},
        }
        out
    }
}

impl SequencePattern {
    /// Matches `patterns` one after the other, each from where the previous
    /// one ended. With no patterns, nothing matches.
    pub fn new(patterns: Vec<Pattern>) -> (r: Self)
        ensures
            r == sequence_of(patterns@, 0),
    {
        let mut patterns = patterns;
        let n = patterns.len();
        if n == 0 {
            return SequencePattern { first: Box::new(Pattern::none()), rest: None };
        }
        let ghost ps = patterns@;
        let mut acc = SequencePattern { first: Box::new(patterns.pop().unwrap()), rest: None };
        assert(acc == sequence_of(ps, n - 1));
        let mut k: usize = n - 1;
        while k > 0
            invariant
                k < n,
                n == ps.len(),
                patterns@ == ps.subrange(0, k as int),
                acc == sequence_of(ps, k as int),
            decreases k,
        {
            let p = patterns.pop().unwrap();
            acc = SequencePattern { first: Box::new(p), rest: Some(Box::new(acc)) };
            k = k - 1;
        }
        acc
    }

    /// The patterns of the sequence, in order.
    pub fn patterns(&self) -> (r: Vec<&Pattern>)
        ensures
            r@.len() == sequence_patterns(*self).len(),
            forall|i: int| 0 <= i < r@.len() ==> *r@[i] == sequence_patterns(*self)[i],
        decreases self,
    {
        let mut out: Vec<&Pattern> = Vec::new();
        out.push(&*self.first);
        match &self.rest {
            Some(r) => {
                let mut tail = r.patterns();
                out.append(&mut tail);
            },
            None => {},
        }
        out
    }
}

// ---------------------------------------------------------------------------
// Pattern
// ---------------------------------------------------------------------------

impl Pattern {
    /// Matches everything: the path `[env]` for every element.
    pub fn any() -> (r: Pattern)
        ensures
            r == Pattern::Meta(MetaPattern::Any(AnyPattern)),
    {
        Pattern::Meta(MetaPattern::Any(AnyPattern))
    }

    /// Matches nothing.
    pub fn none() -> (r: Pattern)
        ensures
            r == Pattern::Meta(MetaPattern::Never(NonePattern)),
    {
        Pattern::Meta(MetaPattern::Never(NonePattern))
    }

    /// Matches where all of `patterns` match.
    pub fn and(patterns: Vec<Pattern>) -> (r: Pattern)
        ensures
            r == Pattern::Meta(MetaPattern::And(AndPattern(patterns))),
    {
        Pattern::Meta(MetaPattern::And(AndPattern::new(patterns)))
    }

    /// Matches where one of `patterns` matches.
    pub fn or(patterns: Vec<Pattern>) -> (r: Pattern)
        ensures
            r == Pattern::Meta(MetaPattern::Or(OrPattern(patterns))),
    {
        Pattern::Meta(MetaPattern::Or(OrPattern::new(patterns)))
    }

    /// Matches where `pattern` does not.
    pub fn not_matching(pattern: Pattern) -> (r: Pattern)
        ensures
            r == Pattern::Meta(MetaPattern::Not(NotPattern(Box::new(pattern)))),
    {
        Pattern::Meta(MetaPattern::Not(NotPattern::new(pattern)))
    }

    /// Matches what `pattern` matches anywhere in the tree.
    pub fn search(pattern: Pattern) -> (r: Pattern)
        ensures
            r == Pattern::Meta(MetaPattern::Search(SearchPattern(Box::new(pattern)))),
    {
        Pattern::Meta(MetaPattern::Search(SearchPattern::new(pattern)))
    }

    /// Captures what `pattern` matches under `name`.
    pub fn capture(name: &str, pattern: Pattern) -> (r: Pattern)
        ensures
            r matches Pattern::Meta(MetaPattern::Capture(c)) && c.name@ == name@ && *c.pattern == pattern,
    {
        Pattern::Meta(MetaPattern::Capture(CapturePattern::new(name, pattern)))
    }

    /// `pattern`, matched once, as a group.
    pub fn group(pattern: Pattern) -> (r: Pattern)
        ensures
            r matches Pattern::Meta(MetaPattern::Group(g)) && *g.pattern == pattern && g.quantifier@ == ((1usize, Some(1usize)), Reluctance::Greedy),
    {
        Pattern::Meta(MetaPattern::Group(GroupPattern::new(pattern)))
    }

    /// `pattern` repeated from `min` to `max` times (at least `min` when `max` is `None`), tried as `reluctance` says.
    pub fn repeat(pattern: Pattern, min: usize, max: Option<usize>, reluctance: Reluctance) -> (r: Pattern)
        ensures
            r matches Pattern::Meta(MetaPattern::Group(g)) && *g.pattern == pattern && g.quantifier@ == ((min, max), reluctance),
    {
        Pattern::Meta(MetaPattern::Group(GroupPattern::repeat(pattern, Quantifier::new(min, max, reluctance))))
    }

    /// `patterns` one after the other, each from where the previous ended.
    pub fn traverse(patterns: Vec<Pattern>) -> (r: Pattern)
        ensures
            r == Pattern::Meta(MetaPattern::Traverse(traverse_of(patterns@, 0))),
    {
        Pattern::Meta(MetaPattern::Traverse(TraversePattern::new(patterns)))
    }

    /// Matches leaves and known values.
    pub fn leaf() -> (r: Pattern)
        ensures
            r == Pattern::Structure(StructurePattern::Leaf(LeafStructurePattern)),
    {
        Pattern::Structure(StructurePattern::Leaf(LeafStructurePattern))
    }

    /// Matches every assertion of a node.
    pub fn any_assertion() -> (r: Pattern)
        ensures
            r == Pattern::Structure(StructurePattern::Assertions(AssertionsPattern::Any)),
    {
        Pattern::Structure(StructurePattern::Assertions(AssertionsPattern::Any))
    }

    /// Matches the assertions whose predicate `pattern` matches.
    pub fn assertion_with_predicate(pattern: Pattern) -> (r: Pattern)
        ensures
            r == Pattern::Structure(StructurePattern::Assertions(AssertionsPattern::WithPredicate(Box::new(pattern)))),
    {
        Pattern::Structure(StructurePattern::Assertions(AssertionsPattern::with_predicate(pattern)))
    }

    /// Matches the assertions whose object `pattern` matches.
    pub fn assertion_with_object(pattern: Pattern) -> (r: Pattern)
        ensures
            r == Pattern::Structure(StructurePattern::Assertions(AssertionsPattern::WithObject(Box::new(pattern)))),
    {
        Pattern::Structure(StructurePattern::Assertions(AssertionsPattern::with_object(pattern)))
    }

    /// Matches every node.
    pub fn any_node() -> (r: Pattern)
        ensures
            r == Pattern::Structure(StructurePattern::Node(NodePattern::Any)),
    {
        Pattern::Structure(StructurePattern::Node(NodePattern::Any))
    }

    /// Matches nodes with from `min` to `max` assertions.
    pub fn node_with_assertions_range(min: usize, max: Option<usize>) -> (r: Pattern)
        ensures
            r matches Pattern::Structure(StructurePattern::Node(NodePattern::AssertionsInterval(iv))) && iv@ == (min, max),
    {
        Pattern::Structure(StructurePattern::Node(NodePattern::interval(min, max)))
    }

    /// Matches the object of an assertion.
    pub fn any_object() -> (r: Pattern)
        ensures
            r == Pattern::Structure(StructurePattern::Object(ObjectPattern::Any)),
    {
        Pattern::Structure(StructurePattern::Object(ObjectPattern::Any))
    }

    /// Matches the object of an assertion when `pattern` matches it.
    pub fn object(pattern: Pattern) -> (r: Pattern)
        ensures
            r == Pattern::Structure(StructurePattern::Object(ObjectPattern::Pattern(Box::new(pattern)))),
    {
        Pattern::Structure(StructurePattern::Object(ObjectPattern::pattern(pattern)))
    }

    /// Matches the predicate of an assertion.
    pub fn any_predicate() -> (r: Pattern)
        ensures
            r == Pattern::Structure(StructurePattern::Predicate(PredicatePattern::Any)),
    {
        Pattern::Structure(StructurePattern::Predicate(PredicatePattern::Any))
    }

    /// Matches the predicate of an assertion when `pattern` matches it.
    pub fn predicate(pattern: Pattern) -> (r: Pattern)
        ensures
            r == Pattern::Structure(StructurePattern::Predicate(PredicatePattern::Pattern(Box::new(pattern)))),
    {
        Pattern::Structure(StructurePattern::Predicate(PredicatePattern::pattern(pattern)))
    }

    /// Matches the subject of an element.
    pub fn any_subject() -> (r: Pattern)
        ensures
            r == Pattern::Structure(StructurePattern::Subject(SubjectPattern::Any)),
    {
        Pattern::Structure(StructurePattern::Subject(SubjectPattern::Any))
    }

    /// Matches the subject of an element when `pattern` matches it.
    pub fn subject(pattern: Pattern) -> (r: Pattern)
        ensures
            r == Pattern::Structure(StructurePattern::Subject(SubjectPattern::Pattern(Box::new(pattern)))),
    {
        Pattern::Structure(StructurePattern::Subject(SubjectPattern::pattern(pattern)))
    }

    /// Matches elided, encrypted or compressed elements.
    pub fn obscured() -> (r: Pattern)
        ensures
            r == Pattern::Structure(StructurePattern::Obscured(ObscuredPattern::Any)),
    {
        Pattern::Structure(StructurePattern::Obscured(ObscuredPattern::Any))
    }

    /// Matches elided elements.
    pub fn elided() -> (r: Pattern)
        ensures
            r == Pattern::Structure(StructurePattern::Obscured(ObscuredPattern::Elided)),
    {
        Pattern::Structure(StructurePattern::Obscured(ObscuredPattern::Elided))
    }

    /// Matches encrypted elements.
    pub fn encrypted() -> (r: Pattern)
        ensures
            r == Pattern::Structure(StructurePattern::Obscured(ObscuredPattern::Encrypted)),
    {
        Pattern::Structure(StructurePattern::Obscured(ObscuredPattern::Encrypted))
    }

    /// Matches compressed elements.
    pub fn compressed() -> (r: Pattern)
        ensures
            r == Pattern::Structure(StructurePattern::Obscured(ObscuredPattern::Compressed)),
    {
        Pattern::Structure(StructurePattern::Obscured(ObscuredPattern::Compressed))
    }

    /// Matches wrapped envelopes, without descending into them.
    pub fn wrapped() -> (r: Pattern)
        ensures
            r == Pattern::Structure(StructurePattern::Wrapped(WrappedPattern::Any)),
    {
        Pattern::Structure(StructurePattern::Wrapped(WrappedPattern::Any))
    }

    /// Matches wrapped envelopes whose content `pattern` matches, descending into it.
    pub fn unwrap_matching(pattern: Pattern) -> (r: Pattern)
        ensures
            r == Pattern::Structure(StructurePattern::Wrapped(WrappedPattern::Unwrap(Box::new(pattern)))),
    {
        Pattern::Structure(StructurePattern::Wrapped(WrappedPattern::unwrap_matching(pattern)))
    }

    /// Matches wrapped envelopes, descending into their content.
    pub fn unwrap() -> (r: Pattern)
        ensures
            r == Pattern::Structure(StructurePattern::Wrapped(WrappedPattern::Unwrap(Box::new(Pattern::Meta(MetaPattern::Any(AnyPattern)))))),
    {
        Pattern::Structure(StructurePattern::Wrapped(WrappedPattern::unwrap()))
    }

    /// Matches the element with digest `digest`.
    pub fn digest(digest: &[u8]) -> (r: Pattern)
        ensures
            r matches Pattern::Structure(StructurePattern::Digest(DigestPattern::Digest(d))) && d@ == digest@,
    {
        Pattern::Structure(StructurePattern::Digest(DigestPattern::digest(digest)))
    }

    /// Matches elements whose digest starts with `prefix`.
    pub fn digest_prefix(prefix: &[u8]) -> (r: Pattern)
        ensures
            r matches Pattern::Structure(StructurePattern::Digest(DigestPattern::Prefix(d))) && d@ == prefix@,
    {
        Pattern::Structure(StructurePattern::Digest(DigestPattern::prefix(prefix)))
    }

    /// Matches elements whose digest the binary regular expression `regex` matches.
    pub fn digest_binary_regex(regex: &str) -> (r: Pattern)
        ensures
            r matches Pattern::Structure(StructurePattern::Digest(DigestPattern::BinaryRegex(s))) && s@ == regex@,
    {
        Pattern::Structure(StructurePattern::Digest(DigestPattern::binary_regex(regex)))
    }

    /// Matches every leaf and known value.
    pub fn any_cbor() -> (r: Pattern)
        ensures
            r == Pattern::Leaf(LeafPattern::Cbor(CBORPattern::Any)),
    {
        Pattern::Leaf(LeafPattern::Cbor(CBORPattern::Any))
    }

    /// Matches the leaf holding the CBOR value whose dCBOR encoding is `cbor`.
    pub fn cbor(cbor: &[u8]) -> (r: Pattern)
        ensures
            r matches Pattern::Leaf(LeafPattern::Cbor(CBORPattern::Value(v))) && v@ == cbor@,
    {
        Pattern::Leaf(LeafPattern::Cbor(CBORPattern::value(cbor)))
    }

    /// Matches leaves whose value the dcbor-pattern expression `expr` matches.
    pub fn cbor_pattern(expr: &str) -> (r: Pattern)
        ensures
            r matches Pattern::Leaf(LeafPattern::Cbor(CBORPattern::Pattern(e))) && e@ == expr@,
    {
        Pattern::Leaf(LeafPattern::Cbor(CBORPattern::pattern(expr)))
    }

    /// Matches any number.
    pub fn any_number() -> (r: Pattern)
        ensures
            r matches Pattern::Leaf(LeafPattern::Number(n)) && n.expr@ == "number"@,
    {
        Pattern::Leaf(LeafPattern::Number(NumberPattern::any()))
    }

    /// Matches the number `value`.
    pub fn number(value: i64) -> (r: Pattern)
        ensures
            r matches Pattern::Leaf(LeafPattern::Number(n)) && n.expr@ == signed_decimal(value as int),
    {
        Pattern::Leaf(LeafPattern::Number(NumberPattern::exact(value)))
    }

    /// Matches numbers from `min` to `max`.
    pub fn number_range(min: i64, max: i64) -> (r: Pattern)
        ensures
            r matches Pattern::Leaf(LeafPattern::Number(n)) && n.expr@ == signed_decimal(min as int) + "..."@ + signed_decimal(max as int),
    {
        Pattern::Leaf(LeafPattern::Number(NumberPattern::range(min, max)))
    }

    /// Matches numbers greater than `value`.
    pub fn number_greater_than(value: i64) -> (r: Pattern)
        ensures
            r matches Pattern::Leaf(LeafPattern::Number(n)) && n.expr@ == ">"@ + signed_decimal(value as int),
    {
        Pattern::Leaf(LeafPattern::Number(NumberPattern::greater_than(value)))
    }

    /// Matches numbers greater than or equal to `value`.
    pub fn number_greater_than_or_equal(value: i64) -> (r: Pattern)
        ensures
            r matches Pattern::Leaf(LeafPattern::Number(n)) && n.expr@ == ">="@ + signed_decimal(value as int),
    {
        Pattern::Leaf(LeafPattern::Number(NumberPattern::greater_than_or_equal(value)))
    }

    /// Matches numbers less than `value`.
    pub fn number_less_than(value: i64) -> (r: Pattern)
        ensures
            r matches Pattern::Leaf(LeafPattern::Number(n)) && n.expr@ == "<"@ + signed_decimal(value as int),
    {
        Pattern::Leaf(LeafPattern::Number(NumberPattern::less_than(value)))
    }

    /// Matches numbers less than or equal to `value`.
    pub fn number_less_than_or_equal(value: i64) -> (r: Pattern)
        ensures
            r matches Pattern::Leaf(LeafPattern::Number(n)) && n.expr@ == "<="@ + signed_decimal(value as int),
    {
        Pattern::Leaf(LeafPattern::Number(NumberPattern::less_than_or_equal(value)))
    }

    /// Matches NaN.
    pub fn number_nan() -> (r: Pattern)
        ensures
            r matches Pattern::Leaf(LeafPattern::Number(n)) && n.expr@ == "NaN"@,
    {
        Pattern::Leaf(LeafPattern::Number(NumberPattern::nan()))
    }

    /// Matches any text.
    pub fn any_text() -> (r: Pattern)
        ensures
            r == Pattern::Leaf(LeafPattern::Text(TextPattern::Any)),
    {
        Pattern::Leaf(LeafPattern::Text(TextPattern::Any))
    }

    /// Matches the text `value`.
    pub fn text(value: &str) -> (r: Pattern)
        ensures
            r matches Pattern::Leaf(LeafPattern::Text(TextPattern::Value(v))) && v@ == value@,
    {
        Pattern::Leaf(LeafPattern::Text(TextPattern::value(value)))
    }

    /// Matches text that the regular expression `regex` matches.
    pub fn text_regex(regex: &str) -> (r: Pattern)
        ensures
            r matches Pattern::Leaf(LeafPattern::Text(TextPattern::Regex(v))) && v@ == regex@,
    {
        Pattern::Leaf(LeafPattern::Text(TextPattern::regex(regex)))
    }

    /// Matches any byte string.
    pub fn any_byte_string() -> (r: Pattern)
        ensures
            r matches Pattern::Leaf(LeafPattern::ByteString(b)) && b.expr@ == "bstr"@,
    {
        Pattern::Leaf(LeafPattern::ByteString(ByteStringPattern::any()))
    }

    /// Matches the byte string `value`.
    pub fn byte_string(value: &[u8]) -> (r: Pattern)
        ensures
            r matches Pattern::Leaf(LeafPattern::ByteString(b)) && b.expr@ == "h'"@ + hex_spec(value@) + "'"@,
    {
        Pattern::Leaf(LeafPattern::ByteString(ByteStringPattern::value(value)))
    }

    /// Matches any boolean.
    pub fn any_bool() -> (r: Pattern)
        ensures
            r matches Pattern::Leaf(LeafPattern::Bool(b)) && b.expr@ == "bool"@,
    {
        Pattern::Leaf(LeafPattern::Bool(BoolPattern::any()))
    }

    /// Matches the boolean `value`.
    pub fn bool(value: bool) -> (r: Pattern)
        ensures
            r matches Pattern::Leaf(LeafPattern::Bool(b)) && b.expr@ == (if value { "true"@ } else { "false"@ }),
    {
        Pattern::Leaf(LeafPattern::Bool(BoolPattern::value(value)))
    }

    /// Matches the null value.
    pub fn null() -> (r: Pattern)
        ensures
            r == Pattern::Leaf(LeafPattern::Null(NullPattern)),
    {
        Pattern::Leaf(LeafPattern::Null(NullPattern))
    }

    /// Matches any array.
    pub fn any_array() -> (r: Pattern)
        ensures
            r == Pattern::Leaf(LeafPattern::Array(ArrayPattern::Any)),
    {
        Pattern::Leaf(LeafPattern::Array(ArrayPattern::Any))
    }

    /// Matches arrays of `n` elements.
    pub fn array_with_count(n: usize) -> (r: Pattern)
        ensures
            r == Pattern::Leaf(LeafPattern::Array(ArrayPattern::Count(n))),
    {
        Pattern::Leaf(LeafPattern::Array(ArrayPattern::Count(n)))
    }

    /// Matches arrays of from `min` to `max` elements.
    pub fn array_with_range(min: usize, max: Option<usize>) -> (r: Pattern)
        ensures
            r matches Pattern::Leaf(LeafPattern::Array(ArrayPattern::Range(iv))) && iv@ == (min, max),
    {
        Pattern::Leaf(LeafPattern::Array(ArrayPattern::interval(min, max)))
    }

    /// Matches any map.
    pub fn any_map() -> (r: Pattern)
        ensures
            r == Pattern::Leaf(LeafPattern::MapValue(MapPattern::Any)),
    {
        Pattern::Leaf(LeafPattern::MapValue(MapPattern::any()))
    }

    /// Matches maps of from `min` to `max` entries.
    pub fn map_with_range(min: usize, max: Option<usize>) -> (r: Pattern)
        ensures
            r matches Pattern::Leaf(LeafPattern::MapValue(MapPattern::Interval(iv))) && iv@ == (min, max),
    {
        Pattern::Leaf(LeafPattern::MapValue(MapPattern::interval(min, max)))
    }

    /// Matches any tagged value.
    pub fn any_tag() -> (r: Pattern)
        ensures
            r matches Pattern::Leaf(LeafPattern::Tag(t)) && t.expr@ == "tagged"@,
    {
        Pattern::Leaf(LeafPattern::Tag(TaggedPattern::any()))
    }

    /// Matches values tagged `tag` whose content the dcbor-pattern expression `content` matches.
    pub fn tagged(tag: u64, content: &str) -> (r: Pattern)
        ensures
            r matches Pattern::Leaf(LeafPattern::Tag(t)) && t.expr@ == "tagged("@ + decimal(tag as nat) + ", "@ + content@ + ")"@,
    {
        Pattern::Leaf(LeafPattern::Tag(TaggedPattern::with_tag(tag, content)))
    }

    /// Matches any date.
    pub fn any_date() -> (r: Pattern)
        ensures
            r matches Pattern::Leaf(LeafPattern::Date(d)) && d.expr@ == "date"@,
    {
        Pattern::Leaf(LeafPattern::Date(DatePattern::any()))
    }

    /// Matches the date written `iso`.
    pub fn date(iso: &str) -> (r: Pattern)
        ensures
            r matches Pattern::Leaf(LeafPattern::Date(d)) && d.expr@ == "date'"@ + iso@ + "'"@,
    {
        Pattern::Leaf(LeafPattern::Date(DatePattern::value(iso)))
    }

    /// Matches any known value.
    pub fn any_known_value() -> (r: Pattern)
        ensures
            r == Pattern::Leaf(LeafPattern::KnownValue(KnownValuePattern::Any)),
    {
        Pattern::Leaf(LeafPattern::KnownValue(KnownValuePattern::any()))
    }

    /// Matches the known value `value`.
    pub fn known_value(value: u64, name: &str) -> (r: Pattern)
        ensures
            r matches Pattern::Leaf(LeafPattern::KnownValue(KnownValuePattern::Value { value: v, name: n }))
                && v == value && n@ == name@,
    {
        Pattern::Leaf(LeafPattern::KnownValue(KnownValuePattern::value(value, name)))
    }

    /// Matches the known value named `name`.
    pub fn known_value_named(name: &str) -> (r: Pattern)
        ensures
            r matches Pattern::Leaf(LeafPattern::KnownValue(KnownValuePattern::Named(n))) && n@ == name@,
    {
        Pattern::Leaf(LeafPattern::KnownValue(KnownValuePattern::named(name)))
    }

}

} // verus!
