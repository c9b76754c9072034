//! The text rendering of patterns.
use vstd::prelude::*;

use crate::dcbor::{cbor_diagnostic, cbor_diagnostic_flat};
use crate::interval::range_notation_spec;
use crate::leaf::{array_expression, map_expression, text_expression};
use crate::pattern::{
    AnyPattern, BoolPattern, ByteStringPattern, DatePattern, KnownValuePattern, LeafStructurePattern,
    MapPattern, NonePattern, NullPattern, NumberPattern, TaggedPattern,
    AndPattern, ArrayPattern, AssertionsPattern, CBORPattern, CapturePattern, DigestPattern,
    GroupPattern, LeafPattern, MetaPattern, NodePattern, NotPattern, ObjectPattern,
    ObscuredPattern, OrPattern, Pattern, PredicatePattern, SearchPattern, SequencePattern,
    StructurePattern, SubjectPattern, TextPattern, TraversePattern, WrappedPattern,
};
use crate::quantifier::quantifier_text;
use crate::semantics::{array_expr, text_expr};
use crate::text::{
    collapse_comma_spaces, collapse_spec, escape_quoted, escape_spec, hex_encode, hex_spec,
    push_str, string_of,
};

verus! {

/// The rendering of a text pattern.
pub open spec fn text_pattern_text(tp: TextPattern) -> Seq<char> {
    match tp {
        TextPattern::Any => "TEXT"@,
        TextPattern::Value(v) => "TEXT(\""@ + escape_spec(v@) + "\")"@,
        TextPattern::Regex(r) => "TEXT(/"@ + r@ + "/)"@,
    }
}

/// The rendering of a CBOR pattern.
pub open spec fn cbor_pattern_text(cp: CBORPattern) -> Seq<char> {
    match cp {
        CBORPattern::Any => "CBOR"@,
        CBORPattern::Value(v) => "CBOR("@ + cbor_diagnostic(v@) + ")"@,
        CBORPattern::Pattern(e) => "CBOR(/"@ + e@ + "/)"@,
    }
}

/// The rendering of a leaf pattern.
pub open spec fn leaf_text(lp: LeafPattern) -> Seq<char> {
    match lp {
        LeafPattern::Any => "LEAF"@,
        LeafPattern::Cbor(cp) => cbor_pattern_text(cp),
        LeafPattern::Number(p) => p.expr@,
        LeafPattern::Text(tp) => text_pattern_text(tp),
        LeafPattern::ByteString(p) => p.expr@,
        LeafPattern::Tag(p) => collapse_spec(p.expr@, 0),
        LeafPattern::Array(ap) => array_text(ap),
        LeafPattern::MapValue(p) => map_text(p),
        LeafPattern::Bool(p) => p.expr@,
        LeafPattern::Null(_) => "null"@,
        LeafPattern::Date(p) => p.expr@,
        LeafPattern::KnownValue(p) => known_value_text(p),
    }
}

/// The rendering of an array pattern.
pub open spec fn array_text(ap: ArrayPattern) -> Seq<char> {
    match ap {
        ArrayPattern::Any => "[*]"@,
        _ => array_expr(ap),
    }
}

/// The rendering of a map pattern.
pub open spec fn map_text(mp: MapPattern) -> Seq<char> {
    match mp {
        MapPattern::Any => "{*}"@,
        MapPattern::Interval(iv) => "{"@ + range_notation_spec(iv@) + "}"@,
        MapPattern::Content(e) => e@,
    }
}

/// The rendering of a known-value pattern.
pub open spec fn known_value_text(kp: KnownValuePattern) -> Seq<char> {
    match kp {
        KnownValuePattern::Any => "KNOWN"@,
        KnownValuePattern::Value { name, .. } => "KNOWN('"@ + name@ + "')"@,
        KnownValuePattern::Named(n) => "KNOWN('"@ + n@ + "')"@,
        KnownValuePattern::Regex(r) => "KNOWN(/"@ + r@ + "/)"@,
    }
}

/// The rendering of a digest pattern.
pub open spec fn digest_text(dp: DigestPattern) -> Seq<char> {
    match dp {
        DigestPattern::Digest(d) => "DIGEST(Digest("@ + hex_spec(d@) + "))"@,
        DigestPattern::Prefix(x) => "DIGEST("@ + hex_spec(x@) + ")"@,
        DigestPattern::BinaryRegex(r) => "DIGEST(/"@ + r@ + "/)"@,
    }
}

/// The rendering of a node pattern.
pub open spec fn node_text(np: NodePattern) -> Seq<char> {
    match np {
        NodePattern::Any => "NODE"@,
        NodePattern::AssertionsInterval(iv) => "NODE("@ + range_notation_spec(iv@) + ")"@,
    }
}

/// The rendering of an obscured pattern.
pub open spec fn obscured_text(op: ObscuredPattern) -> Seq<char> {
    match op {
        ObscuredPattern::Any => "obscured"@,
        ObscuredPattern::Elided => "elided"@,
        ObscuredPattern::Encrypted => "encrypted"@,
        ObscuredPattern::Compressed => "compressed"@,
    }
}

/// `prefix` + `inner` + `")"`.
pub open spec fn call_text(prefix: Seq<char>, inner: Seq<char>) -> Seq<char> {
    prefix + inner + ")"@
}

/// The rendering of a pattern.
pub open spec fn pattern_text(p: Pattern) -> Seq<char>
    decreases p, 0int,
{
    match p {
        Pattern::Leaf(l) => leaf_text(l),
        Pattern::Structure(s) => match s {
            StructurePattern::Assertions(AssertionsPattern::Any) => "assert"@,
            StructurePattern::Assertions(AssertionsPattern::WithPredicate(q)) => call_text(
                "assertpred("@,
                pattern_text(*q),
            ),
            StructurePattern::Assertions(AssertionsPattern::WithObject(q)) => call_text(
                "assertobj("@,
                pattern_text(*q),
            ),
            StructurePattern::Digest(dp) => digest_text(dp),
            StructurePattern::Leaf(_) => "LEAF"@,
            StructurePattern::Node(np) => node_text(np),
            StructurePattern::Object(ObjectPattern::Any) => "obj"@,
            StructurePattern::Object(ObjectPattern::Pattern(q)) => call_text(
                "obj("@,
                pattern_text(*q),
            ),
            StructurePattern::Obscured(op) => obscured_text(op),
            StructurePattern::Predicate(PredicatePattern::Any) => "pred"@,
            StructurePattern::Predicate(PredicatePattern::Pattern(q)) => call_text(
                "pred("@,
                pattern_text(*q),
            ),
            StructurePattern::Subject(SubjectPattern::Any) => "subj"@,
            StructurePattern::Subject(SubjectPattern::Pattern(q)) => call_text(
                "subj("@,
                pattern_text(*q),
            ),
            StructurePattern::Wrapped(WrappedPattern::Any) => "WRAPPED"@,
            StructurePattern::Wrapped(WrappedPattern::Unwrap(q)) => match *q {
                Pattern::Meta(MetaPattern::Any(_)) => "unwrap"@,
                _ => call_text("unwrap("@, pattern_text(*q)),
            },
        },
        Pattern::Meta(m) => match m {
            MetaPattern::Any(_) => "*"@,
            MetaPattern::Never(_) => "NONE"@,
            MetaPattern::And(AndPattern(v)) => joined_text(v@, v@.len() as int, " & "@),
            MetaPattern::Or(OrPattern(v)) => joined_text(v@, v@.len() as int, " | "@),
            MetaPattern::Not(NotPattern(q)) => if is_complex_spec(*q) {
                call_text("!("@, pattern_text(*q))
            } else {
                "!"@ + pattern_text(*q)
            },
            MetaPattern::Search(SearchPattern(q)) => call_text("SEARCH("@, pattern_text(*q)),
            MetaPattern::Traverse(t) => traverse_text(t),
            MetaPattern::Group(g) => call_text("("@, pattern_text(*g.pattern)) + quantifier_text(
                g.quantifier@,
            ),
            MetaPattern::Capture(c) => call_text(
                "@"@ + c.name@ + "("@,
                pattern_text(*c.pattern),
            ),
        },
    }
}

/// The renderings of the first `n` patterns of `s`, separated by `sep`.
pub open spec fn joined_text(s: Seq<Pattern>, n: int, sep: Seq<char>) -> Seq<char>
    decreases s, n,
{
    if n <= 0 || n > s.len() {
        Seq::empty()
    } else if n == 1 {
        pattern_text(s[0])
    } else {
        joined_text(s, n - 1, sep) + sep + pattern_text(s[n - 1])
    }
}

/// The patterns of a traversal rendered and separated by `" -> "`.
pub open spec fn traverse_text(t: TraversePattern) -> Seq<char>
    decreases t, 0int,
{
    match t.rest {
        Some(r) => pattern_text(*t.first) + " -> "@ + traverse_text(*r),
        None => pattern_text(*t.first),
    }
}

/// The patterns of a sequence rendered and separated by `">"`.
pub open spec fn sequence_text(t: SequencePattern) -> Seq<char>
    decreases t,
{
    match t.rest {
        Some(r) => pattern_text(*t.first) + ">"@ + sequence_text(*r),
        None => pattern_text(*t.first),
    }
}

/// Whether the rendering of `p` holds nested patterns that call for grouping
/// parentheses: conjunctions and disjunctions of more than one pattern or of
/// a complex one, and traversals of more than one pattern or starting with a
/// complex one.
pub open spec fn is_complex_spec(p: Pattern) -> bool
    decreases p, 0int,
{
    match p {
        Pattern::Meta(MetaPattern::And(AndPattern(v))) => v@.len() > 1 || any_complex(
            v@,
            v@.len() as int,
        ),
        Pattern::Meta(MetaPattern::Or(OrPattern(v))) => v@.len() > 1 || any_complex(
            v@,
            v@.len() as int,
        ),
        Pattern::Meta(MetaPattern::Traverse(t)) => is_complex_spec(*t.first) || t.rest is Some,
        _ => false,
    }
}

/// Whether one of the first `n` patterns of `s` is complex.
pub open spec fn any_complex(s: Seq<Pattern>, n: int) -> bool
    decreases s, n,
{
    if n <= 0 || n > s.len() {
        false
    } else {
        any_complex(s, n - 1) || is_complex_spec(s[n - 1])
    }
}

// ---------------------------------------------------------------------------
// Executable renderings
// ---------------------------------------------------------------------------

/// `prefix` + `inner` + `")"`.
fn call_string(prefix: &str, inner: String) -> (r: String)
    ensures
        r@ == call_text(prefix@, inner@),
{
    proof {
        reveal_strlit(")");
    }
    let mut out = string_of(prefix);
    push_str(&mut out, inner.as_str());
    push_str(&mut out, ")");
    out
}

/// The rendering of a text pattern.
pub fn text_pattern_string(tp: &TextPattern) -> (r: String)
    ensures
        r@ == text_pattern_text(*tp),
{
    proof {
        reveal_strlit("TEXT");
        reveal_strlit("TEXT(\"");
        reveal_strlit("\")");
        reveal_strlit("TEXT(/");
        reveal_strlit("/)");
    }
    match tp {
        TextPattern::Any => string_of("TEXT"),
        TextPattern::Value(v) => {
            let mut out = string_of("TEXT(\"");
            let e = escape_quoted(v.as_str());
            push_str(&mut out, e.as_str());
            push_str(&mut out, "\")");
            out
        },
        TextPattern::Regex(r) => {
            let mut out = string_of("TEXT(/");
            push_str(&mut out, r.as_str());
            push_str(&mut out, "/)");
            out
        },
    }
}

/// The rendering of a CBOR pattern.
pub fn cbor_pattern_string(cp: &CBORPattern) -> (r: String)
    ensures
        r@ == cbor_pattern_text(*cp),
{
    proof {
        reveal_strlit("CBOR");
        reveal_strlit("CBOR(");
        reveal_strlit("CBOR(/");
        reveal_strlit(")");
        reveal_strlit("/)");
    }
    match cp {
        CBORPattern::Any => string_of("CBOR"),
        CBORPattern::Value(v) => call_string("CBOR(", cbor_diagnostic_flat(v.as_slice())),
        CBORPattern::Pattern(e) => {
            let mut out = string_of("CBOR(/");
            push_str(&mut out, e.as_str());
            push_str(&mut out, "/)");
            out
        },
    }
}

/// The rendering of a leaf pattern.
pub fn leaf_string(lp: &LeafPattern) -> (r: String)
    ensures
        r@ == leaf_text(*lp),
{
    proof {
        reveal_strlit("null");
    }
    match lp {
        LeafPattern::Any => string_of("LEAF"),
        LeafPattern::Cbor(cp) => cbor_pattern_string(cp),
        LeafPattern::Number(p) => p.expr.clone(),
        LeafPattern::Text(tp) => text_pattern_string(tp),
        LeafPattern::ByteString(p) => p.expr.clone(),
        LeafPattern::Tag(p) => collapse_comma_spaces(p.expr.as_str()),
        LeafPattern::Array(ap) => array_string(ap),
        LeafPattern::MapValue(p) => map_string(p),
        LeafPattern::Bool(p) => p.expr.clone(),
        LeafPattern::Null(_) => string_of("null"),
        LeafPattern::Date(p) => p.expr.clone(),
        LeafPattern::KnownValue(p) => known_value_string(p),
    }
}

/// The rendering of an array pattern.
pub fn array_string(ap: &ArrayPattern) -> (r: String)
    ensures
        r@ == array_text(*ap),
{
    proof {
        reveal_strlit("[*]");
    }
    match ap {
        ArrayPattern::Any => string_of("[*]"),
        _ => array_expression(ap),
    }
}

/// The rendering of a map pattern.
pub fn map_string(mp: &MapPattern) -> (r: String)
    ensures
        r@ == map_text(*mp),
{
    proof {
        reveal_strlit("{*}");
    }
    match mp {
        MapPattern::Any => string_of("{*}"),
        _ => map_expression(mp),
    }
}

/// The rendering of a known-value pattern.
pub fn known_value_string(kp: &KnownValuePattern) -> (r: String)
    ensures
        r@ == known_value_text(*kp),
{
    proof {
        reveal_strlit("KNOWN");
        reveal_strlit("KNOWN('");
        reveal_strlit("')");
        reveal_strlit("KNOWN(/");
        reveal_strlit("/)");
    }
    match kp {
        KnownValuePattern::Any => string_of("KNOWN"),
        KnownValuePattern::Value { name, .. } => {
            let mut out = string_of("KNOWN('");
            push_str(&mut out, name.as_str());
            push_str(&mut out, "')");
            out
        },
        KnownValuePattern::Named(n) => {
            let mut out = string_of("KNOWN('");
            push_str(&mut out, n.as_str());
            push_str(&mut out, "')");
            out
        },
        KnownValuePattern::Regex(r) => {
            let mut out = string_of("KNOWN(/");
            push_str(&mut out, r.as_str());
            push_str(&mut out, "/)");
            out
        },
    }
}

/// The rendering of a digest pattern.
pub fn digest_string(dp: &DigestPattern) -> (r: String)
    ensures
        r@ == digest_text(*dp),
{
    proof {
        reveal_strlit("DIGEST(Digest(");
        reveal_strlit("))");
        reveal_strlit("DIGEST(");
        reveal_strlit(")");
        reveal_strlit("DIGEST(/");
        reveal_strlit("/)");
    }
    match dp {
        DigestPattern::Digest(d) => {
            let mut out = string_of("DIGEST(Digest(");
            let h = hex_encode(d.as_slice());
            push_str(&mut out, h.as_str());
            push_str(&mut out, "))");
            out
        },
        DigestPattern::Prefix(x) => call_string("DIGEST(", hex_encode(x.as_slice())),
        DigestPattern::BinaryRegex(r) => {
            let mut out = string_of("DIGEST(/");
            push_str(&mut out, r.as_str());
            push_str(&mut out, "/)");
            out
        },
    }
}

/// The rendering of a node pattern.
pub fn node_string(np: &NodePattern) -> (r: String)
    ensures
        r@ == node_text(*np),
{
    proof {
        reveal_strlit("NODE");
        reveal_strlit("NODE(");
    }
    match np {
        NodePattern::Any => string_of("NODE"),
        NodePattern::AssertionsInterval(iv) => call_string("NODE(", iv.range_notation()),
    }
}

/// The rendering of an obscured pattern.
pub fn obscured_string(op: &ObscuredPattern) -> (r: String)
    ensures
        r@ == obscured_text(*op),
{
    proof {
        reveal_strlit("obscured");
        reveal_strlit("elided");
        reveal_strlit("encrypted");
        reveal_strlit("compressed");
    }
    match op {
        ObscuredPattern::Any => string_of("obscured"),
        ObscuredPattern::Elided => string_of("elided"),
        ObscuredPattern::Encrypted => string_of("encrypted"),
        ObscuredPattern::Compressed => string_of("compressed"),
    }
}

/// The rendering of a pattern.
pub fn pattern_string(p: &Pattern) -> (r: String)
    ensures
        r@ == pattern_text(*p),
    decreases p, 1int,
{
    proof {
        reveal_strlit("assert");
        reveal_strlit("assertpred(");
        reveal_strlit("assertobj(");
        reveal_strlit("LEAF");
        reveal_strlit("obj");
        reveal_strlit("obj(");
        reveal_strlit("pred");
        reveal_strlit("pred(");
        reveal_strlit("subj");
        reveal_strlit("subj(");
        reveal_strlit("WRAPPED");
        reveal_strlit("unwrap");
        reveal_strlit("unwrap(");
        reveal_strlit("*");
        reveal_strlit("NONE");
        reveal_strlit(" & ");
        reveal_strlit(" | ");
        reveal_strlit("!(");
        reveal_strlit("!");
        reveal_strlit("SEARCH(");
        reveal_strlit("(");
        reveal_strlit("@");
    }
    match p {
        Pattern::Leaf(l) => leaf_string(l),
        Pattern::Structure(s) => match s {
            StructurePattern::Assertions(AssertionsPattern::Any) => string_of("assert"),
            StructurePattern::Assertions(AssertionsPattern::WithPredicate(q)) => call_string(
                "assertpred(",
                pattern_string(q),
            ),
            StructurePattern::Assertions(AssertionsPattern::WithObject(q)) => call_string(
                "assertobj(",
                pattern_string(q),
            ),
            StructurePattern::Digest(dp) => digest_string(dp),
            StructurePattern::Leaf(_) => string_of("LEAF"),
            StructurePattern::Node(np) => node_string(np),
            StructurePattern::Object(ObjectPattern::Any) => string_of("obj"),
            StructurePattern::Object(ObjectPattern::Pattern(q)) => call_string(
                "obj(",
                pattern_string(q),
            ),
            StructurePattern::Obscured(op) => obscured_string(op),
            StructurePattern::Predicate(PredicatePattern::Any) => string_of("pred"),
            StructurePattern::Predicate(PredicatePattern::Pattern(q)) => call_string(
                "pred(",
                pattern_string(q),
            ),
            StructurePattern::Subject(SubjectPattern::Any) => string_of("subj"),
            StructurePattern::Subject(SubjectPattern::Pattern(q)) => call_string(
                "subj(",
                pattern_string(q),
            ),
            StructurePattern::Wrapped(WrappedPattern::Any) => string_of("WRAPPED"),
            StructurePattern::Wrapped(WrappedPattern::Unwrap(q)) => match &**q {
                Pattern::Meta(MetaPattern::Any(_)) => string_of("unwrap"),
                _ => call_string("unwrap(", pattern_string(q)),
            },
        },
        Pattern::Meta(m) => match m {
            MetaPattern::Any(_) => string_of("*"),
            MetaPattern::Never(_) => string_of("NONE"),
            MetaPattern::And(AndPattern(v)) => {
                assert(decreases_to!(*p => v@));
                joined_string(Ghost(*p), v, " & ")
            },
            MetaPattern::Or(OrPattern(v)) => {
                assert(decreases_to!(*p => v@));
                joined_string(Ghost(*p), v, " | ")
            },
            MetaPattern::Not(NotPattern(q)) => {
                if is_complex(q) {
                    call_string("!(", pattern_string(q))
                } else {
                    let mut out = string_of("!");
                    let t = pattern_string(q);
                    push_str(&mut out, t.as_str());
                    out
                }
            },
            MetaPattern::Search(SearchPattern(q)) => call_string("SEARCH(", pattern_string(q)),
            MetaPattern::Traverse(t) => traverse_string(t),
            MetaPattern::Group(g) => {
                let mut out = call_string("(", pattern_string(&g.pattern));
                let qt = g.quantifier.to_string();
                push_str(&mut out, qt.as_str());
                out
            },
            MetaPattern::Capture(c) => {
                let mut prefix = string_of("@");
                push_str(&mut prefix, c.name.as_str());
                push_str(&mut prefix, "(");
                call_string(prefix.as_str(), pattern_string(&c.pattern))
            },
        },
    }
}

/// The renderings of `v` separated by `sep`.
fn joined_string(Ghost(whole): Ghost<Pattern>, v: &Vec<Pattern>, sep: &str) -> (r: String)
    requires
        decreases_to!(whole => v@),
    ensures
        r@ == joined_text(v@, v@.len() as int, sep@),
    decreases whole, 0int,
{
    let mut out = String::new();
    let mut i: usize = 0;
    while i < v.len()
        invariant
            i <= v@.len(),
            decreases_to!(whole => v@),
            out@ == joined_text(v@, i as int, sep@),
        decreases v@.len() - i,
    {
        proof {
            assert(decreases_to!(v@ => v@[i as int]));
        }
        if i > 0 {
            push_str(&mut out, sep);
        }
        let t = pattern_string(&v[i]);
        push_str(&mut out, t.as_str());
        i = i + 1;
    }
    out
}

/// The patterns of a traversal rendered and separated by `" -> "`.
pub fn traverse_string(t: &TraversePattern) -> (r: String)
    ensures
        r@ == traverse_text(*t),
    decreases t, 0int,
{
    proof {
        reveal_strlit(" -> ");
    }
    let mut out = pattern_string(&t.first);
    match &t.rest {
        Some(r) => {
            push_str(&mut out, " -> ");
            let rt = traverse_string(r);
            push_str(&mut out, rt.as_str());
        },
        None => {},
    }
    out
}

/// The patterns of a sequence rendered and separated by `">"`.
pub fn sequence_string(t: &SequencePattern) -> (r: String)
    ensures
        r@ == sequence_text(*t),
    decreases t,
{
    proof {
        reveal_strlit(">");
    }
    let mut out = pattern_string(&t.first);
    match &t.rest {
        Some(r) => {
            push_str(&mut out, ">");
            let rt = sequence_string(r);
            push_str(&mut out, rt.as_str());
        },
        None => {},
    }
    out
}

/// Whether the rendering of `p` calls for grouping parentheses.
pub fn is_complex(p: &Pattern) -> (r: bool)
    ensures
        r == is_complex_spec(*p),
    decreases p, 1int,
{
    match p {
        Pattern::Meta(MetaPattern::And(AndPattern(v))) => {
            assert(decreases_to!(*p => v@));
            v.len() > 1 || any_complex_exec(Ghost(*p), v)
        },
        Pattern::Meta(MetaPattern::Or(OrPattern(v))) => {
            assert(decreases_to!(*p => v@));
            v.len() > 1 || any_complex_exec(Ghost(*p), v)
        },
        Pattern::Meta(MetaPattern::Traverse(t)) => is_complex(&t.first) || t.rest.is_some(),
        _ => false,
    }
}

fn any_complex_exec(Ghost(whole): Ghost<Pattern>, v: &Vec<Pattern>) -> (r: bool)
    requires
        decreases_to!(whole => v@),
    ensures
        r == any_complex(v@, v@.len() as int),
    decreases whole, 0int,
{
    let mut i: usize = 0;
    while i < v.len()
        invariant
            i <= v@.len(),
            decreases_to!(whole => v@),
            !any_complex(v@, i as int),
        decreases v@.len() - i,
    {
        proof {
            assert(decreases_to!(v@ => v@[i as int]));
        }
        if is_complex(&v[i]) {
            proof {
                lemma_any_complex_from(v@, i as int + 1, v@.len() as int);
            }
            return true;
        }
        i = i + 1;
    }
    false
}

/// Once one of the first `m` patterns is complex, so is one of the first `n`.
proof fn lemma_any_complex_from(s: Seq<Pattern>, m: int, n: int)
    requires
        0 < m <= n <= s.len(),
        any_complex(s, m),
    ensures
        any_complex(s, n),
    decreases n - m,
{
    if m < n {
        lemma_any_complex_from(s, m, n - 1);
    }
}


impl Pattern {
    /// The text rendering of the pattern.
    pub fn to_string(&self) -> (r: String)
        ensures
            r@ == pattern_text(*self),
    {
        pattern_string(self)
    }

    /// Whether the rendering of the pattern calls for grouping parentheses.
    pub fn is_complex(&self) -> (r: bool)
        ensures
            r == is_complex_spec(*self),
    {
        is_complex(self)
    }
}

impl LeafPattern {
    /// The text rendering of the pattern.
    pub fn to_string(&self) -> (r: String)
        ensures
            r@ == pattern_text(Pattern::Leaf(*self)),
    {
        leaf_string(self)
    }

    /// Leaf patterns are never complex.
    pub fn is_complex(&self) -> (r: bool)
        ensures
            r == is_complex_spec(Pattern::Leaf(*self)),
            !r,
    {
        false
    }
}

impl StructurePattern {
    /// Structure patterns are never complex.
    pub fn is_complex(&self) -> (r: bool)
        ensures
            r == is_complex_spec(Pattern::Structure(*self)),
            !r,
    {
        false
    }
}

impl MetaPattern {
    /// Whether the rendering of the pattern calls for grouping parentheses.
    pub fn is_complex(&self) -> (r: bool)
        ensures
            r == is_complex_spec(Pattern::Meta(*self)),
    {
        match self {
            MetaPattern::And(a) => a.is_complex(),
            MetaPattern::Or(o) => {
                proof {
                    lemma_or_decreases(*o);
                }
                o.0.len() > 1 || any_complex_exec(Ghost(Pattern::Meta(*self)), &o.0)
            },
            MetaPattern::Traverse(t) => t.is_complex(),
            _ => false,
        }
    }
}

impl AndPattern {
    /// Complex when it holds more than one pattern or a complex one.
    pub fn is_complex(&self) -> (r: bool)
        ensures
            r == is_complex_spec(Pattern::Meta(MetaPattern::And(*self))),
    {
        proof {
            lemma_and_decreases(*self);
        }
        self.0.len() > 1 || any_complex_exec(Ghost(Pattern::Meta(MetaPattern::And(*self))), &self.0)
    }
}

impl TraversePattern {
    /// Complex when its first pattern is complex or it has more than one.
    pub fn is_complex(&self) -> (r: bool)
        ensures
            r == is_complex_spec(Pattern::Meta(MetaPattern::Traverse(*self))),
    {
        is_complex(&self.first) || self.rest.is_some()
    }
}

impl SequencePattern {
    /// Complex when its first pattern is complex or it has more than one.
    pub fn is_complex(&self) -> (r: bool)
        ensures
            r == (is_complex_spec(*self.first) || self.rest is Some),
    {
        is_complex(&self.first) || self.rest.is_some()
    }

    /// The patterns rendered and separated by `">"`.
    pub fn to_string(&self) -> (r: String)
        ensures
            r@ == sequence_text(*self),
    {
        sequence_string(self)
    }
}

impl CBORPattern {
    /// The text rendering of the pattern.
    pub fn to_string(&self) -> (r: String)
        ensures
            r@ == pattern_text(Pattern::Leaf(LeafPattern::Cbor(*self))),
    {
        cbor_pattern_string(self)
    }
}

impl NumberPattern {
    /// The text rendering of the pattern.
    pub fn to_string(&self) -> (r: String)
        ensures
            r@ == pattern_text(Pattern::Leaf(LeafPattern::Number(*self))),
    {
        self.expr.clone()
    }
}

impl TextPattern {
    /// The pattern as a dcbor-pattern expression: `text`, the quoted text,
    /// or the regular expression between slashes. (Within a whole pattern
    /// it is rendered `TEXT(...)`.)
    pub fn to_string(&self) -> (r: String)
        ensures
            r@ == text_expr(*self),
    {
        text_expression(self)
    }
}

impl ByteStringPattern {
    /// The text rendering of the pattern.
    pub fn to_string(&self) -> (r: String)
        ensures
            r@ == pattern_text(Pattern::Leaf(LeafPattern::ByteString(*self))),
    {
        self.expr.clone()
    }
}

impl TaggedPattern {
    /// The text rendering of the pattern.
    pub fn to_string(&self) -> (r: String)
        ensures
            r@ == pattern_text(Pattern::Leaf(LeafPattern::Tag(*self))),
    {
        collapse_comma_spaces(self.expr.as_str())
    }
}

impl ArrayPattern {
    /// The text rendering of the pattern.
    pub fn to_string(&self) -> (r: String)
        ensures
            r@ == pattern_text(Pattern::Leaf(LeafPattern::Array(*self))),
    {
        array_string(self)
    }
}

impl MapPattern {
    /// The text rendering of the pattern.
    pub fn to_string(&self) -> (r: String)
        ensures
            r@ == pattern_text(Pattern::Leaf(LeafPattern::MapValue(*self))),
    {
        map_string(self)
    }
}

impl BoolPattern {
    /// The text rendering of the pattern.
    pub fn to_string(&self) -> (r: String)
        ensures
            r@ == pattern_text(Pattern::Leaf(LeafPattern::Bool(*self))),
    {
        self.expr.clone()
    }
}

impl NullPattern {
    /// The text rendering of the pattern.
    pub fn to_string(&self) -> (r: String)
        ensures
            r@ == pattern_text(Pattern::Leaf(LeafPattern::Null(*self))),
    {
        proof {
            reveal_strlit("null");
        }
        string_of("null")
    }
}

impl DatePattern {
    /// The text rendering of the pattern.
    pub fn to_string(&self) -> (r: String)
        ensures
            r@ == pattern_text(Pattern::Leaf(LeafPattern::Date(*self))),
    {
        self.expr.clone()
    }
}

impl KnownValuePattern {
    /// The text rendering of the pattern.
    pub fn to_string(&self) -> (r: String)
        ensures
            r@ == pattern_text(Pattern::Leaf(LeafPattern::KnownValue(*self))),
    {
        known_value_string(self)
    }
}

impl StructurePattern {
    /// The text rendering of the pattern.
    pub fn to_string(&self) -> (r: String)
        ensures
            r@ == pattern_text(Pattern::Structure(*self)),
    {
        structure_string(self)
    }
}

impl DigestPattern {
    /// The text rendering of the pattern.
    pub fn to_string(&self) -> (r: String)
        ensures
            r@ == pattern_text(Pattern::Structure(StructurePattern::Digest(*self))),
    {
        digest_string(self)
    }
}

impl NodePattern {
    /// The text rendering of the pattern.
    pub fn to_string(&self) -> (r: String)
        ensures
            r@ == pattern_text(Pattern::Structure(StructurePattern::Node(*self))),
    {
        node_string(self)
    }
}

impl ObscuredPattern {
    /// The text rendering of the pattern.
    pub fn to_string(&self) -> (r: String)
        ensures
            r@ == pattern_text(Pattern::Structure(StructurePattern::Obscured(*self))),
    {
        obscured_string(self)
    }
}

impl LeafStructurePattern {
    /// The text rendering of the pattern.
    pub fn to_string(&self) -> (r: String)
        ensures
            r@ == pattern_text(Pattern::Structure(StructurePattern::Leaf(*self))),
    {
        proof {
            reveal_strlit("LEAF");
        }
        string_of("LEAF")
    }
}

impl AnyPattern {
    /// The text rendering of the pattern.
    pub fn to_string(&self) -> (r: String)
        ensures
            r@ == pattern_text(Pattern::Meta(MetaPattern::Any(*self))),
    {
        proof {
            reveal_strlit("*");
        }
        string_of("*")
    }
}

impl NonePattern {
    /// The text rendering of the pattern.
    pub fn to_string(&self) -> (r: String)
        ensures
            r@ == pattern_text(Pattern::Meta(MetaPattern::Never(*self))),
    {
        proof {
            reveal_strlit("NONE");
        }
        string_of("NONE")
    }
}

impl AndPattern {
    /// The text rendering of the pattern.
    pub fn to_string(&self) -> (r: String)
        ensures
            r@ == pattern_text(Pattern::Meta(MetaPattern::And(*self))),
    {
        proof {
            lemma_and_decreases(*self);
            reveal_strlit(" & ");
        }
        joined_string(Ghost(Pattern::Meta(MetaPattern::And(*self))), &self.0, " & ")
    }
}

impl OrPattern {
    /// The text rendering of the pattern.
    pub fn to_string(&self) -> (r: String)
        ensures
            r@ == pattern_text(Pattern::Meta(MetaPattern::Or(*self))),
    {
        proof {
            lemma_or_decreases(*self);
            reveal_strlit(" | ");
        }
        joined_string(Ghost(Pattern::Meta(MetaPattern::Or(*self))), &self.0, " | ")
    }
}

impl SearchPattern {
    /// The text rendering of the pattern.
    pub fn to_string(&self) -> (r: String)
        ensures
            r@ == pattern_text(Pattern::Meta(MetaPattern::Search(*self))),
    {
        proof {
            reveal_strlit("SEARCH(");
        }
        call_string("SEARCH(", pattern_string(&self.0))
    }
}

impl TraversePattern {
    /// The text rendering of the pattern.
    pub fn to_string(&self) -> (r: String)
        ensures
            r@ == pattern_text(Pattern::Meta(MetaPattern::Traverse(*self))),
    {
        traverse_string(self)
    }
}

impl CapturePattern {
    /// The text rendering of the pattern.
    pub fn to_string(&self) -> (r: String)
        ensures
            r@ == pattern_text(Pattern::Meta(MetaPattern::Capture(*self))),
    {
        proof {
            reveal_strlit("@");
            reveal_strlit("(");
        }
        let mut prefix = string_of("@");
        push_str(&mut prefix, self.name.as_str());
        push_str(&mut prefix, "(");
        call_string(prefix.as_str(), pattern_string(&self.pattern))
    }
}

impl GroupPattern {
    /// The text rendering of the pattern.
    pub fn to_string(&self) -> (r: String)
        ensures
            r@ == pattern_text(Pattern::Meta(MetaPattern::Group(*self))),
    {
        proof {
            reveal_strlit("(");
        }
        let mut out = call_string("(", pattern_string(&self.pattern));
        let qt = self.quantifier.to_string();
        push_str(&mut out, qt.as_str());
        out
    }
}

impl NotPattern {
    /// The text rendering of the pattern.
    pub fn to_string(&self) -> (r: String)
        ensures
            r@ == pattern_text(Pattern::Meta(MetaPattern::Not(*self))),
    {
        not_string(self)
    }
}

/// The rendering of a structure pattern.
fn structure_string(sp: &StructurePattern) -> (r: String)
    ensures
        r@ == pattern_text(Pattern::Structure(*sp)),
{
    proof {
        reveal_strlit("assert");
        reveal_strlit("assertpred(");
        reveal_strlit("assertobj(");
        reveal_strlit("LEAF");
        reveal_strlit("obj");
        reveal_strlit("obj(");
        reveal_strlit("pred");
        reveal_strlit("pred(");
        reveal_strlit("subj");
        reveal_strlit("subj(");
        reveal_strlit("WRAPPED");
        reveal_strlit("unwrap");
        reveal_strlit("unwrap(");
    }
    match sp {
        StructurePattern::Assertions(AssertionsPattern::Any) => string_of("assert"),
        StructurePattern::Assertions(AssertionsPattern::WithPredicate(q)) => call_string(
            "assertpred(",
            pattern_string(q),
        ),
        StructurePattern::Assertions(AssertionsPattern::WithObject(q)) => call_string(
            "assertobj(",
            pattern_string(q),
        ),
        StructurePattern::Digest(dp) => digest_string(dp),
        StructurePattern::Leaf(_) => string_of("LEAF"),
        StructurePattern::Node(np) => node_string(np),
        StructurePattern::Object(ObjectPattern::Any) => string_of("obj"),
        StructurePattern::Object(ObjectPattern::Pattern(q)) => call_string("obj(", pattern_string(q)),
        StructurePattern::Obscured(op) => obscured_string(op),
        StructurePattern::Predicate(PredicatePattern::Any) => string_of("pred"),
        StructurePattern::Predicate(PredicatePattern::Pattern(q)) => call_string(
            "pred(",
            pattern_string(q),
        ),
        StructurePattern::Subject(SubjectPattern::Any) => string_of("subj"),
        StructurePattern::Subject(SubjectPattern::Pattern(q)) => call_string(
            "subj(",
            pattern_string(q),
        ),
        StructurePattern::Wrapped(WrappedPattern::Any) => string_of("WRAPPED"),
        StructurePattern::Wrapped(WrappedPattern::Unwrap(q)) => match &**q {
            Pattern::Meta(MetaPattern::Any(_)) => string_of("unwrap"),
            _ => call_string("unwrap(", pattern_string(q)),
        },
    }
}

/// The rendering of a negation.
fn not_string(np: &NotPattern) -> (r: String)
    ensures
        r@ == pattern_text(Pattern::Meta(MetaPattern::Not(*np))),
{
    proof {
        reveal_strlit("!(");
        reveal_strlit("!");
    }
    if is_complex(&np.0) {
        call_string("!(", pattern_string(&np.0))
    } else {
        let mut out = string_of("!");
        let t = pattern_string(&np.0);
        push_str(&mut out, t.as_str());
        out
    }
}

impl AssertionsPattern {
    /// The text rendering of the pattern.
    pub fn to_string(&self) -> (r: String)
        ensures
            r@ == pattern_text(Pattern::Structure(StructurePattern::Assertions(*self))),
    {
        proof {
            reveal_strlit("assert");
            reveal_strlit("assertpred(");
            reveal_strlit("assertobj(");
        }
        match self {
            AssertionsPattern::Any => string_of("assert"),
            AssertionsPattern::WithPredicate(q) => call_string("assertpred(", pattern_string(q)),
            AssertionsPattern::WithObject(q) => call_string("assertobj(", pattern_string(q)),
        }
    }
}

impl ObjectPattern {
    /// The text rendering of the pattern.
    pub fn to_string(&self) -> (r: String)
        ensures
            r@ == pattern_text(Pattern::Structure(StructurePattern::Object(*self))),
    {
        proof {
            reveal_strlit("obj");
            reveal_strlit("obj(");
        }
        match self {
            ObjectPattern::Any => string_of("obj"),
            ObjectPattern::Pattern(q) => call_string("obj(", pattern_string(q)),
        }
    }
}

impl PredicatePattern {
    /// The text rendering of the pattern.
    pub fn to_string(&self) -> (r: String)
        ensures
            r@ == pattern_text(Pattern::Structure(StructurePattern::Predicate(*self))),
    {
        proof {
            reveal_strlit("pred");
            reveal_strlit("pred(");
        }
        match self {
            PredicatePattern::Any => string_of("pred"),
            PredicatePattern::Pattern(q) => call_string("pred(", pattern_string(q)),
        }
    }
}

impl SubjectPattern {
    /// The text rendering of the pattern.
    pub fn to_string(&self) -> (r: String)
        ensures
            r@ == pattern_text(Pattern::Structure(StructurePattern::Subject(*self))),
    {
        proof {
            reveal_strlit("subj");
            reveal_strlit("subj(");
        }
        match self {
            SubjectPattern::Any => string_of("subj"),
            SubjectPattern::Pattern(q) => call_string("subj(", pattern_string(q)),
        }
    }
}

impl WrappedPattern {
    /// The text rendering of the pattern.
    pub fn to_string(&self) -> (r: String)
        ensures
            r@ == pattern_text(Pattern::Structure(StructurePattern::Wrapped(*self))),
    {
        proof {
            reveal_strlit("WRAPPED");
            reveal_strlit("unwrap");
            reveal_strlit("unwrap(");
        }
        match self {
            WrappedPattern::Any => string_of("WRAPPED"),
            WrappedPattern::Unwrap(q) => match &**q {
                Pattern::Meta(MetaPattern::Any(_)) => string_of("unwrap"),
                _ => call_string("unwrap(", pattern_string(q)),
            },
        }
    }
}


proof fn lemma_and_decreases(a: AndPattern)
    ensures
        decreases_to!(Pattern::Meta(MetaPattern::And(a)) => a.0@),
{
    let p = Pattern::Meta(MetaPattern::And(a));
    match p {
        Pattern::Meta(MetaPattern::And(AndPattern(v))) => {
            assert(decreases_to!(p => v@));
        },
        _ => {},
    }
}

proof fn lemma_or_decreases(a: OrPattern)
    ensures
        decreases_to!(Pattern::Meta(MetaPattern::Or(a)) => a.0@),
{
    let p = Pattern::Meta(MetaPattern::Or(a));
    match p {
        Pattern::Meta(MetaPattern::Or(OrPattern(v))) => {
            assert(decreases_to!(p => v@));
        },
        _ => {},
    }
}

} // verus!
