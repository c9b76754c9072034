//! Using dcbor-pattern patterns as envelope patterns.
//!
//! A dcbor-pattern pattern is held here as what the conversion reads of it:
//! its kind, the sub-patterns of the combinators the conversion descends
//! into, and otherwise its dcbor-pattern expression text.
use vstd::prelude::*;

use crate::pattern::{
    AndPattern, AnyPattern, ArrayPattern, BoolPattern, ByteStringPattern, CBORPattern,
    DatePattern, KnownValuePattern, LeafPattern, MapPattern, MetaPattern, NotPattern,
    NullPattern, NumberPattern, OrPattern, Pattern, TaggedPattern, TextPattern,
};

verus! {

/// A dcbor-pattern value pattern.
pub enum DCBORValuePattern {
    Bool(String),
    Number(String),
    Text(TextPattern),
    ByteString(String),
    Date(String),
    KnownValue(KnownValuePattern),
    Null,
    Digest(String),
}

/// A dcbor-pattern structure pattern, as its expression text.
pub enum DCBORStructurePattern {
    Array(String),
    MapValue(String),
    Tagged(String),
}

/// A dcbor-pattern meta pattern: the combinators the conversion descends
/// into hold their sub-patterns, the others their expression text.
pub enum DCBORMetaPattern {
    Any,
    And(Vec<DCBORPattern>),
    Or(Vec<DCBORPattern>),
    Not(Box<DCBORPattern>),
    Capture(String),
    Repeat(String),
    Search(String),
    Sequence(String),
}

/// A dcbor-pattern pattern.
pub enum DCBORPattern {
    Value(DCBORValuePattern),
    Structure(DCBORStructurePattern),
    Meta(DCBORMetaPattern),
}

/// Why a conversion failed.
#[derive(Debug, PartialEq, Eq)]
pub enum Error {
    /// The pattern has no envelope equivalent.
    Unsupported,
}

/// The leaf pattern a dcbor-pattern value pattern becomes.
pub open spec fn value_converts_to(v: DCBORValuePattern, r: Pattern) -> bool {
    match v {
        DCBORValuePattern::Bool(e) => r matches Pattern::Leaf(LeafPattern::Bool(b)) && b.expr@
            == e@,
        DCBORValuePattern::Number(e) => r matches Pattern::Leaf(LeafPattern::Number(b)) && b.expr@
            == e@,
        DCBORValuePattern::Text(t) => r == Pattern::Leaf(LeafPattern::Text(t)),
        DCBORValuePattern::ByteString(e) => r matches Pattern::Leaf(LeafPattern::ByteString(b))
            && b.expr@ == e@,
        DCBORValuePattern::Date(e) => r matches Pattern::Leaf(LeafPattern::Date(b)) && b.expr@
            == e@,
        DCBORValuePattern::KnownValue(k) => r == Pattern::Leaf(LeafPattern::KnownValue(k)),
        DCBORValuePattern::Null => r == Pattern::Leaf(LeafPattern::Null(NullPattern)),
        DCBORValuePattern::Digest(e) => r matches Pattern::Leaf(
            LeafPattern::Cbor(CBORPattern::Pattern(b)),
        ) && b@ == e@,
    }
}

/// The leaf pattern a dcbor-pattern structure pattern becomes.
pub open spec fn structure_converts_to(s: DCBORStructurePattern, r: Pattern) -> bool {
    match s {
        DCBORStructurePattern::Array(e) => r matches Pattern::Leaf(
            LeafPattern::Array(ArrayPattern::Content(b)),
        ) && b@ == e@,
        DCBORStructurePattern::MapValue(e) => r matches Pattern::Leaf(
            LeafPattern::MapValue(MapPattern::Content(b)),
        ) && b@ == e@,
        DCBORStructurePattern::Tagged(e) => r matches Pattern::Leaf(LeafPattern::Tag(b))
            && b.expr@ == e@,
    }
}

/// Whether `r` is the envelope pattern that `p` converts to: value and
/// structure patterns become the corresponding leaf patterns; "any", and,
/// or and not become the corresponding meta patterns over the converted
/// sub-patterns; the other meta patterns become CBOR patterns with their
/// expression.
pub open spec fn converts_to(p: DCBORPattern, r: Pattern) -> bool
    decreases p, 1int,
{
    match p {
        DCBORPattern::Value(v) => value_converts_to(v, r),
        DCBORPattern::Structure(s) => structure_converts_to(s, r),
        DCBORPattern::Meta(m) => match m {
            DCBORMetaPattern::Any => r == Pattern::Meta(MetaPattern::Any(AnyPattern)),
            DCBORMetaPattern::And(v) => r matches Pattern::Meta(MetaPattern::And(AndPattern(w)))
                && w@.len() == v@.len() && converts_all(v@, w@, v@.len() as int),
            DCBORMetaPattern::Or(v) => r matches Pattern::Meta(MetaPattern::Or(OrPattern(w)))
                && w@.len() == v@.len() && converts_all(v@, w@, v@.len() as int),
            DCBORMetaPattern::Not(q) => r matches Pattern::Meta(MetaPattern::Not(NotPattern(b)))
                && converts_to(*q, *b),
            DCBORMetaPattern::Capture(e) => r matches Pattern::Leaf(
                LeafPattern::Cbor(CBORPattern::Pattern(b)),
            ) && b@ == e@,
            DCBORMetaPattern::Repeat(e) => r matches Pattern::Leaf(
                LeafPattern::Cbor(CBORPattern::Pattern(b)),
            ) && b@ == e@,
            DCBORMetaPattern::Search(e) => r matches Pattern::Leaf(
                LeafPattern::Cbor(CBORPattern::Pattern(b)),
            ) && b@ == e@,
            DCBORMetaPattern::Sequence(e) => r matches Pattern::Leaf(
                LeafPattern::Cbor(CBORPattern::Pattern(b)),
            ) && b@ == e@,
        },
    }
}

/// Each of the first `n` patterns of `v` converts to the pattern at the
/// same place in `w`.
pub open spec fn converts_all(v: Seq<DCBORPattern>, w: Seq<Pattern>, n: int) -> bool
    decreases v, n,
{
    if n <= 0 || n > v.len() {
        true
    } else {
        converts_all(v, w, n - 1) && converts_to(v[n - 1], w[n - 1])
    }
}

proof fn lemma_converts_all_prefix(v: Seq<DCBORPattern>, w1: Seq<Pattern>, w2: Seq<Pattern>, n: int)
    requires
        0 <= n <= v.len(),
        n <= w1.len(),
        n <= w2.len(),
        forall|i: int| 0 <= i < n ==> w1[i] == w2[i],
        converts_all(v, w1, n),
    ensures
        converts_all(v, w2, n),
    decreases n,
{
    if n > 0 {
        lemma_converts_all_prefix(v, w1, w2, n - 1);
    }
}

/// Converts a dcbor-pattern pattern to an envelope pattern.
pub fn convert_dcbor_pattern_to_envelope_pattern(p: DCBORPattern) -> (r: Result<Pattern, Error>)
    ensures
        r matches Ok(q) && converts_to(p, q),
    decreases p, 1int,
{
    match p {
        DCBORPattern::Value(v) => convert_value_pattern_to_envelope_pattern(v),
        DCBORPattern::Structure(s) => convert_structure_pattern_to_envelope_pattern(s),
        DCBORPattern::Meta(m) => convert_meta_pattern_to_envelope_pattern(m),
    }
}

/// Converts a dcbor-pattern value pattern to an envelope leaf pattern.
fn convert_value_pattern_to_envelope_pattern(v: DCBORValuePattern) -> (r: Result<Pattern, Error>)
    ensures
        r matches Ok(q) && value_converts_to(v, q),
{
    let leaf = match v {
        DCBORValuePattern::Bool(e) => LeafPattern::Bool(BoolPattern { expr: e }),
        DCBORValuePattern::Number(e) => LeafPattern::Number(NumberPattern { expr: e }),
        DCBORValuePattern::Text(t) => LeafPattern::Text(t),
        DCBORValuePattern::ByteString(e) => LeafPattern::ByteString(ByteStringPattern { expr: e }),
        DCBORValuePattern::Date(e) => LeafPattern::Date(DatePattern { expr: e }),
        DCBORValuePattern::KnownValue(k) => LeafPattern::KnownValue(k),
        DCBORValuePattern::Null => LeafPattern::Null(NullPattern),
        DCBORValuePattern::Digest(e) => LeafPattern::Cbor(CBORPattern::Pattern(e)),
    };
    Ok(Pattern::Leaf(leaf))
}

/// Converts a dcbor-pattern structure pattern to an envelope leaf pattern.
fn convert_structure_pattern_to_envelope_pattern(s: DCBORStructurePattern) -> (r: Result<
    Pattern,
    Error,
>)
    ensures
        r matches Ok(q) && structure_converts_to(s, q),
{
    let leaf = match s {
        DCBORStructurePattern::Array(e) => LeafPattern::Array(ArrayPattern::Content(e)),
        DCBORStructurePattern::MapValue(e) => LeafPattern::MapValue(MapPattern::Content(e)),
        DCBORStructurePattern::Tagged(e) => LeafPattern::Tag(TaggedPattern { expr: e }),
    };
    Ok(Pattern::Leaf(leaf))
}

/// Converts a dcbor-pattern meta pattern to an envelope pattern.
fn convert_meta_pattern_to_envelope_pattern(m: DCBORMetaPattern) -> (r: Result<Pattern, Error>)
    ensures
        r matches Ok(q) && converts_to(DCBORPattern::Meta(m), q),
    decreases m, 1int,
{
    let ghost gm = m;
    match m {
        DCBORMetaPattern::Any => Ok(Pattern::Meta(MetaPattern::Any(AnyPattern))),
        DCBORMetaPattern::And(v) => {
            proof {
                vstd::std_specs::vec::axiom_vec_decreases_to_view(v);
                assert(decreases_to!(gm => v));
            }
            let w = convert_all(Ghost(gm), v);
            Ok(Pattern::Meta(MetaPattern::And(AndPattern(w))))
        },
        DCBORMetaPattern::Or(v) => {
            proof {
                vstd::std_specs::vec::axiom_vec_decreases_to_view(v);
                assert(decreases_to!(gm => v));
            }
            let w = convert_all(Ghost(gm), v);
            Ok(Pattern::Meta(MetaPattern::Or(OrPattern(w))))
        },
        DCBORMetaPattern::Not(q) => {
            let inner = convert_dcbor_pattern_to_envelope_pattern(*q);
            match inner {
                Ok(i) => Ok(Pattern::Meta(MetaPattern::Not(NotPattern(Box::new(i))))),
                Err(e) => Err(e),
            }
        },
        DCBORMetaPattern::Capture(e) => Ok(Pattern::Leaf(LeafPattern::Cbor(CBORPattern::Pattern(e)))),
        DCBORMetaPattern::Repeat(e) => Ok(Pattern::Leaf(LeafPattern::Cbor(CBORPattern::Pattern(e)))),
        DCBORMetaPattern::Search(e) => Ok(Pattern::Leaf(LeafPattern::Cbor(CBORPattern::Pattern(e)))),
        DCBORMetaPattern::Sequence(e) => Ok(
            Pattern::Leaf(LeafPattern::Cbor(CBORPattern::Pattern(e))),
        ),
    }
}

/// Converts each pattern of `v`, in order.
fn convert_all(Ghost(whole): Ghost<DCBORMetaPattern>, v: Vec<DCBORPattern>) -> (r: Vec<Pattern>)
    requires
        decreases_to!(whole => v@),
    ensures
        r@.len() == v@.len(),
        converts_all(v@, r@, v@.len() as int),
    decreases whole, 0int,
{
    let ghost vv = v@;
    let n = v.len();
    let mut rest = v;
    let mut out: Vec<Pattern> = Vec::new();
    let mut i: usize = 0;
    while i < n
        invariant
            n == vv.len(),
            i <= n,
            rest@ == vv.subrange(i as int, n as int),
            out@.len() == i,
            decreases_to!(whole => vv),
            converts_all(vv, out@, i as int),
        decreases n - i,
    {
        let item = rest.remove(0);
        assert(item == vv[i as int]);
        proof {
            assert(decreases_to!(vv => vv[i as int]));
        }
        let converted = convert_dcbor_pattern_to_envelope_pattern(item);
        match converted {
            Ok(q) => {
                let ghost before = out@;
                out.push(q);
                proof {
                    lemma_converts_all_prefix(vv, before, out@, i as int);
                }
            },
            Err(_) => {
                assert(false);
            },
        }
        assert(rest@ =~= vv.subrange(i + 1, n as int));
        i = i + 1;
    }
    out
}

} // verus!
