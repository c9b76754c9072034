//! What a CBOR pattern finds on an envelope, whatever the pattern.
use vstd::prelude::*;

use crate::dcbor::{dcbor_capture, dcbor_paths};
use crate::envelope::EnvelopeModel;
use crate::dcbor::{text_regex_matches, text_regex_valid};
use crate::expression::{
    expression_capture, expression_paths, literal_replacement, other_than, quote_close,
    quoted_number, registry_free, resolve_from, scan_step, opens_literal, slash_regex,
    u64_numeral, unescaped,
};
use crate::pattern::{CBORPattern, LeafPattern};
use crate::semantics::{converted_captures, leaf_results, CapsModel};

verus! {

/// Every path in `caps` starts at `e`.
pub open spec fn captures_start_at(caps: CapsModel, e: EnvelopeModel) -> bool {
    forall|k: int, m: int|
        0 <= k < caps.len() && 0 <= m < caps[k].1.len() ==> #[trigger] caps[k].1[m].len() > 0
            && caps[k].1[m][0] == e
}

proof fn lemma_converted_captures_start_at(
    expr: Seq<char>,
    c: Seq<u8>,
    base: EnvelopeModel,
    names: Seq<Seq<char>>,
    i: int,
)
    ensures
        captures_start_at(converted_captures(expr, c, base, names, i), base),
    decreases names.len() - i,
{
    if 0 <= i < names.len() {
        lemma_converted_captures_start_at(expr, c, base, names, i + 1);
        let caps = converted_captures(expr, c, base, names, i);
        let rest = converted_captures(expr, c, base, names, i + 1);
        assert forall|k: int, m: int|
            0 <= k < caps.len() && 0 <= m < caps[k].1.len() implies #[trigger] caps[k].1[m].len()
            > 0 && caps[k].1[m][0] == base by {
            if caps.len() > rest.len() && k == 0 {
                let dp = caps[0].1;
                assert(dp[m][0] == base);
            } else if caps.len() > rest.len() {
                assert(caps[k] == rest[k - 1]);
            } else {
                assert(caps[k] == rest[k]);
            }
        }
    }
}

/// Every path a CBOR pattern finds on `e`, and every path it captures, starts
/// at `e`; it captures nothing where it finds nothing; it finds nothing where
/// `e`'s subject is neither a leaf nor a known value; and the pattern that
/// takes any value finds exactly `[e]` where it is one.
pub proof fn law_cbor_paths_start_at_the_envelope(p: CBORPattern, e: EnvelopeModel)
    ensures
        forall|k: int|
            0 <= k < leaf_results(LeafPattern::Cbor(p), e).0.len() ==> #[trigger] leaf_results(
                LeafPattern::Cbor(p),
                e,
            ).0[k].len() > 0 && leaf_results(LeafPattern::Cbor(p), e).0[k][0] == e,
        captures_start_at(leaf_results(LeafPattern::Cbor(p), e).1, e),
        leaf_results(LeafPattern::Cbor(p), e).0.len() == 0 ==> leaf_results(
            LeafPattern::Cbor(p),
            e,
        ).1.len() == 0,
        e.subject().as_leaf() is None && e.subject().as_known_value() is None ==> leaf_results(
            LeafPattern::Cbor(p),
            e,
        ).0.len() == 0,
        p is Any && (e.subject().as_leaf() is Some || e.subject().as_known_value() is Some)
            ==> leaf_results(LeafPattern::Cbor(p), e).0 == seq![seq![e]],
{
    let r = leaf_results(LeafPattern::Cbor(p), e);
    match p {
        CBORPattern::Pattern(x) => {
            let c = match e.subject().as_known_value() {
                Some(v) => crate::known_value::known_value_cbor(v),
                None => match e.subject().as_leaf() {
                    Some(c) => c,
                    None => Seq::empty(),
                },
            };
            lemma_converted_captures_start_at(
                x@,
                c,
                e,
                crate::semantics::dcbor_capture_names(x@),
                0,
            );
        },
        _ => {},
    }
    assert forall|k: int| 0 <= k < r.0.len() implies #[trigger] r.0[k].len() > 0 && r.0[k][0]
        == e by {
    }
}

proof fn lemma_quote_close(s: Seq<char>, j: int)
    requires
        quote_close(s, j) >= 0,
    ensures
        j <= quote_close(s, j) < s.len(),
        s[quote_close(s, j)] == '\'',
    decreases s.len() - j,
{
    if 0 <= j < s.len() && s[j] == '\\' {
        lemma_quote_close(s, if j + 2 <= s.len() { j + 2 } else { s.len() as int });
    } else if 0 <= j < s.len() && s[j] != '\'' {
        lemma_quote_close(s, j + 1);
    }
}

proof fn lemma_numeric_literals_stay(
    s: Seq<char>,
    i: int,
    st: int,
    known: Option<(u64, Seq<char>)>,
    plain: bool,
)
    requires
        0 <= i <= s.len(),
        resolve_from(s, i, st, None, false) is Some,
    ensures
        resolve_from(s, i, st, known, plain) == Some(s.subrange(i, s.len() as int)),
    decreases s.len() - i,
{
    if i >= s.len() {
        assert(s.subrange(i, s.len() as int) =~= Seq::<char>::empty());
    } else if st == 0 && s[i] == '\'' && !opens_literal(s, i) {
        let j = quote_close(s, i + 1);
        lemma_quote_close(s, i + 1);
        let raw = s.subrange(i + 1, j);
        assert(literal_replacement(raw, None, false) is Some);
        assert(literal_replacement(raw, known, plain) == Some(seq!['\''] + raw + seq!['\'']));
        lemma_numeric_literals_stay(s, j + 1, 0, known, plain);
        assert(seq!['\''] + raw + seq!['\''] + s.subrange(j + 1, s.len() as int) =~= s.subrange(
            i,
            s.len() as int,
        ));
    } else {
        let n = scan_step(s, i, st);
        lemma_numeric_literals_stay(s, n, crate::expression::scan_state(s, i, st), known, plain);
        assert(s.subrange(i, n) + s.subrange(n, s.len() as int) =~= s.subrange(i, s.len() as int));
    }
}

/// An expression whose known-value literals are all numbers is matched as
/// written, whatever the haystack: no literal of it is replaced, and what it
/// finds and captures is what dcbor-pattern finds and captures with it.
pub proof fn law_numeric_literals_are_matched_as_written(
    expr: Seq<char>,
    cbor: Seq<u8>,
    known: Option<(u64, Seq<char>)>,
    name: Seq<char>,
)
    requires
        registry_free(expr),
    ensures
        expression_paths(expr, cbor, known) == dcbor_paths(expr, cbor),
        expression_capture(expr, cbor, name, known) == dcbor_capture(expr, cbor, name),
{
    lemma_numeric_literals_stay(expr, 0, 0, known, !crate::expression::holds_known_value_tag(cbor));
    assert(expr.subrange(0, expr.len() as int) =~= expr);
}

proof fn lemma_plain_text_close(x: Seq<char>, j: int)
    requires
        0 <= j <= x.len(),
        forall|k: int| 0 <= k < x.len() ==> x[k] != '\'' && x[k] != '\\',
    ensures
        quote_close(seq!['\''] + x + seq!['\''], j + 1) == x.len() + 1,
    decreases x.len() - j,
{
    let s = seq!['\''] + x + seq!['\''];
    assert(s[j + 1] == if j < x.len() { x[j] } else { '\'' });
    if j < x.len() {
        lemma_plain_text_close(x, j + 1);
    }
}

proof fn lemma_plain_text_unescaped(x: Seq<char>, j: int)
    requires
        0 <= j <= x.len(),
        forall|k: int| 0 <= k < x.len() ==> x[k] != '\\',
    ensures
        unescaped(x, j) == x.subrange(j, x.len() as int),
    decreases x.len() - j,
{
    if j < x.len() {
        lemma_plain_text_unescaped(x, j + 1);
        assert(x.subrange(j, x.len() as int) =~= seq![x[j]] + x.subrange(j + 1, x.len() as int));
    } else {
        assert(x.subrange(j, x.len() as int) =~= Seq::<char>::empty());
    }
}

/// On a known value, a literal that names a known value selects it exactly
/// when the name is the one the known value carries, and a literal holding a
/// regular expression exactly when the expression matches that name: the
/// literal is replaced by the known value's number then, and by another
/// number otherwise.
pub proof fn law_names_select_the_known_value_they_name(
    x: Seq<char>,
    v: u64,
    name: Seq<char>,
    plain: bool,
)
    requires
        forall|k: int| 0 <= k < x.len() ==> x[k] != '\'' && x[k] != '\\',
        !u64_numeral(x),
        slash_regex(x) ==> text_regex_valid(x.subrange(1, x.len() - 1)),
    ensures
        resolve_from(seq!['\''] + x + seq!['\''], 0, 0, Some((v, name)), plain) == Some(
            quoted_number(
                if (if slash_regex(x) {
                    text_regex_matches(x.subrange(1, x.len() - 1), name)
                } else {
                    x == name
                }) {
                    v
                } else {
                    other_than(v)
                },
            ),
        ),
{
    let s = seq!['\''] + x + seq!['\''];
    lemma_plain_text_close(x, 0);
    lemma_plain_text_unescaped(x, 0);
    assert(x.subrange(0, x.len() as int) =~= x);
    assert(s.subrange(1, x.len() + 1int) =~= x);
    assert(s[0] == '\'');
    reveal_strlit("h");
    reveal_strlit("date");
    reveal_strlit("digest");
    assert(!opens_literal(s, 0));
    let r = literal_replacement(x, Some((v, name)), plain);
    assert(resolve_from(s, x.len() + 2int, 0, Some((v, name)), plain) == Some(Seq::<char>::empty()));
    assert(r.unwrap() + Seq::<char>::empty() =~= r.unwrap());
}

/// A leaf pattern other than the one for any leaf reads only the subject of
/// the element: on an element whose subject is not itself a node it finds
/// as many paths as on that subject. A value pattern (all but the CBOR one)
/// finds each time the path made of the element alone.
#[verifier::spinoff_prover]
#[verifier::rlimit(40)]
pub proof fn law_leaf_values_are_read_from_the_subject(lp: LeafPattern, e: EnvelopeModel)
    requires
        !(lp is Any),
        !e.subject().is_node(),
    ensures
        leaf_results(lp, e).0.len() == leaf_results(lp, e.subject()).0.len(),
        !(lp is Cbor) ==> forall|k: int|
            0 <= k < leaf_results(lp, e).0.len() ==> #[trigger] leaf_results(lp, e).0[k] == seq![e],
{
    let s = e.subject();
    assert(s.subject() == s);
    assert(crate::semantics::subject_known(e) == crate::semantics::subject_known(s));
    match lp {
        LeafPattern::Cbor(cp) => {
            assert(leaf_results(lp, e).0.len() == leaf_results(lp, s).0.len());
        },
        LeafPattern::Tag(tp) => {
            assert(leaf_results(lp, e).0.len() == leaf_results(lp, s).0.len());
        },
        LeafPattern::KnownValue(kp) => {
            assert(leaf_results(lp, e).0.len() == leaf_results(lp, s).0.len());
        },
        _ => {
            assert(leaf_results(lp, e).0.len() == leaf_results(lp, s).0.len());
        },
    }
}

/// Every path a leaf value pattern (all but the CBOR pattern) finds is the
/// element alone.
pub proof fn law_leaf_values_paths_are_the_element(lp: LeafPattern, e: EnvelopeModel)
    ensures
        !(lp is Cbor) ==> forall|k: int|
            0 <= k < leaf_results(lp, e).0.len() ==> #[trigger] leaf_results(lp, e).0[k] == seq![e],
{
}

} // verus!
