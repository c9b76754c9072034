//! What an assertions pattern finds, as a filtered list.
use vstd::prelude::*;

use crate::envelope::EnvelopeModel;
use crate::pattern::{AssertionsPattern, StructurePattern};
use crate::semantics::{assertion_scan, pattern_results, structure_results, PathModel};

verus! {

/// Whether an assertions pattern accepts the assertion `a`: any assertion,
/// one whose predicate the inner pattern matches, or one whose object it
/// matches.
pub open spec fn assertion_accepted(ap: AssertionsPattern, a: EnvelopeModel) -> bool {
    match ap {
        AssertionsPattern::Any => true,
        AssertionsPattern::WithPredicate(q) => match a.as_predicate() {
            Some(x) => pattern_results(*q, x).0.len() > 0,
            None => false,
        },
        AssertionsPattern::WithObject(q) => match a.as_object() {
            Some(x) => pattern_results(*q, x).0.len() > 0,
            None => false,
        },
    }
}

/// The one-element path of an accepted assertion.
pub open spec fn accepted_path(ap: AssertionsPattern) -> spec_fn(EnvelopeModel) -> Option<PathModel> {
    |a: EnvelopeModel| if assertion_accepted(ap, a) {
        Some(seq![a])
    } else {
        None
    }
}

proof fn lemma_filter_map_prepend(x: EnvelopeModel, s: Seq<EnvelopeModel>, f: spec_fn(EnvelopeModel) -> Option<PathModel>)
    ensures
        (seq![x] + s).filter_map(f) == (match f(x) {
            Some(p) => seq![p],
            None => Seq::<PathModel>::empty(),
        }) + s.filter_map(f),
    decreases s.len(),
{
    let head = match f(x) {
        Some(p) => seq![p],
        None => Seq::<PathModel>::empty(),
    };
    if s.len() == 0 {
        assert(seq![x] + s =~= seq![x]);
        assert(seq![x].drop_last() =~= Seq::<EnvelopeModel>::empty());
        assert(head + Seq::<PathModel>::empty() =~= head);
        assert(Seq::<EnvelopeModel>::empty().filter_map(f) =~= Seq::<PathModel>::empty());
        assert(seq![x].filter_map(f) =~= head);
    } else {
        lemma_filter_map_prepend(x, s.drop_last(), f);
        assert((seq![x] + s).drop_last() =~= seq![x] + s.drop_last());
        assert((seq![x] + s).last() == s.last());
        match f(s.last()) {
            Some(p) => {
                assert(head + (s.drop_last().filter_map(f) + seq![p]) =~= (head
                    + s.drop_last().filter_map(f)) + seq![p]);
            },
            None => {},
        }
    }
}

proof fn lemma_scan_filter(ap: AssertionsPattern, env: EnvelopeModel, i: int)
    requires
        0 <= i <= env.assertions().len(),
    ensures
        assertion_scan(StructurePattern::Assertions(ap), env, i) == env.assertions().skip(i).filter_map(
            accepted_path(ap),
        ),
    decreases env.assertions().len() - i,
{
    let asserts = env.assertions();
    let f = accepted_path(ap);
    if i == asserts.len() {
        assert(asserts.skip(i) =~= Seq::<EnvelopeModel>::empty());
        assert(Seq::<EnvelopeModel>::empty().filter_map(f) =~= Seq::<PathModel>::empty());
    } else {
        lemma_scan_filter(ap, env, i + 1);
        assert(asserts.skip(i) =~= seq![asserts[i]] + asserts.skip(i + 1));
        lemma_filter_map_prepend(asserts[i], asserts.skip(i + 1), f);
        if assertion_accepted(ap, asserts[i]) {
            assert(f(asserts[i]) == Some(seq![asserts[i]]));
        } else {
            assert(f(asserts[i]) == None::<PathModel>);
            assert(Seq::<PathModel>::empty() + asserts.skip(i + 1).filter_map(f) =~= asserts.skip(
                i + 1,
            ).filter_map(f));
        }
    }
}

/// An assertions pattern finds, in the order of the element's assertions,
/// the one-element path `[a]` of each assertion `a` it accepts, and nothing
/// else.
pub proof fn law_assertions_pattern_keeps_accepted_assertions(ap: AssertionsPattern, env: EnvelopeModel)
    ensures
        structure_results(StructurePattern::Assertions(ap), env) == env.assertions().filter_map(
            accepted_path(ap),
        ),
{
    lemma_scan_filter(ap, env, 0);
    assert(env.assertions().skip(0) =~= env.assertions());
}

} // verus!
