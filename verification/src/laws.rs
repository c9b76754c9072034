//! Properties of the library as a whole.
use vstd::prelude::*;

use crate::constructors::{sequence_of, traverse_of};
use crate::envelope::EnvelopeModel;
use crate::meta::not_results;
use crate::pattern::{
    pattern_size, AnyPattern, LeafPattern, MetaPattern, NonePattern, NotPattern, Pattern,
    ObscuredPattern, StructurePattern, WrappedPattern, sequence_patterns, traverse_patterns,
};
use crate::semantics::{
    add_names, atomic_results, caps_append, caps_find, caps_insert, caps_merge, collect_outs,
    collect_outs_upto, compile, compile_program, dcbor_capture_names, empty_state, fork_ok,
    initial_thread, out_captures, pattern_results, predicate_first, predicate_fork, run_all,
    run_forks, structure_results, thread_steps, CapsModel, InstrModel, OutModel, PathModel,
    ProgModel, ThreadModel,
};

verus! {

// ---------------------------------------------------------------------------
// Emitted paths
// ---------------------------------------------------------------------------

/// The paths of emitted outputs, in order.
pub open spec fn out_paths(outs: Seq<OutModel>) -> Seq<PathModel> {
    Seq::new(outs.len(), |i: int| outs[i].0)
}

proof fn lemma_collect_paths(names: Seq<Seq<char>>, outs: Seq<OutModel>, i: int)
    requires
        0 <= i <= outs.len(),
    ensures
        collect_outs_upto(names, outs, i).0 == out_paths(outs).subrange(0, i),
    decreases i,
{
    if i > 0 {
        lemma_collect_paths(names, outs, i - 1);
        assert(out_paths(outs).subrange(0, i) =~= out_paths(outs).subrange(0, i - 1).push(
            outs[i - 1].0,
        ));
    } else {
        assert(out_paths(outs).subrange(0, 0) =~= Seq::<PathModel>::empty());
    }
}

/// The paths a pattern yields are the paths its program emits, in order.
pub(crate) proof fn lemma_collect_outs_paths(names: Seq<Seq<char>>, outs: Seq<OutModel>)
    ensures
        collect_outs(names, outs).0 == out_paths(outs),
{
    lemma_collect_paths(names, outs, outs.len() as int);
    assert(out_paths(outs).subrange(0, outs.len() as int) =~= out_paths(outs));
}

// ---------------------------------------------------------------------------
// Patterns tested in one step
// ---------------------------------------------------------------------------

/// Patterns that compile to a single test of the whole pattern: leaf
/// patterns, digest, leaf, node and obscured patterns, and "any" and "none".
pub open spec fn compiles_atomic(p: Pattern) -> bool {
    match p {
        Pattern::Leaf(_) => true,
        Pattern::Structure(StructurePattern::Digest(_)) => true,
        Pattern::Structure(StructurePattern::Leaf(_)) => true,
        Pattern::Structure(StructurePattern::Node(_)) => true,
        Pattern::Structure(StructurePattern::Obscured(_)) => true,
        Pattern::Meta(MetaPattern::Any(_)) => true,
        Pattern::Meta(MetaPattern::Never(_)) => true,
        _ => false,
    }
}

proof fn lemma_atomic_program(p: Pattern)
    requires
        compiles_atomic(p),
    ensures
        compile_program(p).code == seq![InstrModel::MatchPredicate(0), InstrModel::Accept],
        compile_program(p).lits == seq![p],
{
    let st = empty_state();
    let c = compile(p, st);
    match p {
        Pattern::Leaf(LeafPattern::Cbor(crate::pattern::CBORPattern::Pattern(e))) => {
            let st2 = crate::semantics::CompileState {
                names: add_names(st.names, dcbor_capture_names(e@), 0),
                ..st
            };
            assert(c.code =~= seq![InstrModel::MatchPredicate(0)]);
            assert(c.lits =~= seq![p]);
        },
        _ => {
            assert(c.code =~= seq![InstrModel::MatchPredicate(0)]);
            assert(c.lits =~= seq![p]);
        },
    }
    assert(compile_program(p).code =~= seq![InstrModel::MatchPredicate(0), InstrModel::Accept]);
}

/// The forks of an atomic match, run last pushed first, emit the paths
/// `paths[n - i..]` in order, each by its own `Accept`.
proof fn lemma_atomic_forks(
    prog: ProgModel,
    bound: nat,
    th: ThreadModel,
    th0: ThreadModel,
    paths: Seq<PathModel>,
    acaps: CapsModel,
    i: int,
)
    requires
        prog.code == seq![InstrModel::MatchPredicate(0), InstrModel::Accept],
        th.pc == 0,
        th0.pc == 1,
        paths.len() > 0,
        0 <= i <= paths.len() - 1,
    ensures
        out_paths(
            run_forks(
                prog,
                bound,
                th,
                Seq::new(
                    (paths.len() - 1) as nat,
                    |k: int| predicate_fork(prog.names, th0, paths, acaps, paths.len() - 1 - k),
                ),
                i,
            ).0,
        ) == paths.subrange(paths.len() - i, paths.len() as int),
    decreases i,
{
    let n = paths.len() as int;
    let forks = Seq::new(
        (n - 1) as nat,
        |k: int| predicate_fork(prog.names, th0, paths, acaps, n - 1 - k),
    );
    if i == 0 {
        assert(paths.subrange(n, n) =~= Seq::<PathModel>::empty());
        assert(out_paths(Seq::<OutModel>::empty()) =~= Seq::<PathModel>::empty());
    } else {
        let f = forks[i - 1];
        assert(f.pc == 1);
        assert(fork_ok(prog.code.len() as int, th, f));
        let st = thread_steps(prog, bound, f);
        assert(st.outs == seq![(f.path, f.caps)]);
        assert(st.forks.len() == 0);
        assert(run_forks(prog, bound, f, st.forks, 0).0 =~= Seq::<OutModel>::empty());
        let a = run_all(prog, bound, f);
        assert(a.0 =~= seq![(f.path, f.caps)]);
        lemma_atomic_forks(prog, bound, th, th0, paths, acaps, i - 1);
        let b = run_forks(prog, bound, th, forks, i - 1);
        assert(run_forks(prog, bound, th, forks, i).0 == a.0 + b.0);
        assert(f.path == paths[n - i]);
        assert(out_paths(a.0 + b.0) =~= seq![paths[n - i]] + out_paths(b.0));
        assert(paths.subrange(n - i, n) =~= seq![paths[n - i]] + paths.subrange(n - i + 1, n));
    }
}

/// A pattern that compiles to a single test yields, as a whole pattern,
/// exactly the paths its direct test finds, in the same order.
pub proof fn law_atomic_patterns_match_directly(p: Pattern, env: EnvelopeModel)
    requires
        compiles_atomic(p),
    ensures
        pattern_results(p, env).0 == atomic_results(p, env).0,
{
    lemma_atomic_program(p);
    let prog = compile_program(p);
    let bound = pattern_size(p);
    let th = initial_thread(prog, env);
    let st = thread_steps(prog, bound, th);
    let r = atomic_results(p, env);
    let paths = r.0;
    let n = paths.len() as int;
    assert(prog.lits[0] == p);
    if n == 0 {
        assert(st.outs.len() == 0);
        assert(st.forks.len() == 0);
        assert(run_forks(prog, bound, th, st.forks, 0).0 =~= Seq::<OutModel>::empty());
        assert(run_all(prog, bound, th).0 =~= Seq::<OutModel>::empty());
        lemma_collect_outs_paths(prog.names, run_all(prog, bound, th).0);
        assert(paths =~= Seq::<PathModel>::empty());
        assert(out_paths(Seq::<OutModel>::empty()) =~= Seq::<PathModel>::empty());
    } else {
        let th0 = predicate_first(prog.names, th, paths, r.1);
        let forks = Seq::new(
            (n - 1) as nat,
            |k: int| predicate_fork(prog.names, th0, paths, r.1, n - 1 - k),
        );
        let rest = thread_steps(prog, bound, th0);
        assert(rest.outs == seq![(th0.path, th0.caps)]);
        assert(rest.forks =~= Seq::<ThreadModel>::empty());
        assert(st.forks =~= forks);
        assert(st.outs == rest.outs);
        if paths[0].len() == 1 && paths[0][0] == th.env {
            assert(paths[0] =~= seq![env]);
        }
        assert(th0.path == paths[0]);
        lemma_atomic_forks(prog, bound, th, th0, paths, r.1, n - 1);
        let rf = run_forks(prog, bound, th, forks, n - 1);
        let outs = run_all(prog, bound, th).0;
        assert(outs == st.outs + rf.0);
        lemma_collect_outs_paths(prog.names, outs);
        assert(out_paths(outs) =~= seq![paths[0]] + out_paths(rf.0));
        assert(paths =~= seq![paths[0]] + paths.subrange(1, n));
    }
}

/// `Pattern::any()` matches every element with the one path `[env]`.
pub proof fn law_any_matches_everything(env: EnvelopeModel)
    ensures
        pattern_results(Pattern::Meta(MetaPattern::Any(AnyPattern)), env).0 == seq![seq![env]],
{
    law_atomic_patterns_match_directly(Pattern::Meta(MetaPattern::Any(AnyPattern)), env);
}

/// `Pattern::none()` matches nothing.
pub proof fn law_none_matches_nothing(env: EnvelopeModel)
    ensures
        pattern_results(Pattern::Meta(MetaPattern::Never(NonePattern)), env).0.len() == 0,
{
    law_atomic_patterns_match_directly(Pattern::Meta(MetaPattern::Never(NonePattern)), env);
}

/// A negation matches an element, with the one path `[env]`, exactly when
/// its inner pattern does not match it; this is also what the negation's
/// direct matcher finds.
pub proof fn law_not_matches_when_inner_does_not(q: Pattern, env: EnvelopeModel)
    ensures
        pattern_results(Pattern::Meta(MetaPattern::Not(NotPattern(Box::new(q)))), env).0
            == not_results(q, env),
{
    let p = Pattern::Meta(MetaPattern::Not(NotPattern(Box::new(q))));
    let prog = compile_program(p);
    let c = compile(p, empty_state());
    assert(c.code =~= seq![InstrModel::NotMatch { pat_idx: 0 }]);
    assert(c.lits =~= seq![q]);
    assert(prog.code =~= seq![InstrModel::NotMatch { pat_idx: 0 }, InstrModel::Accept]);
    let bound = pattern_size(p);
    let th = initial_thread(prog, env);
    let st = thread_steps(prog, bound, th);
    assert(prog.lits[0] == q);
    assert(pattern_size(q) < bound);
    let outs = run_all(prog, bound, th).0;
    if pattern_results(q, env).0.len() > 0 {
        assert(st.outs.len() == 0);
        assert(st.forks.len() == 0);
        assert(run_forks(prog, bound, th, st.forks, 0).0 =~= Seq::<OutModel>::empty());
        assert(outs =~= st.outs);
        lemma_collect_outs_paths(prog.names, outs);
        assert(out_paths(outs) =~= Seq::<PathModel>::empty());
    } else {
        let next = ThreadModel { pc: 1, ..th };
        let rest = thread_steps(prog, bound, next);
        assert(rest.outs == seq![(next.path, next.caps)]);
        assert(rest.forks.len() == 0);
        assert(st.outs == rest.outs);
        assert(st.forks.len() == 0);
        assert(run_forks(prog, bound, th, st.forks, 0).0 =~= Seq::<OutModel>::empty());
        assert(outs =~= st.outs);
        lemma_collect_outs_paths(prog.names, outs);
        assert(out_paths(outs) =~= seq![seq![env]]);
    }
}

// ---------------------------------------------------------------------------
// Captures
// ---------------------------------------------------------------------------

/// No name occurs twice among the captures.
pub open spec fn distinct_names(m: CapsModel) -> bool {
    forall|i: int, j: int| 0 <= i < j < m.len() ==> m[i].0 != m[j].0
}

/// Every captured name is one of `names`.
pub open spec fn names_within(m: CapsModel, names: Seq<Seq<char>>) -> bool {
    forall|i: int| 0 <= i < m.len() ==> names.contains(#[trigger] m[i].0)
}

proof fn lemma_caps_find(m: CapsModel, name: Seq<char>, k: int)
    requires
        0 <= k <= m.len(),
    ensures
        k <= caps_find(m, name, k) <= m.len(),
        caps_find(m, name, k) < m.len() ==> m[caps_find(m, name, k)].0 == name,
        caps_find(m, name, k) == m.len() ==> forall|j: int| k <= j < m.len() ==> m[j].0 != name,
    decreases m.len() - k,
{
    if k < m.len() && m[k].0 != name {
        lemma_caps_find(m, name, k + 1);
    }
}

proof fn lemma_caps_append_keeps(m: CapsModel, name: Seq<char>, v: Seq<PathModel>, names: Seq<Seq<char>>)
    requires
        distinct_names(m),
        names_within(m, names),
        names.contains(name),
    ensures
        distinct_names(caps_append(m, name, v)),
        names_within(caps_append(m, name, v), names),
{
    lemma_caps_find(m, name, 0);
    let r = caps_append(m, name, v);
    assert forall|i: int| 0 <= i < r.len() implies names.contains(#[trigger] r[i].0) by {
        if i < m.len() {
            assert(names.contains(m[i].0));
        }
    }
}

proof fn lemma_caps_insert_keeps(m: CapsModel, name: Seq<char>, v: Seq<PathModel>, names: Seq<Seq<char>>)
    requires
        distinct_names(m),
        names_within(m, names),
        names.contains(name),
    ensures
        distinct_names(caps_insert(m, name, v)),
        names_within(caps_insert(m, name, v), names),
{
    lemma_caps_find(m, name, 0);
    let r = caps_insert(m, name, v);
    assert forall|i: int| 0 <= i < r.len() implies names.contains(#[trigger] r[i].0) by {
        if i < m.len() {
            assert(names.contains(m[i].0));
        }
    }
}

proof fn lemma_caps_merge_keeps(m: CapsModel, extra: CapsModel, names: Seq<Seq<char>>)
    requires
        distinct_names(m),
        names_within(m, names),
        names_within(extra, names),
    ensures
        distinct_names(caps_merge(m, extra)),
        names_within(caps_merge(m, extra), names),
    decreases extra.len(),
{
    if extra.len() > 0 {
        assert(names_within(extra.drop_last(), names)) by {
            assert forall|i: int| 0 <= i < extra.drop_last().len() implies names.contains(
                #[trigger] extra.drop_last()[i].0,
            ) by {
                assert(extra.drop_last()[i] == extra[i]);
                assert(names.contains(extra[i].0));
            }
        }
        lemma_caps_merge_keeps(m, extra.drop_last(), names);
        assert(names.contains(extra[extra.len() - 1].0));
        lemma_caps_append_keeps(
            caps_merge(m, extra.drop_last()),
            extra.last().0,
            extra.last().1,
            names,
        );
    }
}

proof fn lemma_out_captures_keeps(names: Seq<Seq<char>>, caps: Seq<Seq<PathModel>>, i: int)
    ensures
        distinct_names(out_captures(names, caps, i)),
        names_within(out_captures(names, caps, i), names),
    decreases i,
{
    if 0 < i <= caps.len() {
        lemma_out_captures_keeps(names, caps, i - 1);
        if caps[i - 1].len() > 0 && i - 1 < names.len() {
            assert(names.contains(names[i - 1]));
            lemma_caps_insert_keeps(out_captures(names, caps, i - 1), names[i - 1], caps[i - 1], names);
        }
    }
}

proof fn lemma_collect_caps_keeps(names: Seq<Seq<char>>, outs: Seq<OutModel>, i: int)
    ensures
        distinct_names(collect_outs_upto(names, outs, i).1),
        names_within(collect_outs_upto(names, outs, i).1, names),
    decreases i,
{
    if 0 < i <= outs.len() {
        lemma_collect_caps_keeps(names, outs, i - 1);
        lemma_out_captures_keeps(names, outs[i - 1].1, outs[i - 1].1.len() as int);
        lemma_caps_merge_keeps(
            collect_outs_upto(names, outs, i - 1).1,
            out_captures(names, outs[i - 1].1, outs[i - 1].1.len() as int),
            names,
        );
    }
}

/// What a pattern captures is keyed by names the pattern declares (the
/// capture names of its program), each name at most once.
pub proof fn law_captures_are_declared_names(p: Pattern, env: EnvelopeModel)
    ensures
        distinct_names(pattern_results(p, env).1),
        names_within(pattern_results(p, env).1, compile_program(p).names),
{
    let prog = compile_program(p);
    let outs = run_all(prog, pattern_size(p), initial_thread(prog, env)).0;
    lemma_collect_caps_keeps(prog.names, outs, outs.len() as int);
}

// ---------------------------------------------------------------------------
// Traversals and sequences
// ---------------------------------------------------------------------------

proof fn lemma_traverse_of_patterns(ps: Seq<Pattern>, i: int)
    requires
        0 <= i < ps.len(),
    ensures
        traverse_patterns(traverse_of(ps, i)) == ps.subrange(i, ps.len() as int),
    decreases ps.len() - i,
{
    if i + 1 < ps.len() {
        lemma_traverse_of_patterns(ps, i + 1);
        assert(ps.subrange(i, ps.len() as int) =~= seq![ps[i]] + ps.subrange(
            i + 1,
            ps.len() as int,
        ));
    } else {
        assert(ps.subrange(i, ps.len() as int) =~= seq![ps[i]]);
    }
}

/// The patterns of a traversal are the patterns it was built from.
pub proof fn law_traverse_patterns_round_trip(ps: Seq<Pattern>)
    requires
        ps.len() > 0,
    ensures
        traverse_patterns(traverse_of(ps, 0)) == ps,
{
    lemma_traverse_of_patterns(ps, 0);
    assert(ps.subrange(0, ps.len() as int) =~= ps);
}

proof fn lemma_sequence_of_patterns(ps: Seq<Pattern>, i: int)
    requires
        0 <= i < ps.len(),
    ensures
        sequence_patterns(sequence_of(ps, i)) == ps.subrange(i, ps.len() as int),
    decreases ps.len() - i,
{
    if i + 1 < ps.len() {
        lemma_sequence_of_patterns(ps, i + 1);
        assert(ps.subrange(i, ps.len() as int) =~= seq![ps[i]] + ps.subrange(
            i + 1,
            ps.len() as int,
        ));
    } else {
        assert(ps.subrange(i, ps.len() as int) =~= seq![ps[i]]);
    }
}

/// The patterns of a sequence are the patterns it was built from.
pub proof fn law_sequence_patterns_round_trip(ps: Seq<Pattern>)
    requires
        ps.len() > 0,
    ensures
        sequence_patterns(sequence_of(ps, 0)) == ps,
{
    lemma_sequence_of_patterns(ps, 0);
    assert(ps.subrange(0, ps.len() as int) =~= ps);
}

/// A wrapped-envelope pattern finds nothing on an element whose subject is
/// not wrapped. On one that is, the pattern for any wrapped envelope finds
/// the element itself, and unwrapping finds, for each path the inner pattern
/// finds on the wrapped content, that path with the element in front.
pub proof fn law_unwrapping_prefixes_the_inner_paths(wp: WrappedPattern, e: EnvelopeModel)
    ensures
        !e.subject().is_wrapped() ==> structure_results(StructurePattern::Wrapped(wp), e).len()
            == 0,
        e.subject().is_wrapped() && wp is Any ==> structure_results(
            StructurePattern::Wrapped(wp),
            e,
        ) == seq![seq![e]],
        forall|q: Pattern, u: EnvelopeModel|
            #![trigger pattern_results(q, u)]
            e.subject().is_wrapped() && wp == WrappedPattern::Unwrap(Box::new(q)) && e.try_unwrap()
                == Some(u) ==> structure_results(StructurePattern::Wrapped(wp), e) == Seq::new(
                pattern_results(q, u).0.len(),
                |i: int| seq![e] + pattern_results(q, u).0[i],
            ),
{
}

/// An obscured-element pattern finds the element itself, `[e]`, or
/// nothing: the elided pattern exactly on elided elements, the encrypted
/// pattern exactly on encrypted ones, the compressed pattern exactly on
/// compressed ones, and the pattern for any obscured element on all three
/// kinds and on nothing else.
pub proof fn law_obscured_patterns_test_how_an_element_is_hidden(
    op: ObscuredPattern,
    e: EnvelopeModel,
)
    ensures
        structure_results(StructurePattern::Obscured(op), e) == seq![seq![e]]
            || structure_results(StructurePattern::Obscured(op), e).len() == 0,
        op is Elided ==> (structure_results(StructurePattern::Obscured(op), e).len() > 0 <==> e
            is Elided),
        op is Encrypted ==> (structure_results(StructurePattern::Obscured(op), e).len() > 0
            <==> e is Encrypted),
        op is Compressed ==> (structure_results(StructurePattern::Obscured(op), e).len() > 0
            <==> e is Compressed),
        op is Any ==> (structure_results(StructurePattern::Obscured(op), e).len() > 0 <==> (e
            is Elided || e is Encrypted || e is Compressed)),
        pattern_results(Pattern::Structure(StructurePattern::Obscured(op)), e).0
            == structure_results(StructurePattern::Obscured(op), e),
{
    law_atomic_patterns_match_directly(Pattern::Structure(StructurePattern::Obscured(op)), e);
}

} // verus!
