//! What a conjunction of single-test patterns matches.
use vstd::prelude::*;

use crate::alternation::{lemma_compile_atomic, lemma_forks_origin};
use crate::capturing::plain_test;
use crate::envelope::EnvelopeModel;
use crate::laws::{law_atomic_patterns_match_directly, lemma_collect_outs_paths, out_paths};
use crate::pattern::{lemma_patterns_size_part, pattern_size, AndPattern, MetaPattern, Pattern};
use crate::semantics::{
    atomic_results, compile, compile_list, compile_program, empty_state, fork_ok,
    initial_thread, pattern_matches, pattern_results, predicate_first, predicate_fork, run_all,
    run_forks, thread_steps, CompileState, InstrModel, OutModel, PathModel, ProgModel,
    ThreadModel,
};

verus! {

/// The program of a conjunction of the single-test patterns `ps`: their
/// tests one after the other, then `Accept`.
pub open spec fn conjunction_program(prog: ProgModel, ps: Seq<Pattern>) -> bool {
    let n = ps.len() as int;
    &&& prog.code.len() == n + 1
    &&& prog.lits == ps
    &&& forall|k: int| 0 <= k < n ==> #[trigger] prog.code[k] == InstrModel::MatchPredicate(k as nat)
    &&& prog.code[n] == InstrModel::Accept
}

proof fn lemma_list_layout(ps: Seq<Pattern>, i: int, st: CompileState)
    requires
        0 <= i <= ps.len(),
        forall|j: int| 0 <= j < ps.len() ==> plain_test(#[trigger] ps[j]),
        st.code.len() == i,
        st.lits == ps.subrange(0, i),
        forall|k: int| 0 <= k < i ==> #[trigger] st.code[k] == InstrModel::MatchPredicate(k as nat),
    ensures
        ({
            let r = compile_list(ps, i, st);
            &&& r.code.len() == ps.len()
            &&& r.lits == ps
            &&& forall|k: int| 0 <= k < ps.len() ==> #[trigger] r.code[k] == InstrModel::MatchPredicate(k as nat)
        }),
    decreases ps.len() - i,
{
    if i == ps.len() {
        assert(st.lits =~= ps);
    } else {
        lemma_compile_atomic(ps[i], st);
        let st2 = compile(ps[i], st);
        assert(st2.lits =~= ps.subrange(0, i + 1));
        assert forall|k: int| 0 <= k < i + 1 implies #[trigger] st2.code[k] == InstrModel::MatchPredicate(k as nat) by {
            if k < i {
                assert(st.code[k] == InstrModel::MatchPredicate(k as nat));
            }
        }
        lemma_list_layout(ps, i + 1, st2);
    }
}

proof fn lemma_conjunction_program(v: Vec<Pattern>)
    requires
        forall|j: int| 0 <= j < v@.len() ==> plain_test(#[trigger] v@[j]),
    ensures
        conjunction_program(compile_program(Pattern::Meta(MetaPattern::And(AndPattern(v)))), v@),
{
    let st0 = empty_state();
    assert(st0.lits =~= v@.subrange(0, 0));
    lemma_list_layout(v@, 0, st0);
    let prog = compile_program(Pattern::Meta(MetaPattern::And(AndPattern(v))));
    assert forall|k: int| 0 <= k < v@.len() implies #[trigger] prog.code[k] == InstrModel::MatchPredicate(k as nat) by {
        assert(compile_list(v@, 0, st0).code[k] == InstrModel::MatchPredicate(k as nat));
    }
}

/// A plain single test finds, on `env`, only the path `[env]`.
pub(crate) proof fn lemma_plain_paths(p: Pattern, env: EnvelopeModel)
    requires
        plain_test(p),
    ensures
        forall|k: int| 0 <= k < atomic_results(p, env).0.len() ==> #[trigger] atomic_results(p, env).0[k] == seq![env],
{
}

/// Forks run in order of their index from `i` down; those past `f.len()`
/// run before those of `f`.
proof fn lemma_forks_prefix_only(
    prog: ProgModel,
    bound: nat,
    o: ThreadModel,
    f: Seq<ThreadModel>,
    r: Seq<ThreadModel>,
    i: int,
)
    requires
        0 <= i <= f.len(),
    ensures
        run_forks(prog, bound, o, f + r, i) == run_forks(prog, bound, o, f, i),
    decreases i,
{
    if i > 0 {
        assert((f + r)[i - 1] == f[i - 1]);
        lemma_forks_prefix_only(prog, bound, o, f, r, i - 1);
    }
}

proof fn lemma_forks_concat(
    prog: ProgModel,
    bound: nat,
    o: ThreadModel,
    f: Seq<ThreadModel>,
    r: Seq<ThreadModel>,
    j: int,
)
    requires
        0 <= j <= r.len(),
    ensures
        run_forks(prog, bound, o, f + r, f.len() + j).0 == run_forks(prog, bound, o, r, j).0
            + run_forks(prog, bound, o, f, f.len() as int).0,
    decreases j,
{
    if j == 0 {
        lemma_forks_prefix_only(prog, bound, o, f, r, f.len() as int);
        assert(run_forks(prog, bound, o, r, 0).0 =~= Seq::<OutModel>::empty());
        assert(run_forks(prog, bound, o, f + r, f.len() as int).0 =~= Seq::<OutModel>::empty()
            + run_forks(prog, bound, o, f, f.len() as int).0);
    } else {
        lemma_forks_concat(prog, bound, o, f, r, j - 1);
        assert((f + r)[f.len() + j - 1] == r[j - 1]);
        let x = r[j - 1];
        let ax = if fork_ok(prog.code.len() as int, o, x) {
            run_all(prog, bound, x).0
        } else {
            Seq::<OutModel>::empty()
        };
        let b = run_forks(prog, bound, o, r, j - 1).0;
        let c = run_forks(prog, bound, o, f, f.len() as int).0;
        assert(run_forks(prog, bound, o, f + r, f.len() + j).0 == ax + (b + c));
        assert(run_forks(prog, bound, o, r, j).0 == ax + b);
        assert(ax + (b + c) =~= (ax + b) + c);
    }
}

/// Whether every test from `i` on finds a path on `env`.
pub open spec fn tests_pass(ps: Seq<Pattern>, env: EnvelopeModel, i: int) -> bool {
    forall|j: int| i <= j < ps.len() ==> atomic_results(#[trigger] ps[j], env).0.len() > 0
}

/// Every output's path is `[env]`.
pub open spec fn outs_at(outs: Seq<OutModel>, env: EnvelopeModel) -> bool {
    forall|k: int| 0 <= k < outs.len() ==> (#[trigger] outs[k]).0 == seq![env]
}

/// Running the tests from `i` on a thread at `[env]` emits something exactly
/// when every remaining test passes, and only the path `[env]`.
proof fn lemma_conjunction_run(prog: ProgModel, ps: Seq<Pattern>, bound: nat, th: ThreadModel, i: int)
    requires
        conjunction_program(prog, ps),
        0 <= i <= ps.len(),
        th.pc == i,
        th.path == seq![th.env],
        forall|j: int| 0 <= j < ps.len() ==> plain_test(#[trigger] ps[j]) && pattern_size(ps[j]) <= bound,
    ensures
        run_all(prog, bound, th).0.len() > 0 <==> tests_pass(ps, th.env, i),
        outs_at(run_all(prog, bound, th).0, th.env),
        forall|k: int|
            0 <= k < thread_steps(prog, bound, th).forks.len() ==> th.pc < (#[trigger] thread_steps(
                prog,
                bound,
                th,
            ).forks[k]).pc <= prog.code.len(),
    decreases ps.len() - i, 1int, 0int,
{
    let n = ps.len() as int;
    let env = th.env;
    let st = thread_steps(prog, bound, th);
    if i == n {
        assert(st.outs == seq![(th.path, th.caps)]);
        assert(run_forks(prog, bound, th, st.forks, 0).0 =~= Seq::<OutModel>::empty());
        assert(run_all(prog, bound, th).0 =~= seq![(th.path, th.caps)]);
    } else {
        assert(prog.code[i] == InstrModel::MatchPredicate(i as nat));
        assert(prog.lits[i] == ps[i]);
        assert(pattern_size(ps[i]) <= bound);
        let r = atomic_results(ps[i], env);
        let paths = r.0;
        let m = paths.len() as int;
        lemma_plain_paths(ps[i], env);
        if m == 0 {
            assert(st.forks.len() == 0);
            assert(run_forks(prog, bound, th, st.forks, 0).0 =~= Seq::<OutModel>::empty());
            assert(run_all(prog, bound, th).0 =~= Seq::<OutModel>::empty());
            assert(!(atomic_results(ps[i], env).0.len() > 0));
        } else {
            let th0 = predicate_first(prog.names, th, paths, r.1);
            assert(paths[0] == seq![env]);
            assert(th0.pc == i + 1 && th0.path == seq![env] && th0.env == env);
            let forks = Seq::new(
                (m - 1) as nat,
                |k: int| predicate_fork(prog.names, th0, paths, r.1, m - 1 - k),
            );
            lemma_conjunction_run(prog, ps, bound, th0, i + 1);
            let rest = thread_steps(prog, bound, th0);
            assert(st.forks == forks + rest.forks);
            assert(st.outs == rest.outs);
            let rm = rest.forks.len() as int;
            lemma_forks_concat(prog, bound, th, forks, rest.forks, rm);
            assert forall|k: int| 0 <= k < rm implies fork_ok(
                prog.code.len() as int,
                th,
                #[trigger] rest.forks[k],
            ) == fork_ok(prog.code.len() as int, th0, rest.forks[k]) by {}
            lemma_forks_origin(prog, bound, th, th0, rest.forks, rm);
            let a0 = run_all(prog, bound, th0).0;
            let fo = run_forks(prog, bound, th, forks, m - 1).0;
            assert(run_all(prog, bound, th).0 == a0 + fo);
            lemma_conjunction_forks(prog, ps, bound, th, th0, paths, r.1, i + 1, m - 1);
            assert(tests_pass(ps, env, i) == (m > 0 && tests_pass(ps, env, i + 1)));
            assert forall|k: int| 0 <= k < (a0 + fo).len() implies (#[trigger] (a0 + fo)[k]).0 == seq![env] by {
                if k < a0.len() {
                    assert((a0 + fo)[k] == a0[k]);
                } else {
                    assert((a0 + fo)[k] == fo[k - a0.len()]);
                }
            }
            assert forall|k: int| 0 <= k < st.forks.len() implies th.pc < (#[trigger] st.forks[k]).pc
                <= prog.code.len() by {
                if k >= forks.len() {
                    assert(st.forks[k] == rest.forks[k - forks.len()]);
                }
            }
        }
    }
}

/// The forks of a passed test all stand at the next test on `[env]`.
proof fn lemma_conjunction_forks(
    prog: ProgModel,
    ps: Seq<Pattern>,
    bound: nat,
    origin: ThreadModel,
    th0: ThreadModel,
    paths: Seq<PathModel>,
    acaps: crate::semantics::CapsModel,
    lvl: int,
    k: int,
)
    requires
        conjunction_program(prog, ps),
        1 <= lvl <= ps.len(),
        origin.pc == lvl - 1,
        th0.pc == lvl,
        th0.env == origin.env,
        paths.len() > 0,
        forall|j: int| 0 <= j < paths.len() ==> #[trigger] paths[j] == seq![origin.env],
        0 <= k <= paths.len() - 1,
        forall|j: int| 0 <= j < ps.len() ==> plain_test(#[trigger] ps[j]) && pattern_size(ps[j]) <= bound,
    ensures
        ({
            let fo = run_forks(
                prog,
                bound,
                origin,
                Seq::new(
                    (paths.len() - 1) as nat,
                    |x: int| predicate_fork(prog.names, th0, paths, acaps, paths.len() - 1 - x),
                ),
                k,
            ).0;
            &&& fo.len() > 0 ==> tests_pass(ps, origin.env, lvl)
            &&& (k > 0 && tests_pass(ps, origin.env, lvl)) ==> fo.len() > 0
            &&& outs_at(fo, origin.env)
        }),
    decreases ps.len() - lvl + 1, 0int, k,
{
    let n = paths.len() as int;
    let forks = Seq::new(
        (n - 1) as nat,
        |x: int| predicate_fork(prog.names, th0, paths, acaps, n - 1 - x),
    );
    if k == 0 {
        assert(run_forks(prog, bound, origin, forks, 0).0 =~= Seq::<OutModel>::empty());
    } else {
        let f = forks[k - 1];
        assert(f.pc == lvl);
        assert(paths[n - 1 - (k - 1)] == seq![origin.env]);
        assert(f.path == seq![origin.env]);
        assert(f.env == origin.env);
        assert(fork_ok(prog.code.len() as int, origin, f));
        lemma_conjunction_run(prog, ps, bound, f, lvl);
        lemma_conjunction_forks(prog, ps, bound, origin, th0, paths, acaps, lvl, k - 1);
        let a = run_all(prog, bound, f).0;
        let b = run_forks(prog, bound, origin, forks, k - 1).0;
        assert(run_forks(prog, bound, origin, forks, k).0 == a + b);
        assert forall|x: int| 0 <= x < (a + b).len() implies (#[trigger] (a + b)[x]).0 == seq![origin.env] by {
            if x < a.len() {
                assert((a + b)[x] == a[x]);
            } else {
                assert((a + b)[x] == b[x - a.len()]);
            }
        }
    }
}

/// A conjunction of patterns that are each tested in one step and capture
/// nothing themselves matches an element exactly when every one of them
/// does, and then only with the path `[env]`.
pub proof fn law_conjunction_of_single_tests(v: Vec<Pattern>, env: EnvelopeModel)
    requires
        forall|j: int| 0 <= j < v@.len() ==> plain_test(#[trigger] v@[j]),
    ensures
        pattern_matches(Pattern::Meta(MetaPattern::And(AndPattern(v))), env) <==> forall|j: int|
            0 <= j < v@.len() ==> pattern_matches(#[trigger] v@[j], env),
        forall|k: int|
            0 <= k < pattern_results(Pattern::Meta(MetaPattern::And(AndPattern(v))), env).0.len()
                ==> #[trigger] pattern_results(Pattern::Meta(MetaPattern::And(AndPattern(v))), env).0[k]
                == seq![env],
{
    let ps = v@;
    let p = Pattern::Meta(MetaPattern::And(AndPattern(v)));
    lemma_conjunction_program(v);
    let prog = compile_program(p);
    let bound = pattern_size(p);
    assert forall|j: int| 0 <= j < ps.len() implies plain_test(#[trigger] ps[j]) && pattern_size(ps[j]) <= bound by {
        lemma_patterns_size_part(ps, ps.len() as int, j);
    }
    let th = initial_thread(prog, env);
    lemma_conjunction_run(prog, ps, bound, th, 0);
    let outs = run_all(prog, bound, th).0;
    lemma_collect_outs_paths(prog.names, outs);
    assert forall|j: int| 0 <= j < ps.len() implies pattern_matches(#[trigger] ps[j], env) == (
    atomic_results(ps[j], env).0.len() > 0) by {
        law_atomic_patterns_match_directly(ps[j], env);
    }
    assert forall|k: int| 0 <= k < out_paths(outs).len() implies #[trigger] out_paths(outs)[k] == seq![env] by {
        assert(outs[k].0 == seq![env]);
    }
}

} // verus!
