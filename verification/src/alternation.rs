//! What an alternation of single-test patterns matches.
use vstd::prelude::*;

use crate::envelope::EnvelopeModel;
use crate::laws::{compiles_atomic, law_atomic_patterns_match_directly, lemma_collect_outs_paths, out_paths};
use crate::pattern::{lemma_patterns_size_part, pattern_size, MetaPattern, OrPattern, Pattern};
use crate::semantics::{
    atomic_results, compile, compile_alternatives, compile_program, emit, empty_state, fork_ok,
    initial_thread, patch_jumps, pattern_matches, pattern_results, predicate_first,
    predicate_fork, run_all, run_forks, thread_steps, CapsModel, CompileState, InstrModel,
    OutModel, PathModel, ProgModel, ThreadModel,
};

verus! {

// ---------------------------------------------------------------------------
// The code of an alternation
// ---------------------------------------------------------------------------

/// The three instructions at `3k`, `3k + 1` and `3k + 2`.
pub open spec fn block(code: Seq<InstrModel>, k: int) -> (InstrModel, InstrModel, InstrModel) {
    (code[3 * k], code[3 * k + 1], code[3 * k + 2])
}

/// The block for alternative `k` of a chain whose jumps go to `end`: a split
/// to the alternative's test and to the next block, the test, and the jump.
pub open spec fn chain_block(k: int, end: int) -> (InstrModel, InstrModel, InstrModel) {
    (
        InstrModel::Split { a: (3 * k + 1) as nat, b: (3 * k + 3) as nat },
        InstrModel::MatchPredicate(k as nat),
        InstrModel::Jump(end as nat),
    )
}

/// The program of an alternation of the single-test patterns `ps`: a block
/// per alternative but the last, the last alternative's test, and `Accept`.
pub open spec fn chain_program(prog: ProgModel, ps: Seq<Pattern>) -> bool {
    let n = ps.len() as int;
    &&& n >= 1
    &&& prog.code.len() == 3 * n - 1
    &&& prog.lits == ps
    &&& forall|k: int| 0 <= k < n - 1 ==> #[trigger] block(prog.code, k) == chain_block(k, 3 * n - 2)
    &&& prog.code[3 * n - 3] == InstrModel::MatchPredicate((n - 1) as nat)
    &&& prog.code[3 * n - 2] == InstrModel::Accept
}

pub(crate) proof fn lemma_compile_atomic(p: Pattern, st: CompileState)
    requires
        compiles_atomic(p),
    ensures
        compile(p, st).code == st.code.push(InstrModel::MatchPredicate(st.lits.len() as nat)),
        compile(p, st).lits == st.lits.push(p),
{
}

proof fn lemma_alternatives_layout(ps: Seq<Pattern>, i: int, st: CompileState, jumps: Seq<int>)
    requires
        1 <= ps.len(),
        0 <= i <= ps.len() - 1,
        forall|j: int| 0 <= j < ps.len() ==> compiles_atomic(#[trigger] ps[j]),
        st.code.len() == 3 * i,
        st.lits == ps.subrange(0, i),
        jumps.len() == i,
        forall|k: int| 0 <= k < i ==> #[trigger] jumps[k] == 3 * k + 2,
        forall|k: int| 0 <= k < i ==> #[trigger] block(st.code, k) == chain_block(k, 0),
    ensures
        ({
            let r = compile_alternatives(ps, i, st, jumps);
            let n = ps.len() as int;
            &&& r.0.code.len() == 3 * n - 2
            &&& r.0.lits == ps
            &&& r.1.len() == n - 1
            &&& forall|k: int| 0 <= k < n - 1 ==> #[trigger] r.1[k] == 3 * k + 2
            &&& forall|k: int| 0 <= k < n - 1 ==> #[trigger] block(r.0.code, k) == chain_block(k, 0)
            &&& r.0.code[3 * n - 3] == InstrModel::MatchPredicate((n - 1) as nat)
        }),
    decreases ps.len() - i,
{
    let n = ps.len() as int;
    if i == n - 1 {
        lemma_compile_atomic(ps[i], st);
        let c = compile(ps[i], st);
        assert(c.lits =~= ps);
        assert forall|k: int| 0 <= k < n - 1 implies #[trigger] block(c.code, k) == chain_block(k, 0) by {
            assert(block(st.code, k) == chain_block(k, 0));
        }
    } else {
        let st1 = emit(st, InstrModel::Split { a: 0, b: 0 });
        lemma_compile_atomic(ps[i], st1);
        let st2 = compile(ps[i], st1);
        let jump_pos = st2.code.len() as int;
        let st3 = emit(st2, InstrModel::Jump(0));
        let split_pos = 3 * i;
        let st4 = CompileState {
            code: st3.code.update(
                split_pos,
                InstrModel::Split { a: (split_pos + 1) as nat, b: (jump_pos + 1) as nat },
            ),
            ..st3
        };
        assert(jump_pos == 3 * i + 2);
        assert(st4.lits =~= ps.subrange(0, i + 1));
        let jumps2 = jumps.push(jump_pos);
        assert forall|k: int| 0 <= k < i + 1 implies #[trigger] block(st4.code, k) == chain_block(k, 0) by {
            if k < i {
                assert(block(st.code, k) == chain_block(k, 0));
            }
        }
        assert forall|k: int| 0 <= k < i + 1 implies #[trigger] jumps2[k] == 3 * k + 2 by {
            if k < i {
                assert(jumps[k] == 3 * k + 2);
            }
        }
        assert(compile_alternatives(ps, i, st, jumps) == compile_alternatives(ps, i + 1, st4, jumps2));
        lemma_alternatives_layout(ps, i + 1, st4, jumps2);
    }
}

proof fn lemma_patch_layout(st: CompileState, jumps: Seq<int>, k: int, m: int)
    requires
        0 <= k <= m,
        jumps.len() == m,
        st.code.len() == 3 * m + 1,
        forall|j: int| 0 <= j < m ==> #[trigger] jumps[j] == 3 * j + 2,
        forall|j: int| 0 <= j < k ==> #[trigger] block(st.code, j) == chain_block(j, 3 * m + 1),
        forall|j: int| k <= j < m ==> #[trigger] block(st.code, j) == chain_block(j, 0),
    ensures
        ({
            let r = patch_jumps(st, jumps, k);
            &&& r.code.len() == 3 * m + 1
            &&& r.lits == st.lits
            &&& r.names == st.names
            &&& r.code[3 * m] == st.code[3 * m]
            &&& forall|j: int| 0 <= j < m ==> #[trigger] block(r.code, j) == chain_block(j, 3 * m + 1)
        }),
    decreases m - k,
{
    if k < m {
        assert(jumps[k] == 3 * k + 2);
        let st2 = CompileState {
            code: st.code.update(jumps[k], InstrModel::Jump(st.code.len() as nat)),
            ..st
        };
        assert(patch_jumps(st, jumps, k) == patch_jumps(st2, jumps, k + 1));
        assert forall|j: int| 0 <= j < k + 1 implies #[trigger] block(st2.code, j) == chain_block(j, 3 * m + 1) by {
            if j < k {
                assert(block(st.code, j) == chain_block(j, 3 * m + 1));
            } else {
                assert(block(st.code, j) == chain_block(j, 0));
            }
        }
        assert forall|j: int| k + 1 <= j < m implies #[trigger] block(st2.code, j) == chain_block(j, 0) by {
            assert(block(st.code, j) == chain_block(j, 0));
        }
        lemma_patch_layout(st2, jumps, k + 1, m);
    }
}

/// The program of an alternation of single-test patterns.
proof fn lemma_chain_program(v: Vec<Pattern>)
    requires
        v@.len() >= 1,
        forall|j: int| 0 <= j < v@.len() ==> compiles_atomic(#[trigger] v@[j]),
    ensures
        chain_program(compile_program(Pattern::Meta(MetaPattern::Or(OrPattern(v)))), v@),
{
    let ps = v@;
    let n = ps.len() as int;
    let st0 = empty_state();
    assert(st0.lits =~= ps.subrange(0, 0));
    lemma_alternatives_layout(ps, 0, st0, Seq::empty());
    let r = compile_alternatives(ps, 0, st0, Seq::empty());
    lemma_patch_layout(r.0, r.1, 0, n - 1);
    let c = patch_jumps(r.0, r.1, 0);
    assert(compile(Pattern::Meta(MetaPattern::Or(OrPattern(v))), st0) == c);
    let prog = compile_program(Pattern::Meta(MetaPattern::Or(OrPattern(v))));
    assert(prog.code == c.code.push(InstrModel::Accept));
    assert forall|k: int| 0 <= k < n - 1 implies #[trigger] block(prog.code, k) == chain_block(k, 3 * n - 2) by {
        assert(block(c.code, k) == chain_block(k, 3 * (n - 1) + 1));
    }
}

// ---------------------------------------------------------------------------
// Running it
// ---------------------------------------------------------------------------

/// `pc` holds `Accept`, or a jump forward to `Accept`.
pub open spec fn accepting(prog: ProgModel, pc: int) -> bool {
    &&& 0 <= pc < prog.code.len()
    &&& (prog.code[pc] == InstrModel::Accept || (prog.code[pc] matches InstrModel::Jump(e) && pc < e
        < prog.code.len() && prog.code[e as int] == InstrModel::Accept))
}

pub(crate) proof fn lemma_accepting(prog: ProgModel, bound: nat, t: ThreadModel)
    requires
        accepting(prog, t.pc),
    ensures
        thread_steps(prog, bound, t).outs == seq![(t.path, t.caps)],
        thread_steps(prog, bound, t).forks.len() == 0,
        run_all(prog, bound, t).0 == seq![(t.path, t.caps)],
{
    if let InstrModel::Jump(e) = prog.code[t.pc] {
        let t2 = ThreadModel { pc: e as int, ..t };
        assert(thread_steps(prog, bound, t) == thread_steps(prog, bound, t2));
    }
    let st = thread_steps(prog, bound, t);
    assert(run_forks(prog, bound, t, st.forks, 0).0 =~= Seq::<OutModel>::empty());
    assert(run_all(prog, bound, t).0 =~= seq![(t.path, t.caps)]);
}

/// The forks of a test, run last pushed first, each emit their path.
proof fn lemma_test_forks(
    prog: ProgModel,
    bound: nat,
    origin: ThreadModel,
    th0: ThreadModel,
    paths: Seq<PathModel>,
    acaps: CapsModel,
    i: int,
)
    requires
        accepting(prog, th0.pc),
        origin.pc < th0.pc,
        paths.len() > 0,
        0 <= i <= paths.len() - 1,
    ensures
        out_paths(
            run_forks(
                prog,
                bound,
                origin,
                Seq::new(
                    (paths.len() - 1) as nat,
                    |k: int| predicate_fork(prog.names, th0, paths, acaps, paths.len() - 1 - k),
                ),
                i,
            ).0,
        ) == paths.subrange(paths.len() - i, paths.len() as int),
    decreases i,
{
    let n = paths.len() as int;
    let forks = Seq::new(
        (n - 1) as nat,
        |k: int| predicate_fork(prog.names, th0, paths, acaps, n - 1 - k),
    );
    if i == 0 {
        assert(paths.subrange(n, n) =~= Seq::<PathModel>::empty());
        assert(out_paths(Seq::<OutModel>::empty()) =~= Seq::<PathModel>::empty());
    } else {
        let f = forks[i - 1];
        assert(f.pc == th0.pc);
        assert(fork_ok(prog.code.len() as int, origin, f));
        lemma_accepting(prog, bound, f);
        let a = run_all(prog, bound, f);
        lemma_test_forks(prog, bound, origin, th0, paths, acaps, i - 1);
        let b = run_forks(prog, bound, origin, forks, i - 1);
        assert(run_forks(prog, bound, origin, forks, i).0 == a.0 + b.0);
        assert(f.path == paths[n - i]);
        assert(out_paths(a.0 + b.0) =~= seq![paths[n - i]] + out_paths(b.0));
        assert(paths.subrange(n - i, n) =~= seq![paths[n - i]] + paths.subrange(n - i + 1, n));
    }
}

/// A test of `lits[j]` followed by acceptance emits the paths the test finds,
/// and forks only threads at the next instruction.
proof fn lemma_test_then_accept(prog: ProgModel, bound: nat, t: ThreadModel, j: nat)
    requires
        0 <= t.pc < prog.code.len(),
        prog.code[t.pc] == InstrModel::MatchPredicate(j),
        j < prog.lits.len(),
        pattern_size(prog.lits[j as int]) <= bound,
        t.path == seq![t.env],
        accepting(prog, t.pc + 1),
    ensures
        out_paths(run_all(prog, bound, t).0) == atomic_results(prog.lits[j as int], t.env).0,
        forall|k: int|
            0 <= k < thread_steps(prog, bound, t).forks.len() ==> (#[trigger] thread_steps(
                prog,
                bound,
                t,
            ).forks[k]).pc == t.pc + 1,
{
    let st = thread_steps(prog, bound, t);
    let r = atomic_results(prog.lits[j as int], t.env);
    let paths = r.0;
    let n = paths.len() as int;
    if n == 0 {
        assert(st.forks.len() == 0);
        assert(run_forks(prog, bound, t, st.forks, 0).0 =~= Seq::<OutModel>::empty());
        assert(run_all(prog, bound, t).0 =~= Seq::<OutModel>::empty());
        assert(paths =~= Seq::<PathModel>::empty());
        assert(out_paths(Seq::<OutModel>::empty()) =~= Seq::<PathModel>::empty());
    } else {
        let th0 = predicate_first(prog.names, t, paths, r.1);
        let forks = Seq::new(
            (n - 1) as nat,
            |k: int| predicate_fork(prog.names, th0, paths, r.1, n - 1 - k),
        );
        lemma_accepting(prog, bound, th0);
        let rest = thread_steps(prog, bound, th0);
        assert(rest.forks =~= Seq::<ThreadModel>::empty());
        assert(st.forks =~= forks);
        assert(st.outs == rest.outs);
        if paths[0].len() == 1 && paths[0][0] == t.env {
            assert(paths[0] =~= seq![t.env]);
        }
        assert(th0.path == paths[0]);
        lemma_test_forks(prog, bound, t, th0, paths, r.1, n - 1);
        let rf = run_forks(prog, bound, t, forks, n - 1);
        let outs = run_all(prog, bound, t).0;
        assert(outs == st.outs + rf.0);
        assert(out_paths(outs) =~= seq![paths[0]] + out_paths(rf.0));
        assert(paths =~= seq![paths[0]] + paths.subrange(1, n));
    }
}

/// Forks run the same from two origins that accept each of them alike.
pub(crate) proof fn lemma_forks_origin(
    prog: ProgModel,
    bound: nat,
    o1: ThreadModel,
    o2: ThreadModel,
    forks: Seq<ThreadModel>,
    i: int,
)
    requires
        0 <= i <= forks.len(),
        forall|k: int|
            0 <= k < i ==> fork_ok(prog.code.len() as int, o1, #[trigger] forks[k]) == fork_ok(
                prog.code.len() as int,
                o2,
                forks[k],
            ),
    ensures
        run_forks(prog, bound, o1, forks, i) == run_forks(prog, bound, o2, forks, i),
    decreases i,
{
    if i > 0 {
        lemma_forks_origin(prog, bound, o1, o2, forks, i - 1);
        assert(fork_ok(prog.code.len() as int, o1, forks[i - 1]) == fork_ok(
            prog.code.len() as int,
            o2,
            forks[i - 1],
        ));
    }
}

/// A fork pushed first runs last.
proof fn lemma_forks_prefix(
    prog: ProgModel,
    bound: nat,
    o: ThreadModel,
    x: ThreadModel,
    forks: Seq<ThreadModel>,
    i: int,
)
    requires
        0 <= i <= forks.len(),
    ensures
        run_forks(prog, bound, o, seq![x] + forks, i + 1).0 == run_forks(prog, bound, o, forks, i).0
            + (if fork_ok(prog.code.len() as int, o, x) {
            run_all(prog, bound, x).0
        } else {
            Seq::empty()
        }),
    decreases i,
{
    let all = seq![x] + forks;
    let ax = if fork_ok(prog.code.len() as int, o, x) {
        run_all(prog, bound, x).0
    } else {
        Seq::<OutModel>::empty()
    };
    if i == 0 {
        assert(all[0] == x);
        assert(run_forks(prog, bound, o, all, 0).0 =~= Seq::<OutModel>::empty());
        assert(run_forks(prog, bound, o, forks, 0).0 =~= Seq::<OutModel>::empty());
        assert(run_forks(prog, bound, o, all, 1).0 =~= ax);
    } else {
        lemma_forks_prefix(prog, bound, o, x, forks, i - 1);
        assert(all[i] == forks[i - 1]);
        let f = forks[i - 1];
        let af = if fork_ok(prog.code.len() as int, o, f) {
            run_all(prog, bound, f).0
        } else {
            Seq::<OutModel>::empty()
        };
        let b = run_forks(prog, bound, o, forks, i - 1).0;
        assert(run_forks(prog, bound, o, all, i + 1).0 == af + (b + ax));
        assert(run_forks(prog, bound, o, forks, i).0 == af + b);
        assert(af + (b + ax) =~= (af + b) + ax);
    }
}

/// The paths of the single-test alternatives `ps[i..]` on `env`, the last
/// alternative's first.
pub open spec fn atomic_alternatives(ps: Seq<Pattern>, env: EnvelopeModel, i: int) -> Seq<PathModel>
    decreases ps.len() - i,
{
    if i < 0 || i >= ps.len() {
        Seq::empty()
    } else {
        atomic_alternatives(ps, env, i + 1) + atomic_results(ps[i], env).0
    }
}

proof fn lemma_out_paths_add(a: Seq<OutModel>, b: Seq<OutModel>)
    ensures
        out_paths(a + b) == out_paths(a) + out_paths(b),
{
    assert(out_paths(a + b) =~= out_paths(a) + out_paths(b));
}

/// Running the chain from the block of alternative `i` emits the paths of
/// alternatives `i..`, and forks only threads further along.
proof fn lemma_chain_run(prog: ProgModel, ps: Seq<Pattern>, bound: nat, th: ThreadModel, i: int)
    requires
        chain_program(prog, ps),
        0 <= i < ps.len(),
        th.pc == 3 * i,
        th.path == seq![th.env],
        forall|j: int| 0 <= j < ps.len() ==> pattern_size(#[trigger] ps[j]) <= bound,
    ensures
        out_paths(run_all(prog, bound, th).0) == atomic_alternatives(ps, th.env, i),
        forall|k: int|
            0 <= k < thread_steps(prog, bound, th).forks.len() ==> th.pc < (#[trigger] thread_steps(
                prog,
                bound,
                th,
            ).forks[k]).pc <= prog.code.len(),
    decreases ps.len() - i,
{
    let n = ps.len() as int;
    assert(pattern_size(ps[i]) <= bound);
    if i == n - 1 {
        lemma_test_then_accept(prog, bound, th, (n - 1) as nat);
        assert(atomic_alternatives(ps, th.env, i + 1) =~= Seq::<PathModel>::empty());
        assert(atomic_alternatives(ps, th.env, i) =~= atomic_results(ps[i], th.env).0);
    } else {
        assert(block(prog.code, i) == chain_block(i, 3 * n - 2));
        let f = ThreadModel { pc: 3 * i + 1, ..th };
        let th2 = ThreadModel { pc: 3 * i + 3, ..th };
        let rest = thread_steps(prog, bound, th2);
        let st = thread_steps(prog, bound, th);
        assert(st.forks == seq![f] + rest.forks);
        assert(st.outs == rest.outs);
        lemma_chain_run(prog, ps, bound, th2, i + 1);
        let m = rest.forks.len() as int;
        // The test of alternative `i`, then a jump to `Accept`.
        if i + 1 < n - 1 {
            assert(block(prog.code, i + 1) == chain_block(i + 1, 3 * n - 2));
        }
        assert(accepting(prog, f.pc + 1));
        lemma_test_then_accept(prog, bound, f, i as nat);
        assert(fork_ok(prog.code.len() as int, th, f));
        lemma_forks_prefix(prog, bound, th, f, rest.forks, m);
        assert forall|k: int| 0 <= k < m implies fork_ok(
            prog.code.len() as int,
            th,
            #[trigger] rest.forks[k],
        ) == fork_ok(prog.code.len() as int, th2, rest.forks[k]) by {}
        lemma_forks_origin(prog, bound, th, th2, rest.forks, m);
        let a2 = run_all(prog, bound, th2).0;
        let af = run_all(prog, bound, f).0;
        assert(run_all(prog, bound, th).0 == a2 + af);
        lemma_out_paths_add(a2, af);
        assert forall|k: int| 0 <= k < st.forks.len() implies th.pc < (#[trigger] st.forks[k]).pc
            <= prog.code.len() by {
            if k > 0 {
                assert(st.forks[k] == rest.forks[k - 1]);
            }
        }
    }
}

/// The paths of the alternatives `ps[i..]` on `env`, the last alternative's
/// first.
pub open spec fn alternatives_paths(ps: Seq<Pattern>, env: EnvelopeModel, i: int) -> Seq<
    PathModel,
>
    decreases ps.len() - i,
{
    if i < 0 || i >= ps.len() {
        Seq::empty()
    } else {
        alternatives_paths(ps, env, i + 1) + pattern_results(ps[i], env).0
    }
}

proof fn lemma_alternatives_paths(ps: Seq<Pattern>, env: EnvelopeModel, i: int)
    requires
        0 <= i <= ps.len(),
        forall|j: int| 0 <= j < ps.len() ==> compiles_atomic(#[trigger] ps[j]),
    ensures
        alternatives_paths(ps, env, i) == atomic_alternatives(ps, env, i),
        alternatives_paths(ps, env, i).len() > 0 <==> exists|j: int|
            i <= j < ps.len() && pattern_matches(#[trigger] ps[j], env),
    decreases ps.len() - i,
{
    if i < ps.len() {
        lemma_alternatives_paths(ps, env, i + 1);
        law_atomic_patterns_match_directly(ps[i], env);
        if alternatives_paths(ps, env, i).len() > 0 {
            if alternatives_paths(ps, env, i + 1).len() == 0 {
                assert(pattern_matches(ps[i], env));
            }
        }
        if exists|j: int| i <= j < ps.len() && pattern_matches(#[trigger] ps[j], env) {
            let j = choose|j: int| i <= j < ps.len() && pattern_matches(#[trigger] ps[j], env);
            if j > i {
                assert(alternatives_paths(ps, env, i + 1).len() > 0);
            }
        }
    }
}

/// An alternation of patterns that are each tested in one step (leaf,
/// digest, leaf-structure, node and obscured patterns, "any" and "none")
/// yields the paths of every alternative, the last alternative's paths
/// first; so it matches an element exactly when one of its alternatives does.
pub proof fn law_alternation_of_single_tests(v: Vec<Pattern>, env: EnvelopeModel)
    requires
        v@.len() >= 1,
        forall|j: int| 0 <= j < v@.len() ==> compiles_atomic(#[trigger] v@[j]),
    ensures
        pattern_results(Pattern::Meta(MetaPattern::Or(OrPattern(v))), env).0
            == alternatives_paths(v@, env, 0),
        pattern_matches(Pattern::Meta(MetaPattern::Or(OrPattern(v))), env) <==> exists|j: int|
            0 <= j < v@.len() && pattern_matches(#[trigger] v@[j], env),
{
    let ps = v@;
    let p = Pattern::Meta(MetaPattern::Or(OrPattern(v)));
    lemma_chain_program(v);
    let prog = compile_program(p);
    let bound = pattern_size(p);
    assert forall|j: int| 0 <= j < ps.len() implies pattern_size(#[trigger] ps[j]) <= bound by {
        lemma_patterns_size_part(ps, ps.len() as int, j);
    }
    let th = initial_thread(prog, env);
    lemma_chain_run(prog, ps, bound, th, 0);
    lemma_collect_outs_paths(prog.names, run_all(prog, bound, th).0);
    lemma_alternatives_paths(ps, env, 0);
}

} // verus!
