//! What a subject pattern over a single test matches.
use vstd::prelude::*;

use crate::alternation::lemma_compile_atomic;
use crate::capturing::plain_test;
use crate::conjunction::lemma_plain_paths;
use crate::envelope::EnvelopeModel;
use crate::laws::{law_atomic_patterns_match_directly, lemma_collect_outs_paths, out_paths};
use crate::pattern::{pattern_size, Pattern, StructurePattern, SubjectPattern};
use crate::semantics::{
    atomic_results, compile_program, emit, empty_state, fork_ok, initial_thread,
    pattern_results, predicate_first, predicate_fork, run_all, run_forks, thread_steps,
    CapsModel, InstrModel, OutModel, PathModel, ProgModel, ThreadModel,
};

verus! {

/// The path from an element to its subject: `[env, subject]` for a node,
/// `[env]` for any other element, which is its own subject.
pub open spec fn subject_path(env: EnvelopeModel) -> PathModel {
    if env.is_node() {
        seq![env, env.subject()]
    } else {
        seq![env]
    }
}

spec fn subject_code() -> Seq<InstrModel> {
    seq![
        InstrModel::NavigateSubject,
        InstrModel::ExtendTraversal,
        InstrModel::MatchPredicate(0),
        InstrModel::CombineTraversal,
        InstrModel::Accept,
    ]
}

proof fn lemma_subject_program(q: Pattern)
    requires
        plain_test(q),
    ensures
        compile_program(Pattern::Structure(StructurePattern::Subject(SubjectPattern::Pattern(Box::new(q))))).code
            == subject_code(),
        compile_program(Pattern::Structure(StructurePattern::Subject(SubjectPattern::Pattern(Box::new(q))))).lits
            == seq![q],
{
    let st0 = empty_state();
    let st1 = emit(emit(st0, InstrModel::NavigateSubject), InstrModel::ExtendTraversal);
    lemma_compile_atomic(q, st1);
    let prog = compile_program(Pattern::Structure(StructurePattern::Subject(SubjectPattern::Pattern(Box::new(q)))));
    assert(prog.code =~= subject_code());
    assert(prog.lits =~= seq![q]);
}

/// A thread that has matched the subject joins the traversal back onto the
/// path to the subject and accepts it.
proof fn lemma_join_accept(prog: ProgModel, bound: nat, t: ThreadModel, sp: PathModel)
    requires
        prog.code == subject_code(),
        t.pc == 3,
        t.saved == seq![sp],
        sp.len() > 0,
        t.path == seq![sp.last()],
    ensures
        thread_steps(prog, bound, t).outs == seq![(sp, t.caps)],
        thread_steps(prog, bound, t).forks.len() == 0,
        run_all(prog, bound, t).0 == seq![(sp, t.caps)],
{
    assert(sp + t.path.skip(1) =~= sp);
    let t2 = ThreadModel { saved: t.saved.drop_last(), path: sp, pc: 4, ..t };
    assert(thread_steps(prog, bound, t) == thread_steps(prog, bound, t2));
    let st = thread_steps(prog, bound, t);
    assert(run_forks(prog, bound, t, st.forks, 0).0 =~= Seq::<OutModel>::empty());
    assert(run_all(prog, bound, t).0 =~= seq![(sp, t.caps)]);
}

proof fn lemma_subject_forks(
    prog: ProgModel,
    bound: nat,
    origin: ThreadModel,
    th0: ThreadModel,
    paths: Seq<PathModel>,
    acaps: CapsModel,
    sp: PathModel,
    i: int,
)
    requires
        prog.code == subject_code(),
        origin.pc == 0,
        th0.pc == 3,
        th0.saved == seq![sp],
        sp.len() > 0,
        paths.len() > 0,
        forall|j: int| 0 <= j < paths.len() ==> #[trigger] paths[j] == seq![sp.last()],
        0 <= i <= paths.len() - 1,
    ensures
        out_paths(
            run_forks(
                prog,
                bound,
                origin,
                Seq::new(
                    (paths.len() - 1) as nat,
                    |k: int| predicate_fork(prog.names, th0, paths, acaps, paths.len() - 1 - k),
                ),
                i,
            ).0,
        ) == Seq::new(i as nat, |j: int| sp),
    decreases i,
{
    let n = paths.len() as int;
    let forks = Seq::new(
        (n - 1) as nat,
        |k: int| predicate_fork(prog.names, th0, paths, acaps, n - 1 - k),
    );
    if i == 0 {
        assert(out_paths(run_forks(prog, bound, origin, forks, 0).0) =~= Seq::new(0, |j: int| sp));
    } else {
        let f = forks[i - 1];
        assert(paths[n - 1 - (i - 1)] == seq![sp.last()]);
        assert(fork_ok(prog.code.len() as int, origin, f));
        lemma_join_accept(prog, bound, f, sp);
        lemma_subject_forks(prog, bound, origin, th0, paths, acaps, sp, i - 1);
        let a = run_all(prog, bound, f).0;
        let b = run_forks(prog, bound, origin, forks, i - 1).0;
        assert(run_forks(prog, bound, origin, forks, i).0 == a + b);
        assert(out_paths(a) =~= seq![sp]);
        assert(out_paths(a + b) =~= out_paths(a) + out_paths(b));
        assert(seq![sp] + Seq::new((i - 1) as nat, |j: int| sp) =~= Seq::new(i as nat, |j: int| sp));
    }
}

/// A subject pattern over a pattern that is tested in one step and captures
/// nothing itself yields, once for each path the test finds on the
/// element's subject, the path from the element to its subject; so it
/// matches exactly when the test matches the subject.
pub proof fn law_subject_of_single_test(q: Pattern, env: EnvelopeModel)
    requires
        plain_test(q),
    ensures
        pattern_results(
            Pattern::Structure(StructurePattern::Subject(SubjectPattern::Pattern(Box::new(q)))),
            env,
        ).0 == Seq::new(pattern_results(q, env.subject()).0.len(), |i: int| subject_path(env)),
{
    let p = Pattern::Structure(StructurePattern::Subject(SubjectPattern::Pattern(Box::new(q))));
    lemma_subject_program(q);
    let prog = compile_program(p);
    let bound = pattern_size(p);
    let s = env.subject();
    let sp = subject_path(env);
    law_atomic_patterns_match_directly(q, s);
    lemma_plain_paths(q, s);
    let th = initial_thread(prog, env);
    let th1 = ThreadModel { pc: 1, env: s, path: sp, ..th };
    if env.is_node() {
        assert(th.path.push(env.subject()) =~= sp);
    }
    assert(thread_steps(prog, bound, th) == thread_steps(prog, bound, th1));
    let th2 = ThreadModel { saved: seq![sp], env: s, path: seq![s], pc: 2, ..th1 };
    assert(th1.saved.push(th1.path) =~= seq![sp]);
    assert(thread_steps(prog, bound, th1) == thread_steps(prog, bound, th2));
    let r = atomic_results(q, s);
    let paths = r.0;
    let n = paths.len() as int;
    let st = thread_steps(prog, bound, th);
    let outs = run_all(prog, bound, th).0;
    assert(prog.lits[0] == q);
    if n == 0 {
        assert(st.forks.len() == 0);
        assert(run_forks(prog, bound, th, st.forks, 0).0 =~= Seq::<OutModel>::empty());
        assert(outs =~= Seq::<OutModel>::empty());
        lemma_collect_outs_paths(prog.names, outs);
        assert(out_paths(outs) =~= Seq::new(0, |i: int| sp));
    } else {
        assert(paths[0] == seq![s]);
        let th3 = predicate_first(prog.names, th2, paths, r.1);
        assert(th3.pc == 3 && th3.path == seq![s] && th3.saved == seq![sp]);
        assert(sp.last() == s);
        let forks = Seq::new(
            (n - 1) as nat,
            |k: int| predicate_fork(prog.names, th3, paths, r.1, n - 1 - k),
        );
        lemma_join_accept(prog, bound, th3, sp);
        assert(st.forks =~= forks);
        assert(st.outs == seq![(sp, th3.caps)]);
        lemma_subject_forks(prog, bound, th, th3, paths, r.1, sp, n - 1);
        let rf = run_forks(prog, bound, th, forks, n - 1).0;
        assert(outs == st.outs + rf);
        lemma_collect_outs_paths(prog.names, outs);
        assert(out_paths(st.outs) =~= seq![sp]);
        assert(out_paths(outs) =~= out_paths(st.outs) + out_paths(rf));
        assert(seq![sp] + Seq::new((n - 1) as nat, |i: int| sp) =~= Seq::new(n as nat, |i: int| sp));
    }
}

} // verus!
