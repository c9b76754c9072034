//! What a capture of a single-test pattern yields.
use vstd::prelude::*;

use crate::alternation::lemma_compile_atomic;
use crate::envelope::EnvelopeModel;
use crate::laws::{compiles_atomic, law_atomic_patterns_match_directly};
use crate::pattern::{CapturePattern, LeafPattern, MetaPattern, Pattern};
use crate::semantics::{
    atomic_results, caps_append, caps_merge, capture_end_thread, collect_outs,
    collect_outs_upto, compile, compile_program, empty_state, emit, fork_ok, initial_thread,
    out_captures, pattern_results, predicate_first, predicate_fork, run_all, run_forks,
    thread_steps, CapsModel, CompileState, InstrModel, OutModel, PathModel, ProgModel,
    ThreadModel,
};

verus! {

/// Patterns tested in one step that capture nothing themselves: the
/// single-test patterns other than CBOR and tagged-value patterns, whose
/// dcbor-pattern expressions may hold captures of their own.
pub open spec fn plain_test(p: Pattern) -> bool {
    &&& compiles_atomic(p)
    &&& !(p matches Pattern::Leaf(LeafPattern::Cbor(_)))
    &&& !(p matches Pattern::Leaf(LeafPattern::Tag(_)))
}

proof fn lemma_plain_test_captures_nothing(p: Pattern, env: EnvelopeModel)
    requires
        plain_test(p),
    ensures
        atomic_results(p, env).1 == Seq::<(Seq<char>, Seq<PathModel>)>::empty(),
{
}

/// The program of a capture of a plain single test.
proof fn lemma_capture_program(c: CapturePattern)
    requires
        plain_test(*c.pattern),
    ensures
        ({
            let prog = compile_program(Pattern::Meta(MetaPattern::Capture(c)));
            &&& prog.code == seq![
                InstrModel::CaptureStart(0),
                InstrModel::MatchPredicate(0),
                InstrModel::CaptureEnd(0),
                InstrModel::Accept,
            ]
            &&& prog.lits == seq![*c.pattern]
            &&& prog.names == seq![c.name@]
        }),
{
    let st0 = empty_state();
    let st1 = CompileState {
        code: st0.code.push(InstrModel::CaptureStart(0)),
        names: st0.names.push(c.name@),
        lits: st0.lits,
    };
    lemma_compile_atomic(*c.pattern, st1);
    let st2 = compile(*c.pattern, st1);
    assert(st2.names == st1.names);
    let st3 = emit(st2, InstrModel::CaptureEnd(0));
    assert(compile(Pattern::Meta(MetaPattern::Capture(c)), st0) == st3);
    let prog = compile_program(Pattern::Meta(MetaPattern::Capture(c)));
    assert(prog.code =~= seq![
        InstrModel::CaptureStart(0),
        InstrModel::MatchPredicate(0),
        InstrModel::CaptureEnd(0),
        InstrModel::Accept,
    ]);
    assert(prog.lits =~= seq![*c.pattern]);
    assert(prog.names =~= seq![c.name@]);
}

/// The output of a path captured by itself.
pub open spec fn captured_out(p: PathModel) -> OutModel {
    (p, seq![seq![p]])
}

/// A thread at the capture's end emits its path, captured.
proof fn lemma_capture_end(prog: ProgModel, bound: nat, t: ThreadModel)
    requires
        prog.code == seq![
            InstrModel::CaptureStart(0),
            InstrModel::MatchPredicate(0),
            InstrModel::CaptureEnd(0),
            InstrModel::Accept,
        ],
        t.pc == 2,
        t.cstack == seq![seq![0int]],
        t.caps == seq![Seq::<PathModel>::empty()],
    ensures
        thread_steps(prog, bound, t).outs == seq![captured_out(t.path)],
        thread_steps(prog, bound, t).forks.len() == 0,
        run_all(prog, bound, t).0 == seq![captured_out(t.path)],
{
    let t2 = capture_end_thread(prog.code, t, 0);
    assert(t.path.subrange(0, t.path.len() as int) =~= t.path);
    assert(t2.caps =~= seq![seq![t.path]]);
    assert(t2.pc == 3);
    assert(thread_steps(prog, bound, t) == thread_steps(prog, bound, t2));
    let st = thread_steps(prog, bound, t);
    assert(st.outs == seq![(t2.path, t2.caps)]);
    assert(run_forks(prog, bound, t, st.forks, 0).0 =~= Seq::<OutModel>::empty());
    assert(run_all(prog, bound, t).0 =~= seq![captured_out(t.path)]);
}

/// The forks of the capture's test, run last pushed first, emit their
/// paths captured.
proof fn lemma_capture_forks(
    prog: ProgModel,
    bound: nat,
    origin: ThreadModel,
    th0: ThreadModel,
    paths: Seq<PathModel>,
    acaps: CapsModel,
    i: int,
)
    requires
        prog.code == seq![
            InstrModel::CaptureStart(0),
            InstrModel::MatchPredicate(0),
            InstrModel::CaptureEnd(0),
            InstrModel::Accept,
        ],
        acaps.len() == 0,
        origin.pc == 0,
        th0.pc == 2,
        th0.cstack == seq![seq![0int]],
        th0.caps.len() == 1,
        paths.len() > 0,
        0 <= i <= paths.len() - 1,
    ensures
        run_forks(
            prog,
            bound,
            origin,
            Seq::new(
                (paths.len() - 1) as nat,
                |k: int| predicate_fork(prog.names, th0, paths, acaps, paths.len() - 1 - k),
            ),
            i,
        ).0 == Seq::new(i as nat, |j: int| captured_out(paths[paths.len() - i + j])),
    decreases i,
{
    let n = paths.len() as int;
    let forks = Seq::new(
        (n - 1) as nat,
        |k: int| predicate_fork(prog.names, th0, paths, acaps, n - 1 - k),
    );
    if i == 0 {
        assert(run_forks(prog, bound, origin, forks, 0).0 =~= Seq::<OutModel>::empty());
        assert(Seq::new(0, |j: int| captured_out(paths[n + j])) =~= Seq::<OutModel>::empty());
    } else {
        let f = forks[i - 1];
        assert(f.pc == 2);
        assert(f.caps =~= seq![Seq::<PathModel>::empty()]);
        assert(fork_ok(prog.code.len() as int, origin, f));
        lemma_capture_end(prog, bound, f);
        let a = run_all(prog, bound, f);
        lemma_capture_forks(prog, bound, origin, th0, paths, acaps, i - 1);
        let b = run_forks(prog, bound, origin, forks, i - 1);
        assert(run_forks(prog, bound, origin, forks, i).0 == a.0 + b.0);
        assert(f.path == paths[n - i]);
        assert(a.0 + b.0 =~= Seq::new(i as nat, |j: int| captured_out(paths[n - i + j])));
    }
}

/// Outputs each capturing their own path under `name` collect to the paths,
/// all captured under `name`.
proof fn lemma_collect_captured(name: Seq<char>, paths: Seq<PathModel>, i: int)
    requires
        0 <= i <= paths.len(),
    ensures
        ({
            let outs = Seq::new(paths.len(), |j: int| captured_out(paths[j]));
            let r = collect_outs_upto(seq![name], outs, i);
            &&& r.0 == paths.subrange(0, i)
            &&& r.1 == (if i > 0 {
                seq![(name, paths.subrange(0, i))]
            } else {
                Seq::empty()
            })
        }),
    decreases i,
{
    let outs = Seq::new(paths.len(), |j: int| captured_out(paths[j]));
    if i == 0 {
        assert(paths.subrange(0, 0) =~= Seq::<PathModel>::empty());
    } else {
        lemma_collect_captured(name, paths, i - 1);
        let prev = collect_outs_upto(seq![name], outs, i - 1);
        let o = outs[i - 1];
        assert(o.1 == seq![seq![paths[i - 1]]]);
        let oc = out_captures(seq![name], o.1, 1);
        assert(out_captures(seq![name], o.1, 0) == Seq::<(Seq<char>, Seq<PathModel>)>::empty());
        assert(oc =~= seq![(name, seq![paths[i - 1]])]);
        let extra = oc;
        assert(extra.drop_last() =~= Seq::<(Seq<char>, Seq<PathModel>)>::empty());
        assert(caps_merge(prev.1, extra.drop_last()) == prev.1);
        assert(caps_merge(prev.1, extra) == caps_append(prev.1, name, seq![paths[i - 1]]));
        assert(paths.subrange(0, i) =~= paths.subrange(0, i - 1).push(paths[i - 1]));
        if i - 1 > 0 {
            assert(prev.1[0].0 == name);
            assert(caps_append(prev.1, name, seq![paths[i - 1]]) =~= seq![
                (name, paths.subrange(0, i - 1) + seq![paths[i - 1]]),
            ]);
            assert(paths.subrange(0, i - 1) + seq![paths[i - 1]] =~= paths.subrange(0, i));
        } else {
            assert(caps_append(prev.1, name, seq![paths[i - 1]]) =~= seq![
                (name, seq![paths[i - 1]]),
            ]);
            assert(paths.subrange(0, 1) =~= seq![paths[0]]);
        }
    }
}

/// A capture of a pattern that is tested in one step and captures nothing
/// itself yields the pattern's paths, in order, and captures all of them
/// under its name (nothing when there are none).
pub proof fn law_capture_of_single_test(c: CapturePattern, env: EnvelopeModel)
    requires
        plain_test(*c.pattern),
    ensures
        pattern_results(Pattern::Meta(MetaPattern::Capture(c)), env).0 == pattern_results(
            *c.pattern,
            env,
        ).0,
        pattern_results(Pattern::Meta(MetaPattern::Capture(c)), env).1 == (if pattern_results(
            *c.pattern,
            env,
        ).0.len() > 0 {
            seq![(c.name@, pattern_results(*c.pattern, env).0)]
        } else {
            Seq::empty()
        }),
{
    let q = *c.pattern;
    let p = Pattern::Meta(MetaPattern::Capture(c));
    lemma_capture_program(c);
    law_atomic_patterns_match_directly(q, env);
    lemma_plain_test_captures_nothing(q, env);
    let prog = compile_program(p);
    let bound = crate::pattern::pattern_size(p);
    let th = initial_thread(prog, env);
    let th1 = ThreadModel {
        pc: 1,
        cstack: th.cstack.update(0, th.cstack[0].push(0)),
        ..th
    };
    assert(th1.cstack =~= seq![seq![0int]]);
    assert(th.caps =~= seq![Seq::<PathModel>::empty()]);
    assert(thread_steps(prog, bound, th) == thread_steps(prog, bound, th1));
    let r = atomic_results(q, env);
    let paths = r.0;
    let n = paths.len() as int;
    assert(prog.lits[0] == q);
    let st = thread_steps(prog, bound, th);
    let outs = run_all(prog, bound, th).0;
    let expected = Seq::new(paths.len(), |j: int| captured_out(paths[j]));
    if n == 0 {
        assert(st.forks.len() == 0);
        assert(run_forks(prog, bound, th, st.forks, 0).0 =~= Seq::<OutModel>::empty());
        assert(outs =~= Seq::<OutModel>::empty());
        assert(collect_outs(prog.names, outs).0 =~= Seq::<PathModel>::empty());
        assert(paths =~= Seq::<PathModel>::empty());
    } else {
        let th0 = predicate_first(prog.names, th1, paths, r.1);
        assert(th0.caps == th1.caps);
        assert(th0.pc == 2);
        let forks = Seq::new(
            (n - 1) as nat,
            |k: int| predicate_fork(prog.names, th0, paths, r.1, n - 1 - k),
        );
        lemma_capture_end(prog, bound, th0);
        if paths[0].len() == 1 && paths[0][0] == env {
            assert(paths[0] =~= seq![env]);
        }
        assert(th0.path == paths[0]);
        assert(st.forks =~= forks);
        assert(st.outs == seq![captured_out(paths[0])]);
        lemma_capture_forks(prog, bound, th, th0, paths, r.1, n - 1);
        let rf = run_forks(prog, bound, th, forks, n - 1);
        assert(outs == st.outs + rf.0);
        assert(outs =~= expected);
        lemma_collect_captured(c.name@, paths, n);
        assert(paths.subrange(0, n) =~= paths);
    }
}

} // verus!
