//! Properties of a run of the machine: it reports that it produced a path
//! whenever it emitted one, and what it captures is keyed by declared names.
use vstd::prelude::*;

use crate::envelope::EnvelopeModel;
use crate::engine::run_results;
use crate::pattern::Pattern;
use crate::searching::lemma_search_emit;
use crate::semantics::{
    atomic_results, capture_end_thread, fork_ok, last_or, pattern_results, predicate_first,
    caps_insert, out_captures, run_all, run_forks, structure_results, thread_steps, try_repeats,
    CapsModel, InstrModel, PathModel, ProgModel, ThreadModel,
};

verus! {

proof fn lemma_steps_produced(prog: ProgModel, bound: nat, th: ThreadModel)
    ensures
        thread_steps(prog, bound, th).outs.len() > 0 ==> thread_steps(prog, bound, th).produced,
    decreases bound, 0int, prog.code.len() - th.pc, th.env, 2int, 0int,
{
    let code = prog.code;
    let lits = prog.lits;
    if 0 <= th.pc < code.len() {
        let next = ThreadModel { pc: th.pc + 1, ..th };
        match code[th.pc] {
            InstrModel::MatchPredicate(idx) => {
                if !(idx >= lits.len() || crate::pattern::pattern_size(lits[idx as int]) > bound) {
                    let r = atomic_results(lits[idx as int], th.env);
                    if r.0.len() > 0 {
                        lemma_steps_produced(prog, bound, predicate_first(prog.names, th, r.0, r.1));
                    }
                }
            },
            InstrModel::MatchStructure(idx) => {
                if !(idx >= lits.len() || crate::pattern::pattern_size(lits[idx as int]) > bound) {
                    if let Pattern::Structure(sp) = lits[idx as int] {
                        let sps = structure_results(sp, th.env);
                        if sps.len() > 0 {
                            let th0 = ThreadModel { path: sps[0], env: last_or(sps[0], th.env), ..next };
                            lemma_steps_produced(prog, bound, th0);
                        }
                    }
                }
            },
            InstrModel::Split { a, b } => {
                if th.pc < a < code.len() && th.pc < b < code.len() {
                    lemma_steps_produced(prog, bound, ThreadModel { pc: b as int, ..th });
                }
            },
            InstrModel::Jump(t) => {
                if th.pc < t < code.len() {
                    lemma_steps_produced(prog, bound, ThreadModel { pc: t as int, ..th });
                }
            },
            InstrModel::Pop => {
                lemma_steps_produced(
                    prog,
                    bound,
                    ThreadModel {
                        path: if th.path.len() > 0 {
                            th.path.drop_last()
                        } else {
                            th.path
                        },
                        ..next
                    },
                );
            },
            InstrModel::Save => {},
            InstrModel::Search { pat_idx, capture_map } => {
                if !(pat_idx >= lits.len() || crate::pattern::pattern_size(lits[pat_idx as int]) >= bound) {
                    let r = pattern_results(lits[pat_idx as int], th.env);
                    lemma_search_emit(th, r.0, r.1, capture_map, 0, th.seen);
                }
            },
            InstrModel::ExtendTraversal => {
                if th.path.len() > 0 {
                    lemma_steps_produced(
                        prog,
                        bound,
                        ThreadModel {
                            saved: th.saved.push(th.path),
                            env: th.path.last(),
                            path: seq![th.path.last()],
                            ..next
                        },
                    );
                } else {
                    lemma_steps_produced(prog, bound, next);
                }
            },
            InstrModel::CombineTraversal => {
                if th.saved.len() > 0 {
                    let sp = th.saved.last();
                    let combined = if sp.len() > 0 && th.path.len() > 0 && sp.last() == th.path[0] {
                        sp + th.path.skip(1)
                    } else {
                        sp + th.path
                    };
                    lemma_steps_produced(
                        prog,
                        bound,
                        ThreadModel { saved: th.saved.drop_last(), path: combined, ..next },
                    );
                } else {
                    lemma_steps_produced(prog, bound, next);
                }
            },
            InstrModel::NavigateSubject => {
                if th.env.is_node() {
                    lemma_steps_produced(
                        prog,
                        bound,
                        ThreadModel {
                            env: th.env.subject(),
                            path: th.path.push(th.env.subject()),
                            ..next
                        },
                    );
                } else {
                    lemma_steps_produced(prog, bound, next);
                }
            },
            InstrModel::NotMatch { pat_idx } => {
                if !(pat_idx >= lits.len() || crate::pattern::pattern_size(lits[pat_idx as int]) >= bound) {
                    if !(pattern_results(lits[pat_idx as int], th.env).0.len() > 0) {
                        lemma_steps_produced(prog, bound, next);
                    }
                }
            },
            InstrModel::Repeat { pat_idx, quantifier } => {
                if !(pat_idx >= lits.len() || crate::pattern::pattern_size(lits[pat_idx as int]) >= bound) {
                    let results = crate::semantics::repeat_results(
                        lits[pat_idx as int],
                        th.env,
                        th.path,
                        quantifier,
                    );
                    if results.len() > 0 {
                        lemma_repeats_produced(prog, bound, th, results, 0);
                    }
                }
            },
            InstrModel::CaptureStart(id) => {
                let start = if th.path.len() > 0 {
                    th.path.len() - 1
                } else {
                    0
                };
                lemma_steps_produced(
                    prog,
                    bound,
                    if (id as int) < th.cstack.len() {
                        ThreadModel {
                            cstack: th.cstack.update(id as int, th.cstack[id as int].push(start)),
                            ..next
                        }
                    } else {
                        next
                    },
                );
            },
            InstrModel::CaptureEnd(id) => {
                lemma_steps_produced(prog, bound, capture_end_thread(code, th, id as int));
            },
            _ => {},
        }
    }
}

proof fn lemma_repeats_produced(
    prog: ProgModel,
    bound: nat,
    th: ThreadModel,
    results: Seq<(EnvelopeModel, PathModel)>,
    i: int,
)
    ensures
        try_repeats(prog, bound, th, results, i).0.len() > 0 ==> try_repeats(
            prog,
            bound,
            th,
            results,
            i,
        ).1,
    decreases bound, 0int, prog.code.len() - th.pc, th.env, 1int, results.len() - i,
{
    if !(i < 0 || i >= results.len() || th.pc + 1 > prog.code.len()) {
        let f = ThreadModel { pc: th.pc + 1, env: results[i].0, path: results[i].1, ..th };
        law_run_reports_what_it_emits(prog, bound, f);
        lemma_repeats_produced(prog, bound, th, results, i + 1);
    }
}

proof fn lemma_forks_produced(
    prog: ProgModel,
    bound: nat,
    origin: ThreadModel,
    forks: Seq<ThreadModel>,
    i: int,
)
    ensures
        run_forks(prog, bound, origin, forks, i).0.len() > 0 ==> run_forks(
            prog,
            bound,
            origin,
            forks,
            i,
        ).1,
    decreases bound, 0int, prog.code.len() - origin.pc, origin.env, 2int, i,
{
    if !(i <= 0 || i > forks.len()) {
        let f = forks[i - 1];
        if fork_ok(prog.code.len() as int, origin, f) {
            law_run_reports_what_it_emits(prog, bound, f);
        }
        lemma_forks_produced(prog, bound, origin, forks, i - 1);
    }
}

/// Whenever running a thread emits a path, the run reports that it produced
/// one.
pub proof fn law_run_reports_what_it_emits(prog: ProgModel, bound: nat, th: ThreadModel)
    ensures
        run_all(prog, bound, th).0.len() > 0 ==> run_all(prog, bound, th).1,
    decreases bound, 0int, prog.code.len() - th.pc, th.env, 3int, 0int,
{
    let st = thread_steps(prog, bound, th);
    lemma_steps_produced(prog, bound, th);
    lemma_forks_produced(prog, bound, th, st.forks, st.forks.len() as int);
}

/// Every capture entry is named by one of `names` and holds at least one
/// path.
pub open spec fn entries_declared_nonempty(m: CapsModel, names: Seq<Seq<char>>) -> bool {
    forall|k: int| 0 <= k < m.len() ==> names.contains((#[trigger] m[k]).0) && m[k].1.len() > 0
}

proof fn lemma_out_captures_declared(names: Seq<Seq<char>>, caps: Seq<Seq<PathModel>>, i: int)
    ensures
        entries_declared_nonempty(out_captures(names, caps, i), names),
    decreases i,
{
    if !(i <= 0 || i > caps.len()) {
        lemma_out_captures_declared(names, caps, i - 1);
        let m = out_captures(names, caps, i - 1);
        if caps[i - 1].len() > 0 && i - 1 < names.len() {
            let name = names[i - 1];
            let r = caps_insert(m, name, caps[i - 1]);
            assert forall|k: int| 0 <= k < r.len() implies names.contains((#[trigger] r[k]).0)
                && r[k].1.len() > 0 by {
                if k < m.len() && r[k] != (name, caps[i - 1]) {
                    assert(r[k] == m[k]);
                }
            }
        }
    }
}

/// What a run captures for each path it emits is keyed only by the
/// program's declared capture names, and a name appears only with paths.
pub proof fn law_run_captures_are_declared_and_nonempty(prog: ProgModel, root: EnvelopeModel)
    ensures
        forall|i: int|
            0 <= i < run_results(prog, root).len() ==> entries_declared_nonempty(
                #[trigger] run_results(prog, root)[i].1,
                prog.names,
            ),
{
    let b = choose|b: nat| crate::compile::program_fits(prog, b);
    let outs = run_all(prog, b, crate::semantics::initial_thread(prog, root)).0;
    assert forall|i: int| 0 <= i < run_results(prog, root).len() implies entries_declared_nonempty(
        #[trigger] run_results(prog, root)[i].1,
        prog.names,
    ) by {
        lemma_out_captures_declared(prog.names, outs[i].1, outs[i].1.len() as int);
    }
}

} // verus!
