//! What repetitions match, and where they can end.
use vstd::prelude::*;

use crate::envelope::EnvelopeModel;
use crate::laws::lemma_collect_outs_paths;
use crate::pattern::{pattern_size, GroupPattern, MetaPattern, Pattern};
use crate::interval::interval_contains;
use crate::quantifier::{Quantifier, Reluctance};
use crate::semantics::{
    compile_program, initial_thread, pattern_matches, pattern_results, repeat_results,
    extend_by_subpaths, repeat_states, repeat_step, run_all, states_down, states_up,
    run_forks, thread_steps, try_repeats, InstrModel, OutModel, ThreadModel,
};

verus! {

/// The states after each round are never empty: a round that finds nothing
/// ends the repetition.
proof fn lemma_states_nonempty(
    pat: Pattern,
    env: EnvelopeModel,
    states: Seq<Seq<(EnvelopeModel, Seq<EnvelopeModel>)>>,
    k: int,
    limit: int,
)
    requires
        states.len() > 0,
        forall|i: int| 0 <= i < states.len() ==> (#[trigger] states[i]).len() > 0,
    ensures
        repeat_states(pat, env, states, k, limit).len() > 0,
        forall|i: int|
            0 <= i < repeat_states(pat, env, states, k, limit).len() ==> (
            #[trigger] repeat_states(pat, env, states, k, limit)[i]).len() > 0,
    decreases limit - k,
{
    if k < limit {
        let next = repeat_step(pat, env, states.last(), 0);
        if next.len() > 0 {
            let s2 = states.push(next);
            assert forall|i: int| 0 <= i < s2.len() implies (#[trigger] s2[i]).len() > 0 by {
                if i < states.len() {
                    assert(s2[i] == states[i]);
                }
            }
            lemma_states_nonempty(pat, env, s2, k + 1, limit);
        }
    }
}

/// A repetition allowing zero rounds can always end where it started.
proof fn lemma_zero_rounds(pat: Pattern, env: EnvelopeModel, path: Seq<EnvelopeModel>, q: Quantifier)
    requires
        q@.0.0 == 0,
    ensures
        repeat_results(pat, env, path, q).len() > 0,
        q@.1 == Reluctance::Lazy ==> repeat_results(pat, env, path, q)[0] == (env, path),
{
    let limit: int = match q@.0.1 {
        Some(m) => m as int,
        None => usize::MAX as int,
    };
    let init = seq![seq![(env, path)]];
    assert forall|i: int| 0 <= i < init.len() implies (#[trigger] init[i]).len() > 0 by {}
    lemma_states_nonempty(pat, env, init, 0, limit);
}

/// A repetition whose quantifier allows zero rounds matches every element;
/// a lazy one (`*?`, `??`, `{0,n}?`) matches it with the one path `[env]`,
/// the path of zero rounds, and stops there.
pub proof fn law_repetition_allowing_zero_matches_everything(g: GroupPattern, env: EnvelopeModel)
    requires
        g.quantifier@.0.0 == 0,
    ensures
        pattern_matches(Pattern::Meta(MetaPattern::Group(g)), env),
        g.quantifier@.1 == Reluctance::Lazy ==> pattern_results(
            Pattern::Meta(MetaPattern::Group(g)),
            env,
        ).0 == seq![seq![env]],
{
    let p = Pattern::Meta(MetaPattern::Group(g));
    let prog = compile_program(p);
    assert(prog.code =~= seq![
        InstrModel::Repeat { pat_idx: 0, quantifier: g.quantifier },
        InstrModel::Accept,
    ]);
    assert(prog.lits =~= seq![*g.pattern]);
    let bound = pattern_size(p);
    let th = initial_thread(prog, env);
    let results = repeat_results(*g.pattern, env, th.path, g.quantifier);
    lemma_zero_rounds(*g.pattern, env, th.path, g.quantifier);
    let f = ThreadModel { pc: 1, env: results[0].0, path: results[0].1, ..th };
    let a = run_all(prog, bound, f);
    let fs = thread_steps(prog, bound, f);
    assert(fs.outs == seq![(f.path, f.caps)]);
    assert(run_forks(prog, bound, f, fs.forks, 0).0 =~= Seq::<OutModel>::empty());
    assert(a.0 =~= seq![(f.path, f.caps)]);
    assert(try_repeats(prog, bound, th, results, 0) == (a.0, true));
    let st = thread_steps(prog, bound, th);
    assert(st.outs == a.0);
    assert(st.forks.len() == 0);
    assert(run_forks(prog, bound, th, st.forks, 0).0 =~= Seq::<OutModel>::empty());
    let outs = run_all(prog, bound, th).0;
    assert(outs =~= a.0);
    lemma_collect_outs_paths(prog.names, outs);
    assert(crate::laws::out_paths(outs) =~= seq![f.path]);
}

// ---------------------------------------------------------------------------
// The outcomes of a repetition
// ---------------------------------------------------------------------------

/// An outcome after one or more rounds: its path extends `path` by at least
/// one element and ends at the outcome's element.
pub open spec fn after_rounds(item: (EnvelopeModel, Seq<EnvelopeModel>), path: Seq<EnvelopeModel>) -> bool {
    &&& item.1.len() > path.len()
    &&& item.1.subrange(0, path.len() as int) == path
    &&& item.1.last() == item.0
}

/// Every item of `items` is an outcome after one or more rounds.
pub open spec fn all_after_rounds(items: Seq<(EnvelopeModel, Seq<EnvelopeModel>)>, path: Seq<EnvelopeModel>) -> bool {
    forall|k: int| 0 <= k < items.len() ==> after_rounds(#[trigger] items[k], path)
}

/// Every item's path begins with `path`.
pub open spec fn all_start_with(items: Seq<(EnvelopeModel, Seq<EnvelopeModel>)>, path: Seq<EnvelopeModel>) -> bool {
    forall|k: int|
        0 <= k < items.len() ==> (#[trigger] items[k]).1.len() >= path.len() && items[k].1.subrange(
            0,
            path.len() as int,
        ) == path
}

proof fn lemma_all_after_rounds_concat(
    a: Seq<(EnvelopeModel, Seq<EnvelopeModel>)>,
    b: Seq<(EnvelopeModel, Seq<EnvelopeModel>)>,
    path: Seq<EnvelopeModel>,
)
    requires
        all_after_rounds(a, path),
        all_after_rounds(b, path),
    ensures
        all_after_rounds(a + b, path),
{
    assert forall|k: int| 0 <= k < (a + b).len() implies after_rounds(#[trigger] (a + b)[k], path) by {
        if k < a.len() {
            assert((a + b)[k] == a[k]);
        } else {
            assert((a + b)[k] == b[k - a.len()]);
        }
    }
}

proof fn lemma_extend_by_subpaths(
    e: EnvelopeModel,
    pth: Seq<EnvelopeModel>,
    subs: Seq<Seq<EnvelopeModel>>,
    j: int,
    path: Seq<EnvelopeModel>,
)
    requires
        0 <= j,
        pth.len() >= path.len(),
        pth.subrange(0, path.len() as int) == path,
    ensures
        all_after_rounds(extend_by_subpaths(e, pth, subs, j), path),
    decreases subs.len() - j,
{
    if j < subs.len() {
        lemma_extend_by_subpaths(e, pth, subs, j + 1, path);
        let sub = subs[j];
        let rest = extend_by_subpaths(e, pth, subs, j + 1);
        if !(sub.len() == 0 || sub.last().digest() == e.digest()) {
            let combined = if sub[0] == e {
                pth + sub.skip(1)
            } else {
                pth + sub
            };
            if sub[0] == e {
                assert(sub.len() >= 2);
            }
            assert(combined.last() == sub.last());
            assert(combined.subrange(0, path.len() as int) =~= pth.subrange(0, path.len() as int));
            let one = seq![(sub.last(), combined)];
            assert(all_after_rounds(one, path));
            lemma_all_after_rounds_concat(one, rest, path);
        }
    }
}

proof fn lemma_repeat_step(
    pat: Pattern,
    env: EnvelopeModel,
    last: Seq<(EnvelopeModel, Seq<EnvelopeModel>)>,
    i: int,
    path: Seq<EnvelopeModel>,
)
    requires
        0 <= i,
        all_start_with(last, path),
    ensures
        all_after_rounds(repeat_step(pat, env, last, i), path),
    decreases last.len() - i,
{
    if i < last.len() {
        lemma_repeat_step(pat, env, last, i + 1, path);
        let e = last[i].0;
        let subs = pattern_results(pat, e).0;
        lemma_extend_by_subpaths(e, last[i].1, subs, 0, path);
        lemma_all_after_rounds_concat(
            extend_by_subpaths(e, last[i].1, subs, 0),
            repeat_step(pat, env, last, i + 1),
            path,
        );
    }
}

/// The states of a repetition: no rounds first, then the outcomes after each
/// further round.
pub open spec fn states_shape(
    states: Seq<Seq<(EnvelopeModel, Seq<EnvelopeModel>)>>,
    env: EnvelopeModel,
    path: Seq<EnvelopeModel>,
) -> bool {
    &&& states.len() > 0
    &&& states[0] == seq![(env, path)]
    &&& forall|m: int| 1 <= m < states.len() ==> all_after_rounds(#[trigger] states[m], path)
}

proof fn lemma_repeat_states_shape(
    pat: Pattern,
    env: EnvelopeModel,
    states: Seq<Seq<(EnvelopeModel, Seq<EnvelopeModel>)>>,
    k: int,
    limit: int,
    path: Seq<EnvelopeModel>,
)
    requires
        states_shape(states, env, path),
    ensures
        states_shape(repeat_states(pat, env, states, k, limit), env, path),
    decreases limit - k,
{
    if k < limit {
        let last = states.last();
        if states.len() == 1 {
            assert(all_start_with(last, path)) by {
                assert(last == seq![(env, path)]);
                assert(path.subrange(0, path.len() as int) =~= path);
            }
        } else {
            assert(all_after_rounds(states[states.len() - 1], path));
            assert(all_start_with(last, path));
        }
        let next = repeat_step(pat, env, last, 0);
        lemma_repeat_step(pat, env, last, 0, path);
        if next.len() > 0 {
            let s2 = states.push(next);
            assert forall|m: int| 1 <= m < s2.len() implies all_after_rounds(#[trigger] s2[m], path) by {
                if m < states.len() {
                    assert(s2[m] == states[m]);
                }
            }
            lemma_repeat_states_shape(pat, env, s2, k + 1, limit, path);
        }
    }
}

proof fn lemma_states_up(
    states: Seq<Seq<(EnvelopeModel, Seq<EnvelopeModel>)>>,
    env: EnvelopeModel,
    path: Seq<EnvelopeModel>,
    lo: int,
    hi: int,
)
    requires
        states_shape(states, env, path),
        lo >= 1,
    ensures
        all_after_rounds(states_up(states, lo, hi), path),
        all_after_rounds(states_down(states, lo, hi), path),
    decreases hi - lo + 1,
{
    if lo <= hi {
        lemma_states_up(states, env, path, lo + 1, hi);
        lemma_states_up(states, env, path, lo, hi - 1);
        let here_lo = if 0 <= lo < states.len() {
            states[lo]
        } else {
            Seq::empty()
        };
        let here_hi = if 0 <= hi < states.len() {
            states[hi]
        } else {
            Seq::empty()
        };
        assert(all_after_rounds(here_lo, path));
        assert(all_after_rounds(here_hi, path));
        lemma_all_after_rounds_concat(here_lo, states_up(states, lo + 1, hi), path);
        lemma_all_after_rounds_concat(here_hi, states_down(states, lo, hi - 1), path);
    }
}

/// Where a repetition ends: every outcome's path begins with the starting
/// path; the outcome of zero rounds, `(env, path)`, comes at most once and
/// only when the quantifier allows zero; every other outcome extends the
/// path by at least one element and ends at its element.
pub proof fn law_repetition_outcomes_extend_the_path(
    pat: Pattern,
    env: EnvelopeModel,
    path: Seq<EnvelopeModel>,
    q: Quantifier,
)
    ensures
        forall|k: int|
            0 <= k < repeat_results(pat, env, path, q).len() ==> ({
                let item = #[trigger] repeat_results(pat, env, path, q)[k];
                after_rounds(item, path) || (item == (env, path) && q@.0.0 == 0)
            }),
        forall|k: int, m: int|
            0 <= k < m < repeat_results(pat, env, path, q).len() ==> !(
            #[trigger] repeat_results(pat, env, path, q)[k] == (env, path)
                && #[trigger] repeat_results(pat, env, path, q)[m] == (env, path)),
{
    let limit: int = match q@.0.1 {
        Some(m) => m as int,
        None => usize::MAX as int,
    };
    let init = seq![seq![(env, path)]];
    assert(states_shape(init, env, path));
    lemma_repeat_states_shape(pat, env, init, 0, limit, path);
    let states = repeat_states(pat, env, init, 0, limit);
    let min = q@.0.0 as int;
    let max_possible = states.len() - 1;
    let max_allowed = if limit < max_possible {
        limit
    } else {
        max_possible
    };
    let min_count = if min == 0 {
        1
    } else {
        min
    };
    let zero: Seq<(EnvelopeModel, Seq<EnvelopeModel>)> = if min == 0 {
        seq![(env, path)]
    } else {
        Seq::empty()
    };
    lemma_states_up(states, env, path, min_count, max_allowed);
    let r = repeat_results(pat, env, path, q);
    // No outcome after rounds is the outcome of zero rounds.
    assert forall|k: int| 0 <= k < r.len() implies ({
        let item = #[trigger] r[k];
        after_rounds(item, path) || (item == (env, path) && q@.0.0 == 0)
    }) by {
        if !(max_allowed < min && min > 0) && !(max_allowed < min_count) {
            match q@.1 {
                Reluctance::Greedy => {
                    let d = states_down(states, min_count, max_allowed);
                    if k < d.len() {
                        assert(r[k] == d[k]);
                    } else {
                        assert(r[k] == zero[k - d.len()]);
                    }
                },
                Reluctance::Lazy => {
                    let u = states_up(states, min_count, max_allowed);
                    if k < zero.len() {
                        assert(r[k] == zero[k]);
                    } else {
                        assert(r[k] == u[k - zero.len()]);
                    }
                },
                Reluctance::Possessive => {
                    assert(all_after_rounds(states[max_allowed], path));
                },
            }
        }
    }
    assert forall|k: int, m: int| 0 <= k < m < r.len() implies !(#[trigger] r[k] == (env, path)
        && #[trigger] r[m] == (env, path)) by {
        if r[k] == (env, path) && r[m] == (env, path) {
            if !(max_allowed < min && min > 0) && !(max_allowed < min_count) {
                match q@.1 {
                    Reluctance::Greedy => {
                        let d = states_down(states, min_count, max_allowed);
                        if k < d.len() {
                            assert(r[k] == d[k]);
                            assert(after_rounds(d[k], path));
                        } else {
                            assert(r[m] == zero[m - d.len()]);
                        }
                    },
                    Reluctance::Lazy => {
                        let u = states_up(states, min_count, max_allowed);
                        assert(r[m] == u[m - zero.len()]);
                        assert(after_rounds(u[m - zero.len()], path));
                    },
                    Reluctance::Possessive => {
                        assert(all_after_rounds(states[max_allowed], path));
                        assert(after_rounds(r[k], path));
                    },
                }
            }
        }
    }
}

/// The states reached from `start` after exactly `c` rounds of `pat`, each
/// round taking every state one match of `pat` further.
pub open spec fn rounds_from(
    pat: Pattern,
    env: EnvelopeModel,
    start: Seq<(EnvelopeModel, Seq<EnvelopeModel>)>,
    c: nat,
) -> Seq<(EnvelopeModel, Seq<EnvelopeModel>)>
    decreases c,
{
    if c == 0 {
        start
    } else {
        repeat_step(pat, env, rounds_from(pat, env, start, (c - 1) as nat), 0)
    }
}

proof fn lemma_states_are_rounds(
    pat: Pattern,
    env: EnvelopeModel,
    states: Seq<Seq<(EnvelopeModel, Seq<EnvelopeModel>)>>,
    k: int,
    limit: int,
    start: Seq<(EnvelopeModel, Seq<EnvelopeModel>)>,
)
    requires
        0 <= k <= limit,
        states.len() == k + 1,
        forall|i: int| 0 <= i < states.len() ==> #[trigger] states[i] == rounds_from(pat, env, start, i as nat),
    ensures
        repeat_states(pat, env, states, k, limit).len() <= limit + 1,
        forall|i: int|
            0 <= i < repeat_states(pat, env, states, k, limit).len() ==> #[trigger] repeat_states(
                pat,
                env,
                states,
                k,
                limit,
            )[i] == rounds_from(pat, env, start, i as nat),
    decreases limit - k,
{
    if k < limit {
        let next = repeat_step(pat, env, states.last(), 0);
        assert(states.last() == rounds_from(pat, env, start, k as nat));
        assert(next == rounds_from(pat, env, start, (k + 1) as nat));
        if next.len() > 0 {
            let s2 = states.push(next);
            assert forall|i: int| 0 <= i < s2.len() implies #[trigger] s2[i] == rounds_from(
                pat,
                env,
                start,
                i as nat,
            ) by {
                if i < states.len() {
                    assert(s2[i] == states[i]);
                }
            }
            lemma_states_are_rounds(pat, env, s2, k + 1, limit, start);
        }
    }
}

/// Whether `item` is among `states[lo..=hi]`.
pub open spec fn among_states(
    states: Seq<Seq<(EnvelopeModel, Seq<EnvelopeModel>)>>,
    lo: int,
    hi: int,
    item: (EnvelopeModel, Seq<EnvelopeModel>),
) -> bool {
    exists|c: int, i: int|
        #![trigger states[c][i]]
        lo <= c <= hi && 0 <= c < states.len() && 0 <= i < states[c].len() && states[c][i] == item
}

proof fn lemma_from_states(
    states: Seq<Seq<(EnvelopeModel, Seq<EnvelopeModel>)>>,
    lo: int,
    hi: int,
)
    ensures
        forall|j: int|
            0 <= j < states_down(states, lo, hi).len() ==> among_states(
                states,
                lo,
                hi,
                #[trigger] states_down(states, lo, hi)[j],
            ),
        forall|j: int|
            0 <= j < states_up(states, lo, hi).len() ==> among_states(
                states,
                lo,
                hi,
                #[trigger] states_up(states, lo, hi)[j],
            ),
    decreases hi - lo + 1,
{
    if lo <= hi {
        lemma_from_states(states, lo + 1, hi);
        lemma_from_states(states, lo, hi - 1);
        let here_lo = if 0 <= lo < states.len() {
            states[lo]
        } else {
            Seq::empty()
        };
        let here_hi = if 0 <= hi < states.len() {
            states[hi]
        } else {
            Seq::empty()
        };
        let d = states_down(states, lo, hi);
        let dr = states_down(states, lo, hi - 1);
        assert(d == here_hi + dr);
        assert forall|j: int| 0 <= j < d.len() implies among_states(states, lo, hi, #[trigger] d[j]) by {
            if j < here_hi.len() {
                assert(states[hi][j] == d[j]);
            } else {
                assert(d[j] == dr[j - here_hi.len()]);
                let (c, i) = choose|c: int, i: int|
                    #![trigger states[c][i]]
                    lo <= c <= hi - 1 && 0 <= c < states.len() && 0 <= i < states[c].len()
                        && states[c][i] == dr[j - here_hi.len()];
                assert(states[c][i] == d[j]);
            }
        }
        let u = states_up(states, lo, hi);
        let ur = states_up(states, lo + 1, hi);
        assert(u == here_lo + ur);
        assert forall|j: int| 0 <= j < u.len() implies among_states(states, lo, hi, #[trigger] u[j]) by {
            if j < here_lo.len() {
                assert(states[lo][j] == u[j]);
            } else {
                assert(u[j] == ur[j - here_lo.len()]);
                let (c, i) = choose|c: int, i: int|
                    #![trigger states[c][i]]
                    lo + 1 <= c <= hi && 0 <= c < states.len() && 0 <= i < states[c].len()
                        && states[c][i] == ur[j - here_lo.len()];
                assert(states[c][i] == u[j]);
            }
        }
    }
}

/// A repetition ends only where some number of rounds of its pattern that
/// the quantifier allows leads: every outcome is reached from the start in
/// `c` rounds for a count `c` within the quantifier's interval, so never in
/// more rounds than its maximum, nor in fewer than its minimum.
pub proof fn law_repetition_rounds_stay_within_the_quantifier(
    pat: Pattern,
    env: EnvelopeModel,
    path: Seq<EnvelopeModel>,
    q: Quantifier,
)
    ensures
        forall|k: int|
            #![trigger repeat_results(pat, env, path, q)[k]]
            0 <= k < repeat_results(pat, env, path, q).len() ==> exists|c: nat|
                #![trigger rounds_from(pat, env, seq![(env, path)], c)]
                interval_contains(q@.0, c as int) && rounds_from(
                    pat,
                    env,
                    seq![(env, path)],
                    c,
                ).contains(repeat_results(pat, env, path, q)[k]),
{
    let bound: int = match q@.0.1 {
        Some(m) => m as int,
        None => usize::MAX as int,
    };
    let start = seq![(env, path)];
    let init = seq![start];
    assert forall|i: int| 0 <= i < init.len() implies #[trigger] init[i] == rounds_from(
        pat,
        env,
        start,
        i as nat,
    ) by {}
    lemma_states_are_rounds(pat, env, init, 0, bound, start);
    let states = repeat_states(pat, env, init, 0, bound);
    let r = repeat_results(pat, env, path, q);
    let min = q@.0.0 as int;
    let max_possible = states.len() - 1;
    let max_allowed = if bound < max_possible {
        bound
    } else {
        max_possible
    };
    let min_count = if min == 0 {
        1
    } else {
        min
    };
    lemma_from_states(states, min_count, max_allowed);
    assert forall|k: int| #![trigger r[k]] 0 <= k < r.len() implies exists|c: nat|
        #![trigger rounds_from(pat, env, start, c)]
        interval_contains(q@.0, c as int) && rounds_from(pat, env, start, c).contains(r[k]) by {
        let zero_case = r[k] == (env, path) && min == 0;
        if zero_case {
            assert(rounds_from(pat, env, start, 0)[0] == r[k]);
            assert(interval_contains(q@.0, 0));
            assert(rounds_from(pat, env, start, 0).contains(r[k]));
        } else {
            let item = r[k];
            let found: bool = match q@.1 {
                Reluctance::Greedy => {
                    let d = states_down(states, min_count, max_allowed);
                    if k < d.len() {
                        assert(r[k] == d[k]);
                    }
                    true
                },
                Reluctance::Lazy => {
                    let u = states_up(states, min_count, max_allowed);
                    if min == 0 {
                        assert(r[k] == u[k - 1]);
                    } else {
                        assert(r[k] == u[k]);
                    }
                    true
                },
                Reluctance::Possessive => {
                    assert(states[max_allowed][k] == item);
                    true
                },
            };
            assert(among_states(states, min_count, max_allowed, item));
            let (c, i) = choose|c: int, i: int|
                #![trigger states[c][i]]
                min_count <= c <= max_allowed && 0 <= c < states.len() && 0 <= i < states[c].len()
                    && states[c][i] == item;
            assert(states[c] == rounds_from(pat, env, start, c as nat));
            assert(rounds_from(pat, env, start, c as nat)[i] == item);
            assert(interval_contains(q@.0, c));
        }
    }
}

} // verus!
