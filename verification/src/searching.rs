//! What a search matches.
use vstd::prelude::*;

use crate::engine::lemma_children_decrease;
use crate::envelope::EnvelopeModel;
use crate::laws::lemma_collect_outs_paths;
use crate::meta::{search_children, search_full_path, search_walk};
use crate::pattern::{pattern_size, MetaPattern, Pattern, SearchPattern};
use crate::semantics::{
    compile_program, fork_ok, initial_thread, pattern_matches, pattern_results, run_all,
    run_forks, search_emit, thread_steps, CapsModel, InstrModel, OutModel, PathModel, ProgModel,
    ThreadModel,
};

verus! {

/// Whether `q` matches `e` or some element below it.
pub open spec fn matches_within(q: Pattern, e: EnvelopeModel) -> bool
    decreases e, 1int, 0int,
{
    pattern_results(q, e).0.len() > 0 || children_within(q, e, 0)
}

/// Whether `q` matches within one of the elements directly below `parent`,
/// from the `i`-th on.
pub open spec fn children_within(q: Pattern, parent: EnvelopeModel, i: int) -> bool
    decreases parent, 0int, parent.children().len() - i,
{
    if i < 0 || i >= parent.children().len() {
        false
    } else {
        proof {
            lemma_children_decrease(parent);
        }
        matches_within(q, parent.children()[i]) || children_within(q, parent, i + 1)
    }
}

proof fn lemma_children_within(q: Pattern, parent: EnvelopeModel, i: int)
    requires
        0 <= i,
    ensures
        children_within(q, parent, i) <==> exists|j: int|
            i <= j < parent.children().len() && matches_within(q, #[trigger] parent.children()[j]),
    decreases parent.children().len() - i,
{
    if i < parent.children().len() {
        lemma_children_within(q, parent, i + 1);
        if exists|j: int|
            i <= j < parent.children().len() && matches_within(q, #[trigger] parent.children()[j]) {
            let j = choose|j: int|
                i <= j < parent.children().len() && matches_within(q, #[trigger] parent.children()[j]);
            if j > i {
                assert(children_within(q, parent, i + 1));
            }
        }
    }
}

/// The direct search finds a path exactly where the pattern matches within.
proof fn lemma_walk_finds(q: Pattern, e: EnvelopeModel, prefix: PathModel)
    ensures
        search_walk(q, e, prefix).len() > 0 <==> matches_within(q, e),
    decreases e, 1int, 0int,
{
    lemma_walk_children(q, e, prefix.push(e), 0);
}

proof fn lemma_walk_children(q: Pattern, parent: EnvelopeModel, np: PathModel, i: int)
    ensures
        search_children(q, parent, np, i).len() > 0 <==> children_within(q, parent, i),
    decreases parent, 0int, parent.children().len() - i,
{
    if 0 <= i < parent.children().len() {
        lemma_children_decrease(parent);
        lemma_walk_finds(q, parent.children()[i], np);
        lemma_walk_children(q, parent, np, i + 1);
    }
}

/// What a search step emits: something only if its pattern found a path;
/// something, or a path already seen, whenever it found one; and the seen
/// list grows by one entry per emitted path.
pub(crate) proof fn lemma_search_emit(
    th: ThreadModel,
    found: Seq<PathModel>,
    icaps: CapsModel,
    cmap: Seq<(Seq<char>, nat)>,
    k: int,
    seen: Seq<Seq<Seq<u8>>>,
)
    requires
        0 <= k,
    ensures
        ({
            let r = search_emit(th, found, icaps, cmap, k, seen);
            &&& r.0.len() > 0 ==> k < found.len()
            &&& k < found.len() ==> (r.0.len() > 0 || seen.len() > 0)
            &&& r.1.len() == seen.len() + r.0.len()
        }),
    decreases found.len() - k,
{
    if k < found.len() {
        let rp = crate::semantics::search_result_path(th, found[k]);
        let d = crate::semantics::path_digests(rp);
        if seen.contains(d) {
            lemma_search_emit(th, found, icaps, cmap, k + 1, seen);
        } else {
            lemma_search_emit(th, found, icaps, cmap, k + 1, seen.push(d));
        }
    }
}

/// The program of a search: its step, then `Accept`.
pub open spec fn search_program(prog: ProgModel, q: Pattern) -> bool {
    &&& prog.code.len() == 2
    &&& prog.code[0] matches InstrModel::Search { pat_idx, .. } && pat_idx == 0
    &&& prog.lits.len() == 1
    &&& prog.lits[0] == q
}

/// A search thread emits something only where the pattern matches within its
/// element, and emits something, or has already seen a path, wherever it does.
proof fn lemma_search_run(prog: ProgModel, q: Pattern, bound: nat, th: ThreadModel)
    requires
        search_program(prog, q),
        pattern_size(q) < bound,
        th.pc == 0,
    ensures
        run_all(prog, bound, th).0.len() > 0 ==> matches_within(q, th.env),
        matches_within(q, th.env) ==> (run_all(prog, bound, th).0.len() > 0 || th.seen.len() > 0),
    decreases th.env, 1int, 0int,
{
    let e = th.env;
    let st = thread_steps(prog, bound, th);
    let cmap = prog.code[0]->capture_map;
    let r = pattern_results(q, e);
    let em = search_emit(th, r.0, r.1, cmap, 0, th.seen);
    let ch = e.children();
    let n = ch.len() as int;
    let forks = Seq::new(
        ch.len(),
        |k: int| ThreadModel { env: ch[n - 1 - k], path: th.path.push(ch[n - 1 - k]), seen: em.1, ..th },
    );
    assert(st.outs == em.0);
    assert(st.forks == forks);
    lemma_search_emit(th, r.0, r.1, cmap, 0, th.seen);
    lemma_children_decrease(e);
    assert forall|k: int| 0 <= k < n implies (#[trigger] forks[k]).pc == 0 && decreases_to!(
        e => forks[k].env) by {
        assert(forks[k].env == ch[n - 1 - k]);
    }
    lemma_search_forks(prog, q, bound, th, forks, n);
    let outs = run_all(prog, bound, th).0;
    assert(outs == em.0 + run_forks(prog, bound, th, forks, n).0);
    lemma_children_within(q, e, 0);
    if outs.len() > 0 {
        if em.0.len() == 0 {
            let k = choose|k: int| 0 <= k < n && matches_within(q, #[trigger] forks[k].env);
            assert(ch[n - 1 - k] == forks[k].env);
        }
    }
    if matches_within(q, e) && r.0.len() == 0 {
        let j = choose|j: int| 0 <= j < n && matches_within(q, #[trigger] ch[j]);
        let k = n - 1 - j;
        assert(forks[k].env == ch[j]);
        lemma_search_run(prog, q, bound, forks[k]);
    }
}

/// The children's search threads, run from the last pushed.
proof fn lemma_search_forks(
    prog: ProgModel,
    q: Pattern,
    bound: nat,
    th: ThreadModel,
    forks: Seq<ThreadModel>,
    i: int,
)
    requires
        search_program(prog, q),
        pattern_size(q) < bound,
        th.pc == 0,
        0 <= i <= forks.len(),
        forall|k: int| 0 <= k < forks.len() ==> (#[trigger] forks[k]).pc == 0 && decreases_to!(
            th.env => forks[k].env),
    ensures
        run_forks(prog, bound, th, forks, i).0.len() > 0 ==> exists|k: int|
            0 <= k < i && matches_within(q, #[trigger] forks[k].env),
        forall|k: int|
            0 <= k < i && run_all(prog, bound, #[trigger] forks[k]).0.len() > 0 ==> run_forks(
                prog,
                bound,
                th,
                forks,
                i,
            ).0.len() > 0,
    decreases th.env, 0int, i,
{
    if i > 0 {
        let f = forks[i - 1];
        assert(f.pc == 0 && decreases_to!(th.env => f.env));
        assert(fork_ok(prog.code.len() as int, th, f));
        lemma_search_run(prog, q, bound, f);
        lemma_search_forks(prog, q, bound, th, forks, i - 1);
        let a = run_all(prog, bound, f).0;
        let b = run_forks(prog, bound, th, forks, i - 1).0;
        assert(run_forks(prog, bound, th, forks, i).0 == a + b);
        if a.len() > 0 {
            assert(matches_within(q, forks[i - 1].env));
        }
    } else {
        assert(run_forks(prog, bound, th, forks, 0).0 =~= Seq::<OutModel>::empty());
    }
}

/// A search matches an element exactly when its pattern matches the element
/// or some element below it; this is also exactly when the search's direct
/// matcher finds a path.
pub proof fn law_search_matches_within(q: Pattern, env: EnvelopeModel)
    ensures
        pattern_matches(Pattern::Meta(MetaPattern::Search(SearchPattern(Box::new(q)))), env)
            <==> matches_within(q, env),
        pattern_matches(Pattern::Meta(MetaPattern::Search(SearchPattern(Box::new(q)))), env)
            <==> search_walk(q, env, Seq::empty()).len() > 0,
{
    let p = Pattern::Meta(MetaPattern::Search(SearchPattern(Box::new(q))));
    let prog = compile_program(p);
    assert(prog.code.len() == 2);
    assert(prog.lits =~= seq![q]);
    let bound = pattern_size(p);
    let th = initial_thread(prog, env);
    lemma_search_run(prog, q, bound, th);
    lemma_collect_outs_paths(prog.names, run_all(prog, bound, th).0);
    lemma_walk_finds(q, env, Seq::empty());
}

/// Every path of the direct search of the tree under `e`, reached along
/// `prefix`, begins with `prefix` followed by `e`.
proof fn lemma_walk_paths_start(q: Pattern, e: EnvelopeModel, prefix: PathModel)
    ensures
        forall|k: int|
            0 <= k < search_walk(q, e, prefix).len() ==> (#[trigger] search_walk(q, e, prefix)[k]).len()
                > prefix.len() && search_walk(q, e, prefix)[k].subrange(0, prefix.len() as int + 1)
                == prefix.push(e),
    decreases e, 1int, 0int,
{
    let np = prefix.push(e);
    let pps = pattern_results(q, e).0;
    let here = Seq::new(pps.len(), |k: int| search_full_path(np, e, pps[k]));
    lemma_children_paths_start(q, e, np, 0);
    let below = search_children(q, e, np, 0);
    assert forall|k: int| 0 <= k < here.len() implies (#[trigger] here[k]).len() > prefix.len()
        && here[k].subrange(0, prefix.len() as int + 1) == np by {
        assert(here[k].subrange(0, prefix.len() as int + 1) =~= np);
    }
    let w = search_walk(q, e, prefix);
    assert(w == here + below);
    assert forall|k: int| 0 <= k < w.len() implies (#[trigger] w[k]).len() > prefix.len()
        && w[k].subrange(0, prefix.len() as int + 1) == np by {
        if k < here.len() {
            assert(w[k] == here[k]);
        } else {
            assert(w[k] == below[k - here.len()]);
        }
    }
}

proof fn lemma_children_paths_start(q: Pattern, parent: EnvelopeModel, np: PathModel, i: int)
    ensures
        forall|k: int|
            0 <= k < search_children(q, parent, np, i).len() ==> (#[trigger] search_children(
                q,
                parent,
                np,
                i,
            )[k]).len() > np.len() && search_children(q, parent, np, i)[k].subrange(
                0,
                np.len() as int,
            ) == np,
    decreases parent, 0int, parent.children().len() - i,
{
    if 0 <= i < parent.children().len() {
        lemma_children_decrease(parent);
        let c = parent.children()[i];
        lemma_walk_paths_start(q, c, np);
        lemma_children_paths_start(q, parent, np, i + 1);
        let a = search_walk(q, c, np);
        let b = search_children(q, parent, np, i + 1);
        let all = search_children(q, parent, np, i);
        assert(all == a + b);
        assert forall|k: int| 0 <= k < all.len() implies (#[trigger] all[k]).len() > np.len()
            && all[k].subrange(0, np.len() as int) == np by {
            if k < a.len() {
                assert(all[k] == a[k]);
                assert(a[k].subrange(0, np.len() as int + 1) == np.push(c));
                assert(a[k].subrange(0, np.len() as int) =~= np.push(c).subrange(0, np.len() as int));
                assert(np.push(c).subrange(0, np.len() as int) =~= np);
            } else {
                assert(all[k] == b[k - a.len()]);
            }
        }
    }
}

/// Every path the direct search finds starts at the element searched.
pub proof fn law_search_paths_start_at_the_root(q: Pattern, root: EnvelopeModel)
    ensures
        forall|k: int|
            0 <= k < search_walk(q, root, Seq::empty()).len() ==> (#[trigger] search_walk(
                q,
                root,
                Seq::empty(),
            )[k]).len() > 0 && search_walk(q, root, Seq::empty())[k][0] == root,
{
    lemma_walk_paths_start(q, root, Seq::empty());
    assert forall|k: int| 0 <= k < search_walk(q, root, Seq::empty()).len() implies (
    #[trigger] search_walk(q, root, Seq::empty())[k]).len() > 0 && search_walk(
        q,
        root,
        Seq::empty(),
    )[k][0] == root by {
        let p = search_walk(q, root, Seq::empty())[k];
        assert(p.subrange(0, 1) == Seq::<EnvelopeModel>::empty().push(root));
        assert(p.subrange(0, 1)[0] == p[0]);
    }
}

/// Whether `p` goes down the tree from `root`: it starts at `root`, and each
/// element after the first is directly below the one before it.
pub open spec fn descends_from(p: PathModel, root: EnvelopeModel) -> bool {
    &&& p.len() > 0
    &&& p[0] == root
    &&& forall|i: int| 0 <= i < p.len() - 1 ==> #[trigger] p[i].children().contains(p[i + 1])
}

/// Whether every path `q` finds on an element starts at that element.
pub open spec fn paths_start_where_found(q: Pattern) -> bool {
    forall|n: EnvelopeModel, k: int|
        0 <= k < pattern_results(q, n).0.len() ==> #[trigger] pattern_results(q, n).0[k].len() > 0
            && pattern_results(q, n).0[k][0] == n
}

/// Whether `p` is the way down from `root` to some element, continued by the
/// rest of a path that `q` finds on that element.
pub open spec fn reported_by_search(q: Pattern, root: EnvelopeModel, p: PathModel) -> bool {
    exists|down: PathModel, k: int|
        #![trigger pattern_results(q, down.last()).0[k], descends_from(down, root)]
        descends_from(down, root) && 0 <= k < pattern_results(q, down.last()).0.len() && p == down
            + pattern_results(q, down.last()).0[k].skip(1)
}

proof fn lemma_emit_paths(
    th: ThreadModel,
    found: Seq<PathModel>,
    icaps: CapsModel,
    cmap: Seq<(Seq<char>, nat)>,
    k: int,
    seen: Seq<Seq<Seq<u8>>>,
)
    requires
        0 <= k,
    ensures
        forall|j: int|
            0 <= j < search_emit(th, found, icaps, cmap, k, seen).0.len() ==> exists|m: int|
                k <= m < found.len() && (#[trigger] search_emit(th, found, icaps, cmap, k, seen).0[j]).0
                    == crate::semantics::search_result_path(th, found[m]),
    decreases found.len() - k,
{
    if k < found.len() {
        let rp = crate::semantics::search_result_path(th, found[k]);
        let d = crate::semantics::path_digests(rp);
        let r = search_emit(th, found, icaps, cmap, k, seen);
        let seen2 = if seen.contains(d) {
            seen
        } else {
            seen.push(d)
        };
        lemma_emit_paths(th, found, icaps, cmap, k + 1, seen2);
        let rest = search_emit(th, found, icaps, cmap, k + 1, seen2);
        assert forall|j: int| 0 <= j < r.0.len() implies exists|m: int|
            k <= m < found.len() && (#[trigger] r.0[j]).0 == crate::semantics::search_result_path(
                th,
                found[m],
            ) by {
            if seen.contains(d) {
                assert(r.0[j] == rest.0[j]);
                let m = choose|m: int|
                    k + 1 <= m < found.len() && (#[trigger] rest.0[j]).0
                        == crate::semantics::search_result_path(th, found[m]);
                assert(k <= m < found.len());
            } else if j == 0 {
                assert(r.0[0].0 == rp);
            } else {
                assert(r.0[j] == rest.0[j - 1]);
                let m = choose|m: int|
                    k + 1 <= m < found.len() && (#[trigger] rest.0[j - 1]).0
                        == crate::semantics::search_result_path(th, found[m]);
                assert(k <= m < found.len());
            }
        }
    }
}

/// What a search thread reports: each path it emits is the way down from
/// `root`, through the thread's path, continued by a path the inner pattern
/// finds.
proof fn lemma_search_reports(
    prog: ProgModel,
    q: Pattern,
    bound: nat,
    th: ThreadModel,
    root: EnvelopeModel,
)
    requires
        search_program(prog, q),
        pattern_size(q) < bound,
        th.pc == 0,
        descends_from(th.path, root),
        th.path.last() == th.env,
        paths_start_where_found(q),
    ensures
        forall|j: int|
            0 <= j < run_all(prog, bound, th).0.len() ==> reported_by_search(
                q,
                root,
                (#[trigger] run_all(prog, bound, th).0[j]).0,
            ),
    decreases th.env, 1int, 0int,
{
    let e = th.env;
    let st = thread_steps(prog, bound, th);
    let cmap = prog.code[0]->capture_map;
    let r = pattern_results(q, e);
    let em = search_emit(th, r.0, r.1, cmap, 0, th.seen);
    let ch = e.children();
    let n = ch.len() as int;
    let forks = Seq::new(
        ch.len(),
        |k: int| ThreadModel { env: ch[n - 1 - k], path: th.path.push(ch[n - 1 - k]), seen: em.1, ..th },
    );
    assert(st.outs == em.0);
    assert(st.forks == forks);
    lemma_emit_paths(th, r.0, r.1, cmap, 0, th.seen);
    lemma_children_decrease(e);
    assert forall|k: int| 0 <= k < n implies (#[trigger] forks[k]).pc == 0 && decreases_to!(
        e => forks[k].env) && descends_from(forks[k].path, root) && forks[k].path.last()
        == forks[k].env by {
        let c = ch[n - 1 - k];
        assert(forks[k].env == c);
        assert(e.children().contains(c));
        let fp = th.path.push(c);
        assert forall|i: int| 0 <= i < fp.len() - 1 implies #[trigger] fp[i].children().contains(
            fp[i + 1],
        ) by {
            if i < th.path.len() - 1 {
                assert(th.path[i].children().contains(th.path[i + 1]));
            } else {
                assert(fp[i] == e);
            }
        }
    }
    lemma_search_fork_reports(prog, q, bound, th, forks, n, root);
    let outs = run_all(prog, bound, th).0;
    let below = run_forks(prog, bound, th, forks, n).0;
    assert(outs == em.0 + below);
    assert forall|j: int| 0 <= j < outs.len() implies reported_by_search(
        q,
        root,
        (#[trigger] outs[j]).0,
    ) by {
        if j < em.0.len() {
            assert(outs[j] == em.0[j]);
            let m = choose|m: int|
                0 <= m < r.0.len() && (#[trigger] em.0[j]).0
                    == crate::semantics::search_result_path(th, r.0[m]);
            assert(r.0[m].len() > 0 && r.0[m][0] == e);
            assert(th.path.last() == e);
            assert(pattern_results(q, th.path.last()).0[m] == r.0[m]);
            assert(descends_from(th.path, root));
        } else {
            assert(outs[j] == below[j - em.0.len()]);
        }
    }
}

proof fn lemma_search_fork_reports(
    prog: ProgModel,
    q: Pattern,
    bound: nat,
    th: ThreadModel,
    forks: Seq<ThreadModel>,
    i: int,
    root: EnvelopeModel,
)
    requires
        search_program(prog, q),
        pattern_size(q) < bound,
        th.pc == 0,
        0 <= i <= forks.len(),
        paths_start_where_found(q),
        forall|k: int| 0 <= k < forks.len() ==> (#[trigger] forks[k]).pc == 0 && decreases_to!(
            th.env => forks[k].env) && descends_from(forks[k].path, root) && forks[k].path.last()
            == forks[k].env,
    ensures
        forall|j: int|
            0 <= j < run_forks(prog, bound, th, forks, i).0.len() ==> reported_by_search(
                q,
                root,
                (#[trigger] run_forks(prog, bound, th, forks, i).0[j]).0,
            ),
    decreases th.env, 0int, i,
{
    if i > 0 {
        let f = forks[i - 1];
        assert(f.pc == 0 && decreases_to!(th.env => f.env));
        lemma_search_fork_reports(prog, q, bound, th, forks, i - 1, root);
        let a = if fork_ok(prog.code.len() as int, th, f) {
            lemma_search_reports(prog, q, bound, f, root);
            run_all(prog, bound, f).0
        } else {
            Seq::empty()
        };
        let b = run_forks(prog, bound, th, forks, i - 1).0;
        let all = run_forks(prog, bound, th, forks, i).0;
        assert(all == a + b);
        assert forall|j: int| 0 <= j < all.len() implies reported_by_search(
            q,
            root,
            (#[trigger] all[j]).0,
        ) by {
            if j < a.len() {
                assert(all[j] == a[j]);
            } else {
                assert(all[j] == b[j - a.len()]);
            }
        }
    }
}

/// When the inner pattern's paths start at the element it is tested on,
/// every path a search reports is the way down from the root to some
/// element, each step going to an element directly below, followed by the
/// rest of a path the inner pattern finds on that element: the element
/// itself is not repeated.
pub proof fn law_search_paths_go_down_then_follow_the_match(q: Pattern, root: EnvelopeModel)
    requires
        paths_start_where_found(q),
    ensures
        forall|k: int|
            0 <= k < pattern_results(
                Pattern::Meta(MetaPattern::Search(SearchPattern(Box::new(q)))),
                root,
            ).0.len() ==> reported_by_search(
                q,
                root,
                #[trigger] pattern_results(
                    Pattern::Meta(MetaPattern::Search(SearchPattern(Box::new(q)))),
                    root,
                ).0[k],
            ),
{
    let p = Pattern::Meta(MetaPattern::Search(SearchPattern(Box::new(q))));
    let prog = compile_program(p);
    assert(prog.code.len() == 2);
    assert(prog.lits =~= seq![q]);
    let bound = pattern_size(p);
    let th = initial_thread(prog, root);
    assert(th.path == seq![root]);
    assert(descends_from(th.path, root));
    lemma_search_reports(prog, q, bound, th, root);
    let outs = run_all(prog, bound, th).0;
    lemma_collect_outs_paths(prog.names, outs);
    assert forall|k: int| 0 <= k < pattern_results(p, root).0.len() implies reported_by_search(
        q,
        root,
        #[trigger] pattern_results(p, root).0[k],
    ) by {
        assert(pattern_results(p, root).0[k] == outs[k].0);
    }
}

/// Every path a leaf pattern finds on an element starts at that element, so
/// a search for a leaf pattern reports the way down to each element it
/// matches, continued by the rest of the match.
pub proof fn law_leaf_paths_start_where_found(lp: crate::pattern::LeafPattern)
    ensures
        paths_start_where_found(Pattern::Leaf(lp)),
{
    assert forall|n: EnvelopeModel, k: int|
        0 <= k < pattern_results(Pattern::Leaf(lp), n).0.len() implies #[trigger] pattern_results(
        Pattern::Leaf(lp),
        n,
    ).0[k].len() > 0 && pattern_results(Pattern::Leaf(lp), n).0[k][0] == n by {
        crate::laws::law_atomic_patterns_match_directly(Pattern::Leaf(lp), n);
        match lp {
            crate::pattern::LeafPattern::Cbor(cp) => {
                crate::leaf_law::law_cbor_paths_start_at_the_envelope(cp, n);
            },
            crate::pattern::LeafPattern::Any => {},
            _ => {
                crate::leaf_law::law_leaf_values_paths_are_the_element(lp, n);
            },
        }
    }
}

} // verus!
