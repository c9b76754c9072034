//! The backtracking machine that runs compiled programs, and the direct
//! matchers of the patterns it tests in one step.
use vstd::prelude::*;

use crate::compile::{
    capture_map_model, instr_fits, lemma_program_fits, names_model, position_of, program_fits,
    Instr, Literal, Program,
};
use crate::dcbor::bytes_regex_is_match;
use crate::envelope::{path_model, paths_model, Envelope, EnvelopeModel};
use crate::leaf::leaf_paths_with_captures;
use crate::paths::{
    captures_model, copy_groups, copy_path, copy_paths, extend_path_from, extend_paths,
    groups_model, no_captures, no_paths, Captures, Path,
};
use crate::pattern::{
    pattern_size, AssertionsPattern, DigestPattern, LeafStructurePattern, MetaPattern,
    NodePattern, ObjectPattern, ObscuredPattern, Pattern, PredicatePattern, StructurePattern,
    SubjectPattern, WrappedPattern,
};
use crate::quantifier::{Quantifier, Reluctance};
use crate::semantics::{
    add_atomic_caps, assertion_scan, atomic_results, axis_children, capture_end_thread,
    caps_append, caps_find, caps_insert, caps_merge, cleared, collect_outs, collect_outs_upto,
    extend_by_subpaths, fork_ok, halt, initial_thread, last_or, out_captures, path_digests,
    pattern_results, predicate_first, predicate_fork, repeat_results, repeat_states, repeat_step,
    run_all, run_forks, search_emit, search_result_caps, search_result_path, states_down,
    states_up, structure_results, thread_steps, try_repeats, Axis, CapsModel, InstrModel,
    OutModel, PathModel, ProgModel, Step, ThreadModel,
};
use crate::text::{bytes_equal, bytes_start_with_ignore_ascii_case, bytes_to_vec};

verus! {

/// The state of one thread of the machine.
pub struct Thread {
    pub pc: usize,
    pub env: Envelope,
    pub path: Path,
    pub saved: Vec<Path>,
    pub caps: Vec<Vec<Path>>,
    pub cstack: Vec<Vec<usize>>,
    pub seen: Vec<Vec<Vec<u8>>>,
}

/// A path emitted by the machine with its thread's capture groups.
pub type Out = (Path, Vec<Vec<Path>>);

/// What one thread did before halting.
pub struct StepOut {
    pub outs: Vec<Out>,
    pub forks: Vec<Thread>,
    pub produced: bool,
}

pub open spec fn cstack_model(c: Seq<Vec<usize>>) -> Seq<Seq<int>> {
    Seq::new(c.len(), |i: int| Seq::new(c[i]@.len(), |j: int| c[i]@[j] as int))
}

pub open spec fn thread_model(t: Thread) -> ThreadModel {
    ThreadModel {
        pc: t.pc as int,
        env: t.env@,
        path: path_model(t.path@),
        saved: paths_model(t.saved@),
        caps: groups_model(t.caps@),
        cstack: cstack_model(t.cstack@),
        seen: t.seen.deep_view(),
    }
}

pub open spec fn threads_model(s: Seq<Thread>) -> Seq<ThreadModel> {
    Seq::new(s.len(), |i: int| thread_model(s[i]))
}

pub open spec fn outs_model(s: Seq<Out>) -> Seq<OutModel> {
    Seq::new(s.len(), |i: int| (path_model(s[i].0@), groups_model(s[i].1@)))
}

pub open spec fn step_model(s: StepOut) -> Step {
    Step { outs: outs_model(s.outs@), forks: threads_model(s.forks@), produced: s.produced }
}

fn copy_cstack(c: &Vec<Vec<usize>>) -> (r: Vec<Vec<usize>>)
    ensures
        cstack_model(r@) == cstack_model(c@),
{
    let mut out: Vec<Vec<usize>> = Vec::new();
    let mut i: usize = 0;
    while i < c.len()
        invariant
            i <= c@.len(),
            out@.len() == i,
            forall|j: int| 0 <= j < i ==> out@[j]@ == c@[j]@,
        decreases c@.len() - i,
    {
        let mut v: Vec<usize> = Vec::new();
        let mut k: usize = 0;
        while k < c[i].len()
            invariant
                i < c@.len(),
                k <= c@[i as int]@.len(),
                v@ == c@[i as int]@.subrange(0, k as int),
            decreases c@[i as int]@.len() - k,
        {
            v.push(c[i][k]);
            k = k + 1;
        }
        assert(v@ =~= c@[i as int]@);
        out.push(v);
        i = i + 1;
    }
    assert(cstack_model(out@) =~= cstack_model(c@));
    out
}

fn copy_seen(s: &Vec<Vec<Vec<u8>>>) -> (r: Vec<Vec<Vec<u8>>>)
    ensures
        r.deep_view() == s.deep_view(),
{
    let mut out: Vec<Vec<Vec<u8>>> = Vec::new();
    let mut i: usize = 0;
    while i < s.len()
        invariant
            i <= s@.len(),
            out@.len() == i,
            forall|j: int| 0 <= j < i ==> out@[j].deep_view() == s@[j].deep_view(),
        decreases s@.len() - i,
    {
        out.push(crate::paths::copy_byte_strings(&s[i]));
        i = i + 1;
    }
    assert(out.deep_view() =~= s.deep_view());
    out
}

/// A deep copy of a thread.
pub fn copy_thread(t: &Thread) -> (r: Thread)
    ensures
        thread_model(r) == thread_model(*t),
{
    Thread {
        pc: t.pc,
        env: t.env.duplicate(),
        path: copy_path(&t.path),
        saved: copy_paths(&t.saved),
        caps: copy_groups(&t.caps),
        cstack: copy_cstack(&t.cstack),
        seen: copy_seen(&t.seen),
    }
}

/// Appends `extra` to `outs`.
fn append_outs(outs: &mut Vec<Out>, extra: Vec<Out>)
    ensures
        outs_model(final(outs)@) == outs_model(old(outs)@) + outs_model(extra@),
{
    let mut extra = extra;
    let ghost a = outs@;
    let ghost b = extra@;
    outs.append(&mut extra);
    assert(outs_model(outs@) =~= outs_model(a) + outs_model(b));
}

/// Appends `extra` to `forks`.
fn append_threads(forks: &mut Vec<Thread>, extra: Vec<Thread>)
    ensures
        threads_model(final(forks)@) == threads_model(old(forks)@) + threads_model(extra@),
{
    let mut extra = extra;
    let ghost a = forks@;
    let ghost b = extra@;
    forks.append(&mut extra);
    assert(threads_model(forks@) =~= threads_model(a) + threads_model(b));
}

// ---------------------------------------------------------------------------
// Named captures
// ---------------------------------------------------------------------------

/// The first index of `name` among the names of `m`, or `m.len()`.
fn find_capture(m: &Captures, name: &String) -> (r: usize)
    ensures
        r as int == caps_find(captures_model(m@), name@, 0),
{
    let ghost cm = captures_model(m@);
    let mut k: usize = 0;
    while k < m.len()
        invariant
            k <= m@.len(),
            cm == captures_model(m@),
            caps_find(cm, name@, 0) == caps_find(cm, name@, k as int),
        decreases m@.len() - k,
    {
        if m[k].0 == *name {
            return k;
        }
        k = k + 1;
    }
    k
}

/// `m` with copies of `v` appended to the paths under `name`.
pub(crate) fn captures_append(m: &mut Captures, name: &String, v: &Vec<Path>)
    ensures
        captures_model(final(m)@) == caps_append(captures_model(old(m)@), name@, paths_model(v@)),
{
    let ghost cm = captures_model(m@);
    let k = find_capture(m, name);
    if k < m.len() {
        let mut ps = copy_paths(&m[k].1);
        extend_paths(&mut ps, v);
        let ghost before = m@;
        let ghost pv = paths_model(ps@);
        m.set(k, (name.clone(), ps));
        assert(captures_model(m@) =~= cm.update(k as int, (name@, cm[k as int].1 + paths_model(v@))));
    } else {
        let ps = copy_paths(v);
        m.push((name.clone(), ps));
        assert(captures_model(m@) =~= cm.push((name@, paths_model(v@))));
    }
}

/// `m` with the paths under `name` replaced by copies of `v`.
fn captures_insert(m: &mut Captures, name: &String, v: &Vec<Path>)
    ensures
        captures_model(final(m)@) == caps_insert(captures_model(old(m)@), name@, paths_model(v@)),
{
    let ghost cm = captures_model(m@);
    let k = find_capture(m, name);
    let ps = copy_paths(v);
    if k < m.len() {
        m.set(k, (name.clone(), ps));
        assert(captures_model(m@) =~= cm.update(k as int, (name@, paths_model(v@))));
    } else {
        m.push((name.clone(), ps));
        assert(captures_model(m@) =~= cm.push((name@, paths_model(v@))));
    }
}

/// Every entry of `extra` appended into `m`, in order.
fn captures_merge(m: &mut Captures, extra: &Captures)
    ensures
        captures_model(final(m)@) == caps_merge(captures_model(old(m)@), captures_model(extra@)),
{
    let ghost em = captures_model(extra@);
    let mut j: usize = 0;
    assert(em.subrange(0, 0) =~= Seq::<(Seq<char>, Seq<PathModel>)>::empty());
    while j < extra.len()
        invariant
            j <= extra@.len(),
            em == captures_model(extra@),
            captures_model(m@) == caps_merge(captures_model(old(m)@), em.subrange(0, j as int)),
        decreases extra@.len() - j,
    {
        captures_append(m, &extra[j].0, &extra[j].1);
        assert(em.subrange(0, j + 1).drop_last() =~= em.subrange(0, j as int));
        j = j + 1;
    }
    assert(em.subrange(0, extra@.len() as int) =~= em);
}

/// The named captures of one emitted path.
fn output_captures(names: &Vec<String>, caps: &Vec<Vec<Path>>) -> (r: Captures)
    ensures
        captures_model(r@) == out_captures(
            names_model(names@),
            groups_model(caps@),
            caps@.len() as int,
        ),
{
    let mut m = no_captures();
    let mut i: usize = 0;
    while i < caps.len()
        invariant
            i <= caps@.len(),
            captures_model(m@) == out_captures(names_model(names@), groups_model(caps@), i as int),
        decreases caps@.len() - i,
    {
        if caps[i].len() > 0 && i < names.len() {
            captures_insert(&mut m, &names[i], &caps[i]);
        }
        i = i + 1;
    }
    m
}

/// The paths of the emitted outputs and their captures merged by name.
pub fn collect_outputs(names: &Vec<String>, outs: &Vec<Out>) -> (r: (Vec<Path>, Captures))
    ensures
        (paths_model(r.0@), captures_model(r.1@)) == collect_outs(
            names_model(names@),
            outs_model(outs@),
        ),
{
    let ghost om = outs_model(outs@);
    let mut paths: Vec<Path> = Vec::new();
    let mut caps = no_captures();
    let mut i: usize = 0;
    assert(paths_model(paths@) =~= Seq::<PathModel>::empty());
    while i < outs.len()
        invariant
            i <= outs@.len(),
            om == outs_model(outs@),
            (paths_model(paths@), captures_model(caps@)) == collect_outs_upto(
                names_model(names@),
                om,
                i as int,
            ),
        decreases outs@.len() - i,
    {
        let ghost before = paths_model(paths@);
        paths.push(copy_path(&outs[i].0));
        assert(paths_model(paths@) =~= before.push(om[i as int].0));
        let oc = output_captures(names, &outs[i].1);
        captures_merge(&mut caps, &oc);
        i = i + 1;
    }
    (paths, caps)
}

// ---------------------------------------------------------------------------
// Termination of the machine
// ---------------------------------------------------------------------------

/// Every element directly below `e` is smaller than `e`.
pub proof fn lemma_children_decrease(e: EnvelopeModel)
    ensures
        forall|j: int| 0 <= j < e.children().len() ==> decreases_to!(e => #[trigger] e.children()[j]),
{
    match e {
        EnvelopeModel::Node { subject, assertions, .. } => {
            assert forall|j: int| 0 <= j < e.children().len() implies decreases_to!(e => #[trigger] e.children()[j]) by {
                if j == 0 {
                    assert(e.children()[j] == *subject);
                } else {
                    assert(e.children()[j] == assertions[j - 1]);
                    assert(decreases_to!(e => assertions));
                    assert(decreases_to!(assertions => assertions[j - 1]));
                }
            }
        },
        EnvelopeModel::Wrapped { envelope, .. } => {
            assert forall|j: int| 0 <= j < e.children().len() implies decreases_to!(e => #[trigger] e.children()[j]) by {
                assert(e.children()[j] == *envelope);
            }
        },
        EnvelopeModel::Assertion { predicate, object, .. } => {
            assert forall|j: int| 0 <= j < e.children().len() implies decreases_to!(e => #[trigger] e.children()[j]) by {
                if j == 0 {
                    assert(e.children()[j] == *predicate);
                } else {
                    assert(e.children()[j] == *object);
                }
            }
        },
        _ => {},
    }
}

/// Every thread of `forks` may run before the rest of `origin`'s work.
pub open spec fn all_forks_ok(n: int, origin: ThreadModel, forks: Seq<ThreadModel>) -> bool {
    forall|k: int| 0 <= k < forks.len() ==> fork_ok(n, origin, #[trigger] forks[k])
}

/// Threads that may follow a thread further along in the code may follow
/// `th` too; so may threads at a later instruction.
proof fn lemma_forks_shift(
    n: int,
    th: ThreadModel,
    th0: ThreadModel,
    fresh: Seq<ThreadModel>,
    rest: Seq<ThreadModel>,
)
    requires
        th.pc < th0.pc <= n,
        all_forks_ok(n, th0, rest),
        forall|k: int| 0 <= k < fresh.len() ==> th.pc < (#[trigger] fresh[k]).pc <= n,
    ensures
        all_forks_ok(n, th, fresh + rest),
{
    assert forall|k: int| 0 <= k < (fresh + rest).len() implies fork_ok(
        n,
        th,
        #[trigger] (fresh + rest)[k],
    ) by {
        if k >= fresh.len() {
            assert(fork_ok(n, th0, rest[k - fresh.len()]));
        } else {
            assert(th.pc < fresh[k].pc <= n);
        }
    }
}

/// Every thread a machine step forks is further along in the code, or at
/// the same instruction on an element below the thread's.
pub proof fn lemma_forks_ok(prog: ProgModel, bound: nat, th: ThreadModel)
    ensures
        all_forks_ok(prog.code.len() as int, th, thread_steps(prog, bound, th).forks),
    decreases prog.code.len() - th.pc,
{
    let code = prog.code;
    let lits = prog.lits;
    let n = code.len() as int;
    let st = thread_steps(prog, bound, th);
    let e: Seq<ThreadModel> = Seq::empty();
    if 0 <= th.pc < n {
        let next = ThreadModel { pc: th.pc + 1, ..th };
        match code[th.pc] {
            InstrModel::MatchPredicate(idx) => {
                if idx < lits.len() && pattern_size(lits[idx as int]) <= bound {
                    let r = atomic_results(lits[idx as int], th.env);
                    let paths = r.0;
                    if paths.len() > 0 {
                        let th0 = predicate_first(prog.names, th, paths, r.1);
                        lemma_forks_ok(prog, bound, th0);
                        let forks = Seq::new(
                            (paths.len() - 1) as nat,
                            |k: int| predicate_fork(prog.names, th0, paths, r.1, paths.len() - 1 - k),
                        );
                        lemma_forks_shift(n, th, th0, forks, thread_steps(prog, bound, th0).forks);
                    }
                }
            },
            InstrModel::MatchStructure(idx) => {
                if idx < lits.len() && pattern_size(lits[idx as int]) <= bound {
                    match lits[idx as int] {
                        Pattern::Structure(sp) => {
                            let sps = structure_results(sp, th.env);
                            if sps.len() > 0 {
                                let th0 = ThreadModel {
                                    path: sps[0],
                                    env: last_or(sps[0], th.env),
                                    ..next
                                };
                                lemma_forks_ok(prog, bound, th0);
                                let forks = Seq::new(
                                    (sps.len() - 1) as nat,
                                    |k: int|
                                        ThreadModel {
                                            path: sps[k + 1],
                                            env: last_or(sps[k + 1], th0.env),
                                            ..th0
                                        },
                                );
                                lemma_forks_shift(
                                    n,
                                    th,
                                    th0,
                                    forks,
                                    thread_steps(prog, bound, th0).forks,
                                );
                            }
                        },
                        _ => {},
                    }
                }
            },
            InstrModel::Split { a, b } => {
                if th.pc < a < n && th.pc < b < n {
                    let th0 = ThreadModel { pc: b as int, ..th };
                    lemma_forks_ok(prog, bound, th0);
                    lemma_forks_shift(
                        n,
                        th,
                        th0,
                        seq![ThreadModel { pc: a as int, ..th }],
                        thread_steps(prog, bound, th0).forks,
                    );
                }
            },
            InstrModel::Jump(t) => {
                if th.pc < t < n {
                    let th0 = ThreadModel { pc: t as int, ..th };
                    lemma_forks_ok(prog, bound, th0);
                    lemma_forks_shift(n, th, th0, e, thread_steps(prog, bound, th0).forks);
                    assert(e + thread_steps(prog, bound, th0).forks =~= thread_steps(
                        prog,
                        bound,
                        th0,
                    ).forks);
                }
            },
            InstrModel::PushAxis(axis) => {},
            InstrModel::Search { pat_idx, capture_map } => {
                lemma_children_decrease(th.env);
            },
            InstrModel::Accept => {},
            InstrModel::Repeat { pat_idx, quantifier } => {},
            _ => {
                let th0 = thread_steps_successor(prog, th);
                lemma_forks_ok(prog, bound, th0);
                lemma_forks_shift(n, th, th0, e, thread_steps(prog, bound, th0).forks);
                assert(e + thread_steps(prog, bound, th0).forks =~= thread_steps(
                    prog,
                    bound,
                    th0,
                ).forks);
            },
        }
    }
}

/// The thread that continues after an instruction that neither forks nor
/// halts on its own.
pub open spec fn thread_steps_successor(prog: ProgModel, th: ThreadModel) -> ThreadModel {
    let code = prog.code;
    let next = ThreadModel { pc: th.pc + 1, ..th };
    match code[th.pc] {
        InstrModel::Pop => ThreadModel {
            path: if th.path.len() > 0 {
                th.path.drop_last()
            } else {
                th.path
            },
            ..next
        },
        InstrModel::ExtendTraversal => if th.path.len() > 0 {
            ThreadModel {
                saved: th.saved.push(th.path),
                env: th.path.last(),
                path: seq![th.path.last()],
                ..next
            }
        } else {
            next
        },
        InstrModel::CombineTraversal => if th.saved.len() > 0 {
            let sp = th.saved.last();
            let combined = if sp.len() > 0 && th.path.len() > 0 && sp.last() == th.path[0] {
                sp + th.path.skip(1)
            } else {
                sp + th.path
            };
            ThreadModel { saved: th.saved.drop_last(), path: combined, ..next }
        } else {
            next
        },
        InstrModel::NavigateSubject => if th.env.is_node() {
            ThreadModel { env: th.env.subject(), path: th.path.push(th.env.subject()), ..next }
        } else {
            next
        },
        InstrModel::CaptureStart(id) => {
            let start = if th.path.len() > 0 {
                th.path.len() - 1
            } else {
                0
            };
            if (id as int) < th.cstack.len() {
                ThreadModel {
                    cstack: th.cstack.update(id as int, th.cstack[id as int].push(start)),
                    ..next
                }
            } else {
                next
            }
        },
        InstrModel::CaptureEnd(id) => capture_end_thread(code, th, id as int),
        _ => next,
    }
}

// ---------------------------------------------------------------------------
// Thread operations
// ---------------------------------------------------------------------------

/// How a child is reached from its parent.
#[derive(Clone, Copy, Debug, PartialEq, Eq)]
pub enum EdgeType {
    Subject,
    Assertion,
    Predicate,
    Object,
    Content,
}

/// The edge by which an axis reaches each of its children.
pub open spec fn axis_edge(axis: Axis) -> EdgeType {
    match axis {
        Axis::Subject => EdgeType::Subject,
        Axis::Assertion => EdgeType::Assertion,
        Axis::Predicate => EdgeType::Predicate,
        Axis::Object => EdgeType::Object,
        Axis::Wrapped => EdgeType::Content,
    }
}

impl Axis {
    /// The elements reachable from `env` along this axis, each with the edge
    /// by which it is reached.
    pub fn children(&self, env: &Envelope) -> (r: Vec<(Envelope, EdgeType)>)
        ensures
            r@.len() == axis_children(*self, env@).len(),
            forall|i: int|
                0 <= i < r@.len() ==> (#[trigger] r@[i]).0@ == axis_children(*self, env@)[i]
                    && r@[i].1 == axis_edge(*self),
    {
        let elems = self.child_elements(env);
        let edge = match self {
            Axis::Subject => EdgeType::Subject,
            Axis::Assertion => EdgeType::Assertion,
            Axis::Predicate => EdgeType::Predicate,
            Axis::Object => EdgeType::Object,
            Axis::Wrapped => EdgeType::Content,
        };
        let mut out: Vec<(Envelope, EdgeType)> = Vec::new();
        let mut i: usize = 0;
        while i < elems.len()
            invariant
                i <= elems@.len(),
                out@.len() == i,
                edge == axis_edge(*self),
                path_model(elems@) == axis_children(*self, env@),
                forall|j: int| 0 <= j < i ==> (#[trigger] out@[j]).0@ == elems@[j]@ && out@[j].1 == edge,
            decreases elems@.len() - i,
        {
            out.push((elems[i].duplicate(), edge));
            i = i + 1;
        }
        proof {
            assert forall|j: int| 0 <= j < out@.len() implies (#[trigger] out@[j]).0@ == axis_children(*self, env@)[j]
                && out@[j].1 == axis_edge(*self) by {
                assert(path_model(elems@)[j] == elems@[j]@);
            }
        }
        out
    }

    /// The elements reachable from `env` along this axis.
    fn child_elements(&self, env: &Envelope) -> (r: Vec<Envelope>)
        ensures
            path_model(r@) == axis_children(*self, env@),
    {
        let mut out: Vec<Envelope> = Vec::new();
        match (self, env) {
            (Axis::Subject, Envelope::Node { subject, .. }) => {
                out.push(subject.duplicate());
                assert(path_model(out@) =~= axis_children(*self, env@));
            },
            (Axis::Assertion, Envelope::Node { assertions, .. }) => {
                let mut i: usize = 0;
                while i < assertions.len()
                    invariant
                        i <= assertions@.len(),
                        out@.len() == i,
                        forall|j: int| 0 <= j < i ==> out@[j]@ == assertions@[j]@,
                    decreases assertions@.len() - i,
                {
                    out.push(assertions[i].duplicate());
                    i = i + 1;
                }
                proof {
                    crate::envelope::lemma_env_models(assertions@);
                    assert(path_model(out@) =~= path_model(assertions@));
                }
            },
            (Axis::Predicate, Envelope::Assertion { predicate, .. }) => {
                out.push(predicate.duplicate());
                assert(path_model(out@) =~= axis_children(*self, env@));
            },
            (Axis::Object, Envelope::Assertion { object, .. }) => {
                out.push(object.duplicate());
                assert(path_model(out@) =~= axis_children(*self, env@));
            },
            (Axis::Wrapped, Envelope::Node { subject, .. }) => {
                proof {
                    reveal_with_fuel(crate::envelope::env_model, 2);
                }
                match &**subject {
                    Envelope::Wrapped { envelope, .. } => {
                        out.push(envelope.duplicate());
                        assert(path_model(out@) =~= axis_children(*self, env@));
                    },
                    _ => {
                        assert(path_model(out@) =~= axis_children(*self, env@));
                    },
                }
            },
            (Axis::Wrapped, Envelope::Wrapped { envelope, .. }) => {
                out.push(envelope.duplicate());
                assert(path_model(out@) =~= axis_children(*self, env@));
            },
            _ => {
                assert(path_model(out@) =~= axis_children(*self, env@));
            },
        }
        assert(path_model(out@) =~= axis_children(*self, env@));
        out
    }
}

/// Every element directly below `env`, in walking order.
fn children_of(env: &Envelope) -> (r: Vec<Envelope>)
    ensures
        path_model(r@) == env@.children(),
{
    let mut out: Vec<Envelope> = Vec::new();
    match env {
        Envelope::Node { subject, assertions, .. } => {
            out.push(subject.duplicate());
            let mut i: usize = 0;
            while i < assertions.len()
                invariant
                    i <= assertions@.len(),
                    out@.len() == i + 1,
                    out@[0]@ == (**subject)@,
                    forall|j: int| 0 <= j < i ==> out@[j + 1]@ == assertions@[j]@,
                decreases assertions@.len() - i,
            {
                out.push(assertions[i].duplicate());
                i = i + 1;
            }
            proof {
                crate::envelope::lemma_env_models(assertions@);
            }
        },
        Envelope::Wrapped { envelope, .. } => {
            out.push(envelope.duplicate());
        },
        Envelope::Assertion { predicate, object, .. } => {
            out.push(predicate.duplicate());
            out.push(object.duplicate());
        },
        _ => {},
    }
    assert(path_model(out@) =~= env@.children());
    out
}

/// A copy of `p` with `e` appended.
fn path_push(p: &Path, e: &Envelope) -> (r: Path)
    ensures
        path_model(r@) == path_model(p@).push(e@),
{
    let mut r = copy_path(p);
    let ghost before = r@;
    r.push(e.duplicate());
    assert(path_model(r@) =~= path_model(before).push(e@));
    r
}

/// The thread that starts matching at `env`.
pub fn start_thread(prog: &Program, env: &Envelope) -> (r: Thread)
    ensures
        thread_model(r) == initial_thread(prog.model(), env@),
{
    let n = prog.capture_names.len();
    let mut caps: Vec<Vec<Path>> = Vec::new();
    let mut cstack: Vec<Vec<usize>> = Vec::new();
    let mut i: usize = 0;
    while i < n
        invariant
            n == prog.capture_names@.len(),
            i <= n,
            caps@.len() == i,
            cstack@.len() == i,
            forall|j: int| 0 <= j < i ==> (#[trigger] caps@[j])@.len() == 0,
            forall|j: int| 0 <= j < i ==> (#[trigger] cstack@[j])@.len() == 0,
        decreases n - i,
    {
        caps.push(Vec::new());
        cstack.push(Vec::new());
        i = i + 1;
    }
    let mut path: Path = Vec::new();
    path.push(env.duplicate());
    let seen: Vec<Vec<Vec<u8>>> = Vec::new();
    let r = Thread {
        pc: 0,
        env: env.duplicate(),
        path,
        saved: Vec::new(),
        caps,
        cstack,
        seen,
    };
    assert(path_model(r.path@) =~= seq![env@]);
    assert(paths_model(r.saved@) =~= Seq::<PathModel>::empty());
    assert forall|j: int| 0 <= j < n implies groups_model(r.caps@)[j] =~= Seq::<PathModel>::empty() by {
        assert(r.caps@[j]@.len() == 0);
    }
    assert forall|j: int| 0 <= j < n implies cstack_model(r.cstack@)[j] =~= Seq::<int>::empty() by {
        assert(r.cstack@[j]@.len() == 0);
    }
    assert(groups_model(r.caps@) =~= Seq::new(
        prog.model().names.len(),
        |i: int| Seq::<PathModel>::empty(),
    ));
    assert(cstack_model(r.cstack@) =~= Seq::new(
        prog.model().names.len(),
        |i: int| Seq::<int>::empty(),
    ));
    assert(r.seen.deep_view() =~= Seq::<Seq<Seq<u8>>>::empty());
    r
}

/// Capture groups of the same number, all empty.
fn cleared_groups(caps: &Vec<Vec<Path>>) -> (r: Vec<Vec<Path>>)
    ensures
        groups_model(r@) == cleared(groups_model(caps@)),
{
    let mut out: Vec<Vec<Path>> = Vec::new();
    let mut i: usize = 0;
    while i < caps.len()
        invariant
            i <= caps@.len(),
            out@.len() == i,
            forall|j: int| 0 <= j < i ==> (#[trigger] out@[j])@.len() == 0,
        decreases caps@.len() - i,
    {
        out.push(Vec::new());
        i = i + 1;
    }
    assert forall|j: int| 0 <= j < caps@.len() implies groups_model(out@)[j] =~= Seq::<PathModel>::empty() by {
        assert(out@[j]@.len() == 0);
    }
    assert(groups_model(out@) =~= cleared(groups_model(caps@)));
    out
}

/// The captures an atomic match hands to its `i`-th path (of `n`), added to
/// the capture groups of their names.
fn distribute_captures(
    names: &Vec<String>,
    caps: &mut Vec<Vec<Path>>,
    acaps: &Captures,
    n: usize,
    i: usize,
)
    requires
        i < n,
    ensures
        groups_model(final(caps)@) == add_atomic_caps(
            names_model(names@),
            groups_model(old(caps)@),
            captures_model(acaps@),
            n as int,
            i as int,
            0,
        ),
{
    let ghost nm = names_model(names@);
    let ghost am = captures_model(acaps@);
    let mut k: usize = 0;
    while k < acaps.len()
        invariant
            i < n,
            k <= acaps@.len(),
            nm == names_model(names@),
            am == captures_model(acaps@),
            add_atomic_caps(nm, groups_model(caps@), am, n as int, i as int, k as int)
                == add_atomic_caps(nm, groups_model(old(caps)@), am, n as int, i as int, 0),
        decreases acaps@.len() - k,
    {
        let cps = &acaps[k].1;
        let pos = position_of(names, &acaps[k].0);
        if pos < caps.len() {
            let mut v = copy_paths(&caps[pos]);
            if cps.len() == n {
                let ghost before = paths_model(v@);
                v.push(copy_path(&cps[i]));
                assert(paths_model(v@) =~= before + seq![paths_model(cps@)[i as int]]);
            } else if i == 0 {
                extend_paths(&mut v, cps);
            } else {
                assert(paths_model(v@) =~= paths_model(v@) + Seq::<PathModel>::empty());
            }
            let ghost gm = groups_model(caps@);
            let ghost vm = paths_model(v@);
            caps.set(pos, v);
            assert(groups_model(caps@) =~= gm.update(pos as int, vm));
        }
        k = k + 1;
    }
}

/// The last element of `p`, or a copy of `dflt` when `p` is empty.
fn last_or_copy(p: &Path, dflt: &Envelope) -> (r: Envelope)
    ensures
        r@ == last_or(path_model(p@), dflt@),
{
    if p.len() > 0 {
        p[p.len() - 1].duplicate()
    } else {
        dflt.duplicate()
    }
}

/// The thread continuing after an atomic match along its first path.
fn first_after_atomic(names: &Vec<String>, th: Thread, paths: &Vec<Path>, acaps: &Captures) -> (r: Thread)
    requires
        paths@.len() > 0,
        th.pc < usize::MAX,
    ensures
        thread_model(r) == predicate_first(
            names_model(names@),
            thread_model(th),
            paths_model(paths@),
            captures_model(acaps@),
        ),
{
    let ghost tm = thread_model(th);
    let mut th = th;
    th.pc = th.pc + 1;
    let p0 = &paths[0];
    if p0.len() == 1 && p0[0].identical(&th.env) {
    } else {
        let e = last_or_copy(p0, &th.env);
        th.path = copy_path(p0);
        th.env = e;
    }
    distribute_captures(names, &mut th.caps, acaps, paths.len(), 0);
    th
}

/// The thread forked for the `i`-th path of an atomic match.
fn fork_after_atomic(
    names: &Vec<String>,
    th0: &Thread,
    paths: &Vec<Path>,
    acaps: &Captures,
    i: usize,
) -> (r: Thread)
    requires
        i < paths@.len(),
    ensures
        thread_model(r) == predicate_fork(
            names_model(names@),
            thread_model(*th0),
            paths_model(paths@),
            captures_model(acaps@),
            i as int,
        ),
{
    let mut f = copy_thread(th0);
    f.path = copy_path(&paths[i]);
    f.env = last_or_copy(&paths[i], &th0.env);
    let mut caps = cleared_groups(&th0.caps);
    distribute_captures(names, &mut caps, acaps, paths.len(), i);
    f.caps = caps;
    f
}

/// The path a search reports for a path `fp` found at the thread's element.
fn search_path(th: &Thread, fp: &Path) -> (r: Path)
    ensures
        path_model(r@) == search_result_path(thread_model(*th), path_model(fp@)),
{
    let mut rp = copy_path(&th.path);
    if fp.len() > 0 {
        if fp[0].identical(&th.env) {
            extend_path_from(&mut rp, fp, 1);
        } else {
            extend_path_from(&mut rp, fp, 0);
            assert(path_model(fp@).skip(0) =~= path_model(fp@));
        }
    }
    rp
}

/// The thread's capture groups with the search's inner captures added.
fn search_caps(caps: &Vec<Vec<Path>>, icaps: &Captures, cmap: &Vec<(String, usize)>) -> (r: Vec<
    Vec<Path>,
>)
    ensures
        groups_model(r@) == search_result_caps(
            groups_model(caps@),
            captures_model(icaps@),
            capture_map_model(cmap@),
            0,
        ),
{
    let ghost im = captures_model(icaps@);
    let ghost mm = capture_map_model(cmap@);
    let mut out = copy_groups(caps);
    let mut k: usize = 0;
    while k < cmap.len()
        invariant
            k <= cmap@.len(),
            im == captures_model(icaps@),
            mm == capture_map_model(cmap@),
            search_result_caps(groups_model(out@), im, mm, k as int) == search_result_caps(
                groups_model(caps@),
                im,
                mm,
                0,
            ),
        decreases cmap@.len() - k,
    {
        let idx = cmap[k].1;
        let j = find_capture(icaps, &cmap[k].0);
        if j < icaps.len() && idx < out.len() {
            let mut v = copy_paths(&out[idx]);
            extend_paths(&mut v, &icaps[j].1);
            let ghost gm = groups_model(out@);
            let ghost vm = paths_model(v@);
            out.set(idx, v);
            assert(groups_model(out@) =~= gm.update(idx as int, vm));
        }
        k = k + 1;
    }
    out
}

/// The digests along a path.
fn digests_of(p: &Path) -> (r: Vec<Vec<u8>>)
    ensures
        r.deep_view() == path_digests(path_model(p@)),
{
    let mut out: Vec<Vec<u8>> = Vec::new();
    let mut i: usize = 0;
    while i < p.len()
        invariant
            i <= p@.len(),
            out@.len() == i,
            forall|j: int| 0 <= j < i ==> out@[j]@ == p@[j]@.digest(),
        decreases p@.len() - i,
    {
        out.push(bytes_to_vec(p[i].digest().as_slice()));
        i = i + 1;
    }
    assert forall|j: int| 0 <= j < p@.len() implies out.deep_view()[j] == path_digests(path_model(p@))[j] by {
        crate::paths::lemma_byte_strings_view(out, j);
    }
    assert(out.deep_view().len() == p@.len());
    assert(out.deep_view() =~= path_digests(path_model(p@)));
    out
}

fn byte_lists_equal(a: &Vec<Vec<u8>>, b: &Vec<Vec<u8>>) -> (r: bool)
    ensures
        r == (a.deep_view() == b.deep_view()),
{
    if a.len() != b.len() {
        assert(a.deep_view().len() != b.deep_view().len());
        return false;
    }
    let mut i: usize = 0;
    while i < a.len()
        invariant
            a@.len() == b@.len(),
            i <= a@.len(),
            forall|j: int| 0 <= j < i ==> a@[j]@ == b@[j]@,
        decreases a@.len() - i,
    {
        if !crate::text::bytes_equal(a[i].as_slice(), b[i].as_slice()) {
            proof {
                crate::paths::lemma_byte_strings_view(*a, i as int);
                crate::paths::lemma_byte_strings_view(*b, i as int);
            }
            assert(a.deep_view()[i as int] != b.deep_view()[i as int]);
            return false;
        }
        i = i + 1;
    }
    assert forall|j: int| 0 <= j < a@.len() implies a.deep_view()[j] == b.deep_view()[j] by {
        crate::paths::lemma_byte_strings_view(*a, j);
        crate::paths::lemma_byte_strings_view(*b, j);
    }
    assert(a.deep_view() =~= b.deep_view());
    true
}

fn seen_contains(seen: &Vec<Vec<Vec<u8>>>, d: &Vec<Vec<u8>>) -> (r: bool)
    ensures
        r == seen.deep_view().contains(d.deep_view()),
{
    let mut i: usize = 0;
    while i < seen.len()
        invariant
            i <= seen@.len(),
            forall|j: int| 0 <= j < i ==> seen.deep_view()[j] != d.deep_view(),
        decreases seen@.len() - i,
    {
        if byte_lists_equal(&seen[i], d) {
            assert(seen.deep_view()[i as int] == d.deep_view());
            return true;
        }
        i = i + 1;
    }
    false
}

/// The thread after a capture group ends.
fn end_capture(prog: &Program, th: Thread, id: usize) -> (r: Thread)
    requires
        th.pc < prog.code@.len(),
        th.pc < usize::MAX,
    ensures
        thread_model(r) == capture_end_thread(prog.model().code, thread_model(th), id as int),
{
    let ghost tm = thread_model(th);
    let ghost code = prog.model().code;
    let mut th = th;
    if id < th.cstack.len() && th.cstack[id].len() > 0 {
        let mut stk = copy_usizes(&th.cstack[id]);
        let start = stk.pop().unwrap();
        assert(start as int == tm.cstack[id as int].last());
        let ghost cm = cstack_model(th.cstack@);
        th.cstack.set(id, stk);
        assert(cstack_model(th.cstack@)[id as int] =~= cm[id as int].drop_last());
        assert(cstack_model(th.cstack@) =~= cm.update(id as int, cm[id as int].drop_last()));
        let end0 = th.path.len();
        let ext = th.pc + 1 < prog.code.len() && matches!(prog.code[th.pc + 1], Instr::ExtendTraversal);
        assert(ext == (tm.pc + 1 < code.len() && code[tm.pc + 1] is ExtendTraversal));
        let end = if ext {
            if end0 > 0 {
                end0 - 1
            } else {
                0
            }
        } else {
            end0
        };
        if id < th.caps.len() && start <= end {
            let mut seg: Path = Vec::new();
            assert(path_model(seg@) =~= Seq::<EnvelopeModel>::empty());
            extend_path_from(&mut seg, &th.path, start);
            seg.truncate(end - start);
            let ghost segm = path_model(seg@);
            assert(segm =~= tm.path.subrange(start as int, end as int));
            let mut v = copy_paths(&th.caps[id]);
            let ghost before = paths_model(v@);
            v.push(seg);
            assert(paths_model(v@) =~= before.push(segm));
            let ghost gm = groups_model(th.caps@);
            let ghost vm = paths_model(v@);
            th.caps.set(id, v);
            assert(groups_model(th.caps@) =~= gm.update(id as int, vm));
        }
        th.pc = th.pc + 1;
        th
    } else {
        th.pc = th.pc + 1;
        th
    }
}

fn copy_usizes(v: &Vec<usize>) -> (r: Vec<usize>)
    ensures
        r@ == v@,
{
    let mut out: Vec<usize> = Vec::new();
    let mut i: usize = 0;
    while i < v.len()
        invariant
            i <= v@.len(),
            out@ == v@.subrange(0, i as int),
        decreases v@.len() - i,
    {
        out.push(v[i]);
        i = i + 1;
    }
    assert(out@ =~= v@);
    out
}

// ---------------------------------------------------------------------------
// Matching
// ---------------------------------------------------------------------------

/// The one path `[e]`.
fn one_path(e: &Envelope) -> (r: Vec<Path>)
    ensures
        paths_model(r@) == seq![seq![e@]],
{
    crate::paths::single_path(e)
}

/// Whether `p` matches `env`.
fn matches_at(p: &Pattern, env: &Envelope) -> (r: bool)
    ensures
        r == (pattern_results(*p, env@).0.len() > 0),
    decreases pattern_size(*p), 2int, 0int, env@, 0int, 0int,
{
    let r = pattern_paths_with_captures(p, env);
    r.0.len() > 0
}

/// The paths a structure pattern finds at `env`.
pub fn structure_paths(sp: &StructurePattern, env: &Envelope) -> (r: Vec<Path>)
    ensures
        paths_model(r@) == structure_results(*sp, env@),
    decreases pattern_size(Pattern::Structure(*sp)), 0int, 0int, env@, 3int, 0int,
{
    match sp {
        StructurePattern::Assertions(p) => p.paths(env),
        StructurePattern::Digest(p) => p.paths(env),
        StructurePattern::Leaf(p) => p.paths(env),
        StructurePattern::Node(p) => p.paths(env),
        StructurePattern::Object(p) => p.paths(env),
        StructurePattern::Obscured(p) => p.paths(env),
        StructurePattern::Predicate(p) => p.paths(env),
        StructurePattern::Subject(p) => p.paths(env),
        StructurePattern::Wrapped(p) => p.paths(env),
    }
}

impl StructurePattern {
    /// The paths this pattern finds at `env`.
    pub fn paths(&self, env: &Envelope) -> (r: Vec<Path>)
        ensures
            paths_model(r@) == structure_results(*self, env@),
    {
        structure_paths(self, env)
    }
}

impl AssertionsPattern {
    /// The assertions of `env` this pattern accepts, each as a one-element
    /// path.
    pub fn paths(&self, env: &Envelope) -> (r: Vec<Path>)
        ensures
            paths_model(r@) == structure_results(StructurePattern::Assertions(*self), env@),
        decreases pattern_size(Pattern::Structure(StructurePattern::Assertions(*self))), 0int, 0int, env@, 2int, 0int,
    {
        assertion_paths(self, env)
    }
}

impl DigestPattern {
    /// `[env]` when the digest of `env` is accepted.
    pub fn paths(&self, env: &Envelope) -> (r: Vec<Path>)
        ensures
            paths_model(r@) == structure_results(StructurePattern::Digest(*self), env@),
    {
        let d = env.digest();
        let hit = match self {
            DigestPattern::Digest(x) => bytes_equal(d.as_slice(), x.as_slice()),
            DigestPattern::Prefix(x) => bytes_start_with_ignore_ascii_case(d.as_slice(), x.as_slice()),
            DigestPattern::BinaryRegex(re) => bytes_regex_is_match(re.as_str(), d.as_slice()),
        };
        if hit {
            one_path(env)
        } else {
            no_paths()
        }
    }
}

impl LeafStructurePattern {
    /// `[env]` when `env` is a leaf or a known value.
    pub fn paths(&self, env: &Envelope) -> (r: Vec<Path>)
        ensures
            paths_model(r@) == structure_results(StructurePattern::Leaf(*self), env@),
    {
        if env.is_leaf() || env.is_known_value() {
            one_path(env)
        } else {
            no_paths()
        }
    }
}

impl NodePattern {
    /// `[env]` when `env` is a node whose assertions the pattern accepts.
    pub fn paths(&self, env: &Envelope) -> (r: Vec<Path>)
        ensures
            paths_model(r@) == structure_results(StructurePattern::Node(*self), env@),
    {
        if !env.is_node() {
            no_paths()
        } else {
            let hit = match self {
                NodePattern::Any => true,
                NodePattern::AssertionsInterval(iv) => iv.contains(env.assertion_count()),
            };
            if hit {
                one_path(env)
            } else {
                no_paths()
            }
        }
    }
}

impl ObjectPattern {
    /// `[object]` when `env` is an assertion whose object is accepted.
    pub fn paths(&self, env: &Envelope) -> (r: Vec<Path>)
        ensures
            paths_model(r@) == structure_results(StructurePattern::Object(*self), env@),
        decreases pattern_size(Pattern::Structure(StructurePattern::Object(*self))), 0int, 0int, env@, 2int, 0int,
    {
        match env.as_object() {
            Some(o) => match self {
                ObjectPattern::Any => one_path(o),
                ObjectPattern::Pattern(q) => {
                    if matches_at(q, o) {
                        one_path(o)
                    } else {
                        no_paths()
                    }
                },
            },
            None => no_paths(),
        }
    }
}

impl ObscuredPattern {
    /// `[env]` when `env` is obscured in the accepted way.
    pub fn paths(&self, env: &Envelope) -> (r: Vec<Path>)
        ensures
            paths_model(r@) == structure_results(StructurePattern::Obscured(*self), env@),
    {
        let hit = match self {
            ObscuredPattern::Any => env.is_obscured(),
            ObscuredPattern::Elided => env.is_elided(),
            ObscuredPattern::Encrypted => env.is_encrypted(),
            ObscuredPattern::Compressed => env.is_compressed(),
        };
        if hit {
            one_path(env)
        } else {
            no_paths()
        }
    }
}

impl PredicatePattern {
    /// `[predicate]` when `env` is an assertion whose predicate is accepted.
    pub fn paths(&self, env: &Envelope) -> (r: Vec<Path>)
        ensures
            paths_model(r@) == structure_results(StructurePattern::Predicate(*self), env@),
        decreases pattern_size(Pattern::Structure(StructurePattern::Predicate(*self))), 0int, 0int, env@, 2int, 0int,
    {
        match env.as_predicate() {
            Some(o) => match self {
                PredicatePattern::Any => one_path(o),
                PredicatePattern::Pattern(q) => {
                    if matches_at(q, o) {
                        one_path(o)
                    } else {
                        no_paths()
                    }
                },
            },
            None => no_paths(),
        }
    }
}

impl SubjectPattern {
    /// `[subject]` when the subject of `env` is accepted.
    pub fn paths(&self, env: &Envelope) -> (r: Vec<Path>)
        ensures
            paths_model(r@) == structure_results(StructurePattern::Subject(*self), env@),
        decreases pattern_size(Pattern::Structure(StructurePattern::Subject(*self))), 0int, 0int, env@, 2int, 0int,
    {
        let s = env.subject();
        match self {
            SubjectPattern::Any => one_path(s),
            SubjectPattern::Pattern(q) => {
                if matches_at(q, s) {
                    one_path(s)
                } else {
                    no_paths()
                }
            },
        }
    }
}

impl WrappedPattern {
    /// For `Any`, `[env]` when the subject of `env` is wrapped; for
    /// `Unwrap`, `env` followed by each path the inner pattern matches on the
    /// unwrapped content.
    pub fn paths(&self, env: &Envelope) -> (r: Vec<Path>)
        ensures
            paths_model(r@) == structure_results(StructurePattern::Wrapped(*self), env@),
        decreases pattern_size(Pattern::Structure(StructurePattern::Wrapped(*self))), 0int, 0int, env@, 2int, 0int,
    {
        let s = env.subject();
        if !s.is_wrapped() {
            return no_paths();
        }
        match self {
            WrappedPattern::Any => one_path(env),
            WrappedPattern::Unwrap(q) => match s.try_unwrap() {
                Some(u) => {
                    let (ps, _) = pattern_paths_with_captures(q, u);
                    let ghost pm = paths_model(ps@);
                    let mut out: Vec<Path> = Vec::new();
                    let mut i: usize = 0;
                    while i < ps.len()
                        invariant
                            i <= ps@.len(),
                            pm == paths_model(ps@),
                            out@.len() == i,
                            forall|j: int|
                                0 <= j < i ==> path_model(#[trigger] out@[j]@) == seq![env@]
                                    + pm[j],
                        decreases ps@.len() - i,
                    {
                        let mut p: Path = Vec::new();
                        p.push(env.duplicate());
                        assert(path_model(p@) =~= seq![env@]);
                        extend_path_from(&mut p, &ps[i], 0);
                        assert(path_model(ps@[i as int]@).skip(0) =~= path_model(ps@[i as int]@));
                        out.push(p);
                        i = i + 1;
                    }
                    assert(paths_model(out@) =~= Seq::new(
                        pm.len(),
                        |i: int| seq![env@] + pm[i],
                    ));
                    out
                },
                None => no_paths(),
            },
        }
    }
}

/// The assertions of `env` that an assertions pattern accepts, each as a
/// one-element path.
fn assertion_paths(ap: &AssertionsPattern, env: &Envelope) -> (r: Vec<Path>)
    ensures
        paths_model(r@) == assertion_scan(StructurePattern::Assertions(*ap), env@, 0),
    decreases pattern_size(Pattern::Structure(StructurePattern::Assertions(*ap))), 0int, 0int, env@, 1int, 0int,
{
    let ghost sp = StructurePattern::Assertions(*ap);
    let ghost asserts = env@.assertions();
    let mut out: Vec<Path> = Vec::new();
    match env.node_assertions() {
        Some(list) => {
            let mut i: usize = 0;
            assert(paths_model(out@) =~= Seq::<PathModel>::empty());
            while i < list.len()
                invariant
                    i <= list@.len(),
                    path_model(list@) == asserts,
                    asserts == env@.assertions(),
                    sp == StructurePattern::Assertions(*ap),
                    paths_model(out@) + assertion_scan(sp, env@, i as int) == assertion_scan(
                        sp,
                        env@,
                        0,
                    ),
                decreases list@.len() - i,
            {
                let a = &list[i];
                assert(a@ == asserts[i as int]);
                let hit = match ap {
                    AssertionsPattern::Any => true,
                    AssertionsPattern::WithPredicate(q) => match a.as_predicate() {
                        Some(x) => matches_at(q, x),
                        None => false,
                    },
                    AssertionsPattern::WithObject(q) => match a.as_object() {
                        Some(x) => matches_at(q, x),
                        None => false,
                    },
                };
                let ghost before = paths_model(out@);
                let ghost rest = assertion_scan(sp, env@, i + 1);
                if hit {
                    out.push(one_path_vec(a));
                    assert(paths_model(out@) =~= before.push(seq![a@]));
                    assert(before + (seq![seq![a@]] + rest) =~= before.push(seq![a@]) + rest);
                }
                i = i + 1;
            }
            assert(assertion_scan(sp, env@, list@.len() as int) =~= Seq::<PathModel>::empty());
            assert(paths_model(out@) =~= paths_model(out@) + Seq::<PathModel>::empty());
            out
        },
        None => {
            assert(paths_model(out@) =~= assertion_scan(sp, env@, 0));
            out
        },
    }
}

/// The path `[e]`.
fn one_path_vec(e: &Envelope) -> (r: Path)
    ensures
        path_model(r@) == seq![e@],
{
    let mut p: Path = Vec::new();
    p.push(e.duplicate());
    assert(path_model(p@) =~= seq![e@]);
    p
}

/// The paths and captures of a pattern that the machine tests in one step.
pub fn atomic_paths_with_captures(lit: &Pattern, env: &Envelope) -> (r: (Vec<Path>, Captures))
    ensures
        (paths_model(r.0@), captures_model(r.1@)) == atomic_results(*lit, env@),
    decreases pattern_size(*lit), 0int, 0int, env@, 4int, 0int,
{
    match lit {
        Pattern::Leaf(l) => leaf_paths_with_captures(l, env),
        Pattern::Structure(s) => (structure_paths(s, env), no_captures()),
        Pattern::Meta(MetaPattern::Any(_)) => (one_path(env), no_captures()),
        _ => (no_paths(), no_captures()),
    }
}

/// The paths a pattern matches at `env`, and what it captures under each
/// name: its program is run from `env`, and every emitted path is
/// returned, in order, with the captures of all of them merged by name.
pub fn pattern_paths_with_captures(p: &Pattern, env: &Envelope) -> (r: (Vec<Path>, Captures))
    ensures
        (paths_model(r.0@), captures_model(r.1@)) == pattern_results(*p, env@),
    decreases pattern_size(*p), 1int, 0int, env@, 0int, 0int,
{
    let prog = Program::compile(p);
    proof {
        lemma_program_fits(*p);
    }
    let th = start_thread(&prog, env);
    let (outs, _) = run_all_exec(&prog, Ghost(pattern_size(*p)), th);
    collect_outputs(&prog.capture_names, &outs)
}

// ---------------------------------------------------------------------------
// The machine
// ---------------------------------------------------------------------------

fn halt_out() -> (r: StepOut)
    ensures
        step_model(r) == halt(),
{
    let r = StepOut { outs: Vec::new(), forks: Vec::new(), produced: false };
    assert(outs_model(r.outs@) =~= Seq::<OutModel>::empty());
    assert(threads_model(r.forks@) =~= Seq::<ThreadModel>::empty());
    r
}

/// The thread after an instruction that only moves it along: `Pop`,
/// `ExtendTraversal`, `CombineTraversal`, `NavigateSubject`, `CaptureStart`
/// or `CaptureEnd`.
fn advance(prog: &Program, th: Thread) -> (r: Thread)
    requires
        th.pc < prog.code@.len(),
    ensures
        thread_model(r) == thread_steps_successor(prog.model(), thread_model(th)),
{
    let ghost pm = prog.model();
    let ghost tm = thread_model(th);
    let clen = prog.code.len();
    let mut th = th;
    match &prog.code[th.pc] {
        Instr::Pop => {
            if th.path.len() > 0 {
                let ghost before = th.path@;
                th.path.pop();
                assert(path_model(th.path@) =~= path_model(before).drop_last());
            }
            th.pc = th.pc + 1;
            th
        },
        Instr::ExtendTraversal => {
            if th.path.len() > 0 {
                let last = th.path[th.path.len() - 1].duplicate();
                let ghost before = paths_model(th.saved@);
                let mut old_path: Path = Vec::new();
                std::mem::swap(&mut old_path, &mut th.path);
                th.saved.push(old_path);
                assert(paths_model(th.saved@) =~= before.push(tm.path));
                th.path = one_path_vec(&last);
                th.env = last;
            }
            th.pc = th.pc + 1;
            th
        },
        Instr::CombineTraversal => {
            if th.saved.len() > 0 {
                let ghost before = th.saved@;
                let sp = th.saved.pop().unwrap();
                assert(paths_model(th.saved@) =~= paths_model(before).drop_last());
                let mut combined = copy_path(&sp);
                if sp.len() > 0 && th.path.len() > 0 && sp[sp.len() - 1].identical(&th.path[0]) {
                    extend_path_from(&mut combined, &th.path, 1);
                } else {
                    extend_path_from(&mut combined, &th.path, 0);
                    assert(path_model(th.path@).skip(0) =~= path_model(th.path@));
                }
                th.path = combined;
            }
            th.pc = th.pc + 1;
            th
        },
        Instr::NavigateSubject => {
            if th.env.is_node() {
                let s = th.env.subject().duplicate();
                th.path = path_push(&th.path, &s);
                th.env = s;
            }
            th.pc = th.pc + 1;
            th
        },
        Instr::CaptureStart(id) => {
            let id = *id;
            let start: usize = if th.path.len() > 0 {
                th.path.len() - 1
            } else {
                0
            };
            if id < th.cstack.len() {
                let mut stk = copy_usizes(&th.cstack[id]);
                stk.push(start);
                let ghost cm = cstack_model(th.cstack@);
                th.cstack.set(id, stk);
                assert(cstack_model(th.cstack@)[id as int] =~= cm[id as int].push(start as int));
                assert(cstack_model(th.cstack@) =~= cm.update(
                    id as int,
                    cm[id as int].push(start as int),
                ));
            }
            th.pc = th.pc + 1;
            th
        },
        Instr::CaptureEnd(id) => end_capture(prog, th, *id),
        _ => {
            th.pc = th.pc + 1;
            th
        },
    }
}

/// Runs one thread until it halts: what it emits, the threads it forks, and
/// whether it produced anything.
fn thread_steps_exec(prog: &Program, Ghost(bound): Ghost<nat>, th: Thread) -> (r: StepOut)
    requires
        program_fits(prog.model(), bound),
    ensures
        step_model(r) == thread_steps(prog.model(), bound, thread_model(th)),
    decreases bound, 0int, prog.model().code.len() - thread_model(th).pc, thread_model(th).env, 2int, 0int,
{
    let ghost pm = prog.model();
    let ghost tm = thread_model(th);
    let clen = prog.code.len();
    if th.pc >= clen {
        return halt_out();
    }
    match &prog.code[th.pc] {
        Instr::MatchPredicate(idx) => step_match_predicate(prog, Ghost(bound), th, *idx),
        Instr::MatchStructure(idx) => step_match_structure(prog, Ghost(bound), th, *idx),
        Instr::Split { a, b } => {
            let a = *a;
            let b = *b;
            if th.pc < a && a < clen && th.pc < b && b < clen {
                let mut fork = copy_thread(&th);
                fork.pc = a;
                let mut th = th;
                th.pc = b;
                let rest = thread_steps_exec(prog, Ghost(bound), th);
                let mut forks: Vec<Thread> = Vec::new();
                forks.push(fork);
                let ghost f1 = threads_model(forks@);
                assert(f1 =~= seq![ThreadModel { pc: a as int, ..tm }]);
                let StepOut { outs, forks: rf, produced } = rest;
                append_threads(&mut forks, rf);
                StepOut { outs, forks, produced }
            } else {
                halt_out()
            }
        },
        Instr::Jump(t) => {
            let t = *t;
            if th.pc < t && t < clen {
                let mut th = th;
                th.pc = t;
                thread_steps_exec(prog, Ghost(bound), th)
            } else {
                halt_out()
            }
        },
        Instr::PushAxis(axis) => step_push_axis(prog, th, *axis),
        Instr::Save => {
            let out: Out = (copy_path(&th.path), copy_groups(&th.caps));
            let mut th = th;
            th.pc = th.pc + 1;
            let rest = thread_steps_exec(prog, Ghost(bound), th);
            let mut outs: Vec<Out> = Vec::new();
            outs.push(out);
            assert(outs_model(outs@) =~= seq![(tm.path, tm.caps)]);
            let StepOut { outs: ro, forks, produced } = rest;
            append_outs(&mut outs, ro);
            StepOut { outs, forks, produced: true }
        },
        Instr::Accept => {
            let mut outs: Vec<Out> = Vec::new();
            outs.push((th.path, th.caps));
            assert(outs_model(outs@) =~= seq![(tm.path, tm.caps)]);
            let forks: Vec<Thread> = Vec::new();
            assert(threads_model(forks@) =~= Seq::<ThreadModel>::empty());
            StepOut { outs, forks, produced: true }
        },
        Instr::Search { pat_idx, capture_map } => step_search(prog, Ghost(bound), th, *pat_idx, capture_map),
        Instr::NotMatch { pat_idx } => {
            let pat_idx = *pat_idx;
            if pat_idx >= prog.literals.len() {
                return halt_out();
            }
            assert(instr_fits(pm.code[tm.pc], pm.lits, bound));
            let hit = match &prog.literals[pat_idx] {
                Literal::Pattern(lp) => matches_at(lp, &th.env),
                Literal::AnyWrapped => {
                    let w = Pattern::Structure(StructurePattern::Wrapped(WrappedPattern::Any));
                    matches_at(&w, &th.env)
                },
            };
            if hit {
                halt_out()
            } else {
                let mut th = th;
                th.pc = th.pc + 1;
                thread_steps_exec(prog, Ghost(bound), th)
            }
        },
        Instr::Repeat { pat_idx, quantifier } => step_repeat(prog, Ghost(bound), th, *pat_idx, *quantifier),
        _ => {
            let th2 = advance(prog, th);
            thread_steps_exec(prog, Ghost(bound), th2)
        },
    }
}

fn step_match_predicate(prog: &Program, Ghost(bound): Ghost<nat>, th: Thread, idx: usize) -> (r: StepOut)
    requires
        program_fits(prog.model(), bound),
        th.pc < prog.code@.len(),
        prog.model().code[th.pc as int] == InstrModel::MatchPredicate(idx as nat),
    ensures
        step_model(r) == thread_steps(prog.model(), bound, thread_model(th)),
    decreases bound, 0int, prog.model().code.len() - thread_model(th).pc, thread_model(th).env, 1int, 0int,
{
    let ghost pm = prog.model();
    let ghost tm = thread_model(th);
    let clen = prog.code.len();
    if idx >= prog.literals.len() {
        return halt_out();
    }
    assert(pattern_size(pm.lits[idx as int]) <= bound);
    let r = match &prog.literals[idx] {
        Literal::Pattern(lp) => atomic_paths_with_captures(lp, &th.env),
        Literal::AnyWrapped => {
            let w = Pattern::Structure(StructurePattern::Wrapped(WrappedPattern::Any));
            atomic_paths_with_captures(&w, &th.env)
        },
    };
    let (paths, acaps) = r;
    if paths.len() == 0 {
        return halt_out();
    }
    let n = paths.len();
    let th0 = first_after_atomic(&prog.capture_names, th, &paths, &acaps);
    let ghost t0 = thread_model(th0);
    let ghost pms = paths_model(paths@);
    let ghost ams = captures_model(acaps@);
    let ghost nm = names_model(prog.capture_names@);
    let mut forks: Vec<Thread> = Vec::new();
    let mut k: usize = 0;
    assert(threads_model(forks@) =~= Seq::<ThreadModel>::empty());
    while k + 1 < n
        invariant
            n == paths@.len(),
            n > 0,
            k + 1 <= n,
            t0 == thread_model(th0),
            pms == paths_model(paths@),
            ams == captures_model(acaps@),
            nm == names_model(prog.capture_names@),
            threads_model(forks@) == Seq::new(
                k as nat,
                |j: int| predicate_fork(nm, t0, pms, ams, n - 1 - j),
            ),
        decreases n - k,
    {
        let f = fork_after_atomic(&prog.capture_names, &th0, &paths, &acaps, n - 1 - k);
        let ghost before = threads_model(forks@);
        forks.push(f);
        assert(threads_model(forks@) =~= before.push(thread_model(f)));
        assert(threads_model(forks@) =~= Seq::new(
            (k + 1) as nat,
            |j: int| predicate_fork(nm, t0, pms, ams, n - 1 - j),
        ));
        k = k + 1;
    }
    let rest = thread_steps_exec(prog, Ghost(bound), th0);
    let StepOut { outs, forks: rf, produced } = rest;
    append_threads(&mut forks, rf);
    StepOut { outs, forks, produced }
}

fn step_match_structure(prog: &Program, Ghost(bound): Ghost<nat>, th: Thread, idx: usize) -> (r: StepOut)
    requires
        program_fits(prog.model(), bound),
        th.pc < prog.code@.len(),
        prog.model().code[th.pc as int] == InstrModel::MatchStructure(idx as nat),
    ensures
        step_model(r) == thread_steps(prog.model(), bound, thread_model(th)),
    decreases bound, 0int, prog.model().code.len() - thread_model(th).pc, thread_model(th).env, 1int, 0int,
{
    let ghost pm = prog.model();
    let ghost tm = thread_model(th);
    let clen = prog.code.len();
    if idx >= prog.literals.len() {
        return halt_out();
    }
    assert(pattern_size(pm.lits[idx as int]) <= bound);
    let sps = match &prog.literals[idx] {
        Literal::Pattern(lp) => match lp {
            Pattern::Structure(sp) => structure_paths(sp, &th.env),
            _ => {
                return halt_out();
            },
        },
        Literal::AnyWrapped => {
            let w = StructurePattern::Wrapped(WrappedPattern::Any);
            structure_paths(&w, &th.env)
        },
    };
    if sps.len() == 0 {
        return halt_out();
    }
    let n = sps.len();
    let mut th0 = th;
    th0.pc = th0.pc + 1;
    let e0 = last_or_copy(&sps[0], &th0.env);
    th0.path = copy_path(&sps[0]);
    th0.env = e0;
    let ghost t0 = thread_model(th0);
    let ghost sm = paths_model(sps@);
    let mut forks: Vec<Thread> = Vec::new();
    let mut k: usize = 0;
    assert(threads_model(forks@) =~= Seq::<ThreadModel>::empty());
    while k + 1 < n
        invariant
            n == sps@.len(),
            n > 0,
            k + 1 <= n,
            t0 == thread_model(th0),
            sm == paths_model(sps@),
            threads_model(forks@) == Seq::new(
                k as nat,
                |j: int| ThreadModel { path: sm[j + 1], env: last_or(sm[j + 1], t0.env), ..t0 },
            ),
        decreases n - k,
    {
        let mut f = copy_thread(&th0);
        f.env = last_or_copy(&sps[k + 1], &th0.env);
        f.path = copy_path(&sps[k + 1]);
        assert(thread_model(f) == ThreadModel {
            path: sm[k + 1],
            env: last_or(sm[k + 1], t0.env),
            ..t0
        });
        let ghost before = threads_model(forks@);
        forks.push(f);
        assert(threads_model(forks@) =~= before.push(thread_model(f)));
        assert(threads_model(forks@) =~= Seq::new(
            (k + 1) as nat,
            |j: int| ThreadModel { path: sm[j + 1], env: last_or(sm[j + 1], t0.env), ..t0 },
        ));
        k = k + 1;
    }
    let rest = thread_steps_exec(prog, Ghost(bound), th0);
    let StepOut { outs, forks: rf, produced } = rest;
    append_threads(&mut forks, rf);
    StepOut { outs, forks, produced }
}

fn step_push_axis(prog: &Program, th: Thread, axis: Axis) -> (r: StepOut)
    requires
        th.pc < prog.code@.len(),
        prog.model().code[th.pc as int] == InstrModel::PushAxis(axis),
    ensures
        forall|bound: nat| step_model(r) == #[trigger] thread_steps(prog.model(), bound, thread_model(th)),
{
    let ghost tm = thread_model(th);
    let clen = prog.code.len();
    let ch = axis.child_elements(&th.env);
    let ghost cm = path_model(ch@);
    let mut forks: Vec<Thread> = Vec::new();
    let mut k: usize = 0;
    assert(threads_model(forks@) =~= Seq::<ThreadModel>::empty());
    while k < ch.len()
        invariant
            k <= ch@.len(),
            cm == path_model(ch@),
            tm == thread_model(th),
            th.pc < clen,
            threads_model(forks@) == Seq::new(
                k as nat,
                |j: int| ThreadModel { env: cm[j], path: tm.path.push(cm[j]), pc: tm.pc + 1, ..tm },
            ),
        decreases ch@.len() - k,
    {
        let mut f = copy_thread(&th);
        f.pc = th.pc + 1;
        f.env = ch[k].duplicate();
        f.path = path_push(&th.path, &ch[k]);
        assert(thread_model(f) == ThreadModel {
            env: cm[k as int],
            path: tm.path.push(cm[k as int]),
            pc: tm.pc + 1,
            ..tm
        });
        let ghost before = threads_model(forks@);
        forks.push(f);
        assert(threads_model(forks@) =~= before.push(thread_model(f)));
        assert(threads_model(forks@) =~= Seq::new(
            (k + 1) as nat,
            |j: int| ThreadModel { env: cm[j], path: tm.path.push(cm[j]), pc: tm.pc + 1, ..tm },
        ));
        k = k + 1;
    }
    let outs: Vec<Out> = Vec::new();
    assert(outs_model(outs@) =~= Seq::<OutModel>::empty());
    StepOut { outs, forks, produced: false }
}

fn step_search(
    prog: &Program,
    Ghost(bound): Ghost<nat>,
    th: Thread,
    pat_idx: usize,
    cmap: &Vec<(String, usize)>,
) -> (r: StepOut)
    requires
        program_fits(prog.model(), bound),
        th.pc < prog.code@.len(),
        prog.model().code[th.pc as int] == (InstrModel::Search {
            pat_idx: pat_idx as nat,
            capture_map: capture_map_model(cmap@),
        }),
    ensures
        step_model(r) == thread_steps(prog.model(), bound, thread_model(th)),
    decreases bound, 0int, prog.model().code.len() - thread_model(th).pc, thread_model(th).env, 1int, 0int,
{
    let ghost pm = prog.model();
    let ghost tm = thread_model(th);
    if pat_idx >= prog.literals.len() {
        return halt_out();
    }
    assert(instr_fits(pm.code[tm.pc], pm.lits, bound));
    let (found, icaps) = match &prog.literals[pat_idx] {
        Literal::Pattern(lp) => pattern_paths_with_captures(lp, &th.env),
        Literal::AnyWrapped => {
            let w = Pattern::Structure(StructurePattern::Wrapped(WrappedPattern::Any));
            pattern_paths_with_captures(&w, &th.env)
        },
    };
    let ghost fm = paths_model(found@);
    let ghost im = captures_model(icaps@);
    let ghost mm = capture_map_model(cmap@);
    let ghost goal = search_emit(tm, fm, im, mm, 0, tm.seen);
    let mut outs: Vec<Out> = Vec::new();
    let mut seen = copy_seen(&th.seen);
    let mut k: usize = 0;
    assert(outs_model(outs@) =~= Seq::<OutModel>::empty());
    assert(outs_model(outs@) + goal.0 =~= goal.0);
    while k < found.len()
        invariant
            k <= found@.len(),
            tm == thread_model(th),
            fm == paths_model(found@),
            im == captures_model(icaps@),
            mm == capture_map_model(cmap@),
            goal == search_emit(tm, fm, im, mm, 0, tm.seen),
            outs_model(outs@) + search_emit(tm, fm, im, mm, k as int, seen.deep_view()).0 == goal.0,
            search_emit(tm, fm, im, mm, k as int, seen.deep_view()).1 == goal.1,
        decreases found@.len() - k,
    {
        let rp = search_path(&th, &found[k]);
        let d = digests_of(&rp);
        if !seen_contains(&seen, &d) {
            let caps = search_caps(&th.caps, &icaps, cmap);
            let ghost before = outs_model(outs@);
            let ghost om = (path_model(rp@), groups_model(caps@));
            let ghost rest = search_emit(tm, fm, im, mm, k + 1, seen.deep_view().push(d.deep_view()));
            outs.push((rp, caps));
            assert(outs_model(outs@) =~= before.push(om));
            assert(before + (seq![om] + rest.0) =~= before.push(om) + rest.0);
            let ghost sv = seen.deep_view();
            seen.push(d);
            assert(seen.deep_view() =~= sv.push(d.deep_view()));
        }
        k = k + 1;
    }
    assert(outs_model(outs@) + Seq::<OutModel>::empty() =~= outs_model(outs@));
    let ch = children_of(&th.env);
    let n = ch.len();
    let ghost cm = path_model(ch@);
    let ghost sv = seen.deep_view();
    let mut forks: Vec<Thread> = Vec::new();
    let mut j: usize = 0;
    assert(threads_model(forks@) =~= Seq::<ThreadModel>::empty());
    while j < n
        invariant
            j <= n,
            n == ch@.len(),
            cm == path_model(ch@),
            tm == thread_model(th),
            sv == seen.deep_view(),
            threads_model(forks@) == Seq::new(
                j as nat,
                |i: int|
                    ThreadModel {
                        env: cm[n - 1 - i],
                        path: tm.path.push(cm[n - 1 - i]),
                        seen: sv,
                        ..tm
                    },
            ),
        decreases n - j,
    {
        let c = &ch[n - 1 - j];
        let mut f = copy_thread(&th);
        f.env = c.duplicate();
        f.path = path_push(&th.path, c);
        f.seen = copy_seen(&seen);
        assert(thread_model(f) == ThreadModel {
            env: cm[n - 1 - j],
            path: tm.path.push(cm[n - 1 - j]),
            seen: sv,
            ..tm
        });
        let ghost before = threads_model(forks@);
        forks.push(f);
        assert(threads_model(forks@) =~= before.push(thread_model(f)));
        assert(threads_model(forks@) =~= Seq::new(
            (j + 1) as nat,
            |i: int|
                ThreadModel {
                    env: cm[n - 1 - i],
                    path: tm.path.push(cm[n - 1 - i]),
                    seen: sv,
                    ..tm
                },
        ));
        j = j + 1;
    }
    StepOut { outs, forks, produced: found.len() > 0 }
}

fn step_repeat(
    prog: &Program,
    Ghost(bound): Ghost<nat>,
    th: Thread,
    pat_idx: usize,
    q: Quantifier,
) -> (r: StepOut)
    requires
        program_fits(prog.model(), bound),
        th.pc < prog.code@.len(),
        prog.model().code[th.pc as int] == (InstrModel::Repeat {
            pat_idx: pat_idx as nat,
            quantifier: q,
        }),
    ensures
        step_model(r) == thread_steps(prog.model(), bound, thread_model(th)),
    decreases bound, 0int, prog.model().code.len() - thread_model(th).pc, thread_model(th).env, 1int, 0int,
{
    let ghost pm = prog.model();
    let ghost tm = thread_model(th);
    if pat_idx >= prog.literals.len() {
        return halt_out();
    }
    assert(instr_fits(pm.code[tm.pc], pm.lits, bound));
    let results = match &prog.literals[pat_idx] {
        Literal::Pattern(lp) => repeat_paths_exec(lp, &th.env, &th.path, q),
        Literal::AnyWrapped => {
            let w = Pattern::Structure(StructurePattern::Wrapped(WrappedPattern::Any));
            repeat_paths_exec(&w, &th.env, &th.path, q)
        },
    };
    if results.len() == 0 {
        return halt_out();
    }
    let r = try_repeats_exec(prog, Ghost(bound), &th, &results, 0);
    let forks: Vec<Thread> = Vec::new();
    assert(threads_model(forks@) =~= Seq::<ThreadModel>::empty());
    StepOut { outs: r.0, forks, produced: r.1 }
}

/// Runs the rest of the program after each repetition outcome from
/// `results[i]` on, stopping after the first run that produces a path.
fn try_repeats_exec(
    prog: &Program,
    Ghost(bound): Ghost<nat>,
    th: &Thread,
    results: &Vec<(Envelope, Path)>,
    i: usize,
) -> (r: (Vec<Out>, bool))
    requires
        program_fits(prog.model(), bound),
        i <= results@.len(),
    ensures
        (outs_model(r.0@), r.1) == try_repeats(
            prog.model(),
            bound,
            thread_model(*th),
            states_model(results@),
            i as int,
        ),
    decreases bound, 0int, prog.model().code.len() - thread_model(*th).pc, thread_model(*th).env, 0int, results@.len() - i,
{
    let clen = prog.code.len();
    if i >= results.len() || th.pc >= clen {
        let outs: Vec<Out> = Vec::new();
        assert(outs_model(outs@) =~= Seq::<OutModel>::empty());
        return (outs, false);
    }
    let mut f = copy_thread(th);
    f.pc = th.pc + 1;
    f.env = results[i].0.duplicate();
    f.path = copy_path(&results[i].1);
    let a = run_all_exec(prog, Ghost(bound), f);
    if a.1 {
        return a;
    }
    let b = try_repeats_exec(prog, Ghost(bound), th, results, i + 1);
    let (mut outs, _) = a;
    append_outs(&mut outs, b.0);
    (outs, b.1)
}

/// Runs `th` and then, last pushed first, every thread it forked.
#[verifier::loop_isolation(false)]
fn run_all_exec(prog: &Program, Ghost(bound): Ghost<nat>, th: Thread) -> (r: (Vec<Out>, bool))
    requires
        program_fits(prog.model(), bound),
    ensures
        (outs_model(r.0@), r.1) == run_all(prog.model(), bound, thread_model(th)),
    decreases bound, 0int, prog.model().code.len() - thread_model(th).pc, thread_model(th).env, 3int, 0int,
{
    let ghost pm = prog.model();
    let ghost tm = thread_model(th);
    let step = thread_steps_exec(prog, Ghost(bound), th);
    let ghost sm = step_model(step);
    proof {
        lemma_forks_ok(pm, bound, tm);
    }
    let StepOut { outs, forks, produced } = step;
    let mut outs = outs;
    let mut forks = forks;
    let mut produced = produced;
    let ghost n = forks@.len() as int;
    let ghost goal = run_forks(pm, bound, tm, sm.forks, n);
    assert(threads_model(forks@) =~= sm.forks.subrange(0, n));
    while forks.len() > 0
        invariant
            pm == prog.model(),
            program_fits(pm, bound),
            sm.forks.len() == n,
            forks@.len() <= n,
            threads_model(forks@) == sm.forks.subrange(0, forks@.len() as int),
            all_forks_ok(pm.code.len() as int, tm, sm.forks),
            goal == run_forks(pm, bound, tm, sm.forks, n),
            outs_model(outs@) + run_forks(pm, bound, tm, sm.forks, forks@.len() as int).0
                == sm.outs + goal.0,
            (produced || run_forks(pm, bound, tm, sm.forks, forks@.len() as int).1) == (
            sm.produced || goal.1),
        decreases forks@.len(),
    {
        let ghost j = forks@.len() as int;
        let ghost before = forks@;
        let f = forks.pop().unwrap();
        assert(threads_model(before)[j - 1] == thread_model(f));
        assert(thread_model(f) == sm.forks[j - 1]);
        assert(fork_ok(pm.code.len() as int, tm, sm.forks[j - 1]));
        assert(threads_model(forks@) =~= sm.forks.subrange(0, j - 1));
        let ghost rest = run_forks(pm, bound, tm, sm.forks, j - 1);
        let a = run_all_exec(prog, Ghost(bound), f);
        let ghost om = outs_model(outs@);
        let (ao, ap) = a;
        let ghost am = outs_model(ao@);
        append_outs(&mut outs, ao);
        produced = produced || ap;
        assert(om + (am + rest.0) =~= (om + am) + rest.0);
    }
    assert(outs_model(outs@) + Seq::<OutModel>::empty() =~= outs_model(outs@));
    (outs, produced)
}

// ---------------------------------------------------------------------------
// Repetition
// ---------------------------------------------------------------------------

/// Where a repetition may end: the element and the path so far.
pub type RepeatState = (Envelope, Path);

pub open spec fn states_model(s: Seq<RepeatState>) -> Seq<(EnvelopeModel, PathModel)> {
    Seq::new(s.len(), |i: int| (s[i].0@, path_model(s[i].1@)))
}

pub open spec fn state_lists_model(s: Seq<Vec<RepeatState>>) -> Seq<Seq<(EnvelopeModel, PathModel)>> {
    Seq::new(s.len(), |i: int| states_model(s[i]@))
}

fn copy_states(v: &Vec<RepeatState>) -> (r: Vec<RepeatState>)
    ensures
        states_model(r@) == states_model(v@),
{
    let mut out: Vec<RepeatState> = Vec::new();
    let mut i: usize = 0;
    while i < v.len()
        invariant
            i <= v@.len(),
            out@.len() == i,
            forall|j: int|
                0 <= j < i ==> (#[trigger] out@[j]).0@ == v@[j].0@ && path_model(out@[j].1@)
                    == path_model(v@[j].1@),
        decreases v@.len() - i,
    {
        out.push((v[i].0.duplicate(), copy_path(&v[i].1)));
        i = i + 1;
    }
    assert(states_model(out@) =~= states_model(v@));
    out
}

/// Appends copies of `extra` to `out`.
fn append_states(out: &mut Vec<RepeatState>, extra: &Vec<RepeatState>)
    ensures
        states_model(final(out)@) == states_model(old(out)@) + states_model(extra@),
{
    let mut c = copy_states(extra);
    let ghost a = out@;
    let ghost b = c@;
    out.append(&mut c);
    assert(states_model(out@) =~= states_model(a) + states_model(b));
}

/// Appends the extensions of `pth` by each path of `subs` that ends
/// somewhere other than `e`.
fn extend_states(out: &mut Vec<RepeatState>, e: &Envelope, pth: &Path, subs: &Vec<Path>)
    ensures
        states_model(final(out)@) == states_model(old(out)@) + extend_by_subpaths(
            e@,
            path_model(pth@),
            paths_model(subs@),
            0,
        ),
{
    let ghost sm = paths_model(subs@);
    let ghost pm = path_model(pth@);
    let ghost goal = states_model(old(out)@) + extend_by_subpaths(e@, pm, sm, 0);
    let mut j: usize = 0;
    assert(states_model(out@) + extend_by_subpaths(e@, pm, sm, 0) == goal);
    while j < subs.len()
        invariant
            j <= subs@.len(),
            sm == paths_model(subs@),
            pm == path_model(pth@),
            states_model(out@) + extend_by_subpaths(e@, pm, sm, j as int) == goal,
        decreases subs@.len() - j,
    {
        let sub = &subs[j];
        let ghost rest = extend_by_subpaths(e@, pm, sm, j + 1);
        if sub.len() == 0 || sub[sub.len() - 1].same_digest(e) {
        } else {
            let mut combined = copy_path(pth);
            if sub[0].identical(e) {
                extend_path_from(&mut combined, sub, 1);
            } else {
                extend_path_from(&mut combined, sub, 0);
                assert(path_model(sub@).skip(0) =~= path_model(sub@));
            }
            let ghost before = states_model(out@);
            let ghost item = (sub@[sub@.len() - 1]@, path_model(combined@));
            out.push((sub[sub.len() - 1].duplicate(), combined));
            assert(states_model(out@) =~= before.push(item));
            assert(before + (seq![item] + rest) =~= before.push(item) + rest);
        }
        j = j + 1;
    }
    assert(states_model(out@) + Seq::<(EnvelopeModel, PathModel)>::empty() =~= states_model(out@));
}

/// One more match of `pat` from each state of `last`.
fn repeat_step_exec(pat: &Pattern, env: &Envelope, last: &Vec<RepeatState>) -> (r: Vec<RepeatState>)
    ensures
        states_model(r@) == repeat_step(*pat, env@, states_model(last@), 0),
    decreases pattern_size(*pat), 2int, 0int, env@, 0int, 0int,
{
    let ghost lm = states_model(last@);
    let ghost goal = repeat_step(*pat, env@, lm, 0);
    let mut out: Vec<RepeatState> = Vec::new();
    let mut i: usize = 0;
    assert(states_model(out@) + goal =~= goal);
    while i < last.len()
        invariant
            i <= last@.len(),
            lm == states_model(last@),
            goal == repeat_step(*pat, env@, lm, 0),
            states_model(out@) + repeat_step(*pat, env@, lm, i as int) == goal,
        decreases last@.len() - i,
    {
        let (subs, _) = pattern_paths_with_captures(pat, &last[i].0);
        let ghost before = states_model(out@);
        let ghost ext = extend_by_subpaths(lm[i as int].0, lm[i as int].1, paths_model(subs@), 0);
        let ghost rest = repeat_step(*pat, env@, lm, i + 1);
        extend_states(&mut out, &last[i].0, &last[i].1, &subs);
        assert(before + (ext + rest) =~= (before + ext) + rest);
        i = i + 1;
    }
    assert(states_model(out@) + Seq::<(EnvelopeModel, PathModel)>::empty() =~= states_model(out@));
    out
}

/// The states after each number of repetitions, up to `limit` or until a
/// round finds nothing.
fn repeat_states_exec(pat: &Pattern, env: &Envelope, path: &Path, limit: usize) -> (r: Vec<
    Vec<RepeatState>,
>)
    ensures
        state_lists_model(r@) == repeat_states(
            *pat,
            env@,
            seq![seq![(env@, path_model(path@))]],
            0,
            limit as int,
        ),
        r@.len() >= 1,
    decreases pattern_size(*pat), 3int, 0int, env@, 0int, 0int,
{
    let ghost init = seq![seq![(env@, path_model(path@))]];
    let ghost goal = repeat_states(*pat, env@, init, 0, limit as int);
    let mut first: Vec<RepeatState> = Vec::new();
    first.push((env.duplicate(), copy_path(path)));
    let mut states: Vec<Vec<RepeatState>> = Vec::new();
    states.push(first);
    assert(states_model(states@[0]@) =~= seq![(env@, path_model(path@))]);
    assert(state_lists_model(states@) =~= init);
    let mut k: usize = 0;
    let mut done = false;
    while !done && k < limit
        invariant
            states@.len() >= 1,
            k <= limit,
            goal == repeat_states(*pat, env@, init, 0, limit as int),
            done ==> state_lists_model(states@) == goal,
            !done ==> repeat_states(*pat, env@, state_lists_model(states@), k as int, limit as int)
                == goal,
        decreases limit - k, if done { 0int } else { 1int },
    {
        let next = repeat_step_exec(pat, env, &states[states.len() - 1]);
        if next.len() == 0 {
            done = true;
        } else {
            let ghost before = state_lists_model(states@);
            states.push(next);
            assert(state_lists_model(states@) =~= before.push(states_model(next@)));
            k = k + 1;
        }
    }
    states
}

/// Where `pat` repeated according to `q` can end when started at `env`
/// with the path `path`, in the order the quantifier's reluctance tries
/// them.
pub fn repeat_paths_exec(pat: &Pattern, env: &Envelope, path: &Path, q: Quantifier) -> (r: Vec<
    RepeatState,
>)
    ensures
        states_model(r@) == repeat_results(*pat, env@, path_model(path@), q),
    decreases pattern_size(*pat), 4int, 0int, env@, 0int, 0int,
{
    let limit: usize = match q.max() {
        Some(m) => m,
        None => usize::MAX,
    };
    let min = q.min();
    let states = repeat_states_exec(pat, env, path, limit);
    let ghost sl = state_lists_model(states@);
    let ghost zero_item = (env@, path_model(path@));
    let max_possible = states.len() - 1;
    let max_allowed = if limit < max_possible {
        limit
    } else {
        max_possible
    };
    let has_zero = min == 0;
    let min_count: usize = if min == 0 {
        1
    } else {
        min
    };
    let mut out: Vec<RepeatState> = Vec::new();
    if max_allowed < min && min > 0 {
        assert(states_model(out@) =~= Seq::<(EnvelopeModel, PathModel)>::empty());
        return out;
    }
    if max_allowed < min_count {
        if has_zero {
            out.push((env.duplicate(), copy_path(path)));
            assert(states_model(out@) =~= seq![zero_item]);
        } else {
            assert(states_model(out@) =~= Seq::<(EnvelopeModel, PathModel)>::empty());
        }
        return out;
    }
    match q.reluctance() {
        Reluctance::Greedy => {
            let span: usize = max_allowed - min_count + 1;
            let mut t: usize = 0;
            assert(states_model(out@) =~= Seq::<(EnvelopeModel, PathModel)>::empty());
            assert(states_model(out@) + states_down(sl, min_count as int, max_allowed as int)
                =~= states_down(sl, min_count as int, max_allowed as int));
            while t < span
                invariant
                    t <= span,
                    span == max_allowed - min_count + 1,
                    min_count <= max_allowed,
                    max_allowed < states@.len(),
                    min_count >= 1,
                    sl == state_lists_model(states@),
                    states_model(out@) + states_down(sl, min_count as int, max_allowed - t)
                        == states_down(sl, min_count as int, max_allowed as int),
                decreases span - t,
            {
                let c = max_allowed - t;
                let ghost before = states_model(out@);
                append_states(&mut out, &states[c]);
                assert(before + (sl[c as int] + states_down(sl, min_count as int, c - 1)) =~= (
                before + sl[c as int]) + states_down(sl, min_count as int, c - 1));
                t = t + 1;
            }
            assert(states_model(out@) + Seq::<(EnvelopeModel, PathModel)>::empty()
                =~= states_model(out@));
            if has_zero {
                let ghost before = states_model(out@);
                out.push((env.duplicate(), copy_path(path)));
                assert(states_model(out@) =~= before + seq![zero_item]);
            } else {
                assert(states_model(out@) =~= states_model(out@) + Seq::<(EnvelopeModel, PathModel)>::empty());
            }
            out
        },
        Reluctance::Lazy => {
            if has_zero {
                out.push((env.duplicate(), copy_path(path)));
            }
            let ghost zero = states_model(out@);
            let mut c: usize = min_count;
            while c <= max_allowed
                invariant
                    min_count <= c <= max_allowed + 1,
                    max_allowed < states@.len(),
                    max_allowed <= max_possible,
                    max_possible < usize::MAX,
                    sl == state_lists_model(states@),
                    states_model(out@) + states_up(sl, c as int, max_allowed as int) == zero
                        + states_up(sl, min_count as int, max_allowed as int),
                decreases max_allowed + 1 - c,
            {
                let ghost before = states_model(out@);
                append_states(&mut out, &states[c]);
                assert(before + (sl[c as int] + states_up(sl, c + 1, max_allowed as int)) =~= (
                before + sl[c as int]) + states_up(sl, c + 1, max_allowed as int));
                c = c + 1;
            }
            assert(states_model(out@) + Seq::<(EnvelopeModel, PathModel)>::empty()
                =~= states_model(out@));
            if has_zero {
                assert(zero =~= seq![zero_item]);
            } else {
                assert(zero =~= Seq::<(EnvelopeModel, PathModel)>::empty());
            }
            out
        },
        Reluctance::Possessive => {
            assert(states_model(out@) =~= Seq::<(EnvelopeModel, PathModel)>::empty());
            append_states(&mut out, &states[max_allowed]);
            assert(states_model(out@) =~= sl[max_allowed as int]);
            out
        },
    }
}

// ---------------------------------------------------------------------------
// Running a program
// ---------------------------------------------------------------------------

/// Runs the thread `start` and every thread it forks, appending what they
/// emit to `out`, and tells whether any of them produced a path. What `out`
/// held stays as it was, in front; and whenever something is appended the
/// run reports that it produced.
pub fn run_thread(prog: &Program, start: Thread, out: &mut Vec<Out>) -> (r: bool)
    requires
        exists|b: nat| program_fits(prog.model(), b),
    ensures
        outs_model(final(out)@) == outs_model(old(out)@) + run_all(
            prog.model(),
            choose|b: nat| program_fits(prog.model(), b),
            thread_model(start),
        ).0,
        r == run_all(
            prog.model(),
            choose|b: nat| program_fits(prog.model(), b),
            thread_model(start),
        ).1,
        final(out)@.subrange(0, old(out)@.len() as int) == old(out)@,
        final(out)@.len() > old(out)@.len() ==> r,
{
    let ghost b = choose|b: nat| program_fits(prog.model(), b);
    let ghost before = out@;
    let (outs, produced) = run_all_exec(prog, Ghost(b), start);
    let ghost added = outs@;
    let mut outs = outs;
    out.append(&mut outs);
    proof {
        crate::machine_law::law_run_reports_what_it_emits(prog.model(), b, thread_model(start));
        assert(out@ =~= before + added);
        assert(out@.subrange(0, before.len() as int) =~= before);
        assert(outs_model(out@) =~= outs_model(before) + outs_model(added));
    }
    produced
}

/// What a program emits from `root`: each path with its captures by name.
pub open spec fn run_results(prog: ProgModel, root: EnvelopeModel) -> Seq<(PathModel, CapsModel)> {
    let b = choose|b: nat| program_fits(prog, b);
    let outs = run_all(prog, b, initial_thread(prog, root)).0;
    Seq::new(
        outs.len(),
        |i: int| (outs[i].0, out_captures(prog.names, outs[i].1, outs[i].1.len() as int)),
    )
}

/// Runs `prog` from `root` and returns every path it emits, in order, each
/// with what was captured along it, by name.
pub fn run(prog: &Program, root: &Envelope) -> (r: Vec<(Path, Captures)>)
    requires
        exists|b: nat| program_fits(prog.model(), b),
    ensures
        r@.len() == run_results(prog.model(), root@).len(),
        forall|i: int|
            0 <= i < r@.len() ==> (path_model(#[trigger] r@[i].0@), captures_model(r@[i].1@))
                == run_results(prog.model(), root@)[i],
{
    let ghost b = choose|b: nat| program_fits(prog.model(), b);
    let th = start_thread(prog, root);
    let (outs, _) = run_all_exec(prog, Ghost(b), th);
    let ghost om = outs_model(outs@);
    let mut r: Vec<(Path, Captures)> = Vec::new();
    let mut i: usize = 0;
    while i < outs.len()
        invariant
            i <= outs@.len(),
            om == outs_model(outs@),
            om == run_all(prog.model(), b, initial_thread(prog.model(), root@)).0,
            r@.len() == i,
            forall|j: int|
                0 <= j < i ==> (path_model(#[trigger] r@[j].0@), captures_model(r@[j].1@)) == (
                om[j].0,
                out_captures(prog.model().names, om[j].1, om[j].1.len() as int),
                ),
        decreases outs@.len() - i,
    {
        let caps = output_captures(&prog.capture_names, &outs[i].1);
        let ghost before = r@;
        r.push((copy_path(&outs[i].0), caps));
        proof {
            assert forall|j: int| 0 <= j < i + 1 implies (path_model(#[trigger] r@[j].0@), captures_model(
                r@[j].1@,
            )) == (om[j].0, out_captures(prog.model().names, om[j].1, om[j].1.len() as int)) by {
                if j < i {
                    assert(r@[j] == before[j]);
                }
            }
        }
        i = i + 1;
    }
    r
}

} // verus!
