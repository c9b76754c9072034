//! Matching with patterns as a whole, and the direct matchers of the meta
//! patterns.
use vstd::prelude::*;

use crate::engine::{lemma_children_decrease, pattern_paths_with_captures};
use crate::envelope::{path_model, paths_model, Envelope, EnvelopeModel};
use crate::paths::{
    captures_model, copy_path, extend_path_from, no_captures, no_paths, single_path, Captures,
    Path,
};
use crate::pattern::{
    StructurePattern, AssertionsPattern, DigestPattern, LeafStructurePattern, NodePattern,
    ObjectPattern, ObscuredPattern, PredicatePattern, SubjectPattern, WrappedPattern,
    AndPattern, AnyPattern, CapturePattern, NonePattern, NotPattern, OrPattern, Pattern,
    SearchPattern, SequencePattern, TraversePattern,
};
use crate::semantics::{structure_results, caps_append, pattern_matches, pattern_results, CapsModel, PathModel};

verus! {

// ---------------------------------------------------------------------------
// What the meta patterns match on their own
// ---------------------------------------------------------------------------

/// `[env]` when every pattern of `v` matches `env`.
pub open spec fn and_results(v: Seq<Pattern>, env: EnvelopeModel) -> Seq<PathModel> {
    if forall|i: int| 0 <= i < v.len() ==> #[trigger] pattern_matches(v[i], env) {
        seq![seq![env]]
    } else {
        Seq::empty()
    }
}

/// `[env]` when some pattern of `v` matches `env`.
pub open spec fn or_results(v: Seq<Pattern>, env: EnvelopeModel) -> Seq<PathModel> {
    if exists|i: int| 0 <= i < v.len() && #[trigger] pattern_matches(v[i], env) {
        seq![seq![env]]
    } else {
        Seq::empty()
    }
}

/// `[env]` when `q` does not match `env`.
pub open spec fn not_results(q: Pattern, env: EnvelopeModel) -> Seq<PathModel> {
    if pattern_matches(q, env) {
        Seq::empty()
    } else {
        seq![seq![env]]
    }
}

/// The paths and captures of the inner pattern, with the paths also
/// captured under the pattern's name when there are any.
pub open spec fn capture_results(c: CapturePattern, env: EnvelopeModel) -> (
    Seq<PathModel>,
    CapsModel,
) {
    let r = pattern_results(*c.pattern, env);
    if r.0.len() > 0 {
        (r.0, caps_append(r.1, c.name@, r.0))
    } else {
        r
    }
}

/// The last element of a path.
pub open spec fn path_last(p: PathModel) -> EnvelopeModel {
    p[p.len() - 1]
}

/// Each non-empty path of `heads[i..]` followed by each path of the rest of
/// the traversal from its last element.
pub open spec fn extend_heads(heads: Seq<PathModel>, i: int, rest: TraversePattern) -> Seq<
    PathModel,
>
    decreases rest, 1int, heads.len() - i,
{
    if i < 0 || i >= heads.len() {
        Seq::empty()
    } else {
        let h = heads[i];
        let here = if h.len() > 0 {
            let tails = traverse_paths(rest, path_last(h));
            Seq::new(tails.len(), |k: int| h + tails[k])
        } else {
            Seq::empty()
        };
        here + extend_heads(heads, i + 1, rest)
    }
}

/// The paths of a traversal matched directly: the paths of its first
/// pattern, each followed by the paths of the rest from where it ended.
pub open spec fn traverse_paths(t: TraversePattern, env: EnvelopeModel) -> Seq<PathModel>
    decreases t, 0int, 0int,
{
    let heads = pattern_results(*t.first, env).0;
    match t.rest {
        Some(r) => extend_heads(heads, 0, *r),
        None => heads,
    }
}

/// Like `extend_heads`, for sequences.
pub open spec fn extend_seq_heads(heads: Seq<PathModel>, i: int, rest: SequencePattern) -> Seq<
    PathModel,
>
    decreases rest, 1int, heads.len() - i,
{
    if i < 0 || i >= heads.len() {
        Seq::empty()
    } else {
        let h = heads[i];
        let here = if h.len() > 0 {
            let tails = sequence_paths(rest, path_last(h));
            Seq::new(tails.len(), |k: int| h + tails[k])
        } else {
            Seq::empty()
        };
        here + extend_seq_heads(heads, i + 1, rest)
    }
}

/// The paths of a sequence matched directly, as for a traversal.
pub open spec fn sequence_paths(t: SequencePattern, env: EnvelopeModel) -> Seq<PathModel>
    decreases t, 0int, 0int,
{
    let heads = pattern_results(*t.first, env).0;
    match t.rest {
        Some(r) => extend_seq_heads(heads, 0, *r),
        None => heads,
    }
}

/// The path a search reports for a path `pp` that the inner pattern matched
/// at `env`, reached along `np` (which ends at `env`).
pub open spec fn search_full_path(np: PathModel, env: EnvelopeModel, pp: PathModel) -> PathModel {
    if pp.len() > 1 {
        np + pp.skip(1)
    } else if pp.len() == 1 && pp[0].digest() != env.digest() {
        np + pp
    } else {
        np
    }
}

/// A search of the tree under `env`, reached along `prefix`, visiting each
/// element before the elements below it: for each element, the paths the
/// inner pattern matches there, each extended onto the path to the element.
pub open spec fn search_walk(q: Pattern, env: EnvelopeModel, prefix: PathModel) -> Seq<PathModel>
    decreases env, 1int, 0int,
{
    let np = prefix.push(env);
    let pps = pattern_results(q, env).0;
    Seq::new(pps.len(), |k: int| search_full_path(np, env, pps[k])) + search_children(
        q,
        env,
        np,
        0,
    )
}

/// The searches of the elements directly below `parent`, from the `i`-th on.
pub open spec fn search_children(q: Pattern, parent: EnvelopeModel, np: PathModel, i: int) -> Seq<
    PathModel,
>
    decreases parent, 0int, parent.children().len() - i,
{
    if i < 0 || i >= parent.children().len() {
        Seq::empty()
    } else {
        proof {
            lemma_children_decrease(parent);
        }
        search_walk(q, parent.children()[i], np) + search_children(q, parent, np, i + 1)
    }
}

// ---------------------------------------------------------------------------
// Executable direct matchers
// ---------------------------------------------------------------------------

/// Whether `p` matches `env`.
pub fn pattern_matches_exec(p: &Pattern, env: &Envelope) -> (r: bool)
    ensures
        r == pattern_matches(*p, env@),
{
    pattern_paths_with_captures(p, env).0.len() > 0
}

impl Pattern {
    /// The paths this pattern matches in `env` and what it captures under
    /// each name.
    pub fn paths_with_captures(&self, env: &Envelope) -> (r: (Vec<Path>, Captures))
        ensures
            (paths_model(r.0@), captures_model(r.1@)) == pattern_results(*self, env@),
    {
        pattern_paths_with_captures(self, env)
    }

    /// The paths this pattern matches in `env`.
    pub fn paths(&self, env: &Envelope) -> (r: Vec<Path>)
        ensures
            paths_model(r@) == pattern_results(*self, env@).0,
    {
        pattern_paths_with_captures(self, env).0
    }

    /// Whether this pattern matches `env`: whether it matches any path.
    pub fn matches(&self, env: &Envelope) -> (r: bool)
        ensures
            r == pattern_matches(*self, env@),
            r == (pattern_results(*self, env@).0.len() > 0),
    {
        pattern_matches_exec(self, env)
    }
}

impl AnyPattern {
    /// Always the path `[env]`, with no captures.
    pub fn paths_with_captures(&self, env: &Envelope) -> (r: (Vec<Path>, Captures))
        ensures
            paths_model(r.0@) == seq![seq![env@]],
            captures_model(r.1@) == Seq::<(Seq<char>, Seq<PathModel>)>::empty(),
    {
        (single_path(env), no_captures())
    }

    /// Always the path `[env]`.
    pub fn paths(&self, env: &Envelope) -> (r: Vec<Path>)
        ensures
            paths_model(r@) == seq![seq![env@]],
    {
        single_path(env)
    }
}

impl NonePattern {
    /// Never any path.
    pub fn paths(&self, env: &Envelope) -> (r: Vec<Path>)
        ensures
            paths_model(r@) == Seq::<PathModel>::empty(),
    {
        no_paths()
    }
}

/// Whether every pattern of `v` matches `env`.
fn all_match(v: &Vec<Pattern>, env: &Envelope) -> (r: bool)
    ensures
        r == forall|i: int| 0 <= i < v@.len() ==> #[trigger] pattern_matches(v@[i], env@),
{
    let mut i: usize = 0;
    while i < v.len()
        invariant
            i <= v@.len(),
            forall|j: int| 0 <= j < i ==> #[trigger] pattern_matches(v@[j], env@),
        decreases v@.len() - i,
    {
        if !pattern_matches_exec(&v[i], env) {
            return false;
        }
        i = i + 1;
    }
    true
}

/// Whether some pattern of `v` matches `env`.
fn any_match(v: &Vec<Pattern>, env: &Envelope) -> (r: bool)
    ensures
        r == exists|i: int| 0 <= i < v@.len() && #[trigger] pattern_matches(v@[i], env@),
{
    let mut i: usize = 0;
    while i < v.len()
        invariant
            i <= v@.len(),
            forall|j: int| 0 <= j < i ==> !#[trigger] pattern_matches(v@[j], env@),
        decreases v@.len() - i,
    {
        if pattern_matches_exec(&v[i], env) {
            return true;
        }
        i = i + 1;
    }
    false
}

impl AndPattern {
    /// `[env]` when every pattern matches `env`; no captures.
    pub fn paths_with_captures(&self, env: &Envelope) -> (r: (Vec<Path>, Captures))
        ensures
            paths_model(r.0@) == and_results(self.0@, env@),
            captures_model(r.1@) == Seq::<(Seq<char>, Seq<PathModel>)>::empty(),
    {
        let ps = if all_match(&self.0, env) {
            single_path(env)
        } else {
            no_paths()
        };
        (ps, no_captures())
    }

    /// `[env]` when every pattern matches `env`.
    pub fn paths(&self, env: &Envelope) -> (r: Vec<Path>)
        ensures
            paths_model(r@) == and_results(self.0@, env@),
    {
        self.paths_with_captures(env).0
    }
}

impl OrPattern {
    /// `[env]` when some pattern matches `env`; no captures.
    pub fn paths_with_captures(&self, env: &Envelope) -> (r: (Vec<Path>, Captures))
        ensures
            paths_model(r.0@) == or_results(self.0@, env@),
            captures_model(r.1@) == Seq::<(Seq<char>, Seq<PathModel>)>::empty(),
    {
        let ps = if any_match(&self.0, env) {
            single_path(env)
        } else {
            no_paths()
        };
        (ps, no_captures())
    }

    /// `[env]` when some pattern matches `env`.
    pub fn paths(&self, env: &Envelope) -> (r: Vec<Path>)
        ensures
            paths_model(r@) == or_results(self.0@, env@),
    {
        self.paths_with_captures(env).0
    }
}

impl NotPattern {
    /// `[env]` when the inner pattern does not match `env`; no captures.
    pub fn paths_with_captures(&self, env: &Envelope) -> (r: (Vec<Path>, Captures))
        ensures
            paths_model(r.0@) == not_results(*self.0, env@),
            captures_model(r.1@) == Seq::<(Seq<char>, Seq<PathModel>)>::empty(),
    {
        let ps = if pattern_matches_exec(&self.0, env) {
            no_paths()
        } else {
            single_path(env)
        };
        (ps, no_captures())
    }

    /// `[env]` when the inner pattern does not match `env`.
    pub fn paths(&self, env: &Envelope) -> (r: Vec<Path>)
        ensures
            paths_model(r@) == not_results(*self.0, env@),
    {
        self.paths_with_captures(env).0
    }
}

impl CapturePattern {
    /// The paths and captures of the inner pattern; when it matches, its
    /// paths are also captured under this pattern's name.
    pub fn paths_with_captures(&self, env: &Envelope) -> (r: (Vec<Path>, Captures))
        ensures
            (paths_model(r.0@), captures_model(r.1@)) == capture_results(*self, env@),
    {
        let (ps, mut caps) = pattern_paths_with_captures(&self.pattern, env);
        if ps.len() > 0 {
            crate::engine::captures_append(&mut caps, &self.name, &ps);
        }
        (ps, caps)
    }

    /// The paths of the inner pattern.
    pub fn paths(&self, env: &Envelope) -> (r: Vec<Path>)
        ensures
            paths_model(r@) == capture_results(*self, env@).0,
    {
        self.paths_with_captures(env).0
    }
}

/// Appends to `out`, for each non-empty path of `heads`, that path followed
/// by each path of `rest` from its last element.
fn extend_heads_exec(out: &mut Vec<Path>, heads: &Vec<Path>, rest: &TraversePattern)
    ensures
        paths_model(final(out)@) == paths_model(old(out)@) + extend_heads(
            paths_model(heads@),
            0,
            *rest,
        ),
    decreases rest, 1int,
{
    let ghost hm = paths_model(heads@);
    let ghost goal = paths_model(old(out)@) + extend_heads(hm, 0, *rest);
    let mut i: usize = 0;
    while i < heads.len()
        invariant
            i <= heads@.len(),
            hm == paths_model(heads@),
            paths_model(out@) + extend_heads(hm, i as int, *rest) == goal,
        decreases heads@.len() - i,
    {
        let h = &heads[i];
        let ghost hh = hm[i as int];
        let ghost before = paths_model(out@);
        let ghost next = extend_heads(hm, i + 1, *rest);
        if h.len() > 0 {
            let last = &h[h.len() - 1];
            let tails = rest.paths(last);
            let ghost tm = paths_model(tails@);
            let mut k: usize = 0;
            while k < tails.len()
                invariant
                    k <= tails@.len(),
                    tm == paths_model(tails@),
                    hh == path_model(h@),
                    paths_model(out@) == before + Seq::new(k as nat, |j: int| hh + tm[j]),
                decreases tails@.len() - k,
            {
                let mut c = copy_path(h);
                extend_path_from(&mut c, &tails[k], 0);
                assert(path_model(tails@[k as int]@).skip(0) =~= path_model(tails@[k as int]@));
                let ghost b2 = paths_model(out@);
                out.push(c);
                assert(paths_model(out@) =~= b2.push(hh + tm[k as int]));
                assert(paths_model(out@) =~= before + Seq::new((k + 1) as nat, |j: int| hh + tm[j]));
                k = k + 1;
            }
            assert(path_last(hh) == last@);
            let ghost here = Seq::new(tm.len(), |j: int| hh + tm[j]);
            assert(before + (here + next) =~= (before + here) + next);
        } else {
            assert(before + (Seq::<PathModel>::empty() + next) =~= before + next);
        }
        i = i + 1;
    }
    assert(paths_model(out@) + Seq::<PathModel>::empty() =~= paths_model(out@));
}

impl TraversePattern {
    /// The paths of the first pattern, each followed by the paths of the
    /// rest of the traversal from where it ended.
    pub fn paths(&self, env: &Envelope) -> (r: Vec<Path>)
        ensures
            paths_model(r@) == traverse_paths(*self, env@),
        decreases self, 0int,
    {
        let heads = pattern_paths_with_captures(&self.first, env).0;
        match &self.rest {
            Some(r) => {
                let mut out: Vec<Path> = Vec::new();
                assert(paths_model(out@) =~= Seq::<PathModel>::empty());
                extend_heads_exec(&mut out, &heads, r);
                assert(paths_model(out@) =~= extend_heads(paths_model(heads@), 0, **r));
                out
            },
            None => heads,
        }
    }

    /// The paths of the traversal, with no captures.
    pub fn paths_with_captures(&self, env: &Envelope) -> (r: (Vec<Path>, Captures))
        ensures
            paths_model(r.0@) == traverse_paths(*self, env@),
            captures_model(r.1@) == Seq::<(Seq<char>, Seq<PathModel>)>::empty(),
    {
        (self.paths(env), no_captures())
    }
}

/// Like `extend_heads_exec`, for sequences.
fn extend_seq_heads_exec(out: &mut Vec<Path>, heads: &Vec<Path>, rest: &SequencePattern)
    ensures
        paths_model(final(out)@) == paths_model(old(out)@) + extend_seq_heads(
            paths_model(heads@),
            0,
            *rest,
        ),
    decreases rest, 1int,
{
    let ghost hm = paths_model(heads@);
    let ghost goal = paths_model(old(out)@) + extend_seq_heads(hm, 0, *rest);
    let mut i: usize = 0;
    while i < heads.len()
        invariant
            i <= heads@.len(),
            hm == paths_model(heads@),
            paths_model(out@) + extend_seq_heads(hm, i as int, *rest) == goal,
        decreases heads@.len() - i,
    {
        let h = &heads[i];
        let ghost hh = hm[i as int];
        let ghost before = paths_model(out@);
        let ghost next = extend_seq_heads(hm, i + 1, *rest);
        if h.len() > 0 {
            let last = &h[h.len() - 1];
            let tails = rest.paths(last);
            let ghost tm = paths_model(tails@);
            let mut k: usize = 0;
            while k < tails.len()
                invariant
                    k <= tails@.len(),
                    tm == paths_model(tails@),
                    hh == path_model(h@),
                    paths_model(out@) == before + Seq::new(k as nat, |j: int| hh + tm[j]),
                decreases tails@.len() - k,
            {
                let mut c = copy_path(h);
                extend_path_from(&mut c, &tails[k], 0);
                assert(path_model(tails@[k as int]@).skip(0) =~= path_model(tails@[k as int]@));
                let ghost b2 = paths_model(out@);
                out.push(c);
                assert(paths_model(out@) =~= b2.push(hh + tm[k as int]));
                assert(paths_model(out@) =~= before + Seq::new((k + 1) as nat, |j: int| hh + tm[j]));
                k = k + 1;
            }
            assert(path_last(hh) == last@);
            let ghost here = Seq::new(tm.len(), |j: int| hh + tm[j]);
            assert(before + (here + next) =~= (before + here) + next);
        } else {
            assert(before + (Seq::<PathModel>::empty() + next) =~= before + next);
        }
        i = i + 1;
    }
    assert(paths_model(out@) + Seq::<PathModel>::empty() =~= paths_model(out@));
}

impl SequencePattern {
    /// The paths of the first pattern, each followed by the paths of the
    /// rest of the sequence from where it ended.
    pub fn paths(&self, env: &Envelope) -> (r: Vec<Path>)
        ensures
            paths_model(r@) == sequence_paths(*self, env@),
        decreases self, 0int,
    {
        let heads = pattern_paths_with_captures(&self.first, env).0;
        match &self.rest {
            Some(r) => {
                let mut out: Vec<Path> = Vec::new();
                assert(paths_model(out@) =~= Seq::<PathModel>::empty());
                extend_seq_heads_exec(&mut out, &heads, r);
                assert(paths_model(out@) =~= extend_seq_heads(paths_model(heads@), 0, **r));
                out
            },
            None => heads,
        }
    }
}

/// Appends the paths a search finds under `env`, reached along `prefix`.
fn search_walk_exec(q: &Pattern, env: &Envelope, prefix: &Path, out: &mut Vec<Path>)
    ensures
        paths_model(final(out)@) == paths_model(old(out)@) + search_walk(
            *q,
            env@,
            path_model(prefix@),
        ),
    decreases env,
{
    let ghost pm = path_model(prefix@);
    let ghost goal = paths_model(old(out)@) + search_walk(*q, env@, pm);
    let mut np = copy_path(prefix);
    np.push(env.duplicate());
    assert(path_model(np@) =~= pm.push(env@));
    let ghost npm = path_model(np@);
    let (pps, _) = pattern_paths_with_captures(q, env);
    let ghost ppm = paths_model(pps@);
    let ghost start = paths_model(out@);
    let mut k: usize = 0;
    while k < pps.len()
        invariant
            k <= pps@.len(),
            ppm == paths_model(pps@),
            npm == path_model(np@),
            paths_model(out@) == start + Seq::new(
                k as nat,
                |j: int| search_full_path(npm, env@, ppm[j]),
            ),
        decreases pps@.len() - k,
    {
        let pp = &pps[k];
        let mut full = copy_path(&np);
        if pp.len() > 1 {
            extend_path_from(&mut full, pp, 1);
        } else if pp.len() == 1 && !pp[0].same_digest(env) {
            extend_path_from(&mut full, pp, 0);
            assert(path_model(pp@).skip(0) =~= path_model(pp@));
        }
        let ghost before = paths_model(out@);
        out.push(full);
        assert(paths_model(out@) =~= before.push(search_full_path(npm, env@, ppm[k as int])));
        assert(paths_model(out@) =~= start + Seq::new(
            (k + 1) as nat,
            |j: int| search_full_path(npm, env@, ppm[j]),
        ));
        k = k + 1;
    }
    let ghost here = Seq::new(ppm.len(), |j: int| search_full_path(npm, env@, ppm[j]));
    proof {
        lemma_children_decrease(env@);
    }
    let ghost mid = paths_model(out@);
    match env {
        Envelope::Node { subject, assertions, .. } => {
            proof {
                crate::envelope::lemma_env_models(assertions@);
            }
            search_walk_exec(q, subject, &np, out);
            let mut i: usize = 0;
            assert(search_children(*q, env@, npm, 0) == search_walk(*q, (**subject)@, npm)
                + search_children(*q, env@, npm, 1));
            assert(paths_model(out@) + search_children(*q, env@, npm, 1) =~= mid
                + search_children(*q, env@, npm, 0));
            while i < assertions.len()
                invariant
                    i <= assertions@.len(),
                    *env is Node,
                    env->assertions == *assertions,
                    env@.children().len() == assertions@.len() + 1,
                    forall|j: int| 0 <= j < assertions@.len() ==> env@.children()[j + 1] == (
                    #[trigger] assertions@[j])@,
                    npm == path_model(np@),
                    paths_model(out@) + search_children(*q, env@, npm, i + 1) == mid
                        + search_children(*q, env@, npm, 0),
                decreases assertions@.len() - i,
            {
                proof {
                    vstd::std_specs::vec::axiom_vec_index_decreases(*assertions, i as int);
                    assert(decreases_to!(*env => env->assertions));
                }
                let ghost before = paths_model(out@);
                let ghost w = search_walk(*q, assertions@[i as int]@, npm);
                let ghost rest = search_children(*q, env@, npm, i + 2);
                search_walk_exec(q, &assertions[i], &np, out);
                assert(before + (w + rest) =~= (before + w) + rest);
                i = i + 1;
            }
            assert(paths_model(out@) + Seq::<PathModel>::empty() =~= paths_model(out@));
        },
        Envelope::Wrapped { envelope, .. } => {
            search_walk_exec(q, envelope, &np, out);
            assert(search_children(*q, env@, npm, 1) =~= Seq::<PathModel>::empty());
        },
        Envelope::Assertion { predicate, object, .. } => {
            search_walk_exec(q, predicate, &np, out);
            search_walk_exec(q, object, &np, out);
            assert(search_children(*q, env@, npm, 2) =~= Seq::<PathModel>::empty());
        },
        _ => {
            assert(search_children(*q, env@, npm, 0) =~= Seq::<PathModel>::empty());
        },
    }
    assert(paths_model(out@) =~= start + (here + search_children(*q, env@, npm, 0)));
}

impl SearchPattern {
    /// Every path the inner pattern matches anywhere in the tree under
    /// `env`, each extended onto the path from `env` to where it matched.
    pub fn paths(&self, env: &Envelope) -> (r: Vec<Path>)
        ensures
            paths_model(r@) == search_walk(*self.0, env@, Seq::empty()),
    {
        let mut out: Vec<Path> = Vec::new();
        let prefix: Path = Vec::new();
        assert(paths_model(out@) =~= Seq::<PathModel>::empty());
        assert(path_model(prefix@) =~= Seq::<EnvelopeModel>::empty());
        search_walk_exec(&self.0, env, &prefix, &mut out);
        assert(paths_model(out@) =~= search_walk(*self.0, env@, Seq::empty()));
        out
    }

    /// The paths of the search, with no captures.
    pub fn paths_with_captures(&self, env: &Envelope) -> (r: (Vec<Path>, Captures))
        ensures
            paths_model(r.0@) == search_walk(*self.0, env@, Seq::empty()),
            captures_model(r.1@) == Seq::<(Seq<char>, Seq<PathModel>)>::empty(),
    {
        (self.paths(env), no_captures())
    }
}


impl StructurePattern {
    /// Whether this pattern finds any path on `env`.
    pub fn matches(&self, env: &Envelope) -> (r: bool)
        ensures
            r == (structure_results(*self, env@).len() > 0),
    {
        self.paths(env).len() > 0
    }
}

impl AssertionsPattern {
    /// Whether this pattern finds any path on `env`.
    pub fn matches(&self, env: &Envelope) -> (r: bool)
        ensures
            r == (structure_results(StructurePattern::Assertions(*self), env@).len() > 0),
    {
        self.paths(env).len() > 0
    }
}

impl DigestPattern {
    /// Whether this pattern finds any path on `env`.
    pub fn matches(&self, env: &Envelope) -> (r: bool)
        ensures
            r == (structure_results(StructurePattern::Digest(*self), env@).len() > 0),
    {
        self.paths(env).len() > 0
    }
}

impl LeafStructurePattern {
    /// Whether this pattern finds any path on `env`.
    pub fn matches(&self, env: &Envelope) -> (r: bool)
        ensures
            r == (structure_results(StructurePattern::Leaf(*self), env@).len() > 0),
    {
        self.paths(env).len() > 0
    }
}

impl NodePattern {
    /// Whether this pattern finds any path on `env`.
    pub fn matches(&self, env: &Envelope) -> (r: bool)
        ensures
            r == (structure_results(StructurePattern::Node(*self), env@).len() > 0),
    {
        self.paths(env).len() > 0
    }
}

impl ObjectPattern {
    /// Whether this pattern finds any path on `env`.
    pub fn matches(&self, env: &Envelope) -> (r: bool)
        ensures
            r == (structure_results(StructurePattern::Object(*self), env@).len() > 0),
    {
        self.paths(env).len() > 0
    }
}

impl ObscuredPattern {
    /// Whether this pattern finds any path on `env`.
    pub fn matches(&self, env: &Envelope) -> (r: bool)
        ensures
            r == (structure_results(StructurePattern::Obscured(*self), env@).len() > 0),
    {
        self.paths(env).len() > 0
    }
}

impl PredicatePattern {
    /// Whether this pattern finds any path on `env`.
    pub fn matches(&self, env: &Envelope) -> (r: bool)
        ensures
            r == (structure_results(StructurePattern::Predicate(*self), env@).len() > 0),
    {
        self.paths(env).len() > 0
    }
}

impl SubjectPattern {
    /// Whether this pattern finds any path on `env`.
    pub fn matches(&self, env: &Envelope) -> (r: bool)
        ensures
            r == (structure_results(StructurePattern::Subject(*self), env@).len() > 0),
    {
        self.paths(env).len() > 0
    }
}

impl WrappedPattern {
    /// Whether this pattern finds any path on `env`.
    pub fn matches(&self, env: &Envelope) -> (r: bool)
        ensures
            r == (structure_results(StructurePattern::Wrapped(*self), env@).len() > 0),
    {
        self.paths(env).len() > 0
    }
}

impl AndPattern {
    /// Whether this pattern finds any path on `env`.
    pub fn matches(&self, env: &Envelope) -> (r: bool)
        ensures
            r == (and_results(self.0@, env@).len() > 0),
    {
        self.paths(env).len() > 0
    }
}

impl OrPattern {
    /// Whether this pattern finds any path on `env`.
    pub fn matches(&self, env: &Envelope) -> (r: bool)
        ensures
            r == (or_results(self.0@, env@).len() > 0),
    {
        self.paths(env).len() > 0
    }
}

impl NotPattern {
    /// Whether this pattern finds any path on `env`.
    pub fn matches(&self, env: &Envelope) -> (r: bool)
        ensures
            r == (not_results(*self.0, env@).len() > 0),
    {
        self.paths(env).len() > 0
    }
}

impl CapturePattern {
    /// Whether this pattern finds any path on `env`.
    pub fn matches(&self, env: &Envelope) -> (r: bool)
        ensures
            r == (capture_results(*self, env@).0.len() > 0),
    {
        self.paths(env).len() > 0
    }
}

impl TraversePattern {
    /// Whether this pattern finds any path on `env`.
    pub fn matches(&self, env: &Envelope) -> (r: bool)
        ensures
            r == (traverse_paths(*self, env@).len() > 0),
    {
        self.paths(env).len() > 0
    }
}

impl SequencePattern {
    /// Whether this pattern finds any path on `env`.
    pub fn matches(&self, env: &Envelope) -> (r: bool)
        ensures
            r == (sequence_paths(*self, env@).len() > 0),
    {
        self.paths(env).len() > 0
    }
}

impl SearchPattern {
    /// Whether this pattern finds any path on `env`.
    pub fn matches(&self, env: &Envelope) -> (r: bool)
        ensures
            r == (search_walk(*self.0, env@, Seq::empty()).len() > 0),
    {
        self.paths(env).len() > 0
    }
}

impl AnyPattern {
    /// Always true.
    pub fn matches(&self, env: &Envelope) -> (r: bool)
        ensures
            r,
    {
        true
    }
}

impl NonePattern {
    /// Always false.
    pub fn matches(&self, env: &Envelope) -> (r: bool)
        ensures
            !r,
    {
        false
    }
}

} // verus!
