//! Paths and named captures, and copying them.
use vstd::prelude::*;

use crate::envelope::{path_model, paths_model, Envelope};
use crate::semantics::{CapsModel, PathModel};
use crate::text::bytes_to_vec;

verus! {

/// A vector of envelopes that match a pattern, starting from where matching
/// began.
pub type Path = Vec<Envelope>;

/// Named captures: each name with the paths captured under it.
pub type Captures = Vec<(String, Vec<Path>)>;

/// The mathematical value of named captures.
pub open spec fn captures_model(c: Seq<(String, Vec<Path>)>) -> CapsModel {
    Seq::new(c.len(), |i: int| (c[i].0@, paths_model(c[i].1@)))
}

/// The mathematical value of per-group capture lists.
pub open spec fn groups_model(c: Seq<Vec<Path>>) -> Seq<Seq<PathModel>> {
    Seq::new(c.len(), |i: int| paths_model(c[i]@))
}

/// A deep copy of a path.
pub fn copy_path(p: &Path) -> (r: Path)
    ensures
        path_model(r@) == path_model(p@),
{
    let mut out: Path = Vec::new();
    let mut i: usize = 0;
    while i < p.len()
        invariant
            i <= p@.len(),
            out@.len() == i,
            forall|j: int| 0 <= j < i ==> out@[j]@ == p@[j]@,
        decreases p@.len() - i,
    {
        out.push(p[i].duplicate());
        i = i + 1;
    }
    assert(path_model(out@) =~= path_model(p@));
    out
}

/// A deep copy of a list of paths.
pub fn copy_paths(ps: &Vec<Path>) -> (r: Vec<Path>)
    ensures
        paths_model(r@) == paths_model(ps@),
{
    let mut out: Vec<Path> = Vec::new();
    let mut i: usize = 0;
    while i < ps.len()
        invariant
            i <= ps@.len(),
            out@.len() == i,
            forall|j: int| 0 <= j < i ==> path_model(out@[j]@) == path_model(ps@[j]@),
        decreases ps@.len() - i,
    {
        out.push(copy_path(&ps[i]));
        i = i + 1;
    }
    assert(paths_model(out@) =~= paths_model(ps@));
    out
}

/// A deep copy of per-group capture lists.
pub fn copy_groups(g: &Vec<Vec<Path>>) -> (r: Vec<Vec<Path>>)
    ensures
        groups_model(r@) == groups_model(g@),
{
    let mut out: Vec<Vec<Path>> = Vec::new();
    let mut i: usize = 0;
    while i < g.len()
        invariant
            i <= g@.len(),
            out@.len() == i,
            forall|j: int| 0 <= j < i ==> paths_model(out@[j]@) == paths_model(g@[j]@),
        decreases g@.len() - i,
    {
        out.push(copy_paths(&g[i]));
        i = i + 1;
    }
    assert(groups_model(out@) =~= groups_model(g@));
    out
}

/// Appends deep copies of `extra` to `ps`.
pub fn extend_paths(ps: &mut Vec<Path>, extra: &Vec<Path>)
    ensures
        paths_model(final(ps)@) == paths_model(old(ps)@) + paths_model(extra@),
{
    let ghost start = paths_model(ps@);
    let mut i: usize = 0;
    while i < extra.len()
        invariant
            i <= extra@.len(),
            paths_model(ps@) == start + paths_model(extra@).subrange(0, i as int),
        decreases extra@.len() - i,
    {
        let p = copy_path(&extra[i]);
        let ghost prev = ps@;
        ps.push(p);
        assert(ps@ == prev.push(p));
        assert(paths_model(ps@) =~= paths_model(prev).push(path_model(extra@[i as int]@)));
        assert(paths_model(extra@).subrange(0, i + 1) =~= paths_model(extra@).subrange(0, i as int).push(path_model(extra@[i as int]@)));
        i = i + 1;
    }
    assert(paths_model(extra@).subrange(0, extra@.len() as int) =~= paths_model(extra@));
}

/// Appends deep copies of the envelopes of `extra` from index `from` on.
pub fn extend_path_from(p: &mut Path, extra: &Path, from: usize)
    requires
        from <= extra@.len(),
    ensures
        path_model(final(p)@) == path_model(old(p)@) + path_model(extra@).skip(from as int),
{
    let ghost start = path_model(p@);
    let mut i: usize = from;
    while i < extra.len()
        invariant
            from <= i <= extra@.len(),
            path_model(p@) == start + path_model(extra@).subrange(from as int, i as int),
        decreases extra@.len() - i,
    {
        let e = extra[i].duplicate();
        let ghost prev = p@;
        p.push(e);
        assert(p@ == prev.push(e));
        assert(path_model(p@) =~= path_model(prev).push(extra@[i as int]@));
        assert(path_model(extra@).subrange(from as int, i + 1) =~= path_model(extra@).subrange(from as int, i as int).push(extra@[i as int]@));
        i = i + 1;
    }
    assert(path_model(extra@).subrange(from as int, extra@.len() as int) =~= path_model(
        extra@,
    ).skip(from as int));
}

/// A deep copy of named captures.
pub fn copy_captures(c: &Captures) -> (r: Captures)
    ensures
        captures_model(r@) == captures_model(c@),
{
    let mut out: Captures = Vec::new();
    let mut i: usize = 0;
    while i < c.len()
        invariant
            i <= c@.len(),
            out@.len() == i,
            forall|j: int|
                0 <= j < i ==> out@[j].0@ == c@[j].0@ && paths_model(out@[j].1@) == paths_model(
                    c@[j].1@,
                ),
        decreases c@.len() - i,
    {
        let name = c[i].0.clone();
        let ps = copy_paths(&c[i].1);
        out.push((name, ps));
        i = i + 1;
    }
    assert(captures_model(out@) =~= captures_model(c@));
    out
}

/// A deep copy of a list of byte strings.
pub fn copy_byte_strings(v: &Vec<Vec<u8>>) -> (r: Vec<Vec<u8>>)
    ensures
        r.deep_view() == v.deep_view(),
{
    let mut out: Vec<Vec<u8>> = Vec::new();
    let mut i: usize = 0;
    while i < v.len()
        invariant
            i <= v@.len(),
            out@.len() == i,
            forall|j: int| 0 <= j < i ==> out@[j]@ == v@[j]@,
        decreases v@.len() - i,
    {
        out.push(bytes_to_vec(v[i].as_slice()));
        i = i + 1;
    }
    assert(out.deep_view() =~= v.deep_view());
    out
}

/// The deep view of a byte vector is its view.
pub proof fn lemma_bytes_view(v: Vec<u8>)
    ensures
        v.deep_view() == v@,
{
    assert(v.deep_view() =~= v@);
}

/// An element of the deep view of a list of byte vectors is that element's
/// view.
pub proof fn lemma_byte_strings_view(v: Vec<Vec<u8>>, i: int)
    requires
        0 <= i < v@.len(),
    ensures
        v.deep_view()[i] == v@[i]@,
        v.deep_view().len() == v@.len(),
{
    lemma_bytes_view(v@[i]);
}

/// The one path `[env]`.
pub fn single_path(env: &Envelope) -> (r: Vec<Path>)
    ensures
        paths_model(r@) == seq![seq![env@]],
{
    let mut p: Path = Vec::new();
    p.push(env.duplicate());
    let mut r: Vec<Path> = Vec::new();
    r.push(p);
    assert(path_model(p@) =~= seq![env@]);
    assert(paths_model(r@) =~= seq![seq![env@]]);
    r
}

/// No paths.
pub fn no_paths() -> (r: Vec<Path>)
    ensures
        paths_model(r@) == Seq::<PathModel>::empty(),
{
    let r: Vec<Path> = Vec::new();
    assert(paths_model(r@) =~= Seq::<PathModel>::empty());
    r
}

/// No captures.
pub fn no_captures() -> (r: Captures)
    ensures
        captures_model(r@) == Seq::<(Seq<char>, Seq<PathModel>)>::empty(),
{
    let r: Captures = Vec::new();
    assert(captures_model(r@) =~= Seq::<(Seq<char>, Seq<PathModel>)>::empty());
    r
}

/// An element of the deep view of a list of byte-string lists is that
/// element's deep view.
pub proof fn lemma_byte_paths_view(v: Vec<Vec<Vec<u8>>>, i: int)
    requires
        0 <= i < v@.len(),
    ensures
        v.deep_view()[i] == v@[i].deep_view(),
        v.deep_view().len() == v@.len(),
{
}

} // verus!
