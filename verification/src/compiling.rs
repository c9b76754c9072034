//! What compiling adds to a program: the test a leaf pattern becomes, the
//! capture names collected, and the size bound every program fits.
use vstd::prelude::*;

use crate::pattern::{
    AndPattern, AssertionsPattern, CBORPattern, LeafPattern, MetaPattern, NotPattern, ObjectPattern,
    OrPattern, Pattern, PredicatePattern, SearchPattern, StructurePattern, SubjectPattern,
    TraversePattern, WrappedPattern,
};
use crate::compile::{lemma_program_fits, program_fits};
use crate::pattern::pattern_size;
use crate::semantics::{
    add_names, capture_names, capture_names_list, capture_names_traverse, compile,
    compile_alternatives, compile_list, compile_program, compile_traverse, dcbor_capture_names,
    emit, patch_jumps, search_capture_map, CompileState, InstrModel,
};
use crate::pattern::CapturePattern;

verus! {

/// Adding names keeps the names already there, in order, and adds only
/// names from `extra` that were not there before, each once.
pub proof fn lemma_add_names(names: Seq<Seq<char>>, extra: Seq<Seq<char>>, i: int)
    requires
        0 <= i,
    ensures
        ({
            let r = add_names(names, extra, i);
            &&& r.len() >= names.len()
            &&& r.subrange(0, names.len() as int) == names
            &&& forall|j: int| names.len() <= j < r.len() ==> !r.subrange(0, j).contains(#[trigger] r[j])
            &&& forall|j: int| names.len() <= j < r.len() ==> extra.contains(#[trigger] r[j])
        }),
    decreases extra.len() - i,
{
    if i < extra.len() {
        if names.contains(extra[i]) {
            lemma_add_names(names, extra, i + 1);
        } else {
            let n2 = names.push(extra[i]);
            lemma_add_names(n2, extra, i + 1);
            let r = add_names(n2, extra, i + 1);
            assert(r.subrange(0, names.len() as int) =~= n2.subrange(0, names.len() as int));
            assert(n2.subrange(0, names.len() as int) =~= names);
            assert forall|j: int| names.len() <= j < r.len() implies !r.subrange(0, j).contains(#[trigger] r[j]) by {
                if j == names.len() {
                    assert(r[j] == n2[j]);
                    assert(r.subrange(0, j) =~= names);
                }
            }
            assert forall|j: int| names.len() <= j < r.len() implies extra.contains(#[trigger] r[j]) by {
                if j == names.len() {
                    assert(r[j] == n2[j]);
                }
            }
        }
    } else {
        assert(names.subrange(0, names.len() as int) =~= names);
    }
}

/// Compiling a leaf pattern appends one instruction, a test of the next
/// literal, and that literal is the pattern. The capture names keep those
/// already there; only a CBOR pattern given as a dcbor-pattern expression
/// adds names, each new and each once.
pub proof fn law_leaf_compiles_to_one_test(l: LeafPattern, st: CompileState)
    ensures
        compile(Pattern::Leaf(l), st).code == st.code.push(
            InstrModel::MatchPredicate(st.lits.len() as nat),
        ),
        compile(Pattern::Leaf(l), st).lits == st.lits.push(Pattern::Leaf(l)),
        compile(Pattern::Leaf(l), st).names.subrange(0, st.names.len() as int) == st.names,
        compile(Pattern::Leaf(l), st).names.len() > st.names.len() ==> l matches LeafPattern::Cbor(
            CBORPattern::Pattern(_),
        ),
        forall|j: int|
            st.names.len() <= j < compile(Pattern::Leaf(l), st).names.len() ==> !compile(
                Pattern::Leaf(l),
                st,
            ).names.subrange(0, j).contains(#[trigger] compile(Pattern::Leaf(l), st).names[j]),
{
    match l {
        LeafPattern::Cbor(CBORPattern::Pattern(e)) => {
            lemma_add_names(st.names, crate::semantics::dcbor_capture_names(e@), 0);
        },
        _ => {
            assert(st.names.subrange(0, st.names.len() as int) =~= st.names);
        },
    }
}

/// Every compiled program fits within its pattern's size: no literal is
/// larger, and the literals that searches, negations and repetitions run as
/// whole patterns exist and are smaller. This is what `run` asks of the
/// program it is given.
pub proof fn law_every_compiled_program_fits(p: Pattern)
    ensures
        program_fits(compile_program(p), pattern_size(p)),
{
    lemma_program_fits(p);
}

/// `r` keeps `out` as it was and adds only names not already present, each
/// once.
pub open spec fn grows_by_new_names(out: Seq<Seq<char>>, r: Seq<Seq<char>>) -> bool {
    &&& r.len() >= out.len()
    &&& r.subrange(0, out.len() as int) == out
    &&& forall|j: int| out.len() <= j < r.len() ==> !r.subrange(0, j).contains(#[trigger] r[j])
}

proof fn lemma_grows_refl(out: Seq<Seq<char>>)
    ensures
        grows_by_new_names(out, out),
{
    assert(out.subrange(0, out.len() as int) =~= out);
}

proof fn lemma_grows_trans(a: Seq<Seq<char>>, b: Seq<Seq<char>>, c: Seq<Seq<char>>)
    requires
        grows_by_new_names(a, b),
        grows_by_new_names(b, c),
    ensures
        grows_by_new_names(a, c),
{
    assert(c.subrange(0, a.len() as int) =~= c.subrange(0, b.len() as int).subrange(0, a.len() as int));
    assert forall|j: int| a.len() <= j < c.len() implies !c.subrange(0, j).contains(#[trigger] c[j]) by {
        if j < b.len() {
            assert(c.subrange(0, j) =~= b.subrange(0, j));
            assert(c[j] == c.subrange(0, b.len() as int)[j]);
            assert(b[j] == c[j]);
        }
    }
}

/// Collecting the capture names of a pattern keeps the names collected so
/// far and adds only new names, each once.
pub proof fn law_capture_names_grow_by_new_names(p: Pattern, out: Seq<Seq<char>>)
    ensures
        grows_by_new_names(out, capture_names(p, out)),
    decreases p, 0int,
{
    match p {
        Pattern::Leaf(LeafPattern::Cbor(CBORPattern::Pattern(e))) => {
            lemma_add_names(out, crate::semantics::dcbor_capture_names(e@), 0);
        },
        Pattern::Leaf(_) => {
            lemma_grows_refl(out);
        },
        Pattern::Structure(s) => match s {
            StructurePattern::Assertions(AssertionsPattern::WithPredicate(q)) => {
                law_capture_names_grow_by_new_names(*q, out);
            },
            StructurePattern::Assertions(AssertionsPattern::WithObject(q)) => {
                law_capture_names_grow_by_new_names(*q, out);
            },
            StructurePattern::Object(ObjectPattern::Pattern(q)) => {
                law_capture_names_grow_by_new_names(*q, out);
            },
            StructurePattern::Predicate(PredicatePattern::Pattern(q)) => {
                law_capture_names_grow_by_new_names(*q, out);
            },
            StructurePattern::Subject(SubjectPattern::Pattern(q)) => {
                law_capture_names_grow_by_new_names(*q, out);
            },
            StructurePattern::Wrapped(WrappedPattern::Unwrap(q)) => {
                law_capture_names_grow_by_new_names(*q, out);
            },
            _ => {
                lemma_grows_refl(out);
            },
        },
        Pattern::Meta(m) => match m {
            MetaPattern::And(AndPattern(v)) => {
                lemma_capture_names_list(v@, 0, out);
            },
            MetaPattern::Or(OrPattern(v)) => {
                lemma_capture_names_list(v@, 0, out);
            },
            MetaPattern::Not(NotPattern(q)) => {
                law_capture_names_grow_by_new_names(*q, out);
            },
            MetaPattern::Search(SearchPattern(q)) => {
                law_capture_names_grow_by_new_names(*q, out);
            },
            MetaPattern::Traverse(t) => {
                lemma_capture_names_traverse(t, out);
            },
            MetaPattern::Group(g) => {
                law_capture_names_grow_by_new_names(*g.pattern, out);
            },
            MetaPattern::Capture(c) => {
                let out2 = if out.contains(c.name@) {
                    out
                } else {
                    out.push(c.name@)
                };
                if out.contains(c.name@) {
                    lemma_grows_refl(out);
                } else {
                    assert(out2.subrange(0, out.len() as int) =~= out);
                    assert forall|j: int| out.len() <= j < out2.len() implies !out2.subrange(0, j).contains(
                        #[trigger] out2[j],
                    ) by {
                        assert(out2.subrange(0, j) =~= out);
                    }
                }
                law_capture_names_grow_by_new_names(*c.pattern, out2);
                lemma_grows_trans(out, out2, capture_names(*c.pattern, out2));
            },
            _ => {
                lemma_grows_refl(out);
            },
        },
    }
}

proof fn lemma_capture_names_list(ps: Seq<Pattern>, i: int, out: Seq<Seq<char>>)
    ensures
        grows_by_new_names(out, capture_names_list(ps, i, out)),
    decreases ps, ps.len() - i,
{
    if i < 0 || i >= ps.len() {
        lemma_grows_refl(out);
    } else {
        let o2 = capture_names(ps[i], out);
        law_capture_names_grow_by_new_names(ps[i], out);
        lemma_capture_names_list(ps, i + 1, o2);
        lemma_grows_trans(out, o2, capture_names_list(ps, i + 1, o2));
    }
}

proof fn lemma_capture_names_traverse(t: TraversePattern, out: Seq<Seq<char>>)
    ensures
        grows_by_new_names(out, capture_names_traverse(t, out)),
    decreases t, 0int,
{
    law_capture_names_grow_by_new_names(*t.first, out);
    match t.rest {
        Some(r) => {
            let o2 = capture_names(*t.first, out);
            lemma_capture_names_traverse(*r, o2);
            lemma_grows_trans(out, o2, capture_names_traverse(*r, o2));
        },
        None => {},
    }
}

/// The capture names that occur in `p`: those of its capture patterns, and
/// those of the dcbor-pattern expressions of its CBOR patterns, at any
/// depth.
pub open spec fn names_within(p: Pattern) -> Set<Seq<char>>
    decreases p, 0int,
{
    match p {
        Pattern::Leaf(LeafPattern::Cbor(CBORPattern::Pattern(e))) => dcbor_capture_names(
            e@,
        ).to_set(),
        Pattern::Leaf(_) => Set::empty(),
        Pattern::Structure(s) => match s {
            StructurePattern::Assertions(AssertionsPattern::WithPredicate(q)) => names_within(*q),
            StructurePattern::Assertions(AssertionsPattern::WithObject(q)) => names_within(*q),
            StructurePattern::Object(ObjectPattern::Pattern(q)) => names_within(*q),
            StructurePattern::Predicate(PredicatePattern::Pattern(q)) => names_within(*q),
            StructurePattern::Subject(SubjectPattern::Pattern(q)) => names_within(*q),
            StructurePattern::Wrapped(WrappedPattern::Unwrap(q)) => names_within(*q),
            _ => Set::empty(),
        },
        Pattern::Meta(m) => match m {
            MetaPattern::And(AndPattern(v)) => names_within_list(v@, 0),
            MetaPattern::Or(OrPattern(v)) => names_within_list(v@, 0),
            MetaPattern::Not(NotPattern(q)) => names_within(*q),
            MetaPattern::Search(SearchPattern(q)) => names_within(*q),
            MetaPattern::Traverse(t) => names_within_traverse(t),
            MetaPattern::Group(g) => names_within(*g.pattern),
            MetaPattern::Capture(c) => set![c.name@] + names_within(*c.pattern),
            _ => Set::empty(),
        },
    }
}

/// The capture names that occur in `ps[i..]`.
pub open spec fn names_within_list(ps: Seq<Pattern>, i: int) -> Set<Seq<char>>
    decreases ps, ps.len() - i,
{
    if i < 0 || i >= ps.len() {
        Set::empty()
    } else {
        names_within(ps[i]) + names_within_list(ps, i + 1)
    }
}

/// The capture names that occur in the steps of a traversal.
pub open spec fn names_within_traverse(t: TraversePattern) -> Set<Seq<char>>
    decreases t, 0int,
{
    match t.rest {
        Some(r) => names_within(*t.first) + names_within_traverse(*r),
        None => names_within(*t.first),
    }
}

proof fn lemma_push_set(s: Seq<Seq<char>>, x: Seq<char>)
    ensures
        s.push(x).to_set() == s.to_set().insert(x),
{
    assert forall|y: Seq<char>| s.push(x).to_set().contains(y) == s.to_set().insert(x).contains(
        y,
    ) by {
        if s.contains(y) {
            let k = choose|k: int| 0 <= k < s.len() && s[k] == y;
            assert(s.push(x)[k] == y);
        }
        if s.push(x).contains(y) {
            let k = choose|k: int| 0 <= k < s.push(x).len() && s.push(x)[k] == y;
            if k < s.len() {
                assert(s[k] == y);
            }
        }
        assert(s.push(x)[s.len() as int] == x);
    }
    assert(s.push(x).to_set() =~= s.to_set().insert(x));
}

proof fn lemma_add_names_set(names: Seq<Seq<char>>, extra: Seq<Seq<char>>, i: int)
    requires
        0 <= i <= extra.len(),
    ensures
        add_names(names, extra, i).to_set() == names.to_set() + extra.subrange(
            i,
            extra.len() as int,
        ).to_set(),
    decreases extra.len() - i,
{
    let rest = extra.subrange(i, extra.len() as int);
    if i >= extra.len() {
        assert(rest.to_set() =~= Set::<Seq<char>>::empty());
        assert(names.to_set() + rest.to_set() =~= names.to_set());
    } else {
        let tail = extra.subrange(i + 1, extra.len() as int);
        assert(rest =~= seq![extra[i]] + tail);
        assert(rest.to_set() =~= tail.to_set().insert(extra[i])) by {
            assert forall|y: Seq<char>| rest.to_set().contains(y) == tail.to_set().insert(
                extra[i],
            ).contains(y) by {
                if rest.contains(y) {
                    let k = choose|k: int| 0 <= k < rest.len() && rest[k] == y;
                    if k > 0 {
                        assert(tail[k - 1] == y);
                    }
                }
                if tail.contains(y) {
                    let k = choose|k: int| 0 <= k < tail.len() && tail[k] == y;
                    assert(rest[k + 1] == y);
                }
                assert(rest[0] == extra[i]);
            }
        }
        if names.contains(extra[i]) {
            lemma_add_names_set(names, extra, i + 1);
            assert(names.to_set().contains(extra[i]));
            assert(names.to_set() + rest.to_set() =~= names.to_set() + tail.to_set());
        } else {
            lemma_add_names_set(names.push(extra[i]), extra, i + 1);
            lemma_push_set(names, extra[i]);
            assert(names.to_set() + rest.to_set() =~= names.push(extra[i]).to_set()
                + tail.to_set());
        }
    }
}

/// Collecting the capture names of a pattern adds to the names collected so
/// far exactly the capture names that occur in it: those of its capture
/// patterns and of its CBOR patterns' expressions, at any depth.
pub proof fn law_capture_names_are_those_within(p: Pattern, out: Seq<Seq<char>>)
    ensures
        capture_names(p, out).to_set() == out.to_set() + names_within(p),
    decreases p, 0int,
{
    match p {
        Pattern::Leaf(LeafPattern::Cbor(CBORPattern::Pattern(e))) => {
            let extra = dcbor_capture_names(e@);
            lemma_add_names_set(out, extra, 0);
            assert(extra.subrange(0, extra.len() as int) =~= extra);
        },
        Pattern::Leaf(_) => {
            assert(out.to_set() + Set::empty() =~= out.to_set());
        },
        Pattern::Structure(s) => match s {
            StructurePattern::Assertions(AssertionsPattern::WithPredicate(q)) => {
                law_capture_names_are_those_within(*q, out);
            },
            StructurePattern::Assertions(AssertionsPattern::WithObject(q)) => {
                law_capture_names_are_those_within(*q, out);
            },
            StructurePattern::Object(ObjectPattern::Pattern(q)) => {
                law_capture_names_are_those_within(*q, out);
            },
            StructurePattern::Predicate(PredicatePattern::Pattern(q)) => {
                law_capture_names_are_those_within(*q, out);
            },
            StructurePattern::Subject(SubjectPattern::Pattern(q)) => {
                law_capture_names_are_those_within(*q, out);
            },
            StructurePattern::Wrapped(WrappedPattern::Unwrap(q)) => {
                law_capture_names_are_those_within(*q, out);
            },
            _ => {
                assert(out.to_set() + Set::empty() =~= out.to_set());
            },
        },
        Pattern::Meta(m) => match m {
            MetaPattern::And(AndPattern(v)) => {
                lemma_names_list(v@, 0, out);
            },
            MetaPattern::Or(OrPattern(v)) => {
                lemma_names_list(v@, 0, out);
            },
            MetaPattern::Not(NotPattern(q)) => {
                law_capture_names_are_those_within(*q, out);
            },
            MetaPattern::Search(SearchPattern(q)) => {
                law_capture_names_are_those_within(*q, out);
            },
            MetaPattern::Traverse(t) => {
                lemma_names_traverse(t, out);
            },
            MetaPattern::Group(g) => {
                law_capture_names_are_those_within(*g.pattern, out);
            },
            MetaPattern::Capture(c) => {
                let out2 = if out.contains(c.name@) {
                    out
                } else {
                    out.push(c.name@)
                };
                if !out.contains(c.name@) {
                    lemma_push_set(out, c.name@);
                }
                assert(out2.to_set() =~= out.to_set().insert(c.name@));
                law_capture_names_are_those_within(*c.pattern, out2);
                assert(out2.to_set() + names_within(*c.pattern) =~= out.to_set() + (set![c.name@]
                    + names_within(*c.pattern)));
            },
            _ => {
                assert(out.to_set() + Set::empty() =~= out.to_set());
            },
        },
    }
}

proof fn lemma_names_list(ps: Seq<Pattern>, i: int, out: Seq<Seq<char>>)
    ensures
        capture_names_list(ps, i, out).to_set() == out.to_set() + names_within_list(ps, i),
    decreases ps, ps.len() - i,
{
    if i < 0 || i >= ps.len() {
        assert(out.to_set() + Set::empty() =~= out.to_set());
    } else {
        let o2 = capture_names(ps[i], out);
        law_capture_names_are_those_within(ps[i], out);
        lemma_names_list(ps, i + 1, o2);
        assert(o2.to_set() + names_within_list(ps, i + 1) =~= out.to_set() + (names_within(ps[i])
            + names_within_list(ps, i + 1)));
    }
}

proof fn lemma_names_traverse(t: TraversePattern, out: Seq<Seq<char>>)
    ensures
        capture_names_traverse(t, out).to_set() == out.to_set() + names_within_traverse(t),
    decreases t, 0int,
{
    law_capture_names_are_those_within(*t.first, out);
    match t.rest {
        Some(r) => {
            let o2 = capture_names(*t.first, out);
            lemma_names_traverse(*r, o2);
            assert(o2.to_set() + names_within_traverse(*r) =~= out.to_set() + (names_within(
                *t.first,
            ) + names_within_traverse(*r)));
        },
        None => {},
    }
}

/// `b` keeps what `a` emitted: its code, literals and capture names stand
/// unchanged at the front of `b`'s.
pub open spec fn keeps(a: CompileState, b: CompileState) -> bool {
    &&& a.code.len() <= b.code.len()
    &&& b.code.subrange(0, a.code.len() as int) == a.code
    &&& a.lits.len() <= b.lits.len()
    &&& b.lits.subrange(0, a.lits.len() as int) == a.lits
    &&& a.names.len() <= b.names.len()
    &&& b.names.subrange(0, a.names.len() as int) == a.names
}

proof fn lemma_keeps_refl(a: CompileState)
    ensures
        keeps(a, a),
{
    assert(a.code.subrange(0, a.code.len() as int) =~= a.code);
    assert(a.lits.subrange(0, a.lits.len() as int) =~= a.lits);
    assert(a.names.subrange(0, a.names.len() as int) =~= a.names);
}

proof fn lemma_keeps_trans(a: CompileState, b: CompileState, c: CompileState)
    requires
        keeps(a, b),
        keeps(b, c),
    ensures
        keeps(a, c),
{
    assert(c.code.subrange(0, a.code.len() as int) =~= c.code.subrange(0, b.code.len() as int).subrange(0, a.code.len() as int));
    assert(c.lits.subrange(0, a.lits.len() as int) =~= c.lits.subrange(0, b.lits.len() as int).subrange(0, a.lits.len() as int));
    assert(c.names.subrange(0, a.names.len() as int) =~= c.names.subrange(0, b.names.len() as int).subrange(0, a.names.len() as int));
}

proof fn lemma_keeps_push(a: CompileState, i: InstrModel)
    ensures
        keeps(a, emit(a, i)),
{
    lemma_keeps_refl(a);
    assert(emit(a, i).code.subrange(0, a.code.len() as int) =~= a.code);
}

proof fn lemma_keeps_update(a: CompileState, b: CompileState, k: int, i: InstrModel)
    requires
        keeps(a, b),
        a.code.len() <= k < b.code.len(),
    ensures
        keeps(a, CompileState { code: b.code.update(k, i), ..b }),
{
    assert(b.code.update(k, i).subrange(0, a.code.len() as int) =~= b.code.subrange(0, a.code.len() as int));
}

proof fn lemma_add_names_keeps(names: Seq<Seq<char>>, extra: Seq<Seq<char>>, i: int)
    ensures
        names.len() <= add_names(names, extra, i).len(),
        add_names(names, extra, i).subrange(0, names.len() as int) == names,
    decreases extra.len() - i,
{
    if i < 0 || i >= extra.len() {
        assert(names.subrange(0, names.len() as int) =~= names);
    } else if names.contains(extra[i]) {
        lemma_add_names_keeps(names, extra, i + 1);
    } else {
        lemma_add_names_keeps(names.push(extra[i]), extra, i + 1);
        let r = add_names(names, extra, i);
        assert(r.subrange(0, names.len() as int) =~= r.subrange(0, names.len() + 1int).subrange(0, names.len() as int));
        assert(names.push(extra[i]).subrange(0, names.len() as int) =~= names);
    }
}

proof fn lemma_search_map_keeps(
    names: Seq<Seq<char>>,
    inner: Seq<Seq<char>>,
    i: int,
    map: Seq<(Seq<char>, nat)>,
)
    ensures
        names.len() <= search_capture_map(names, inner, i, map).0.len(),
        search_capture_map(names, inner, i, map).0.subrange(0, names.len() as int) == names,
    decreases inner.len() - i,
{
    if i < 0 || i >= inner.len() {
        assert(names.subrange(0, names.len() as int) =~= names);
    } else {
        let r = search_capture_map(names, inner, i, map);
        let pos = crate::semantics::name_position(names, inner[i], 0);
        if 0 <= pos < names.len() {
            lemma_search_map_keeps(names, inner, i + 1, map.push((inner[i], pos as nat)));
        } else {
            lemma_search_map_keeps(
                names.push(inner[i]),
                inner,
                i + 1,
                map.push((inner[i], names.len() as nat)),
            );
            assert(r.0.subrange(0, names.len() as int) =~= r.0.subrange(0, names.len() + 1int).subrange(
                0,
                names.len() as int,
            ));
            assert(names.push(inner[i]).subrange(0, names.len() as int) =~= names);
        }
    }
}

proof fn lemma_patch_keeps(base: CompileState, st: CompileState, jumps: Seq<int>, k: int)
    requires
        keeps(base, st),
        forall|j: int| 0 <= j < jumps.len() ==> #[trigger] jumps[j] >= base.code.len(),
    ensures
        keeps(base, patch_jumps(st, jumps, k)),
    decreases jumps.len() - k,
{
    if !(k < 0 || k >= jumps.len()) {
        let st2 = if 0 <= jumps[k] < st.code.len() {
            lemma_keeps_update(base, st, jumps[k], InstrModel::Jump(st.code.len() as nat));
            CompileState {
                code: st.code.update(jumps[k], InstrModel::Jump(st.code.len() as nat)),
                ..st
            }
        } else {
            st
        };
        lemma_patch_keeps(base, st2, jumps, k + 1);
    }
}

/// Compiling a pattern only appends: the code, literals and capture names
/// already emitted stay as they were, at the front.
pub proof fn law_compiling_only_appends(p: Pattern, st: CompileState)
    ensures
        keeps(st, compile(p, st)),
    decreases p, 0int,
{
    match p {
        Pattern::Leaf(LeafPattern::Cbor(CBORPattern::Pattern(e))) => {
            lemma_add_names_keeps(st.names, dcbor_capture_names(e@), 0);
            let r = compile(p, st);
            assert(r.code.subrange(0, st.code.len() as int) =~= st.code);
            assert(r.lits.subrange(0, st.lits.len() as int) =~= st.lits);
        },
        Pattern::Leaf(_) => {
            let r = compile(p, st);
            lemma_keeps_refl(st);
            assert(r.code.subrange(0, st.code.len() as int) =~= st.code);
            assert(r.lits.subrange(0, st.lits.len() as int) =~= st.lits);
        },
        Pattern::Structure(s) => match s {
            StructurePattern::Subject(SubjectPattern::Pattern(q)) => {
                let s1 = emit(st, InstrModel::NavigateSubject);
                let s2 = emit(s1, InstrModel::ExtendTraversal);
                lemma_keeps_push(st, InstrModel::NavigateSubject);
                lemma_keeps_push(s1, InstrModel::ExtendTraversal);
                law_compiling_only_appends(*q, s2);
                let s3 = compile(*q, s2);
                lemma_keeps_push(s3, InstrModel::CombineTraversal);
                lemma_keeps_trans(st, s1, s2);
                lemma_keeps_trans(st, s2, s3);
                lemma_keeps_trans(st, s3, emit(s3, InstrModel::CombineTraversal));
            },
            StructurePattern::Wrapped(WrappedPattern::Unwrap(q)) => {
                let s1 = crate::semantics::emit_structure(st, crate::semantics::wrapped_any());
                let s2 = emit(s1, InstrModel::PushAxis(crate::semantics::Axis::Wrapped));
                lemma_keeps_refl(st);
                assert(s1.code.subrange(0, st.code.len() as int) =~= st.code);
                assert(s1.lits.subrange(0, st.lits.len() as int) =~= st.lits);
                lemma_keeps_push(s1, InstrModel::PushAxis(crate::semantics::Axis::Wrapped));
                law_compiling_only_appends(*q, s2);
                lemma_keeps_trans(st, s1, s2);
                lemma_keeps_trans(st, s2, compile(*q, s2));
            },
            _ => {
                let r = compile(p, st);
                lemma_keeps_refl(st);
                assert(r.code.subrange(0, st.code.len() as int) =~= st.code);
                assert(r.lits.subrange(0, st.lits.len() as int) =~= st.lits);
            },
        },
        Pattern::Meta(m) => match m {
            MetaPattern::And(AndPattern(v)) => {
                lemma_list_keeps(v@, 0, st);
            },
            MetaPattern::Or(OrPattern(v)) => {
                lemma_keeps_refl(st);
                lemma_alternatives_keeps(v@, 0, st, Seq::empty(), st);
                let r = compile_alternatives(v@, 0, st, Seq::empty());
                lemma_patch_keeps(st, r.0, r.1, 0);
            },
            MetaPattern::Search(SearchPattern(q)) => {
                lemma_search_map_keeps(st.names, capture_names(*q, Seq::empty()), 0, Seq::empty());
                let r = compile(p, st);
                assert(r.code.subrange(0, st.code.len() as int) =~= st.code);
                assert(r.lits.subrange(0, st.lits.len() as int) =~= st.lits);
            },
            MetaPattern::Traverse(t) => {
                lemma_traverse_keeps(t, st);
            },
            MetaPattern::Capture(c) => {
                let id = st.names.len() as nat;
                let s1 = CompileState {
                    code: st.code.push(InstrModel::CaptureStart(id)),
                    names: st.names.push(c.name@),
                    lits: st.lits,
                };
                lemma_keeps_refl(st);
                assert(s1.code.subrange(0, st.code.len() as int) =~= st.code);
                assert(s1.names.subrange(0, st.names.len() as int) =~= st.names);
                law_compiling_only_appends(*c.pattern, s1);
                let s2 = compile(*c.pattern, s1);
                lemma_keeps_push(s2, InstrModel::CaptureEnd(id));
                lemma_keeps_trans(st, s1, s2);
                lemma_keeps_trans(st, s2, emit(s2, InstrModel::CaptureEnd(id)));
            },
            _ => {
                let r = compile(p, st);
                lemma_keeps_refl(st);
                assert(r.code.subrange(0, st.code.len() as int) =~= st.code);
                assert(r.lits.subrange(0, st.lits.len() as int) =~= st.lits);
            },
        },
    }
}

proof fn lemma_list_keeps(ps: Seq<Pattern>, i: int, st: CompileState)
    ensures
        keeps(st, compile_list(ps, i, st)),
    decreases ps, ps.len() - i,
{
    if i < 0 || i >= ps.len() {
        lemma_keeps_refl(st);
    } else {
        law_compiling_only_appends(ps[i], st);
        let s2 = compile(ps[i], st);
        lemma_list_keeps(ps, i + 1, s2);
        lemma_keeps_trans(st, s2, compile_list(ps, i + 1, s2));
    }
}

proof fn lemma_alternatives_keeps(
    ps: Seq<Pattern>,
    i: int,
    st: CompileState,
    jumps: Seq<int>,
    base: CompileState,
)
    requires
        keeps(base, st),
        forall|j: int| 0 <= j < jumps.len() ==> #[trigger] jumps[j] >= base.code.len(),
    ensures
        keeps(base, compile_alternatives(ps, i, st, jumps).0),
        forall|j: int|
            0 <= j < compile_alternatives(ps, i, st, jumps).1.len() ==> #[trigger] compile_alternatives(
                ps,
                i,
                st,
                jumps,
            ).1[j] >= base.code.len(),
    decreases ps, ps.len() - i,
{
    if i < 0 || i >= ps.len() {
    } else if i == ps.len() - 1 {
        law_compiling_only_appends(ps[i], st);
        lemma_keeps_trans(base, st, compile(ps[i], st));
    } else {
        let split_pos = st.code.len() as int;
        let s1 = emit(st, InstrModel::Split { a: 0, b: 0 });
        lemma_keeps_push(st, InstrModel::Split { a: 0, b: 0 });
        let st2 = compile(ps[i], s1);
        law_compiling_only_appends(ps[i], s1);
        let jump_pos = st2.code.len() as int;
        let st3 = emit(st2, InstrModel::Jump(0));
        lemma_keeps_push(st2, InstrModel::Jump(0));
        lemma_keeps_trans(base, st, s1);
        lemma_keeps_trans(base, s1, st2);
        lemma_keeps_trans(base, st2, st3);
        lemma_keeps_update(
            base,
            st3,
            split_pos,
            InstrModel::Split { a: (split_pos + 1) as nat, b: (jump_pos + 1) as nat },
        );
        let st4 = CompileState {
            code: st3.code.update(
                split_pos,
                InstrModel::Split { a: (split_pos + 1) as nat, b: (jump_pos + 1) as nat },
            ),
            ..st3
        };
        let j2 = jumps.push(jump_pos);
        assert forall|j: int| 0 <= j < j2.len() implies #[trigger] j2[j] >= base.code.len() by {
            if j < jumps.len() {
                assert(j2[j] == jumps[j]);
            }
        }
        lemma_alternatives_keeps(ps, i + 1, st4, j2, base);
    }
}

proof fn lemma_traverse_keeps(t: TraversePattern, st: CompileState)
    ensures
        keeps(st, compile_traverse(t, st)),
    decreases t, 0int,
{
    law_compiling_only_appends(*t.first, st);
    match t.rest {
        Some(r) => {
            let s1 = compile(*t.first, st);
            let s2 = emit(s1, InstrModel::ExtendTraversal);
            lemma_keeps_push(s1, InstrModel::ExtendTraversal);
            lemma_traverse_keeps(*r, s2);
            let s3 = compile_traverse(*r, s2);
            lemma_keeps_push(s3, InstrModel::CombineTraversal);
            lemma_keeps_trans(st, s1, s2);
            lemma_keeps_trans(st, s2, s3);
            lemma_keeps_trans(st, s3, emit(s3, InstrModel::CombineTraversal));
        },
        None => {},
    }
}

/// Compiling a capture registers its name at the next free index `id`,
/// emits `CaptureStart(id)`, then exactly what compiling the inner pattern
/// emits, then `CaptureEnd(id)`; all that was emitted before stays in front.
pub proof fn law_capture_compiles_around_its_pattern(c: CapturePattern, st: CompileState)
    ensures
        ({
            let id = st.names.len() as nat;
            let inner_start = CompileState {
                code: st.code.push(InstrModel::CaptureStart(id)),
                names: st.names.push(c.name@),
                lits: st.lits,
            };
            let inner = compile(*c.pattern, inner_start);
            let r = compile(Pattern::Meta(MetaPattern::Capture(c)), st);
            &&& keeps(st, r)
            &&& r.names.subrange(0, id + 1int) == st.names.push(c.name@)
            &&& r.code[st.code.len() as int] == InstrModel::CaptureStart(id)
            &&& r.code == inner.code.push(InstrModel::CaptureEnd(id))
            &&& r.lits == inner.lits
            &&& r.names == inner.names
            &&& keeps(inner_start, inner)
        }),
{
    let id = st.names.len() as nat;
    let inner_start = CompileState {
        code: st.code.push(InstrModel::CaptureStart(id)),
        names: st.names.push(c.name@),
        lits: st.lits,
    };
    law_compiling_only_appends(Pattern::Meta(MetaPattern::Capture(c)), st);
    law_compiling_only_appends(*c.pattern, inner_start);
    let inner = compile(*c.pattern, inner_start);
    let r = compile(Pattern::Meta(MetaPattern::Capture(c)), st);
    assert(r.names.subrange(0, id + 1int) =~= inner.names.subrange(0, inner_start.names.len() as int));
    assert(r.code[st.code.len() as int] == inner.code.subrange(0, inner_start.code.len() as int)[st.code.len() as int]);
}

} // verus!
