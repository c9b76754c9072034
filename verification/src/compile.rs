//! Compiling patterns to byte-code for the matching machine.
use vstd::prelude::*;

use crate::leaf::capture_names_in_expr;
use crate::pattern::{
    lemma_patterns_size_part, pattern_size, traverse_size, AndPattern,
    AssertionsPattern, CBORPattern, LeafPattern, MetaPattern, NotPattern, ObjectPattern,
    OrPattern, Pattern, PredicatePattern, SearchPattern, StructurePattern, SubjectPattern,
    TraversePattern, WrappedPattern,
};
use crate::quantifier::Quantifier;
use crate::semantics::{
    dcbor_capture_names, compile_program, empty_state, add_names, capture_names, capture_names_list, capture_names_traverse, compile,
    compile_alternatives, compile_list, compile_traverse, emit, emit_structure,
    name_position, patch_jumps, search_capture_map, wrapped_any, Axis, CompileState, InstrModel,
    ProgModel,
};

verus! {

/// A byte-code instruction of the matching machine.
pub enum Instr {
    /// Test `literals[idx]` at the current element; continue along each path
    /// it finds.
    MatchPredicate(usize),
    /// Apply the structure pattern `literals[idx]`; continue along each path
    /// it finds.
    MatchStructure(usize),
    /// Fork a thread at `a`; continue at `b`.
    Split { a: usize, b: usize },
    /// Continue at the given instruction.
    Jump(usize),
    /// Descend to the children along an axis, one thread per child.
    PushAxis(Axis),
    /// Drop the last element of the path.
    Pop,
    /// Emit the current path.
    Save,
    /// Emit the current path and halt.
    Accept,
    /// Search the whole tree below the current element for `literals[pat_idx]`,
    /// carrying over the listed captures.
    Search { pat_idx: usize, capture_map: Vec<(String, usize)> },
    /// Save the current path and continue from its last element.
    ExtendTraversal,
    /// Join the saved path with the current one.
    CombineTraversal,
    /// Move to the subject of a node.
    NavigateSubject,
    /// Continue only if `literals[pat_idx]` does not match.
    NotMatch { pat_idx: usize },
    /// Repeat `literals[pat_idx]` as the quantifier allows.
    Repeat { pat_idx: usize, quantifier: Quantifier },
    /// Mark the start of capture group `id`.
    CaptureStart(usize),
    /// Mark the end of capture group `id`.
    CaptureEnd(usize),
}

/// The mathematical value of a search's capture map.
pub open spec fn capture_map_model(m: Seq<(String, usize)>) -> Seq<(Seq<char>, nat)> {
    Seq::new(m.len(), |i: int| (m[i].0@, m[i].1 as nat))
}

impl View for Instr {
    type V = InstrModel;

    open spec fn view(&self) -> InstrModel {
        match self {
            Instr::MatchPredicate(i) => InstrModel::MatchPredicate(*i as nat),
            Instr::MatchStructure(i) => InstrModel::MatchStructure(*i as nat),
            Instr::Split { a, b } => InstrModel::Split { a: *a as nat, b: *b as nat },
            Instr::Jump(t) => InstrModel::Jump(*t as nat),
            Instr::PushAxis(x) => InstrModel::PushAxis(*x),
            Instr::Pop => InstrModel::Pop,
            Instr::Save => InstrModel::Save,
            Instr::Accept => InstrModel::Accept,
            Instr::Search { pat_idx, capture_map } => InstrModel::Search {
                pat_idx: *pat_idx as nat,
                capture_map: capture_map_model(capture_map@),
            },
            Instr::ExtendTraversal => InstrModel::ExtendTraversal,
            Instr::CombineTraversal => InstrModel::CombineTraversal,
            Instr::NavigateSubject => InstrModel::NavigateSubject,
            Instr::NotMatch { pat_idx } => InstrModel::NotMatch { pat_idx: *pat_idx as nat },
            Instr::Repeat { pat_idx, quantifier } => InstrModel::Repeat {
                pat_idx: *pat_idx as nat,
                quantifier: *quantifier,
            },
            Instr::CaptureStart(i) => InstrModel::CaptureStart(*i as nat),
            Instr::CaptureEnd(i) => InstrModel::CaptureEnd(*i as nat),
        }
    }
}

/// A pattern an instruction refers to: a part of the compiled pattern, or
/// the test for a wrapped envelope.
pub enum Literal<'a> {
    Pattern(&'a Pattern),
    AnyWrapped,
}

pub open spec fn literal_model(l: Literal) -> Pattern {
    match l {
        Literal::Pattern(p) => *p,
        Literal::AnyWrapped => wrapped_any(),
    }
}

/// A compiled program.
pub struct Program<'a> {
    pub code: Vec<Instr>,
    pub literals: Vec<Literal<'a>>,
    pub capture_names: Vec<String>,
}

pub open spec fn code_model(c: Seq<Instr>) -> Seq<InstrModel> {
    Seq::new(c.len(), |i: int| c[i]@)
}

pub open spec fn lits_model(l: Seq<Literal>) -> Seq<Pattern> {
    Seq::new(l.len(), |i: int| literal_model(l[i]))
}

pub open spec fn names_model(n: Seq<String>) -> Seq<Seq<char>> {
    Seq::new(n.len(), |i: int| n[i]@)
}

pub open spec fn state_model(c: Seq<Instr>, l: Seq<Literal>, n: Seq<String>) -> CompileState {
    CompileState { code: code_model(c), lits: lits_model(l), names: names_model(n) }
}

impl<'a> Program<'a> {
    pub open spec fn model(&self) -> ProgModel {
        ProgModel {
            code: code_model(self.code@),
            lits: lits_model(self.literals@),
            names: names_model(self.capture_names@),
        }
    }
}

/// An instruction that runs a pattern as a whole program refers to an
/// existing literal smaller than `bound`.
pub open spec fn instr_fits(i: InstrModel, lits: Seq<Pattern>, bound: nat) -> bool {
    match i {
        InstrModel::Search { pat_idx, .. } => pat_idx < lits.len() && pattern_size(
            lits[pat_idx as int],
        ) < bound,
        InstrModel::NotMatch { pat_idx } => pat_idx < lits.len() && pattern_size(
            lits[pat_idx as int],
        ) < bound,
        InstrModel::Repeat { pat_idx, .. } => pat_idx < lits.len() && pattern_size(
            lits[pat_idx as int],
        ) < bound,
        _ => true,
    }
}

/// Code and literals that may be run with `bound`: every literal has size
/// at most `bound`, and the patterns run as whole programs are smaller.
pub open spec fn fits(code: Seq<InstrModel>, lits: Seq<Pattern>, bound: nat) -> bool {
    &&& forall|j: int| 0 <= j < lits.len() ==> pattern_size(#[trigger] lits[j]) <= bound
    &&& forall|i: int| 0 <= i < code.len() ==> instr_fits(#[trigger] code[i], lits, bound)
}

/// The program may be run with `bound`.
pub open spec fn program_fits(prog: ProgModel, bound: nat) -> bool {
    fits(prog.code, prog.lits, bound)
}

proof fn lemma_fits_push_lit(code: Seq<InstrModel>, lits: Seq<Pattern>, bound: nat, l: Pattern)
    requires
        fits(code, lits, bound),
        pattern_size(l) <= bound,
    ensures
        fits(code, lits.push(l), bound),
{
    assert forall|i: int| 0 <= i < code.len() implies instr_fits(
        #[trigger] code[i],
        lits.push(l),
        bound,
    ) by {
        assert(instr_fits(code[i], lits, bound));
    }
}

proof fn lemma_fits_push_instr(code: Seq<InstrModel>, lits: Seq<Pattern>, bound: nat, x: InstrModel)
    requires
        fits(code, lits, bound),
        instr_fits(x, lits, bound),
    ensures
        fits(code.push(x), lits, bound),
{
    assert forall|i: int| 0 <= i < code.push(x).len() implies instr_fits(
        #[trigger] code.push(x)[i],
        lits,
        bound,
    ) by {
        if i < code.len() {
            assert(instr_fits(code[i], lits, bound));
        }
    }
}

proof fn lemma_fits_update(code: Seq<InstrModel>, lits: Seq<Pattern>, bound: nat, k: int, x: InstrModel)
    requires
        0 <= k < code.len(),
        fits(code, lits, bound),
        instr_fits(x, lits, bound),
    ensures
        fits(code.update(k, x), lits, bound),
{
    assert forall|i: int| 0 <= i < code.update(k, x).len() implies instr_fits(
        #[trigger] code.update(k, x)[i],
        lits,
        bound,
    ) by {
        if i != k {
            assert(instr_fits(code[i], lits, bound));
        }
    }
}

proof fn lemma_emit_fits(st: CompileState, bound: nat, x: InstrModel)
    requires
        fits(st.code, st.lits, bound),
        instr_fits(x, st.lits, bound),
    ensures
        fits(emit(st, x).code, emit(st, x).lits, bound),
{
    lemma_fits_push_instr(st.code, st.lits, bound, x);
}

/// Emitting a literal of size at most `bound` with an instruction that refers
/// to it keeps the code fitting.
proof fn lemma_emit_lit_fits(st: CompileState, bound: nat, x: InstrModel, l: Pattern)
    requires
        fits(st.code, st.lits, bound),
        pattern_size(l) <= bound,
        instr_fits(x, st.lits.push(l), bound),
    ensures
        fits(st.code.push(x), st.lits.push(l), bound),
{
    lemma_fits_push_lit(st.code, st.lits, bound, l);
    lemma_fits_push_instr(st.code, st.lits.push(l), bound, x);
}

/// Compiling a pattern no larger than `bound` keeps the code fitting `bound`,
/// and only appends to the code.
pub proof fn lemma_compile_fits(p: Pattern, st: CompileState, bound: nat)
    requires
        fits(st.code, st.lits, bound),
        pattern_size(p) <= bound,
    ensures
        fits(compile(p, st).code, compile(p, st).lits, bound),
        compile(p, st).code.len() >= st.code.len(),
    decreases p, 1int, 0int,
{
    match p {
        Pattern::Leaf(LeafPattern::Cbor(CBORPattern::Pattern(e))) => {
            lemma_emit_lit_fits(
                CompileState { names: add_names(st.names, dcbor_capture_names(e@), 0), ..st },
                bound,
                InstrModel::MatchPredicate(st.lits.len() as nat),
                p,
            );
        },
        Pattern::Leaf(_) => {
            lemma_emit_lit_fits(st, bound, InstrModel::MatchPredicate(st.lits.len() as nat), p);
        },
        Pattern::Structure(s) => match s {
            StructurePattern::Subject(SubjectPattern::Any) => {
                lemma_emit_fits(st, bound, InstrModel::NavigateSubject);
            },
            StructurePattern::Subject(SubjectPattern::Pattern(q)) => {
                let s1 = emit(st, InstrModel::NavigateSubject);
                lemma_emit_fits(st, bound, InstrModel::NavigateSubject);
                let s2 = emit(s1, InstrModel::ExtendTraversal);
                lemma_emit_fits(s1, bound, InstrModel::ExtendTraversal);
                lemma_compile_fits(*q, s2, bound);
                lemma_emit_fits(compile(*q, s2), bound, InstrModel::CombineTraversal);
            },
            StructurePattern::Assertions(_) | StructurePattern::Object(_)
            | StructurePattern::Predicate(_) | StructurePattern::Wrapped(WrappedPattern::Any) => {
                lemma_emit_lit_fits(st, bound, InstrModel::MatchStructure(st.lits.len() as nat), p);
            },
            StructurePattern::Wrapped(WrappedPattern::Unwrap(q)) => {
                let s1 = emit_structure(st, wrapped_any());
                lemma_emit_lit_fits(
                    st,
                    bound,
                    InstrModel::MatchStructure(st.lits.len() as nat),
                    wrapped_any(),
                );
                lemma_emit_fits(s1, bound, InstrModel::PushAxis(Axis::Wrapped));
                lemma_compile_fits(*q, emit(s1, InstrModel::PushAxis(Axis::Wrapped)), bound);
            },
            _ => {
                lemma_emit_lit_fits(st, bound, InstrModel::MatchPredicate(st.lits.len() as nat), p);
            },
        },
        Pattern::Meta(m) => match m {
            MetaPattern::And(AndPattern(v)) => {
                assert(decreases_to!(p => v@));
                assert forall|j: int| 0 <= j < v@.len() implies pattern_size(#[trigger] v@[j])
                    <= bound by {
                    lemma_patterns_size_part(v@, v@.len() as int, j);
                }
                lemma_compile_list_fits(p, v@, 0, st, bound);
            },
            MetaPattern::Or(OrPattern(v)) => {
                assert(decreases_to!(p => v@));
                assert forall|j: int| 0 <= j < v@.len() implies pattern_size(#[trigger] v@[j])
                    <= bound by {
                    lemma_patterns_size_part(v@, v@.len() as int, j);
                }
                lemma_compile_alternatives_fits(p, v@, 0, st, Seq::empty(), bound);
                let r = compile_alternatives(v@, 0, st, Seq::empty());
                lemma_patch_jumps_fits(r.0, r.1, 0, bound);
            },
            MetaPattern::Not(NotPattern(q)) => {
                lemma_emit_lit_fits(
                    st,
                    bound,
                    InstrModel::NotMatch { pat_idx: st.lits.len() as nat },
                    *q,
                );
            },
            MetaPattern::Search(SearchPattern(q)) => {
                let r = search_capture_map(st.names, capture_names(*q, Seq::empty()), 0, Seq::empty());
                lemma_emit_lit_fits(
                    st,
                    bound,
                    InstrModel::Search { pat_idx: st.lits.len() as nat, capture_map: r.1 },
                    *q,
                );
            },
            MetaPattern::Traverse(t) => {
                lemma_compile_traverse_fits(t, st, bound);
            },
            MetaPattern::Group(g) => {
                lemma_emit_lit_fits(
                    st,
                    bound,
                    InstrModel::Repeat { pat_idx: st.lits.len() as nat, quantifier: g.quantifier },
                    *g.pattern,
                );
            },
            MetaPattern::Capture(c) => {
                let id = st.names.len() as nat;
                let s1 = CompileState {
                    code: st.code.push(InstrModel::CaptureStart(id)),
                    names: st.names.push(c.name@),
                    lits: st.lits,
                };
                lemma_fits_push_instr(st.code, st.lits, bound, InstrModel::CaptureStart(id));
                lemma_compile_fits(*c.pattern, s1, bound);
                lemma_emit_fits(compile(*c.pattern, s1), bound, InstrModel::CaptureEnd(id));
            },
            _ => {
                lemma_emit_lit_fits(st, bound, InstrModel::MatchPredicate(st.lits.len() as nat), p);
            },
        },
    }
}

proof fn lemma_compile_list_fits(whole: Pattern, ps: Seq<Pattern>, i: int, st: CompileState, bound: nat)
    requires
        decreases_to!(whole => ps),
        fits(st.code, st.lits, bound),
        forall|j: int| 0 <= j < ps.len() ==> pattern_size(#[trigger] ps[j]) <= bound,
    ensures
        fits(compile_list(ps, i, st).code, compile_list(ps, i, st).lits, bound),
        compile_list(ps, i, st).code.len() >= st.code.len(),
    decreases whole, 0int, ps.len() - i,
{
    if 0 <= i < ps.len() {
        assert(decreases_to!(ps => ps[i]));
        lemma_compile_fits(ps[i], st, bound);
        lemma_compile_list_fits(whole, ps, i + 1, compile(ps[i], st), bound);
    }
}

proof fn lemma_compile_alternatives_fits(
    whole: Pattern,
    ps: Seq<Pattern>,
    i: int,
    st: CompileState,
    jumps: Seq<int>,
    bound: nat,
)
    requires
        decreases_to!(whole => ps),
        fits(st.code, st.lits, bound),
        forall|j: int| 0 <= j < ps.len() ==> pattern_size(#[trigger] ps[j]) <= bound,
    ensures
        fits(
            compile_alternatives(ps, i, st, jumps).0.code,
            compile_alternatives(ps, i, st, jumps).0.lits,
            bound,
        ),
        compile_alternatives(ps, i, st, jumps).0.code.len() >= st.code.len(),
    decreases whole, 0int, ps.len() - i,
{
    if 0 <= i < ps.len() {
        assert(decreases_to!(ps => ps[i]));
        if i == ps.len() - 1 {
            lemma_compile_fits(ps[i], st, bound);
        } else {
            let split_pos = st.code.len() as int;
            let s1 = emit(st, InstrModel::Split { a: 0, b: 0 });
            lemma_emit_fits(st, bound, InstrModel::Split { a: 0, b: 0 });
            lemma_compile_fits(ps[i], s1, bound);
            let st2 = compile(ps[i], s1);
            let jump_pos = st2.code.len() as int;
            lemma_emit_fits(st2, bound, InstrModel::Jump(0));
            let st3 = emit(st2, InstrModel::Jump(0));
            let x = InstrModel::Split { a: (split_pos + 1) as nat, b: (jump_pos + 1) as nat };
            lemma_fits_update(st3.code, st3.lits, bound, split_pos, x);
            let st4 = CompileState { code: st3.code.update(split_pos, x), ..st3 };
            lemma_compile_alternatives_fits(whole, ps, i + 1, st4, jumps.push(jump_pos), bound);
        }
    }
}

proof fn lemma_patch_jumps_fits(st: CompileState, jumps: Seq<int>, k: int, bound: nat)
    requires
        fits(st.code, st.lits, bound),
    ensures
        fits(patch_jumps(st, jumps, k).code, patch_jumps(st, jumps, k).lits, bound),
        patch_jumps(st, jumps, k).code.len() == st.code.len(),
    decreases jumps.len() - k,
{
    if 0 <= k < jumps.len() {
        let x = InstrModel::Jump(st.code.len() as nat);
        if 0 <= jumps[k] < st.code.len() {
            lemma_fits_update(st.code, st.lits, bound, jumps[k], x);
            lemma_patch_jumps_fits(
                CompileState { code: st.code.update(jumps[k], x), ..st },
                jumps,
                k + 1,
                bound,
            );
        } else {
            lemma_patch_jumps_fits(st, jumps, k + 1, bound);
        }
    }
}

proof fn lemma_compile_traverse_fits(t: TraversePattern, st: CompileState, bound: nat)
    requires
        fits(st.code, st.lits, bound),
        traverse_size(t) <= bound,
    ensures
        fits(compile_traverse(t, st).code, compile_traverse(t, st).lits, bound),
        compile_traverse(t, st).code.len() >= st.code.len(),
    decreases t, 0int, 0int,
{
    lemma_compile_fits(*t.first, st, bound);
    match t.rest {
        Some(r) => {
            let s1 = compile(*t.first, st);
            lemma_emit_fits(s1, bound, InstrModel::ExtendTraversal);
            lemma_compile_traverse_fits(*r, emit(s1, InstrModel::ExtendTraversal), bound);
            lemma_emit_fits(
                compile_traverse(*r, emit(s1, InstrModel::ExtendTraversal)),
                bound,
                InstrModel::CombineTraversal,
            );
        },
        None => {},
    }
}

/// The program of a pattern may be run with the pattern's size as bound.
pub proof fn lemma_program_fits(p: Pattern)
    ensures
        program_fits(compile_program(p), pattern_size(p)),
{
    let st = empty_state();
    lemma_compile_fits(p, st, pattern_size(p));
    let c = compile(p, st);
    lemma_emit_fits(c, pattern_size(p), InstrModel::Accept);
}

/// The position of `name` among `names`, or `names.len()`.
pub fn position_of(names: &Vec<String>, name: &String) -> (r: usize)
    ensures
        r as int == name_position(names_model(names@), name@, 0),
{
    let ghost nm = names_model(names@);
    let mut k: usize = 0;
    while k < names.len()
        invariant
            k <= names@.len(),
            nm == names_model(names@),
            name_position(nm, name@, 0) == name_position(nm, name@, k as int),
        decreases names@.len() - k,
    {
        if names[k] == *name {
            return k;
        }
        k = k + 1;
    }
    k
}

fn add_new_names(names: &mut Vec<String>, extra: &Vec<String>)
    ensures
        names_model(final(names)@) == add_names(names_model(old(names)@), names_model(extra@), 0),
{
    let ghost ev = names_model(extra@);
    let mut i: usize = 0;
    while i < extra.len()
        invariant
            i <= extra@.len(),
            ev == names_model(extra@),
            add_names(names_model(names@), ev, i as int) == add_names(
                names_model(old(names)@),
                ev,
                0,
            ),
        decreases extra@.len() - i,
    {
        let pos = position_of(names, &extra[i]);
        proof {
            lemma_name_position_contains(names_model(names@), extra@[i as int]@, 0);
        }
        if pos >= names.len() {
            let ghost before = names_model(names@);
            names.push(extra[i].clone());
            assert(names_model(names@) =~= before.push(ev[i as int]));
        }
        i = i + 1;
    }
}

/// `name_position` finds `name` exactly when the names contain it.
pub proof fn lemma_name_position_contains(names: Seq<Seq<char>>, name: Seq<char>, k: int)
    requires
        0 <= k <= names.len(),
        forall|j: int| 0 <= j < k ==> names[j] != name,
    ensures
        (0 <= name_position(names, name, k) < names.len()) == names.contains(name),
        0 <= name_position(names, name, k) <= names.len(),
        name_position(names, name, k) < names.len() ==> names[name_position(names, name, k)]
            == name,
    decreases names.len() - k,
{
    if k < names.len() {
        if names[k] != name {
            lemma_name_position_contains(names, name, k + 1);
        } else {
            assert(names.contains(name));
        }
    } else {
        if names.contains(name) {
            let j = choose|j: int| 0 <= j < names.len() && names[j] == name;
            assert(names[j] == name);
        }
    }
}

/// Appends `i` to the code.
fn push_instr(code: &mut Vec<Instr>, i: Instr)
    ensures
        code_model(final(code)@) == code_model(old(code)@).push(i@),
        final(code)@.len() == old(code)@.len() + 1,
{
    let ghost before = code_model(code@);
    let ghost iv = i@;
    code.push(i);
    assert(code_model(code@) =~= before.push(iv));
}

/// Appends `l` to the literals.
fn push_literal<'a>(lits: &mut Vec<Literal<'a>>, l: Literal<'a>)
    ensures
        lits_model(final(lits)@) == lits_model(old(lits)@).push(literal_model(l)),
{
    let ghost before = lits_model(lits@);
    let ghost lv = literal_model(l);
    lits.push(l);
    assert(lits_model(lits@) =~= before.push(lv));
}

/// The capture names occurring in `p`, added to `out`.
pub fn collect_capture_names(p: &Pattern, out: &mut Vec<String>)
    ensures
        names_model(final(out)@) == capture_names(*p, names_model(old(out)@)),
    decreases p, 1int,
{
    match p {
        Pattern::Leaf(LeafPattern::Cbor(CBORPattern::Pattern(e))) => {
            let found = capture_names_in_expr(e.as_str());
            assert(found@.map_values(|s: String| s@) =~= names_model(found@));
            add_new_names(out, &found);
        },
        Pattern::Leaf(_) => {},
        Pattern::Structure(s) => match s {
            StructurePattern::Assertions(AssertionsPattern::WithPredicate(q)) => {
                collect_capture_names(q, out)
            },
            StructurePattern::Assertions(AssertionsPattern::WithObject(q)) => {
                collect_capture_names(q, out)
            },
            StructurePattern::Object(ObjectPattern::Pattern(q)) => collect_capture_names(q, out),
            StructurePattern::Predicate(PredicatePattern::Pattern(q)) => {
                collect_capture_names(q, out)
            },
            StructurePattern::Subject(SubjectPattern::Pattern(q)) => collect_capture_names(q, out),
            StructurePattern::Wrapped(WrappedPattern::Unwrap(q)) => collect_capture_names(q, out),
            _ => {},
        },
        Pattern::Meta(m) => match m {
            MetaPattern::And(AndPattern(v)) => {
                assert(decreases_to!(*p => v@));
                collect_capture_names_list(p, v, out)
            },
            MetaPattern::Or(OrPattern(v)) => {
                assert(decreases_to!(*p => v@));
                collect_capture_names_list(p, v, out)
            },
            MetaPattern::Not(NotPattern(q)) => collect_capture_names(q, out),
            MetaPattern::Search(SearchPattern(q)) => collect_capture_names(q, out),
            MetaPattern::Traverse(t) => collect_capture_names_traverse(t, out),
            MetaPattern::Group(g) => collect_capture_names(&g.pattern, out),
            MetaPattern::Capture(c) => {
                let pos = position_of(out, &c.name);
                proof {
                    lemma_name_position_contains(names_model(out@), c.name@, 0);
                }
                if pos >= out.len() {
                    let ghost before = names_model(out@);
                    out.push(c.name.clone());
                    assert(names_model(out@) =~= before.push(c.name@));
                }
                collect_capture_names(&c.pattern, out);
            },
            _ => {},
        },
    }
}

fn collect_capture_names_list(whole: &Pattern, v: &Vec<Pattern>, out: &mut Vec<String>)
    requires
        decreases_to!(*whole => v@),
    ensures
        names_model(final(out)@) == capture_names_list(v@, 0, names_model(old(out)@)),
    decreases whole, 0int,
{
    let mut i: usize = 0;
    while i < v.len()
        invariant
            i <= v@.len(),
            decreases_to!(*whole => v@),
            capture_names_list(v@, i as int, names_model(out@)) == capture_names_list(
                v@,
                0,
                names_model(old(out)@),
            ),
        decreases v@.len() - i,
    {
        proof {
            assert(decreases_to!(v@ => v@[i as int]));
        }
        collect_capture_names(&v[i], out);
        i = i + 1;
    }
}

fn collect_capture_names_traverse(t: &TraversePattern, out: &mut Vec<String>)
    ensures
        names_model(final(out)@) == capture_names_traverse(*t, names_model(old(out)@)),
    decreases t, 0int,
{
    collect_capture_names(&t.first, out);
    match &t.rest {
        Some(r) => collect_capture_names_traverse(r, out),
        None => {},
    }
}


/// Appends the code for `p` to the program under construction.
fn compile_into<'a>(
    p: &'a Pattern,
    code: &mut Vec<Instr>,
    lits: &mut Vec<Literal<'a>>,
    names: &mut Vec<String>,
)
    ensures
        state_model(final(code)@, final(lits)@, final(names)@) == compile(
            *p,
            state_model(old(code)@, old(lits)@, old(names)@),
        ),
        final(code)@.len() >= old(code)@.len(),
    decreases p, 1int,
{
    let ghost st = state_model(code@, lits@, names@);
    match p {
        Pattern::Leaf(LeafPattern::Cbor(CBORPattern::Pattern(e))) => {
            let found = capture_names_in_expr(e.as_str());
            assert(found@.map_values(|s: String| s@) =~= names_model(found@));
            add_new_names(names, &found);
            let idx = lits.len();
            push_instr(code, Instr::MatchPredicate(idx));
            push_literal(lits, Literal::Pattern(p));
        },
        Pattern::Leaf(_) => {
            let idx = lits.len();
            push_instr(code, Instr::MatchPredicate(idx));
            push_literal(lits, Literal::Pattern(p));
        },
        Pattern::Structure(s) => match s {
            StructurePattern::Subject(SubjectPattern::Any) => {
                push_instr(code, Instr::NavigateSubject);
            },
            StructurePattern::Subject(SubjectPattern::Pattern(q)) => {
                push_instr(code, Instr::NavigateSubject);
                push_instr(code, Instr::ExtendTraversal);
                compile_into(q, code, lits, names);
                push_instr(code, Instr::CombineTraversal);
            },
            StructurePattern::Assertions(_) | StructurePattern::Object(_)
            | StructurePattern::Predicate(_) | StructurePattern::Wrapped(WrappedPattern::Any) => {
                let idx = lits.len();
                push_instr(code, Instr::MatchStructure(idx));
                push_literal(lits, Literal::Pattern(p));
            },
            StructurePattern::Wrapped(WrappedPattern::Unwrap(q)) => {
                let idx = lits.len();
                push_instr(code, Instr::MatchStructure(idx));
                push_literal(lits, Literal::AnyWrapped);
                push_instr(code, Instr::PushAxis(Axis::Wrapped));
                compile_into(q, code, lits, names);
            },
            _ => {
                let idx = lits.len();
                push_instr(code, Instr::MatchPredicate(idx));
                push_literal(lits, Literal::Pattern(p));
            },
        },
        Pattern::Meta(m) => match m {
            MetaPattern::And(AndPattern(v)) => {
                assert(decreases_to!(*p => v@));
                compile_list_into(p, v, code, lits, names);
            },
            MetaPattern::Or(OrPattern(v)) => {
                assert(decreases_to!(*p => v@));
                compile_alternatives_into(p, v, code, lits, names);
            },
            MetaPattern::Not(NotPattern(q)) => {
                let idx = lits.len();
                push_instr(code, Instr::NotMatch { pat_idx: idx });
                push_literal(lits, Literal::Pattern(q));
            },
            MetaPattern::Search(SearchPattern(q)) => {
                let mut inner: Vec<String> = Vec::new();
                assert(names_model(inner@) =~= Seq::<Seq<char>>::empty());
                collect_capture_names(q, &mut inner);
                let cmap = search_map(names, &inner);
                let idx = lits.len();
                push_instr(code, Instr::Search { pat_idx: idx, capture_map: cmap });
                push_literal(lits, Literal::Pattern(q));
            },
            MetaPattern::Traverse(t) => {
                compile_traverse_into(t, code, lits, names);
            },
            MetaPattern::Group(g) => {
                let idx = lits.len();
                push_instr(code, Instr::Repeat { pat_idx: idx, quantifier: g.quantifier });
                push_literal(lits, Literal::Pattern(&g.pattern));
            },
            MetaPattern::Capture(c) => {
                let id = names.len();
                push_instr(code, Instr::CaptureStart(id));
                let ghost before = names_model(names@);
                names.push(c.name.clone());
                assert(names_model(names@) =~= before.push(c.name@));
                compile_into(&c.pattern, code, lits, names);
                push_instr(code, Instr::CaptureEnd(id));
            },
            _ => {
                let idx = lits.len();
                push_instr(code, Instr::MatchPredicate(idx));
                push_literal(lits, Literal::Pattern(p));
            },
        },
    }
}

/// Registers the capture names a search carries over and returns, for each,
/// its position among the program's names.
fn search_map(names: &mut Vec<String>, inner: &Vec<String>) -> (r: Vec<(String, usize)>)
    ensures
        (names_model(final(names)@), capture_map_model(r@)) == search_capture_map(
            names_model(old(names)@),
            names_model(inner@),
            0,
            Seq::empty(),
        ),
{
    let ghost iv = names_model(inner@);
    let mut map: Vec<(String, usize)> = Vec::new();
    let mut i: usize = 0;
    assert(capture_map_model(map@) =~= Seq::<(Seq<char>, nat)>::empty());
    while i < inner.len()
        invariant
            i <= inner@.len(),
            iv == names_model(inner@),
            search_capture_map(names_model(names@), iv, i as int, capture_map_model(map@))
                == search_capture_map(names_model(old(names)@), iv, 0, Seq::empty()),
        decreases inner@.len() - i,
    {
        let pos = position_of(names, &inner[i]);
        proof {
            lemma_name_position_contains(names_model(names@), iv[i as int], 0);
        }
        let ghost before_map = capture_map_model(map@);
        if pos < names.len() {
            map.push((inner[i].clone(), pos));
            assert(capture_map_model(map@) =~= before_map.push((iv[i as int], pos as nat)));
        } else {
            let n = names.len();
            map.push((inner[i].clone(), n));
            assert(capture_map_model(map@) =~= before_map.push((iv[i as int], n as nat)));
            let ghost before = names_model(names@);
            names.push(inner[i].clone());
            assert(names_model(names@) =~= before.push(iv[i as int]));
        }
        i = i + 1;
    }
    map
}

fn compile_list_into<'a>(
    whole: &'a Pattern,
    v: &'a Vec<Pattern>,
    code: &mut Vec<Instr>,
    lits: &mut Vec<Literal<'a>>,
    names: &mut Vec<String>,
)
    requires
        decreases_to!(*whole => v@),
    ensures
        state_model(final(code)@, final(lits)@, final(names)@) == compile_list(
            v@,
            0,
            state_model(old(code)@, old(lits)@, old(names)@),
        ),
        final(code)@.len() >= old(code)@.len(),
    decreases whole, 0int,
{
    let mut i: usize = 0;
    while i < v.len()
        invariant
            i <= v@.len(),
            code@.len() >= old(code)@.len(),
            decreases_to!(*whole => v@),
            compile_list(v@, i as int, state_model(code@, lits@, names@)) == compile_list(
                v@,
                0,
                state_model(old(code)@, old(lits)@, old(names)@),
            ),
        decreases v@.len() - i,
    {
        proof {
            assert(decreases_to!(v@ => v@[i as int]));
        }
        compile_into(&v[i], code, lits, names);
        i = i + 1;
    }
}

fn compile_alternatives_into<'a>(
    whole: &'a Pattern,
    v: &'a Vec<Pattern>,
    code: &mut Vec<Instr>,
    lits: &mut Vec<Literal<'a>>,
    names: &mut Vec<String>,
)
    requires
        decreases_to!(*whole => v@),
    ensures
        state_model(final(code)@, final(lits)@, final(names)@) == {
            let r = compile_alternatives(
                v@,
                0,
                state_model(old(code)@, old(lits)@, old(names)@),
                Seq::empty(),
            );
            patch_jumps(r.0, r.1, 0)
        },
        final(code)@.len() >= old(code)@.len(),
    decreases whole, 0int,
{
    let ghost goal = compile_alternatives(
        v@,
        0,
        state_model(code@, lits@, names@),
        Seq::empty(),
    );
    let mut jumps: Vec<usize> = Vec::new();
    let mut i: usize = 0;
    assert(jumps@.map_values(|j: usize| j as int) =~= Seq::<int>::empty());
    while i < v.len()
        invariant
            i <= v@.len(),
            code@.len() >= old(code)@.len(),
            forall|j: int| 0 <= j < jumps@.len() ==> jumps@[j] < code@.len(),
            decreases_to!(*whole => v@),
            compile_alternatives(
                v@,
                i as int,
                state_model(code@, lits@, names@),
                jumps@.map_values(|j: usize| j as int),
            ) == goal,
        decreases v@.len() - i,
    {
        proof {
            assert(decreases_to!(v@ => v@[i as int]));
        }
        if i + 1 == v.len() {
            compile_into(&v[i], code, lits, names);
        } else {
            let split_pos = code.len();
            push_instr(code, Instr::Split { a: 0, b: 0 });
            let a = code.len();
            compile_into(&v[i], code, lits, names);
            let jump_pos = code.len();
            push_instr(code, Instr::Jump(0));
            let b = code.len();
            let ghost before = code_model(code@);
            code.set(split_pos, Instr::Split { a, b });
            assert(code_model(code@) =~= before.update(
                split_pos as int,
                InstrModel::Split { a: a as nat, b: b as nat },
            ));
            let ghost jb = jumps@.map_values(|j: usize| j as int);
            jumps.push(jump_pos);
            assert(jumps@.map_values(|j: usize| j as int) =~= jb.push(jump_pos as int));
        }
        i = i + 1;
    }
    let mut k: usize = 0;
    while k < jumps.len()
        invariant
            k <= jumps@.len(),
            patch_jumps(
                state_model(code@, lits@, names@),
                jumps@.map_values(|j: usize| j as int),
                k as int,
            ) == patch_jumps(goal.0, goal.1, 0),
            goal.1 == jumps@.map_values(|j: usize| j as int),
            forall|j: int| 0 <= j < jumps@.len() ==> jumps@[j] < code@.len(),
            code@.len() >= old(code)@.len(),
        decreases jumps@.len() - k,
    {
        let end = code.len();
        let ghost before = code_model(code@);
        code.set(jumps[k], Instr::Jump(end));
        assert(code_model(code@) =~= before.update(jumps@[k as int] as int, InstrModel::Jump(end as nat)));
        k = k + 1;
    }
}

fn compile_traverse_into<'a>(
    t: &'a TraversePattern,
    code: &mut Vec<Instr>,
    lits: &mut Vec<Literal<'a>>,
    names: &mut Vec<String>,
)
    ensures
        state_model(final(code)@, final(lits)@, final(names)@) == compile_traverse(
            *t,
            state_model(old(code)@, old(lits)@, old(names)@),
        ),
        final(code)@.len() >= old(code)@.len(),
    decreases t, 0int,
{
    compile_into(&t.first, code, lits, names);
    match &t.rest {
        Some(r) => {
            push_instr(code, Instr::ExtendTraversal);
            compile_traverse_into(r, code, lits, names);
            push_instr(code, Instr::CombineTraversal);
        },
        None => {},
    }
}

impl<'a> Program<'a> {
    /// Compiles `p` into a program: its code followed by `Accept`, the
    /// patterns its instructions test, and its capture names.
    pub fn compile(p: &'a Pattern) -> (r: Program<'a>)
        ensures
            r.model() == compile_program(*p),
            program_fits(r.model(), pattern_size(*p)),
    {
        proof {
            lemma_program_fits(*p);
        }
        let mut code: Vec<Instr> = Vec::new();
        let mut lits: Vec<Literal<'a>> = Vec::new();
        let mut names: Vec<String> = Vec::new();
        assert(code_model(code@) =~= Seq::<InstrModel>::empty());
        assert(lits_model(lits@) =~= Seq::<Pattern>::empty());
        assert(names_model(names@) =~= Seq::<Seq<char>>::empty());
        assert(state_model(code@, lits@, names@) == empty_state());
        compile_into(p, &mut code, &mut lits, &mut names);
        push_instr(&mut code, Instr::Accept);
        Program { code, literals: lits, capture_names: names }
    }
}

} // verus!
