//! What matching means: the paths and captures a pattern yields on an
//! envelope, defined through the byte-code a pattern compiles to and the
//! backtracking machine that runs it.
use vstd::prelude::*;

use crate::dcbor::{bytes_regex_matches, leaf_digest, text_regex_matches, text_regex_valid};
use crate::known_value::known_value_cbor;
use crate::expression::{expression_capture, expression_paths};
use crate::envelope::EnvelopeModel;
use crate::interval::{interval_contains, range_notation_spec};
use crate::pattern::{
    pattern_size, AndPattern, ArrayPattern, AssertionsPattern,
    CBORPattern, DigestPattern, KnownValuePattern, MapPattern, LeafPattern, MetaPattern,
    NodePattern, NotPattern, ObjectPattern, ObscuredPattern, OrPattern, Pattern,
    PredicatePattern, SearchPattern, StructurePattern, SubjectPattern, TextPattern,
    TraversePattern, WrappedPattern,
};
use crate::quantifier::{Quantifier, Reluctance};
use crate::text::{decimal, escape_spec, slash_escaped, starts_with_ignore_case};

verus! {

/// A path: envelopes from where matching started to the element matched.
pub type PathModel = Seq<EnvelopeModel>;

/// Named captures: each name once, with the paths captured under it.
pub type CapsModel = Seq<(Seq<char>, Seq<PathModel>)>;

/// The direction in which a `PushAxis` instruction descends.
#[derive(Clone, Copy, Debug, PartialEq, Eq)]
pub enum Axis {
    Subject,
    Assertion,
    Predicate,
    Object,
    Wrapped,
}

/// One byte-code instruction, as a mathematical value.
pub enum InstrModel {
    MatchPredicate(nat),
    MatchStructure(nat),
    Split { a: nat, b: nat },
    Jump(nat),
    PushAxis(Axis),
    Pop,
    Save,
    Accept,
    Search { pat_idx: nat, capture_map: Seq<(Seq<char>, nat)> },
    ExtendTraversal,
    CombineTraversal,
    NavigateSubject,
    NotMatch { pat_idx: nat },
    Repeat { pat_idx: nat, quantifier: Quantifier },
    CaptureStart(nat),
    CaptureEnd(nat),
}

/// A compiled program: code, the patterns its instructions refer to, and the
/// names of its capture groups.
pub struct ProgModel {
    pub code: Seq<InstrModel>,
    pub lits: Seq<Pattern>,
    pub names: Seq<Seq<char>>,
}

/// The state of one thread of the machine.
pub struct ThreadModel {
    pub pc: int,
    pub env: EnvelopeModel,
    pub path: PathModel,
    pub saved: Seq<PathModel>,
    pub caps: Seq<Seq<PathModel>>,
    pub cstack: Seq<Seq<int>>,
    pub seen: Seq<Seq<Seq<u8>>>,
}

/// A path emitted by the machine with the captures of its thread, one list
/// per capture group.
pub type OutModel = (PathModel, Seq<Seq<PathModel>>);

/// What one thread does before it halts: what it emits (including the output
/// of repetitions it runs), the threads it forks (in the order they are
/// pushed), and whether it produced anything.
pub struct Step {
    pub outs: Seq<OutModel>,
    pub forks: Seq<ThreadModel>,
    pub produced: bool,
}

// ---------------------------------------------------------------------------
// Capture maps
// ---------------------------------------------------------------------------

/// The first index of `name` in `m`, or `m.len()`.
pub open spec fn caps_find(m: CapsModel, name: Seq<char>, k: int) -> int
    decreases m.len() - k,
{
    if k < 0 || k >= m.len() {
        m.len() as int
    } else if m[k].0 == name {
        k
    } else {
        caps_find(m, name, k + 1)
    }
}

/// The paths captured under `name`, if any.
pub open spec fn caps_get(m: CapsModel, name: Seq<char>) -> Option<Seq<PathModel>> {
    let k = caps_find(m, name, 0);
    if 0 <= k < m.len() {
        Some(m[k].1)
    } else {
        None
    }
}

/// `m` with the paths under `name` replaced by `v` (added at the end if the
/// name is new).
pub open spec fn caps_insert(m: CapsModel, name: Seq<char>, v: Seq<PathModel>) -> CapsModel {
    let k = caps_find(m, name, 0);
    if 0 <= k < m.len() {
        m.update(k, (name, v))
    } else {
        m.push((name, v))
    }
}

/// `m` with `v` appended to the paths under `name`.
pub open spec fn caps_append(m: CapsModel, name: Seq<char>, v: Seq<PathModel>) -> CapsModel {
    let k = caps_find(m, name, 0);
    if 0 <= k < m.len() {
        m.update(k, (name, m[k].1 + v))
    } else {
        m.push((name, v))
    }
}

/// Every entry of `extra` appended into `m`, in order.
pub open spec fn caps_merge(m: CapsModel, extra: CapsModel) -> CapsModel
    decreases extra.len(),
{
    if extra.len() == 0 {
        m
    } else {
        caps_append(caps_merge(m, extra.drop_last()), extra.last().0, extra.last().1)
    }
}

/// The first index of `name` in `names`, or `names.len()`.
pub open spec fn name_position(names: Seq<Seq<char>>, name: Seq<char>, k: int) -> int
    decreases names.len() - k,
{
    if k < 0 || k >= names.len() {
        names.len() as int
    } else if names[k] == name {
        k
    } else {
        name_position(names, name, k + 1)
    }
}

// ---------------------------------------------------------------------------
// Leaf patterns
// ---------------------------------------------------------------------------

/// Whether `c` can continue a capture name.
pub open spec fn name_char(c: char) -> bool {
    ('a' <= c && c <= 'z') || ('A' <= c && c <= 'Z') || ('0' <= c && c <= '9') || c == '_'
}

/// The index of the first character at or after `j` that cannot continue a
/// capture name, or `s.len()`.
pub open spec fn name_end(s: Seq<char>, j: int) -> int
    decreases s.len() - j,
{
    if j < 0 || j >= s.len() {
        s.len() as int
    } else if !name_char(s[j]) {
        j
    } else {
        name_end(s, j + 1)
    }
}

/// Scans `s` from `i` for `@name`, a capture name as dcbor-pattern's lexer
/// reads it, and collects each new, non-empty name.
pub open spec fn scan_capture_names(s: Seq<char>, i: int, names: Seq<Seq<char>>) -> Seq<
    Seq<char>,
>
    decreases s.len() - i,
{
    if i < 0 || i >= s.len() {
        names
    } else if s[i] == '@' {
        let j = name_end(s, i + 1);
        if i < j <= s.len() {
            let name = s.subrange(i + 1, j);
            let names2 = if name.len() > 0 && !names.contains(name) {
                names.push(name)
            } else {
                names
            };
            scan_capture_names(s, j, names2)
        } else {
            names
        }
    } else {
        scan_capture_names(s, i + 1, names)
    }
}

/// The capture names written `@name` in a dcbor-pattern expression.
pub open spec fn dcbor_capture_names(expr: Seq<char>) -> Seq<Seq<char>> {
    scan_capture_names(expr, 0, Seq::empty())
}

/// The dcbor-pattern expression a text pattern stands for.
pub open spec fn text_expr(tp: TextPattern) -> Seq<char> {
    match tp {
        TextPattern::Any => "text"@,
        TextPattern::Value(v) => seq!['"'] + escape_spec(v@) + seq!['"'],
        TextPattern::Regex(r) => seq!['/'] + slash_escaped(r@, 0, false) + seq!['/'],
    }
}

/// The dcbor-pattern expression an array pattern stands for.
pub open spec fn array_expr(ap: ArrayPattern) -> Seq<char> {
    match ap {
        ArrayPattern::Any => "array"@,
        ArrayPattern::Count(n) => "[{"@ + decimal(n as nat) + "}]"@,
        ArrayPattern::Range(iv) => match iv@.1 {
            Some(m) => "[{"@ + decimal(iv@.0 as nat) + ","@ + decimal(m as nat) + "}]"@,
            None => "[{"@ + decimal(iv@.0 as nat) + ",}]"@,
        },
        ArrayPattern::Content(e) => e@,
    }
}

/// The dcbor-pattern expression a map pattern stands for.
pub open spec fn map_expr(mp: MapPattern) -> Seq<char> {
    match mp {
        MapPattern::Any => "map"@,
        MapPattern::Interval(iv) => "{"@ + range_notation_spec(iv@) + "}"@,
        MapPattern::Content(e) => e@,
    }
}

/// Whether a known-value pattern accepts the known value `value` named
/// `name`: any known value; the one with that number; the one with that
/// name; or one whose name the regular expression, when it compiles,
/// matches.
pub open spec fn known_value_accepts(kp: KnownValuePattern, value: u64, name: Seq<char>) -> bool {
    match kp {
        KnownValuePattern::Any => true,
        KnownValuePattern::Value { value: v, .. } => v == value,
        KnownValuePattern::Named(n) => n@ == name,
        KnownValuePattern::Regex(r) => text_regex_valid(r@) && text_regex_matches(r@, name),
    }
}

/// The one-element path `[env]`, when `expr` matches the leaf subject of
/// `env`.
pub open spec fn leaf_value_paths(expr: Seq<char>, env: EnvelopeModel) -> Seq<PathModel> {
    match env.subject().as_leaf() {
        Some(c) => if expression_paths(expr, c, None).len() > 0 {
            seq![seq![env]]
        } else {
            Seq::empty()
        },
        None => Seq::empty(),
    }
}

/// The known value that is `env`'s subject, with its name.
pub open spec fn subject_known(env: EnvelopeModel) -> Option<(u64, Seq<char>)> {
    match (env.subject().as_known_value(), env.subject().known_value_name()) {
        (Some(v), Some(n)) => Some((v, n)),
        _ => None,
    }
}

/// `n` copies of the path `[env]`.
pub open spec fn copies(env: EnvelopeModel, n: nat) -> Seq<PathModel> {
    Seq::new(n, |i: int| seq![env])
}

/// The leaf envelope holding the dCBOR value encoded by `c`.
pub open spec fn leaf_env(c: Seq<u8>) -> EnvelopeModel {
    EnvelopeModel::Leaf { cbor: c, digest: leaf_digest(c) }
}

/// Leaf envelopes for a sequence of encodings.
pub open spec fn leaf_envs(cs: Seq<Seq<u8>>) -> PathModel {
    Seq::new(cs.len(), |i: int| leaf_env(cs[i]))
}

/// `dp` without its first element when that element is `c`.
pub open spec fn skip_if_first(dp: Seq<Seq<u8>>, c: Seq<u8>) -> Seq<Seq<u8>> {
    if dp.len() > 0 && dp[0] == c {
        dp.skip(1)
    } else {
        dp
    }
}

/// An envelope path for a dCBOR path found under `base`: `base`, then a leaf
/// for every element, leaving out the first one when it is the leaf value of
/// `base`'s subject.
pub open spec fn envelope_path_for(dp: Seq<Seq<u8>>, base: EnvelopeModel) -> PathModel {
    match base.subject().as_leaf() {
        Some(c) => seq![base] + leaf_envs(skip_if_first(dp, c)),
        None => seq![base] + leaf_envs(dp),
    }
}

/// The captures of a dcbor-pattern match, for the names `names[i..]`, each
/// captured path turned into an envelope path under `base`; names with no
/// captured path are left out.
pub open spec fn converted_captures(
    expr: Seq<char>,
    c: Seq<u8>,
    base: EnvelopeModel,
    names: Seq<Seq<char>>,
    i: int,
) -> CapsModel
    decreases names.len() - i,
{
    if i < 0 || i >= names.len() {
        Seq::empty()
    } else {
        let dp = expression_capture(expr, c, names[i], subject_known(base));
        let rest = converted_captures(expr, c, base, names, i + 1);
        if dp.len() > 0 {
            seq![(names[i], Seq::new(dp.len(), |k: int| envelope_path_for(dp[k], base)))] + rest
        } else {
            rest
        }
    }
}

/// The captures of a dcbor-pattern match on a tagged value: every captured
/// path becomes the path `[env]`.
pub open spec fn tagged_captures(
    expr: Seq<char>,
    c: Seq<u8>,
    env: EnvelopeModel,
    names: Seq<Seq<char>>,
    i: int,
) -> CapsModel
    decreases names.len() - i,
{
    if i < 0 || i >= names.len() {
        Seq::empty()
    } else {
        let dp = expression_capture(expr, c, names[i], None);
        let rest = tagged_captures(expr, c, env, names, i + 1);
        if dp.len() > 0 {
            seq![(names[i], copies(env, dp.len()))] + rest
        } else {
            rest
        }
    }
}

/// What a CBOR pattern matches on the dCBOR value `c` of `env`'s subject:
/// the paths (`[env]` extended by the dCBOR path, without the root when it is
/// `c`) and the captures.
pub open spec fn cbor_value_results(cp: CBORPattern, env: EnvelopeModel, c: Seq<u8>, skip_root_always: bool) -> (Seq<PathModel>, CapsModel) {
    match cp {
        CBORPattern::Any => (seq![seq![env]], Seq::empty()),
        CBORPattern::Value(v) => if c == v@ {
            (seq![seq![env]], Seq::empty())
        } else {
            (Seq::empty(), Seq::empty())
        },
        CBORPattern::Pattern(e) => {
            let dps = expression_paths(e@, c, subject_known(env));
            if dps.len() > 0 {
                (
                    Seq::new(
                        dps.len(),
                        |k: int|
                            seq![env] + leaf_envs(
                                if skip_root_always {
                                    if dps[k].len() > 0 {
                                        dps[k].skip(1)
                                    } else {
                                        dps[k]
                                    }
                                } else {
                                    skip_if_first(dps[k], c)
                                },
                            ),
                    ),
                    converted_captures(e@, c, env, dcbor_capture_names(e@), 0),
                )
            } else {
                (Seq::empty(), Seq::empty())
            }
        },
    }
}

/// The paths and captures a leaf pattern finds on `env`.
pub open spec fn leaf_results(lp: LeafPattern, env: EnvelopeModel) -> (Seq<PathModel>, CapsModel) {
    match lp {
        LeafPattern::Any => (
            if env.is_leaf() || env.is_known_value() {
                seq![seq![env]]
            } else {
                Seq::empty()
            },
            Seq::empty(),
        ),
        LeafPattern::Cbor(cp) => match env.subject().as_known_value() {
            Some(v) => cbor_value_results(cp, env, known_value_cbor(v), true),
            None => match env.subject().as_leaf() {
                Some(c) => cbor_value_results(cp, env, c, false),
                None => (Seq::empty(), Seq::empty()),
            },
        },
        LeafPattern::Number(p) => (leaf_value_paths(p.expr@, env), Seq::empty()),
        LeafPattern::Text(p) => (leaf_value_paths(text_expr(p), env), Seq::empty()),
        LeafPattern::ByteString(p) => (leaf_value_paths(p.expr@, env), Seq::empty()),
        LeafPattern::Tag(p) => match env.subject().as_leaf() {
            Some(c) => (
                copies(env, expression_paths(p.expr@, c, None).len()),
                tagged_captures(p.expr@, c, env, dcbor_capture_names(p.expr@), 0),
            ),
            None => (Seq::empty(), Seq::empty()),
        },
        LeafPattern::Array(p) => (leaf_value_paths(array_expr(p), env), Seq::empty()),
        LeafPattern::MapValue(p) => (leaf_value_paths(map_expr(p), env), Seq::empty()),
        LeafPattern::Bool(p) => (leaf_value_paths(p.expr@, env), Seq::empty()),
        LeafPattern::Null(_) => (leaf_value_paths("null"@, env), Seq::empty()),
        LeafPattern::Date(p) => (leaf_value_paths(p.expr@, env), Seq::empty()),
        LeafPattern::KnownValue(p) => match env.subject() {
            EnvelopeModel::KnownValue { value, name, .. } => (
                if known_value_accepts(p, value, name) {
                    seq![seq![env]]
                } else {
                    Seq::empty()
                },
                Seq::empty(),
            ),
            _ => (Seq::empty(), Seq::empty()),
        },
    }
}

// ---------------------------------------------------------------------------
// Compilation
// ---------------------------------------------------------------------------

/// Code, literals and capture names emitted so far.
pub struct CompileState {
    pub code: Seq<InstrModel>,
    pub lits: Seq<Pattern>,
    pub names: Seq<Seq<char>>,
}

pub open spec fn empty_state() -> CompileState {
    CompileState { code: Seq::empty(), lits: Seq::empty(), names: Seq::empty() }
}

pub open spec fn emit(st: CompileState, i: InstrModel) -> CompileState {
    CompileState { code: st.code.push(i), ..st }
}

/// Emits a predicate test of `p` at the current position.
pub open spec fn emit_atomic(st: CompileState, p: Pattern) -> CompileState {
    CompileState {
        code: st.code.push(InstrModel::MatchPredicate(st.lits.len() as nat)),
        lits: st.lits.push(p),
        names: st.names,
    }
}

/// Emits a structure step for `p` at the current position.
pub open spec fn emit_structure(st: CompileState, p: Pattern) -> CompileState {
    CompileState {
        code: st.code.push(InstrModel::MatchStructure(st.lits.len() as nat)),
        lits: st.lits.push(p),
        names: st.names,
    }
}

/// `names` with each of `extra[i..]` appended unless already present.
pub open spec fn add_names(names: Seq<Seq<char>>, extra: Seq<Seq<char>>, i: int) -> Seq<
    Seq<char>,
>
    decreases extra.len() - i,
{
    if i < 0 || i >= extra.len() {
        names
    } else if names.contains(extra[i]) {
        add_names(names, extra, i + 1)
    } else {
        add_names(names.push(extra[i]), extra, i + 1)
    }
}

/// The capture names a search must carry over: for each of `inner[i..]`, its
/// position among the program's names, registering it when new.
pub open spec fn search_capture_map(
    names: Seq<Seq<char>>,
    inner: Seq<Seq<char>>,
    i: int,
    map: Seq<(Seq<char>, nat)>,
) -> (Seq<Seq<char>>, Seq<(Seq<char>, nat)>)
    decreases inner.len() - i,
{
    if i < 0 || i >= inner.len() {
        (names, map)
    } else {
        let pos = name_position(names, inner[i], 0);
        if 0 <= pos < names.len() {
            search_capture_map(names, inner, i + 1, map.push((inner[i], pos as nat)))
        } else {
            search_capture_map(
                names.push(inner[i]),
                inner,
                i + 1,
                map.push((inner[i], names.len() as nat)),
            )
        }
    }
}

/// The capture names occurring in `p`, added to `out` in order of first
/// occurrence.
pub open spec fn capture_names(p: Pattern, out: Seq<Seq<char>>) -> Seq<Seq<char>>
    decreases p, 0int,
{
    match p {
        Pattern::Leaf(LeafPattern::Cbor(CBORPattern::Pattern(e))) => add_names(
            out,
            dcbor_capture_names(e@),
            0,
        ),
        Pattern::Leaf(_) => out,
        Pattern::Structure(s) => match s {
            StructurePattern::Assertions(AssertionsPattern::WithPredicate(q)) => capture_names(
                *q,
                out,
            ),
            StructurePattern::Assertions(AssertionsPattern::WithObject(q)) => capture_names(
                *q,
                out,
            ),
            StructurePattern::Object(ObjectPattern::Pattern(q)) => capture_names(*q, out),
            StructurePattern::Predicate(PredicatePattern::Pattern(q)) => capture_names(*q, out),
            StructurePattern::Subject(SubjectPattern::Pattern(q)) => capture_names(*q, out),
            StructurePattern::Wrapped(WrappedPattern::Unwrap(q)) => capture_names(*q, out),
            _ => out,
        },
        Pattern::Meta(m) => match m {
            MetaPattern::And(AndPattern(v)) => capture_names_list(v@, 0, out),
            MetaPattern::Or(OrPattern(v)) => capture_names_list(v@, 0, out),
            MetaPattern::Not(NotPattern(q)) => capture_names(*q, out),
            MetaPattern::Search(SearchPattern(q)) => capture_names(*q, out),
            MetaPattern::Traverse(t) => capture_names_traverse(t, out),
            MetaPattern::Group(g) => capture_names(*g.pattern, out),
            MetaPattern::Capture(c) => capture_names(
                *c.pattern,
                if out.contains(c.name@) {
                    out
                } else {
                    out.push(c.name@)
                },
            ),
            _ => out,
        },
    }
}

pub open spec fn capture_names_list(ps: Seq<Pattern>, i: int, out: Seq<Seq<char>>) -> Seq<
    Seq<char>,
>
    decreases ps, ps.len() - i,
{
    if i < 0 || i >= ps.len() {
        out
    } else {
        capture_names_list(ps, i + 1, capture_names(ps[i], out))
    }
}

pub open spec fn capture_names_traverse(t: TraversePattern, out: Seq<Seq<char>>) -> Seq<
    Seq<char>,
>
    decreases t, 0int,
{
    match t.rest {
        Some(r) => capture_names_traverse(*r, capture_names(*t.first, out)),
        None => capture_names(*t.first, out),
    }
}

/// The structure literal that tests for a wrapped envelope.
pub open spec fn wrapped_any() -> Pattern {
    Pattern::Structure(StructurePattern::Wrapped(WrappedPattern::Any))
}

/// The code for `p`, appended to `st`.
pub open spec fn compile(p: Pattern, st: CompileState) -> CompileState
    decreases p, 0int,
{
    match p {
        Pattern::Leaf(LeafPattern::Cbor(CBORPattern::Pattern(e))) => emit_atomic(
            CompileState { names: add_names(st.names, dcbor_capture_names(e@), 0), ..st },
            p,
        ),
        Pattern::Leaf(_) => emit_atomic(st, p),
        Pattern::Structure(s) => match s {
            StructurePattern::Subject(SubjectPattern::Any) => emit(
                st,
                InstrModel::NavigateSubject,
            ),
            StructurePattern::Subject(SubjectPattern::Pattern(q)) => emit(
                compile(
                    *q,
                    emit(emit(st, InstrModel::NavigateSubject), InstrModel::ExtendTraversal),
                ),
                InstrModel::CombineTraversal,
            ),
            StructurePattern::Assertions(_) => emit_structure(st, p),
            StructurePattern::Object(_) => emit_structure(st, p),
            StructurePattern::Predicate(_) => emit_structure(st, p),
            StructurePattern::Wrapped(WrappedPattern::Any) => emit_structure(st, p),
            StructurePattern::Wrapped(WrappedPattern::Unwrap(q)) => compile(
                *q,
                emit(emit_structure(st, wrapped_any()), InstrModel::PushAxis(Axis::Wrapped)),
            ),
            _ => emit_atomic(st, p),
        },
        Pattern::Meta(m) => match m {
            MetaPattern::And(AndPattern(v)) => compile_list(v@, 0, st),
            MetaPattern::Or(OrPattern(v)) => {
                let r = compile_alternatives(v@, 0, st, Seq::empty());
                patch_jumps(r.0, r.1, 0)
            },
            MetaPattern::Not(NotPattern(q)) => CompileState {
                code: st.code.push(InstrModel::NotMatch { pat_idx: st.lits.len() as nat }),
                lits: st.lits.push(*q),
                names: st.names,
            },
            MetaPattern::Search(SearchPattern(q)) => {
                let r = search_capture_map(st.names, capture_names(*q, Seq::empty()), 0, Seq::empty());
                CompileState {
                    code: st.code.push(
                        InstrModel::Search { pat_idx: st.lits.len() as nat, capture_map: r.1 },
                    ),
                    lits: st.lits.push(*q),
                    names: r.0,
                }
            },
            MetaPattern::Traverse(t) => compile_traverse(t, st),
            MetaPattern::Group(g) => CompileState {
                code: st.code.push(
                    InstrModel::Repeat { pat_idx: st.lits.len() as nat, quantifier: g.quantifier },
                ),
                lits: st.lits.push(*g.pattern),
                names: st.names,
            },
            MetaPattern::Capture(c) => {
                let id = st.names.len() as nat;
                emit(
                    compile(
                        *c.pattern,
                        CompileState {
                            code: st.code.push(InstrModel::CaptureStart(id)),
                            names: st.names.push(c.name@),
                            lits: st.lits,
                        },
                    ),
                    InstrModel::CaptureEnd(id),
                )
            },
            _ => emit_atomic(st, p),
        },
    }
}

/// The code for `ps[i..]`, one after the other.
pub open spec fn compile_list(ps: Seq<Pattern>, i: int, st: CompileState) -> CompileState
    decreases ps, ps.len() - i,
{
    if i < 0 || i >= ps.len() {
        st
    } else {
        compile_list(ps, i + 1, compile(ps[i], st))
    }
}

/// The code for the alternatives `ps[i..]`: before each alternative but the
/// last, a split to it and to what follows its jump; after it, a jump whose
/// target is patched once the end is known. Returns the jumps to patch.
pub open spec fn compile_alternatives(
    ps: Seq<Pattern>,
    i: int,
    st: CompileState,
    jumps: Seq<int>,
) -> (CompileState, Seq<int>)
    decreases ps, ps.len() - i,
{
    if i < 0 || i >= ps.len() {
        (st, jumps)
    } else if i == ps.len() - 1 {
        (compile(ps[i], st), jumps)
    } else {
        let split_pos = st.code.len() as int;
        let st2 = compile(ps[i], emit(st, InstrModel::Split { a: 0, b: 0 }));
        let jump_pos = st2.code.len() as int;
        let st3 = emit(st2, InstrModel::Jump(0));
        let st4 = CompileState {
            code: st3.code.update(
                split_pos,
                InstrModel::Split { a: (split_pos + 1) as nat, b: (jump_pos + 1) as nat },
            ),
            ..st3
        };
        compile_alternatives(ps, i + 1, st4, jumps.push(jump_pos))
    }
}

/// Every jump in `jumps[k..]` pointed at the end of the code.
pub open spec fn patch_jumps(st: CompileState, jumps: Seq<int>, k: int) -> CompileState
    decreases jumps.len() - k,
{
    if k < 0 || k >= jumps.len() {
        st
    } else {
        let st2 = if 0 <= jumps[k] < st.code.len() {
            CompileState {
                code: st.code.update(jumps[k], InstrModel::Jump(st.code.len() as nat)),
                ..st
            }
        } else {
            st
        };
        patch_jumps(st2, jumps, k + 1)
    }
}

/// The code for a traversal: its first pattern, then the rest run from
/// where the first ended.
pub open spec fn compile_traverse(t: TraversePattern, st: CompileState) -> CompileState
    decreases t, 0int,
{
    match t.rest {
        Some(r) => emit(
            compile_traverse(*r, emit(compile(*t.first, st), InstrModel::ExtendTraversal)),
            InstrModel::CombineTraversal,
        ),
        None => compile(*t.first, st),
    }
}

/// The program for a pattern: its code followed by `Accept`.
pub open spec fn compile_program(p: Pattern) -> ProgModel {
    let st = compile(p, empty_state());
    ProgModel { code: st.code.push(InstrModel::Accept), lits: st.lits, names: st.names }
}

// ---------------------------------------------------------------------------
// The machine
// ---------------------------------------------------------------------------

/// The thread that starts matching at `env`.
pub open spec fn initial_thread(prog: ProgModel, env: EnvelopeModel) -> ThreadModel {
    ThreadModel {
        pc: 0,
        env,
        path: seq![env],
        saved: Seq::empty(),
        caps: Seq::new(prog.names.len(), |i: int| Seq::<PathModel>::empty()),
        cstack: Seq::new(prog.names.len(), |i: int| Seq::<int>::empty()),
        seen: Seq::empty(),
    }
}

/// Elements reachable from `env` along `axis`.
pub open spec fn axis_children(axis: Axis, env: EnvelopeModel) -> Seq<EnvelopeModel> {
    match (axis, env) {
        (Axis::Subject, EnvelopeModel::Node { subject, .. }) => seq![*subject],
        (Axis::Assertion, EnvelopeModel::Node { assertions, .. }) => assertions,
        (Axis::Predicate, EnvelopeModel::Assertion { predicate, .. }) => seq![*predicate],
        (Axis::Object, EnvelopeModel::Assertion { object, .. }) => seq![*object],
        (Axis::Wrapped, EnvelopeModel::Node { subject, .. }) => match *subject {
            EnvelopeModel::Wrapped { envelope, .. } => seq![*envelope],
            _ => Seq::empty(),
        },
        (Axis::Wrapped, EnvelopeModel::Wrapped { envelope, .. }) => seq![*envelope],
        _ => Seq::empty(),
    }
}

/// The capture lists of a thread with every list emptied.
pub open spec fn cleared(caps: Seq<Seq<PathModel>>) -> Seq<Seq<PathModel>> {
    Seq::new(caps.len(), |j: int| Seq::<PathModel>::empty())
}

/// The captures an atomic match hands to its `i`-th path (of `n`): a name
/// with one captured path per matched path gives path `i` its own; any other
/// name gives all its paths to the first path. Each is added to the capture
/// group of that name.
pub open spec fn add_atomic_caps(
    names: Seq<Seq<char>>,
    caps: Seq<Seq<PathModel>>,
    acaps: CapsModel,
    n: int,
    i: int,
    k: int,
) -> Seq<Seq<PathModel>>
    decreases acaps.len() - k,
{
    if k < 0 || k >= acaps.len() {
        caps
    } else {
        let cps = acaps[k].1;
        let dist = if cps.len() == n {
            seq![cps[i]]
        } else if i == 0 {
            cps
        } else {
            Seq::empty()
        };
        let pos = name_position(names, acaps[k].0, 0);
        let caps2 = if 0 <= pos < caps.len() {
            caps.update(pos, caps[pos] + dist)
        } else {
            caps
        };
        add_atomic_caps(names, caps2, acaps, n, i, k + 1)
    }
}

/// The last element of a path, or `dflt` when it is empty.
pub open spec fn last_or(p: PathModel, dflt: EnvelopeModel) -> EnvelopeModel {
    if p.len() > 0 {
        p.last()
    } else {
        dflt
    }
}

/// The thread continuing after an atomic match along its first path.
pub open spec fn predicate_first(
    names: Seq<Seq<char>>,
    th: ThreadModel,
    paths: Seq<PathModel>,
    acaps: CapsModel,
) -> ThreadModel {
    let th1 = ThreadModel { pc: th.pc + 1, ..th };
    let p0 = paths[0];
    let th2 = if p0.len() == 1 && p0[0] == th.env {
        th1
    } else {
        ThreadModel { path: p0, env: last_or(p0, th1.env), ..th1 }
    };
    ThreadModel {
        caps: add_atomic_caps(names, th2.caps, acaps, paths.len() as int, 0, 0),
        ..th2
    }
}

/// The thread forked for the `i`-th path of an atomic match.
pub open spec fn predicate_fork(
    names: Seq<Seq<char>>,
    th0: ThreadModel,
    paths: Seq<PathModel>,
    acaps: CapsModel,
    i: int,
) -> ThreadModel {
    ThreadModel {
        path: paths[i],
        env: last_or(paths[i], th0.env),
        caps: add_atomic_caps(names, cleared(th0.caps), acaps, paths.len() as int, i, 0),
        ..th0
    }
}

/// The path a search reports for a path `fp` found at the thread's element.
pub open spec fn search_result_path(th: ThreadModel, fp: PathModel) -> PathModel {
    if fp.len() > 0 {
        if fp[0] == th.env {
            th.path + fp.skip(1)
        } else {
            th.path + fp
        }
    } else {
        th.path
    }
}

/// The thread's captures with the search's inner captures added, for the
/// names in `cmap[k..]`.
pub open spec fn search_result_caps(
    caps: Seq<Seq<PathModel>>,
    icaps: CapsModel,
    cmap: Seq<(Seq<char>, nat)>,
    k: int,
) -> Seq<Seq<PathModel>>
    decreases cmap.len() - k,
{
    if k < 0 || k >= cmap.len() {
        caps
    } else {
        let idx = cmap[k].1 as int;
        let caps2 = match caps_get(icaps, cmap[k].0) {
            Some(ps) => if idx < caps.len() {
                caps.update(idx, caps[idx] + ps)
            } else {
                caps
            },
            None => caps,
        };
        search_result_caps(caps2, icaps, cmap, k + 1)
    }
}

/// The digests along a path.
pub open spec fn path_digests(p: PathModel) -> Seq<Seq<u8>> {
    Seq::new(p.len(), |i: int| p[i].digest())
}

/// What a search emits for the found paths `found[k..]`, skipping paths whose
/// digests were already seen; returns the outputs and the updated seen list.
pub open spec fn search_emit(
    th: ThreadModel,
    found: Seq<PathModel>,
    icaps: CapsModel,
    cmap: Seq<(Seq<char>, nat)>,
    k: int,
    seen: Seq<Seq<Seq<u8>>>,
) -> (Seq<OutModel>, Seq<Seq<Seq<u8>>>)
    decreases found.len() - k,
{
    if k < 0 || k >= found.len() {
        (Seq::empty(), seen)
    } else {
        let rp = search_result_path(th, found[k]);
        let d = path_digests(rp);
        if seen.contains(d) {
            search_emit(th, found, icaps, cmap, k + 1, seen)
        } else {
            let rest = search_emit(th, found, icaps, cmap, k + 1, seen.push(d));
            (
                seq![(rp, search_result_caps(th.caps, icaps, cmap, 0))] + rest.0,
                rest.1,
            )
        }
    }
}

/// The path captured between a capture start at `start` and the end of the
/// thread's path (less one element when the next instruction extends a
/// traversal).
pub open spec fn capture_end_thread(code: Seq<InstrModel>, th: ThreadModel, id: int) -> ThreadModel {
    if 0 <= id < th.cstack.len() && th.cstack[id].len() > 0 {
        let start = th.cstack[id].last();
        let cstack = th.cstack.update(id, th.cstack[id].drop_last());
        let end0 = th.path.len() as int;
        let end = if th.pc + 1 < code.len() && code[th.pc + 1] is ExtendTraversal {
            if end0 > 0 {
                end0 - 1
            } else {
                0
            }
        } else {
            end0
        };
        let caps = if id < th.caps.len() && 0 <= start <= end {
            th.caps.update(id, th.caps[id].push(th.path.subrange(start, end)))
        } else {
            th.caps
        };
        ThreadModel { pc: th.pc + 1, cstack, caps, ..th }
    } else {
        ThreadModel { pc: th.pc + 1, ..th }
    }
}

/// A thread forked by a machine step may run before its parent's remaining
/// work only if it is further along in the code, or at the same instruction
/// on a smaller element.
pub open spec fn fork_ok(code_len: int, origin: ThreadModel, f: ThreadModel) -> bool {
    (origin.pc < f.pc <= code_len) || (f.pc == origin.pc && decreases_to!(origin.env => f.env))
}

/// The paths and captures of a pattern on `env`: the paths its program emits,
/// in order, and the captures of every emitted path merged by name.
pub open spec fn pattern_results(p: Pattern, env: EnvelopeModel) -> (Seq<PathModel>, CapsModel)
    decreases pattern_size(p), 1int, 0int, env, 0int, 0int,
{
    let prog = compile_program(p);
    let r = run_all(prog, pattern_size(p), initial_thread(prog, env));
    collect_outs(prog.names, r.0)
}

/// Whether `p` matches `env`.
pub open spec fn pattern_matches(p: Pattern, env: EnvelopeModel) -> bool {
    pattern_results(p, env).0.len() > 0
}

/// The paths of a structure pattern on `env`, found directly.
pub open spec fn structure_results(sp: StructurePattern, env: EnvelopeModel) -> Seq<PathModel>
    decreases pattern_size(Pattern::Structure(sp)), 0int, 0int, env, 1int, 0int,
{
    match sp {
        StructurePattern::Assertions(ap) => assertion_scan(sp, env, 0),
        StructurePattern::Digest(dp) => {
            let d = env.digest();
            let hit = match dp {
                DigestPattern::Digest(x) => d == x@,
                DigestPattern::Prefix(x) => starts_with_ignore_case(d, x@),
                DigestPattern::BinaryRegex(r) => bytes_regex_matches(r@, d),
            };
            if hit {
                seq![seq![env]]
            } else {
                Seq::empty()
            }
        },
        StructurePattern::Leaf(_) => if env.is_leaf() || env.is_known_value() {
            seq![seq![env]]
        } else {
            Seq::empty()
        },
        StructurePattern::Node(np) => if !env.is_node() {
            Seq::empty()
        } else {
            let hit = match np {
                NodePattern::Any => true,
                NodePattern::AssertionsInterval(iv) => interval_contains(
                    iv@,
                    env.assertions().len() as int,
                ),
            };
            if hit {
                seq![seq![env]]
            } else {
                Seq::empty()
            }
        },
        StructurePattern::Object(op) => match env.as_object() {
            Some(o) => match op {
                ObjectPattern::Any => seq![seq![o]],
                ObjectPattern::Pattern(q) => if pattern_results(*q, o).0.len() > 0 {
                    seq![seq![o]]
                } else {
                    Seq::empty()
                },
            },
            None => Seq::empty(),
        },
        StructurePattern::Obscured(op) => {
            let hit = match op {
                ObscuredPattern::Any => env.is_obscured(),
                ObscuredPattern::Elided => env.is_elided(),
                ObscuredPattern::Encrypted => env.is_encrypted(),
                ObscuredPattern::Compressed => env.is_compressed(),
            };
            if hit {
                seq![seq![env]]
            } else {
                Seq::empty()
            }
        },
        StructurePattern::Predicate(pp) => match env.as_predicate() {
            Some(o) => match pp {
                PredicatePattern::Any => seq![seq![o]],
                PredicatePattern::Pattern(q) => if pattern_results(*q, o).0.len() > 0 {
                    seq![seq![o]]
                } else {
                    Seq::empty()
                },
            },
            None => Seq::empty(),
        },
        StructurePattern::Subject(sub) => {
            let s = env.subject();
            match sub {
                SubjectPattern::Any => seq![seq![s]],
                SubjectPattern::Pattern(q) => if pattern_results(*q, s).0.len() > 0 {
                    seq![seq![s]]
                } else {
                    Seq::empty()
                },
            }
        },
        StructurePattern::Wrapped(wp) => {
            let s = env.subject();
            if s.is_wrapped() {
                match wp {
                    WrappedPattern::Any => seq![seq![env]],
                    WrappedPattern::Unwrap(q) => match s.try_unwrap() {
                        Some(u) => {
                            let ps = pattern_results(*q, u).0;
                            Seq::new(ps.len(), |i: int| seq![env] + ps[i])
                        },
                        None => Seq::empty(),
                    },
                }
            } else {
                Seq::empty()
            }
        },
    }
}

/// The assertions of `env` from index `i` on that an assertions pattern
/// accepts, each as a one-element path.
pub open spec fn assertion_scan(sp: StructurePattern, env: EnvelopeModel, i: int) -> Seq<
    PathModel,
>
    decreases pattern_size(Pattern::Structure(sp)), 0int, 0int, env, 0int, env.assertions().len() - i,
{
    let asserts = env.assertions();
    if i < 0 || i >= asserts.len() {
        Seq::empty()
    } else {
        let a = asserts[i];
        let rest = assertion_scan(sp, env, i + 1);
        let hit = match sp {
            StructurePattern::Assertions(AssertionsPattern::Any) => true,
            StructurePattern::Assertions(AssertionsPattern::WithPredicate(q)) => match a.as_predicate() {
                Some(x) => pattern_results(*q, x).0.len() > 0,
                None => false,
            },
            StructurePattern::Assertions(AssertionsPattern::WithObject(q)) => match a.as_object() {
                Some(x) => pattern_results(*q, x).0.len() > 0,
                None => false,
            },
            _ => false,
        };
        if hit {
            seq![seq![a]] + rest
        } else {
            rest
        }
    }
}

/// The paths and captures of a pattern that the machine tests in one step.
pub open spec fn atomic_results(lit: Pattern, env: EnvelopeModel) -> (Seq<PathModel>, CapsModel)
    decreases pattern_size(lit), 0int, 0int, env, 2int, 0int,
{
    match lit {
        Pattern::Leaf(l) => leaf_results(l, env),
        Pattern::Structure(s) => (structure_results(s, env), Seq::empty()),
        Pattern::Meta(MetaPattern::Any(_)) => (seq![seq![env]], Seq::empty()),
        _ => (Seq::empty(), Seq::empty()),
    }
}

/// Runs `th` and then, last pushed first, every thread it forked.
pub open spec fn run_all(prog: ProgModel, bound: nat, th: ThreadModel) -> (Seq<OutModel>, bool)
    decreases bound, 0int, prog.code.len() - th.pc, th.env, 3int, 0int,
{
    let st = thread_steps(prog, bound, th);
    let r = run_forks(prog, bound, th, st.forks, st.forks.len() as int);
    (st.outs + r.0, st.produced || r.1)
}

/// Runs `forks[i - 1]`, then `forks[i - 2]`, down to `forks[0]`.
pub open spec fn run_forks(
    prog: ProgModel,
    bound: nat,
    origin: ThreadModel,
    forks: Seq<ThreadModel>,
    i: int,
) -> (Seq<OutModel>, bool)
    decreases bound, 0int, prog.code.len() - origin.pc, origin.env, 2int, i,
{
    if i <= 0 || i > forks.len() {
        (Seq::empty(), false)
    } else {
        let f = forks[i - 1];
        let a = if fork_ok(prog.code.len() as int, origin, f) {
            run_all(prog, bound, f)
        } else {
            (Seq::empty(), false)
        };
        let b = run_forks(prog, bound, origin, forks, i - 1);
        (a.0 + b.0, a.1 || b.1)
    }
}

/// Runs, one repetition outcome after the other from `results[i]` on, the
/// rest of the program, stopping after the first run that produces a path.
pub open spec fn try_repeats(
    prog: ProgModel,
    bound: nat,
    th: ThreadModel,
    results: Seq<(EnvelopeModel, PathModel)>,
    i: int,
) -> (Seq<OutModel>, bool)
    decreases bound, 0int, prog.code.len() - th.pc, th.env, 1int, results.len() - i,
{
    if i < 0 || i >= results.len() || th.pc + 1 > prog.code.len() {
        (Seq::empty(), false)
    } else {
        let f = ThreadModel { pc: th.pc + 1, env: results[i].0, path: results[i].1, ..th };
        let a = run_all(prog, bound, f);
        if a.1 {
            (a.0, true)
        } else {
            let b = try_repeats(prog, bound, th, results, i + 1);
            (a.0 + b.0, b.1)
        }
    }
}

pub open spec fn halt() -> Step {
    Step { outs: Seq::empty(), forks: Seq::empty(), produced: false }
}

/// Runs one thread until it halts.
pub open spec fn thread_steps(prog: ProgModel, bound: nat, th: ThreadModel) -> Step
    decreases bound, 0int, prog.code.len() - th.pc, th.env, 2int, 0int,
{
    let code = prog.code;
    let lits = prog.lits;
    if th.pc < 0 || th.pc >= code.len() {
        halt()
    } else {
        let next = ThreadModel { pc: th.pc + 1, ..th };
        match code[th.pc] {
            InstrModel::MatchPredicate(idx) => if idx >= lits.len() || pattern_size(lits[idx as int])
                > bound {
                halt()
            } else {
                let r = atomic_results(lits[idx as int], th.env);
                let paths = r.0;
                if paths.len() == 0 {
                    halt()
                } else {
                    let th0 = predicate_first(prog.names, th, paths, r.1);
                    let forks = Seq::new(
                        (paths.len() - 1) as nat,
                        |k: int| predicate_fork(prog.names, th0, paths, r.1, paths.len() - 1 - k),
                    );
                    let rest = thread_steps(prog, bound, th0);
                    Step { outs: rest.outs, forks: forks + rest.forks, produced: rest.produced }
                }
            },
            InstrModel::MatchStructure(idx) => if idx >= lits.len() || pattern_size(lits[idx as int])
                > bound {
                halt()
            } else {
                match lits[idx as int] {
                    Pattern::Structure(sp) => {
                        let sps = structure_results(sp, th.env);
                        if sps.len() == 0 {
                            halt()
                        } else {
                            let th0 = ThreadModel {
                                path: sps[0],
                                env: last_or(sps[0], th.env),
                                ..next
                            };
                            let forks = Seq::new(
                                (sps.len() - 1) as nat,
                                |k: int|
                                    ThreadModel {
                                        path: sps[k + 1],
                                        env: last_or(sps[k + 1], th0.env),
                                        ..th0
                                    },
                            );
                            let rest = thread_steps(prog, bound, th0);
                            Step {
                                outs: rest.outs,
                                forks: forks + rest.forks,
                                produced: rest.produced,
                            }
                        }
                    },
                    _ => halt(),
                }
            },
            InstrModel::Split { a, b } => if th.pc < a < code.len() && th.pc < b < code.len() {
                let fork = ThreadModel { pc: a as int, ..th };
                let rest = thread_steps(prog, bound, ThreadModel { pc: b as int, ..th });
                Step { outs: rest.outs, forks: seq![fork] + rest.forks, produced: rest.produced }
            } else {
                halt()
            },
            InstrModel::Jump(t) => if th.pc < t < code.len() {
                thread_steps(prog, bound, ThreadModel { pc: t as int, ..th })
            } else {
                halt()
            },
            InstrModel::PushAxis(axis) => {
                let ch = axis_children(axis, th.env);
                Step {
                    outs: Seq::empty(),
                    forks: Seq::new(
                        ch.len(),
                        |k: int| ThreadModel { env: ch[k], path: th.path.push(ch[k]), ..next },
                    ),
                    produced: false,
                }
            },
            InstrModel::Pop => thread_steps(
                prog,
                bound,
                ThreadModel {
                    path: if th.path.len() > 0 {
                        th.path.drop_last()
                    } else {
                        th.path
                    },
                    ..next
                },
            ),
            InstrModel::Save => {
                let rest = thread_steps(prog, bound, next);
                Step {
                    outs: seq![(th.path, th.caps)] + rest.outs,
                    forks: rest.forks,
                    produced: true,
                }
            },
            InstrModel::Accept => Step {
                outs: seq![(th.path, th.caps)],
                forks: Seq::empty(),
                produced: true,
            },
            InstrModel::Search { pat_idx, capture_map } => if pat_idx >= lits.len()
                || pattern_size(lits[pat_idx as int]) >= bound {
                halt()
            } else {
                let r = pattern_results(lits[pat_idx as int], th.env);
                let e = search_emit(th, r.0, r.1, capture_map, 0, th.seen);
                let ch = th.env.children();
                let n = ch.len() as int;
                Step {
                    outs: e.0,
                    forks: Seq::new(
                        ch.len(),
                        |k: int|
                            ThreadModel {
                                env: ch[n - 1 - k],
                                path: th.path.push(ch[n - 1 - k]),
                                seen: e.1,
                                ..th
                            },
                    ),
                    produced: r.0.len() > 0,
                }
            },
            InstrModel::ExtendTraversal => if th.path.len() > 0 {
                thread_steps(
                    prog,
                    bound,
                    ThreadModel {
                        saved: th.saved.push(th.path),
                        env: th.path.last(),
                        path: seq![th.path.last()],
                        ..next
                    },
                )
            } else {
                thread_steps(prog, bound, next)
            },
            InstrModel::CombineTraversal => if th.saved.len() > 0 {
                let sp = th.saved.last();
                let combined = if sp.len() > 0 && th.path.len() > 0 && sp.last() == th.path[0] {
                    sp + th.path.skip(1)
                } else {
                    sp + th.path
                };
                thread_steps(
                    prog,
                    bound,
                    ThreadModel { saved: th.saved.drop_last(), path: combined, ..next },
                )
            } else {
                thread_steps(prog, bound, next)
            },
            InstrModel::NavigateSubject => if th.env.is_node() {
                thread_steps(
                    prog,
                    bound,
                    ThreadModel {
                        env: th.env.subject(),
                        path: th.path.push(th.env.subject()),
                        ..next
                    },
                )
            } else {
                thread_steps(prog, bound, next)
            },
            InstrModel::NotMatch { pat_idx } => if pat_idx >= lits.len() || pattern_size(
                lits[pat_idx as int],
            ) >= bound {
                halt()
            } else if pattern_results(lits[pat_idx as int], th.env).0.len() > 0 {
                halt()
            } else {
                thread_steps(prog, bound, next)
            },
            InstrModel::Repeat { pat_idx, quantifier } => if pat_idx >= lits.len() || pattern_size(
                lits[pat_idx as int],
            ) >= bound {
                halt()
            } else {
                let results = repeat_results(lits[pat_idx as int], th.env, th.path, quantifier);
                if results.len() == 0 {
                    halt()
                } else {
                    let r = try_repeats(prog, bound, th, results, 0);
                    Step { outs: r.0, forks: Seq::empty(), produced: r.1 }
                }
            },
            InstrModel::CaptureStart(id) => {
                let start = if th.path.len() > 0 {
                    th.path.len() - 1
                } else {
                    0
                };
                thread_steps(
                    prog,
                    bound,
                    if (id as int) < th.cstack.len() {
                        ThreadModel {
                            cstack: th.cstack.update(id as int, th.cstack[id as int].push(start)),
                            ..next
                        }
                    } else {
                        next
                    },
                )
            },
            InstrModel::CaptureEnd(id) => thread_steps(
                prog,
                bound,
                capture_end_thread(code, th, id as int),
            ),
        }
    }
}

// ---------------------------------------------------------------------------
// Repetition
// ---------------------------------------------------------------------------

/// For each state `(e, path)` from `last[i..]`, one more match of `pat` at
/// `e`: the end of each path found, with the path extended by it (without
/// its first element when that is `e`). Paths ending where they started are
/// skipped.
pub open spec fn repeat_step(
    pat: Pattern,
    env: EnvelopeModel,
    last: Seq<(EnvelopeModel, PathModel)>,
    i: int,
) -> Seq<(EnvelopeModel, PathModel)>
    decreases pattern_size(pat), 2int, 0int, env, 0int, last.len() - i,
{
    if i < 0 || i >= last.len() {
        Seq::empty()
    } else {
        let e = last[i].0;
        let subs = pattern_results(pat, e).0;
        extend_by_subpaths(e, last[i].1, subs, 0) + repeat_step(pat, env, last, i + 1)
    }
}

/// The extensions of `pth` by each of `subs[j..]`.
pub open spec fn extend_by_subpaths(
    e: EnvelopeModel,
    pth: PathModel,
    subs: Seq<PathModel>,
    j: int,
) -> Seq<(EnvelopeModel, PathModel)>
    decreases subs.len() - j,
{
    if j < 0 || j >= subs.len() {
        Seq::empty()
    } else {
        let sub = subs[j];
        let rest = extend_by_subpaths(e, pth, subs, j + 1);
        if sub.len() == 0 || sub.last().digest() == e.digest() {
            rest
        } else {
            let combined = if sub[0] == e {
                pth + sub.skip(1)
            } else {
                pth + sub
            };
            seq![(sub.last(), combined)] + rest
        }
    }
}

/// The states reachable after each number of repetitions, starting from
/// `states` after `k` rounds, until `limit` rounds or a round finds nothing.
pub open spec fn repeat_states(
    pat: Pattern,
    env: EnvelopeModel,
    states: Seq<Seq<(EnvelopeModel, PathModel)>>,
    k: int,
    limit: int,
) -> Seq<Seq<(EnvelopeModel, PathModel)>>
    decreases pattern_size(pat), 2int, limit - k, env, 1int, 0int,
{
    if k >= limit || states.len() == 0 {
        states
    } else {
        let next = repeat_step(pat, env, states.last(), 0);
        if next.len() == 0 {
            states
        } else {
            repeat_states(pat, env, states.push(next), k + 1, limit)
        }
    }
}

/// The states for the counts `c` from `lo` up to `hi`, in increasing order.
pub open spec fn states_up(states: Seq<Seq<(EnvelopeModel, PathModel)>>, lo: int, hi: int) -> Seq<
    (EnvelopeModel, PathModel),
>
    decreases hi - lo + 1,
{
    if lo > hi {
        Seq::empty()
    } else {
        let here = if 0 <= lo < states.len() {
            states[lo]
        } else {
            Seq::empty()
        };
        here + states_up(states, lo + 1, hi)
    }
}

/// The states for the counts `c` from `hi` down to `lo`.
pub open spec fn states_down(states: Seq<Seq<(EnvelopeModel, PathModel)>>, lo: int, hi: int) -> Seq<
    (EnvelopeModel, PathModel),
>
    decreases hi - lo + 1,
{
    if lo > hi {
        Seq::empty()
    } else {
        let here = if 0 <= hi < states.len() {
            states[hi]
        } else {
            Seq::empty()
        };
        here + states_down(states, lo, hi - 1)
    }
}

/// Where `pat` repeated according to `q` can end when started at `env` with
/// the path `path`, in the order the quantifier's reluctance tries them.
pub open spec fn repeat_results(
    pat: Pattern,
    env: EnvelopeModel,
    path: PathModel,
    q: Quantifier,
) -> Seq<(EnvelopeModel, PathModel)>
    decreases pattern_size(pat), 3int, 0int, env, 0int, 0int,
{
    let limit: int = match q@.0.1 {
        Some(m) => m as int,
        None => usize::MAX as int,
    };
    let min = q@.0.0 as int;
    let states = repeat_states(pat, env, seq![seq![(env, path)]], 0, limit);
    let has_zero = min == 0;
    let max_possible = states.len() - 1;
    let max_allowed = if limit < max_possible {
        limit
    } else {
        max_possible
    };
    let min_count = if min == 0 {
        1
    } else {
        min
    };
    if max_allowed < min && min > 0 {
        Seq::empty()
    } else if max_allowed < min_count {
        if has_zero {
            seq![(env, path)]
        } else {
            Seq::empty()
        }
    } else {
        let zero: Seq<(EnvelopeModel, PathModel)> = if has_zero {
            seq![(env, path)]
        } else {
            Seq::empty()
        };
        match q@.1 {
            Reluctance::Greedy => states_down(states, min_count, max_allowed) + zero,
            Reluctance::Lazy => zero + states_up(states, min_count, max_allowed),
            Reluctance::Possessive => states[max_allowed],
        }
    }
}

// ---------------------------------------------------------------------------
// Results
// ---------------------------------------------------------------------------

/// The named captures of one emitted path: for each capture group with
/// paths, in order, its name bound to them (a later group of the same name
/// replaces an earlier one).
pub open spec fn out_captures(names: Seq<Seq<char>>, caps: Seq<Seq<PathModel>>, i: int) -> CapsModel
    decreases i,
{
    if i <= 0 || i > caps.len() {
        Seq::empty()
    } else {
        let m = out_captures(names, caps, i - 1);
        if caps[i - 1].len() > 0 && i - 1 < names.len() {
            caps_insert(m, names[i - 1], caps[i - 1])
        } else {
            m
        }
    }
}

/// The paths of the emitted outputs `outs[..i]` and their captures merged.
pub open spec fn collect_outs_upto(names: Seq<Seq<char>>, outs: Seq<OutModel>, i: int) -> (
    Seq<PathModel>,
    CapsModel,
)
    decreases i,
{
    if i <= 0 || i > outs.len() {
        (Seq::empty(), Seq::empty())
    } else {
        let r = collect_outs_upto(names, outs, i - 1);
        (
            r.0.push(outs[i - 1].0),
            caps_merge(r.1, out_captures(names, outs[i - 1].1, outs[i - 1].1.len() as int)),
        )
    }
}

pub open spec fn collect_outs(names: Seq<Seq<char>>, outs: Seq<OutModel>) -> (
    Seq<PathModel>,
    CapsModel,
) {
    collect_outs_upto(names, outs, outs.len() as int)
}

} // verus!
