//! Matching leaf patterns: the value of a leaf (or known value) is handed to
//! dcbor-pattern, and what it finds is turned into envelope paths.
use vstd::prelude::*;

use crate::dcbor::{digest_of_leaf, text_regex_is_match};
use crate::known_value::encode_known_value;
use crate::expression::{expression_match_capture, expression_match_paths, known_ctx};
use crate::envelope::{path_model, paths_model, Envelope};
use crate::paths::{captures_model, no_captures, no_paths, single_path, Captures, Path};
use crate::pattern::{
    ArrayPattern, BoolPattern, ByteStringPattern, CBORPattern, DatePattern, KnownValuePattern,
    LeafPattern, MapPattern, NullPattern, NumberPattern, TaggedPattern, TextPattern,
};
use crate::semantics::{
    array_expr, converted_captures, copies, dcbor_capture_names, envelope_path_for, leaf_env,
    leaf_envs, leaf_results, leaf_value_paths, name_end, scan_capture_names, skip_if_first, subject_known,
    tagged_captures, text_expr, cbor_value_results, map_expr,
};
use crate::text::{escape_slashes, 
    bytes_equal, bytes_to_vec, escape_quoted, push_decimal, push_str, string_of,
};

verus! {

/// Whether `names` holds a string equal to `name`.
pub fn contains_name(names: &Vec<String>, name: &String) -> (r: bool)
    ensures
        r == names@.map_values(|s: String| s@).contains(name@),
{
    let ghost view = names@.map_values(|s: String| s@);
    let mut i: usize = 0;
    while i < names.len()
        invariant
            i <= names@.len(),
            view == names@.map_values(|s: String| s@),
            forall|j: int| 0 <= j < i ==> view[j] != name@,
        decreases names@.len() - i,
    {
        assert(view[i as int] == names@[i as int]@);
        if names[i] == *name {
            return true;
        }
        i = i + 1;
    }
    false
}

fn name_end_from(s: &str, n: usize, j: usize) -> (r: usize)
    requires
        n == s@.len(),
        j <= n,
    ensures
        r as int == name_end(s@, j as int),
        j <= r <= n,
    decreases n - j,
{
    if j >= n {
        n
    } else {
        let c = s.get_char(j);
        if !(('a' <= c && c <= 'z') || ('A' <= c && c <= 'Z') || ('0' <= c && c <= '9') || c
            == '_') {
            j
        } else {
            name_end_from(s, n, j + 1)
        }
    }
}

/// The capture names written `@name` in a dcbor-pattern expression, each
/// once, in order of first occurrence.
pub fn capture_names_in_expr(expr: &str) -> (r: Vec<String>)
    ensures
        r@.map_values(|s: String| s@) == dcbor_capture_names(expr@),
{
    let n = expr.unicode_len();
    let mut names: Vec<String> = Vec::new();
    let mut i: usize = 0;
    assert(names@.map_values(|s: String| s@) =~= Seq::<Seq<char>>::empty());
    while i < n
        invariant
            n == expr@.len(),
            i <= n,
            scan_capture_names(expr@, i as int, names@.map_values(|s: String| s@))
                == dcbor_capture_names(expr@),
        decreases n - i,
    {
        let ghost before = names@.map_values(|s: String| s@);
        if expr.get_char(i) == '@' {
            let j = name_end_from(expr, n, i + 1);
            let name = string_of(expr.substring_char(i + 1, j));
            if name.as_str().unicode_len() > 0 && !contains_name(&names, &name) {
                let ghost nv = name@;
                names.push(name);
                assert(names@.map_values(|s: String| s@) =~= before.push(nv));
            }
            i = j;
        } else {
            i = i + 1;
        }
    }
    names
}

/// The dcbor-pattern expression of a text pattern.
pub fn text_expression(tp: &TextPattern) -> (r: String)
    ensures
        r@ == text_expr(*tp),
{
    match tp {
        TextPattern::Any => string_of("text"),
        TextPattern::Value(v) => {
            let mut out = string_of("\"");
            let esc = escape_quoted(v.as_str());
            push_str(&mut out, esc.as_str());
            push_str(&mut out, "\"");
            proof {
                reveal_strlit("\"");
            }
            assert(out@ =~= text_expr(*tp));
            out
        },
        TextPattern::Regex(r) => {
            let mut out = string_of("/");
            let esc = escape_slashes(r.as_str());
            push_str(&mut out, esc.as_str());
            push_str(&mut out, "/");
            proof {
                reveal_strlit("/");
            }
            assert(out@ =~= text_expr(*tp));
            out
        },
    }
}

/// The dcbor-pattern expression of an array pattern.
pub fn array_expression(ap: &ArrayPattern) -> (r: String)
    ensures
        r@ == array_expr(*ap),
{
    match ap {
        ArrayPattern::Any => string_of("array"),
        ArrayPattern::Count(n) => {
            let mut out = string_of("[{");
            push_decimal(&mut out, *n);
            push_str(&mut out, "}]");
            out
        },
        ArrayPattern::Range(iv) => {
            let mut out = string_of("[{");
            push_decimal(&mut out, iv.min());
            match iv.max() {
                Some(m) => {
                    push_str(&mut out, ",");
                    push_decimal(&mut out, m);
                    push_str(&mut out, "}]");
                },
                None => {
                    push_str(&mut out, ",}]");
                },
            }
            out
        },
        ArrayPattern::Content(e) => string_of(e.as_str()),
    }
}

/// The dcbor-pattern expression of a map pattern.
pub fn map_expression(mp: &MapPattern) -> (r: String)
    ensures
        r@ == map_expr(*mp),
{
    proof {
        reveal_strlit("map");
        reveal_strlit("{");
        reveal_strlit("}");
    }
    match mp {
        MapPattern::Any => string_of("map"),
        MapPattern::Interval(iv) => {
            let mut out = string_of("{");
            let n = iv.range_notation();
            push_str(&mut out, n.as_str());
            push_str(&mut out, "}");
            out
        },
        MapPattern::Content(e) => e.clone(),
    }
}

/// `n` copies of the path `[env]`.
pub fn copies_of(env: &Envelope, n: usize) -> (r: Vec<Path>)
    ensures
        paths_model(r@) == copies(env@, n as nat),
{
    let mut out: Vec<Path> = Vec::new();
    let mut i: usize = 0;
    while i < n
        invariant
            i <= n,
            out@.len() == i,
            forall|j: int| 0 <= j < i ==> path_model(out@[j]@) == seq![env@],
        decreases n - i,
    {
        let p = vec![env.duplicate()];
        assert(path_model(p@) =~= seq![env@]);
        out.push(p);
        i = i + 1;
    }
    assert(paths_model(out@) =~= copies(env@, n as nat));
    out
}

/// The path `[env]` if `expr` matches the leaf value of `env`'s subject.
pub fn leaf_value_match(expr: &str, env: &Envelope) -> (r: Vec<Path>)
    ensures
        paths_model(r@) == leaf_value_paths(expr@, env@),
{
    match env.subject().as_leaf() {
        Some(c) => {
            let found = expression_match_paths(expr, c.as_slice(), None, "");
            if found.len() > 0 {
                single_path(env)
            } else {
                no_paths()
            }
        },
        None => no_paths(),
    }
}

/// The leaf envelope holding the dCBOR value encoded by `c`.
pub fn make_leaf(c: &Vec<u8>) -> (r: Envelope)
    ensures
        r@ == leaf_env(c@),
{
    Envelope::Leaf { cbor: bytes_to_vec(c.as_slice()), digest: digest_of_leaf(c.as_slice()) }
}

/// Appends leaves for `cs[from..]` to `out`.
fn push_leaves(out: &mut Path, cs: &Vec<Vec<u8>>, from: usize)
    requires
        from <= cs@.len(),
    ensures
        path_model(final(out)@) == path_model(old(out)@) + leaf_envs(cs.deep_view().skip(
            from as int,
        )),
{
    let ghost start = path_model(out@);
    let ghost target = leaf_envs(cs.deep_view().skip(from as int));
    let mut i: usize = from;
    while i < cs.len()
        invariant
            from <= i <= cs@.len(),
            target == leaf_envs(cs.deep_view().skip(from as int)),
            path_model(out@) == start + target.subrange(0, i - from),
        decreases cs@.len() - i,
    {
        let leaf = make_leaf(&cs[i]);
        let ghost prev = out@;
        out.push(leaf);
        assert(out@ == prev.push(leaf));
        proof {
            crate::paths::lemma_byte_strings_view(*cs, i as int);
        }
        assert(target[i - from] == leaf_env(cs.deep_view()[i as int]));
        assert(path_model(out@) =~= path_model(prev).push(leaf@));
        assert(target.subrange(0, i + 1 - from) =~= target.subrange(0, i - from).push(
            target[i - from],
        ));
        assert(path_model(out@) =~= start + target.subrange(0, i + 1 - from));
        i = i + 1;
    }
    assert(target.subrange(0, cs@.len() - from) =~= target);
}

/// The envelope path for a dCBOR path found under `base`.
pub fn envelope_path_of(dp: &Vec<Vec<u8>>, base: &Envelope) -> (r: Path)
    ensures
        path_model(r@) == envelope_path_for(dp.deep_view(), base@),
{
    let mut out: Path = Vec::new();
    out.push(base.duplicate());
    assert(path_model(out@) =~= seq![base@]);
    if dp.len() > 0 {
        proof {
            crate::paths::lemma_byte_strings_view(*dp, 0);
        }
    }
    match base.subject().as_leaf() {
        Some(c) => {
            if dp.len() > 0 && bytes_equal(dp[0].as_slice(), c.as_slice()) {
                push_leaves(&mut out, dp, 1);
                assert(skip_if_first(dp.deep_view(), c@) == dp.deep_view().skip(1));
            } else {
                push_leaves(&mut out, dp, 0);
                assert(dp.deep_view().skip(0) =~= dp.deep_view());
                if dp.len() > 0 {
                    assert(dp.deep_view()[0] != c@);
                }
            }
        },
        None => {
            push_leaves(&mut out, dp, 0);
            assert(dp.deep_view().skip(0) =~= dp.deep_view());
        },
    }
    out
}

/// The captures of matching `expr` against `c`, for the names `names[i..]`,
/// as envelope paths under `base`.
fn convert_captures(
    expr: &str,
    c: &Vec<u8>,
    base: &Envelope,
    names: &Vec<String>,
    i: usize,
    known: Option<u64>,
    kname: &str,
) -> (r: Captures)
    requires
        i <= names@.len(),
        known_ctx(known, kname@) == subject_known(base@),
    ensures
        captures_model(r@) == converted_captures(
            expr@,
            c@,
            base@,
            names@.map_values(|s: String| s@),
            i as int,
        ),
    decreases names@.len() - i,
{
    let ghost nv = names@.map_values(|s: String| s@);
    if i >= names.len() {
        let r: Captures = Vec::new();
        assert(captures_model(r@) =~= converted_captures(expr@, c@, base@, nv, i as int));
        return r;
    }
    let dps = expression_match_capture(expr, c.as_slice(), names[i].as_str(), known, kname);
    let rest = convert_captures(expr, c, base, names, i + 1, known, kname);
    if dps.len() > 0 {
        let mut conv: Vec<Path> = Vec::new();
        let mut k: usize = 0;
        while k < dps.len()
            invariant
                k <= dps@.len(),
                conv@.len() == k,
                forall|j: int|
                    0 <= j < k ==> path_model(#[trigger] conv@[j]@) == envelope_path_for(
                        dps.deep_view()[j],
                        base@,
                    ),
            decreases dps@.len() - k,
        {
            conv.push(envelope_path_of(&dps[k], base));
            k = k + 1;
        }
        let mut r: Captures = vec![(names[i].clone(), conv)];
        let ghost first = captures_model(r@);
        let mut rest = rest;
        r.append(&mut rest);
        assert(paths_model(conv@) =~= Seq::new(
            dps.deep_view().len(),
            |k: int| envelope_path_for(dps.deep_view()[k], base@),
        ));
        assert(captures_model(r@) =~= converted_captures(expr@, c@, base@, nv, i as int));
        r
    } else {
        rest
    }
}

/// The captures of matching `expr` against the tagged value `c`: each
/// captured path becomes `[env]`.
fn tagged_capture_list(
    expr: &str,
    c: &Vec<u8>,
    env: &Envelope,
    names: &Vec<String>,
    i: usize,
) -> (r: Captures)
    requires
        i <= names@.len(),
    ensures
        captures_model(r@) == tagged_captures(
            expr@,
            c@,
            env@,
            names@.map_values(|s: String| s@),
            i as int,
        ),
    decreases names@.len() - i,
{
    let ghost nv = names@.map_values(|s: String| s@);
    if i >= names.len() {
        let r: Captures = Vec::new();
        assert(captures_model(r@) =~= tagged_captures(expr@, c@, env@, nv, i as int));
        return r;
    }
    let dps = expression_match_capture(expr, c.as_slice(), names[i].as_str(), None, "");
    let rest = tagged_capture_list(expr, c, env, names, i + 1);
    if dps.len() > 0 {
        let mut r: Captures = vec![(names[i].clone(), copies_of(env, dps.len()))];
        let mut rest = rest;
        r.append(&mut rest);
        assert(captures_model(r@) =~= tagged_captures(expr@, c@, env@, nv, i as int));
        r
    } else {
        rest
    }
}

/// What a CBOR pattern matches on the dCBOR value `c` of `env`'s subject.
fn cbor_value_match(cp: &CBORPattern, env: &Envelope, c: &Vec<u8>, skip_root_always: bool) -> (r: (
    Vec<Path>,
    Captures,
))
    ensures
        paths_model(r.0@) == cbor_value_results(*cp, env@, c@, skip_root_always).0,
        captures_model(r.1@) == cbor_value_results(*cp, env@, c@, skip_root_always).1,
{
    let ghost spec = cbor_value_results(*cp, env@, c@, skip_root_always);
    match cp {
        CBORPattern::Any => (single_path(env), no_captures()),
        CBORPattern::Value(v) => {
            if bytes_equal(c.as_slice(), v.as_slice()) {
                (single_path(env), no_captures())
            } else {
                (no_paths(), no_captures())
            }
        },
        CBORPattern::Pattern(e) => {
            let subject = env.subject();
            let (known, kname) = match (subject.as_known_value(), subject.known_value_name()) {
                (Some(v), Some(n)) => (Some(v), n.as_str()),
                _ => (None, ""),
            };
            assert(known_ctx(known, kname@) == subject_known(env@));
            let dps = expression_match_paths(e.as_str(), c.as_slice(), known, kname);
            if dps.len() == 0 {
                return (no_paths(), no_captures());
            }
            let ghost dv = dps.deep_view();
            let mut paths: Vec<Path> = Vec::new();
            let mut k: usize = 0;
            while k < dps.len()
                invariant
                    k <= dps@.len(),
                    dv == dps.deep_view(),
                    dv == crate::expression::expression_paths(e@, c@, subject_known(env@)),
                    paths@.len() == k,
                    forall|j: int|
                        0 <= j < k ==> path_model(#[trigger] paths@[j]@) == seq![env@] + leaf_envs(
                            if skip_root_always {
                                if dv[j].len() > 0 {
                                    dv[j].skip(1)
                                } else {
                                    dv[j]
                                }
                            } else {
                                skip_if_first(dv[j], c@)
                            },
                        ),
                decreases dps@.len() - k,
            {
                let mut p: Path = Vec::new();
                p.push(env.duplicate());
                assert(path_model(p@) =~= seq![env@]);
                let dp = &dps[k];
                proof {
                    crate::paths::lemma_byte_paths_view(dps, k as int);
                    if dp@.len() > 0 {
                        crate::paths::lemma_byte_strings_view(*dp, 0);
                    }
                }
                if skip_root_always {
                    if dp.len() > 0 {
                        push_leaves(&mut p, dp, 1);
                    } else {
                        push_leaves(&mut p, dp, 0);
                        assert(dp.deep_view().skip(0) =~= dp.deep_view());
                    }
                } else if dp.len() > 0 && bytes_equal(dp[0].as_slice(), c.as_slice()) {
                    push_leaves(&mut p, dp, 1);
                } else {
                    push_leaves(&mut p, dp, 0);
                    assert(dp.deep_view().skip(0) =~= dp.deep_view());
                }
                paths.push(p);
                k = k + 1;
            }
            let names = capture_names_in_expr(e.as_str());
            let caps = convert_captures(e.as_str(), c, env, &names, 0, known, kname);
            assert(paths_model(paths@) =~= spec.0);
            (paths, caps)
        },
    }
}

/// The paths and captures a leaf pattern finds on `env`.
pub fn leaf_paths_with_captures(lp: &LeafPattern, env: &Envelope) -> (r: (Vec<Path>, Captures))
    ensures
        paths_model(r.0@) == leaf_results(*lp, env@).0,
        captures_model(r.1@) == leaf_results(*lp, env@).1,
{
    match lp {
        LeafPattern::Any => {
            let paths = if env.is_leaf() || env.is_known_value() {
                single_path(env)
            } else {
                no_paths()
            };
            (paths, no_captures())
        },
        LeafPattern::Cbor(p) => p.paths_with_captures(env),
        LeafPattern::Number(p) => p.paths_with_captures(env),
        LeafPattern::Text(p) => p.paths_with_captures(env),
        LeafPattern::ByteString(p) => p.paths_with_captures(env),
        LeafPattern::Tag(p) => p.paths_with_captures(env),
        LeafPattern::Array(p) => p.paths_with_captures(env),
        LeafPattern::MapValue(p) => p.paths_with_captures(env),
        LeafPattern::Bool(p) => p.paths_with_captures(env),
        LeafPattern::Null(p) => p.paths_with_captures(env),
        LeafPattern::Date(p) => p.paths_with_captures(env),
        LeafPattern::KnownValue(p) => p.paths_with_captures(env),
    }
}

impl LeafPattern {
    /// The paths and captures this pattern finds on `env`.
    pub fn paths_with_captures(&self, env: &Envelope) -> (r: (Vec<Path>, Captures))
        ensures
            paths_model(r.0@) == leaf_results(*self, env@).0,
            captures_model(r.1@) == leaf_results(*self, env@).1,
    {
        leaf_paths_with_captures(self, env)
    }

    /// The paths this pattern finds on `env`.
    pub fn paths(&self, env: &Envelope) -> (r: Vec<Path>)
        ensures
            paths_model(r@) == leaf_results(*self, env@).0,
    {
        leaf_paths_with_captures(self, env).0
    }

    /// Whether this pattern finds any path on `env`.
    pub fn matches(&self, env: &Envelope) -> (r: bool)
        ensures
            r == (leaf_results(*self, env@).0.len() > 0),
    {
        self.paths(env).len() > 0
    }
}

impl CBORPattern {
    /// The paths and captures this pattern finds on `env` when its subject is
    /// the value of a leaf or known value it accepts.
    pub fn paths_with_captures(&self, env: &Envelope) -> (r: (Vec<Path>, Captures))
        ensures
            paths_model(r.0@) == leaf_results(LeafPattern::Cbor(*self), env@).0,
            captures_model(r.1@) == leaf_results(LeafPattern::Cbor(*self), env@).1,
    {
        let subject = env.subject();
        match subject.as_known_value() {
            Some(v) => {
                let kv = encode_known_value(v);
                cbor_value_match(self, env, &kv, true)
            },
            None => match subject.as_leaf() {
                Some(c) => cbor_value_match(self, env, c, false),
                None => (no_paths(), no_captures()),
            },
        }
    }

    /// The paths this pattern finds on `env`.
    pub fn paths(&self, env: &Envelope) -> (r: Vec<Path>)
        ensures
            paths_model(r@) == leaf_results(LeafPattern::Cbor(*self), env@).0,
    {
        self.paths_with_captures(env).0
    }

    /// Whether this pattern finds any path on `env`.
    pub fn matches(&self, env: &Envelope) -> (r: bool)
        ensures
            r == (leaf_results(LeafPattern::Cbor(*self), env@).0.len() > 0),
    {
        self.paths(env).len() > 0
    }
}

impl NumberPattern {
    /// The paths and captures this pattern finds on `env` when its subject is
    /// a number it accepts.
    pub fn paths_with_captures(&self, env: &Envelope) -> (r: (Vec<Path>, Captures))
        ensures
            paths_model(r.0@) == leaf_results(LeafPattern::Number(*self), env@).0,
            captures_model(r.1@) == leaf_results(LeafPattern::Number(*self), env@).1,
    {
        (leaf_value_match(self.expr.as_str(), env), no_captures())
    }

    /// The paths this pattern finds on `env`.
    pub fn paths(&self, env: &Envelope) -> (r: Vec<Path>)
        ensures
            paths_model(r@) == leaf_results(LeafPattern::Number(*self), env@).0,
    {
        self.paths_with_captures(env).0
    }

    /// Whether this pattern finds any path on `env`.
    pub fn matches(&self, env: &Envelope) -> (r: bool)
        ensures
            r == (leaf_results(LeafPattern::Number(*self), env@).0.len() > 0),
    {
        self.paths(env).len() > 0
    }
}

impl TextPattern {
    /// The paths and captures this pattern finds on `env` when its subject is
    /// a text value it accepts.
    pub fn paths_with_captures(&self, env: &Envelope) -> (r: (Vec<Path>, Captures))
        ensures
            paths_model(r.0@) == leaf_results(LeafPattern::Text(*self), env@).0,
            captures_model(r.1@) == leaf_results(LeafPattern::Text(*self), env@).1,
    {
        let e = text_expression(self);
        (leaf_value_match(e.as_str(), env), no_captures())
    }

    /// The paths this pattern finds on `env`.
    pub fn paths(&self, env: &Envelope) -> (r: Vec<Path>)
        ensures
            paths_model(r@) == leaf_results(LeafPattern::Text(*self), env@).0,
    {
        self.paths_with_captures(env).0
    }

    /// Whether this pattern finds any path on `env`.
    pub fn matches(&self, env: &Envelope) -> (r: bool)
        ensures
            r == (leaf_results(LeafPattern::Text(*self), env@).0.len() > 0),
    {
        self.paths(env).len() > 0
    }
}

impl ByteStringPattern {
    /// The paths and captures this pattern finds on `env` when its subject is
    /// a byte string it accepts.
    pub fn paths_with_captures(&self, env: &Envelope) -> (r: (Vec<Path>, Captures))
        ensures
            paths_model(r.0@) == leaf_results(LeafPattern::ByteString(*self), env@).0,
            captures_model(r.1@) == leaf_results(LeafPattern::ByteString(*self), env@).1,
    {
        (leaf_value_match(self.expr.as_str(), env), no_captures())
    }

    /// The paths this pattern finds on `env`.
    pub fn paths(&self, env: &Envelope) -> (r: Vec<Path>)
        ensures
            paths_model(r@) == leaf_results(LeafPattern::ByteString(*self), env@).0,
    {
        self.paths_with_captures(env).0
    }

    /// Whether this pattern finds any path on `env`.
    pub fn matches(&self, env: &Envelope) -> (r: bool)
        ensures
            r == (leaf_results(LeafPattern::ByteString(*self), env@).0.len() > 0),
    {
        self.paths(env).len() > 0
    }
}

impl TaggedPattern {
    /// The paths and captures this pattern finds on `env` when its subject is
    /// a tagged value it accepts.
    pub fn paths_with_captures(&self, env: &Envelope) -> (r: (Vec<Path>, Captures))
        ensures
            paths_model(r.0@) == leaf_results(LeafPattern::Tag(*self), env@).0,
            captures_model(r.1@) == leaf_results(LeafPattern::Tag(*self), env@).1,
    {
        match env.subject().as_leaf() {
            Some(c) => {
                let found = expression_match_paths(self.expr.as_str(), c.as_slice(), None, "");
                let names = capture_names_in_expr(self.expr.as_str());
                let caps = tagged_capture_list(self.expr.as_str(), c, env, &names, 0);
                (copies_of(env, found.len()), caps)
            },
            None => (no_paths(), no_captures()),
        }
    }

    /// The paths this pattern finds on `env`.
    pub fn paths(&self, env: &Envelope) -> (r: Vec<Path>)
        ensures
            paths_model(r@) == leaf_results(LeafPattern::Tag(*self), env@).0,
    {
        self.paths_with_captures(env).0
    }

    /// Whether this pattern finds any path on `env`.
    pub fn matches(&self, env: &Envelope) -> (r: bool)
        ensures
            r == (leaf_results(LeafPattern::Tag(*self), env@).0.len() > 0),
    {
        self.paths(env).len() > 0
    }
}

impl ArrayPattern {
    /// The paths and captures this pattern finds on `env` when its subject is
    /// an array it accepts.
    pub fn paths_with_captures(&self, env: &Envelope) -> (r: (Vec<Path>, Captures))
        ensures
            paths_model(r.0@) == leaf_results(LeafPattern::Array(*self), env@).0,
            captures_model(r.1@) == leaf_results(LeafPattern::Array(*self), env@).1,
    {
        let e = array_expression(self);
        (leaf_value_match(e.as_str(), env), no_captures())
    }

    /// The paths this pattern finds on `env`.
    pub fn paths(&self, env: &Envelope) -> (r: Vec<Path>)
        ensures
            paths_model(r@) == leaf_results(LeafPattern::Array(*self), env@).0,
    {
        self.paths_with_captures(env).0
    }

    /// Whether this pattern finds any path on `env`.
    pub fn matches(&self, env: &Envelope) -> (r: bool)
        ensures
            r == (leaf_results(LeafPattern::Array(*self), env@).0.len() > 0),
    {
        self.paths(env).len() > 0
    }
}

impl MapPattern {
    /// The paths and captures this pattern finds on `env` when its subject is
    /// a map it accepts.
    pub fn paths_with_captures(&self, env: &Envelope) -> (r: (Vec<Path>, Captures))
        ensures
            paths_model(r.0@) == leaf_results(LeafPattern::MapValue(*self), env@).0,
            captures_model(r.1@) == leaf_results(LeafPattern::MapValue(*self), env@).1,
    {
        let e = map_expression(self);
        (leaf_value_match(e.as_str(), env), no_captures())
    }

    /// The paths this pattern finds on `env`.
    pub fn paths(&self, env: &Envelope) -> (r: Vec<Path>)
        ensures
            paths_model(r@) == leaf_results(LeafPattern::MapValue(*self), env@).0,
    {
        self.paths_with_captures(env).0
    }

    /// Whether this pattern finds any path on `env`.
    pub fn matches(&self, env: &Envelope) -> (r: bool)
        ensures
            r == (leaf_results(LeafPattern::MapValue(*self), env@).0.len() > 0),
    {
        self.paths(env).len() > 0
    }
}

impl BoolPattern {
    /// The paths and captures this pattern finds on `env` when its subject is
    /// a boolean it accepts.
    pub fn paths_with_captures(&self, env: &Envelope) -> (r: (Vec<Path>, Captures))
        ensures
            paths_model(r.0@) == leaf_results(LeafPattern::Bool(*self), env@).0,
            captures_model(r.1@) == leaf_results(LeafPattern::Bool(*self), env@).1,
    {
        (leaf_value_match(self.expr.as_str(), env), no_captures())
    }

    /// The paths this pattern finds on `env`.
    pub fn paths(&self, env: &Envelope) -> (r: Vec<Path>)
        ensures
            paths_model(r@) == leaf_results(LeafPattern::Bool(*self), env@).0,
    {
        self.paths_with_captures(env).0
    }

    /// Whether this pattern finds any path on `env`.
    pub fn matches(&self, env: &Envelope) -> (r: bool)
        ensures
            r == (leaf_results(LeafPattern::Bool(*self), env@).0.len() > 0),
    {
        self.paths(env).len() > 0
    }
}

impl NullPattern {
    /// The paths and captures this pattern finds on `env` when its subject is
    /// null it accepts.
    pub fn paths_with_captures(&self, env: &Envelope) -> (r: (Vec<Path>, Captures))
        ensures
            paths_model(r.0@) == leaf_results(LeafPattern::Null(*self), env@).0,
            captures_model(r.1@) == leaf_results(LeafPattern::Null(*self), env@).1,
    {
        (leaf_value_match("null", env), no_captures())
    }

    /// The paths this pattern finds on `env`.
    pub fn paths(&self, env: &Envelope) -> (r: Vec<Path>)
        ensures
            paths_model(r@) == leaf_results(LeafPattern::Null(*self), env@).0,
    {
        self.paths_with_captures(env).0
    }

    /// Whether this pattern finds any path on `env`.
    pub fn matches(&self, env: &Envelope) -> (r: bool)
        ensures
            r == (leaf_results(LeafPattern::Null(*self), env@).0.len() > 0),
    {
        self.paths(env).len() > 0
    }
}

impl DatePattern {
    /// The paths and captures this pattern finds on `env` when its subject is
    /// a date it accepts.
    pub fn paths_with_captures(&self, env: &Envelope) -> (r: (Vec<Path>, Captures))
        ensures
            paths_model(r.0@) == leaf_results(LeafPattern::Date(*self), env@).0,
            captures_model(r.1@) == leaf_results(LeafPattern::Date(*self), env@).1,
    {
        (leaf_value_match(self.expr.as_str(), env), no_captures())
    }

    /// The paths this pattern finds on `env`.
    pub fn paths(&self, env: &Envelope) -> (r: Vec<Path>)
        ensures
            paths_model(r@) == leaf_results(LeafPattern::Date(*self), env@).0,
    {
        self.paths_with_captures(env).0
    }

    /// Whether this pattern finds any path on `env`.
    pub fn matches(&self, env: &Envelope) -> (r: bool)
        ensures
            r == (leaf_results(LeafPattern::Date(*self), env@).0.len() > 0),
    {
        self.paths(env).len() > 0
    }
}

impl KnownValuePattern {
    /// The paths and captures this pattern finds on `env` when its subject is
    /// a known value it accepts.
    pub fn paths_with_captures(&self, env: &Envelope) -> (r: (Vec<Path>, Captures))
        ensures
            paths_model(r.0@) == leaf_results(LeafPattern::KnownValue(*self), env@).0,
            captures_model(r.1@) == leaf_results(LeafPattern::KnownValue(*self), env@).1,
    {
        let subject = env.subject();
        match (subject.as_known_value(), subject.known_value_name()) {
            (Some(v), Some(name)) => {
                let accepted = match self {
                    KnownValuePattern::Any => true,
                    KnownValuePattern::Value { value, .. } => *value == v,
                    KnownValuePattern::Named(n) => n.eq(name),
                    KnownValuePattern::Regex(r) => match text_regex_is_match(
                        r.as_str(),
                        name.as_str(),
                    ) {
                        Some(b) => b,
                        None => false,
                    },
                };
                if accepted {
                    (single_path(env), no_captures())
                } else {
                    (no_paths(), no_captures())
                }
            },
            _ => (no_paths(), no_captures()),
        }
    }

    /// The paths this pattern finds on `env`.
    pub fn paths(&self, env: &Envelope) -> (r: Vec<Path>)
        ensures
            paths_model(r@) == leaf_results(LeafPattern::KnownValue(*self), env@).0,
    {
        self.paths_with_captures(env).0
    }

    /// Whether this pattern finds any path on `env`.
    pub fn matches(&self, env: &Envelope) -> (r: bool)
        ensures
            r == (leaf_results(LeafPattern::KnownValue(*self), env@).0.len() > 0),
    {
        self.paths(env).len() > 0
    }
}

} // verus!
