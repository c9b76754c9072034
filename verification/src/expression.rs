//! Known-value literals in dcbor-pattern expressions.
//!
//! dcbor-pattern reads a single-quoted literal as a known value: by number
//! (`'1'`, a decimal `u64`), by name (`'isA'`), or by a regular expression
//! over names (`'/^is/'`). Names are looked up in the process-wide
//! known-values store, whose contents can come from files on disk, so the
//! library hands dcbor-pattern only expressions whose literals are numbers.
//! Before matching, each named or regular-expression literal is replaced by a
//! numeric one that selects the same values of the haystack. That needs the
//! known values of the haystack and their names: either the haystack is the
//! one known value a known-value envelope holds, with the name the envelope
//! carries, or it holds no known value at all. The scan reads an expression
//! the way dcbor-pattern's lexer does: text in double quotes, regular
//! expressions in slashes, and the `h'..'`, `h'/../'`, `date'..'` and
//! `digest'..'` literals are copied unchanged.
use vstd::prelude::*;

use crate::dcbor::{
    dcbor_capture, dcbor_paths, match_dcbor_capture, match_dcbor_paths, text_regex_is_match,
    text_regex_matches, text_regex_valid,
};
use crate::text::{decimal, push_decimal_u64, string_of};

verus! {

/// A character that can be part of a keyword or a capture name.
pub open spec fn word_char(c: char) -> bool {
    ('a' <= c && c <= 'z') || ('A' <= c && c <= 'Z') || ('0' <= c && c <= '9') || c == '_' || c
        == '@'
}

/// Whether the keyword `kw` stands on its own right before position `i`.
pub open spec fn keyword_before(s: Seq<char>, i: int, kw: Seq<char>) -> bool {
    &&& kw.len() <= i <= s.len()
    &&& s.subrange(i - kw.len(), i) == kw
    &&& (i - kw.len() == 0 || !word_char(s[i - kw.len() - 1]))
}

/// Whether the single quote at `i` opens a byte-string, date or digest
/// literal.
pub open spec fn opens_literal(s: Seq<char>, i: int) -> bool {
    keyword_before(s, i, "h"@) || keyword_before(s, i, "date"@) || keyword_before(s, i, "digest"@)
}

/// Whether the quote at `i` opens a binary regular expression `h'/../'`.
pub open spec fn opens_hex_regex(s: Seq<char>, i: int) -> bool {
    keyword_before(s, i, "h"@) && i + 1 < s.len() && s[i + 1] == '/'
}

/// `i + 2`, or the end of `s` when that is nearer.
pub open spec fn skip_two(s: Seq<char>, i: int) -> int {
    if i + 2 <= s.len() {
        i + 2
    } else {
        s.len() as int
    }
}

/// Where the scan goes on after the character at `i`, read in state `st`
/// (0 plain, 1 in double-quoted text, 2 in a regular expression, 3 in a
/// quoted literal, 4 in a binary regular expression): an escape or a
/// two-character delimiter is taken whole.
pub open spec fn scan_step(s: Seq<char>, i: int, st: int) -> int {
    let c = s[i];
    if st == 0 {
        if c == '\'' && opens_hex_regex(s, i) {
            i + 2
        } else {
            i + 1
        }
    } else if (st == 1 || st == 2 || st == 4) && c == '\\' {
        skip_two(s, i)
    } else if st == 4 && c == '/' && i + 1 < s.len() && s[i + 1] == '\'' {
        i + 2
    } else {
        i + 1
    }
}

/// The state of the scan after the character at `i`, read in state `st`.
pub open spec fn scan_state(s: Seq<char>, i: int, st: int) -> int {
    let c = s[i];
    if st == 0 {
        if c == '"' {
            1
        } else if c == '/' {
            2
        } else if c == '\'' {
            if opens_hex_regex(s, i) {
                4
            } else {
                3
            }
        } else {
            0
        }
    } else if st == 1 || st == 2 {
        if c == '\\' {
            st
        } else if (st == 1 && c == '"') || (st == 2 && c == '/') {
            0
        } else {
            st
        }
    } else if st == 3 {
        if c == '\'' {
            0
        } else {
            3
        }
    } else {
        if c == '\\' {
            4
        } else if c == '/' && i + 1 < s.len() && s[i + 1] == '\'' {
            0
        } else {
            4
        }
    }
}

/// The index of the quote that closes a single-quoted literal whose text
/// begins at `j`, a backslash taking the next character with it; negative
/// when the literal is not closed.
pub open spec fn quote_close(s: Seq<char>, j: int) -> int
    decreases s.len() - j,
{
    if j < 0 || j >= s.len() {
        -1
    } else if s[j] == '\\' {
        quote_close(s, skip_two(s, j))
    } else if s[j] == '\'' {
        j
    } else {
        quote_close(s, j + 1)
    }
}

/// What an escape `\c` in a single-quoted literal stands for.
pub open spec fn escape_value(c: char) -> Seq<char> {
    if c == '\'' {
        seq!['\'']
    } else if c == '\\' {
        seq!['\\']
    } else if c == 'n' {
        seq!['\n']
    } else if c == 'r' {
        seq!['\r']
    } else if c == 't' {
        seq!['\t']
    } else {
        seq!['\\', c]
    }
}

/// The text of a single-quoted literal from `j` on, with its escapes applied.
pub open spec fn unescaped(raw: Seq<char>, j: int) -> Seq<char>
    decreases raw.len() - j,
{
    if j < 0 || j >= raw.len() {
        Seq::empty()
    } else if raw[j] == '\\' && j + 1 < raw.len() {
        escape_value(raw[j + 1]) + unescaped(raw, j + 2)
    } else {
        seq![raw[j]] + unescaped(raw, j + 1)
    }
}

pub open spec fn is_digit(c: char) -> bool {
    '0' <= c && c <= '9'
}

/// The number a string of decimal digits stands for.
pub open spec fn digits_value(d: Seq<char>) -> int
    decreases d.len(),
{
    if d.len() == 0 {
        0
    } else {
        digits_value(d.drop_last()) * 10 + (d.last() as int - 48)
    }
}

/// `u` without a leading `+`.
pub open spec fn unsigned_digits(u: Seq<char>) -> Seq<char> {
    if u.len() > 0 && u[0] == '+' {
        u.drop_first()
    } else {
        u
    }
}

/// Whether `u` reads as a `u64`, as `str::parse::<u64>` reads it: an
/// optional `+`, then one or more ASCII digits, of a value that fits.
pub open spec fn u64_numeral(u: Seq<char>) -> bool {
    let d = unsigned_digits(u);
    &&& d.len() > 0
    &&& forall|k: int| 0 <= k < d.len() ==> is_digit(d[k])
    &&& digits_value(d) <= u64::MAX
}

/// Whether `u` has the form `/regex/` that makes a known-value literal a
/// regular expression over names.
pub open spec fn slash_regex(u: Seq<char>) -> bool {
    u.len() > 2 && u[0] == '/' && u.last() == '/'
}

/// The known-value literal for the number `v`.
pub open spec fn quoted_number(v: u64) -> Seq<char> {
    seq!['\''] + decimal(v as nat) + seq!['\'']
}

/// A known value other than `v`.
pub open spec fn other_than(v: u64) -> u64 {
    if v == 0 {
        1
    } else {
        0
    }
}

/// The haystack context `(value, name)` of an optional known value.
pub open spec fn known_ctx(known: Option<u64>, name: Seq<char>) -> Option<(u64, Seq<char>)> {
    match known {
        Some(v) => Some((v, name)),
        None => None,
    }
}

/// What the single-quoted literal with the text `raw` becomes. A number
/// stays. A name or regular expression becomes the number of the haystack's
/// known value when it selects it, and a number selecting nothing otherwise;
/// with `known` absent that is only possible when the haystack holds no
/// known value (`plain`). None when the literal cannot be resolved, or its
/// regular expression does not compile, so that the expression does not
/// parse.
pub open spec fn literal_replacement(
    raw: Seq<char>,
    known: Option<(u64, Seq<char>)>,
    plain: bool,
) -> Option<Seq<char>> {
    let u = unescaped(raw, 0);
    let re = u.subrange(1, u.len() - 1);
    if u64_numeral(u) {
        Some(seq!['\''] + raw + seq!['\''])
    } else if known is None && !plain {
        None
    } else if slash_regex(u) && !text_regex_valid(re) {
        None
    } else {
        match known {
            Some((v, name)) => {
                let selects = if slash_regex(u) {
                    text_regex_matches(re, name)
                } else {
                    u == name
                };
                Some(quoted_number(if selects { v } else { other_than(v) }))
            },
            None => Some(quoted_number(0)),
        }
    }
}

/// `o` in front of `x`, when there is an `x`.
pub open spec fn prefixed(o: Seq<char>, x: Option<Seq<char>>) -> Option<Seq<char>> {
    match x {
        Some(r) => Some(o + r),
        None => None,
    }
}

/// The rest of `s` from `i`, read in state `st`, with each known-value
/// literal replaced as `literal_replacement` says; None when one cannot be
/// replaced or is not closed.
pub open spec fn resolve_from(
    s: Seq<char>,
    i: int,
    st: int,
    known: Option<(u64, Seq<char>)>,
    plain: bool,
) -> Option<Seq<char>>
    decreases s.len() - i,
{
    if i < 0 || i >= s.len() {
        Some(Seq::empty())
    } else if st == 0 && s[i] == '\'' && !opens_literal(s, i) {
        let j = quote_close(s, i + 1);
        if j <= i || j >= s.len() {
            None
        } else {
            match literal_replacement(s.subrange(i + 1, j), known, plain) {
                Some(r) => prefixed(r, resolve_from(s, j + 1, 0, known, plain)),
                None => None,
            }
        }
    } else {
        let n = scan_step(s, i, st);
        if n <= i {
            None
        } else {
            prefixed(s.subrange(i, n), resolve_from(s, n, scan_state(s, i, st), known, plain))
        }
    }
}

/// Whether every known-value literal of `s` is a number, so that matching
/// it reads no registry.
pub open spec fn registry_free(s: Seq<char>) -> bool {
    resolve_from(s, 0, 0, None, false) is Some
}

/// Whether the encoding `cbor` may hold a known value: the head of tag 40000
/// occurs in it.
pub open spec fn holds_known_value_tag(cbor: Seq<u8>) -> bool {
    exists|k: int|
        0 <= k && k + 3 <= cbor.len() && #[trigger] cbor[k] == 0xd9 && cbor[k + 1] == 0x9c && cbor[k
            + 2] == 0x40
}

/// `expr` with its known-value literals resolved against the haystack
/// `cbor`, which is the known value `known` when there is one.
pub open spec fn resolved_expression(
    expr: Seq<char>,
    cbor: Seq<u8>,
    known: Option<(u64, Seq<char>)>,
) -> Option<Seq<char>> {
    resolve_from(expr, 0, 0, known, !holds_known_value_tag(cbor))
}

/// The paths `expr` matches in `cbor` (the known value `known` when there is
/// one); none when `expr` cannot be resolved.
pub open spec fn expression_paths(
    expr: Seq<char>,
    cbor: Seq<u8>,
    known: Option<(u64, Seq<char>)>,
) -> Seq<Seq<Seq<u8>>> {
    match resolved_expression(expr, cbor, known) {
        Some(t) => if registry_free(t) {
            dcbor_paths(t, cbor)
        } else {
            Seq::empty()
        },
        None => Seq::empty(),
    }
}

/// The paths `expr` captures under `name` in `cbor` (the known value `known`
/// when there is one); none when `expr` cannot be resolved.
pub open spec fn expression_capture(
    expr: Seq<char>,
    cbor: Seq<u8>,
    name: Seq<char>,
    known: Option<(u64, Seq<char>)>,
) -> Seq<Seq<Seq<u8>>> {
    match resolved_expression(expr, cbor, known) {
        Some(t) => if registry_free(t) {
            dcbor_capture(t, cbor, name)
        } else {
            Seq::empty()
        },
        None => Seq::empty(),
    }
}

fn keyword_before_exec(s: &str, i: usize, kw: &str) -> (r: bool)
    requires
        i <= s@.len(),
    ensures
        r == keyword_before(s@, i as int, kw@),
{
    let k = kw.unicode_len();
    if k > i {
        return false;
    }
    let start = i - k;
    let mut j: usize = 0;
    while j < k
        invariant
            k == kw@.len(),
            start + k == i,
            i <= s@.len(),
            j <= k,
            forall|t: int| 0 <= t < j ==> s@[start + t] == kw@[t],
        decreases k - j,
    {
        if s.get_char(start + j) != kw.get_char(j) {
            assert(s@.subrange(start as int, i as int)[j as int] != kw@[j as int]);
            return false;
        }
        j = j + 1;
    }
    assert(s@.subrange(start as int, i as int) =~= kw@);
    if start == 0 {
        true
    } else {
        let c = s.get_char(start - 1);
        !(('a' <= c && c <= 'z') || ('A' <= c && c <= 'Z') || ('0' <= c && c <= '9') || c == '_'
            || c == '@')
    }
}

fn opens_literal_exec(s: &str, i: usize) -> (r: bool)
    requires
        i <= s@.len(),
    ensures
        r == opens_literal(s@, i as int),
{
    keyword_before_exec(s, i, "h") || keyword_before_exec(s, i, "date") || keyword_before_exec(
        s,
        i,
        "digest",
    )
}

fn scan_step_exec(s: &str, n: usize, i: usize, st: u8) -> (r: (usize, u8))
    requires
        n == s@.len(),
        i < n,
        st <= 4,
    ensures
        r.0 as int == scan_step(s@, i as int, st as int),
        r.1 as int == scan_state(s@, i as int, st as int),
        i < r.0 <= n,
        r.1 <= 4,
{
    let c = s.get_char(i);
    let two = if n - i >= 2 {
        i + 2
    } else {
        n
    };
    if st == 0 {
        if c == '"' {
            (i + 1, 1)
        } else if c == '/' {
            (i + 1, 2)
        } else if c == '\'' {
            let hex_regex = keyword_before_exec(s, i, "h") && i + 1 < n && s.get_char(i + 1)
                == '/';
            if hex_regex {
                (i + 2, 4)
            } else {
                (i + 1, 3)
            }
        } else {
            (i + 1, 0)
        }
    } else if st == 1 || st == 2 {
        if c == '\\' {
            (two, st)
        } else if (st == 1 && c == '"') || (st == 2 && c == '/') {
            (i + 1, 0)
        } else {
            (i + 1, st)
        }
    } else if st == 3 {
        if c == '\'' {
            (i + 1, 0)
        } else {
            (i + 1, 3)
        }
    } else {
        if c == '\\' {
            (two, 4)
        } else if c == '/' && i + 1 < n && s.get_char(i + 1) == '\'' {
            (i + 2, 0)
        } else {
            (i + 1, 4)
        }
    }
}

fn quote_close_exec(s: &str, n: usize, j: usize) -> (r: usize)
    requires
        n == s@.len(),
        j <= n,
    ensures
        j <= r <= n,
        r < n ==> r as int == quote_close(s@, j as int),
        r == n ==> quote_close(s@, j as int) < 0,
    decreases n - j,
{
    if j >= n {
        n
    } else {
        let c = s.get_char(j);
        if c == '\\' {
            let next = if n - j >= 2 {
                j + 2
            } else {
                n
            };
            quote_close_exec(s, n, next)
        } else if c == '\'' {
            j
        } else {
            quote_close_exec(s, n, j + 1)
        }
    }
}

/// The text of a single-quoted literal with its escapes applied.
fn unescape_literal(raw: &str) -> (r: String)
    ensures
        r@ == unescaped(raw@, 0),
{
    let n = raw.unicode_len();
    let mut out = String::new();
    let mut j: usize = 0;
    assert(out@ + unescaped(raw@, 0) =~= unescaped(raw@, 0));
    while j < n
        invariant
            n == raw@.len(),
            j <= n,
            out@ + unescaped(raw@, j as int) == unescaped(raw@, 0),
        decreases n - j,
    {
        proof {
            reveal_strlit("'");
            reveal_strlit("\\");
            reveal_strlit("\n");
            reveal_strlit("\r");
            reveal_strlit("\t");
        }
        let ghost before = out@;
        let c = raw.get_char(j);
        if c == '\\' && j + 1 < n {
            let e = raw.get_char(j + 1);
            if e == '\'' {
                out.append("'");
            } else if e == '\\' {
                out.append("\\");
            } else if e == 'n' {
                out.append("\n");
            } else if e == 'r' {
                out.append("\r");
            } else if e == 't' {
                out.append("\t");
            } else {
                out.append("\\");
                out.append(raw.substring_char(j + 1, j + 2));
                assert(raw@.subrange(j + 1, j + 2) =~= seq![e]);
            }
            assert(out@ =~= before + escape_value(e));
            assert(out@ + unescaped(raw@, j + 2) =~= before + unescaped(raw@, j as int));
            j = j + 2;
        } else {
            out.append(raw.substring_char(j, j + 1));
            assert(raw@.subrange(j as int, j + 1) =~= seq![c]);
            assert(out@ + unescaped(raw@, j + 1) =~= before + unescaped(raw@, j as int));
            j = j + 1;
        }
    }
    assert(out@ + Seq::<char>::empty() =~= out@);
    out
}

proof fn lemma_digits_value_nonneg(d: Seq<char>)
    requires
        forall|k: int| 0 <= k < d.len() ==> is_digit(d[k]),
    ensures
        digits_value(d) >= 0,
    decreases d.len(),
{
    if d.len() > 0 {
        lemma_digits_value_nonneg(d.drop_last());
    }
}

proof fn lemma_digits_value_grows(d: Seq<char>, m: int)
    requires
        0 <= m <= d.len(),
        forall|k: int| 0 <= k < d.len() ==> is_digit(d[k]),
    ensures
        digits_value(d.subrange(0, m)) <= digits_value(d),
    decreases d.len(),
{
    if m < d.len() {
        lemma_digits_value_grows(d.drop_last(), m);
        assert(d.drop_last().subrange(0, m) =~= d.subrange(0, m));
        lemma_digits_value_nonneg(d.drop_last());
        assert(is_digit(d.last()));
    } else {
        assert(d.subrange(0, m) =~= d);
    }
}

/// Whether `u` reads as a `u64`.
fn u64_numeral_exec(u: &str) -> (r: bool)
    ensures
        r == u64_numeral(u@),
{
    let n = u.unicode_len();
    let start: usize = if n > 0 && u.get_char(0) == '+' {
        1
    } else {
        0
    };
    let ghost d = unsigned_digits(u@);
    assert(d =~= u@.subrange(start as int, n as int));
    if start >= n {
        return false;
    }
    let mut acc: u64 = 0;
    let mut k: usize = start;
    assert(d.subrange(0, 0) =~= Seq::<char>::empty());
    while k < n
        invariant
            n == u@.len(),
            start <= k <= n,
            d == u@.subrange(start as int, n as int),
            d == unsigned_digits(u@),
            forall|t: int| 0 <= t < k - start ==> is_digit(d[t]),
            acc == digits_value(d.subrange(0, k - start)),
        decreases n - k,
    {
        let c = u.get_char(k);
        assert(d[k - start] == c);
        if !('0' <= c && c <= '9') {
            assert(!is_digit(d[k - start]));
            return false;
        }
        let dig = ((c as u32) - 48) as u64;
        let ghost next = d.subrange(0, k - start + 1);
        assert(next.drop_last() =~= d.subrange(0, k - start));
        assert(next.last() == c);
        assert(digits_value(next) == acc * 10 + dig);
        match acc.checked_mul(10) {
            None => {
                proof {
                    assert(digits_value(next) > u64::MAX);
                    if forall|t: int| 0 <= t < d.len() ==> is_digit(d[t]) {
                        lemma_digits_value_grows(d, k - start + 1);
                    }
                    assert(!u64_numeral(u@));
                }
                return false;
            },
            Some(m) => match m.checked_add(dig) {
                None => {
                    proof {
                        assert(digits_value(next) > u64::MAX);
                        if forall|t: int| 0 <= t < d.len() ==> is_digit(d[t]) {
                            lemma_digits_value_grows(d, k - start + 1);
                        }
                        assert(!u64_numeral(u@));
                    }
                    return false;
                },
                Some(a) => {
                    acc = a;
                },
            },
        }
        k = k + 1;
    }
    assert(d.subrange(0, n - start) =~= d);
    true
}

/// Appends the known-value literal for `v` to `out`.
fn push_quoted_number(out: &mut String, v: u64)
    ensures
        final(out)@ == old(out)@ + quoted_number(v),
{
    proof {
        reveal_strlit("'");
    }
    out.append("'");
    push_decimal_u64(out, v);
    out.append("'");
    assert(final(out)@ =~= old(out)@ + quoted_number(v));
}

/// What the single-quoted literal with the text `raw` becomes (see
/// `literal_replacement`).
fn replace_literal(raw: &str, known: Option<u64>, name: &str, plain: bool) -> (r: Option<String>)
    ensures
        match r {
            Some(t) => literal_replacement(raw@, known_ctx(known, name@), plain) == Some(t@),
            None => literal_replacement(raw@, known_ctx(known, name@), plain) is None,
        },
{
    proof {
        reveal_strlit("'");
    }
    let u = unescape_literal(raw);
    if u64_numeral_exec(u.as_str()) {
        let mut out = String::new();
        out.append("'");
        out.append(raw);
        out.append("'");
        assert(out@ =~= seq!['\''] + raw@ + seq!['\'']);
        return Some(out);
    }
    if known.is_none() && !plain {
        return None;
    }
    let len = u.as_str().unicode_len();
    let is_re = len > 2 && u.as_str().get_char(0) == '/' && u.as_str().get_char(len - 1) == '/';
    let selects = if is_re {
        let inner = u.as_str().substring_char(1, len - 1);
        match text_regex_is_match(inner, name) {
            None => {
                return None;
            },
            Some(b) => b,
        }
    } else {
        let name_s = string_of(name);
        u.eq(&name_s)
    };
    let mut out = String::new();
    match known {
        Some(v) => {
            let w = if selects {
                v
            } else if v == 0 {
                1
            } else {
                0
            };
            push_quoted_number(&mut out, w);
        },
        None => {
            push_quoted_number(&mut out, 0);
        },
    }
    Some(out)
}

/// `s` with its known-value literals resolved (see `resolve_from`); None
/// when one cannot be.
pub fn resolve_literals(s: &str, known: Option<u64>, name: &str, plain: bool) -> (r: Option<
    String,
>)
    ensures
        match r {
            Some(t) => resolve_from(s@, 0, 0, known_ctx(known, name@), plain) == Some(t@),
            None => resolve_from(s@, 0, 0, known_ctx(known, name@), plain) is None,
        },
{
    let ghost ctx = known_ctx(known, name@);
    let n = s.unicode_len();
    let mut out = String::new();
    let mut i: usize = 0;
    let mut st: u8 = 0;
    proof {
        match resolve_from(s@, 0, 0, ctx, plain) {
            Some(t) => assert(out@ + t =~= t),
            None => {},
        }
    }
    while i < n
        invariant
            n == s@.len(),
            i <= n,
            st <= 4,
            ctx == known_ctx(known, name@),
            resolve_from(s@, 0, 0, ctx, plain) == prefixed(
                out@,
                resolve_from(s@, i as int, st as int, ctx, plain),
            ),
        decreases n - i,
    {
        let c = s.get_char(i);
        let ghost before = out@;
        if st == 0 && c == '\'' && !opens_literal_exec(s, i) {
            let j = quote_close_exec(s, n, i + 1);
            if j >= n {
                return None;
            }
            let raw = s.substring_char(i + 1, j);
            match replace_literal(raw, known, name, plain) {
                Some(rep) => {
                    out.append(rep.as_str());
                    proof {
                        match resolve_from(s@, j + 1, 0, ctx, plain) {
                            Some(rest) => assert(out@ + rest =~= before + (rep@ + rest)),
                            None => {},
                        }
                    }
                    i = j + 1;
                    st = 0;
                },
                None => {
                    return None;
                },
            }
        } else {
            let (next, nst) = scan_step_exec(s, n, i, st);
            out.append(s.substring_char(i, next));
            proof {
                match resolve_from(s@, next as int, nst as int, ctx, plain) {
                    Some(rest) => assert(out@ + rest =~= before + (s@.subrange(
                        i as int,
                        next as int,
                    ) + rest)),
                    None => {},
                }
            }
            i = next;
            st = nst;
        }
    }
    proof {
        assert(out@ + Seq::<char>::empty() =~= out@);
    }
    Some(out)
}

/// Whether every known-value literal of `s` is a number.
pub fn registry_free_exec(s: &str) -> (r: bool)
    ensures
        r == registry_free(s@),
{
    resolve_literals(s, None, "", false).is_some()
}

/// Whether the head of tag 40000 occurs in `cbor`.
fn holds_known_value_tag_exec(cbor: &[u8]) -> (r: bool)
    ensures
        r == holds_known_value_tag(cbor@),
{
    let n = cbor.len();
    let mut k: usize = 0;
    while n >= 3 && k <= n - 3
        invariant
            n == cbor@.len(),
            k <= n,
            forall|t: int|
                0 <= t < k && t + 3 <= n ==> !(#[trigger] cbor@[t] == 0xd9 && cbor@[t + 1] == 0x9c
                    && cbor@[t + 2] == 0x40),
        decreases n - k,
    {
        if cbor[k] == 0xd9 && cbor[k + 1] == 0x9c && cbor[k + 2] == 0x40 {
            return true;
        }
        k = k + 1;
    }
    false
}

/// The paths `expr` matches in `cbor`, which is the known value `known`
/// named `name` when there is one: matched by dcbor-pattern once the
/// known-value literals are resolved, and none when they cannot be.
pub fn expression_match_paths(expr: &str, cbor: &[u8], known: Option<u64>, name: &str) -> (r: Vec<
    Vec<Vec<u8>>,
>)
    ensures
        r.deep_view() == expression_paths(expr@, cbor@, known_ctx(known, name@)),
{
    let plain = !holds_known_value_tag_exec(cbor);
    match resolve_literals(expr, known, name, plain) {
        Some(t) => {
            if registry_free_exec(t.as_str()) {
                return match_dcbor_paths(t.as_str(), cbor);
            }
        },
        None => {},
    }
    let r: Vec<Vec<Vec<u8>>> = Vec::new();
    assert(r.deep_view() =~= Seq::<Seq<Seq<u8>>>::empty());
    r
}

/// The paths `expr` captures under `capture` in `cbor`, which is the known
/// value `known` named `name` when there is one: matched by dcbor-pattern
/// once the known-value literals are resolved, and none when they cannot be.
pub fn expression_match_capture(
    expr: &str,
    cbor: &[u8],
    capture: &str,
    known: Option<u64>,
    name: &str,
) -> (r: Vec<Vec<Vec<u8>>>)
    ensures
        r.deep_view() == expression_capture(expr@, cbor@, capture@, known_ctx(known, name@)),
{
    let plain = !holds_known_value_tag_exec(cbor);
    match resolve_literals(expr, known, name, plain) {
        Some(t) => {
            if registry_free_exec(t.as_str()) {
                return match_dcbor_capture(t.as_str(), cbor, capture);
            }
        },
        None => {},
    }
    let r: Vec<Vec<Vec<u8>>> = Vec::new();
    assert(r.deep_view() =~= Seq::<Seq<Seq<u8>>>::empty());
    r
}

} // verus!
