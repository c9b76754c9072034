//! Small, fully specified text helpers used by the `to_string` renderings of
//! patterns and quantifiers.
use vstd::prelude::*;

verus! {

/// The ASCII digit for `d` (`d < 10`).
pub open spec fn digit_char(d: nat) -> char {
    if d == 0 {
        '0'
    } else if d == 1 {
        '1'
    } else if d == 2 {
        '2'
    } else if d == 3 {
        '3'
    } else if d == 4 {
        '4'
    } else if d == 5 {
        '5'
    } else if d == 6 {
        '6'
    } else if d == 7 {
        '7'
    } else if d == 8 {
        '8'
    } else {
        '9'
    }
}

/// The decimal rendering of a natural number, without leading zeros.
pub open spec fn decimal(n: nat) -> Seq<char>
    decreases n,
{
    if n < 10 {
        seq![digit_char(n)]
    } else {
        decimal(n / 10).push(digit_char(n % 10))
    }
}

/// `"{" + body + "}"`.
pub open spec fn braced(body: Seq<char>) -> Seq<char> {
    seq!['{'] + body + seq!['}']
}

fn digit_str(d: usize) -> (s: &'static str)
    requires
        d < 10,
    ensures
        s@ == seq![digit_char(d as nat)],
{
    proof {
        reveal_strlit("0");
        reveal_strlit("1");
        reveal_strlit("2");
        reveal_strlit("3");
        reveal_strlit("4");
        reveal_strlit("5");
        reveal_strlit("6");
        reveal_strlit("7");
        reveal_strlit("8");
        reveal_strlit("9");
    }
    if d == 0 {
        "0"
    } else if d == 1 {
        "1"
    } else if d == 2 {
        "2"
    } else if d == 3 {
        "3"
    } else if d == 4 {
        "4"
    } else if d == 5 {
        "5"
    } else if d == 6 {
        "6"
    } else if d == 7 {
        "7"
    } else if d == 8 {
        "8"
    } else {
        "9"
    }
}

/// Appends the decimal rendering of `n` to `out`.
pub fn push_decimal(out: &mut String, n: usize)
    ensures
        final(out)@ == old(out)@ + decimal(n as nat),
    decreases n,
{
    if n < 10 {
        out.append(digit_str(n));
    } else {
        push_decimal(out, n / 10);
        out.append(digit_str(n % 10));
        assert(decimal(n as nat) == decimal((n / 10) as nat).push(digit_char((n % 10) as nat)));
    }
}

/// Appends the decimal rendering of `n` to `out`.
pub fn push_decimal_u64(out: &mut String, n: u64)
    ensures
        final(out)@ == old(out)@ + decimal(n as nat),
    decreases n,
{
    if n < 10 {
        out.append(digit_str(n as usize));
    } else {
        push_decimal_u64(out, n / 10);
        out.append(digit_str((n % 10) as usize));
        assert(decimal(n as nat) == decimal((n / 10) as nat).push(digit_char((n % 10) as nat)));
    }
}

/// The decimal rendering of an integer, with a leading `-` when negative.
pub open spec fn signed_decimal(v: int) -> Seq<char> {
    if v < 0 {
        seq!['-'] + decimal((-v) as nat)
    } else {
        decimal(v as nat)
    }
}

/// Appends the signed decimal rendering of `v` to `out`.
pub fn push_signed(out: &mut String, v: i64)
    ensures
        final(out)@ == old(out)@ + signed_decimal(v as int),
{
    proof {
        reveal_strlit("-");
    }
    if v < 0 {
        out.append("-");
        let a: i128 = -(v as i128);
        push_decimal_u64(out, a as u64);
    } else {
        push_decimal_u64(out, v as u64);
    }
}

/// Appends a string literal (or any `&str`) to `out`.
pub fn push_str(out: &mut String, s: &str)
    ensures
        final(out)@ == old(out)@ + s@,
{
    out.append(s);
}

/// A fresh string holding the characters of `s`.
pub fn string_of(s: &str) -> (r: String)
    ensures
        r@ == s@,
{
    String::from_str(s)
}

/// The characters of `s` joined by `sep`.
pub open spec fn join(items: Seq<Seq<char>>, sep: Seq<char>) -> Seq<char>
    decreases items.len(),
{
    if items.len() == 0 {
        Seq::empty()
    } else if items.len() == 1 {
        items[0]
    } else {
        join(items.drop_last(), sep) + sep + items.last()
    }
}

/// Lowercase hexadecimal digit for `d < 16`.
pub open spec fn hex_digit(d: nat) -> char {
    if d < 10 {
        digit_char(d)
    } else if d == 10 {
        'a'
    } else if d == 11 {
        'b'
    } else if d == 12 {
        'c'
    } else if d == 13 {
        'd'
    } else if d == 14 {
        'e'
    } else {
        'f'
    }
}

/// Lowercase hexadecimal rendering of a byte string, two digits per byte.
pub open spec fn hex_spec(bytes: Seq<u8>) -> Seq<char>
    decreases bytes.len(),
{
    if bytes.len() == 0 {
        Seq::empty()
    } else {
        hex_spec(bytes.drop_last()) + seq![
            hex_digit((bytes.last() / 16) as nat),
            hex_digit((bytes.last() % 16) as nat),
        ]
    }
}

/// Renders `bytes` as lowercase hexadecimal with the `hex` crate.
#[verifier::external_body]
pub fn hex_encode(bytes: &[u8]) -> (r: String)
    ensures
        r@ == hex_spec(bytes@),
{
    hex::encode(bytes)
}

/// Byte-wise equality of two byte strings.
pub fn bytes_equal(a: &[u8], b: &[u8]) -> (r: bool)
    ensures
        r == (a@ == b@),
{
    if a.len() != b.len() {
        return false;
    }
    let mut i: usize = 0;
    while i < a.len()
        invariant
            a@.len() == b@.len(),
            i <= a@.len(),
            forall|j: int| 0 <= j < i ==> a@[j] == b@[j],
        decreases a@.len() - i,
    {
        if a[i] != b[i] {
            return false;
        }
        i = i + 1;
    }
    assert(a@ =~= b@);
    true
}

/// `b` with an ASCII upper-case letter turned into lower case.
pub open spec fn ascii_fold(b: u8) -> u8 {
    if 65 <= b <= 90 {
        (b + 32) as u8
    } else {
        b
    }
}

/// Whether `a` and `b` are equal when ASCII letters are compared without
/// regard to case.
pub open spec fn bytes_eq_ignore_case(a: Seq<u8>, b: Seq<u8>) -> bool {
    a.len() == b.len() && forall|i: int| 0 <= i < a.len() ==> ascii_fold(#[trigger] a[i]) == ascii_fold(b[i])
}

/// Whether `data` begins with `prefix`, ASCII letters compared without
/// regard to case.
pub open spec fn starts_with_ignore_case(data: Seq<u8>, prefix: Seq<u8>) -> bool {
    prefix.len() <= data.len() && bytes_eq_ignore_case(data.subrange(0, prefix.len() as int), prefix)
}

fn fold_byte(b: u8) -> (r: u8)
    ensures
        r == ascii_fold(b),
{
    if 65 <= b && b <= 90 {
        b + 32
    } else {
        b
    }
}

/// Byte-wise equality of `a[..n]` and `b[..n]` ignoring ASCII case.
fn fold_equal_upto(a: &[u8], b: &[u8], n: usize) -> (r: bool)
    requires
        n <= a@.len(),
        n <= b@.len(),
    ensures
        r == (forall|i: int| 0 <= i < n ==> ascii_fold(#[trigger] a@[i]) == ascii_fold(b@[i])),
{
    let mut i: usize = 0;
    while i < n
        invariant
            n <= a@.len(),
            n <= b@.len(),
            i <= n,
            forall|j: int| 0 <= j < i ==> ascii_fold(#[trigger] a@[j]) == ascii_fold(b@[j]),
        decreases n - i,
    {
        if fold_byte(a[i]) != fold_byte(b[i]) {
            return false;
        }
        i = i + 1;
    }
    true
}

/// Whether `a` and `b` are equal, ASCII letters compared without regard to
/// case.
pub fn bytes_eq_ignore_ascii_case(a: &[u8], b: &[u8]) -> (r: bool)
    ensures
        r == bytes_eq_ignore_case(a@, b@),
{
    if a.len() != b.len() {
        return false;
    }
    fold_equal_upto(a, b, a.len())
}

/// Whether `data` begins with `prefix`, ASCII letters compared without
/// regard to case.
pub fn bytes_start_with_ignore_ascii_case(data: &[u8], prefix: &[u8]) -> (r: bool)
    ensures
        r == starts_with_ignore_case(data@, prefix@),
{
    if prefix.len() > data.len() {
        return false;
    }
    let r = fold_equal_upto(data, prefix, prefix.len());
    let ghost sub = data@.subrange(0, prefix@.len() as int);
    assert(r == (forall|i: int| 0 <= i < prefix@.len() ==> ascii_fold(#[trigger] sub[i]) == ascii_fold(prefix@[i]))) by {
        if r {
            assert forall|i: int| 0 <= i < prefix@.len() implies ascii_fold(#[trigger] sub[i]) == ascii_fold(prefix@[i]) by {
                assert(sub[i] == data@[i]);
            }
        } else {
            let k = choose|k: int| 0 <= k < prefix@.len() && !(ascii_fold(#[trigger] data@[k]) == ascii_fold(prefix@[k]));
            assert(sub[k] == data@[k]);
        }
    }
    r
}

/// Copies a byte slice into a fresh vector.
pub fn bytes_to_vec(b: &[u8]) -> (r: Vec<u8>)
    ensures
        r@ == b@,
{
    let mut out: Vec<u8> = Vec::new();
    let mut i: usize = 0;
    while i < b.len()
        invariant
            i <= b@.len(),
            out@ == b@.subrange(0, i as int),
        decreases b@.len() - i,
    {
        out.push(b[i]);
        i = i + 1;
    }
    assert(b@.subrange(0, b@.len() as int) =~= b@);
    out
}

/// The escaped form of one character inside a double-quoted literal.
pub open spec fn escape_char(c: char) -> Seq<char> {
    if c == '\\' {
        seq!['\\', '\\']
    } else if c == '"' {
        seq!['\\', '"']
    } else {
        seq![c]
    }
}

/// `s` with every backslash and double quote escaped by a backslash.
pub open spec fn escape_spec(s: Seq<char>) -> Seq<char>
    decreases s.len(),
{
    if s.len() == 0 {
        Seq::empty()
    } else {
        escape_spec(s.drop_last()) + escape_char(s.last())
    }
}

/// Escapes backslashes and double quotes in `s`.
pub fn escape_quoted(s: &str) -> (r: String)
    ensures
        r@ == escape_spec(s@),
{
    let n = s.unicode_len();
    let mut out = String::new();
    let mut i: usize = 0;
    assert(s@.subrange(0, 0) =~= Seq::<char>::empty());
    while i < n
        invariant
            n == s@.len(),
            i <= n,
            out@ == escape_spec(s@.subrange(0, i as int)),
        decreases n - i,
    {
        proof {
            reveal_strlit("\\\\");
            reveal_strlit("\\\"");
        }
        let c = s.get_char(i);
        assert(s@.subrange(0, i + 1).drop_last() =~= s@.subrange(0, i as int));
        assert(s@.subrange(0, i + 1).last() == c);
        if c == '\\' {
            out.append("\\\\");
        } else if c == '"' {
            out.append("\\\"");
        } else {
            out.append(s.substring_char(i, i + 1));
        }
        i = i + 1;
    }
    assert(s@.subrange(0, n as int) =~= s@);
    out
}

/// `s` from index `i` on, with each slash not already escaped by a
/// backslash escaped by one, as a regular expression between slashes
/// needs; `esc` tells whether the character at `i` is escaped.
pub open spec fn slash_escaped(s: Seq<char>, i: int, esc: bool) -> Seq<char>
    decreases s.len() - i,
{
    if i < 0 || i >= s.len() {
        Seq::empty()
    } else {
        let c = s[i];
        if esc {
            seq![c] + slash_escaped(s, i + 1, false)
        } else if c == '\\' {
            seq![c] + slash_escaped(s, i + 1, true)
        } else if c == '/' {
            seq!['\\', '/'] + slash_escaped(s, i + 1, false)
        } else {
            seq![c] + slash_escaped(s, i + 1, false)
        }
    }
}

/// Escapes the slashes of `s` that are not already escaped.
pub fn escape_slashes(s: &str) -> (r: String)
    ensures
        r@ == slash_escaped(s@, 0, false),
{
    let n = s.unicode_len();
    let mut out = String::new();
    let mut i: usize = 0;
    let mut esc = false;
    while i < n
        invariant
            n == s@.len(),
            i <= n,
            out@ + slash_escaped(s@, i as int, esc) == slash_escaped(s@, 0, false),
        decreases n - i,
    {
        proof {
            reveal_strlit("\\/");
        }
        let c = s.get_char(i);
        let ghost before = out@;
        let ghost e0 = esc;
        if esc {
            out.append(s.substring_char(i, i + 1));
            esc = false;
        } else if c == '\\' {
            out.append(s.substring_char(i, i + 1));
            esc = true;
        } else if c == '/' {
            out.append("\\/");
        } else {
            out.append(s.substring_char(i, i + 1));
        }
        assert(s@.subrange(i as int, i + 1) =~= seq![c]);
        assert(out@ + slash_escaped(s@, i + 1, esc) =~= before + slash_escaped(s@, i as int, e0));
        i = i + 1;
    }
    assert(out@ + Seq::<char>::empty() =~= out@);
    out
}

/// `s` from index `i` on, with each `",  "` (comma, two spaces) replaced by
/// `", "`, scanning left to right without overlap.
pub open spec fn collapse_spec(s: Seq<char>, i: int) -> Seq<char>
    decreases s.len() - i,
{
    if i < 0 || i >= s.len() {
        Seq::empty()
    } else if i + 2 < s.len() && s[i] == ',' && s[i + 1] == ' ' && s[i + 2] == ' ' {
        seq![',', ' '] + collapse_spec(s, i + 3)
    } else {
        seq![s[i]] + collapse_spec(s, i + 1)
    }
}

/// Replaces each `",  "` in `s` by `", "`.
pub fn collapse_comma_spaces(s: &str) -> (r: String)
    ensures
        r@ == collapse_spec(s@, 0),
{
    let n = s.unicode_len();
    let mut out = String::new();
    let mut i: usize = 0;
    while i < n
        invariant
            n == s@.len(),
            i <= n,
            out@ + collapse_spec(s@, i as int) == collapse_spec(s@, 0),
        decreases n - i,
    {
        proof {
            reveal_strlit(", ");
        }
        let ghost before = out@;
        if n - i > 2 && s.get_char(i) == ',' && s.get_char(i + 1) == ' ' && s.get_char(i + 2)
            == ' ' {
            assert(collapse_spec(s@, i as int) == seq![',', ' '] + collapse_spec(s@, i + 3));
            out.append(", ");
            assert(out@ + collapse_spec(s@, i + 3) =~= before + collapse_spec(s@, i as int));
            i = i + 3;
        } else {
            assert(collapse_spec(s@, i as int) == seq![s@[i as int]] + collapse_spec(s@, i + 1));
            out.append(s.substring_char(i, i + 1));
            assert(out@ + collapse_spec(s@, i + 1) =~= before + collapse_spec(s@, i as int));
            i = i + 1;
        }
    }
    assert(out@ =~= out@ + collapse_spec(s@, n as int));
    out
}

/// Whether `s` is non-empty, starts with `first` and ends with `last`.
pub fn starts_and_ends_with(s: &str, first: char, last: char) -> (r: bool)
    ensures
        r == (s@.len() > 0 && s@[0] == first && s@.last() == last),
{
    let n = s.unicode_len();
    n > 0 && s.get_char(0) == first && s.get_char(n - 1) == last
}

} // verus!
