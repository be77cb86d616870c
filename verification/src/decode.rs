//! JSON deserialization of request bodies. A body is one object, with
//! whitespace allowed between tokens and nothing but whitespace after the
//! closing brace. Strings accept the named escapes (quote, backslash,
//! slash, `n`, `r`, `t`, `b`, `f`) and `\uXXXX` escapes with surrogate
//! pairs; an unescaped control character or a lone surrogate is an error.
//! Record fields must be strings, integers in `i32` range without a
//! leading zero, or `null`, and may not repeat; a member under any other
//! key may hold any JSON value and is ignored.
use vstd::prelude::*;

use crate::entities::{Book, BookV, Loan, LoanV, Review, ReviewV, User, UserV, book_v, loan_v,
    opt_text_v, review_v, user_v};
use crate::text::{clone_chars, eq_lit, lemma_skip_ws_bounds, skip_ws, skip_ws_from};

verus! {

/// A scalar member value of a decoded object.
pub enum Jv {
    Null,
    Int(i32),
    Str(Vec<char>),
    Other,
}

pub ghost enum JvV {
    Null,
    Int(i32),
    Str(Seq<char>),
    Other,
}

pub open spec fn jv_v(j: Jv) -> JvV {
    match j {
        Jv::Null => JvV::Null,
        Jv::Int(i) => JvV::Int(i),
        Jv::Str(s) => JvV::Str(s@),
        Jv::Other => JvV::Other,
    }
}

/// The character denoted by a backslash escape, when the escape is known.
pub open spec fn unesc(c: char) -> Option<char> {
    if c == '"' {
        Some('"')
    } else if c == '\\' {
        Some('\\')
    } else if c == '/' {
        Some('/')
    } else if c == 'n' {
        Some('\n')
    } else if c == 'r' {
        Some('\r')
    } else if c == 't' {
        Some('\t')
    } else if c == 'b' {
        Some('\u{8}')
    } else if c == 'f' {
        Some('\u{c}')
    } else {
        None
    }
}

pub open spec fn is_hex(c: char) -> bool {
    is_digit(c) || (97 <= c as u32 <= 102) || (65 <= c as u32 <= 70)
}

/// The value of one hexadecimal digit, either case.
pub open spec fn hex_val(c: char) -> nat {
    if is_digit(c) {
        (c as u32 - 48) as nat
    } else if 97 <= c as u32 {
        (c as u32 - 87) as nat
    } else {
        (c as u32 - 55) as nat
    }
}

pub open spec fn hex4_at(s: Seq<char>, i: int) -> bool {
    is_hex(s[i]) && is_hex(s[i + 1]) && is_hex(s[i + 2]) && is_hex(s[i + 3])
}

pub open spec fn hex4_val(s: Seq<char>, i: int) -> nat {
    hex_val(s[i]) * 4096 + hex_val(s[i + 1]) * 256 + hex_val(s[i + 2]) * 16 + hex_val(s[i + 3])
}

/// Parse a unicode escape whose backslash stands at `i`: four hex digits
/// denote a scalar value, or a high surrogate followed by a second escape
/// holding its low surrogate denotes a supplementary character. A lone
/// surrogate is an error.
pub open spec fn sp_uesc(s: Seq<char>, i: int) -> Option<(char, int)> {
    if i < 0 || i + 6 > s.len() {
        None
    } else if !hex4_at(s, i + 2) {
        None
    } else {
        let h = hex4_val(s, i + 2);
        if h < 0xD800 || (0xE000 <= h && h <= 0xFFFF) {
            Some((((h as u32) as char), i + 6))
        } else if h <= 0xDBFF {
            if i + 12 > s.len() {
                None
            } else if s[i + 6] != '\\' || s[i + 7] != 'u' {
                None
            } else if !hex4_at(s, i + 8) {
                None
            } else {
                let l = hex4_val(s, i + 8);
                if 0xDC00 <= l && l <= 0xDFFF {
                    Some(((((0x10000 + (h - 0xD800) * 0x400 + (l - 0xDC00)) as u32) as char), i
                        + 12))
                } else {
                    None
                }
            }
        } else {
            None
        }
    }
}

/// Relies on char::from_u32: a Unicode scalar value denotes the character
/// with that value.
#[verifier::external_body]
fn char_of_scalar(n: u32) -> (c: char)
    requires
        n < 0xD800 || (0xE000 <= n && n <= 0x10FFFF),
    ensures
        c as u32 == n,
{
    char::from_u32(n).unwrap()
}

fn hex_digit_x(c: char) -> (r: Option<u32>)
    ensures
        r is Some <==> is_hex(c),
        r matches Some(v) ==> v == hex_val(c),
{
    let u = c as u32;
    if 48 <= u && u <= 57 {
        Some(u - 48)
    } else if 97 <= u && u <= 102 {
        Some(u - 87)
    } else if 65 <= u && u <= 70 {
        Some(u - 55)
    } else {
        None
    }
}

fn hex4_x(s: &Vec<char>, j: usize) -> (r: Option<u32>)
    requires
        j + 4 <= s@.len(),
    ensures
        r is Some <==> hex4_at(s@, j as int),
        r matches Some(v) ==> v == hex4_val(s@, j as int) && v <= 0xFFFF,
{
    let n = s.len();
    let d0 = hex_digit_x(s[j]);
    let d1 = hex_digit_x(s[j + 1]);
    let d2 = hex_digit_x(s[j + 2]);
    let d3 = hex_digit_x(s[j + 3]);
    match (d0, d1, d2, d3) {
        (Some(a), Some(b), Some(c), Some(d)) => Some(a * 4096 + b * 256 + c * 16 + d),
        _ => None,
    }
}

fn p_uesc(s: &Vec<char>, i: usize) -> (r: Option<(char, usize)>)
    requires
        i < s@.len(),
    ensures
        r is Some <==> sp_uesc(s@, i as int) is Some,
        r matches Some(p) ==> sp_uesc(s@, i as int) == Some((p.0, p.1 as int)) && i < p.1
            <= s@.len(),
{
    if s.len() - i < 6 {
        return None;
    }
    let h = match hex4_x(s, i + 2) {
        Some(v) => v,
        None => {
            return None;
        },
    };
    if h < 0xD800 || (0xE000 <= h && h <= 0xFFFF) {
        let c = char_of_scalar(h);
        proof {
            vstd::utf8::char_u32_cast(c, h);
        }
        Some((c, i + 6))
    } else if h <= 0xDBFF {
        if s.len() - i < 12 {
            return None;
        }
        if !(s[i + 6] == '\\' && s[i + 7] == 'u') {
            return None;
        }
        let l = match hex4_x(s, i + 8) {
            Some(v) => v,
            None => {
                return None;
            },
        };
        if 0xDC00 <= l && l <= 0xDFFF {
            let n: u32 = 0x10000 + (h - 0xD800) * 1024 + (l - 0xDC00);
            let c = char_of_scalar(n);
            proof {
                vstd::utf8::char_u32_cast(c, n);
            }
            Some((c, i + 12))
        } else {
            None
        }
    } else {
        None
    }
}

/// Parse the inside of a string literal from position `i` (the first
/// character after the opening quote) up to the closing quote. Yields the
/// unescaped content and the position after the closing quote.
pub open spec fn sp_str_body(s: Seq<char>, i: int) -> Option<(Seq<char>, int)>
    decreases s.len() - i,
{
    if i < 0 || i >= s.len() {
        None
    } else if s[i] == '"' {
        Some((Seq::empty(), i + 1))
    } else if s[i] == '\\' {
        if i + 1 >= s.len() {
            None
        } else if s[i + 1] == 'u' {
            match sp_uesc(s, i) {
                Some(u) => {
                    if i < u.1 <= s.len() {
                        match sp_str_body(s, u.1) {
                            Some(p) => Some((seq![u.0] + p.0, p.1)),
                            None => None,
                        }
                    } else {
                        None
                    }
                },
                None => None,
            }
        } else {
            match unesc(s[i + 1]) {
                Some(c) => match sp_str_body(s, i + 2) {
                    Some(p) => Some((seq![c] + p.0, p.1)),
                    None => None,
                },
                None => None,
            }
        }
    } else if (s[i] as u32) < 32 {
        None
    } else {
        match sp_str_body(s, i + 1) {
            Some(p) => Some((seq![s[i]] + p.0, p.1)),
            None => None,
        }
    }
}

pub proof fn lemma_sp_str_body_advances(s: Seq<char>, i: int)
    requires
        0 <= i <= s.len(),
    ensures
        sp_str_body(s, i) matches Some(p) ==> i < p.1 <= s.len(),
    decreases s.len() - i,
{
    if i < s.len() && s[i] != '"' {
        if s[i] == '\\' {
            if i + 1 < s.len() {
                if s[i + 1] == 'u' {
                    let sp = sp_uesc(s, i);
                    if sp is Some {
                        let j = sp.unwrap().1;
                        if i < j <= s.len() {
                            lemma_sp_str_body_advances(s, j);
                        }
                    }
                } else {
                    lemma_sp_str_body_advances(s, i + 2);
                }
            }
        } else {
            lemma_sp_str_body_advances(s, i + 1);
        }
    }
}

/// Parse a quoted string starting at `i`.
pub open spec fn sp_string(s: Seq<char>, i: int) -> Option<(Seq<char>, int)> {
    if 0 <= i < s.len() && s[i] == '"' {
        sp_str_body(s, i + 1)
    } else {
        None
    }
}

pub proof fn lemma_sp_string_advances(s: Seq<char>, i: int)
    requires
        0 <= i <= s.len(),
    ensures
        sp_string(s, i) matches Some(p) ==> i < p.1 <= s.len(),
{
    if i < s.len() && s[i] == '"' {
        lemma_sp_str_body_advances(s, i + 1);
    }
}

fn unesc_x(c: char) -> (r: Option<char>)
    ensures
        r == unesc(c),
{
    if c == '"' {
        Some('"')
    } else if c == '\\' {
        Some('\\')
    } else if c == '/' {
        Some('/')
    } else if c == 'n' {
        Some('\n')
    } else if c == 'r' {
        Some('\r')
    } else if c == 't' {
        Some('\t')
    } else if c == 'b' {
        Some('\u{8}')
    } else if c == 'f' {
        Some('\u{c}')
    } else {
        None
    }
}

fn p_str_body(s: &Vec<char>, i: usize, out: &mut Vec<char>) -> (r: Option<usize>)
    requires
        i <= s@.len(),
    ensures
        r is Some <==> sp_str_body(s@, i as int) is Some,
        r matches Some(j) ==> (sp_str_body(s@, i as int) matches Some(p) && final(out)@ == old(
            out,
        )@ + p.0 && j as int == p.1 && j <= s@.len()),
    decreases s@.len() - i,
{
    if i >= s.len() {
        return None;
    }
    let c = s[i];
    if c == '"' {
        proof {
            assert(out@ =~= out@ + Seq::<char>::empty());
        }
        Some(i + 1)
    } else if c == '\\' {
        if i + 1 >= s.len() {
            return None;
        }
        if s[i + 1] == 'u' {
            match p_uesc(s, i) {
                Some((u, j)) => {
                    out.push(u);
                    let r = p_str_body(s, j, out);
                    proof {
                        let sp = sp_str_body(s@, i as int);
                        if sp is Some && sp_str_body(s@, j as int) is Some {
                            assert(out@ =~= old(out)@ + sp.unwrap().0);
                        }
                    }
                    r
                },
                None => None,
            }
        } else {
            match unesc_x(s[i + 1]) {
                Some(u) => {
                    out.push(u);
                    let r = p_str_body(s, i + 2, out);
                    proof {
                        let sp = sp_str_body(s@, i as int);
                        if sp is Some && sp_str_body(s@, i + 2) is Some {
                            assert(out@ =~= old(out)@ + sp.unwrap().0);
                        }
                    }
                    r
                },
                None => None,
            }
        }
    } else if (c as u32) < 32 {
        None
    } else {
        out.push(c);
        let r = p_str_body(s, i + 1, out);
        proof {
            let sp = sp_str_body(s@, i as int);
            if sp is Some && sp_str_body(s@, i + 1) is Some {
                assert(out@ =~= old(out)@ + sp.unwrap().0);
            }
        }
        r
    }
}

fn p_string(s: &Vec<char>, i: usize) -> (r: Option<(Vec<char>, usize)>)
    requires
        i <= s@.len(),
    ensures
        r is Some <==> sp_string(s@, i as int) is Some,
        r matches Some(p) ==> sp_string(s@, i as int) == Some((p.0@, p.1 as int)) && p.1
            <= s@.len(),
{
    if i < s.len() && s[i] == '"' {
        let mut out: Vec<char> = Vec::new();
        match p_str_body(s, i + 1, &mut out) {
            Some(j) => Some((out, j)),
            None => None,
        }
    } else {
        None
    }
}

pub open spec fn is_digit(c: char) -> bool {
    48 <= c as u32 <= 57
}

pub open spec fn digit_of(c: char) -> nat {
    (c as u32 - 48) as nat
}

/// First index at or after `i` holding a non-digit character.
pub open spec fn digits_end(s: Seq<char>, i: int) -> int
    decreases s.len() - i,
{
    if i < 0 {
        0
    } else if i >= s.len() {
        s.len() as int
    } else if is_digit(s[i]) {
        digits_end(s, i + 1)
    } else {
        i
    }
}

pub proof fn lemma_digits_end_bounds(s: Seq<char>, i: int)
    requires
        0 <= i <= s.len(),
    ensures
        i <= digits_end(s, i) <= s.len(),
        forall|j: int| i <= j < digits_end(s, i) ==> is_digit(s[j]),
        digits_end(s, i) < s.len() ==> !is_digit(s[digits_end(s, i)]),
    decreases s.len() - i,
{
    if i < s.len() && is_digit(s[i]) {
        lemma_digits_end_bounds(s, i + 1);
    }
}

pub(crate) fn digits_end_x(s: &Vec<char>, start: usize) -> (r: usize)
    requires
        start <= s@.len(),
    ensures
        r == digits_end(s@, start as int),
        start <= r <= s@.len(),
{
    let n = s.len();
    let mut i: usize = start;
    while i < n
        invariant
            start <= i <= n,
            n == s@.len(),
            digits_end(s@, start as int) == digits_end(s@, i as int),
        decreases n - i,
    {
        let c = s[i] as u32;
        if !(48 <= c && c <= 57) {
            return i;
        }
        i += 1;
    }
    n
}

/// The value of the digit run `s[i..j)`, most significant digit first.
pub open spec fn digits_val(s: Seq<char>, i: int, j: int) -> nat
    decreases j - i,
{
    if j <= i {
        0
    } else {
        digits_val(s, i, j - 1) * 10 + digit_of(s[j - 1])
    }
}

pub open spec fn p10(n: nat) -> nat
    decreases n,
{
    if n == 0 {
        1
    } else {
        10 * p10((n - 1) as nat)
    }
}

proof fn lemma_p10_vals()
    ensures
        p10(0) == 1,
        p10(1) == 10,
        p10(10) == 10000000000,
{
    assert(p10(0) == 1);
    assert(p10(1) == 10);
    assert(p10(2) == 100);
    assert(p10(3) == 1000);
    assert(p10(4) == 10000);
    assert(p10(5) == 100000);
    assert(p10(6) == 1000000);
    assert(p10(7) == 10000000);
    assert(p10(8) == 100000000);
    assert(p10(9) == 1000000000);
    assert(p10(10) == 10000000000);
}

proof fn lemma_p10_mono(a: nat, b: nat)
    requires
        a <= b,
    ensures
        p10(a) <= p10(b),
    decreases b,
{
    if a < b {
        lemma_p10_mono(a, (b - 1) as nat);
        assert(p10(b) == 10 * p10((b - 1) as nat));
    }
}

/// A digit run without a leading zero is at least `p10` of its length less one.
proof fn lemma_digits_val_lower(s: Seq<char>, i: int, j: int)
    requires
        0 <= i < j <= s.len(),
        is_digit(s[i]),
        digit_of(s[i]) >= 1,
        forall|k: int| i <= k < j ==> is_digit(s[k]),
    ensures
        digits_val(s, i, j) >= p10((j - i - 1) as nat),
    decreases j - i,
{
    if j - 1 == i {
        assert(digit_of(s[i]) >= 1);
    } else {
        lemma_digits_val_lower(s, i, j - 1);
        assert(p10((j - i - 1) as nat) == 10 * p10((j - i - 2) as nat));
    }
}

/// Parse an optionally signed decimal integer at `i`, JSON-style: no
/// leading zero, and the value must fit in `i32`.
pub open spec fn sp_int(s: Seq<char>, i: int) -> Option<(i32, int)> {
    if i < 0 || i >= s.len() {
        None
    } else {
        let neg = s[i] == '-';
        let d0 = if neg {
            i + 1
        } else {
            i
        };
        let j = digits_end(s, d0);
        if j == d0 {
            None
        } else if digit_of(s[d0]) == 0 && j > d0 + 1 {
            None
        } else {
            let m = digits_val(s, d0, j);
            let v = if neg {
                -(m as int)
            } else {
                m as int
            };
            if i32::MIN <= v <= i32::MAX {
                Some((v as i32, j))
            } else {
                None
            }
        }
    }
}

pub proof fn lemma_sp_int_advances(s: Seq<char>, i: int)
    requires
        0 <= i <= s.len(),
    ensures
        sp_int(s, i) matches Some(p) ==> i < p.1 <= s.len(),
{
    if i < s.len() {
        let neg = s[i] == '-';
        let d0 = if neg {
            i + 1
        } else {
            i
        };
        if d0 <= s.len() {
            lemma_digits_end_bounds(s, d0);
        }
    }
}

fn p_int(s: &Vec<char>, i: usize) -> (r: Option<(i32, usize)>)
    requires
        i <= s@.len(),
    ensures
        r is Some <==> sp_int(s@, i as int) is Some,
        r matches Some(p) ==> sp_int(s@, i as int) == Some((p.0, p.1 as int)) && p.1 <= s@.len(),
{
    if i >= s.len() {
        return None;
    }
    let neg = s[i] == '-';
    let d0: usize = if neg {
        i + 1
    } else {
        i
    };
    if d0 > s.len() {
        return None;
    }
    let j = digits_end_x(s, d0);
    proof {
        lemma_digits_end_bounds(s@, d0 as int);
    }
    if j == d0 {
        return None;
    }
    if (s[d0] as u32) == 48 && j > d0 + 1 {
        return None;
    }
    let count = j - d0;
    if count > 10 {
        proof {
            lemma_p10_vals();
            lemma_digits_val_lower(s@, d0 as int, j as int);
            lemma_p10_mono(10, (j - d0 - 1) as nat);
        }
        return None;
    }
    let mut acc: u64 = 0;
    let mut k: usize = d0;
    while k < j
        invariant
            d0 <= k <= j,
            j <= s@.len(),
            j - d0 <= 10,
            forall|t: int| d0 <= t < j ==> is_digit(s@[t]),
            acc == digits_val(s@, d0 as int, k as int),
            acc < p10((k - d0) as nat),
        decreases j - k,
    {
        let c = s[k] as u32;
        proof {
            lemma_p10_vals();
            lemma_p10_mono(((k - d0) as nat) + 1, 10);
            assert(p10(((k - d0) as nat) + 1) == 10 * p10((k - d0) as nat));
        }
        acc = acc * 10 + ((c - 48) as u64);
        k += 1;
    }
    proof {
        lemma_p10_vals();
        lemma_p10_mono((j - d0) as nat, 10);
    }
    let sv: i64 = if neg {
        -(acc as i64)
    } else {
        acc as i64
    };
    if -2147483648i64 <= sv && sv <= 2147483647i64 {
        Some((sv as i32, j))
    } else {
        None
    }
}

/// The extent of a JSON number at `i`: optional sign, an integer part
/// without a leading zero, then optional fraction and exponent parts.
pub open spec fn sp_skip_number(s: Seq<char>, i: int) -> Option<int> {
    if i < 0 || i >= s.len() {
        None
    } else {
        let d0 = if s[i] == '-' {
            i + 1
        } else {
            i
        };
        if d0 >= s.len() || !is_digit(s[d0]) {
            None
        } else {
            let j1 = digits_end(s, d0);
            if digit_of(s[d0]) == 0 && j1 > d0 + 1 {
                None
            } else {
                match sp_frac_end(s, j1) {
                    None => None,
                    Some(j2) => sp_exp_end(s, j2),
                }
            }
        }
    }
}

pub open spec fn sp_frac_end(s: Seq<char>, j: int) -> Option<int> {
    if 0 <= j < s.len() && s[j] == '.' {
        if digits_end(s, j + 1) == j + 1 {
            None
        } else {
            Some(digits_end(s, j + 1))
        }
    } else {
        Some(j)
    }
}

pub open spec fn sp_exp_end(s: Seq<char>, j: int) -> Option<int> {
    if 0 <= j < s.len() && (s[j] == 'e' || s[j] == 'E') {
        let e0 = if j + 1 < s.len() && (s[j + 1] == '+' || s[j + 1] == '-') {
            j + 2
        } else {
            j + 1
        };
        if digits_end(s, e0) == e0 {
            None
        } else {
            Some(digits_end(s, e0))
        }
    } else {
        Some(j)
    }
}

proof fn lemma_sp_skip_number_advances(s: Seq<char>, i: int)
    requires
        0 <= i <= s.len(),
    ensures
        sp_skip_number(s, i) matches Some(j) ==> i < j <= s.len(),
{
    if i < s.len() {
        let d0 = if s[i] == '-' {
            i + 1
        } else {
            i
        };
        if d0 < s.len() && is_digit(s[d0]) {
            lemma_digits_end_bounds(s, d0);
            let j1 = digits_end(s, d0);
            if 0 <= j1 < s.len() && s[j1] == '.' {
                lemma_digits_end_bounds(s, j1 + 1);
            }
            let fr = sp_frac_end(s, j1);
            if fr is Some {
                let j2 = fr.unwrap();
                if 0 <= j2 < s.len() && (s[j2] == 'e' || s[j2] == 'E') {
                    if j2 + 1 < s.len() && (s[j2 + 1] == '+' || s[j2 + 1] == '-') {
                        lemma_digits_end_bounds(s, j2 + 2);
                    } else {
                        lemma_digits_end_bounds(s, j2 + 1);
                    }
                }
            }
        }
    }
}

fn p_skip_number(s: &Vec<char>, i: usize) -> (r: Option<usize>)
    requires
        i <= s@.len(),
    ensures
        r is Some <==> sp_skip_number(s@, i as int) is Some,
        r matches Some(j) ==> j as int == sp_skip_number(s@, i as int).unwrap() && i < j
            <= s@.len(),
{
    let n = s.len();
    if i >= n {
        return None;
    }
    let d0: usize = if s[i] == '-' {
        i + 1
    } else {
        i
    };
    if d0 >= n {
        return None;
    }
    let cu = s[d0] as u32;
    if !(48 <= cu && cu <= 57) {
        return None;
    }
    let j1 = digits_end_x(s, d0);
    if cu == 48 && j1 > d0 + 1 {
        return None;
    }
    let j2: usize;
    if j1 < n && s[j1] == '.' {
        let f = digits_end_x(s, j1 + 1);
        if f == j1 + 1 {
            return None;
        }
        j2 = f;
    } else {
        j2 = j1;
    }
    if j2 < n && (s[j2] == 'e' || s[j2] == 'E') {
        let e0: usize = if j2 + 1 < n && (s[j2 + 1] == '+' || s[j2 + 1] == '-') {
            j2 + 2
        } else {
            j2 + 1
        };
        let g = digits_end_x(s, e0);
        if g == e0 {
            return None;
        }
        proof {
            lemma_sp_skip_number_advances(s@, i as int);
        }
        Some(g)
    } else {
        proof {
            lemma_sp_skip_number_advances(s@, i as int);
        }
        Some(j2)
    }
}

/// The extent of any JSON value at `i`, read only to be skipped: the
/// member grammar keeps scalar values and marks the rest.
pub open spec fn sp_skip_value(s: Seq<char>, i: int) -> Option<int>
    decreases s.len() - i, 0int,
{
    if i < 0 || i >= s.len() {
        None
    } else if s[i] == '"' {
        match sp_string(s, i) {
            Some(p) => Some(p.1),
            None => None,
        }
    } else if s[i] == '-' || is_digit(s[i]) {
        sp_skip_number(s, i)
    } else if s[i] == 'n' {
        if s.len() - i >= 4 && s[i + 1] == 'u' && s[i + 2] == 'l' && s[i + 3] == 'l' {
            Some(i + 4)
        } else {
            None
        }
    } else if s[i] == 't' {
        if s.len() - i >= 4 && s[i + 1] == 'r' && s[i + 2] == 'u' && s[i + 3] == 'e' {
            Some(i + 4)
        } else {
            None
        }
    } else if s[i] == 'f' {
        if s.len() - i >= 5 && s[i + 1] == 'a' && s[i + 2] == 'l' && s[i + 3] == 's' && s[i + 4]
            == 'e' {
            Some(i + 5)
        } else {
            None
        }
    } else if s[i] == '[' {
        sp_skip_array(s, i + 1)
    } else if s[i] == '{' {
        sp_skip_object(s, i + 1)
    } else {
        None
    }
}

/// After an opening bracket: an empty array, or values separated by commas.
pub open spec fn sp_skip_array(s: Seq<char>, i: int) -> Option<int>
    decreases s.len() - i, 1int,
{
    if i < 0 {
        None
    } else {
        let k = skip_ws(s, i);
        if k >= s.len() || k < i {
            None
        } else if s[k] == ']' {
            Some(k + 1)
        } else {
            match sp_skip_value(s, k) {
                Some(j) => {
                    if j > i && j <= s.len() {
                        sp_skip_array_tail(s, j)
                    } else {
                        None
                    }
                },
                None => None,
            }
        }
    }
}

pub open spec fn sp_skip_array_tail(s: Seq<char>, i: int) -> Option<int>
    decreases s.len() - i, 2int,
{
    if i < 0 {
        None
    } else {
        let m = skip_ws(s, i);
        if m >= s.len() || m < i {
            None
        } else if s[m] == ']' {
            Some(m + 1)
        } else if s[m] == ',' {
            let k = skip_ws(s, m + 1);
            if k > i && k <= s.len() {
                match sp_skip_value(s, k) {
                    Some(j) => {
                        if j > i && j <= s.len() {
                            sp_skip_array_tail(s, j)
                        } else {
                            None
                        }
                    },
                    None => None,
                }
            } else {
                None
            }
        } else {
            None
        }
    }
}

/// After an opening brace: an empty object, or members separated by commas.
pub open spec fn sp_skip_object(s: Seq<char>, i: int) -> Option<int>
    decreases s.len() - i, 1int,
{
    if i < 0 {
        None
    } else {
        let k = skip_ws(s, i);
        if k >= s.len() || k < i {
            None
        } else if s[k] == '}' {
            Some(k + 1)
        } else {
            match sp_string(s, k) {
                None => None,
                Some(kp) => {
                    let b = skip_ws(s, kp.1);
                    if b >= s.len() || s[b] != ':' {
                        None
                    } else {
                        let c0 = skip_ws(s, b + 1);
                        if c0 > i && c0 <= s.len() {
                            match sp_skip_value(s, c0) {
                                Some(j) => {
                                    if j > i && j <= s.len() {
                                        sp_skip_obj_tail(s, j)
                                    } else {
                                        None
                                    }
                                },
                                None => None,
                            }
                        } else {
                            None
                        }
                    }
                },
            }
        }
    }
}

pub open spec fn sp_skip_obj_tail(s: Seq<char>, i: int) -> Option<int>
    decreases s.len() - i, 2int,
{
    if i < 0 {
        None
    } else {
        let m = skip_ws(s, i);
        if m >= s.len() || m < i {
            None
        } else if s[m] == '}' {
            Some(m + 1)
        } else if s[m] == ',' {
            let k = skip_ws(s, m + 1);
            match sp_string(s, k) {
                None => None,
                Some(kp) => {
                    let b = skip_ws(s, kp.1);
                    if b >= s.len() || s[b] != ':' {
                        None
                    } else {
                        let c0 = skip_ws(s, b + 1);
                        if c0 > i && c0 <= s.len() {
                            match sp_skip_value(s, c0) {
                                Some(j) => {
                                    if j > i && j <= s.len() {
                                        sp_skip_obj_tail(s, j)
                                    } else {
                                        None
                                    }
                                },
                                None => None,
                            }
                        } else {
                            None
                        }
                    }
                },
            }
        } else {
            None
        }
    }
}

proof fn lemma_sp_skip_value_advances(s: Seq<char>, i: int)
    requires
        0 <= i <= s.len(),
    ensures
        sp_skip_value(s, i) matches Some(j) ==> i < j <= s.len(),
    decreases s.len() - i, 0int,
{
    if i < s.len() {
        lemma_sp_string_advances(s, i);
        lemma_sp_skip_number_advances(s, i);
        if s[i] == '[' {
            lemma_sp_skip_list_advances(s, i + 1, true);
        }
        if s[i] == '{' {
            lemma_sp_skip_list_advances(s, i + 1, false);
        }
    }
}

/// Advance facts for the four container-skipping forms at once: `head`
/// selects the form just after the opening token, its negation the form
/// after a member.
proof fn lemma_sp_skip_list_advances(s: Seq<char>, i: int, arr: bool)
    requires
        0 <= i <= s.len(),
    ensures
        arr ==> (sp_skip_array(s, i) matches Some(j) ==> i < j <= s.len()),
        arr ==> (sp_skip_array_tail(s, i) matches Some(j) ==> i < j <= s.len()),
        !arr ==> (sp_skip_object(s, i) matches Some(j) ==> i < j <= s.len()),
        !arr ==> (sp_skip_obj_tail(s, i) matches Some(j) ==> i < j <= s.len()),
    decreases s.len() - i, 3int,
{
    lemma_skip_ws_bounds(s, i);
    let k = skip_ws(s, i);
    if k < s.len() {
        lemma_sp_string_advances(s, k);
        if i <= k {
            lemma_sp_skip_value_advances(s, k);
        }
        if sp_skip_value(s, k) is Some {
            let j = sp_skip_value(s, k).unwrap();
            if i < j <= s.len() {
                lemma_sp_skip_list_advances(s, j, arr);
            }
        }
        match sp_string(s, k) {
            Some(kp) => {
                if 0 <= kp.1 <= s.len() {
                    lemma_skip_ws_bounds(s, kp.1);
                    let b = skip_ws(s, kp.1);
                    if b < s.len() && b + 1 <= s.len() {
                        lemma_skip_ws_bounds(s, b + 1);
                        let c0 = skip_ws(s, b + 1);
                        if c0 <= s.len() {
                            lemma_sp_skip_value_advances(s, c0);
                            if sp_skip_value(s, c0) is Some {
                                let j = sp_skip_value(s, c0).unwrap();
                                if i < j <= s.len() {
                                    lemma_sp_skip_list_advances(s, j, arr);
                                }
                            }
                        }
                    }
                }
            },
            None => {},
        }
        if k + 1 <= s.len() {
            lemma_skip_ws_bounds(s, k + 1);
            let k2 = skip_ws(s, k + 1);
            if k2 <= s.len() {
                lemma_sp_skip_value_advances(s, k2);
                if sp_skip_value(s, k2) is Some {
                    let j = sp_skip_value(s, k2).unwrap();
                    if i < j <= s.len() {
                        lemma_sp_skip_list_advances(s, j, arr);
                    }
                }
                match sp_string(s, k2) {
                    Some(kp) => {
                        if 0 <= kp.1 <= s.len() {
                            lemma_skip_ws_bounds(s, kp.1);
                            let b = skip_ws(s, kp.1);
                            if b < s.len() && b + 1 <= s.len() {
                                lemma_skip_ws_bounds(s, b + 1);
                                let c0 = skip_ws(s, b + 1);
                                if c0 <= s.len() {
                                    lemma_sp_skip_value_advances(s, c0);
                                    if sp_skip_value(s, c0) is Some {
                                        let j = sp_skip_value(s, c0).unwrap();
                                        if i < j <= s.len() {
                                            lemma_sp_skip_list_advances(s, j, arr);
                                        }
                                    }
                                }
                            }
                        }
                    },
                    None => {},
                }
            }
        }
    }
}

fn p_skip_value(s: &Vec<char>, i: usize) -> (r: Option<usize>)
    requires
        i <= s@.len(),
    ensures
        r is Some <==> sp_skip_value(s@, i as int) is Some,
        r matches Some(j) ==> j as int == sp_skip_value(s@, i as int).unwrap() && i < j
            <= s@.len(),
    decreases s@.len() - i, 0int,
{
    let n = s.len();
    if i >= n {
        return None;
    }
    let c = s[i];
    if c == '"' {
        proof {
            lemma_sp_string_advances(s@, i as int);
        }
        match p_string(s, i) {
            Some(p) => Some(p.1),
            None => None,
        }
    } else if c == '-' || (48 <= c as u32 && c as u32 <= 57) {
        p_skip_number(s, i)
    } else if c == 'n' {
        if n - i >= 4 && s[i + 1] == 'u' && s[i + 2] == 'l' && s[i + 3] == 'l' {
            Some(i + 4)
        } else {
            None
        }
    } else if c == 't' {
        if n - i >= 4 && s[i + 1] == 'r' && s[i + 2] == 'u' && s[i + 3] == 'e' {
            Some(i + 4)
        } else {
            None
        }
    } else if c == 'f' {
        if n - i >= 5 && s[i + 1] == 'a' && s[i + 2] == 'l' && s[i + 3] == 's' && s[i + 4] == 'e' {
            Some(i + 5)
        } else {
            None
        }
    } else if c == '[' {
        proof {
            lemma_sp_skip_list_advances(s@, i + 1, true);
        }
        p_skip_array(s, i + 1)
    } else if c == '{' {
        proof {
            lemma_sp_skip_list_advances(s@, i + 1, false);
        }
        p_skip_object(s, i + 1)
    } else {
        None
    }
}

fn p_skip_array(s: &Vec<char>, i: usize) -> (r: Option<usize>)
    requires
        i <= s@.len(),
    ensures
        r is Some <==> sp_skip_array(s@, i as int) is Some,
        r matches Some(j) ==> j as int == sp_skip_array(s@, i as int).unwrap() && j <= s@.len(),
    decreases s@.len() - i, 1int,
{
    let n = s.len();
    let k = skip_ws_from(s, i);
    let r: Option<usize> = if k >= n {
        None
    } else if s[k] == ']' {
        Some(k + 1)
    } else {
        match p_skip_value(s, k) {
            Some(j) => p_skip_array_tail(s, j),
            None => None,
        }
    };
    proof {
        assert(r is Some <==> sp_skip_array(s@, i as int) is Some);
        assert(r is Some ==> r.unwrap() as int == sp_skip_array(s@, i as int).unwrap());
    }
    r
}

fn p_skip_array_tail(s: &Vec<char>, i: usize) -> (r: Option<usize>)
    requires
        i <= s@.len(),
    ensures
        r is Some <==> sp_skip_array_tail(s@, i as int) is Some,
        r matches Some(j) ==> j as int == sp_skip_array_tail(s@, i as int).unwrap() && j
            <= s@.len(),
    decreases s@.len() - i, 2int,
{
    let n = s.len();
    let m = skip_ws_from(s, i);
    let r: Option<usize> = if m >= n {
        None
    } else if s[m] == ']' {
        Some(m + 1)
    } else if s[m] == ',' {
        let k = skip_ws_from(s, m + 1);
        match p_skip_value(s, k) {
            Some(j) => p_skip_array_tail(s, j),
            None => None,
        }
    } else {
        None
    };
    proof {
        assert(r is Some <==> sp_skip_array_tail(s@, i as int) is Some);
        assert(r is Some ==> r.unwrap() as int == sp_skip_array_tail(s@, i as int).unwrap());
    }
    r
}

fn p_skip_object(s: &Vec<char>, i: usize) -> (r: Option<usize>)
    requires
        i <= s@.len(),
    ensures
        r is Some <==> sp_skip_object(s@, i as int) is Some,
        r matches Some(j) ==> j as int == sp_skip_object(s@, i as int).unwrap() && j <= s@.len(),
    decreases s@.len() - i, 1int,
{
    let n = s.len();
    let k = skip_ws_from(s, i);
    let r: Option<usize> = if k >= n {
        None
    } else if s[k] == '}' {
        Some(k + 1)
    } else {
        match p_string(s, k) {
            None => None,
            Some((_, a)) => {
                proof {
                    lemma_sp_string_advances(s@, k as int);
                }
                let b = skip_ws_from(s, a);
                if b >= n {
                    None
                } else if s[b] != ':' {
                    None
                } else {
                    let c0 = skip_ws_from(s, b + 1);
                    match p_skip_value(s, c0) {
                        Some(j) => p_skip_obj_tail(s, j),
                        None => None,
                    }
                }
            },
        }
    };
    proof {
        assert(r is Some <==> sp_skip_object(s@, i as int) is Some);
        assert(r is Some ==> r.unwrap() as int == sp_skip_object(s@, i as int).unwrap());
    }
    r
}

fn p_skip_obj_tail(s: &Vec<char>, i: usize) -> (r: Option<usize>)
    requires
        i <= s@.len(),
    ensures
        r is Some <==> sp_skip_obj_tail(s@, i as int) is Some,
        r matches Some(j) ==> j as int == sp_skip_obj_tail(s@, i as int).unwrap() && j
            <= s@.len(),
    decreases s@.len() - i, 2int,
{
    let n = s.len();
    let m = skip_ws_from(s, i);
    let r: Option<usize> = if m >= n {
        None
    } else if s[m] == '}' {
        Some(m + 1)
    } else if s[m] == ',' {
        let k = skip_ws_from(s, m + 1);
        match p_string(s, k) {
            None => None,
            Some((_, a)) => {
                proof {
                    lemma_sp_string_advances(s@, k as int);
                }
                let b = skip_ws_from(s, a);
                if b >= n {
                    None
                } else if s[b] != ':' {
                    None
                } else {
                    let c0 = skip_ws_from(s, b + 1);
                    match p_skip_value(s, c0) {
                        Some(j) => p_skip_obj_tail(s, j),
                        None => None,
                    }
                }
            },
        }
    } else {
        None
    };
    proof {
        assert(r is Some <==> sp_skip_obj_tail(s@, i as int) is Some);
        assert(r is Some ==> r.unwrap() as int == sp_skip_obj_tail(s@, i as int).unwrap());
    }
    r
}

/// Parse one member value at `i`: strings, integers and `null` are kept;
/// booleans, non-integer numbers, arrays and objects are consumed and
/// marked, so that an ignored member may hold them while a record field
/// may not.
pub open spec fn sp_value(s: Seq<char>, i: int) -> Option<(JvV, int)> {
    if i < 0 || i >= s.len() {
        None
    } else if s[i] == '"' {
        match sp_string(s, i) {
            Some(p) => Some((JvV::Str(p.0), p.1)),
            None => None,
        }
    } else if s[i] == '-' || is_digit(s[i]) {
        match sp_skip_number(s, i) {
            None => None,
            Some(j) => match sp_int(s, i) {
                Some(p) => if p.1 == j {
                    Some((JvV::Int(p.0), j))
                } else {
                    Some((JvV::Other, j))
                },
                None => Some((JvV::Other, j)),
            },
        }
    } else if s[i] == 'n' {
        if i + 4 <= s.len() && s[i + 1] == 'u' && s[i + 2] == 'l' && s[i + 3] == 'l' {
            Some((JvV::Null, i + 4))
        } else {
            None
        }
    } else if s[i] == 't' {
        if i + 4 <= s.len() && s[i + 1] == 'r' && s[i + 2] == 'u' && s[i + 3] == 'e' {
            Some((JvV::Other, i + 4))
        } else {
            None
        }
    } else if s[i] == 'f' {
        if i + 5 <= s.len() && s[i + 1] == 'a' && s[i + 2] == 'l' && s[i + 3] == 's' && s[i + 4]
            == 'e' {
            Some((JvV::Other, i + 5))
        } else {
            None
        }
    } else if s[i] == '[' {
        match sp_skip_array(s, i + 1) {
            Some(j) => Some((JvV::Other, j)),
            None => None,
        }
    } else if s[i] == '{' {
        match sp_skip_object(s, i + 1) {
            Some(j) => Some((JvV::Other, j)),
            None => None,
        }
    } else {
        None
    }
}

pub proof fn lemma_sp_value_advances(s: Seq<char>, i: int)
    requires
        0 <= i <= s.len(),
    ensures
        sp_value(s, i) matches Some(p) ==> i < p.1 <= s.len(),
{
    lemma_sp_string_advances(s, i);
    lemma_sp_int_advances(s, i);
    lemma_sp_skip_number_advances(s, i);
    if i < s.len() && s[i] == '[' {
        lemma_sp_skip_list_advances(s, i + 1, true);
    }
    if i < s.len() && s[i] == '{' {
        lemma_sp_skip_list_advances(s, i + 1, false);
    }
}

fn p_value(s: &Vec<char>, i: usize) -> (r: Option<(Jv, usize)>)
    requires
        i <= s@.len(),
    ensures
        r is Some <==> sp_value(s@, i as int) is Some,
        r matches Some(p) ==> sp_value(s@, i as int) == Some((jv_v(p.0), p.1 as int)) && p.1
            <= s@.len(),
{
    if i >= s.len() {
        return None;
    }
    let c = s[i];
    let n = s.len();
    if c == '"' {
        match p_string(s, i) {
            Some(p) => Some((Jv::Str(p.0), p.1)),
            None => None,
        }
    } else if c == '-' || (48 <= (c as u32) && (c as u32) <= 57) {
        match p_skip_number(s, i) {
            None => None,
            Some(j) => match p_int(s, i) {
                Some(p) => {
                    if p.1 == j {
                        Some((Jv::Int(p.0), j))
                    } else {
                        Some((Jv::Other, j))
                    }
                },
                None => Some((Jv::Other, j)),
            },
        }
    } else if c == 'n' {
        if n - i >= 4 && s[i + 1] == 'u' && s[i + 2] == 'l' && s[i + 3] == 'l' {
            Some((Jv::Null, i + 4))
        } else {
            None
        }
    } else if c == 't' {
        if n - i >= 4 && s[i + 1] == 'r' && s[i + 2] == 'u' && s[i + 3] == 'e' {
            Some((Jv::Other, i + 4))
        } else {
            None
        }
    } else if c == 'f' {
        if n - i >= 5 && s[i + 1] == 'a' && s[i + 2] == 'l' && s[i + 3] == 's' && s[i + 4] == 'e' {
            Some((Jv::Other, i + 5))
        } else {
            None
        }
    } else if c == '[' {
        match p_skip_array(s, i + 1) {
            Some(j) => Some((Jv::Other, j)),
            None => None,
        }
    } else if c == '{' {
        match p_skip_object(s, i + 1) {
            Some(j) => Some((Jv::Other, j)),
            None => None,
        }
    } else {
        None
    }
}

/// The members of an object from position `i` (just after the opening
/// brace or a separating comma) up to and including the closing brace.
pub open spec fn sp_members(s: Seq<char>, i: int) -> Option<(Seq<(Seq<char>, JvV)>, int)>
    decreases s.len() - i,
{
    if i < 0 {
        None
    } else {
        let k = skip_ws(s, i);
        match sp_string(s, k) {
            None => None,
            Some(kp) => {
                let b = skip_ws(s, kp.1);
                if b >= s.len() || s[b] != ':' {
                    None
                } else {
                    let c0 = skip_ws(s, b + 1);
                    match sp_value(s, c0) {
                        None => None,
                        Some(vp) => {
                            let e = skip_ws(s, vp.1);
                            if e >= s.len() {
                                None
                            } else if s[e] == '}' {
                                Some((seq![(kp.0, vp.0)], e + 1))
                            } else if s[e] == ',' && e + 1 > i {
                                match sp_members(s, e + 1) {
                                    None => None,
                                    Some(rp) => Some((seq![(kp.0, vp.0)] + rp.0, rp.1)),
                                }
                            } else {
                                None
                            }
                        },
                    }
                }
            },
        }
    }
}

pub open spec fn members_v(ms: Seq<(Vec<char>, Jv)>) -> Seq<(Seq<char>, JvV)> {
    ms.map(|i: int, m: (Vec<char>, Jv)| (m.0@, jv_v(m.1)))
}

fn p_members(s: &Vec<char>, i: usize) -> (r: Option<(Vec<(Vec<char>, Jv)>, usize)>)
    requires
        i <= s@.len(),
    ensures
        r is Some <==> sp_members(s@, i as int) is Some,
        r matches Some(p) ==> sp_members(s@, i as int) == Some((members_v(p.0@), p.1 as int))
            && p.1 <= s@.len(),
    decreases s@.len() - i,
{
    let k = skip_ws_from(s, i);
    match p_string(s, k) {
        None => None,
        Some((key, a)) => {
            proof {
                lemma_sp_string_advances(s@, k as int);
            }
            let b = skip_ws_from(s, a);
            if b >= s.len() {
                return None;
            }
            if s[b] != ':' {
                return None;
            }
            let c0 = skip_ws_from(s, b + 1);
            match p_value(s, c0) {
                None => None,
                Some((val, d)) => {
                    proof {
                        lemma_sp_value_advances(s@, c0 as int);
                    }
                    let e = skip_ws_from(s, d);
                    if e >= s.len() {
                        return None;
                    }
                    if s[e] == '}' {
                        let mut ms: Vec<(Vec<char>, Jv)> = Vec::new();
                        let ghost kv = (key@, jv_v(val));
                        ms.push((key, val));
                        proof {
                            assert(members_v(ms@) =~= seq![kv]);
                        }
                        Some((ms, e + 1))
                    } else if s[e] == ',' {
                        match p_members(s, e + 1) {
                            None => None,
                            Some((rest, f)) => {
                                let ghost restv = members_v(rest@);
                                let ghost kv = (key@, jv_v(val));
                                let mut ms = rest;
                                ms.insert(0, (key, val));
                                proof {
                                    assert(members_v(ms@) =~= seq![kv] + restv);
                                }
                                Some((ms, f))
                            },
                        }
                    } else {
                        None
                    }
                },
            }
        },
    }
}

/// Parse a whole request body: one object, nothing but whitespace around it.
pub open spec fn sp_object(s: Seq<char>) -> Option<Seq<(Seq<char>, JvV)>> {
    let i = skip_ws(s, 0);
    if i >= s.len() || s[i] != '{' {
        None
    } else {
        let k = skip_ws(s, i + 1);
        if k < s.len() && s[k] == '}' {
            if skip_ws(s, k + 1) == s.len() {
                Some(Seq::empty())
            } else {
                None
            }
        } else {
            match sp_members(s, i + 1) {
                None => None,
                Some(p) => {
                    if skip_ws(s, p.1) == s.len() {
                        Some(p.0)
                    } else {
                        None
                    }
                },
            }
        }
    }
}

fn p_object(s: &Vec<char>) -> (r: Option<Vec<(Vec<char>, Jv)>>)
    ensures
        r is Some <==> sp_object(s@) is Some,
        r matches Some(ms) ==> sp_object(s@) == Some(members_v(ms@)),
{
    let i = skip_ws_from(s, 0);
    if i >= s.len() {
        return None;
    }
    if s[i] != '{' {
        return None;
    }
    let k = skip_ws_from(s, i + 1);
    if k < s.len() && s[k] == '}' {
        if skip_ws_from(s, k + 1) == s.len() {
            let ms: Vec<(Vec<char>, Jv)> = Vec::new();
            proof {
                assert(members_v(ms@) =~= Seq::<(Seq<char>, JvV)>::empty());
            }
            Some(ms)
        } else {
            None
        }
    } else {
        match p_members(s, i + 1) {
            None => None,
            Some((ms, j)) => {
                if skip_ws_from(s, j) == s.len() {
                    Some(ms)
                } else {
                    None
                }
            },
        }
    }
}

/// The member bound to key `k`: the first binding when the key repeats.
pub open spec fn lookup(ms: Seq<(Seq<char>, JvV)>, k: Seq<char>) -> Option<JvV>
    decreases ms.len(),
{
    if ms.len() == 0 {
        None
    } else if ms[0].0 == k {
        Some(ms[0].1)
    } else {
        lookup(ms.drop_first(), k)
    }
}

fn lookup_x(ms: &Vec<(Vec<char>, Jv)>, k: &str) -> (r: Option<usize>)
    ensures
        r matches Some(idx) ==> idx < ms@.len() && lookup(members_v(ms@), k@) == Some(
            jv_v(ms@[idx as int].1),
        ),
        r is None ==> lookup(members_v(ms@), k@) is None,
{
    let n = ms.len();
    let mut i: usize = 0;
    proof {
        assert(members_v(ms@).skip(0) =~= members_v(ms@));
    }
    while i < n
        invariant
            i <= n,
            n == ms@.len(),
            lookup(members_v(ms@), k@) == lookup(members_v(ms@).skip(i as int), k@),
        decreases n - i,
    {
        if eq_lit(&ms[i].0, k) {
            proof {
                assert(members_v(ms@).skip(i as int)[0] == members_v(ms@)[i as int]);
            }
            return Some(i);
        }
        proof {
            assert(members_v(ms@).skip(i as int)[0] == members_v(ms@)[i as int]);
            assert(members_v(ms@).skip(i as int).drop_first() =~= members_v(ms@).skip(i + 1));
        }
        i += 1;
    }
    proof {
        assert(members_v(ms@).skip(n as int) =~= Seq::<(Seq<char>, JvV)>::empty());
    }
    None
}

/// How many members bind key `k`: a record field bound twice is a
/// decode error, while repeated ignored keys are not.
pub open spec fn key_count(ms: Seq<(Seq<char>, JvV)>, k: Seq<char>) -> nat
    decreases ms.len(),
{
    if ms.len() == 0 {
        0
    } else {
        (if ms[0].0 == k {
            1nat
        } else {
            0nat
        }) + key_count(ms.drop_first(), k)
    }
}

fn count_key(ms: &Vec<(Vec<char>, Jv)>, k: &str) -> (r: usize)
    ensures
        r == key_count(members_v(ms@), k@),
{
    let n = ms.len();
    let mut i: usize = 0;
    let mut r: usize = 0;
    proof {
        assert(members_v(ms@).skip(0) =~= members_v(ms@));
    }
    while i < n
        invariant
            i <= n,
            r <= i,
            n == ms@.len(),
            key_count(members_v(ms@), k@) == r + key_count(members_v(ms@).skip(i as int), k@),
        decreases n - i,
    {
        proof {
            assert(members_v(ms@).skip(i as int)[0] == members_v(ms@)[i as int]);
            assert(members_v(ms@).skip(i as int).drop_first() =~= members_v(ms@).skip(i + 1));
        }
        if eq_lit(&ms[i].0, k) {
            r += 1;
        }
        i += 1;
    }
    proof {
        assert(members_v(ms@).skip(n as int) =~= Seq::<(Seq<char>, JvV)>::empty());
    }
    r
}

/// A required string member: anything else is a decode error.
pub open spec fn req_text_field(ms: Seq<(Seq<char>, JvV)>, k: Seq<char>) -> Option<Seq<char>> {
    match lookup(ms, k) {
        Some(JvV::Str(s)) => Some(s),
        _ => None,
    }
}

/// A nullable string member: `null` and absence both decode to `None`.
pub open spec fn opt_text_field(ms: Seq<(Seq<char>, JvV)>, k: Seq<char>) -> Option<
    Option<Seq<char>>,
> {
    match lookup(ms, k) {
        Some(JvV::Str(s)) => Some(Some(s)),
        Some(JvV::Null) => Some(None),
        None => Some(None),
        Some(JvV::Int(_)) => None,
        Some(JvV::Other) => None,
    }
}

/// A required integer member.
pub open spec fn req_int_field(ms: Seq<(Seq<char>, JvV)>, k: Seq<char>) -> Option<i32> {
    match lookup(ms, k) {
        Some(JvV::Int(i)) => Some(i),
        _ => None,
    }
}

/// A nullable integer member.
pub open spec fn opt_int_field(ms: Seq<(Seq<char>, JvV)>, k: Seq<char>) -> Option<Option<i32>> {
    match lookup(ms, k) {
        Some(JvV::Int(i)) => Some(Some(i)),
        Some(JvV::Null) => Some(None),
        None => Some(None),
        Some(JvV::Str(_)) => None,
        Some(JvV::Other) => None,
    }
}

fn text_field_x(ms: &Vec<(Vec<char>, Jv)>, k: &str) -> (r: Option<Vec<char>>)
    ensures
        r matches Some(v) ==> req_text_field(members_v(ms@), k@) == Some(v@),
        r is None ==> req_text_field(members_v(ms@), k@) is None,
{
    match lookup_x(ms, k) {
        Some(idx) => match &ms[idx].1 {
            Jv::Str(s) => Some(clone_chars(s)),
            _ => None,
        },
        None => None,
    }
}

fn opt_text_field_x(ms: &Vec<(Vec<char>, Jv)>, k: &str) -> (r: Option<Option<Vec<char>>>)
    ensures
        r matches Some(v) ==> opt_text_field(members_v(ms@), k@) == Some(opt_text_v(v)),
        r is None ==> opt_text_field(members_v(ms@), k@) is None,
{
    match lookup_x(ms, k) {
        Some(idx) => match &ms[idx].1 {
            Jv::Str(s) => Some(Some(clone_chars(s))),
            Jv::Null => Some(None),
            Jv::Int(_) => None,
            Jv::Other => None,
        },
        None => Some(None),
    }
}

fn int_field_x(ms: &Vec<(Vec<char>, Jv)>, k: &str) -> (r: Option<i32>)
    ensures
        r matches Some(v) ==> req_int_field(members_v(ms@), k@) == Some(v),
        r is None ==> req_int_field(members_v(ms@), k@) is None,
{
    match lookup_x(ms, k) {
        Some(idx) => match &ms[idx].1 {
            Jv::Int(i) => Some(*i),
            _ => None,
        },
        None => None,
    }
}

fn opt_int_field_x(ms: &Vec<(Vec<char>, Jv)>, k: &str) -> (r: Option<Option<i32>>)
    ensures
        r matches Some(v) ==> opt_int_field(members_v(ms@), k@) == Some(v),
        r is None ==> opt_int_field(members_v(ms@), k@) is None,
{
    match lookup_x(ms, k) {
        Some(idx) => match &ms[idx].1 {
            Jv::Int(i) => Some(Some(*i)),
            Jv::Null => Some(None),
            Jv::Str(_) => None,
            Jv::Other => None,
        },
        None => Some(None),
    }
}

/// The user record denoted by a decoded object, when well-typed.
pub open spec fn user_of_members(ms: Seq<(Seq<char>, JvV)>) -> Option<UserV> {
    if key_count(ms, "id"@) > 1 || key_count(ms, "name"@) > 1 || key_count(ms, "email"@) > 1 {
        None
    } else {
    match (opt_int_field(ms, "id"@), req_text_field(ms, "name"@), req_text_field(ms, "email"@)) {
        (Some(id), Some(n), Some(e)) => Some(UserV { id: id, name: n, email: e }),
        _ => None,
    }
    }
}

pub open spec fn decode_user_spec(s: Seq<char>) -> Option<UserV> {
    match sp_object(s) {
        Some(ms) => user_of_members(ms),
        None => None,
    }
}

pub fn decode_user(body: &Vec<char>) -> (r: Option<User>)
    ensures
        r matches Some(u) ==> decode_user_spec(body@) == Some(user_v(u)),
        r is None ==> decode_user_spec(body@) is None,
{
    match p_object(body) {
        None => None,
        Some(ms) => {
            if count_key(&ms, "id") > 1 || count_key(&ms, "name") > 1 || count_key(&ms, "email")
                > 1 {
                return None;
            }
            let id = opt_int_field_x(&ms, "id");
            let name = text_field_x(&ms, "name");
            let email = text_field_x(&ms, "email");
            match (id, name, email) {
                (Some(id), Some(name), Some(email)) => Some(User { id, name, email }),
                _ => None,
            }
        },
    }
}

/// The book record denoted by a decoded object, when well-typed.
pub open spec fn book_of_members(ms: Seq<(Seq<char>, JvV)>) -> Option<BookV> {
    if key_count(ms, "id"@) > 1 || key_count(ms, "title"@) > 1 || key_count(ms, "author"@) > 1
        || key_count(ms, "genre"@) > 1 {
        None
    } else {
    match (opt_int_field(ms, "id"@), req_text_field(ms, "title"@), req_text_field(
        ms,
        "author"@,
    ), opt_text_field(ms, "genre"@)) {
        (Some(id), Some(t), Some(a), Some(g)) => Some(
            BookV { id: id, title: t, author: a, genre: g },
        ),
        _ => None,
    }
    }
}

pub open spec fn decode_book_spec(s: Seq<char>) -> Option<BookV> {
    match sp_object(s) {
        Some(ms) => book_of_members(ms),
        None => None,
    }
}

pub fn decode_book(body: &Vec<char>) -> (r: Option<Book>)
    ensures
        r matches Some(b) ==> decode_book_spec(body@) == Some(book_v(b)),
        r is None ==> decode_book_spec(body@) is None,
{
    match p_object(body) {
        None => None,
        Some(ms) => {
            if count_key(&ms, "id") > 1 || count_key(&ms, "title") > 1 || count_key(
                &ms,
                "author",
            ) > 1 || count_key(&ms, "genre") > 1 {
                return None;
            }
            let id = opt_int_field_x(&ms, "id");
            let title = text_field_x(&ms, "title");
            let author = text_field_x(&ms, "author");
            let genre = opt_text_field_x(&ms, "genre");
            match (id, title, author, genre) {
                (Some(id), Some(title), Some(author), Some(genre)) => Some(
                    Book { id, title, author, genre },
                ),
                _ => None,
            }
        },
    }
}

/// The loan record denoted by a decoded object, when well-typed.
pub open spec fn loan_of_members(ms: Seq<(Seq<char>, JvV)>) -> Option<LoanV> {
    if key_count(ms, "id"@) > 1 || key_count(ms, "user_id"@) > 1 || key_count(ms, "book_id"@) > 1
        || key_count(ms, "checkout_date"@) > 1 || key_count(ms, "due_date"@) > 1 || key_count(
        ms,
        "return_date"@,
    ) > 1 {
        None
    } else {
    match (opt_int_field(ms, "id"@), req_int_field(ms, "user_id"@), req_int_field(
        ms,
        "book_id"@,
    ), req_text_field(ms, "checkout_date"@), req_text_field(ms, "due_date"@), opt_text_field(
        ms,
        "return_date"@,
    )) {
        (Some(id), Some(u), Some(b), Some(c), Some(d), Some(rd)) => Some(
            LoanV {
                id: id,
                user_id: u,
                book_id: b,
                checkout_date: c,
                due_date: d,
                return_date: rd,
            },
        ),
        _ => None,
    }
    }
}

pub open spec fn decode_loan_spec(s: Seq<char>) -> Option<LoanV> {
    match sp_object(s) {
        Some(ms) => loan_of_members(ms),
        None => None,
    }
}

pub fn decode_loan(body: &Vec<char>) -> (r: Option<Loan>)
    ensures
        r matches Some(l) ==> decode_loan_spec(body@) == Some(loan_v(l)),
        r is None ==> decode_loan_spec(body@) is None,
{
    match p_object(body) {
        None => None,
        Some(ms) => {
            if count_key(&ms, "id") > 1 || count_key(&ms, "user_id") > 1 || count_key(
                &ms,
                "book_id",
            ) > 1 || count_key(&ms, "checkout_date") > 1 || count_key(&ms, "due_date") > 1
                || count_key(&ms, "return_date") > 1 {
                return None;
            }
            let id = opt_int_field_x(&ms, "id");
            let user_id = int_field_x(&ms, "user_id");
            let book_id = int_field_x(&ms, "book_id");
            let checkout_date = text_field_x(&ms, "checkout_date");
            let due_date = text_field_x(&ms, "due_date");
            let return_date = opt_text_field_x(&ms, "return_date");
            match (id, user_id, book_id, checkout_date, due_date, return_date) {
                (
                    Some(id),
                    Some(user_id),
                    Some(book_id),
                    Some(checkout_date),
                    Some(due_date),
                    Some(return_date),
                ) => Some(Loan { id, user_id, book_id, checkout_date, due_date, return_date }),
                _ => None,
            }
        },
    }
}

/// The review record denoted by a decoded object, when well-typed.
pub open spec fn review_of_members(ms: Seq<(Seq<char>, JvV)>) -> Option<ReviewV> {
    if key_count(ms, "id"@) > 1 || key_count(ms, "book_id"@) > 1 || key_count(ms, "user_id"@) > 1
        || key_count(ms, "rating"@) > 1 || key_count(ms, "review_text"@) > 1 {
        None
    } else {
    match (opt_int_field(ms, "id"@), req_int_field(ms, "book_id"@), req_int_field(
        ms,
        "user_id"@,
    ), req_int_field(ms, "rating"@), opt_text_field(ms, "review_text"@)) {
        (Some(id), Some(b), Some(u), Some(ra), Some(rt)) => Some(
            ReviewV { id: id, book_id: b, user_id: u, rating: ra, review_text: rt },
        ),
        _ => None,
    }
    }
}

pub open spec fn decode_review_spec(s: Seq<char>) -> Option<ReviewV> {
    match sp_object(s) {
        Some(ms) => review_of_members(ms),
        None => None,
    }
}

pub fn decode_review(body: &Vec<char>) -> (r: Option<Review>)
    ensures
        r matches Some(rv) ==> decode_review_spec(body@) == Some(review_v(rv)),
        r is None ==> decode_review_spec(body@) is None,
{
    match p_object(body) {
        None => None,
        Some(ms) => {
            if count_key(&ms, "id") > 1 || count_key(&ms, "book_id") > 1 || count_key(
                &ms,
                "user_id",
            ) > 1 || count_key(&ms, "rating") > 1 || count_key(&ms, "review_text") > 1 {
                return None;
            }
            let id = opt_int_field_x(&ms, "id");
            let book_id = int_field_x(&ms, "book_id");
            let user_id = int_field_x(&ms, "user_id");
            let rating = int_field_x(&ms, "rating");
            let review_text = opt_text_field_x(&ms, "review_text");
            match (id, book_id, user_id, rating, review_text) {
                (Some(id), Some(book_id), Some(user_id), Some(rating), Some(review_text)) => Some(
                    Review { id, book_id, user_id, rating, review_text },
                ),
                _ => None,
            }
        },
    }
}

} // verus!
