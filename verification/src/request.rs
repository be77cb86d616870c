//! Request-text parsing: the body is the text after the first blank-line
//! separator, and the identifier of an item route is the path segment
//! after the fourth slash, cut at the next slash and stripped to its
//! first whitespace-delimited token.
use vstd::prelude::*;

use crate::decode::{digits_end, digits_val, is_digit, lemma_digits_end_bounds};
use crate::text::{find_from, find_char_from};

verus! {

/// A blank-line separator stands at `i`.
pub open spec fn sep_at(s: Seq<char>, i: int) -> bool {
    0 <= i && i + 4 <= s.len() && s[i] == '\r' && s[i + 1] == '\n' && s[i + 2] == '\r' && s[i + 3]
        == '\n'
}

/// The first separator position at or after `i`; `s.len()` when none.
pub open spec fn find_sep(s: Seq<char>, i: int) -> int
    decreases s.len() - i,
{
    if i < 0 {
        0
    } else if i + 4 > s.len() {
        s.len() as int
    } else if sep_at(s, i) {
        i
    } else {
        find_sep(s, i + 1)
    }
}

/// The request body: the text after the first blank-line separator, empty
/// when the request has none.
pub open spec fn body_of_spec(s: Seq<char>) -> Seq<char> {
    let i = find_sep(s, 0);
    if sep_at(s, i) {
        s.subrange(i + 4, s.len() as int)
    } else {
        Seq::empty()
    }
}

pub fn body_of(s: &Vec<char>) -> (r: Vec<char>)
    ensures
        r@ == body_of_spec(s@),
{
    let n = s.len();
    let mut i: usize = 0;
    while n - i >= 4 && !(s[i] == '\r' && s[i + 1] == '\n' && s[i + 2] == '\r' && s[i + 3] == '\n')
        invariant
            i <= n,
            n == s@.len(),
            find_sep(s@, 0) == find_sep(s@, i as int),
        decreases n - i,
    {
        i += 1;
    }
    if n - i >= 4 {
        let mut r: Vec<char> = Vec::new();
        let mut j: usize = i + 4;
        while j < n
            invariant
                i + 4 <= j <= n,
                n == s@.len(),
                r@ == s@.subrange(i + 4, j as int),
            decreases n - j,
        {
            let c = s[j];
            r.push(c);
            proof {
                assert(s@.subrange(i + 4, j as int).push(s@[j as int]) =~= s@.subrange(
                    i + 4,
                    j + 1,
                ));
            }
            j += 1;
        }
        r
    } else {
        proof {
            assert(!sep_at(s@, find_sep(s@, i as int)));
        }
        Vec::new()
    }
}

/// Unicode whitespace, as the identifier token is split on it: the
/// characters with the White_Space property.
pub open spec fn is_uws(c: char) -> bool {
    let u = c as u32;
    (9 <= u && u <= 13) || u == 32 || u == 133 || u == 160 || u == 0x1680 || (0x2000 <= u && u
        <= 0x200A) || u == 0x2028 || u == 0x2029 || u == 0x202F || u == 0x205F || u == 0x3000
}

fn uws_char(c: char) -> (b: bool)
    ensures
        b == is_uws(c),
{
    let u = c as u32;
    (9 <= u && u <= 13) || u == 32 || u == 133 || u == 160 || u == 0x1680 || (0x2000 <= u && u
        <= 0x200A) || u == 0x2028 || u == 0x2029 || u == 0x202F || u == 0x205F || u == 0x3000
}

/// First index at or after `i` holding a non-whitespace character.
pub open spec fn skip_uws(s: Seq<char>, i: int) -> int
    decreases s.len() - i,
{
    if i < 0 {
        0
    } else if i >= s.len() {
        s.len() as int
    } else if is_uws(s[i]) {
        skip_uws(s, i + 1)
    } else {
        i
    }
}

fn skip_uws_from(v: &Vec<char>, start: usize) -> (r: usize)
    requires
        start <= v@.len(),
    ensures
        r == skip_uws(v@, start as int),
        start <= r <= v@.len(),
{
    let n = v.len();
    let mut i: usize = start;
    while i < n
        invariant
            start <= i <= n,
            n == v@.len(),
            skip_uws(v@, start as int) == skip_uws(v@, i as int),
        decreases n - i,
    {
        if !uws_char(v[i]) {
            return i;
        }
        i += 1;
    }
    n
}

/// First index at or after `i` holding a whitespace character.
pub open spec fn find_ws(s: Seq<char>, i: int) -> int
    decreases s.len() - i,
{
    if i < 0 {
        0
    } else if i >= s.len() {
        s.len() as int
    } else if is_uws(s[i]) {
        i
    } else {
        find_ws(s, i + 1)
    }
}

fn find_ws_x(s: &Vec<char>, start: usize) -> (r: usize)
    requires
        start <= s@.len(),
    ensures
        r == find_ws(s@, start as int),
        start <= r <= s@.len(),
{
    let n = s.len();
    let mut i: usize = start;
    while i < n
        invariant
            start <= i <= n,
            n == s@.len(),
            find_ws(s@, start as int) == find_ws(s@, i as int),
        decreases n - i,
    {
        if uws_char(s[i]) {
            return i;
        }
        i += 1;
    }
    n
}

/// The first whitespace-delimited token of `s[a..b)`.
pub open spec fn token_of(s: Seq<char>, a: int, b: int) -> Seq<char> {
    let t0 = skip_uws(s, a);
    if t0 >= b {
        Seq::empty()
    } else {
        let t1 = find_ws(s, t0);
        if t1 <= b {
            s.subrange(t0, t1)
        } else {
            s.subrange(t0, b)
        }
    }
}

/// The raw identifier text of a request: the path segment after the
/// fourth slash, cut at the next slash, stripped to its first token.
/// Empty when the request line has fewer than four slashes.
pub open spec fn get_id_spec(s: Seq<char>) -> Seq<char> {
    let p0 = find_from(s, '/', 0);
    if p0 >= s.len() {
        Seq::empty()
    } else {
        let p1 = find_from(s, '/', p0 + 1);
        if p1 >= s.len() {
            Seq::empty()
        } else {
            let p2 = find_from(s, '/', p1 + 1);
            if p2 >= s.len() {
                Seq::empty()
            } else {
                let p3 = find_from(s, '/', p2 + 1);
                if p3 >= s.len() {
                    Seq::empty()
                } else {
                    token_of(s, p3 + 1, find_from(s, '/', p3 + 1))
                }
            }
        }
    }
}

fn copy_range(s: &Vec<char>, from: usize, to: usize) -> (r: Vec<char>)
    requires
        from <= to <= s@.len(),
    ensures
        r@ == s@.subrange(from as int, to as int),
{
    let mut r: Vec<char> = Vec::new();
    let mut j: usize = from;
    while j < to
        invariant
            from <= j <= to <= s@.len(),
            r@ == s@.subrange(from as int, j as int),
        decreases to - j,
    {
        let c = s[j];
        r.push(c);
        proof {
            assert(s@.subrange(from as int, j as int).push(s@[j as int]) =~= s@.subrange(
                from as int,
                j + 1,
            ));
        }
        j += 1;
    }
    r
}

/// The identifier text of the request path, as the item routes read it.
pub fn get_id(request: &Vec<char>) -> (r: Vec<char>)
    ensures
        r@ == get_id_spec(request@),
{
    let n = request.len();
    let p0 = find_char_from(request, '/', 0);
    if p0 >= n {
        return Vec::new();
    }
    let p1 = find_char_from(request, '/', p0 + 1);
    if p1 >= n {
        return Vec::new();
    }
    let p2 = find_char_from(request, '/', p1 + 1);
    if p2 >= n {
        return Vec::new();
    }
    let p3 = find_char_from(request, '/', p2 + 1);
    if p3 >= n {
        return Vec::new();
    }
    let b = find_char_from(request, '/', p3 + 1);
    let t0 = skip_uws_from(request, p3 + 1);
    if t0 >= b {
        return Vec::new();
    }
    let t1 = find_ws_x(request, t0);
    if t1 <= b {
        copy_range(request, t0, t1)
    } else {
        copy_range(request, t0, b)
    }
}

/// The integer an identifier token denotes: an optional sign, then one or
/// more digits, and a value representable in `i32`.
pub open spec fn id_of_token(t: Seq<char>) -> Option<i32> {
    if t.len() == 0 {
        None
    } else {
        let d0: int = if t[0] == '+' || t[0] == '-' {
            1
        } else {
            0
        };
        if d0 >= t.len() || digits_end(t, d0) != t.len() {
            None
        } else {
            let m = digits_val(t, d0, t.len() as int);
            let v: int = if t[0] == '-' {
                -(m as int)
            } else {
                m as int
            };
            if i32::MIN <= v <= i32::MAX {
                Some(v as i32)
            } else {
                None
            }
        }
    }
}

proof fn lemma_digits_val_mono(s: Seq<char>, i: int, k: int, j: int)
    requires
        i <= k <= j,
    ensures
        digits_val(s, i, k) <= digits_val(s, i, j),
    decreases j - k,
{
    if k < j {
        lemma_digits_val_mono(s, i, k, j - 1);
        assert(digits_val(s, i, j) == digits_val(s, i, j - 1) * 10 + crate::decode::digit_of(
            s[j - 1],
        ));
        assert(digits_val(s, i, j - 1) * 10 >= digits_val(s, i, j - 1));
    }
}

/// Parse an identifier token.
pub fn parse_id(t: &Vec<char>) -> (r: Option<i32>)
    ensures
        r == id_of_token(t@),
{
    let n = t.len();
    if n == 0 {
        return None;
    }
    let signed = t[0] == '+' || t[0] == '-';
    let neg = t[0] == '-';
    let d0: usize = if signed {
        1
    } else {
        0
    };
    if d0 >= n {
        return None;
    }
    let e = crate::decode::digits_end_x(t, d0);
    if e != n {
        return None;
    }
    proof {
        lemma_digits_end_bounds(t@, d0 as int);
    }
    let mut acc: u64 = 0;
    let mut k: usize = d0;
    while k < n
        invariant
            d0 <= k <= n,
            0 < n == t@.len(),
            d0 < n,
            d0 as int == (if t@[0] == '+' || t@[0] == '-' {
                1int
            } else {
                0int
            }),
            neg == (t@[0] == '-'),
            digits_end(t@, d0 as int) == n,
            forall|j: int| d0 <= j < n ==> is_digit(t@[j]),
            acc == digits_val(t@, d0 as int, k as int),
            acc <= 2147483648,
        decreases n - k,
    {
        let c = t[k] as u32;
        acc = acc * 10 + ((c - 48) as u64);
        k += 1;
        if acc > 2147483648 {
            proof {
                lemma_digits_val_mono(t@, d0 as int, k as int, n as int);
                assert(digits_val(t@, d0 as int, n as int) > 2147483648);
            }
            return None;
        }
    }
    let sv: i64 = if neg {
        -(acc as i64)
    } else {
        acc as i64
    };
    if -2147483648i64 <= sv && sv <= 2147483647i64 {
        Some(sv as i32)
    } else {
        None
    }
}

/// The identifier of an item request, when its path carries one.
pub open spec fn path_id_spec(s: Seq<char>) -> Option<i32> {
    id_of_token(get_id_spec(s))
}

pub fn path_id(request: &Vec<char>) -> (r: Option<i32>)
    ensures
        r == path_id_spec(request@),
{
    let t = get_id(request);
    parse_id(&t)
}

} // verus!
