//! Character-sequence utilities shared by the request parser, the router
//! and the JSON codec: prefix tests, literal appends and character search.
use vstd::prelude::*;

verus! {

/// `p` is an initial segment of `s`.
pub open spec fn is_prefix_of(p: Seq<char>, s: Seq<char>) -> bool {
    p.len() <= s.len() && s.subrange(0, p.len() as int) == p
}

/// First index at or after `i` holding `c`; `s.len()` when there is none.
pub open spec fn find_from(s: Seq<char>, c: char, i: int) -> int
    decreases s.len() - i,
{
    if i < 0 {
        0
    } else if i >= s.len() {
        s.len() as int
    } else if s[i] == c {
        i
    } else {
        find_from(s, c, i + 1)
    }
}

/// Does `v` begin with the literal `p`?
pub fn starts_with_lit(v: &Vec<char>, p: &str) -> (b: bool)
    ensures
        b == is_prefix_of(p@, v@),
{
    let n = p.unicode_len();
    if n > v.len() {
        return false;
    }
    let mut i: usize = 0;
    while i < n
        invariant
            i <= n,
            n == p@.len(),
            n <= v@.len(),
            forall|j: int| 0 <= j < i ==> v@[j] == p@[j],
        decreases n - i,
    {
        if v[i] != p.get_char(i) {
            proof {
                assert(v@.subrange(0, n as int)[i as int] != p@[i as int]);
            }
            return false;
        }
        i += 1;
    }
    proof {
        assert(v@.subrange(0, n as int) =~= p@);
    }
    true
}

/// Append the literal `p` to `v`.
pub fn append_lit(v: &mut Vec<char>, p: &str)
    ensures
        final(v)@ == old(v)@ + p@,
{
    let n = p.unicode_len();
    let mut i: usize = 0;
    while i < n
        invariant
            i <= n,
            n == p@.len(),
            v@ == old(v)@ + p@.subrange(0, i as int),
        decreases n - i,
    {
        let c = p.get_char(i);
        v.push(c);
        proof {
            assert(old(v)@ + p@.subrange(0, i as int) + seq![p@[i as int]] =~= old(v)@
                + p@.subrange(0, i + 1 as int));
        }
        i += 1;
    }
    proof {
        assert(p@.subrange(0, n as int) =~= p@);
    }
}

/// Append a copy of `w` to `v`.
pub fn append_chars(v: &mut Vec<char>, w: &Vec<char>)
    ensures
        final(v)@ == old(v)@ + w@,
{
    let n = w.len();
    let mut i: usize = 0;
    while i < n
        invariant
            i <= n,
            n == w@.len(),
            v@ == old(v)@ + w@.subrange(0, i as int),
        decreases n - i,
    {
        let c = w[i];
        v.push(c);
        proof {
            assert(old(v)@ + w@.subrange(0, i as int) + seq![w@[i as int]] =~= old(v)@
                + w@.subrange(0, i + 1 as int));
        }
        i += 1;
    }
    proof {
        assert(w@.subrange(0, n as int) =~= w@);
    }
}

/// First index at or after `start` holding `c`, `v.len()` when absent.
pub fn find_char_from(v: &Vec<char>, c: char, start: usize) -> (r: usize)
    requires
        start <= v@.len(),
    ensures
        r == find_from(v@, c, start as int),
{
    let n = v.len();
    let mut i: usize = start;
    while i < n
        invariant
            start <= i <= n,
            n == v@.len(),
            find_from(v@, c, start as int) == find_from(v@, c, i as int),
        decreases n - i,
    {
        if v[i] == c {
            return i;
        }
        i += 1;
    }
    n
}

/// ASCII whitespace as the request grammar recognises it.
pub open spec fn is_ws(c: char) -> bool {
    c == ' ' || c == '\t' || c == '\r' || c == '\n'
}

pub fn ws_char(c: char) -> (b: bool)
    ensures
        b == is_ws(c),
{
    c == ' ' || c == '\t' || c == '\r' || c == '\n'
}

/// First index at or after `i` holding a non-whitespace character.
pub open spec fn skip_ws(s: Seq<char>, i: int) -> int
    decreases s.len() - i,
{
    if i < 0 {
        0
    } else if i >= s.len() {
        s.len() as int
    } else if is_ws(s[i]) {
        skip_ws(s, i + 1)
    } else {
        i
    }
}

pub proof fn lemma_skip_ws_bounds(s: Seq<char>, i: int)
    requires
        0 <= i <= s.len(),
    ensures
        i <= skip_ws(s, i) <= s.len(),
    decreases s.len() - i,
{
    if i < s.len() && is_ws(s[i]) {
        lemma_skip_ws_bounds(s, i + 1);
    }
}

pub fn skip_ws_from(v: &Vec<char>, start: usize) -> (r: usize)
    requires
        start <= v@.len(),
    ensures
        r == skip_ws(v@, start as int),
        start <= r <= v@.len(),
{
    let n = v.len();
    let mut i: usize = start;
    while i < n
        invariant
            start <= i <= n,
            n == v@.len(),
            skip_ws(v@, start as int) == skip_ws(v@, i as int),
        decreases n - i,
    {
        if !ws_char(v[i]) {
            return i;
        }
        i += 1;
    }
    n
}

/// Is `v` exactly the literal `p`?
pub fn eq_lit(v: &Vec<char>, p: &str) -> (b: bool)
    ensures
        b == (v@ == p@),
{
    let n = p.unicode_len();
    if n != v.len() {
        return false;
    }
    let mut i: usize = 0;
    while i < n
        invariant
            i <= n,
            n == p@.len(),
            n == v@.len(),
            forall|j: int| 0 <= j < i ==> v@[j] == p@[j],
        decreases n - i,
    {
        if v[i] != p.get_char(i) {
            return false;
        }
        i += 1;
    }
    proof {
        assert(v@ =~= p@);
    }
    true
}

/// A fresh copy of `v`.
pub fn clone_chars(v: &Vec<char>) -> (r: Vec<char>)
    ensures
        r@ == v@,
{
    let mut o: Vec<char> = Vec::new();
    append_chars(&mut o, v);
    o
}

} // verus!
