//! JSON serialization of entity records: the canonical text form used in
//! response bodies. Members appear in declaration order; absent nullable
//! values serialize as `null`. The double quote, the backslash and the
//! named control characters are escaped; all other characters are copied
//! verbatim.
use vstd::prelude::*;

use crate::entities::{Book, BookV, Loan, LoanV, Review, ReviewV, User, UserV, book_v, loan_v,
    opt_text_v, review_v, user_v};
use crate::text::{append_chars, append_lit};

verus! {

pub open spec fn digit_char(d: nat) -> char {
    if d == 0 {
        '0'
    } else if d == 1 {
        '1'
    } else if d == 2 {
        '2'
    } else if d == 3 {
        '3'
    } else if d == 4 {
        '4'
    } else if d == 5 {
        '5'
    } else if d == 6 {
        '6'
    } else if d == 7 {
        '7'
    } else if d == 8 {
        '8'
    } else {
        '9'
    }
}

/// Decimal representation of a natural number, most significant digit first.
pub open spec fn dec_rep(n: nat) -> Seq<char>
    decreases n,
{
    if n < 10 {
        seq![digit_char(n)]
    } else {
        dec_rep(n / 10).push(digit_char(n % 10))
    }
}

/// Decimal representation of an integer, with a leading minus when negative.
pub open spec fn int_rep(i: int) -> Seq<char> {
    if i < 0 {
        seq!['-'] + dec_rep((-i) as nat)
    } else {
        dec_rep(i as nat)
    }
}

pub open spec fn opt_int_rep(o: Option<i32>) -> Seq<char> {
    match o {
        Some(i) => int_rep(i as int),
        None => "null"@,
    }
}

/// A lowercase hexadecimal digit.
pub open spec fn hex_char(d: nat) -> char {
    if d == 0 {
        '0'
    } else if d == 1 {
        '1'
    } else if d == 2 {
        '2'
    } else if d == 3 {
        '3'
    } else if d == 4 {
        '4'
    } else if d == 5 {
        '5'
    } else if d == 6 {
        '6'
    } else if d == 7 {
        '7'
    } else if d == 8 {
        '8'
    } else if d == 9 {
        '9'
    } else if d == 10 {
        'a'
    } else if d == 11 {
        'b'
    } else if d == 12 {
        'c'
    } else if d == 13 {
        'd'
    } else if d == 14 {
        'e'
    } else {
        'f'
    }
}

/// The serialization of one character inside a JSON string.
pub open spec fn esc_char(c: char) -> Seq<char> {
    if c == '"' {
        seq!['\\', '"']
    } else if c == '\\' {
        seq!['\\', '\\']
    } else if c == '\n' {
        seq!['\\', 'n']
    } else if c == '\r' {
        seq!['\\', 'r']
    } else if c == '\t' {
        seq!['\\', 't']
    } else if c == '\u{8}' {
        seq!['\\', 'b']
    } else if c == '\u{c}' {
        seq!['\\', 'f']
    } else if (c as u32) < 32 {
        seq![
            '\\',
            'u',
            '0',
            '0',
            hex_char((c as u32 / 16) as nat),
            hex_char((c as u32 % 16) as nat),
        ]
    } else {
        seq![c]
    }
}

pub open spec fn esc_from(s: Seq<char>, i: int) -> Seq<char>
    decreases s.len() - i,
{
    if i < 0 || i >= s.len() {
        Seq::empty()
    } else {
        esc_char(s[i]) + esc_from(s, i + 1)
    }
}

/// A quoted, escaped JSON string.
pub open spec fn str_rep(s: Seq<char>) -> Seq<char> {
    seq!['"'] + esc_from(s, 0) + seq!['"']
}

pub open spec fn opt_str_rep(o: Option<Seq<char>>) -> Seq<char> {
    match o {
        Some(s) => str_rep(s),
        None => "null"@,
    }
}

pub fn hex_char_x(d: u32) -> (c: char)
    requires
        d < 16,
    ensures
        c == hex_char(d as nat),
{
    if d == 0 {
        '0'
    } else if d == 1 {
        '1'
    } else if d == 2 {
        '2'
    } else if d == 3 {
        '3'
    } else if d == 4 {
        '4'
    } else if d == 5 {
        '5'
    } else if d == 6 {
        '6'
    } else if d == 7 {
        '7'
    } else if d == 8 {
        '8'
    } else if d == 9 {
        '9'
    } else if d == 10 {
        'a'
    } else if d == 11 {
        'b'
    } else if d == 12 {
        'c'
    } else if d == 13 {
        'd'
    } else if d == 14 {
        'e'
    } else {
        'f'
    }
}

pub fn digit_char_x(d: u32) -> (c: char)
    requires
        d < 10,
    ensures
        c == digit_char(d as nat),
{
    if d == 0 {
        '0'
    } else if d == 1 {
        '1'
    } else if d == 2 {
        '2'
    } else if d == 3 {
        '3'
    } else if d == 4 {
        '4'
    } else if d == 5 {
        '5'
    } else if d == 6 {
        '6'
    } else if d == 7 {
        '7'
    } else if d == 8 {
        '8'
    } else {
        '9'
    }
}

pub fn push_dec(v: &mut Vec<char>, n: u32)
    ensures
        final(v)@ == old(v)@ + dec_rep(n as nat),
    decreases n,
{
    if n < 10 {
        let c = digit_char_x(n);
        v.push(c);
        proof {
            assert(v@ =~= old(v)@ + dec_rep(n as nat));
        }
    } else {
        push_dec(v, n / 10);
        let c = digit_char_x(n % 10);
        v.push(c);
        proof {
            assert(v@ =~= old(v)@ + dec_rep(n as nat));
        }
    }
}

pub fn push_int(v: &mut Vec<char>, i: i32)
    ensures
        final(v)@ == old(v)@ + int_rep(i as int),
{
    if i >= 0 {
        push_dec(v, i as u32);
    } else {
        v.push('-');
        let m: u32 = (-(i as i64)) as u32;
        proof {
            assert(m as nat == (-(i as int)) as nat);
        }
        push_dec(v, m);
        proof {
            assert(v@ =~= old(v)@ + int_rep(i as int));
        }
    }
}

pub fn push_opt_int(v: &mut Vec<char>, o: &Option<i32>)
    ensures
        final(v)@ == old(v)@ + opt_int_rep(*o),
{
    match o {
        Some(i) => push_int(v, *i),
        None => append_lit(v, "null"),
    }
}

pub fn push_esc_from(v: &mut Vec<char>, s: &Vec<char>, i: usize)
    requires
        i <= s@.len(),
    ensures
        final(v)@ == old(v)@ + esc_from(s@, i as int),
    decreases s@.len() - i,
{
    if i < s.len() {
        let c = s[i];
        if c == '"' {
            v.push('\\');
            v.push('"');
        } else if c == '\\' {
            v.push('\\');
            v.push('\\');
        } else if c == '\n' {
            v.push('\\');
            v.push('n');
        } else if c == '\r' {
            v.push('\\');
            v.push('r');
        } else if c == '\t' {
            v.push('\\');
            v.push('t');
        } else if c == '\u{8}' {
            v.push('\\');
            v.push('b');
        } else if c == '\u{c}' {
            v.push('\\');
            v.push('f');
        } else if (c as u32) < 32 {
            v.push('\\');
            v.push('u');
            v.push('0');
            v.push('0');
            let hi = hex_char_x((c as u32) / 16);
            v.push(hi);
            let lo = hex_char_x((c as u32) % 16);
            v.push(lo);
        } else {
            v.push(c);
        }
        proof {
            assert(v@ =~= old(v)@ + esc_char(s@[i as int]));
        }
        push_esc_from(v, s, i + 1);
        proof {
            assert(v@ =~= old(v)@ + esc_from(s@, i as int));
        }
    }
}

pub fn push_str_rep(v: &mut Vec<char>, s: &Vec<char>)
    ensures
        final(v)@ == old(v)@ + str_rep(s@),
{
    v.push('"');
    push_esc_from(v, s, 0);
    v.push('"');
    proof {
        assert(v@ =~= old(v)@ + str_rep(s@));
    }
}

pub fn push_opt_str(v: &mut Vec<char>, o: &Option<Vec<char>>)
    ensures
        final(v)@ == old(v)@ + opt_str_rep(opt_text_v(*o)),
{
    match o {
        Some(s) => push_str_rep(v, s),
        None => append_lit(v, "null"),
    }
}

/// The JSON object form of a user record.
pub open spec fn user_json(u: UserV) -> Seq<char> {
    "{\"id\":"@ + opt_int_rep(u.id) + ",\"name\":"@ + str_rep(u.name) + ",\"email\":"@ + str_rep(
        u.email,
    ) + "}"@
}

pub fn encode_user(u: &User) -> (r: Vec<char>)
    ensures
        r@ == user_json(user_v(*u)),
{
    let mut v: Vec<char> = Vec::new();
    append_lit(&mut v, "{\"id\":");
    push_opt_int(&mut v, &u.id);
    append_lit(&mut v, ",\"name\":");
    push_str_rep(&mut v, &u.name);
    append_lit(&mut v, ",\"email\":");
    push_str_rep(&mut v, &u.email);
    append_lit(&mut v, "}");
    proof {
        assert(v@ =~= user_json(user_v(*u)));
    }
    v
}

/// The JSON object form of a book record.
pub open spec fn book_json(b: BookV) -> Seq<char> {
    "{\"id\":"@ + opt_int_rep(b.id) + ",\"title\":"@ + str_rep(b.title) + ",\"author\":"@
        + str_rep(b.author) + ",\"genre\":"@ + opt_str_rep(b.genre) + "}"@
}

pub fn encode_book(b: &Book) -> (r: Vec<char>)
    ensures
        r@ == book_json(book_v(*b)),
{
    let mut v: Vec<char> = Vec::new();
    append_lit(&mut v, "{\"id\":");
    push_opt_int(&mut v, &b.id);
    append_lit(&mut v, ",\"title\":");
    push_str_rep(&mut v, &b.title);
    append_lit(&mut v, ",\"author\":");
    push_str_rep(&mut v, &b.author);
    append_lit(&mut v, ",\"genre\":");
    push_opt_str(&mut v, &b.genre);
    append_lit(&mut v, "}");
    proof {
        assert(v@ =~= book_json(book_v(*b)));
    }
    v
}

/// The JSON object form of a loan record.
pub open spec fn loan_json(l: LoanV) -> Seq<char> {
    "{\"id\":"@ + opt_int_rep(l.id) + ",\"user_id\":"@ + int_rep(l.user_id as int)
        + ",\"book_id\":"@ + int_rep(l.book_id as int) + ",\"checkout_date\":"@ + str_rep(
        l.checkout_date,
    ) + ",\"due_date\":"@ + str_rep(l.due_date) + ",\"return_date\":"@ + opt_str_rep(l.return_date)
        + "}"@
}

pub fn encode_loan(l: &Loan) -> (r: Vec<char>)
    ensures
        r@ == loan_json(loan_v(*l)),
{
    let mut v: Vec<char> = Vec::new();
    append_lit(&mut v, "{\"id\":");
    push_opt_int(&mut v, &l.id);
    append_lit(&mut v, ",\"user_id\":");
    push_int(&mut v, l.user_id);
    append_lit(&mut v, ",\"book_id\":");
    push_int(&mut v, l.book_id);
    append_lit(&mut v, ",\"checkout_date\":");
    push_str_rep(&mut v, &l.checkout_date);
    append_lit(&mut v, ",\"due_date\":");
    push_str_rep(&mut v, &l.due_date);
    append_lit(&mut v, ",\"return_date\":");
    push_opt_str(&mut v, &l.return_date);
    append_lit(&mut v, "}");
    proof {
        assert(v@ =~= loan_json(loan_v(*l)));
    }
    v
}

/// The JSON object form of a review record.
pub open spec fn review_json(r: ReviewV) -> Seq<char> {
    "{\"id\":"@ + opt_int_rep(r.id) + ",\"book_id\":"@ + int_rep(r.book_id as int)
        + ",\"user_id\":"@ + int_rep(r.user_id as int) + ",\"rating\":"@ + int_rep(r.rating as int)
        + ",\"review_text\":"@ + opt_str_rep(r.review_text) + "}"@
}

pub fn encode_review(r: &Review) -> (res: Vec<char>)
    ensures
        res@ == review_json(review_v(*r)),
{
    let mut v: Vec<char> = Vec::new();
    append_lit(&mut v, "{\"id\":");
    push_opt_int(&mut v, &r.id);
    append_lit(&mut v, ",\"book_id\":");
    push_int(&mut v, r.book_id);
    append_lit(&mut v, ",\"user_id\":");
    push_int(&mut v, r.user_id);
    append_lit(&mut v, ",\"rating\":");
    push_int(&mut v, r.rating);
    append_lit(&mut v, ",\"review_text\":");
    push_opt_str(&mut v, &r.review_text);
    append_lit(&mut v, "}");
    proof {
        assert(v@ =~= review_json(review_v(*r)));
    }
    v
}

/// The members of a JSON array of user records, from index `i` on.
pub open spec fn user_items(us: Seq<UserV>, i: int) -> Seq<char>
    decreases us.len() - i,
{
    if i < 0 || i >= us.len() {
        Seq::empty()
    } else if i == us.len() - 1 {
        user_json(us[i])
    } else {
        user_json(us[i]) + seq![','] + user_items(us, i + 1)
    }
}

/// The JSON array form of a sequence of user records.
pub open spec fn users_json(us: Seq<UserV>) -> Seq<char> {
    seq!['['] + user_items(us, 0) + seq![']']
}

pub open spec fn users_v(us: Seq<User>) -> Seq<UserV> {
    us.map(|i: int, u: User| user_v(u))
}

fn push_user_items(v: &mut Vec<char>, us: &Vec<User>, i: usize)
    requires
        i <= us@.len(),
    ensures
        final(v)@ == old(v)@ + user_items(users_v(us@), i as int),
    decreases us@.len() - i,
{
    if i < us.len() {
        let e = encode_user(&us[i]);
        append_chars(v, &e);
        if i + 1 < us.len() {
            v.push(',');
        }
        push_user_items(v, us, i + 1);
        proof {
            assert(users_v(us@)[i as int] == user_v(us@[i as int]));
            assert(v@ =~= old(v)@ + user_items(users_v(us@), i as int));
        }
    }
}

pub fn encode_users(us: &Vec<User>) -> (r: Vec<char>)
    ensures
        r@ == users_json(users_v(us@)),
{
    let mut v: Vec<char> = Vec::new();
    v.push('[');
    push_user_items(&mut v, us, 0);
    v.push(']');
    proof {
        assert(v@ =~= users_json(users_v(us@)));
    }
    v
}

/// The members of a JSON array of book records, from index `i` on.
pub open spec fn book_items(bs: Seq<BookV>, i: int) -> Seq<char>
    decreases bs.len() - i,
{
    if i < 0 || i >= bs.len() {
        Seq::empty()
    } else if i == bs.len() - 1 {
        book_json(bs[i])
    } else {
        book_json(bs[i]) + seq![','] + book_items(bs, i + 1)
    }
}

/// The JSON array form of a sequence of book records.
pub open spec fn books_json(bs: Seq<BookV>) -> Seq<char> {
    seq!['['] + book_items(bs, 0) + seq![']']
}

pub open spec fn books_v(bs: Seq<Book>) -> Seq<BookV> {
    bs.map(|i: int, b: Book| book_v(b))
}

fn push_book_items(v: &mut Vec<char>, bs: &Vec<Book>, i: usize)
    requires
        i <= bs@.len(),
    ensures
        final(v)@ == old(v)@ + book_items(books_v(bs@), i as int),
    decreases bs@.len() - i,
{
    if i < bs.len() {
        let e = encode_book(&bs[i]);
        append_chars(v, &e);
        if i + 1 < bs.len() {
            v.push(',');
        }
        push_book_items(v, bs, i + 1);
        proof {
            assert(books_v(bs@)[i as int] == book_v(bs@[i as int]));
            assert(v@ =~= old(v)@ + book_items(books_v(bs@), i as int));
        }
    }
}

pub fn encode_books(bs: &Vec<Book>) -> (r: Vec<char>)
    ensures
        r@ == books_json(books_v(bs@)),
{
    let mut v: Vec<char> = Vec::new();
    v.push('[');
    push_book_items(&mut v, bs, 0);
    v.push(']');
    proof {
        assert(v@ =~= books_json(books_v(bs@)));
    }
    v
}

/// The members of a JSON array of loan records, from index `i` on.
pub open spec fn loan_items(ls: Seq<LoanV>, i: int) -> Seq<char>
    decreases ls.len() - i,
{
    if i < 0 || i >= ls.len() {
        Seq::empty()
    } else if i == ls.len() - 1 {
        loan_json(ls[i])
    } else {
        loan_json(ls[i]) + seq![','] + loan_items(ls, i + 1)
    }
}

/// The JSON array form of a sequence of loan records.
pub open spec fn loans_json(ls: Seq<LoanV>) -> Seq<char> {
    seq!['['] + loan_items(ls, 0) + seq![']']
}

pub open spec fn loans_v(ls: Seq<Loan>) -> Seq<LoanV> {
    ls.map(|i: int, l: Loan| loan_v(l))
}

fn push_loan_items(v: &mut Vec<char>, ls: &Vec<Loan>, i: usize)
    requires
        i <= ls@.len(),
    ensures
        final(v)@ == old(v)@ + loan_items(loans_v(ls@), i as int),
    decreases ls@.len() - i,
{
    if i < ls.len() {
        let e = encode_loan(&ls[i]);
        append_chars(v, &e);
        if i + 1 < ls.len() {
            v.push(',');
        }
        push_loan_items(v, ls, i + 1);
        proof {
            assert(loans_v(ls@)[i as int] == loan_v(ls@[i as int]));
            assert(v@ =~= old(v)@ + loan_items(loans_v(ls@), i as int));
        }
    }
}

pub fn encode_loans(ls: &Vec<Loan>) -> (r: Vec<char>)
    ensures
        r@ == loans_json(loans_v(ls@)),
{
    let mut v: Vec<char> = Vec::new();
    v.push('[');
    push_loan_items(&mut v, ls, 0);
    v.push(']');
    proof {
        assert(v@ =~= loans_json(loans_v(ls@)));
    }
    v
}

/// The members of a JSON array of review records, from index `i` on.
pub open spec fn review_items(rs: Seq<ReviewV>, i: int) -> Seq<char>
    decreases rs.len() - i,
{
    if i < 0 || i >= rs.len() {
        Seq::empty()
    } else if i == rs.len() - 1 {
        review_json(rs[i])
    } else {
        review_json(rs[i]) + seq![','] + review_items(rs, i + 1)
    }
}

/// The JSON array form of a sequence of review records.
pub open spec fn reviews_json(rs: Seq<ReviewV>) -> Seq<char> {
    seq!['['] + review_items(rs, 0) + seq![']']
}

pub open spec fn reviews_v(rs: Seq<Review>) -> Seq<ReviewV> {
    rs.map(|i: int, r: Review| review_v(r))
}

fn push_review_items(v: &mut Vec<char>, rs: &Vec<Review>, i: usize)
    requires
        i <= rs@.len(),
    ensures
        final(v)@ == old(v)@ + review_items(reviews_v(rs@), i as int),
    decreases rs@.len() - i,
{
    if i < rs.len() {
        let e = encode_review(&rs[i]);
        append_chars(v, &e);
        if i + 1 < rs.len() {
            v.push(',');
        }
        push_review_items(v, rs, i + 1);
        proof {
            assert(reviews_v(rs@)[i as int] == review_v(rs@[i as int]));
            assert(v@ =~= old(v)@ + review_items(reviews_v(rs@), i as int));
        }
    }
}

pub fn encode_reviews(rs: &Vec<Review>) -> (r: Vec<char>)
    ensures
        r@ == reviews_json(reviews_v(rs@)),
{
    let mut v: Vec<char> = Vec::new();
    v.push('[');
    push_review_items(&mut v, rs, 0);
    v.push(']');
    proof {
        assert(v@ =~= reviews_json(reviews_v(rs@)));
    }
    v
}

} // verus!
