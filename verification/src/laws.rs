//! The service-level laws, each proved over the same spec functions the
//! public contracts use.
use vstd::prelude::*;

use crate::decode::{digit_of, digits_end, digits_val, hex4_at, hex4_val, hex_val, is_digit,
    is_hex, sp_int, sp_skip_number, sp_str_body, sp_string, sp_uesc, unesc};
use crate::encode::{book_json, dec_rep, digit_char, esc_char, esc_from, hex_char, int_rep,
    loan_json, review_json, str_rep, user_json};
use crate::entities::{BookV, EntityKind, LoanV, PayloadV, ReviewV, UserV, kind_of};
use crate::router::{OpKind, Route, route_of};
use crate::service::{DbOpV, PendingV, StepV, deleted_msg, ie_resp, nf_resp, not_found_msg,
    ok_resp, resume_spec, start_spec, updated_msg};
use crate::store::{DbOutcomeV, SqlValueV, opt_text_param};
use crate::text::is_prefix_of;

verus! {

/// The row a successful insert of payload `pl` leaves in the store, as
/// the re-select and the read statements return it: the assigned id,
/// then the payload's columns in declaration order.
pub open spec fn row_of_payload(pl: PayloadV, id: i32) -> Seq<SqlValueV> {
    match pl {
        PayloadV::PUser(u) => seq![
            SqlValueV::VInt(id),
            SqlValueV::VText(u.name),
            SqlValueV::VText(u.email),
        ],
        PayloadV::PBook(b) => seq![
            SqlValueV::VInt(id),
            SqlValueV::VText(b.title),
            SqlValueV::VText(b.author),
            opt_text_param(b.genre),
        ],
        PayloadV::PLoan(l) => seq![
            SqlValueV::VInt(id),
            SqlValueV::VInt(l.user_id),
            SqlValueV::VInt(l.book_id),
            SqlValueV::VText(l.checkout_date),
            SqlValueV::VText(l.due_date),
            opt_text_param(l.return_date),
        ],
        PayloadV::PReview(r) => seq![
            SqlValueV::VInt(id),
            SqlValueV::VInt(r.book_id),
            SqlValueV::VInt(r.user_id),
            SqlValueV::VInt(r.rating),
            opt_text_param(r.review_text),
        ],
    }
}

/// The JSON body of payload `pl` carrying assigned id `id`.
pub open spec fn payload_json_with_id(pl: PayloadV, id: i32) -> Seq<char> {
    match pl {
        PayloadV::PUser(u) => user_json(UserV { id: Some(id), ..u }),
        PayloadV::PBook(b) => book_json(BookV { id: Some(id), ..b }),
        PayloadV::PLoan(l) => loan_json(LoanV { id: Some(id), ..l }),
        PayloadV::PReview(r) => review_json(ReviewV { id: Some(id), ..r }),
    }
}

/// Create followed by read: when the store holds exactly the inserted
/// payload under the assigned id, both the create's re-select step and a
/// later read-by-id step reply success with the payload plus that id.
pub proof fn lemma_create_then_read(pl: PayloadV, id: i32)
    ensures
        resume_spec(
            PendingV::Reselect(kind_of(pl), id),
            DbOutcomeV::Rows(seq![row_of_payload(pl, id)]),
        ) == StepV::Reply(ok_resp(payload_json_with_id(pl, id))),
        resume_spec(
            PendingV::First(DbOpV::Read(kind_of(pl), id)),
            DbOutcomeV::Rows(seq![row_of_payload(pl, id)]),
        ) == StepV::Reply(ok_resp(payload_json_with_id(pl, id))),
{
}

/// The create session reaches that re-select: an insert outcome holding
/// the one-column id row steps to the re-select query for the same kind
/// and id.
pub proof fn lemma_create_reselects(pl: PayloadV, id: i32)
    ensures
        resume_spec(
            PendingV::First(DbOpV::Create(pl)),
            DbOutcomeV::Rows(seq![seq![SqlValueV::VInt(id)]]),
        ) == StepV::Query(
            crate::store::reselect_stmt_spec(kind_of(pl), id),
            PendingV::Reselect(kind_of(pl), id),
        ),
{
}

/// Update on an id that matched no row still reports success: the
/// affected-row count is not consulted.
pub proof fn lemma_update_missing_id_succeeds(pl: PayloadV, id: i32, count: u64)
    ensures
        resume_spec(PendingV::First(DbOpV::Update(id, pl)), DbOutcomeV::Count(count))
            == StepV::Reply(ok_resp(updated_msg(kind_of(pl)))),
{
}

/// Delete is not-found exactly when it affected no row, and a read after
/// a delete that removed the row is not-found.
pub proof fn lemma_delete_then_read(e: EntityKind, id: i32, count: u64)
    ensures
        count == 0 ==> resume_spec(PendingV::First(DbOpV::Delete(e, id)), DbOutcomeV::Count(count))
            == StepV::Reply(nf_resp(not_found_msg(e))),
        count > 0 ==> resume_spec(PendingV::First(DbOpV::Delete(e, id)), DbOutcomeV::Count(count))
            == StepV::Reply(ok_resp(deleted_msg(e))),
        resume_spec(
            PendingV::First(DbOpV::Read(e, id)),
            DbOutcomeV::Rows(Seq::empty()),
        ) == StepV::Reply(nf_resp(not_found_msg(e))),
{
}

/// Read-all over an empty table replies success with an empty JSON
/// array, not an error.
pub proof fn lemma_read_all_empty(e: EntityKind)
    ensures
        resume_spec(PendingV::First(DbOpV::ReadAll(e)), DbOutcomeV::Rows(Seq::empty()))
            == StepV::Reply(ok_resp(seq!['[', ']'])),
{
    assert(seq!['['] + Seq::<char>::empty() + seq![']'] =~= seq!['[', ']']);
}

/// Two patterns that disagree at one position cannot both be prefixes.
proof fn lemma_prefix_excludes(p: Seq<char>, q: Seq<char>, s: Seq<char>, j: int)
    requires
        is_prefix_of(p, s),
        0 <= j < p.len(),
        j < q.len(),
        p[j] != q[j],
    ensures
        !is_prefix_of(q, s),
{
    if is_prefix_of(q, s) {
        assert(s.subrange(0, p.len() as int)[j] == s[j]);
        assert(s.subrange(0, q.len() as int)[j] == s[j]);
    }
}

/// Route precedence, for every collection: an item path (trailing slash
/// present) dispatches to read-by-id, and a collection path that is not
/// an item path dispatches to read-all, never the other way round.
pub proof fn lemma_route_precedence(s: Seq<char>)
    ensures
        is_prefix_of("GET /api/rust/users/"@, s) ==> route_of(s) == Route::Dispatch(
            EntityKind::UserKind,
            OpKind::ReadOp,
        ),
        is_prefix_of("GET /api/rust/users"@, s) && !is_prefix_of("GET /api/rust/users/"@, s)
            ==> route_of(s) == Route::Dispatch(EntityKind::UserKind, OpKind::ReadAllOp),
        is_prefix_of("GET /api/rust/books/"@, s) ==> route_of(s) == Route::Dispatch(
            EntityKind::BookKind,
            OpKind::ReadOp,
        ),
        is_prefix_of("GET /api/rust/books"@, s) && !is_prefix_of("GET /api/rust/books/"@, s)
            ==> route_of(s) == Route::Dispatch(EntityKind::BookKind, OpKind::ReadAllOp),
        is_prefix_of("GET /api/rust/loans/"@, s) ==> route_of(s) == Route::Dispatch(
            EntityKind::LoanKind,
            OpKind::ReadOp,
        ),
        is_prefix_of("GET /api/rust/loans"@, s) && !is_prefix_of("GET /api/rust/loans/"@, s)
            ==> route_of(s) == Route::Dispatch(EntityKind::LoanKind, OpKind::ReadAllOp),
        is_prefix_of("GET /api/rust/reviews/"@, s) ==> route_of(s) == Route::Dispatch(
            EntityKind::ReviewKind,
            OpKind::ReadOp,
        ),
        is_prefix_of("GET /api/rust/reviews"@, s) && !is_prefix_of("GET /api/rust/reviews/"@, s)
            ==> route_of(s) == Route::Dispatch(EntityKind::ReviewKind, OpKind::ReadAllOp),
{
    reveal_strlit("OPTIONS");
    reveal_strlit("GET /api/rust/users");
    reveal_strlit("GET /api/rust/users/");
    reveal_strlit("POST /api/rust/users");
    reveal_strlit("PUT /api/rust/users/");
    reveal_strlit("DELETE /api/rust/users/");
    reveal_strlit("GET /api/rust/books");
    reveal_strlit("GET /api/rust/books/");
    reveal_strlit("POST /api/rust/books");
    reveal_strlit("PUT /api/rust/books/");
    reveal_strlit("DELETE /api/rust/books/");
    reveal_strlit("GET /api/rust/loans");
    reveal_strlit("GET /api/rust/loans/");
    reveal_strlit("POST /api/rust/loans");
    reveal_strlit("PUT /api/rust/loans/");
    reveal_strlit("DELETE /api/rust/loans/");
    reveal_strlit("GET /api/rust/reviews");
    reveal_strlit("GET /api/rust/reviews/");
    reveal_strlit("POST /api/rust/reviews");
    reveal_strlit("PUT /api/rust/reviews/");
    reveal_strlit("DELETE /api/rust/reviews/");
    if is_prefix_of("GET /api/rust/users/"@, s) {
        lemma_prefix_excludes("GET /api/rust/users/"@, "OPTIONS"@, s, 0);
        lemma_prefix_excludes("GET /api/rust/users/"@, "POST /api/rust/users"@, s, 0);
    }
    if is_prefix_of("GET /api/rust/users"@, s) {
        lemma_prefix_excludes("GET /api/rust/users"@, "OPTIONS"@, s, 0);
        lemma_prefix_excludes("GET /api/rust/users"@, "POST /api/rust/users"@, s, 0);
    }
    if is_prefix_of("GET /api/rust/books/"@, s) {
        lemma_prefix_excludes("GET /api/rust/books/"@, "OPTIONS"@, s, 0);
        lemma_prefix_excludes("GET /api/rust/books/"@, "POST /api/rust/users"@, s, 0);
        lemma_prefix_excludes("GET /api/rust/books/"@, "GET /api/rust/users/"@, s, 14);
        lemma_prefix_excludes("GET /api/rust/books/"@, "GET /api/rust/users"@, s, 14);
        lemma_prefix_excludes("GET /api/rust/books/"@, "PUT /api/rust/users/"@, s, 0);
        lemma_prefix_excludes("GET /api/rust/books/"@, "DELETE /api/rust/users/"@, s, 0);
        lemma_prefix_excludes("GET /api/rust/books/"@, "POST /api/rust/books"@, s, 0);
    }
    if is_prefix_of("GET /api/rust/books"@, s) {
        lemma_prefix_excludes("GET /api/rust/books"@, "OPTIONS"@, s, 0);
        lemma_prefix_excludes("GET /api/rust/books"@, "POST /api/rust/users"@, s, 0);
        lemma_prefix_excludes("GET /api/rust/books"@, "GET /api/rust/users/"@, s, 14);
        lemma_prefix_excludes("GET /api/rust/books"@, "GET /api/rust/users"@, s, 14);
        lemma_prefix_excludes("GET /api/rust/books"@, "PUT /api/rust/users/"@, s, 0);
        lemma_prefix_excludes("GET /api/rust/books"@, "DELETE /api/rust/users/"@, s, 0);
        lemma_prefix_excludes("GET /api/rust/books"@, "POST /api/rust/books"@, s, 0);
    }
    if is_prefix_of("GET /api/rust/loans/"@, s) {
        lemma_prefix_excludes("GET /api/rust/loans/"@, "OPTIONS"@, s, 0);
        lemma_prefix_excludes("GET /api/rust/loans/"@, "POST /api/rust/users"@, s, 0);
        lemma_prefix_excludes("GET /api/rust/loans/"@, "GET /api/rust/users/"@, s, 14);
        lemma_prefix_excludes("GET /api/rust/loans/"@, "GET /api/rust/users"@, s, 14);
        lemma_prefix_excludes("GET /api/rust/loans/"@, "PUT /api/rust/users/"@, s, 0);
        lemma_prefix_excludes("GET /api/rust/loans/"@, "DELETE /api/rust/users/"@, s, 0);
        lemma_prefix_excludes("GET /api/rust/loans/"@, "POST /api/rust/books"@, s, 0);
        lemma_prefix_excludes("GET /api/rust/loans/"@, "GET /api/rust/books/"@, s, 14);
        lemma_prefix_excludes("GET /api/rust/loans/"@, "GET /api/rust/books"@, s, 14);
        lemma_prefix_excludes("GET /api/rust/loans/"@, "PUT /api/rust/books/"@, s, 0);
        lemma_prefix_excludes("GET /api/rust/loans/"@, "DELETE /api/rust/books/"@, s, 0);
        lemma_prefix_excludes("GET /api/rust/loans/"@, "POST /api/rust/loans"@, s, 0);
    }
    if is_prefix_of("GET /api/rust/loans"@, s) {
        lemma_prefix_excludes("GET /api/rust/loans"@, "OPTIONS"@, s, 0);
        lemma_prefix_excludes("GET /api/rust/loans"@, "POST /api/rust/users"@, s, 0);
        lemma_prefix_excludes("GET /api/rust/loans"@, "GET /api/rust/users/"@, s, 14);
        lemma_prefix_excludes("GET /api/rust/loans"@, "GET /api/rust/users"@, s, 14);
        lemma_prefix_excludes("GET /api/rust/loans"@, "PUT /api/rust/users/"@, s, 0);
        lemma_prefix_excludes("GET /api/rust/loans"@, "DELETE /api/rust/users/"@, s, 0);
        lemma_prefix_excludes("GET /api/rust/loans"@, "POST /api/rust/books"@, s, 0);
        lemma_prefix_excludes("GET /api/rust/loans"@, "GET /api/rust/books/"@, s, 14);
        lemma_prefix_excludes("GET /api/rust/loans"@, "GET /api/rust/books"@, s, 14);
        lemma_prefix_excludes("GET /api/rust/loans"@, "PUT /api/rust/books/"@, s, 0);
        lemma_prefix_excludes("GET /api/rust/loans"@, "DELETE /api/rust/books/"@, s, 0);
        lemma_prefix_excludes("GET /api/rust/loans"@, "POST /api/rust/loans"@, s, 0);
    }
    if is_prefix_of("GET /api/rust/reviews/"@, s) {
        lemma_prefix_excludes("GET /api/rust/reviews/"@, "OPTIONS"@, s, 0);
        lemma_prefix_excludes("GET /api/rust/reviews/"@, "POST /api/rust/users"@, s, 0);
        lemma_prefix_excludes("GET /api/rust/reviews/"@, "GET /api/rust/users/"@, s, 14);
        lemma_prefix_excludes("GET /api/rust/reviews/"@, "GET /api/rust/users"@, s, 14);
        lemma_prefix_excludes("GET /api/rust/reviews/"@, "PUT /api/rust/users/"@, s, 0);
        lemma_prefix_excludes("GET /api/rust/reviews/"@, "DELETE /api/rust/users/"@, s, 0);
        lemma_prefix_excludes("GET /api/rust/reviews/"@, "POST /api/rust/books"@, s, 0);
        lemma_prefix_excludes("GET /api/rust/reviews/"@, "GET /api/rust/books/"@, s, 14);
        lemma_prefix_excludes("GET /api/rust/reviews/"@, "GET /api/rust/books"@, s, 14);
        lemma_prefix_excludes("GET /api/rust/reviews/"@, "PUT /api/rust/books/"@, s, 0);
        lemma_prefix_excludes("GET /api/rust/reviews/"@, "DELETE /api/rust/books/"@, s, 0);
        lemma_prefix_excludes("GET /api/rust/reviews/"@, "POST /api/rust/loans"@, s, 0);
        lemma_prefix_excludes("GET /api/rust/reviews/"@, "GET /api/rust/loans/"@, s, 14);
        lemma_prefix_excludes("GET /api/rust/reviews/"@, "GET /api/rust/loans"@, s, 14);
        lemma_prefix_excludes("GET /api/rust/reviews/"@, "PUT /api/rust/loans/"@, s, 0);
        lemma_prefix_excludes("GET /api/rust/reviews/"@, "DELETE /api/rust/loans/"@, s, 0);
        lemma_prefix_excludes("GET /api/rust/reviews/"@, "POST /api/rust/reviews"@, s, 0);
    }
    if is_prefix_of("GET /api/rust/reviews"@, s) {
        lemma_prefix_excludes("GET /api/rust/reviews"@, "OPTIONS"@, s, 0);
        lemma_prefix_excludes("GET /api/rust/reviews"@, "POST /api/rust/users"@, s, 0);
        lemma_prefix_excludes("GET /api/rust/reviews"@, "GET /api/rust/users/"@, s, 14);
        lemma_prefix_excludes("GET /api/rust/reviews"@, "GET /api/rust/users"@, s, 14);
        lemma_prefix_excludes("GET /api/rust/reviews"@, "PUT /api/rust/users/"@, s, 0);
        lemma_prefix_excludes("GET /api/rust/reviews"@, "DELETE /api/rust/users/"@, s, 0);
        lemma_prefix_excludes("GET /api/rust/reviews"@, "POST /api/rust/books"@, s, 0);
        lemma_prefix_excludes("GET /api/rust/reviews"@, "GET /api/rust/books/"@, s, 14);
        lemma_prefix_excludes("GET /api/rust/reviews"@, "GET /api/rust/books"@, s, 14);
        lemma_prefix_excludes("GET /api/rust/reviews"@, "PUT /api/rust/books/"@, s, 0);
        lemma_prefix_excludes("GET /api/rust/reviews"@, "DELETE /api/rust/books/"@, s, 0);
        lemma_prefix_excludes("GET /api/rust/reviews"@, "POST /api/rust/loans"@, s, 0);
        lemma_prefix_excludes("GET /api/rust/reviews"@, "GET /api/rust/loans/"@, s, 14);
        lemma_prefix_excludes("GET /api/rust/reviews"@, "GET /api/rust/loans"@, s, 14);
        lemma_prefix_excludes("GET /api/rust/reviews"@, "PUT /api/rust/loans/"@, s, 0);
        lemma_prefix_excludes("GET /api/rust/reviews"@, "DELETE /api/rust/loans/"@, s, 0);
        lemma_prefix_excludes("GET /api/rust/reviews"@, "POST /api/rust/reviews"@, s, 0);
    }
}

/// A CORS preflight short-circuits: any request whose text opens with the
/// preflight method is answered success with an empty body, before any
/// entity matching.
pub proof fn lemma_preflight(s: Seq<char>)
    requires
        is_prefix_of("OPTIONS"@, s),
    ensures
        start_spec(s) == StepV::Reply(ok_resp(Seq::empty())),
{
}

/// The string codec's escape table is invertible: an escaped character
/// decodes back to itself, and a character passed through verbatim is
/// none of the characters the decoder treats specially.
pub proof fn lemma_escape_round_trip(c: char)
    ensures
        esc_char(c).len() == 2 ==> esc_char(c)[0] == '\\' && esc_char(c)[1] != 'u' && unesc(
            esc_char(c)[1],
        ) == Some(c),
        esc_char(c).len() == 6 ==> (c as u32) < 32 && esc_char(c)[0] == '\\' && esc_char(c)[1]
            == 'u' && esc_char(c)[2] == '0' && esc_char(c)[3] == '0' && is_hex(esc_char(c)[4])
            && is_hex(esc_char(c)[5]) && hex_val(esc_char(c)[4]) * 16 + hex_val(esc_char(c)[5])
            == c as u32,
        esc_char(c).len() == 1 ==> esc_char(c)[0] == c && c != '"' && c != '\\' && (c as u32)
            >= 32,
{
    if (c as u32) < 32 && c != '\n' && c != '\r' && c != '\t' && c != '\u{8}' && c != '\u{c}' {
        lemma_hex_char((c as u32 / 16) as nat);
        lemma_hex_char((c as u32 % 16) as nat);
    }
}

proof fn lemma_hex_char(d: nat)
    requires
        d < 16,
    ensures
        is_hex(hex_char(d)),
        hex_val(hex_char(d)) == d,
{
}

proof fn lemma_str_body_print_parse(s: Seq<char>, i: int, x: Seq<char>, k: int)
    requires
        0 <= k <= x.len(),
        0 <= i,
        i + esc_from(x, k).len() + 1 <= s.len(),
        forall|j: int| 0 <= j < esc_from(x, k).len() ==> s[i + j] == esc_from(x, k)[j],
        s[i + esc_from(x, k).len()] == '"',
    ensures
        sp_str_body(s, i) == Some((x.skip(k), i + esc_from(x, k).len() + 1)),
    decreases x.len() - k,
{
    if k == x.len() {
        assert(s[i] == '"');
        assert(x.skip(k) =~= Seq::<char>::empty());
    } else {
        let e = esc_char(x[k]);
        let tail = esc_from(x, k + 1);
        assert(esc_from(x, k) == e + tail);
        lemma_escape_round_trip(x[k]);
        assert(s[i + 0] == esc_from(x, k)[0]);
        assert(esc_from(x, k)[0] == e[0]);
        if e.len() == 2 {
            assert(s[i] == e[0]);
            assert(s[i + 1] == esc_from(x, k)[1]);
            assert(esc_from(x, k)[1] == e[1]);
            assert(s[i] == '\\');
            assert(s[i + 1] != 'u');
            assert forall|j: int| 0 <= j < tail.len() implies s[i + 2 + j] == tail[j] by {
                assert(s[i + (2 + j)] == esc_from(x, k)[2 + j]);
            }
            assert(s[i + 2 + tail.len()] == '"');
            lemma_str_body_print_parse(s, i + 2, x, k + 1);
            assert(seq![x[k]] + x.skip(k + 1) =~= x.skip(k));
        } else if e.len() == 6 {
            assert forall|j: int| 0 <= j < 6 implies s[i + j] == e[j] by {
                assert(s[i + j] == esc_from(x, k)[j]);
            }
            assert(s[i] == '\\' && s[i + 1] == 'u');
            assert(s[i + 2] == '0' && s[i + 3] == '0');
            assert(hex_val('0') == 0);
            assert(hex4_at(s, i + 2));
            assert(hex4_val(s, i + 2) == x[k] as u32);
            vstd::utf8::char_u32_cast(x[k], x[k] as u32);
            assert(sp_uesc(s, i) == Some((x[k], i + 6)));
            assert forall|j: int| 0 <= j < tail.len() implies s[i + 6 + j] == tail[j] by {
                assert(s[i + (6 + j)] == esc_from(x, k)[6 + j]);
            }
            assert(s[i + 6 + tail.len()] == '"');
            lemma_str_body_print_parse(s, i + 6, x, k + 1);
            assert(seq![x[k]] + x.skip(k + 1) =~= x.skip(k));
        } else {
            assert(e[0] == x[k]);
            assert(s[i] == x[k]);
            assert(s[i] != '"' && s[i] != '\\');
            assert((s[i] as u32) >= 32);
            assert forall|j: int| 0 <= j < tail.len() implies s[i + 1 + j] == tail[j] by {
                assert(s[i + (1 + j)] == esc_from(x, k)[1 + j]);
            }
            assert(s[i + 1 + tail.len()] == '"');
            lemma_str_body_print_parse(s, i + 1, x, k + 1);
            assert(seq![x[k]] + x.skip(k + 1) =~= x.skip(k));
        }
    }
}

/// The string codec round trip: a printed JSON string, followed by
/// anything, parses back to exactly the characters that were printed.
pub proof fn lemma_string_round_trip(x: Seq<char>, rest: Seq<char>)
    ensures
        sp_string(str_rep(x) + rest, 0) == Some((x, str_rep(x).len() as int)),
{
    let s = str_rep(x) + rest;
    let esc = esc_from(x, 0);
    assert(s[0] == '"');
    assert forall|j: int| 0 <= j < esc.len() implies s[1 + j] == esc[j] by {
        assert(str_rep(x)[1 + j] == esc[j]);
    }
    assert(s[1 + esc.len() as int] == '"');
    lemma_str_body_print_parse(s, 1, x, 0);
    assert(x.skip(0) =~= x);
}

proof fn lemma_dec_rep_digits(n: nat)
    ensures
        dec_rep(n).len() >= 1,
        forall|j: int| 0 <= j < dec_rep(n).len() ==> is_digit(dec_rep(n)[j]),
    decreases n,
{
    if n < 10 {
        assert(is_digit(digit_char(n)));
    } else {
        lemma_dec_rep_digits(n / 10);
        assert(is_digit(digit_char(n % 10)));
    }
}

proof fn lemma_dec_rep_val(s: Seq<char>, i: int, j: int, n: nat)
    requires
        0 <= i,
        i + dec_rep(n).len() == j,
        j <= s.len(),
        forall|t: int| 0 <= t < dec_rep(n).len() ==> s[i + t] == dec_rep(n)[t],
    ensures
        digits_val(s, i, j) == n,
    decreases n,
{
    if n < 10 {
        assert(s[i + 0] == dec_rep(n)[0]);
        assert(digit_of(digit_char(n)) == n);
    } else {
        let d = dec_rep(n / 10);
        assert(dec_rep(n) == d.push(digit_char(n % 10)));
        assert forall|t: int| 0 <= t < d.len() implies s[i + t] == d[t] by {
            assert(s[i + t] == dec_rep(n)[t]);
        }
        lemma_dec_rep_val(s, i, j - 1, n / 10);
        assert(s[i + (dec_rep(n).len() - 1)] == dec_rep(n)[dec_rep(n).len() - 1]);
        assert(digit_of(digit_char(n % 10)) == n % 10);
        assert(digits_val(s, i, j) == digits_val(s, i, j - 1) * 10 + digit_of(s[j - 1]));
    }
}

proof fn lemma_dec_rep_leading(n: nat)
    ensures
        n >= 10 ==> digit_of(dec_rep(n)[0]) != 0,
    decreases n,
{
    if n >= 10 {
        let d = dec_rep(n / 10);
        assert(dec_rep(n) == d.push(digit_char(n % 10)));
        assert(dec_rep(n)[0] == d[0]);
        if n / 10 < 10 {
            assert(d[0] == digit_char(n / 10));
            assert(digit_of(digit_char(n / 10)) == n / 10);
        } else {
            lemma_dec_rep_leading(n / 10);
        }
    }
}

proof fn lemma_digits_end_exact(s: Seq<char>, a: int, b: int)
    requires
        0 <= a <= b <= s.len(),
        forall|t: int| a <= t < b ==> is_digit(s[t]),
        b == s.len() || !is_digit(s[b]),
    ensures
        digits_end(s, a) == b,
    decreases b - a,
{
    if a < b {
        assert(is_digit(s[a]));
        lemma_digits_end_exact(s, a + 1, b);
    }
}

proof fn lemma_int_parse_at(s: Seq<char>, i: int, v: i32)
    requires
        0 <= i,
        i + int_rep(v as int).len() < s.len(),
        forall|t: int| 0 <= t < int_rep(v as int).len() ==> s[i + t] == int_rep(v as int)[t],
        !is_digit(s[i + int_rep(v as int).len()]),
    ensures
        sp_int(s, i) == Some((v, i + int_rep(v as int).len())),
        (s[i + int_rep(v as int).len()] != '.' && s[i + int_rep(v as int).len()] != 'e' && s[i
            + int_rep(v as int).len()] != 'E') ==> sp_skip_number(s, i) == Some(
            i + int_rep(v as int).len(),
        ),
{
    assert(!is_digit('-'));
    if v >= 0 {
        let d = dec_rep(v as nat);
        lemma_dec_rep_digits(v as nat);
        assert(int_rep(v as int) == d);
        assert(s[i + 0] == d[0]);
        assert(is_digit(s[i]));
        assert forall|t: int| i <= t < i + d.len() implies is_digit(s[t]) by {
            assert(s[i + (t - i)] == d[t - i]);
        }
        lemma_digits_end_exact(s, i, i + d.len() as int);
        lemma_dec_rep_leading(v as nat);
        lemma_dec_rep_val(s, i, i + d.len() as int, v as nat);
    } else {
        let m = (-(v as int)) as nat;
        let d = dec_rep(m);
        lemma_dec_rep_digits(m);
        assert(int_rep(v as int) == seq!['-'] + d);
        assert(s[i + 0] == (seq!['-'] + d)[0]);
        assert(s[i] == '-');
        assert forall|t: int| 0 <= t < d.len() implies s[i + 1 + t] == d[t] by {
            assert(s[i + (1 + t)] == int_rep(v as int)[1 + t]);
            assert(int_rep(v as int)[1 + t] == d[t]);
        }
        assert forall|t: int| i + 1 <= t < i + 1 + d.len() implies is_digit(s[t]) by {
            assert(s[i + 1 + (t - i - 1)] == d[t - i - 1]);
        }
        assert(s[i + 1 + d.len() as int] == s[i + int_rep(v as int).len() as int]);
        lemma_digits_end_exact(s, i + 1, i + 1 + d.len() as int);
        lemma_dec_rep_leading(m);
        lemma_dec_rep_val(s, i + 1, i + 1 + d.len() as int, m);
    }
}

/// The integer codec round trip: a printed integer, followed by anything
/// that is not a digit, parses back to exactly the printed value.
pub proof fn lemma_int_round_trip(v: i32, rest: Seq<char>)
    requires
        rest.len() >= 1,
        !is_digit(rest[0]),
    ensures
        sp_int(int_rep(v as int) + rest, 0) == Some((v, int_rep(v as int).len() as int)),
{
    let s = int_rep(v as int) + rest;
    assert forall|t: int| 0 <= t < int_rep(v as int).len() implies s[t] == int_rep(v as int)[t]
        by {}
    assert(s[0 + int_rep(v as int).len() as int] == rest[0]);
    lemma_int_parse_at(s, 0, v);
}

} // verus!
