//! The dispatch core. A request is planned into either an immediate
//! response or a parameterized statement plus a pending operation; each
//! store outcome is then resumed into the next statement or the final
//! response. The driver loop around this is trivial: run the statement,
//! hand back the outcome, repeat.
//!
//! Error funnel: a failed body decode, a failed identifier parse, a
//! failed connection and a failed statement all collapse to one
//! internal-error response; a missing row surfaces as not-found.
use vstd::prelude::*;

use crate::decode::{decode_book, decode_book_spec, decode_loan, decode_loan_spec, decode_review,
    decode_review_spec, decode_user, decode_user_spec};
use crate::encode::{books_json, books_v, encode_book, encode_books, encode_loan, encode_loans,
    encode_review, encode_reviews, encode_user, encode_users, loans_json, loans_v, reviews_json,
    reviews_v, users_json, users_v, book_json, loan_json, review_json, user_json};
use crate::entities::{Book, BookV, EntityKind, Loan, LoanV, Payload, PayloadV, Review, ReviewV,
    User, UserV, kind_of, payload_v};
use crate::request::{body_of, body_of_spec, path_id, path_id_spec};
use crate::router::{OpKind, Route, route, route_of};
use crate::store::{DbOutcome, DbOutcomeV, SqlValue, SqlValueV, Statement, StatementV,
    book_from_row, book_of_row, delete_stmt, delete_stmt_spec, insert_stmt, insert_stmt_spec,
    loan_from_row, loan_of_row, outcome_v, reselect_stmt, reselect_stmt_spec, review_from_row,
    review_of_row, row_v, rows_v, select_all_stmt, select_all_stmt_spec, select_stmt,
    select_stmt_spec, stmt_v, update_stmt, update_stmt_spec, user_from_row, user_of_row};
use crate::text::{append_chars, append_lit};

verus! {

/// The three response classes the service emits.
#[derive(Clone, Copy, PartialEq, Eq, Structural, Debug)]
pub enum Status {
    StOk,
    StNotFound,
    StInternalError,
}

pub struct HttpResponse {
    pub status: Status,
    pub body: Vec<char>,
}

pub ghost struct HttpResponseV {
    pub status: Status,
    pub body: Seq<char>,
}

pub open spec fn resp_v(r: HttpResponse) -> HttpResponseV {
    HttpResponseV { status: r.status, body: r.body@ }
}

pub open spec fn ok_resp(body: Seq<char>) -> HttpResponseV {
    HttpResponseV { status: Status::StOk, body: body }
}

pub open spec fn nf_resp(body: Seq<char>) -> HttpResponseV {
    HttpResponseV { status: Status::StNotFound, body: body }
}

pub open spec fn ie_resp(body: Seq<char>) -> HttpResponseV {
    HttpResponseV { status: Status::StInternalError, body: body }
}

/// A store operation in flight.
pub enum DbOp {
    Create(Payload),
    Read(EntityKind, i32),
    ReadAll(EntityKind),
    Update(i32, Payload),
    Delete(EntityKind, i32),
}

pub ghost enum DbOpV {
    Create(PayloadV),
    Read(EntityKind, i32),
    ReadAll(EntityKind),
    Update(i32, PayloadV),
    Delete(EntityKind, i32),
}

pub open spec fn db_op_v(o: DbOp) -> DbOpV {
    match o {
        DbOp::Create(p) => DbOpV::Create(payload_v(p)),
        DbOp::Read(e, id) => DbOpV::Read(e, id),
        DbOp::ReadAll(e) => DbOpV::ReadAll(e),
        DbOp::Update(id, p) => DbOpV::Update(id, payload_v(p)),
        DbOp::Delete(e, id) => DbOpV::Delete(e, id),
    }
}

/// What the core waits on after handing a statement to the driver.
pub enum Pending {
    First(DbOp),
    Reselect(EntityKind, i32),
}

pub ghost enum PendingV {
    First(DbOpV),
    Reselect(EntityKind, i32),
}

pub open spec fn pending_v(p: Pending) -> PendingV {
    match p {
        Pending::First(o) => PendingV::First(db_op_v(o)),
        Pending::Reselect(e, id) => PendingV::Reselect(e, id),
    }
}

/// One step of a session: answer now, or run a statement and wait.
pub enum Step {
    Reply(HttpResponse),
    Query(Statement, Pending),
}

pub ghost enum StepV {
    Reply(HttpResponseV),
    Query(StatementV, PendingV),
}

pub open spec fn step_v(s: Step) -> StepV {
    match s {
        Step::Reply(r) => StepV::Reply(resp_v(r)),
        Step::Query(st, p) => StepV::Query(stmt_v(st), pending_v(p)),
    }
}

pub open spec fn not_found_msg(e: EntityKind) -> Seq<char> {
    match e {
        EntityKind::UserKind => "User not found"@,
        EntityKind::BookKind => "Book not found"@,
        EntityKind::LoanKind => "Loan not found"@,
        EntityKind::ReviewKind => "Review not found"@,
    }
}

pub open spec fn updated_msg(e: EntityKind) -> Seq<char> {
    match e {
        EntityKind::UserKind => "User updated"@,
        EntityKind::BookKind => "Book updated"@,
        EntityKind::LoanKind => "Loan updated"@,
        EntityKind::ReviewKind => "Review updated"@,
    }
}

pub open spec fn deleted_msg(e: EntityKind) -> Seq<char> {
    match e {
        EntityKind::UserKind => "User deleted"@,
        EntityKind::BookKind => "Book deleted"@,
        EntityKind::LoanKind => "Loan deleted"@,
        EntityKind::ReviewKind => "Review deleted"@,
    }
}

pub open spec fn retrieve_failed_msg(e: EntityKind) -> Seq<char> {
    match e {
        EntityKind::UserKind => "Failed to retrieve created user"@,
        EntityKind::BookKind => "Failed to retrieve created book"@,
        EntityKind::LoanKind => "Failed to retrieve created loan"@,
        EntityKind::ReviewKind => "Failed to retrieve created review"@,
    }
}

fn lit_chars(p: &str) -> (r: Vec<char>)
    ensures
        r@ == p@,
{
    let mut v: Vec<char> = Vec::new();
    append_lit(&mut v, p);
    v
}

fn not_found_msg_x(e: EntityKind) -> (r: Vec<char>)
    ensures
        r@ == not_found_msg(e),
{
    match e {
        EntityKind::UserKind => lit_chars("User not found"),
        EntityKind::BookKind => lit_chars("Book not found"),
        EntityKind::LoanKind => lit_chars("Loan not found"),
        EntityKind::ReviewKind => lit_chars("Review not found"),
    }
}

fn updated_msg_x(e: EntityKind) -> (r: Vec<char>)
    ensures
        r@ == updated_msg(e),
{
    match e {
        EntityKind::UserKind => lit_chars("User updated"),
        EntityKind::BookKind => lit_chars("Book updated"),
        EntityKind::LoanKind => lit_chars("Loan updated"),
        EntityKind::ReviewKind => lit_chars("Review updated"),
    }
}

fn deleted_msg_x(e: EntityKind) -> (r: Vec<char>)
    ensures
        r@ == deleted_msg(e),
{
    match e {
        EntityKind::UserKind => lit_chars("User deleted"),
        EntityKind::BookKind => lit_chars("Book deleted"),
        EntityKind::LoanKind => lit_chars("Loan deleted"),
        EntityKind::ReviewKind => lit_chars("Review deleted"),
    }
}

fn retrieve_failed_msg_x(e: EntityKind) -> (r: Vec<char>)
    ensures
        r@ == retrieve_failed_msg(e),
{
    match e {
        EntityKind::UserKind => lit_chars("Failed to retrieve created user"),
        EntityKind::BookKind => lit_chars("Failed to retrieve created book"),
        EntityKind::LoanKind => lit_chars("Failed to retrieve created loan"),
        EntityKind::ReviewKind => lit_chars("Failed to retrieve created review"),
    }
}

/// The generic internal-error reply of the error funnel.
pub fn internal_error_response() -> (r: HttpResponse)
    ensures
        resp_v(r) == ie_resp("Internal error"@),
{
    HttpResponse { status: Status::StInternalError, body: lit_chars("Internal error") }
}

/// The body of a create or update request, decoded for entity `e`.
pub open spec fn decode_payload_spec(e: EntityKind, body: Seq<char>) -> Option<PayloadV> {
    match e {
        EntityKind::UserKind => match decode_user_spec(body) {
            Some(u) => Some(PayloadV::PUser(u)),
            None => None,
        },
        EntityKind::BookKind => match decode_book_spec(body) {
            Some(b) => Some(PayloadV::PBook(b)),
            None => None,
        },
        EntityKind::LoanKind => match decode_loan_spec(body) {
            Some(l) => Some(PayloadV::PLoan(l)),
            None => None,
        },
        EntityKind::ReviewKind => match decode_review_spec(body) {
            Some(r) => Some(PayloadV::PReview(r)),
            None => None,
        },
    }
}

pub fn decode_payload(e: EntityKind, body: &Vec<char>) -> (r: Option<Payload>)
    ensures
        r matches Some(p) ==> decode_payload_spec(e, body@) == Some(payload_v(p)),
        r is None ==> decode_payload_spec(e, body@) is None,
{
    match e {
        EntityKind::UserKind => match decode_user(body) {
            Some(u) => Some(Payload::PUser(u)),
            None => None,
        },
        EntityKind::BookKind => match decode_book(body) {
            Some(b) => Some(Payload::PBook(b)),
            None => None,
        },
        EntityKind::LoanKind => match decode_loan(body) {
            Some(l) => Some(Payload::PLoan(l)),
            None => None,
        },
        EntityKind::ReviewKind => match decode_review(body) {
            Some(r) => Some(Payload::PReview(r)),
            None => None,
        },
    }
}

fn kind_of_payload(p: &Payload) -> (e: EntityKind)
    ensures
        e == kind_of(payload_v(*p)),
{
    match p {
        Payload::PUser(_) => EntityKind::UserKind,
        Payload::PBook(_) => EntityKind::BookKind,
        Payload::PLoan(_) => EntityKind::LoanKind,
        Payload::PReview(_) => EntityKind::ReviewKind,
    }
}

/// Plan a request: an immediate reply, or the first statement to run.
pub open spec fn start_spec(s: Seq<char>) -> StepV {
    match route_of(s) {
        Route::Preflight => StepV::Reply(ok_resp(Seq::empty())),
        Route::NoRoute => StepV::Reply(nf_resp("404 not found"@)),
        Route::Dispatch(e, op) => match op {
            OpKind::CreateOp => match decode_payload_spec(e, body_of_spec(s)) {
                Some(p) => StepV::Query(insert_stmt_spec(p), PendingV::First(DbOpV::Create(p))),
                None => StepV::Reply(ie_resp("Internal error"@)),
            },
            OpKind::ReadOp => match path_id_spec(s) {
                Some(id) => StepV::Query(
                    select_stmt_spec(e, id),
                    PendingV::First(DbOpV::Read(e, id)),
                ),
                None => StepV::Reply(ie_resp("Internal error"@)),
            },
            OpKind::ReadAllOp => StepV::Query(
                select_all_stmt_spec(e),
                PendingV::First(DbOpV::ReadAll(e)),
            ),
            OpKind::UpdateOp => match (path_id_spec(s), decode_payload_spec(e, body_of_spec(s))) {
                (Some(id), Some(p)) => StepV::Query(
                    update_stmt_spec(id, p),
                    PendingV::First(DbOpV::Update(id, p)),
                ),
                _ => StepV::Reply(ie_resp("Internal error"@)),
            },
            OpKind::DeleteOp => match path_id_spec(s) {
                Some(id) => StepV::Query(
                    delete_stmt_spec(e, id),
                    PendingV::First(DbOpV::Delete(e, id)),
                ),
                None => StepV::Reply(ie_resp("Internal error"@)),
            },
        },
    }
}

pub fn start(request: &Vec<char>) -> (st: Step)
    ensures
        step_v(st) == start_spec(request@),
{
    match route(request) {
        Route::Preflight => Step::Reply(
            HttpResponse { status: Status::StOk, body: Vec::new() },
        ),
        Route::NoRoute => Step::Reply(
            HttpResponse { status: Status::StNotFound, body: lit_chars("404 not found") },
        ),
        Route::Dispatch(e, op) => match op {
            OpKind::CreateOp => {
                let body = body_of(request);
                match decode_payload(e, &body) {
                    Some(p) => {
                        let stmt = insert_stmt(&p);
                        Step::Query(stmt, Pending::First(DbOp::Create(p)))
                    },
                    None => Step::Reply(internal_error_response()),
                }
            },
            OpKind::ReadOp => match path_id(request) {
                Some(id) => Step::Query(select_stmt(e, id), Pending::First(DbOp::Read(e, id))),
                None => Step::Reply(internal_error_response()),
            },
            OpKind::ReadAllOp => Step::Query(
                select_all_stmt(e),
                Pending::First(DbOp::ReadAll(e)),
            ),
            OpKind::UpdateOp => {
                let id_r = path_id(request);
                let body = body_of(request);
                let p_r = decode_payload(e, &body);
                match (id_r, p_r) {
                    (Some(id), Some(p)) => {
                        let stmt = update_stmt(id, &p);
                        Step::Query(stmt, Pending::First(DbOp::Update(id, p)))
                    },
                    _ => Step::Reply(internal_error_response()),
                }
            },
            OpKind::DeleteOp => match path_id(request) {
                Some(id) => Step::Query(delete_stmt(e, id), Pending::First(DbOp::Delete(e, id))),
                None => Step::Reply(internal_error_response()),
            },
        },
    }
}

/// The user records held by rows, from index `i` on; `None` on any
/// ill-shaped row.
pub open spec fn users_of_rows(rows: Seq<Seq<SqlValueV>>, i: int) -> Option<Seq<UserV>>
    decreases rows.len() - i,
{
    if i < 0 || i >= rows.len() {
        Some(Seq::empty())
    } else {
        match user_of_row(rows[i]) {
            Some(u) => match users_of_rows(rows, i + 1) {
                Some(rest) => Some(seq![u] + rest),
                None => None,
            },
            None => None,
        }
    }
}

fn users_from_rows(rows: &Vec<Vec<SqlValue>>, i: usize) -> (r: Option<Vec<User>>)
    requires
        i <= rows@.len(),
    ensures
        r matches Some(v) ==> users_of_rows(rows_v(rows@), i as int) == Some(users_v(v@)),
        r is None ==> users_of_rows(rows_v(rows@), i as int) is None,
    decreases rows@.len() - i,
{
    if i >= rows.len() {
        let v: Vec<User> = Vec::new();
        proof {
            assert(users_v(v@) =~= Seq::<UserV>::empty());
        }
        return Some(v);
    }
    proof {
        assert(rows_v(rows@)[i as int] == row_v(rows@[i as int]@));
    }
    match user_from_row(&rows[i]) {
        None => None,
        Some(u) => match users_from_rows(rows, i + 1) {
            None => None,
            Some(rest) => {
                let ghost restv = users_v(rest@);
                let ghost uv = crate::entities::user_v(u);
                let mut v = rest;
                v.insert(0, u);
                proof {
                    assert(users_v(v@) =~= seq![uv] + restv);
                }
                Some(v)
            },
        },
    }
}

/// The book records held by rows, from index `i` on.
pub open spec fn books_of_rows(rows: Seq<Seq<SqlValueV>>, i: int) -> Option<Seq<BookV>>
    decreases rows.len() - i,
{
    if i < 0 || i >= rows.len() {
        Some(Seq::empty())
    } else {
        match book_of_row(rows[i]) {
            Some(b) => match books_of_rows(rows, i + 1) {
                Some(rest) => Some(seq![b] + rest),
                None => None,
            },
            None => None,
        }
    }
}

fn books_from_rows(rows: &Vec<Vec<SqlValue>>, i: usize) -> (r: Option<Vec<Book>>)
    requires
        i <= rows@.len(),
    ensures
        r matches Some(v) ==> books_of_rows(rows_v(rows@), i as int) == Some(books_v(v@)),
        r is None ==> books_of_rows(rows_v(rows@), i as int) is None,
    decreases rows@.len() - i,
{
    if i >= rows.len() {
        let v: Vec<Book> = Vec::new();
        proof {
            assert(books_v(v@) =~= Seq::<BookV>::empty());
        }
        return Some(v);
    }
    proof {
        assert(rows_v(rows@)[i as int] == row_v(rows@[i as int]@));
    }
    match book_from_row(&rows[i]) {
        None => None,
        Some(b) => match books_from_rows(rows, i + 1) {
            None => None,
            Some(rest) => {
                let ghost restv = books_v(rest@);
                let ghost bv = crate::entities::book_v(b);
                let mut v = rest;
                v.insert(0, b);
                proof {
                    assert(books_v(v@) =~= seq![bv] + restv);
                }
                Some(v)
            },
        },
    }
}

/// The loan records held by rows, from index `i` on.
pub open spec fn loans_of_rows(rows: Seq<Seq<SqlValueV>>, i: int) -> Option<Seq<LoanV>>
    decreases rows.len() - i,
{
    if i < 0 || i >= rows.len() {
        Some(Seq::empty())
    } else {
        match loan_of_row(rows[i]) {
            Some(l) => match loans_of_rows(rows, i + 1) {
                Some(rest) => Some(seq![l] + rest),
                None => None,
            },
            None => None,
        }
    }
}

fn loans_from_rows(rows: &Vec<Vec<SqlValue>>, i: usize) -> (r: Option<Vec<Loan>>)
    requires
        i <= rows@.len(),
    ensures
        r matches Some(v) ==> loans_of_rows(rows_v(rows@), i as int) == Some(loans_v(v@)),
        r is None ==> loans_of_rows(rows_v(rows@), i as int) is None,
    decreases rows@.len() - i,
{
    if i >= rows.len() {
        let v: Vec<Loan> = Vec::new();
        proof {
            assert(loans_v(v@) =~= Seq::<LoanV>::empty());
        }
        return Some(v);
    }
    proof {
        assert(rows_v(rows@)[i as int] == row_v(rows@[i as int]@));
    }
    match loan_from_row(&rows[i]) {
        None => None,
        Some(l) => match loans_from_rows(rows, i + 1) {
            None => None,
            Some(rest) => {
                let ghost restv = loans_v(rest@);
                let ghost lv = crate::entities::loan_v(l);
                let mut v = rest;
                v.insert(0, l);
                proof {
                    assert(loans_v(v@) =~= seq![lv] + restv);
                }
                Some(v)
            },
        },
    }
}

/// The review records held by rows, from index `i` on.
pub open spec fn reviews_of_rows(rows: Seq<Seq<SqlValueV>>, i: int) -> Option<Seq<ReviewV>>
    decreases rows.len() - i,
{
    if i < 0 || i >= rows.len() {
        Some(Seq::empty())
    } else {
        match review_of_row(rows[i]) {
            Some(r) => match reviews_of_rows(rows, i + 1) {
                Some(rest) => Some(seq![r] + rest),
                None => None,
            },
            None => None,
        }
    }
}

fn reviews_from_rows(rows: &Vec<Vec<SqlValue>>, i: usize) -> (r: Option<Vec<Review>>)
    requires
        i <= rows@.len(),
    ensures
        r matches Some(v) ==> reviews_of_rows(rows_v(rows@), i as int) == Some(reviews_v(v@)),
        r is None ==> reviews_of_rows(rows_v(rows@), i as int) is None,
    decreases rows@.len() - i,
{
    if i >= rows.len() {
        let v: Vec<Review> = Vec::new();
        proof {
            assert(reviews_v(v@) =~= Seq::<ReviewV>::empty());
        }
        return Some(v);
    }
    proof {
        assert(rows_v(rows@)[i as int] == row_v(rows@[i as int]@));
    }
    match review_from_row(&rows[i]) {
        None => None,
        Some(rv) => match reviews_from_rows(rows, i + 1) {
            None => None,
            Some(rest) => {
                let ghost restv = reviews_v(rest@);
                let ghost rvv = crate::entities::review_v(rv);
                let mut v = rest;
                v.insert(0, rv);
                proof {
                    assert(reviews_v(v@) =~= seq![rvv] + restv);
                }
                Some(v)
            },
        },
    }
}

/// The JSON body of a single row of entity `e`, when the row is
/// well-shaped for it.
pub open spec fn row_body(e: EntityKind, row: Seq<SqlValueV>) -> Option<Seq<char>> {
    match e {
        EntityKind::UserKind => match user_of_row(row) {
            Some(u) => Some(user_json(u)),
            None => None,
        },
        EntityKind::BookKind => match book_of_row(row) {
            Some(b) => Some(book_json(b)),
            None => None,
        },
        EntityKind::LoanKind => match loan_of_row(row) {
            Some(l) => Some(loan_json(l)),
            None => None,
        },
        EntityKind::ReviewKind => match review_of_row(row) {
            Some(r) => Some(review_json(r)),
            None => None,
        },
    }
}

fn row_body_x(e: EntityKind, row: &Vec<SqlValue>) -> (r: Option<Vec<char>>)
    ensures
        r matches Some(b) ==> row_body(e, row_v(row@)) == Some(b@),
        r is None ==> row_body(e, row_v(row@)) is None,
{
    match e {
        EntityKind::UserKind => match user_from_row(row) {
            Some(u) => Some(encode_user(&u)),
            None => None,
        },
        EntityKind::BookKind => match book_from_row(row) {
            Some(b) => Some(encode_book(&b)),
            None => None,
        },
        EntityKind::LoanKind => match loan_from_row(row) {
            Some(l) => Some(encode_loan(&l)),
            None => None,
        },
        EntityKind::ReviewKind => match review_from_row(row) {
            Some(rv) => Some(encode_review(&rv)),
            None => None,
        },
    }
}

/// The JSON array body of all rows of entity `e`.
pub open spec fn list_body(e: EntityKind, rows: Seq<Seq<SqlValueV>>) -> Option<Seq<char>> {
    match e {
        EntityKind::UserKind => match users_of_rows(rows, 0) {
            Some(us) => Some(users_json(us)),
            None => None,
        },
        EntityKind::BookKind => match books_of_rows(rows, 0) {
            Some(bs) => Some(books_json(bs)),
            None => None,
        },
        EntityKind::LoanKind => match loans_of_rows(rows, 0) {
            Some(ls) => Some(loans_json(ls)),
            None => None,
        },
        EntityKind::ReviewKind => match reviews_of_rows(rows, 0) {
            Some(rs) => Some(reviews_json(rs)),
            None => None,
        },
    }
}

fn list_body_x(e: EntityKind, rows: &Vec<Vec<SqlValue>>) -> (r: Option<Vec<char>>)
    ensures
        r matches Some(b) ==> list_body(e, rows_v(rows@)) == Some(b@),
        r is None ==> list_body(e, rows_v(rows@)) is None,
{
    match e {
        EntityKind::UserKind => match users_from_rows(rows, 0) {
            Some(us) => Some(encode_users(&us)),
            None => None,
        },
        EntityKind::BookKind => match books_from_rows(rows, 0) {
            Some(bs) => Some(encode_books(&bs)),
            None => None,
        },
        EntityKind::LoanKind => match loans_from_rows(rows, 0) {
            Some(ls) => Some(encode_loans(&ls)),
            None => None,
        },
        EntityKind::ReviewKind => match reviews_from_rows(rows, 0) {
            Some(rs) => Some(encode_reviews(&rs)),
            None => None,
        },
    }
}

/// Resume a session: interpret a store outcome for the pending operation.
///
/// A create whose insert returned the one-column id row goes on to the
/// re-select; every malformed or failed outcome falls into the error
/// funnel; a read with no rows, and a delete that affected none, are
/// not-found; an update reports success whatever it matched.
pub open spec fn resume_spec(p: PendingV, o: DbOutcomeV) -> StepV {
    match p {
        PendingV::First(op) => match op {
            DbOpV::Create(pl) => match o {
                DbOutcomeV::Rows(rows) => {
                    if rows.len() == 1 && rows[0].len() == 1 {
                        match rows[0][0] {
                            SqlValueV::VInt(id) => StepV::Query(
                                reselect_stmt_spec(kind_of(pl), id),
                                PendingV::Reselect(kind_of(pl), id),
                            ),
                            _ => StepV::Reply(ie_resp("Internal error"@)),
                        }
                    } else {
                        StepV::Reply(ie_resp("Internal error"@))
                    }
                },
                _ => StepV::Reply(ie_resp("Internal error"@)),
            },
            DbOpV::Read(e, id) => match o {
                DbOutcomeV::Rows(rows) => {
                    if rows.len() == 0 {
                        StepV::Reply(nf_resp(not_found_msg(e)))
                    } else {
                        match row_body(e, rows[0]) {
                            Some(b) => StepV::Reply(ok_resp(b)),
                            None => StepV::Reply(ie_resp("Internal error"@)),
                        }
                    }
                },
                _ => StepV::Reply(ie_resp("Internal error"@)),
            },
            DbOpV::ReadAll(e) => match o {
                DbOutcomeV::Rows(rows) => match list_body(e, rows) {
                    Some(b) => StepV::Reply(ok_resp(b)),
                    None => StepV::Reply(ie_resp("Internal error"@)),
                },
                _ => StepV::Reply(ie_resp("Internal error"@)),
            },
            DbOpV::Update(id, pl) => match o {
                DbOutcomeV::Count(_) => StepV::Reply(ok_resp(updated_msg(kind_of(pl)))),
                _ => StepV::Reply(ie_resp("Internal error"@)),
            },
            DbOpV::Delete(e, id) => match o {
                DbOutcomeV::Count(c) => {
                    if c == 0 {
                        StepV::Reply(nf_resp(not_found_msg(e)))
                    } else {
                        StepV::Reply(ok_resp(deleted_msg(e)))
                    }
                },
                _ => StepV::Reply(ie_resp("Internal error"@)),
            },
        },
        PendingV::Reselect(e, id) => match o {
            DbOutcomeV::Rows(rows) => {
                if rows.len() == 0 {
                    StepV::Reply(ie_resp(retrieve_failed_msg(e)))
                } else {
                    match row_body(e, rows[0]) {
                        Some(b) => StepV::Reply(ok_resp(b)),
                        None => StepV::Reply(ie_resp(retrieve_failed_msg(e))),
                    }
                }
            },
            _ => StepV::Reply(ie_resp(retrieve_failed_msg(e))),
        },
    }
}

pub fn resume(p: Pending, o: DbOutcome) -> (st: Step)
    ensures
        step_v(st) == resume_spec(pending_v(p), outcome_v(o)),
{
    match p {
        Pending::First(op) => match op {
            DbOp::Create(pl) => match o {
                DbOutcome::Rows(rows) => {
                    if rows.len() == 1 && rows[0].len() == 1 {
                        proof {
                            assert(rows_v(rows@)[0] == row_v(rows@[0]@));
                        }
                        match &rows[0][0] {
                            SqlValue::VInt(id) => {
                                let e = kind_of_payload(&pl);
                                Step::Query(reselect_stmt(e, *id), Pending::Reselect(e, *id))
                            },
                            _ => Step::Reply(internal_error_response()),
                        }
                    } else {
                        proof {
                            assert(rows@.len() == 1 ==> rows_v(rows@)[0] == row_v(rows@[0]@));
                        }
                        Step::Reply(internal_error_response())
                    }
                },
                _ => Step::Reply(internal_error_response()),
            },
            DbOp::Read(e, id) => match o {
                DbOutcome::Rows(rows) => {
                    if rows.len() == 0 {
                        Step::Reply(
                            HttpResponse { status: Status::StNotFound, body: not_found_msg_x(e) },
                        )
                    } else {
                        proof {
                            assert(rows_v(rows@)[0] == row_v(rows@[0]@));
                        }
                        match row_body_x(e, &rows[0]) {
                            Some(b) => Step::Reply(
                                HttpResponse { status: Status::StOk, body: b },
                            ),
                            None => Step::Reply(internal_error_response()),
                        }
                    }
                },
                _ => Step::Reply(internal_error_response()),
            },
            DbOp::ReadAll(e) => match o {
                DbOutcome::Rows(rows) => match list_body_x(e, &rows) {
                    Some(b) => Step::Reply(HttpResponse { status: Status::StOk, body: b }),
                    None => Step::Reply(internal_error_response()),
                },
                _ => Step::Reply(internal_error_response()),
            },
            DbOp::Update(id, pl) => match o {
                DbOutcome::Count(_) => {
                    let e = kind_of_payload(&pl);
                    Step::Reply(HttpResponse { status: Status::StOk, body: updated_msg_x(e) })
                },
                _ => Step::Reply(internal_error_response()),
            },
            DbOp::Delete(e, id) => match o {
                DbOutcome::Count(c) => {
                    if c == 0 {
                        Step::Reply(
                            HttpResponse { status: Status::StNotFound, body: not_found_msg_x(e) },
                        )
                    } else {
                        Step::Reply(
                            HttpResponse { status: Status::StOk, body: deleted_msg_x(e) },
                        )
                    }
                },
                _ => Step::Reply(internal_error_response()),
            },
        },
        Pending::Reselect(e, id) => match o {
            DbOutcome::Rows(rows) => {
                if rows.len() == 0 {
                    Step::Reply(
                        HttpResponse {
                            status: Status::StInternalError,
                            body: retrieve_failed_msg_x(e),
                        },
                    )
                } else {
                    proof {
                        assert(rows_v(rows@)[0] == row_v(rows@[0]@));
                    }
                    match row_body_x(e, &rows[0]) {
                        Some(b) => Step::Reply(HttpResponse { status: Status::StOk, body: b }),
                        None => Step::Reply(
                            HttpResponse {
                                status: Status::StInternalError,
                                body: retrieve_failed_msg_x(e),
                            },
                        ),
                    }
                }
            },
            _ => Step::Reply(
                HttpResponse { status: Status::StInternalError, body: retrieve_failed_msg_x(e) },
            ),
        },
    }
}

/// The fixed status line of each response class: a permissive CORS header
/// block on success, a bare status line otherwise.
pub open spec fn status_line(st: Status) -> Seq<char> {
    match st {
        Status::StOk => "HTTP/1.1 200 OK\r\nContent-Type: application/json\r\nAccess-Control-Allow-Origin: *\r\nAccess-Control-Allow-Methods: GET, POST, PUT, DELETE\r\nAccess-Control-Allow-Headers: Content-Type\r\n\r\n"@,
        Status::StNotFound => "HTTP/1.1 404 NOT FOUND\r\n\r\n"@,
        Status::StInternalError => "HTTP/1.1 500 INTERNAL ERROR\r\n\r\n"@,
    }
}

/// The full wire text of a response: status line, then body, verbatim.
pub open spec fn response_text_spec(r: HttpResponseV) -> Seq<char> {
    status_line(r.status) + r.body
}

pub fn response_text(r: &HttpResponse) -> (t: Vec<char>)
    ensures
        t@ == response_text_spec(resp_v(*r)),
{
    let mut v: Vec<char> = Vec::new();
    match r.status {
        Status::StOk => append_lit(
            &mut v,
            "HTTP/1.1 200 OK\r\nContent-Type: application/json\r\nAccess-Control-Allow-Origin: *\r\nAccess-Control-Allow-Methods: GET, POST, PUT, DELETE\r\nAccess-Control-Allow-Headers: Content-Type\r\n\r\n",
        ),
        Status::StNotFound => append_lit(&mut v, "HTTP/1.1 404 NOT FOUND\r\n\r\n"),
        Status::StInternalError => append_lit(&mut v, "HTTP/1.1 500 INTERNAL ERROR\r\n\r\n"),
    }
    append_chars(&mut v, &r.body);
    v
}

} // verus!
