//! The store interface as the core sees it: parameterized statements go
//! out, outcomes come back. A statement is SQL text with a list of plain
//! parameter values; an outcome is a list of rows of plain column values,
//! an affected-row count, or a failure. The driver that owns the real
//! connection runs the statements; every function here is verified for
//! every outcome it can hand back.
use vstd::prelude::*;

use crate::entities::{Book, BookV, Loan, LoanV, Payload, PayloadV, Review, ReviewV, User, UserV,
    EntityKind, book_v, loan_v, opt_text_v, payload_v, review_v, user_v};
use crate::text::clone_chars;

verus! {

/// A plain SQL parameter or column value.
#[derive(PartialEq, Eq, Debug, Clone)]
pub enum SqlValue {
    VInt(i32),
    VText(Vec<char>),
    VNull,
}

pub ghost enum SqlValueV {
    VInt(i32),
    VText(Seq<char>),
    VNull,
}

pub open spec fn sql_v(v: SqlValue) -> SqlValueV {
    match v {
        SqlValue::VInt(i) => SqlValueV::VInt(i),
        SqlValue::VText(t) => SqlValueV::VText(t@),
        SqlValue::VNull => SqlValueV::VNull,
    }
}

pub open spec fn row_v(r: Seq<SqlValue>) -> Seq<SqlValueV> {
    r.map(|i: int, v: SqlValue| sql_v(v))
}

pub open spec fn rows_v(rs: Seq<Vec<SqlValue>>) -> Seq<Seq<SqlValueV>> {
    rs.map(|i: int, r: Vec<SqlValue>| row_v(r@))
}

/// A parameterized statement, ready for the driver.
pub struct Statement {
    pub sql: String,
    pub params: Vec<SqlValue>,
}

pub ghost struct StatementV {
    pub sql: Seq<char>,
    pub params: Seq<SqlValueV>,
}

pub open spec fn stmt_v(st: Statement) -> StatementV {
    StatementV { sql: st.sql@, params: st.params@.map(|i: int, v: SqlValue| sql_v(v)) }
}

/// What the driver reports back for one statement.
pub enum DbOutcome {
    Rows(Vec<Vec<SqlValue>>),
    Count(u64),
    Failure,
}

pub ghost enum DbOutcomeV {
    Rows(Seq<Seq<SqlValueV>>),
    Count(u64),
    Failure,
}

pub open spec fn outcome_v(o: DbOutcome) -> DbOutcomeV {
    match o {
        DbOutcome::Rows(rs) => DbOutcomeV::Rows(rows_v(rs@)),
        DbOutcome::Count(c) => DbOutcomeV::Count(c),
        DbOutcome::Failure => DbOutcomeV::Failure,
    }
}

pub open spec fn opt_text_param(o: Option<Seq<char>>) -> SqlValueV {
    match o {
        Some(t) => SqlValueV::VText(t),
        None => SqlValueV::VNull,
    }
}

fn push_opt_text_param(ps: &mut Vec<SqlValue>, o: &Option<Vec<char>>)
    ensures
        row_v(final(ps)@) == row_v(old(ps)@).push(opt_text_param(opt_text_v(*o))),
{
    match o {
        Some(t) => ps.push(SqlValue::VText(clone_chars(t))),
        None => ps.push(SqlValue::VNull),
    }
    proof {
        assert(row_v(ps@) =~= row_v(old(ps)@).push(opt_text_param(opt_text_v(*o))));
    }
}

/// The insert statement of a create operation, returning the assigned id.
pub open spec fn insert_stmt_spec(p: PayloadV) -> StatementV {
    match p {
        PayloadV::PUser(u) => StatementV {
            sql: "INSERT INTO users (name, email) VALUES ($1, $2) RETURNING id"@,
            params: seq![SqlValueV::VText(u.name), SqlValueV::VText(u.email)],
        },
        PayloadV::PBook(b) => StatementV {
            sql: "INSERT INTO books (title, author, genre) VALUES ($1, $2, $3) RETURNING id"@,
            params: seq![
                SqlValueV::VText(b.title),
                SqlValueV::VText(b.author),
                opt_text_param(b.genre),
            ],
        },
        PayloadV::PLoan(l) => StatementV {
            sql: "INSERT INTO loans (user_id, book_id, checkout_date, due_date, return_date) VALUES ($1, $2, $3, $4, $5) RETURNING id"@,
            params: seq![
                SqlValueV::VInt(l.user_id),
                SqlValueV::VInt(l.book_id),
                SqlValueV::VText(l.checkout_date),
                SqlValueV::VText(l.due_date),
                opt_text_param(l.return_date),
            ],
        },
        PayloadV::PReview(r) => StatementV {
            sql: "INSERT INTO reviews (book_id, user_id, rating, review_text) VALUES ($1, $2, $3, $4) RETURNING id"@,
            params: seq![
                SqlValueV::VInt(r.book_id),
                SqlValueV::VInt(r.user_id),
                SqlValueV::VInt(r.rating),
                opt_text_param(r.review_text),
            ],
        },
    }
}

pub fn insert_stmt(p: &Payload) -> (st: Statement)
    ensures
        stmt_v(st) == insert_stmt_spec(payload_v(*p)),
{
    let mut params: Vec<SqlValue> = Vec::new();
    let sql: String;
    match p {
        Payload::PUser(u) => {
            sql = String::from_str("INSERT INTO users (name, email) VALUES ($1, $2) RETURNING id");
            params.push(SqlValue::VText(clone_chars(&u.name)));
            params.push(SqlValue::VText(clone_chars(&u.email)));
        },
        Payload::PBook(b) => {
            sql = String::from_str(
                "INSERT INTO books (title, author, genre) VALUES ($1, $2, $3) RETURNING id",
            );
            params.push(SqlValue::VText(clone_chars(&b.title)));
            params.push(SqlValue::VText(clone_chars(&b.author)));
            push_opt_text_param(&mut params, &b.genre);
        },
        Payload::PLoan(l) => {
            sql = String::from_str(
                "INSERT INTO loans (user_id, book_id, checkout_date, due_date, return_date) VALUES ($1, $2, $3, $4, $5) RETURNING id",
            );
            params.push(SqlValue::VInt(l.user_id));
            params.push(SqlValue::VInt(l.book_id));
            params.push(SqlValue::VText(clone_chars(&l.checkout_date)));
            params.push(SqlValue::VText(clone_chars(&l.due_date)));
            push_opt_text_param(&mut params, &l.return_date);
        },
        Payload::PReview(r) => {
            sql = String::from_str(
                "INSERT INTO reviews (book_id, user_id, rating, review_text) VALUES ($1, $2, $3, $4) RETURNING id",
            );
            params.push(SqlValue::VInt(r.book_id));
            params.push(SqlValue::VInt(r.user_id));
            params.push(SqlValue::VInt(r.rating));
            push_opt_text_param(&mut params, &r.review_text);
        },
    }
    let st = Statement { sql, params };
    proof {
        assert(stmt_v(st).params =~= insert_stmt_spec(payload_v(*p)).params);
    }
    st
}

/// The re-select of a create operation: the full row, by assigned id.
pub open spec fn reselect_sql(e: EntityKind) -> Seq<char> {
    match e {
        EntityKind::UserKind => "SELECT id, name, email FROM users WHERE id = $1"@,
        EntityKind::BookKind => "SELECT id, title, author, genre FROM books WHERE id = $1"@,
        EntityKind::LoanKind => "SELECT id, user_id, book_id, checkout_date, due_date, return_date FROM loans WHERE id = $1"@,
        EntityKind::ReviewKind => "SELECT id, book_id, user_id, rating, review_text FROM reviews WHERE id = $1"@,
    }
}

pub open spec fn reselect_stmt_spec(e: EntityKind, id: i32) -> StatementV {
    StatementV { sql: reselect_sql(e), params: seq![SqlValueV::VInt(id)] }
}

pub fn reselect_stmt(e: EntityKind, id: i32) -> (st: Statement)
    ensures
        stmt_v(st) == reselect_stmt_spec(e, id),
{
    let sql: String = match e {
        EntityKind::UserKind => String::from_str("SELECT id, name, email FROM users WHERE id = $1"),
        EntityKind::BookKind => String::from_str(
            "SELECT id, title, author, genre FROM books WHERE id = $1",
        ),
        EntityKind::LoanKind => String::from_str(
            "SELECT id, user_id, book_id, checkout_date, due_date, return_date FROM loans WHERE id = $1",
        ),
        EntityKind::ReviewKind => String::from_str(
            "SELECT id, book_id, user_id, rating, review_text FROM reviews WHERE id = $1",
        ),
    };
    let mut params: Vec<SqlValue> = Vec::new();
    params.push(SqlValue::VInt(id));
    let st = Statement { sql, params };
    proof {
        assert(stmt_v(st).params =~= reselect_stmt_spec(e, id).params);
    }
    st
}

/// The select of a read-by-id operation.
pub open spec fn select_sql(e: EntityKind) -> Seq<char> {
    match e {
        EntityKind::UserKind => "SELECT * FROM users WHERE id = $1"@,
        EntityKind::BookKind => "SELECT * FROM books WHERE id = $1"@,
        EntityKind::LoanKind => "SELECT * FROM loans WHERE id = $1"@,
        EntityKind::ReviewKind => "SELECT * FROM reviews WHERE id = $1"@,
    }
}

pub open spec fn select_stmt_spec(e: EntityKind, id: i32) -> StatementV {
    StatementV { sql: select_sql(e), params: seq![SqlValueV::VInt(id)] }
}

pub fn select_stmt(e: EntityKind, id: i32) -> (st: Statement)
    ensures
        stmt_v(st) == select_stmt_spec(e, id),
{
    let sql: String = match e {
        EntityKind::UserKind => String::from_str("SELECT * FROM users WHERE id = $1"),
        EntityKind::BookKind => String::from_str("SELECT * FROM books WHERE id = $1"),
        EntityKind::LoanKind => String::from_str("SELECT * FROM loans WHERE id = $1"),
        EntityKind::ReviewKind => String::from_str("SELECT * FROM reviews WHERE id = $1"),
    };
    let mut params: Vec<SqlValue> = Vec::new();
    params.push(SqlValue::VInt(id));
    let st = Statement { sql, params };
    proof {
        assert(stmt_v(st).params =~= select_stmt_spec(e, id).params);
    }
    st
}

/// The select of a read-all operation.
pub open spec fn select_all_sql(e: EntityKind) -> Seq<char> {
    match e {
        EntityKind::UserKind => "SELECT id, name, email FROM users"@,
        EntityKind::BookKind => "SELECT id, title, author, genre FROM books"@,
        EntityKind::LoanKind => "SELECT id, user_id, book_id, checkout_date, due_date, return_date FROM loans"@,
        EntityKind::ReviewKind => "SELECT id, book_id, user_id, rating, review_text FROM reviews"@,
    }
}

pub open spec fn select_all_stmt_spec(e: EntityKind) -> StatementV {
    StatementV { sql: select_all_sql(e), params: Seq::empty() }
}

pub fn select_all_stmt(e: EntityKind) -> (st: Statement)
    ensures
        stmt_v(st) == select_all_stmt_spec(e),
{
    let sql: String = match e {
        EntityKind::UserKind => String::from_str("SELECT id, name, email FROM users"),
        EntityKind::BookKind => String::from_str("SELECT id, title, author, genre FROM books"),
        EntityKind::LoanKind => String::from_str(
            "SELECT id, user_id, book_id, checkout_date, due_date, return_date FROM loans",
        ),
        EntityKind::ReviewKind => String::from_str(
            "SELECT id, book_id, user_id, rating, review_text FROM reviews",
        ),
    };
    let params: Vec<SqlValue> = Vec::new();
    let st = Statement { sql, params };
    proof {
        assert(stmt_v(st).params =~= select_all_stmt_spec(e).params);
    }
    st
}

/// The update statement: every mutable column replaced, by id.
pub open spec fn update_stmt_spec(id: i32, p: PayloadV) -> StatementV {
    match p {
        PayloadV::PUser(u) => StatementV {
            sql: "UPDATE users SET name = $1, email = $2 WHERE id = $3"@,
            params: seq![
                SqlValueV::VText(u.name),
                SqlValueV::VText(u.email),
                SqlValueV::VInt(id),
            ],
        },
        PayloadV::PBook(b) => StatementV {
            sql: "UPDATE books SET title = $1, author = $2, genre = $3 WHERE id = $4"@,
            params: seq![
                SqlValueV::VText(b.title),
                SqlValueV::VText(b.author),
                opt_text_param(b.genre),
                SqlValueV::VInt(id),
            ],
        },
        PayloadV::PLoan(l) => StatementV {
            sql: "UPDATE loans SET user_id = $1, book_id = $2, checkout_date = $3, due_date = $4, return_date = $5 WHERE id = $6"@,
            params: seq![
                SqlValueV::VInt(l.user_id),
                SqlValueV::VInt(l.book_id),
                SqlValueV::VText(l.checkout_date),
                SqlValueV::VText(l.due_date),
                opt_text_param(l.return_date),
                SqlValueV::VInt(id),
            ],
        },
        PayloadV::PReview(r) => StatementV {
            sql: "UPDATE reviews SET book_id = $1, user_id = $2, rating = $3, review_text = $4 WHERE id = $5"@,
            params: seq![
                SqlValueV::VInt(r.book_id),
                SqlValueV::VInt(r.user_id),
                SqlValueV::VInt(r.rating),
                opt_text_param(r.review_text),
                SqlValueV::VInt(id),
            ],
        },
    }
}

pub fn update_stmt(id: i32, p: &Payload) -> (st: Statement)
    ensures
        stmt_v(st) == update_stmt_spec(id, payload_v(*p)),
{
    let mut params: Vec<SqlValue> = Vec::new();
    let sql: String;
    match p {
        Payload::PUser(u) => {
            sql = String::from_str("UPDATE users SET name = $1, email = $2 WHERE id = $3");
            params.push(SqlValue::VText(clone_chars(&u.name)));
            params.push(SqlValue::VText(clone_chars(&u.email)));
            params.push(SqlValue::VInt(id));
            proof {
                assert(row_v(params@) =~= update_stmt_spec(id, payload_v(*p)).params);
            }
        },
        Payload::PBook(b) => {
            sql = String::from_str(
                "UPDATE books SET title = $1, author = $2, genre = $3 WHERE id = $4",
            );
            params.push(SqlValue::VText(clone_chars(&b.title)));
            params.push(SqlValue::VText(clone_chars(&b.author)));
            match &b.genre {
                Some(g) => params.push(SqlValue::VText(clone_chars(g))),
                None => params.push(SqlValue::VNull),
            }
            params.push(SqlValue::VInt(id));
            proof {
                assert(row_v(params@) =~= update_stmt_spec(id, payload_v(*p)).params);
            }
        },
        Payload::PLoan(l) => {
            sql = String::from_str(
                "UPDATE loans SET user_id = $1, book_id = $2, checkout_date = $3, due_date = $4, return_date = $5 WHERE id = $6",
            );
            params.push(SqlValue::VInt(l.user_id));
            params.push(SqlValue::VInt(l.book_id));
            params.push(SqlValue::VText(clone_chars(&l.checkout_date)));
            params.push(SqlValue::VText(clone_chars(&l.due_date)));
            match &l.return_date {
                Some(g) => params.push(SqlValue::VText(clone_chars(g))),
                None => params.push(SqlValue::VNull),
            }
            params.push(SqlValue::VInt(id));
            proof {
                assert(row_v(params@) =~= update_stmt_spec(id, payload_v(*p)).params);
            }
        },
        Payload::PReview(r) => {
            sql = String::from_str(
                "UPDATE reviews SET book_id = $1, user_id = $2, rating = $3, review_text = $4 WHERE id = $5",
            );
            params.push(SqlValue::VInt(r.book_id));
            params.push(SqlValue::VInt(r.user_id));
            params.push(SqlValue::VInt(r.rating));
            match &r.review_text {
                Some(g) => params.push(SqlValue::VText(clone_chars(g))),
                None => params.push(SqlValue::VNull),
            }
            params.push(SqlValue::VInt(id));
            proof {
                assert(row_v(params@) =~= update_stmt_spec(id, payload_v(*p)).params);
            }
        },
    }
    let st = Statement { sql, params };
    proof {
        assert(stmt_v(st).params =~= update_stmt_spec(id, payload_v(*p)).params);
    }
    st
}

/// The delete statement, by id.
pub open spec fn delete_sql(e: EntityKind) -> Seq<char> {
    match e {
        EntityKind::UserKind => "DELETE FROM users WHERE id = $1"@,
        EntityKind::BookKind => "DELETE FROM books WHERE id = $1"@,
        EntityKind::LoanKind => "DELETE FROM loans WHERE id = $1"@,
        EntityKind::ReviewKind => "DELETE FROM reviews WHERE id = $1"@,
    }
}

pub open spec fn delete_stmt_spec(e: EntityKind, id: i32) -> StatementV {
    StatementV { sql: delete_sql(e), params: seq![SqlValueV::VInt(id)] }
}

pub fn delete_stmt(e: EntityKind, id: i32) -> (st: Statement)
    ensures
        stmt_v(st) == delete_stmt_spec(e, id),
{
    let sql: String = match e {
        EntityKind::UserKind => String::from_str("DELETE FROM users WHERE id = $1"),
        EntityKind::BookKind => String::from_str("DELETE FROM books WHERE id = $1"),
        EntityKind::LoanKind => String::from_str("DELETE FROM loans WHERE id = $1"),
        EntityKind::ReviewKind => String::from_str("DELETE FROM reviews WHERE id = $1"),
    };
    let mut params: Vec<SqlValue> = Vec::new();
    params.push(SqlValue::VInt(id));
    let st = Statement { sql, params };
    proof {
        assert(stmt_v(st).params =~= delete_stmt_spec(e, id).params);
    }
    st
}

/// The user record held by a row of id, name and email columns.
pub open spec fn user_of_row(r: Seq<SqlValueV>) -> Option<UserV> {
    if r.len() == 3 {
        match (r[0], r[1], r[2]) {
            (SqlValueV::VInt(id), SqlValueV::VText(n), SqlValueV::VText(e)) => Some(
                UserV { id: Some(id), name: n, email: e },
            ),
            _ => None,
        }
    } else {
        None
    }
}

pub fn user_from_row(row: &Vec<SqlValue>) -> (r: Option<User>)
    ensures
        r matches Some(u) ==> user_of_row(row_v(row@)) == Some(user_v(u)),
        r is None ==> user_of_row(row_v(row@)) is None,
{
    if row.len() != 3 {
        return None;
    }
    match (&row[0], &row[1], &row[2]) {
        (SqlValue::VInt(id), SqlValue::VText(n), SqlValue::VText(e)) => Some(
            User { id: Some(*id), name: clone_chars(n), email: clone_chars(e) },
        ),
        _ => None,
    }
}

/// The book record held by a row of id, title, author and genre columns.
pub open spec fn book_of_row(r: Seq<SqlValueV>) -> Option<BookV> {
    if r.len() == 4 {
        match (r[0], r[1], r[2], r[3]) {
            (SqlValueV::VInt(id), SqlValueV::VText(t), SqlValueV::VText(a), SqlValueV::VText(g)) =>
                Some(BookV { id: Some(id), title: t, author: a, genre: Some(g) }),
            (SqlValueV::VInt(id), SqlValueV::VText(t), SqlValueV::VText(a), SqlValueV::VNull) =>
                Some(BookV { id: Some(id), title: t, author: a, genre: None }),
            _ => None,
        }
    } else {
        None
    }
}

pub fn book_from_row(row: &Vec<SqlValue>) -> (r: Option<Book>)
    ensures
        r matches Some(b) ==> book_of_row(row_v(row@)) == Some(book_v(b)),
        r is None ==> book_of_row(row_v(row@)) is None,
{
    if row.len() != 4 {
        return None;
    }
    match (&row[0], &row[1], &row[2], &row[3]) {
        (SqlValue::VInt(id), SqlValue::VText(t), SqlValue::VText(a), SqlValue::VText(g)) => Some(
            Book {
                id: Some(*id),
                title: clone_chars(t),
                author: clone_chars(a),
                genre: Some(clone_chars(g)),
            },
        ),
        (SqlValue::VInt(id), SqlValue::VText(t), SqlValue::VText(a), SqlValue::VNull) => Some(
            Book { id: Some(*id), title: clone_chars(t), author: clone_chars(a), genre: None },
        ),
        _ => None,
    }
}

/// The loan record held by a row of its six columns.
pub open spec fn loan_of_row(r: Seq<SqlValueV>) -> Option<LoanV> {
    if r.len() == 6 {
        match (r[0], r[1], r[2], r[3], r[4], r[5]) {
            (
                SqlValueV::VInt(id),
                SqlValueV::VInt(u),
                SqlValueV::VInt(b),
                SqlValueV::VText(c),
                SqlValueV::VText(d),
                SqlValueV::VText(rd),
            ) => Some(
                LoanV {
                    id: Some(id),
                    user_id: u,
                    book_id: b,
                    checkout_date: c,
                    due_date: d,
                    return_date: Some(rd),
                },
            ),
            (
                SqlValueV::VInt(id),
                SqlValueV::VInt(u),
                SqlValueV::VInt(b),
                SqlValueV::VText(c),
                SqlValueV::VText(d),
                SqlValueV::VNull,
            ) => Some(
                LoanV {
                    id: Some(id),
                    user_id: u,
                    book_id: b,
                    checkout_date: c,
                    due_date: d,
                    return_date: None,
                },
            ),
            _ => None,
        }
    } else {
        None
    }
}

pub fn loan_from_row(row: &Vec<SqlValue>) -> (r: Option<Loan>)
    ensures
        r matches Some(l) ==> loan_of_row(row_v(row@)) == Some(loan_v(l)),
        r is None ==> loan_of_row(row_v(row@)) is None,
{
    if row.len() != 6 {
        return None;
    }
    match (&row[0], &row[1], &row[2], &row[3], &row[4], &row[5]) {
        (
            SqlValue::VInt(id),
            SqlValue::VInt(u),
            SqlValue::VInt(b),
            SqlValue::VText(c),
            SqlValue::VText(d),
            SqlValue::VText(rd),
        ) => Some(
            Loan {
                id: Some(*id),
                user_id: *u,
                book_id: *b,
                checkout_date: clone_chars(c),
                due_date: clone_chars(d),
                return_date: Some(clone_chars(rd)),
            },
        ),
        (
            SqlValue::VInt(id),
            SqlValue::VInt(u),
            SqlValue::VInt(b),
            SqlValue::VText(c),
            SqlValue::VText(d),
            SqlValue::VNull,
        ) => Some(
            Loan {
                id: Some(*id),
                user_id: *u,
                book_id: *b,
                checkout_date: clone_chars(c),
                due_date: clone_chars(d),
                return_date: None,
            },
        ),
        _ => None,
    }
}

/// The review record held by a row of its five columns.
pub open spec fn review_of_row(r: Seq<SqlValueV>) -> Option<ReviewV> {
    if r.len() == 5 {
        match (r[0], r[1], r[2], r[3], r[4]) {
            (
                SqlValueV::VInt(id),
                SqlValueV::VInt(b),
                SqlValueV::VInt(u),
                SqlValueV::VInt(ra),
                SqlValueV::VText(t),
            ) => Some(
                ReviewV { id: Some(id), book_id: b, user_id: u, rating: ra, review_text: Some(t) },
            ),
            (
                SqlValueV::VInt(id),
                SqlValueV::VInt(b),
                SqlValueV::VInt(u),
                SqlValueV::VInt(ra),
                SqlValueV::VNull,
            ) => Some(
                ReviewV { id: Some(id), book_id: b, user_id: u, rating: ra, review_text: None },
            ),
            _ => None,
        }
    } else {
        None
    }
}

pub fn review_from_row(row: &Vec<SqlValue>) -> (r: Option<Review>)
    ensures
        r matches Some(rv) ==> review_of_row(row_v(row@)) == Some(review_v(rv)),
        r is None ==> review_of_row(row_v(row@)) is None,
{
    if row.len() != 5 {
        return None;
    }
    match (&row[0], &row[1], &row[2], &row[3], &row[4]) {
        (
            SqlValue::VInt(id),
            SqlValue::VInt(b),
            SqlValue::VInt(u),
            SqlValue::VInt(ra),
            SqlValue::VText(t),
        ) => Some(
            Review {
                id: Some(*id),
                book_id: *b,
                user_id: *u,
                rating: *ra,
                review_text: Some(clone_chars(t)),
            },
        ),
        (
            SqlValue::VInt(id),
            SqlValue::VInt(b),
            SqlValue::VInt(u),
            SqlValue::VInt(ra),
            SqlValue::VNull,
        ) => Some(
            Review { id: Some(*id), book_id: *b, user_id: *u, rating: *ra, review_text: None },
        ),
        _ => None,
    }
}

/// The idempotent table-provisioning statements, in dependency order:
/// referenced tables first.
pub fn schema_statements() -> (r: Vec<String>)
    ensures
        r@.len() == 4,
        r@[0]@ == "CREATE TABLE IF NOT EXISTS users (id SERIAL PRIMARY KEY, name VARCHAR NOT NULL, email VARCHAR NOT NULL)"@,
        r@[1]@ == "CREATE TABLE IF NOT EXISTS books (id SERIAL PRIMARY KEY, title VARCHAR NOT NULL, author VARCHAR NOT NULL, genre VARCHAR)"@,
        r@[2]@ == "CREATE TABLE IF NOT EXISTS loans (id SERIAL PRIMARY KEY, user_id INTEGER REFERENCES users(id), book_id INTEGER REFERENCES books(id), checkout_date VARCHAR NOT NULL, due_date VARCHAR NOT NULL, return_date VARCHAR)"@,
        r@[3]@ == "CREATE TABLE IF NOT EXISTS reviews (id SERIAL PRIMARY KEY, book_id INTEGER REFERENCES books(id), user_id INTEGER REFERENCES users(id), rating INTEGER NOT NULL, review_text TEXT)"@,
{
    let mut r: Vec<String> = Vec::new();
    r.push(
        String::from_str(
            "CREATE TABLE IF NOT EXISTS users (id SERIAL PRIMARY KEY, name VARCHAR NOT NULL, email VARCHAR NOT NULL)",
        ),
    );
    r.push(
        String::from_str(
            "CREATE TABLE IF NOT EXISTS books (id SERIAL PRIMARY KEY, title VARCHAR NOT NULL, author VARCHAR NOT NULL, genre VARCHAR)",
        ),
    );
    r.push(
        String::from_str(
            "CREATE TABLE IF NOT EXISTS loans (id SERIAL PRIMARY KEY, user_id INTEGER REFERENCES users(id), book_id INTEGER REFERENCES books(id), checkout_date VARCHAR NOT NULL, due_date VARCHAR NOT NULL, return_date VARCHAR)",
        ),
    );
    r.push(
        String::from_str(
            "CREATE TABLE IF NOT EXISTS reviews (id SERIAL PRIMARY KEY, book_id INTEGER REFERENCES books(id), user_id INTEGER REFERENCES users(id), rating INTEGER NOT NULL, review_text TEXT)",
        ),
    );
    r
}

} // verus!
