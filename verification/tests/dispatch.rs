use library_service::entities::EntityKind;
use library_service::router::{route, OpKind, Route};
use library_service::service::{
    internal_error_response, response_text, resume, start, HttpResponse, Pending, Status, Step,
};
use library_service::store::{DbOutcome, SqlValue, Statement};

fn chars(s: &str) -> Vec<char> {
    s.chars().collect()
}

const OK_LINE: &str = "HTTP/1.1 200 OK\r\nContent-Type: application/json\r\nAccess-Control-Allow-Origin: *\r\nAccess-Control-Allow-Methods: GET, POST, PUT, DELETE\r\nAccess-Control-Allow-Headers: Content-Type\r\n\r\n";

fn expect_reply(s: Step) -> HttpResponse {
    match s {
        Step::Reply(r) => r,
        Step::Query(_, _) => panic!("expected a reply, got a query"),
    }
}

fn expect_query(s: Step) -> (Statement, Pending) {
    match s {
        Step::Query(st, p) => (st, p),
        Step::Reply(_) => panic!("expected a query, got a reply"),
    }
}

fn row(vals: Vec<SqlValue>) -> Vec<Vec<SqlValue>> {
    vec![vals]
}

#[test]
fn route_precedence_collection_vs_item() {
    for (coll, kind) in [
        ("users", EntityKind::UserKind),
        ("books", EntityKind::BookKind),
        ("loans", EntityKind::LoanKind),
        ("reviews", EntityKind::ReviewKind),
    ] {
        let all = chars(&format!("GET /api/rust/{} HTTP/1.1", coll));
        let one = chars(&format!("GET /api/rust/{}/42 HTTP/1.1", coll));
        assert_eq!(route(&all), Route::Dispatch(kind, OpKind::ReadAllOp));
        assert_eq!(route(&one), Route::Dispatch(kind, OpKind::ReadOp));
    }
}

#[test]
fn route_order_of_methods() {
    assert_eq!(
        route(&chars("POST /api/rust/books HTTP/1.1")),
        Route::Dispatch(EntityKind::BookKind, OpKind::CreateOp)
    );
    assert_eq!(
        route(&chars("PUT /api/rust/books/3 HTTP/1.1")),
        Route::Dispatch(EntityKind::BookKind, OpKind::UpdateOp)
    );
    assert_eq!(
        route(&chars("DELETE /api/rust/books/3 HTTP/1.1")),
        Route::Dispatch(EntityKind::BookKind, OpKind::DeleteOp)
    );
    assert_eq!(route(&chars("PATCH /api/rust/books/3 HTTP/1.1")), Route::NoRoute);
}

#[test]
fn options_any_path_is_ok_empty() {
    let r = expect_reply(start(&chars("OPTIONS /api/rust/whatever HTTP/1.1\r\n\r\n")));
    assert_eq!(r.status, Status::StOk);
    assert_eq!(r.body, chars(""));
    assert_eq!(response_text(&r), chars(OK_LINE));
}

#[test]
fn unmatched_route_is_404() {
    let r = expect_reply(start(&chars("GET /other HTTP/1.1\r\n\r\n")));
    assert_eq!(r.status, Status::StNotFound);
    assert_eq!(r.body, chars("404 not found"));
    assert_eq!(
        response_text(&r),
        chars("HTTP/1.1 404 NOT FOUND\r\n\r\n404 not found")
    );
}

#[test]
fn user_create_read_delete_scenario() {
    // create
    let req = chars(
        "POST /api/rust/users HTTP/1.1\r\nContent-Type: application/json\r\n\r\n{\"name\":\"Ada\",\"email\":\"ada@x.io\"}",
    );
    let (stmt, pending) = expect_query(start(&req));
    assert_eq!(
        stmt.sql,
        "INSERT INTO users (name, email) VALUES ($1, $2) RETURNING id"
    );
    assert_eq!(
        stmt.params,
        vec![SqlValue::VText(chars("Ada")), SqlValue::VText(chars("ada@x.io"))]
    );
    let (stmt2, pending2) = expect_query(resume(pending, DbOutcome::Rows(row(vec![
        SqlValue::VInt(1),
    ]))));
    assert_eq!(stmt2.sql, "SELECT id, name, email FROM users WHERE id = $1");
    assert_eq!(stmt2.params, vec![SqlValue::VInt(1)]);
    let full_row = vec![
        SqlValue::VInt(1),
        SqlValue::VText(chars("Ada")),
        SqlValue::VText(chars("ada@x.io")),
    ];
    let r = expect_reply(resume(pending2, DbOutcome::Rows(row(full_row.clone()))));
    assert_eq!(r.status, Status::StOk);
    assert_eq!(r.body, chars("{\"id\":1,\"name\":\"Ada\",\"email\":\"ada@x.io\"}"));

    // read it back
    let (stmt3, pending3) = expect_query(start(&chars("GET /api/rust/users/1 HTTP/1.1\r\n\r\n")));
    assert_eq!(stmt3.sql, "SELECT * FROM users WHERE id = $1");
    assert_eq!(stmt3.params, vec![SqlValue::VInt(1)]);
    let r2 = expect_reply(resume(pending3, DbOutcome::Rows(row(full_row))));
    assert_eq!(r2.status, Status::StOk);
    assert_eq!(r2.body, chars("{\"id\":1,\"name\":\"Ada\",\"email\":\"ada@x.io\"}"));

    // delete
    let (stmt4, pending4) =
        expect_query(start(&chars("DELETE /api/rust/users/1 HTTP/1.1\r\n\r\n")));
    assert_eq!(stmt4.sql, "DELETE FROM users WHERE id = $1");
    let r3 = expect_reply(resume(pending4, DbOutcome::Count(1)));
    assert_eq!(r3.status, Status::StOk);
    assert_eq!(r3.body, chars("User deleted"));

    // read again: gone
    let (_stmt5, pending5) = expect_query(start(&chars("GET /api/rust/users/1 HTTP/1.1\r\n\r\n")));
    let r4 = expect_reply(resume(pending5, DbOutcome::Rows(Vec::new())));
    assert_eq!(r4.status, Status::StNotFound);
    assert_eq!(r4.body, chars("User not found"));
}

#[test]
fn book_create_with_genre_omitted() {
    let req = chars(
        "POST /api/rust/books HTTP/1.1\r\n\r\n{\"title\":\"T\",\"author\":\"A\"}",
    );
    let (stmt, pending) = expect_query(start(&req));
    assert_eq!(
        stmt.sql,
        "INSERT INTO books (title, author, genre) VALUES ($1, $2, $3) RETURNING id"
    );
    assert_eq!(
        stmt.params,
        vec![
            SqlValue::VText(chars("T")),
            SqlValue::VText(chars("A")),
            SqlValue::VNull,
        ]
    );
    let (_stmt2, pending2) = expect_query(resume(pending, DbOutcome::Rows(row(vec![
        SqlValue::VInt(1),
    ]))));
    let r = expect_reply(resume(
        pending2,
        DbOutcome::Rows(row(vec![
            SqlValue::VInt(1),
            SqlValue::VText(chars("T")),
            SqlValue::VText(chars("A")),
            SqlValue::VNull,
        ])),
    ));
    assert_eq!(r.status, Status::StOk);
    assert_eq!(
        r.body,
        chars("{\"id\":1,\"title\":\"T\",\"author\":\"A\",\"genre\":null}")
    );
}

#[test]
fn loan_missing_is_404() {
    let (stmt, pending) = expect_query(start(&chars("GET /api/rust/loans/999 HTTP/1.1\r\n\r\n")));
    assert_eq!(stmt.sql, "SELECT * FROM loans WHERE id = $1");
    assert_eq!(stmt.params, vec![SqlValue::VInt(999)]);
    let r = expect_reply(resume(pending, DbOutcome::Rows(Vec::new())));
    assert_eq!(r.status, Status::StNotFound);
    assert_eq!(r.body, chars("Loan not found"));
}

#[test]
fn update_on_missing_id_reports_success() {
    let req = chars(
        "PUT /api/rust/users/12345 HTTP/1.1\r\n\r\n{\"name\":\"N\",\"email\":\"e\"}",
    );
    let (stmt, pending) = expect_query(start(&req));
    assert_eq!(stmt.sql, "UPDATE users SET name = $1, email = $2 WHERE id = $3");
    assert_eq!(
        stmt.params,
        vec![
            SqlValue::VText(chars("N")),
            SqlValue::VText(chars("e")),
            SqlValue::VInt(12345),
        ]
    );
    let r = expect_reply(resume(pending, DbOutcome::Count(0)));
    assert_eq!(r.status, Status::StOk);
    assert_eq!(r.body, chars("User updated"));
}

#[test]
fn delete_on_missing_id_is_404() {
    let (_stmt, pending) =
        expect_query(start(&chars("DELETE /api/rust/books/9 HTTP/1.1\r\n\r\n")));
    let r = expect_reply(resume(pending, DbOutcome::Count(0)));
    assert_eq!(r.status, Status::StNotFound);
    assert_eq!(r.body, chars("Book not found"));
}

#[test]
fn read_all_empty_table_is_empty_array() {
    let (stmt, pending) = expect_query(start(&chars("GET /api/rust/books HTTP/1.1\r\n\r\n")));
    assert_eq!(stmt.sql, "SELECT id, title, author, genre FROM books");
    assert!(stmt.params.is_empty());
    let r = expect_reply(resume(pending, DbOutcome::Rows(Vec::new())));
    assert_eq!(r.status, Status::StOk);
    assert_eq!(r.body, chars("[]"));
}

#[test]
fn read_all_two_reviews() {
    let (_stmt, pending) = expect_query(start(&chars("GET /api/rust/reviews HTTP/1.1\r\n\r\n")));
    let rows = vec![
        vec![
            SqlValue::VInt(1),
            SqlValue::VInt(2),
            SqlValue::VInt(3),
            SqlValue::VInt(5),
            SqlValue::VText(chars("fine")),
        ],
        vec![
            SqlValue::VInt(2),
            SqlValue::VInt(2),
            SqlValue::VInt(4),
            SqlValue::VInt(1),
            SqlValue::VNull,
        ],
    ];
    let r = expect_reply(resume(pending, DbOutcome::Rows(rows)));
    assert_eq!(r.status, Status::StOk);
    assert_eq!(
        r.body,
        chars(
            "[{\"id\":1,\"book_id\":2,\"user_id\":3,\"rating\":5,\"review_text\":\"fine\"},{\"id\":2,\"book_id\":2,\"user_id\":4,\"rating\":1,\"review_text\":null}]"
        )
    );
}

#[test]
fn create_with_bad_body_is_internal_error() {
    let req = chars("POST /api/rust/users HTTP/1.1\r\n\r\nnot json");
    let r = expect_reply(start(&req));
    assert_eq!(r.status, Status::StInternalError);
    assert_eq!(r.body, chars("Internal error"));
    assert_eq!(
        response_text(&r),
        chars("HTTP/1.1 500 INTERNAL ERROR\r\n\r\nInternal error")
    );
}

#[test]
fn read_with_bad_id_is_internal_error() {
    let r = expect_reply(start(&chars("GET /api/rust/users/abc HTTP/1.1\r\n\r\n")));
    assert_eq!(r.status, Status::StInternalError);
    assert_eq!(r.body, chars("Internal error"));
}

#[test]
fn create_insert_failure_is_internal_error() {
    let req = chars(
        "POST /api/rust/users HTTP/1.1\r\n\r\n{\"name\":\"A\",\"email\":\"b\"}",
    );
    let (_stmt, pending) = expect_query(start(&req));
    let r = expect_reply(resume(pending, DbOutcome::Failure));
    assert_eq!(r.status, Status::StInternalError);
    assert_eq!(r.body, chars("Internal error"));
}

#[test]
fn create_reselect_failure_names_entity() {
    let req = chars(
        "POST /api/rust/loans HTTP/1.1\r\n\r\n{\"user_id\":1,\"book_id\":2,\"checkout_date\":\"c\",\"due_date\":\"d\"}",
    );
    let (_stmt, pending) = expect_query(start(&req));
    let (_stmt2, pending2) = expect_query(resume(pending, DbOutcome::Rows(row(vec![
        SqlValue::VInt(8),
    ]))));
    let r = expect_reply(resume(pending2, DbOutcome::Failure));
    assert_eq!(r.status, Status::StInternalError);
    assert_eq!(r.body, chars("Failed to retrieve created loan"));
}

#[test]
fn connect_failure_reply() {
    let r = internal_error_response();
    assert_eq!(r.status, Status::StInternalError);
    assert_eq!(r.body, chars("Internal error"));
}

#[test]
fn schema_statements_in_dependency_order() {
    let stmts = library_service::store::schema_statements();
    assert_eq!(stmts.len(), 4);
    assert!(stmts[0].contains("users"));
    assert!(stmts[1].contains("books"));
    assert!(stmts[2].contains("loans"));
    assert!(stmts[2].contains("REFERENCES users(id)"));
    assert!(stmts[3].contains("reviews"));
    assert!(stmts[3].contains("REFERENCES books(id)"));
}

#[test]
fn review_delete_and_update_messages() {
    let (_stmt, pending) =
        expect_query(start(&chars("DELETE /api/rust/reviews/5 HTTP/1.1\r\n\r\n")));
    let r = expect_reply(resume(pending, DbOutcome::Count(0)));
    assert_eq!(r.status, Status::StNotFound);
    assert_eq!(r.body, chars("Review not found"));

    let req = chars(
        "PUT /api/rust/reviews/5 HTTP/1.1\r\n\r\n{\"book_id\":1,\"user_id\":2,\"rating\":3}",
    );
    let (stmt, pending2) = expect_query(start(&req));
    assert_eq!(
        stmt.sql,
        "UPDATE reviews SET book_id = $1, user_id = $2, rating = $3, review_text = $4 WHERE id = $5"
    );
    assert_eq!(
        stmt.params,
        vec![
            SqlValue::VInt(1),
            SqlValue::VInt(2),
            SqlValue::VInt(3),
            SqlValue::VNull,
            SqlValue::VInt(5),
        ]
    );
    let r2 = expect_reply(resume(pending2, DbOutcome::Count(1)));
    assert_eq!(r2.status, Status::StOk);
    assert_eq!(r2.body, chars("Review updated"));
}
