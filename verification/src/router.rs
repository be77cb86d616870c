//! The path router: an ordered list of method and path-prefix predicates,
//! first match wins. Order is load-bearing: per collection, the item
//! routes (trailing slash) stand before the collection route, else a
//! read-all prefix would also claim every read-by-id request. A CORS
//! preflight short-circuits before any entity matching.
use vstd::prelude::*;

use crate::entities::EntityKind;
use crate::text::{is_prefix_of, starts_with_lit};

verus! {

#[derive(Clone, Copy, PartialEq, Eq, Structural, Debug)]
pub enum OpKind {
    CreateOp,
    ReadOp,
    ReadAllOp,
    UpdateOp,
    DeleteOp,
}

#[derive(Clone, Copy, PartialEq, Eq, Structural, Debug)]
pub enum Route {
    Preflight,
    Dispatch(EntityKind, OpKind),
    NoRoute,
}

/// The route of a request, by the ordered prefix table.
pub open spec fn route_of(s: Seq<char>) -> Route {
    if is_prefix_of("OPTIONS"@, s) {
        Route::Preflight
    } else if is_prefix_of("POST /api/rust/users"@, s) {
        Route::Dispatch(EntityKind::UserKind, OpKind::CreateOp)
    } else if is_prefix_of("GET /api/rust/users/"@, s) {
        Route::Dispatch(EntityKind::UserKind, OpKind::ReadOp)
    } else if is_prefix_of("GET /api/rust/users"@, s) {
        Route::Dispatch(EntityKind::UserKind, OpKind::ReadAllOp)
    } else if is_prefix_of("PUT /api/rust/users/"@, s) {
        Route::Dispatch(EntityKind::UserKind, OpKind::UpdateOp)
    } else if is_prefix_of("DELETE /api/rust/users/"@, s) {
        Route::Dispatch(EntityKind::UserKind, OpKind::DeleteOp)
    } else if is_prefix_of("POST /api/rust/books"@, s) {
        Route::Dispatch(EntityKind::BookKind, OpKind::CreateOp)
    } else if is_prefix_of("GET /api/rust/books/"@, s) {
        Route::Dispatch(EntityKind::BookKind, OpKind::ReadOp)
    } else if is_prefix_of("GET /api/rust/books"@, s) {
        Route::Dispatch(EntityKind::BookKind, OpKind::ReadAllOp)
    } else if is_prefix_of("PUT /api/rust/books/"@, s) {
        Route::Dispatch(EntityKind::BookKind, OpKind::UpdateOp)
    } else if is_prefix_of("DELETE /api/rust/books/"@, s) {
        Route::Dispatch(EntityKind::BookKind, OpKind::DeleteOp)
    } else if is_prefix_of("POST /api/rust/loans"@, s) {
        Route::Dispatch(EntityKind::LoanKind, OpKind::CreateOp)
    } else if is_prefix_of("GET /api/rust/loans/"@, s) {
        Route::Dispatch(EntityKind::LoanKind, OpKind::ReadOp)
    } else if is_prefix_of("GET /api/rust/loans"@, s) {
        Route::Dispatch(EntityKind::LoanKind, OpKind::ReadAllOp)
    } else if is_prefix_of("PUT /api/rust/loans/"@, s) {
        Route::Dispatch(EntityKind::LoanKind, OpKind::UpdateOp)
    } else if is_prefix_of("DELETE /api/rust/loans/"@, s) {
        Route::Dispatch(EntityKind::LoanKind, OpKind::DeleteOp)
    } else if is_prefix_of("POST /api/rust/reviews"@, s) {
        Route::Dispatch(EntityKind::ReviewKind, OpKind::CreateOp)
    } else if is_prefix_of("GET /api/rust/reviews/"@, s) {
        Route::Dispatch(EntityKind::ReviewKind, OpKind::ReadOp)
    } else if is_prefix_of("GET /api/rust/reviews"@, s) {
        Route::Dispatch(EntityKind::ReviewKind, OpKind::ReadAllOp)
    } else if is_prefix_of("PUT /api/rust/reviews/"@, s) {
        Route::Dispatch(EntityKind::ReviewKind, OpKind::UpdateOp)
    } else if is_prefix_of("DELETE /api/rust/reviews/"@, s) {
        Route::Dispatch(EntityKind::ReviewKind, OpKind::DeleteOp)
    } else {
        Route::NoRoute
    }
}

pub fn route(request: &Vec<char>) -> (r: Route)
    ensures
        r == route_of(request@),
{
    if starts_with_lit(request, "OPTIONS") {
        Route::Preflight
    } else if starts_with_lit(request, "POST /api/rust/users") {
        Route::Dispatch(EntityKind::UserKind, OpKind::CreateOp)
    } else if starts_with_lit(request, "GET /api/rust/users/") {
        Route::Dispatch(EntityKind::UserKind, OpKind::ReadOp)
    } else if starts_with_lit(request, "GET /api/rust/users") {
        Route::Dispatch(EntityKind::UserKind, OpKind::ReadAllOp)
    } else if starts_with_lit(request, "PUT /api/rust/users/") {
        Route::Dispatch(EntityKind::UserKind, OpKind::UpdateOp)
    } else if starts_with_lit(request, "DELETE /api/rust/users/") {
        Route::Dispatch(EntityKind::UserKind, OpKind::DeleteOp)
    } else if starts_with_lit(request, "POST /api/rust/books") {
        Route::Dispatch(EntityKind::BookKind, OpKind::CreateOp)
    } else if starts_with_lit(request, "GET /api/rust/books/") {
        Route::Dispatch(EntityKind::BookKind, OpKind::ReadOp)
    } else if starts_with_lit(request, "GET /api/rust/books") {
        Route::Dispatch(EntityKind::BookKind, OpKind::ReadAllOp)
    } else if starts_with_lit(request, "PUT /api/rust/books/") {
        Route::Dispatch(EntityKind::BookKind, OpKind::UpdateOp)
    } else if starts_with_lit(request, "DELETE /api/rust/books/") {
        Route::Dispatch(EntityKind::BookKind, OpKind::DeleteOp)
    } else if starts_with_lit(request, "POST /api/rust/loans") {
        Route::Dispatch(EntityKind::LoanKind, OpKind::CreateOp)
    } else if starts_with_lit(request, "GET /api/rust/loans/") {
        Route::Dispatch(EntityKind::LoanKind, OpKind::ReadOp)
    } else if starts_with_lit(request, "GET /api/rust/loans") {
        Route::Dispatch(EntityKind::LoanKind, OpKind::ReadAllOp)
    } else if starts_with_lit(request, "PUT /api/rust/loans/") {
        Route::Dispatch(EntityKind::LoanKind, OpKind::UpdateOp)
    } else if starts_with_lit(request, "DELETE /api/rust/loans/") {
        Route::Dispatch(EntityKind::LoanKind, OpKind::DeleteOp)
    } else if starts_with_lit(request, "POST /api/rust/reviews") {
        Route::Dispatch(EntityKind::ReviewKind, OpKind::CreateOp)
    } else if starts_with_lit(request, "GET /api/rust/reviews/") {
        Route::Dispatch(EntityKind::ReviewKind, OpKind::ReadOp)
    } else if starts_with_lit(request, "GET /api/rust/reviews") {
        Route::Dispatch(EntityKind::ReviewKind, OpKind::ReadAllOp)
    } else if starts_with_lit(request, "PUT /api/rust/reviews/") {
        Route::Dispatch(EntityKind::ReviewKind, OpKind::UpdateOp)
    } else if starts_with_lit(request, "DELETE /api/rust/reviews/") {
        Route::Dispatch(EntityKind::ReviewKind, OpKind::DeleteOp)
    } else {
        Route::NoRoute
    }
}

} // verus!
