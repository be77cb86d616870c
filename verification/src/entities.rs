//! The four entity records of the service. `id` is assigned by the store on
//! creation: it is absent on a create request and present on every record
//! read back. Dates are opaque strings; nullable columns are `Option`s.
//!
//! Text is carried as `Vec<char>`: the decoded text view of the wire bytes.
//! Each record has a ghost view over `Seq<char>` that the contracts speak of.
use vstd::prelude::*;

verus! {

#[derive(PartialEq, Eq, Debug)]
pub struct User {
    pub id: Option<i32>,
    pub name: Vec<char>,
    pub email: Vec<char>,
}

pub ghost struct UserV {
    pub id: Option<i32>,
    pub name: Seq<char>,
    pub email: Seq<char>,
}

pub open spec fn user_v(u: User) -> UserV {
    UserV { id: u.id, name: u.name@, email: u.email@ }
}

#[derive(PartialEq, Eq, Debug)]
pub struct Book {
    pub id: Option<i32>,
    pub title: Vec<char>,
    pub author: Vec<char>,
    pub genre: Option<Vec<char>>,
}

pub ghost struct BookV {
    pub id: Option<i32>,
    pub title: Seq<char>,
    pub author: Seq<char>,
    pub genre: Option<Seq<char>>,
}

pub open spec fn opt_text_v(o: Option<Vec<char>>) -> Option<Seq<char>> {
    match o {
        Some(v) => Some(v@),
        None => None,
    }
}

pub open spec fn book_v(b: Book) -> BookV {
    BookV { id: b.id, title: b.title@, author: b.author@, genre: opt_text_v(b.genre) }
}

#[derive(PartialEq, Eq, Debug)]
pub struct Loan {
    pub id: Option<i32>,
    pub user_id: i32,
    pub book_id: i32,
    pub checkout_date: Vec<char>,
    pub due_date: Vec<char>,
    pub return_date: Option<Vec<char>>,
}

pub ghost struct LoanV {
    pub id: Option<i32>,
    pub user_id: i32,
    pub book_id: i32,
    pub checkout_date: Seq<char>,
    pub due_date: Seq<char>,
    pub return_date: Option<Seq<char>>,
}

pub open spec fn loan_v(l: Loan) -> LoanV {
    LoanV {
        id: l.id,
        user_id: l.user_id,
        book_id: l.book_id,
        checkout_date: l.checkout_date@,
        due_date: l.due_date@,
        return_date: opt_text_v(l.return_date),
    }
}

#[derive(PartialEq, Eq, Debug)]
pub struct Review {
    pub id: Option<i32>,
    pub book_id: i32,
    pub user_id: i32,
    pub rating: i32,
    pub review_text: Option<Vec<char>>,
}

pub ghost struct ReviewV {
    pub id: Option<i32>,
    pub book_id: i32,
    pub user_id: i32,
    pub rating: i32,
    pub review_text: Option<Seq<char>>,
}

pub open spec fn review_v(r: Review) -> ReviewV {
    ReviewV {
        id: r.id,
        book_id: r.book_id,
        user_id: r.user_id,
        rating: r.rating,
        review_text: opt_text_v(r.review_text),
    }
}

/// The four kinds of entity, as the router names them.
#[derive(Clone, Copy, PartialEq, Eq, Structural, Debug)]
pub enum EntityKind {
    UserKind,
    BookKind,
    LoanKind,
    ReviewKind,
}

/// A create or update request body, decoded: one of the four records.
pub enum Payload {
    PUser(User),
    PBook(Book),
    PLoan(Loan),
    PReview(Review),
}

pub ghost enum PayloadV {
    PUser(UserV),
    PBook(BookV),
    PLoan(LoanV),
    PReview(ReviewV),
}

pub open spec fn payload_v(p: Payload) -> PayloadV {
    match p {
        Payload::PUser(u) => PayloadV::PUser(user_v(u)),
        Payload::PBook(b) => PayloadV::PBook(book_v(b)),
        Payload::PLoan(l) => PayloadV::PLoan(loan_v(l)),
        Payload::PReview(r) => PayloadV::PReview(review_v(r)),
    }
}

pub open spec fn kind_of(p: PayloadV) -> EntityKind {
    match p {
        PayloadV::PUser(_) => EntityKind::UserKind,
        PayloadV::PBook(_) => EntityKind::BookKind,
        PayloadV::PLoan(_) => EntityKind::LoanKind,
        PayloadV::PReview(_) => EntityKind::ReviewKind,
    }
}

} // verus!
