use library_service::decode::{decode_book, decode_loan, decode_review, decode_user};
use library_service::encode::{encode_book, encode_review, encode_user, encode_users};
use library_service::entities::{Book, Review, User};
use library_service::request::{body_of, get_id, parse_id, path_id};

fn chars(s: &str) -> Vec<char> {
    s.chars().collect()
}

#[test]
fn encode_user_with_id() {
    let u = User { id: Some(1), name: chars("Ada"), email: chars("ada@x.io") };
    assert_eq!(encode_user(&u), chars("{\"id\":1,\"name\":\"Ada\",\"email\":\"ada@x.io\"}"));
}

#[test]
fn encode_user_without_id() {
    let u = User { id: None, name: chars("Ada"), email: chars("a") };
    assert_eq!(encode_user(&u), chars("{\"id\":null,\"name\":\"Ada\",\"email\":\"a\"}"));
}

#[test]
fn encode_book_genre_null() {
    let b = Book { id: Some(7), title: chars("T"), author: chars("A"), genre: None };
    assert_eq!(
        encode_book(&b),
        chars("{\"id\":7,\"title\":\"T\",\"author\":\"A\",\"genre\":null}")
    );
}

#[test]
fn encode_negative_rating() {
    let r = Review {
        id: Some(3),
        book_id: 1,
        user_id: 2,
        rating: -5,
        review_text: None,
    };
    assert_eq!(
        encode_review(&r),
        chars(
            "{\"id\":3,\"book_id\":1,\"user_id\":2,\"rating\":-5,\"review_text\":null}"
        )
    );
}

#[test]
fn encode_escapes_specials() {
    let u = User { id: Some(1), name: chars("A\"B\\C\nD"), email: chars("e") };
    assert_eq!(
        encode_user(&u),
        chars("{\"id\":1,\"name\":\"A\\\"B\\\\C\\nD\",\"email\":\"e\"}")
    );
}

#[test]
fn encode_empty_list() {
    let us: Vec<User> = Vec::new();
    assert_eq!(encode_users(&us), chars("[]"));
}

#[test]
fn encode_list_of_two() {
    let us = vec![
        User { id: Some(1), name: chars("A"), email: chars("a") },
        User { id: Some(2), name: chars("B"), email: chars("b") },
    ];
    assert_eq!(
        encode_users(&us),
        chars(
            "[{\"id\":1,\"name\":\"A\",\"email\":\"a\"},{\"id\":2,\"name\":\"B\",\"email\":\"b\"}]"
        )
    );
}

#[test]
fn decode_user_ok() {
    let u = decode_user(&chars("{\"name\":\"Ada\",\"email\":\"ada@x.io\"}")).unwrap();
    assert_eq!(u.id, None);
    assert_eq!(u.name, chars("Ada"));
    assert_eq!(u.email, chars("ada@x.io"));
}

#[test]
fn decode_user_tolerates_whitespace() {
    let u = decode_user(&chars("  { \"name\" : \"Ada\" ,\n \"email\" : \"a\" }  ")).unwrap();
    assert_eq!(u.name, chars("Ada"));
    assert_eq!(u.email, chars("a"));
}

#[test]
fn decode_user_missing_field_fails() {
    assert!(decode_user(&chars("{\"name\":\"Ada\"}")).is_none());
}

#[test]
fn decode_user_type_mismatch_fails() {
    assert!(decode_user(&chars("{\"name\":5,\"email\":\"a\"}")).is_none());
}

#[test]
fn decode_user_malformed_fails() {
    assert!(decode_user(&chars("{\"name\":\"Ada\",\"email\":\"a\"")).is_none());
    assert!(decode_user(&chars("")).is_none());
    assert!(decode_user(&chars("not json")).is_none());
}

#[test]
fn decode_user_trailing_text_fails() {
    assert!(decode_user(&chars("{\"name\":\"A\",\"email\":\"b\"} x")).is_none());
}

#[test]
fn decode_book_genre_omitted() {
    let b = decode_book(&chars("{\"title\":\"T\",\"author\":\"A\"}")).unwrap();
    assert_eq!(b.genre, None);
}

#[test]
fn decode_book_genre_null() {
    let b = decode_book(&chars("{\"title\":\"T\",\"author\":\"A\",\"genre\":null}")).unwrap();
    assert_eq!(b.genre, None);
}

#[test]
fn decode_book_genre_present() {
    let b = decode_book(&chars("{\"title\":\"T\",\"author\":\"A\",\"genre\":\"sf\"}")).unwrap();
    assert_eq!(b.genre, Some(chars("sf")));
}

#[test]
fn decode_loan_full() {
    let l = decode_loan(&chars(
        "{\"user_id\":1,\"book_id\":2,\"checkout_date\":\"2024-01-01\",\"due_date\":\"2024-02-01\"}",
    ))
    .unwrap();
    assert_eq!(l.user_id, 1);
    assert_eq!(l.book_id, 2);
    assert_eq!(l.checkout_date, chars("2024-01-01"));
    assert_eq!(l.due_date, chars("2024-02-01"));
    assert_eq!(l.return_date, None);
}

#[test]
fn decode_review_text_null() {
    let r = decode_review(&chars(
        "{\"book_id\":1,\"user_id\":2,\"rating\":4,\"review_text\":null}",
    ))
    .unwrap();
    assert_eq!(r.rating, 4);
    assert_eq!(r.review_text, None);
}

#[test]
fn decode_rejects_leading_zero_int() {
    assert!(decode_review(&chars("{\"book_id\":1,\"user_id\":2,\"rating\":007}")).is_none());
}

#[test]
fn decode_rejects_int_overflow() {
    assert!(
        decode_review(&chars("{\"book_id\":1,\"user_id\":2,\"rating\":99999999999}")).is_none()
    );
}

#[test]
fn decode_escape_sequences() {
    let u = decode_user(&chars("{\"name\":\"A\\\"B\\\\C\\nD\",\"email\":\"e\"}")).unwrap();
    assert_eq!(u.name, chars("A\"B\\C\nD"));
}

#[test]
fn decode_ignores_unknown_scalar_member() {
    let u = decode_user(&chars("{\"name\":\"A\",\"email\":\"b\",\"extra\":3}")).unwrap();
    assert_eq!(u.name, chars("A"));
}

#[test]
fn decode_accepts_supplied_id() {
    let u = decode_user(&chars("{\"id\":9,\"name\":\"A\",\"email\":\"b\"}")).unwrap();
    assert_eq!(u.id, Some(9));
}

#[test]
fn body_after_first_blank_line() {
    let req = chars("POST /x HTTP/1.1\r\nHost: h\r\n\r\n{\"k\":1}");
    assert_eq!(body_of(&req), chars("{\"k\":1}"));
}

#[test]
fn body_missing_separator_is_empty() {
    assert_eq!(body_of(&chars("POST /x HTTP/1.1\r\nHost: h")), chars(""));
}

#[test]
fn get_id_reads_fifth_segment() {
    assert_eq!(get_id(&chars("GET /api/rust/users/42 HTTP/1.1\r\n\r\n")), chars("42"));
}

#[test]
fn get_id_cuts_at_next_slash() {
    assert_eq!(get_id(&chars("GET /api/rust/users/42/extra HTTP/1.1")), chars("42"));
}

#[test]
fn get_id_without_id_segment_reads_protocol_tail() {
    // With no id segment the fourth slash is the one inside the protocol
    // version, so the raw id text is its tail and integer parsing fails.
    assert_eq!(get_id(&chars("GET /api/rust/users HTTP/1.1")), chars("1.1"));
    assert_eq!(path_id(&chars("GET /api/rust/users HTTP/1.1")), None);
    assert_eq!(get_id(&chars("GET /api/rust/users")), chars(""));
}

#[test]
fn parse_id_plain_and_signed() {
    assert_eq!(parse_id(&chars("42")), Some(42));
    assert_eq!(parse_id(&chars("+42")), Some(42));
    assert_eq!(parse_id(&chars("-42")), Some(-42));
    assert_eq!(parse_id(&chars("007")), Some(7));
}

#[test]
fn parse_id_rejects_junk() {
    assert_eq!(parse_id(&chars("")), None);
    assert_eq!(parse_id(&chars("abc")), None);
    assert_eq!(parse_id(&chars("4a")), None);
    assert_eq!(parse_id(&chars("+")), None);
}

#[test]
fn parse_id_range_limits() {
    assert_eq!(parse_id(&chars("2147483647")), Some(2147483647));
    assert_eq!(parse_id(&chars("2147483648")), None);
    assert_eq!(parse_id(&chars("-2147483648")), Some(-2147483648));
    assert_eq!(parse_id(&chars("-2147483649")), None);
}

#[test]
fn path_id_end_to_end() {
    assert_eq!(path_id(&chars("GET /api/rust/loans/999 HTTP/1.1")), Some(999));
    assert_eq!(path_id(&chars("GET /api/rust/loans/abc HTTP/1.1")), None);
}

#[test]
fn user_encode_decode_round_trip() {
    let u = User { id: Some(7), name: chars("A\"B\\C"), email: chars("x@y") };
    let back = decode_user(&encode_user(&u)).unwrap();
    assert_eq!(back, u);
}

#[test]
fn book_encode_decode_round_trip() {
    let b = Book { id: None, title: chars("T\tT"), author: chars("A"), genre: None };
    let back = decode_book(&encode_book(&b)).unwrap();
    assert_eq!(back, b);
}

#[test]
fn decode_unicode_escape() {
    let u = decode_user(&chars("{\"name\":\"\\u0041\",\"email\":\"b\"}")).unwrap();
    assert_eq!(u.name, chars("A"));
}

#[test]
fn decode_surrogate_pair() {
    let u = decode_user(&chars("{\"name\":\"\\uD83D\\uDE00\",\"email\":\"b\"}")).unwrap();
    assert_eq!(u.name, chars("\u{1F600}"));
}

#[test]
fn decode_lone_surrogate_fails() {
    assert!(decode_user(&chars("{\"name\":\"\\uD83D\",\"email\":\"b\"}")).is_none());
    assert!(decode_user(&chars("{\"name\":\"\\uDE00\",\"email\":\"b\"}")).is_none());
}

#[test]
fn decode_raw_control_char_fails() {
    assert!(decode_user(&chars("{\"name\":\"a\u{1}b\",\"email\":\"b\"}")).is_none());
}

#[test]
fn decode_ignores_non_scalar_members() {
    let u = decode_user(&chars(
        "{\"name\":\"A\",\"email\":\"b\",\"flag\":true,\"xs\":[1,\"a\",[2],null],\"o\":{\"k\":false},\"f\":1.5e3}",
    ))
    .unwrap();
    assert_eq!(u.name, chars("A"));
}

#[test]
fn decode_non_scalar_known_field_fails() {
    assert!(decode_user(&chars("{\"name\":true,\"email\":\"b\"}")).is_none());
    assert!(decode_user(&chars("{\"name\":[\"A\"],\"email\":\"b\"}")).is_none());
    assert!(decode_review(&chars("{\"book_id\":1,\"user_id\":2,\"rating\":1.5}")).is_none());
}

#[test]
fn decode_duplicate_field_fails() {
    assert!(decode_user(&chars("{\"name\":\"A\",\"name\":\"B\",\"email\":\"b\"}")).is_none());
    let u = decode_user(&chars("{\"name\":\"A\",\"email\":\"b\",\"x\":1,\"x\":2}")).unwrap();
    assert_eq!(u.name, chars("A"));
}

#[test]
fn decode_malformed_ignored_member_fails() {
    assert!(decode_user(&chars("{\"name\":\"A\",\"email\":\"b\",\"xs\":[1,]}")).is_none());
    assert!(decode_user(&chars("{\"name\":\"A\",\"email\":\"b\",\"f\":1.}")).is_none());
}

#[test]
fn encode_control_chars_as_unicode_escapes() {
    let u = User { id: Some(1), name: chars("a\u{1}b\u{1f}c"), email: chars("e") };
    assert_eq!(
        encode_user(&u),
        chars("{\"id\":1,\"name\":\"a\\u0001b\\u001fc\",\"email\":\"e\"}")
    );
}

#[test]
fn control_chars_encode_decode_round_trip() {
    let u = User { id: Some(2), name: chars("a\u{1}\u{b}c"), email: chars("e\u{7f}") };
    let back = decode_user(&encode_user(&u)).unwrap();
    assert_eq!(back, u);
}
