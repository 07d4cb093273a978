use sql_combinators::identifier::{
    identifier, is_identifier_continue, is_identifier_start, sql_identifier,
};
use sql_combinators::sql_token::Token;

fn text(s: &str) -> String {
    s.to_string()
}

#[test]
fn identifier_stops_at_the_first_other_character() {
    assert_eq!(identifier().run(text("foo_Bar1 x")), Some((text("foo_Bar1"), text(" x"))));
}

#[test]
fn identifier_may_start_with_an_underscore() {
    assert_eq!(identifier().run(text("_id")), Some((text("_id"), text(""))));
}

#[test]
fn identifier_cannot_start_with_a_digit() {
    assert_eq!(identifier().run(text("1abc")), None);
}

#[test]
fn identifier_rejects_empty_input() {
    assert_eq!(identifier().run(text("")), None);
}

#[test]
fn identifier_of_one_character_consumes_exactly_that() {
    assert_eq!(identifier().run(text("a")), Some((text("a"), text(""))));
    assert_eq!(identifier().run(text("a+b")), Some((text("a"), text("+b"))));
    assert_eq!(identifier().run(text("_")), Some((text("_"), text(""))));
}

#[test]
fn identifier_consumes_input_that_is_all_identifier() {
    assert_eq!(
        identifier().run(text("user_name_2")),
        Some((text("user_name_2"), text(""))),
    );
}

#[test]
fn identifier_rejects_leading_space_and_punctuation() {
    assert_eq!(identifier().run(text(" abc")), None);
    assert_eq!(identifier().run(text("-abc")), None);
    assert_eq!(identifier().run(text("(abc)")), None);
}

#[test]
fn identifier_takes_digits_after_the_first_character() {
    assert_eq!(identifier().run(text("a1b2,c3")), Some((text("a1b2"), text(",c3"))));
}

#[test]
fn identifier_slices_multi_byte_input_at_character_boundaries() {
    assert_eq!(identifier().run(text("名前 x")), Some((text("名前"), text(" x"))));
    assert_eq!(identifier().run(text("été,hiver")), Some((text("été"), text(",hiver"))));
    assert_eq!(identifier().run(text("a名😀z")), Some((text("a名"), text("😀z"))));
    assert_eq!(identifier().run(text("naïve")), Some((text("naïve"), text(""))));
}

#[test]
fn identifier_stops_before_a_multi_byte_separator() {
    assert_eq!(identifier().run(text("ab\u{3000}cd")), Some((text("ab"), text("\u{3000}cd"))));
}

#[test]
fn identifier_and_its_remainder_make_up_the_input() {
    let inputs = ["foo_Bar1 x", "_id", "a", "名前 x", "x.y.z", "été😀", "select*"];
    for input in inputs {
        let (name, rest) = identifier().run(text(input)).unwrap();
        assert_eq!(format!("{}{}", name, rest), input);
        assert!(!name.is_empty());
        assert!(is_identifier_start(name.chars().next().unwrap()));
        assert!(name.chars().skip(1).all(is_identifier_continue));
        assert!(rest.chars().next().map_or(true, |c| !is_identifier_continue(c)));
    }
}

#[test]
fn identifier_start_characters() {
    assert!(is_identifier_start('a'));
    assert!(is_identifier_start('Z'));
    assert!(is_identifier_start('_'));
    assert!(is_identifier_start('名'));
    assert!(!is_identifier_start('1'));
    assert!(!is_identifier_start(' '));
    assert!(!is_identifier_start('-'));
}

#[test]
fn identifier_continue_characters() {
    assert!(is_identifier_continue('a'));
    assert!(is_identifier_continue('_'));
    assert!(is_identifier_continue('1'));
    assert!(is_identifier_continue('٣'));
    assert!(!is_identifier_continue(' '));
    assert!(!is_identifier_continue('-'));
    assert!(!is_identifier_continue(';'));
}

#[test]
fn sql_identifier_wraps_the_name_in_a_token() {
    assert_eq!(
        sql_identifier().run(text("foo_Bar1 x")),
        Some((Token::Identifier(text("foo_Bar1")), text(" x"))),
    );
}

#[test]
fn sql_identifier_fails_where_identifier_fails() {
    assert_eq!(sql_identifier().run(text("1abc")), None);
    assert_eq!(sql_identifier().run(text("")), None);
}

#[test]
fn sql_identifier_takes_a_keyword_spelling_as_an_identifier() {
    assert_eq!(
        sql_identifier().run(text("select * from t")),
        Some((Token::Identifier(text("select")), text(" * from t"))),
    );
}
