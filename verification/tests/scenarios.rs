use sql_combinators::basic_parser::{char, digit, string};

#[test]
fn char_on_a_select_statement() {
    let input = "SELECT id, name FROM foo;".to_string();
    assert_eq!(char('S').run(input), Some(('S', "ELECT id, name FROM foo;".to_string())));
}

#[test]
fn digit_on_a_digit_and_letters() {
    let input = "5dsf".to_string();
    assert_eq!(digit().run(input), Some((5, "dsf".to_string())));
}

#[test]
fn string_on_a_greeting() {
    let input = "hello, world".to_string();
    assert_eq!(string("hell").run(input), Some(("hell".to_string(), "o, world".to_string())));
}
