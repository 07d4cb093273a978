use sql_combinators::basic::string;
use sql_combinators::basic_parser;

fn text(s: &str) -> String {
    s.to_string()
}

#[test]
fn string_accepts_its_literal_and_leaves_the_rest() {
    assert_eq!(string("SELECT").run(text("SELECT id")), Some((text("SELECT"), text(" id"))));
}

#[test]
fn string_accepts_input_equal_to_the_literal() {
    assert_eq!(string("FROM").run(text("FROM")), Some((text("FROM"), text(""))));
}

#[test]
fn string_rejects_a_mismatch_at_the_first_character() {
    assert_eq!(string("hell").run(text("jello")), None);
}

#[test]
fn string_rejects_a_mismatch_in_the_middle() {
    assert_eq!(string("hell").run(text("help!")), None);
}

#[test]
fn string_rejects_a_mismatch_at_the_last_character() {
    assert_eq!(string("hell").run(text("helm")), None);
}

#[test]
fn string_rejects_input_shorter_than_the_literal() {
    assert_eq!(string("hell").run(text("hel")), None);
    assert_eq!(string("hell").run(text("")), None);
}

#[test]
fn string_is_case_sensitive() {
    assert_eq!(string("select").run(text("SELECT")), None);
}

#[test]
fn empty_string_always_succeeds_consuming_nothing() {
    assert_eq!(string("").run(text("abc")), Some((text(""), text("abc"))));
    assert_eq!(string("").run(text("")), Some((text(""), text(""))));
}

#[test]
fn string_of_one_character() {
    assert_eq!(string("x").run(text("xy")), Some((text("x"), text("y"))));
    assert_eq!(string("x").run(text("yx")), None);
}

#[test]
fn string_with_multi_byte_characters() {
    assert_eq!(string("名前").run(text("名前は")), Some((text("名前"), text("は"))));
    assert_eq!(string("é😀").run(text("é😀é")), Some((text("é😀"), text("é"))));
    assert_eq!(string("名前").run(text("名字")), None);
}

#[test]
fn string_succeeds_on_every_input_that_starts_with_the_literal() {
    let literals = ["", "a", "ab", "SELECT", "été", "a b"];
    let tails = ["", "a", "b", " rest", "été"];
    for literal in literals {
        for tail in tails {
            let input = format!("{}{}", literal, tail);
            assert_eq!(string(literal).run(input), Some((text(literal), text(tail))));
        }
    }
}

#[test]
fn string_fails_on_every_proper_prefix_of_the_literal() {
    let literal = "SELECT";
    for end in 0..literal.len() {
        assert_eq!(string(literal).run(text(&literal[..end])), None);
    }
}

#[test]
fn string_can_be_run_again_on_other_input() {
    let parser = string("ab");
    assert_eq!(parser.run(text("abc")), Some((text("ab"), text("c"))));
    assert_eq!(parser.run(text("acb")), None);
    assert_eq!(parser.run(text("abab")), Some((text("ab"), text("ab"))));
}

#[test]
fn the_core_trio_is_the_same_under_the_other_path() {
    assert_eq!(basic_parser::char('S').run(text("SQL")), Some(('S', text("QL"))));
    assert_eq!(basic_parser::digit().run(text("7up")), Some((7, text("up"))));
    assert_eq!(basic_parser::string("SQ").run(text("SQL")), Some((text("SQ"), text("L"))));
    assert_eq!(basic_parser::digit().run(text("٣")), None);
}
