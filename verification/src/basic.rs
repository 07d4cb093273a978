use crate::parser::{ap_yields, map_yields, Applicative, Functor, Outcome, Parser};
use crate::satisfy::satisfy;
use crate::std_specs::{
    char_is_alphabetic, char_is_alphanumeric, char_is_whitespace, is_alphabetic, is_alphanumeric,
    is_whitespace, string_push,
};
use crate::text::{ascii_digit, digit_value, first_char, is_ascii_digit, skip_first, to_digit};
use vstd::prelude::*;
use vstd::string::*;

verus! {

/// The outcome of matching the first character of `input` against `expected`.
pub open spec fn char_outcome(expected: char, input: Seq<char>) -> Outcome<char> {
    if input.len() > 0 && input[0] == expected {
        Some((expected, input.drop_first()))
    } else {
        None
    }
}

/// The parser that accepts exactly the character `expected`.
pub fn char(expected: char) -> (parser: Parser<char>)
    ensures
        parser.wf(),
        forall|input: Seq<char>, out: Outcome<char>| #[trigger]
            parser.yields(input, out) ==> out == char_outcome(expected, input),
{
    satisfy(move |c: char| -> (b: bool)
        ensures
            b == (c == expected),
        { c == expected })
}

/// The outcome of reading one ASCII decimal digit at the start of `input`.
pub open spec fn digit_outcome(input: Seq<char>) -> Outcome<i32> {
    if input.len() > 0 && is_ascii_digit(input[0]) {
        Some((digit_value(input[0]) as i32, input.drop_first()))
    } else {
        None
    }
}

/// The parser that accepts one ASCII decimal digit and yields its value.
pub fn digit() -> (parser: Parser<i32>)
    ensures
        parser.wf(),
        forall|input: Seq<char>, out: Outcome<i32>| #[trigger]
            parser.yields(input, out) ==> out == digit_outcome(input),
{
    let digits = satisfy(|c: char| -> (b: bool)
        ensures
            b == is_ascii_digit(c),
        { ascii_digit(c) });
    digits.map(|c: char| -> (d: i32)
        requires
            is_ascii_digit(c),
        ensures
            d == digit_value(c),
        { to_digit(c) })
}

/// The parser that accepts an underscore.
pub fn underscore() -> (parser: Parser<char>)
    ensures
        parser.wf(),
        forall|input: Seq<char>, out: Outcome<char>| #[trigger]
            parser.yields(input, out) ==> out == char_outcome('_', input),
{
    char('_')
}

/// The outcome of skipping one white space character at the start of `input`.
pub open spec fn whitespace_outcome(input: Seq<char>) -> Outcome<()> {
    if input.len() > 0 && is_whitespace(input[0]) {
        Some(((), input.drop_first()))
    } else {
        None
    }
}

/// The parser that accepts one white space character and discards it.
pub fn whitespace() -> (parser: Parser<()>)
    ensures
        parser.wf(),
        forall|input: Seq<char>, out: Outcome<()>| #[trigger]
            parser.yields(input, out) ==> out == whitespace_outcome(input),
{
    let spaces = satisfy(|c: char| -> (b: bool)
        ensures
            b == is_whitespace(c),
        { char_is_whitespace(c) });
    spaces.map(|c: char| -> (unit: ()) { () })
}

/// The outcome of reading one alphabetic character at the start of `input`.
pub open spec fn alphabet_outcome(input: Seq<char>) -> Outcome<char> {
    if input.len() > 0 && is_alphabetic(input[0]) {
        Some((input[0], input.drop_first()))
    } else {
        None
    }
}

/// The parser that accepts one alphabetic character.
pub fn alphabet() -> (parser: Parser<char>)
    ensures
        parser.wf(),
        forall|input: Seq<char>, out: Outcome<char>| #[trigger]
            parser.yields(input, out) ==> out == alphabet_outcome(input),
{
    satisfy(|c: char| -> (b: bool)
        ensures
            b == is_alphabetic(c),
        { char_is_alphabetic(c) })
}

/// The outcome of reading one alphanumeric character at the start of `input`.
pub open spec fn alphanumeric_outcome(input: Seq<char>) -> Outcome<char> {
    if input.len() > 0 && is_alphanumeric(input[0]) {
        Some((input[0], input.drop_first()))
    } else {
        None
    }
}

/// The parser that accepts one alphabetic or numeric character.
pub fn alphanumeric() -> (parser: Parser<char>)
    ensures
        parser.wf(),
        forall|input: Seq<char>, out: Outcome<char>| #[trigger]
            parser.yields(input, out) ==> out == alphanumeric_outcome(input),
{
    satisfy(|c: char| -> (b: bool)
        ensures
            b == is_alphanumeric(c),
        { char_is_alphanumeric(c) })
}

/// `out` is the outcome of matching the literal `expected` at the start of
/// `input`: the literal and what follows it, or a failure where `input` does
/// not start with it.
pub open spec fn string_yields(expected: Seq<char>, input: Seq<char>, out: Outcome<String>) -> bool {
    if expected.is_prefix_of(input) {
        out matches Some((value, rest)) && ({
            &&& value@ == expected
            &&& rest == input.skip(expected.len() as int)
        })
    } else {
        out is None
    }
}

/// The function that puts `ch` in front of a string.
fn prepend(ch: char) -> (cons: impl Fn(String) -> String)
    ensures
        forall|rest: String| call_requires(cons, (rest,)),
        forall|rest: String, whole: String| #[trigger]
            call_ensures(cons, (rest,), whole) ==> whole@ == seq![ch] + rest@,
{
    move |rest: String| -> (whole: String)
        ensures
            whole@ == seq![ch] + rest@,
        {
            let mut result = String::new();
            string_push(&mut result, ch);
            result.append(rest.as_str());
            result
        }
}

/// The parser that accepts exactly the literal `expected`.
pub fn string(expected: &str) -> (parser: Parser<String>)
    ensures
        parser.wf(),
        forall|input: Seq<char>, out: Outcome<String>| #[trigger]
            parser.yields(input, out) ==> string_yields(expected@, input, out),
    decreases expected@.len(),
{
    match first_char(expected) {
        None => {
            let parser: Parser<String> = Applicative::pure(String::new());
            assert forall|input: Seq<char>, out: Outcome<String>| #[trigger]
                parser.yields(input, out) implies string_yields(expected@, input, out) by {
                assert(expected@ =~= Seq::<char>::empty());
                assert(input.skip(0) =~= input);
            }
            parser
        },
        Some(c) => {
            let cs = skip_first(expected, c);
            let first = char(c);
            let cons = first.map(prepend);
            let rest_parser = string(cs);
            let parser = rest_parser.ap(cons);
            assert forall|input: Seq<char>, out: Outcome<String>| #[trigger]
                parser.yields(input, out) implies string_yields(expected@, input, out) by {
                lemma_string_step(expected@, first, prepend, cons, rest_parser, input, out);
            }
            parser
        },
    }
}

/// One step of `string`: a parser for the first character that yields a
/// function putting it in front, applied to a parser for the rest of the
/// literal, is a parser for the literal.
proof fn lemma_string_step<F: Fn(String) -> String, G: Fn(char) -> F>(
    expected: Seq<char>,
    first: Parser<char>,
    prepend: G,
    cons: Parser<F>,
    rest_parser: Parser<String>,
    input: Seq<char>,
    out: Outcome<String>,
)
    requires
        expected.len() > 0,
        forall|i: Seq<char>, o: Outcome<char>| #[trigger]
            first.yields(i, o) ==> o == char_outcome(expected[0], i),
        forall|ch: char, f: F, rest: String, whole: String|
            #![trigger call_ensures(prepend, (ch,), f), call_ensures(f, (rest,), whole)]
            call_ensures(prepend, (ch,), f) && call_ensures(f, (rest,), whole) ==> whole@
                == seq![ch] + rest@,
        forall|i: Seq<char>, o: Outcome<F>| #[trigger]
            cons.yields(i, o) ==> map_yields(first, prepend, i, o),
        forall|i: Seq<char>, o: Outcome<String>| #[trigger]
            rest_parser.yields(i, o) ==> string_yields(expected.drop_first(), i, o),
        ap_yields(rest_parser, cons, input, out),
    ensures
        string_yields(expected, input, out),
{
    let c = expected[0];
    let cs = expected.drop_first();
    assert(expected =~= seq![c] + cs);
    match out {
        Some((whole, rest)) => {
            // The function came from the first character, the value from the
            // rest of the literal on what followed that character.
            let (f, mid, a): (F, Seq<char>, String) = choose|f: F, mid: Seq<char>, a: String|
                #![trigger cons.yields(input, Some((f, mid))), rest_parser.yields(mid, Some((a, rest)))]
                cons.yields(input, Some((f, mid))) && rest_parser.yields(mid, Some((a, rest)))
                    && call_ensures(f, (a,), whole);
            let ch = choose|ch: char| #[trigger]
                first.yields(input, Some((ch, mid))) && call_ensures(prepend, (ch,), f);
            assert(Some((ch, mid)) == char_outcome(c, input));
            assert(string_yields(cs, mid, Some((a, rest))));
            assert(whole@ == expected);
            assert(rest =~= input.skip(expected.len() as int));
        },
        None => {
            if cons.yields(input, None) {
                // The first character did not match.
                assert(char_outcome(c, input) is None);
            } else {
                // The first character matched, and the rest of the literal
                // did not match what followed it.
                let (f, mid): (F, Seq<char>) = choose|f: F, mid: Seq<char>| #[trigger]
                    cons.yields(input, Some((f, mid))) && rest_parser.yields(mid, None);
                let ch = choose|ch: char| #[trigger]
                    first.yields(input, Some((ch, mid))) && call_ensures(prepend, (ch,), f);
                assert(Some((ch, mid)) == char_outcome(c, input));
                assert(!cs.is_prefix_of(mid));
                if expected.is_prefix_of(input) {
                    assert(cs =~= mid.subrange(0, cs.len() as int));
                }
            }
        },
    }
}

} // verus!
