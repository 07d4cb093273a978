use crate::parser::{Functor, Outcome, ParseFn, ParseResult, Parser};
use crate::sql_token::Token;
use crate::std_specs::{char_is_alphabetic, char_is_alphanumeric, is_alphabetic, is_alphanumeric};
use crate::text::{
    byte_offset, first_char, lemma_offset_step, lemma_offset_within, len_utf8, skip_first,
    split_at_offset,
};
use vstd::prelude::*;
use vstd::string::*;
use vstd::utf8::*;

verus! {

/// `c` may start an identifier: a letter or an underscore.
pub open spec fn starts_identifier(c: char) -> bool {
    is_alphabetic(c) || c == '_'
}

/// `c` may stand inside an identifier: a letter, a digit or an underscore.
pub open spec fn continues_identifier(c: char) -> bool {
    is_alphanumeric(c) || c == '_'
}

/// The identifier at the start of `input` ends before position `end`: every
/// character after the first up to there continues it, and the one at
/// `end`, if there is one, does not.
pub open spec fn identifier_end(input: Seq<char>, end: int) -> bool {
    &&& 1 <= end <= input.len()
    &&& forall|j: int| 1 <= j < end ==> continues_identifier(#[trigger] input[j])
    &&& end < input.len() ==> !continues_identifier(input[end])
}

/// `out` is the outcome of reading an identifier at the start of `input`:
/// the longest run of identifier characters and what follows it, or a
/// failure where the input is empty or its first character starts none.
pub open spec fn identifier_yields(input: Seq<char>, out: Outcome<String>) -> bool {
    if input.len() > 0 && starts_identifier(input[0]) {
        out matches Some((name, rest)) && ({
            let end = name@.len() as int;
            &&& identifier_end(input, end)
            &&& name@ == input.take(end)
            &&& rest == input.skip(end)
        })
    } else {
        out is None
    }
}

/// `out` is the outcome of reading an identifier token at the start of
/// `input`.
pub open spec fn sql_identifier_yields(input: Seq<char>, out: Outcome<Token>) -> bool {
    match out {
        Some((token, rest)) => {
            token matches Token::Identifier(name) && identifier_yields(input, Some((name, rest)))
        },
        None => identifier_yields(input, None),
    }
}

/// An identifier ends in one place only.
pub proof fn lemma_identifier_end_unique(input: Seq<char>, end: int, other: int)
    requires
        identifier_end(input, end),
        identifier_end(input, other),
    ensures
        end == other,
{
}

/// Tells whether `c` may start an identifier.
pub fn is_identifier_start(c: char) -> (b: bool)
    ensures
        b == starts_identifier(c),
{
    char_is_alphabetic(c) || c == '_'
}

/// Tells whether `c` may stand inside an identifier.
pub fn is_identifier_continue(c: char) -> (b: bool)
    ensures
        b == continues_identifier(c),
{
    char_is_alphanumeric(c) || c == '_'
}

/// The strategy of the identifier parser.
pub struct IdentifierScan;

impl ParseFn<String> for IdentifierScan {
    open spec fn callable(&self) -> bool {
        true
    }

    open spec fn results_in(&self, input: Seq<char>, out: Outcome<String>) -> bool {
        identifier_yields(input, out)
    }

    fn call(&self, input: String) -> (result: ParseResult<String>) {
        let source = input.as_str();
        let first = match first_char(source) {
            Some(c) => c,
            None => { return None; },
        };
        if !is_identifier_start(first) {
            return None;
        }
        let total = source.as_bytes().len();
        // The byte offset behind the characters read so far, and what
        // follows them.
        let mut end_position: usize = len_utf8(first);
        let mut tail = skip_first(source, first);
        let ghost mut count: int = 1;
        proof {
            lemma_offset_step(source@, 0);
            lemma_offset_within(source@, 1);
        }
        while end_position < total
            invariant
                total == encode_utf8(source@).len(),
                1 <= count <= source@.len(),
                tail@ == source@.skip(count),
                end_position == byte_offset(source@, count),
                count < source@.len() <==> end_position < total,
                forall|j: int| 1 <= j < count ==> continues_identifier(#[trigger] source@[j]),
            ensures
                identifier_end(source@, count),
                end_position == byte_offset(source@, count),
            decreases source@.len() - count,
        {
            let next = tail.get_char(0);
            if !is_identifier_continue(next) {
                break ;
            }
            proof {
                lemma_offset_step(source@, count);
                lemma_offset_within(source@, count + 1);
            }
            end_position = end_position + len_utf8(next);
            tail = skip_first(tail, next);
            proof {
                count = count + 1;
            }
        }
        let (name, rest) = split_at_offset(source, end_position, Ghost(count));
        Some((name.to_owned(), rest.to_owned()))
    }
}

/// The parser that reads an identifier: a letter or an underscore, then as
/// many letters, digits and underscores as follow.
pub fn identifier() -> (parser: Parser<String>)
    ensures
        parser.wf(),
        forall|input: Seq<char>, out: Outcome<String>| #[trigger]
            parser.yields(input, out) <==> identifier_yields(input, out),
{
    Parser(Box::new(IdentifierScan))
}

/// The parser that reads an identifier and wraps it in a token.
pub fn sql_identifier() -> (parser: Parser<Token>)
    ensures
        parser.wf(),
        forall|input: Seq<char>, out: Outcome<Token>| #[trigger]
            parser.yields(input, out) ==> sql_identifier_yields(input, out),
{
    identifier().map(|name: String| -> (token: Token)
        ensures
            token == Token::Identifier(name),
        { Token::Identifier(name) })
}

} // verus!
