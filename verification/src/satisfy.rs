use crate::parser::{Outcome, ParseFn, ParseResult, Parser};
use crate::text::{first_char, skip_first};
use vstd::prelude::*;

verus! {

/// `out` is an outcome of testing the first character of `input` with
/// `predicate`: the character and what follows it where the predicate may
/// say yes, a failure where there is no character or it may say no.
pub open spec fn satisfy_yields<P: Fn(char) -> bool>(
    predicate: P,
    input: Seq<char>,
    out: Outcome<char>,
) -> bool {
    match out {
        Some((c, rest)) => {
            &&& input.len() > 0
            &&& c == input[0]
            &&& rest == input.drop_first()
            &&& call_ensures(predicate, (c,), true)
        },
        None => input.len() == 0 || call_ensures(predicate, (input[0],), false),
    }
}

/// The strategy of a parser made by `satisfy`.
pub struct Satisfy<P> {
    pub predicate: P,
}

impl<P: Fn(char) -> bool> ParseFn<char> for Satisfy<P> {
    open spec fn callable(&self) -> bool {
        forall|c: char| call_requires(self.predicate, (c,))
    }

    open spec fn results_in(&self, input: Seq<char>, out: Outcome<char>) -> bool {
        satisfy_yields(self.predicate, input, out)
    }

    fn call(&self, input: String) -> (result: ParseResult<char>) {
        let first = first_char(input.as_str());
        match first {
            Some(c) => {
                if (self.predicate)(c) {
                    let remaining = skip_first(input.as_str(), c).to_owned();
                    Some((c, remaining))
                } else {
                    None
                }
            },
            None => None,
        }
    }
}

/// The parser that looks at the first character of the input only: it
/// succeeds with that character, and leaves what follows it, where
/// `predicate` holds of it.
pub fn satisfy<P>(predicate: P) -> (parser: Parser<char>) where P: Fn(char) -> bool + 'static
    requires
        forall|c: char| call_requires(predicate, (c,)),
    ensures
        parser.wf(),
        forall|input: Seq<char>, out: Outcome<char>| #[trigger]
            parser.yields(input, out) <==> satisfy_yields(predicate, input, out),
{
    Parser(Box::new(Satisfy { predicate }))
}

} // verus!
