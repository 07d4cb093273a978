use std::str::Chars;
use vstd::prelude::*;
use vstd::std_specs::iter::IteratorSpec;
use vstd::string::*;

verus! {

/// A lexer over a source text.
pub struct Lexer<'a> {
    /// The whole source text.
    pub source: &'a str,
    /// The characters that are still to be read.
    pub chars: Chars<'a>,
}

impl<'a> Lexer<'a> {
    /// A lexer at the start of `source`: everything is still to be read.
    pub fn new(source: &'a str) -> (lexer: Self)
        ensures
            lexer.source == source,
            lexer.chars.remaining() == source@,
    {
        Self { source, chars: source.chars() }
    }
}

} // verus!
