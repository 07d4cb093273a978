use vstd::prelude::*;

verus! {

/// What a run of a parser returns: the parsed value with the input that is
/// left, or `None` when the input does not match.
pub type ParseResult<T> = Option<(T, String)>;

/// A parse result in which the remaining input is taken by its view.
pub type Outcome<T> = Option<(T, Seq<char>)>;

/// The outcome that a parse result stands for.
pub open spec fn outcome_of<T>(result: ParseResult<T>) -> Outcome<T> {
    match result {
        Some((value, rest)) => Some((value, rest@)),
        None => None,
    }
}

/// An outcome leaves a suffix of the input behind: nothing is invented and
/// nothing is read twice.
pub open spec fn leaves_suffix<T>(input: Seq<char>, out: Outcome<T>) -> bool {
    out matches Some((_, rest)) ==> rest.is_suffix_of(input)
}

/// A parsing strategy: the function that a `Parser` holds.
pub trait ParseFn<T> {
    /// The strategy may be called on every input.
    spec fn callable(&self) -> bool;

    /// `out` is an outcome that a call on `input` may have.
    spec fn results_in(&self, input: Seq<char>, out: Outcome<T>) -> bool;

    /// Parses the start of `input`.
    fn call(&self, input: String) -> (result: ParseResult<T>)
        requires
            self.callable(),
        ensures
            self.results_in(input@, outcome_of(result)),
    ;
}

/// Every function from an input to a parse result is a strategy.
impl<T, F: Fn(String) -> ParseResult<T>> ParseFn<T> for F {
    open spec fn callable(&self) -> bool {
        forall|input: String| call_requires(*self, (input,))
    }

    open spec fn results_in(&self, input: Seq<char>, out: Outcome<T>) -> bool {
        exists|text: String, result: ParseResult<T>| #[trigger]
            call_ensures(*self, (text,), result) && text@ == input && outcome_of(result) == out
    }

    fn call(&self, input: String) -> (result: ParseResult<T>) {
        self(input)
    }
}

/// A reusable parser of `T`: it owns its strategy and has no mutable state.
#[verifier::reject_recursive_types(T)]
pub struct Parser<T>(pub Box<dyn ParseFn<T>>);

impl<T> Parser<T> {
    /// `out` is an outcome that a run on `input` may have.
    pub open spec fn yields(&self, input: Seq<char>, out: Outcome<T>) -> bool {
        self.0.results_in(input, out)
    }

    /// The parser can be run on every input, and every outcome leaves a
    /// suffix of the input.
    pub open spec fn wf(&self) -> bool {
        &&& self.0.callable()
        &&& forall|input: Seq<char>, out: Outcome<T>| #[trigger]
            self.yields(input, out) ==> leaves_suffix(input, out)
    }

    /// Runs the parser on `input`.
    pub fn run(&self, input: String) -> (result: ParseResult<T>)
        requires
            self.wf(),
        ensures
            self.yields(input@, outcome_of(result)),
            leaves_suffix(input@, outcome_of(result)),
    {
        let result = self.0.call(input);
        assert(self.yields(input@, outcome_of(result)));
        result
    }
}

/// `f` may be called on every value that `parser` can yield.
pub open spec fn map_admits<A, B, F: Fn(A) -> B>(parser: Parser<A>, f: F) -> bool {
    forall|input: Seq<char>, a: A, rest: Seq<char>| #[trigger]
        parser.yields(input, Some((a, rest))) ==> call_requires(f, (a,))
}

/// On `input`, `parser` may yield a value that `f` may send to `b`, and
/// leave `rest`.
pub open spec fn map_succeeds<A, B, F: Fn(A) -> B>(
    parser: Parser<A>,
    f: F,
    input: Seq<char>,
    b: B,
    rest: Seq<char>,
) -> bool {
    exists|a: A| #[trigger] parser.yields(input, Some((a, rest))) && call_ensures(f, (a,), b)
}

/// `out` is an outcome of running `parser` on `input` and sending the value,
/// if there is one, through `f`.
pub open spec fn map_yields<A, B, F: Fn(A) -> B>(
    parser: Parser<A>,
    f: F,
    input: Seq<char>,
    out: Outcome<B>,
) -> bool {
    match out {
        Some((b, rest)) => map_succeeds(parser, f, input, b, rest),
        None => parser.yields(input, None),
    }
}

/// `mapped` has the outcomes of `parser` mapped with `f`, and no others.
pub open spec fn is_map_of<A, B, F: Fn(A) -> B>(mapped: Parser<B>, parser: Parser<A>, f: F) -> bool {
    forall|input: Seq<char>, out: Outcome<B>| #[trigger]
        mapped.yields(input, out) <==> map_yields(parser, f, input, out)
}

/// Parsers whose value can be sent through a function.
pub trait Functor: Sized {
    type Output;

    /// `self` as the parser that it is.
    spec fn as_parser(&self) -> Parser<Self::Output>;

    /// The parser that runs `self` and applies `f` to the value; the remaining
    /// input passes through unchanged, and so does a failure.
    fn map<F, B>(self, f: F) -> (mapped: Parser<B>) where F: Fn(Self::Output) -> B + 'static
        requires
            self.as_parser().wf(),
            map_admits(self.as_parser(), f),
        ensures
            mapped.wf(),
            is_map_of(mapped, self.as_parser(), f),
    ;
}

/// The strategy of a mapped parser.
#[verifier::reject_recursive_types(T)]
pub struct Mapped<T, F> {
    pub parser: Parser<T>,
    pub f: F,
}

impl<T, B, F: Fn(T) -> B> ParseFn<B> for Mapped<T, F> {
    open spec fn callable(&self) -> bool {
        self.parser.wf() && map_admits(self.parser, self.f)
    }

    open spec fn results_in(&self, input: Seq<char>, out: Outcome<B>) -> bool {
        map_yields(self.parser, self.f, input, out)
    }

    fn call(&self, input: String) -> (result: ParseResult<B>) {
        match self.parser.run(input) {
            Some((a, rest)) => {
                let b = (self.f)(a);
                Some((b, rest))
            },
            None => None,
        }
    }
}

impl<T: 'static> Functor for Parser<T> {
    type Output = T;

    open spec fn as_parser(&self) -> Parser<T> {
        *self
    }

    fn map<F, B>(self, f: F) -> (mapped: Parser<B>) where F: Fn(T) -> B + 'static {
        Parser(Box::new(Mapped { parser: self, f }))
    }
}

/// `out` is the one kind of outcome of a parser that always succeeds with a
/// clone of `x` and consumes nothing.
pub open spec fn pure_yields<T: Clone>(x: T, input: Seq<char>, out: Outcome<T>) -> bool {
    match out {
        Some((value, rest)) => cloned(x, value) && rest == input,
        None => false,
    }
}

/// Every function that `functions` can yield may be called on every value
/// that `values` can yield on the input that the function's parser left.
pub open spec fn ap_admits<A, B, F: Fn(A) -> B>(values: Parser<A>, functions: Parser<F>) -> bool {
    forall|input: Seq<char>, f: F, mid: Seq<char>, a: A, rest: Seq<char>|
        #![trigger functions.yields(input, Some((f, mid))), values.yields(mid, Some((a, rest)))]
        functions.yields(input, Some((f, mid))) && values.yields(mid, Some((a, rest)))
            ==> call_requires(f, (a,))
}

/// On `input`, `functions` may yield a function and leave `mid`, on which
/// `values` may yield a value that the function may send to `b`, and leave
/// `rest`.
pub open spec fn ap_succeeds<A, B, F: Fn(A) -> B>(
    values: Parser<A>,
    functions: Parser<F>,
    input: Seq<char>,
    b: B,
    rest: Seq<char>,
) -> bool {
    exists|f: F, mid: Seq<char>, a: A|
        #![trigger functions.yields(input, Some((f, mid))), values.yields(mid, Some((a, rest)))]
        functions.yields(input, Some((f, mid))) && values.yields(mid, Some((a, rest)))
            && call_ensures(f, (a,), b)
}

/// On `input`, `functions` may fail, or yield a function and leave an input
/// on which `values` may fail.
pub open spec fn ap_fails<A, F>(values: Parser<A>, functions: Parser<F>, input: Seq<char>) -> bool {
    ||| functions.yields(input, None)
    ||| exists|f: F, mid: Seq<char>| #[trigger]
        functions.yields(input, Some((f, mid))) && values.yields(mid, None)
}

/// `out` is an outcome of running `functions` on `input`, then `values` on
/// what is left, and applying the function to the value.
pub open spec fn ap_yields<A, B, F: Fn(A) -> B>(
    values: Parser<A>,
    functions: Parser<F>,
    input: Seq<char>,
    out: Outcome<B>,
) -> bool {
    match out {
        Some((b, rest)) => ap_succeeds(values, functions, input, b, rest),
        None => ap_fails(values, functions, input),
    }
}

/// `pure` has the outcomes of a parser that always succeeds with a clone of
/// `x` and consumes nothing, and no others.
pub open spec fn is_pure_of<T: Clone>(pure: Parser<T>, x: T) -> bool {
    forall|input: Seq<char>, out: Outcome<T>| #[trigger]
        pure.yields(input, out) <==> pure_yields(x, input, out)
}

/// `applied` has the outcomes of `functions` applied to `values`, and no
/// others.
pub open spec fn is_ap_of<A, B, F: Fn(A) -> B>(
    applied: Parser<B>,
    values: Parser<A>,
    functions: Parser<F>,
) -> bool {
    forall|input: Seq<char>, out: Outcome<B>| #[trigger]
        applied.yields(input, out) <==> ap_yields(values, functions, input, out)
}

/// Parsers that can be made from a plain value and applied in sequence.
pub trait Applicative: Functor {
    /// The parser that always succeeds with `x` and consumes no input. An
    /// implementation says how the value that comes out relates to `x`.
    fn pure(x: Self::Output) -> (parser: Self)
        ensures
            parser.as_parser().wf(),
            forall|input: Seq<char>, out: Outcome<Self::Output>| #[trigger]
                parser.as_parser().yields(input, out) ==> out is Some && out.unwrap().1 == input,
    ;

    /// The parser that runs `p` for a function, then `self` on the input
    /// that `p` left for a value, and yields the function applied to the
    /// value. It fails as soon as one of the two fails.
    fn ap<B, F>(self, p: Parser<F>) -> (applied: Parser<B>) where F: Fn(Self::Output) -> B + 'static
        requires
            self.as_parser().wf(),
            p.wf(),
            ap_admits(self.as_parser(), p),
        ensures
            applied.wf(),
            is_ap_of(applied, self.as_parser(), p),
    ;
}

/// The strategy of a parser made by `pure`.
pub struct Pure<T> {
    pub value: T,
}

impl<T: Clone> ParseFn<T> for Pure<T> {
    open spec fn callable(&self) -> bool {
        true
    }

    open spec fn results_in(&self, input: Seq<char>, out: Outcome<T>) -> bool {
        pure_yields(self.value, input, out)
    }

    fn call(&self, input: String) -> (result: ParseResult<T>) {
        Some((self.value.clone(), input))
    }
}

/// The strategy of a parser made by `ap`.
#[verifier::reject_recursive_types(T)]
#[verifier::reject_recursive_types(F)]
pub struct Applied<T, F> {
    pub values: Parser<T>,
    pub functions: Parser<F>,
}

impl<T, B, F: Fn(T) -> B> ParseFn<B> for Applied<T, F> {
    open spec fn callable(&self) -> bool {
        self.values.wf() && self.functions.wf() && ap_admits(self.values, self.functions)
    }

    open spec fn results_in(&self, input: Seq<char>, out: Outcome<B>) -> bool {
        ap_yields(self.values, self.functions, input, out)
    }

    fn call(&self, input: String) -> (result: ParseResult<B>) {
        match self.functions.run(input) {
            Some((f, mid)) => match self.values.run(mid) {
                Some((a, rest)) => {
                    let b = f(a);
                    Some((b, rest))
                },
                None => None,
            },
            None => None,
        }
    }
}

impl<T: Clone + 'static> Applicative for Parser<T> {
    /// The value that comes out of every run is a clone of `x`.
    fn pure(x: T) -> (parser: Self)
        ensures
            is_pure_of(parser, x),
    {
        Parser(Box::new(Pure { value: x }))
    }

    fn ap<B, F>(self, p: Parser<F>) -> (applied: Parser<B>) where F: Fn(T) -> B + 'static {
        Parser(Box::new(Applied { values: self, functions: p }))
    }
}

/// Whatever `f` returns is its argument.
pub open spec fn is_identity<A, F: Fn(A) -> A>(f: F) -> bool {
    forall|a: A, b: A| #[trigger] call_ensures(f, (a,), b) ==> b == a
}

/// Whatever `h` returns, `g` may return on something that `f` may return.
pub open spec fn is_composition<A, B, C, F: Fn(A) -> B, G: Fn(B) -> C, H: Fn(A) -> C>(
    h: H,
    g: G,
    f: F,
) -> bool {
    forall|a: A, c: C| #[trigger]
        call_ensures(h, (a,), c) ==> exists|b: B| #[trigger]
            call_ensures(f, (a,), b) && call_ensures(g, (b,), c)
}

/// The identity law of `map`: where `mapped` is `parser` mapped with the
/// identity, it has no outcome that `parser` does not have. Where the
/// identity may return each of its arguments, the two have the same
/// outcomes.
pub proof fn lemma_map_identity<A, F: Fn(A) -> A>(
    parser: Parser<A>,
    f: F,
    mapped: Parser<A>,
    input: Seq<char>,
    out: Outcome<A>,
)
    requires
        is_identity(f),
        is_map_of(mapped, parser, f),
    ensures
        mapped.yields(input, out) ==> parser.yields(input, out),
        (forall|a: A| #[trigger] call_ensures(f, (a,), a)) ==> (parser.yields(input, out)
            ==> mapped.yields(input, out)),
{
    match out {
        Some((b, rest)) => {
            if mapped.yields(input, out) {
                // The value that went into `f` is the one that came out.
                let a = choose|a: A| #[trigger]
                    parser.yields(input, Some((a, rest))) && call_ensures(f, (a,), b);
                assert(a == b);
            }
            if parser.yields(input, out) && call_ensures(f, (b,), b) {
                assert(map_succeeds(parser, f, input, b, rest));
            }
        },
        None => {},
    }
}

/// The composition law of `map`: where `twice` is `parser` mapped with `f`
/// and then with `g`, and `once` is `parser` mapped with their composition
/// `h`, every outcome of `once` is an outcome of `twice`. Where `h` may
/// return whatever `g` returns after `f`, the two have the same outcomes.
pub proof fn lemma_map_composition<A, B, C, F: Fn(A) -> B, G: Fn(B) -> C, H: Fn(A) -> C>(
    parser: Parser<A>,
    f: F,
    g: G,
    h: H,
    first: Parser<B>,
    twice: Parser<C>,
    once: Parser<C>,
    input: Seq<char>,
    out: Outcome<C>,
)
    requires
        is_composition(h, g, f),
        is_map_of(first, parser, f),
        is_map_of(twice, first, g),
        is_map_of(once, parser, h),
    ensures
        once.yields(input, out) ==> twice.yields(input, out),
        (forall|a: A, b: B, c: C|
            #![trigger call_ensures(f, (a,), b), call_ensures(g, (b,), c)]
            call_ensures(f, (a,), b) && call_ensures(g, (b,), c) ==> call_ensures(h, (a,), c))
            ==> (twice.yields(input, out) ==> once.yields(input, out)),
{
    match out {
        Some((c, rest)) => {
            if once.yields(input, out) {
                let a = choose|a: A| #[trigger]
                    parser.yields(input, Some((a, rest))) && call_ensures(h, (a,), c);
                let b = choose|b: B| #[trigger]
                    call_ensures(f, (a,), b) && call_ensures(g, (b,), c);
                assert(map_succeeds(parser, f, input, b, rest));
                assert(first.yields(input, Some((b, rest))));
                assert(map_succeeds(first, g, input, c, rest));
            }
            if twice.yields(input, out) {
                let b = choose|b: B| #[trigger]
                    first.yields(input, Some((b, rest))) && call_ensures(g, (b,), c);
                let a = choose|a: A| #[trigger]
                    parser.yields(input, Some((a, rest))) && call_ensures(f, (a,), b);
                if call_ensures(h, (a,), c) {
                    assert(map_succeeds(parser, h, input, c, rest));
                }
            }
        },
        None => {},
    }
}

} // verus!
