use vstd::prelude::*;
use vstd::string::*;
use vstd::utf8::*;

verus! {

/// `c` is one of the ten ASCII decimal digits.
pub open spec fn is_ascii_digit(c: char) -> bool {
    '0' <= c <= '9'
}

/// The number that the ASCII decimal digit `c` stands for.
pub open spec fn digit_value(c: char) -> int {
    c as int - '0' as int
}

/// Tells whether `c` is an ASCII decimal digit.
pub(crate) fn ascii_digit(c: char) -> (b: bool)
    ensures
        b == is_ascii_digit(c),
{
    '0' <= c && c <= '9'
}

/// The value, 0 to 9, of an ASCII decimal digit.
pub(crate) fn to_digit(c: char) -> (d: i32)
    requires
        is_ascii_digit(c),
    ensures
        d == digit_value(c),
        0 <= d <= 9,
{
    (c as u32 - '0' as u32) as i32
}

/// The number of bytes that `c` takes in UTF-8.
pub(crate) fn len_utf8(c: char) -> (n: usize)
    ensures
        n == encode_scalar(c as u32).len(),
        1 <= n <= 4,
{
    let code = c as u32;
    if code < 0x80 {
        1
    } else if code < 0x800 {
        2
    } else if code < 0x10000 {
        3
    } else {
        4
    }
}

/// The number of bytes that the first `k` characters of `s` take in UTF-8:
/// the byte offset of the character behind them.
pub open spec fn byte_offset(s: Seq<char>, k: int) -> nat {
    encode_utf8(s.take(k)).len()
}

/// The UTF-8 bytes of `s` are those of its first `k` characters followed by
/// those of the rest, and the place where the two meet is a character
/// boundary.
pub(crate) proof fn lemma_encode_split(s: Seq<char>, k: int)
    requires
        0 <= k <= s.len(),
    ensures
        encode_utf8(s) == encode_utf8(s.take(k)) + encode_utf8(s.skip(k)),
        is_char_boundary(encode_utf8(s), byte_offset(s, k) as int),
    decreases k,
{
    encode_utf8_valid_utf8(s);
    if k == 0 {
        assert(s.skip(0) =~= s);
    } else {
        let tail = s.drop_first();
        lemma_encode_split(tail, k - 1);
        encode_utf8_first_scalar(s);
        assert(s.take(k).drop_first() =~= tail.take(k - 1));
        assert(tail.skip(k - 1) =~= s.skip(k));
        assert(pop_first_scalar(encode_utf8(s)) =~= encode_utf8(tail));
    }
}

/// The byte offset behind one more character is further on by that
/// character's length, and lies within the bytes of `s`.
pub(crate) proof fn lemma_offset_step(s: Seq<char>, k: int)
    requires
        0 <= k < s.len(),
    ensures
        byte_offset(s, k + 1) == byte_offset(s, k) + encode_scalar(s[k] as u32).len(),
        byte_offset(s, k) < byte_offset(s, k + 1) <= encode_utf8(s).len(),
{
    let longer = s.take(k + 1);
    lemma_encode_split(s, k + 1);
    lemma_encode_split(longer, k);
    assert(longer.take(k) =~= s.take(k));
    assert(longer.skip(k) =~= seq![s[k]]);
    assert(encode_utf8(seq![s[k]]) =~= encode_scalar(s[k] as u32)) by {
        reveal_with_fuel(encode_utf8, 2);
    }
}

/// The byte offset behind the first `k` characters lies before the end of
/// the bytes of `s` exactly where characters are left.
pub(crate) proof fn lemma_offset_within(s: Seq<char>, k: int)
    requires
        0 <= k <= s.len(),
    ensures
        k < s.len() <==> byte_offset(s, k) < encode_utf8(s).len(),
{
    if k < s.len() {
        lemma_offset_step(s, k);
    } else {
        assert(s.take(k) =~= s);
    }
}

/// Two strings with the same UTF-8 bytes hold the same characters.
pub(crate) proof fn lemma_encode_injective(a: Seq<char>, b: Seq<char>)
    requires
        encode_utf8(a) == encode_utf8(b),
    ensures
        a == b,
{
    encode_utf8_decode_utf8(a);
    encode_utf8_decode_utf8(b);
}

/// The first character of `s`, if it has one.
pub(crate) fn first_char(s: &str) -> (first: Option<char>)
    ensures
        match first {
            Some(c) => s@.len() > 0 && c == s@[0],
            None => s@.len() == 0,
        },
{
    if s.is_empty() {
        None
    } else {
        Some(s.get_char(0))
    }
}

/// Slices `s` at the byte offset behind its first `k` characters, into
/// those characters and the rest.
pub(crate) fn split_at_offset<'a>(s: &'a str, offset: usize, Ghost(k): Ghost<int>) -> (parts: (
    &'a str,
    &'a str,
))
    requires
        0 <= k <= s@.len(),
        offset == byte_offset(s@, k),
    ensures
        parts.0@ == s@.take(k),
        parts.1@ == s@.skip(k),
{
    proof {
        lemma_encode_split(s@, k);
    }
    let parts = s.split_at(offset);
    proof {
        let bytes = encode_utf8(s@);
        assert(bytes.subrange(0, offset as int) =~= encode_utf8(s@.take(k)));
        assert(bytes.subrange(offset as int, bytes.len() as int) =~= encode_utf8(s@.skip(k)));
        lemma_encode_injective(parts.0@, s@.take(k));
        lemma_encode_injective(parts.1@, s@.skip(k));
    }
    parts
}

/// What follows the first character of `s`, sliced at that character's
/// length in bytes.
pub(crate) fn skip_first<'a>(s: &'a str, first: char) -> (rest: &'a str)
    requires
        s@.len() > 0,
        first == s@[0],
    ensures
        rest@ == s@.drop_first(),
{
    proof {
        lemma_offset_step(s@, 0);
    }
    split_at_offset(s, len_utf8(first), Ghost(1)).1
}

/// Tells whether two strings hold the same characters, by their bytes.
pub(crate) fn str_eq(a: &str, b: &str) -> (same: bool)
    ensures
        same == (a@ == b@),
{
    let x = a.as_bytes();
    let y = b.as_bytes();
    if x.len() != y.len() {
        return false;
    }
    let mut i: usize = 0;
    while i < x.len()
        invariant
            i <= x.len(),
            x.len() == y.len(),
            x@ == encode_utf8(a@),
            y@ == encode_utf8(b@),
            forall|j: int| 0 <= j < i ==> x@[j] == y@[j],
        decreases x.len() - i,
    {
        if x[i] != y[i] {
            return false;
        }
        i += 1;
    }
    proof {
        assert(x@ =~= y@);
        lemma_encode_injective(a@, b@);
    }
    true
}

} // verus!
