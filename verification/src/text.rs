//! Texts made of ASCII bytes: how a byte sequence is read as characters, and
//! how a string is built from one.

use vstd::prelude::*;
use vstd::utf8::*;

verus! {

/// Appending one character makes the text one character longer, with that
/// character at its end, as the documentation of `String::push` says.
pub assume_specification[ String::push ](s: &mut String, ch: char)
    ensures
        final(s)@ == old(s)@.push(ch),
;

/// The bytes that encode `text` in UTF-8: what `str::as_bytes` hands out.
pub open spec fn bytes_of(text: Seq<char>) -> Seq<u8> {
    encode_utf8(text)
}

/// Whether every byte of `bytes` is an ASCII code.
pub open spec fn all_ascii(bytes: Seq<u8>) -> bool {
    forall|i: int| 0 <= i < bytes.len() ==> bytes[i] < 128
}

/// The characters whose codes are the bytes of `bytes`, one for one.
pub open spec fn ascii_chars(bytes: Seq<u8>) -> Seq<char> {
    Seq::new(bytes.len(), |i: int| bytes[i] as char)
}

/// A text of ASCII characters is encoded as its codes, byte for character.
pub proof fn lemma_ascii_chars_bytes(bytes: Seq<u8>)
    requires
        all_ascii(bytes),
    ensures
        is_ascii_chars(ascii_chars(bytes)),
        bytes_of(ascii_chars(bytes)) == bytes,
{
    let chars = ascii_chars(bytes);
    assert forall|i: int| 0 <= i < chars.len() implies 0 <= #[trigger] (chars[i] as nat) < 128 by {
        assert(bytes[i] < 128);
    }
    is_ascii_chars_encode_utf8(chars);
    assert(encode_utf8(chars) =~= bytes);
}

/// The string whose characters are the ASCII codes in `bytes`.
pub fn ascii_string(bytes: &[u8]) -> (text: String)
    requires
        all_ascii(bytes@),
    ensures
        text@ == ascii_chars(bytes@),
        bytes_of(text@) == bytes@,
{
    let mut text = String::new();
    let mut i: usize = 0;
    while i < bytes.len()
        invariant
            i <= bytes.len(),
            text@ == ascii_chars(bytes@.subrange(0, i as int)),
        decreases bytes.len() - i,
    {
        text.push(bytes[i] as char);
        i += 1;
        assert(text@ =~= ascii_chars(bytes@.subrange(0, i as int)));
    }
    assert(bytes@.subrange(0, i as int) =~= bytes@);
    proof {
        lemma_ascii_chars_bytes(bytes@);
    }
    text
}

/// The decimal digits that write `n`, without leading zeros.
pub open spec fn decimal(n: nat) -> Seq<u8>
    decreases n,
{
    if n < 10 {
        seq![(0x30 + n) as u8]
    } else {
        decimal(n / 10).push((0x30 + n % 10) as u8)
    }
}

/// Decimal digits are ASCII, and there is at least one and at most 20 of them
/// for a number below 2^64.
pub proof fn lemma_decimal_digits(n: nat)
    ensures
        all_ascii(decimal(n)),
        decimal(n).len() >= 1,
        n < 0x1_0000_0000_0000_0000 ==> decimal(n).len() <= 20,
    decreases n,
{
    reveal_with_fuel(decimal, 21);
    if n >= 10 {
        lemma_decimal_digits(n / 10);
    }
}

/// Writes `n` in decimal digits.
pub fn decimal_bytes(n: usize) -> (digits: Vec<u8>)
    ensures
        digits@ == decimal(n as nat),
{
    let mut reversed: Vec<u8> = Vec::new();
    let mut rest: usize = n;
    while rest >= 10
        invariant
            decimal(n as nat) == decimal(rest as nat) + reversed@.reverse(),
        decreases rest,
    {
        let digit: u8 = (rest % 10) as u8;
        reversed.push(0x30 + digit);
        assert(decimal(rest as nat) == decimal((rest / 10) as nat).push((0x30 + rest % 10) as u8));
        assert(decimal(n as nat) =~= decimal((rest / 10) as nat) + reversed@.reverse());
        rest = rest / 10;
    }
    let mut digits: Vec<u8> = Vec::new();
    digits.push(0x30 + (rest as u8));
    let mut i: usize = reversed.len();
    while i > 0
        invariant
            i <= reversed.len(),
            digits@ == decimal(rest as nat) + reversed@.reverse().subrange(
                0,
                reversed.len() - i,
            ),
        decreases i,
    {
        i -= 1;
        digits.push(reversed[i]);
        assert(digits@ =~= decimal(rest as nat) + reversed@.reverse().subrange(
            0,
            reversed.len() - i,
        ));
    }
    assert(reversed@.reverse().subrange(0, reversed.len() as int) =~= reversed@.reverse());
    digits
}

/// The text `prefix` with `n` in decimal digits behind it.
pub fn numbered(prefix: &str, n: usize) -> (text: String)
    ensures
        text@ == prefix@ + ascii_chars(decimal(n as nat)),
{
    let mut text = prefix.to_owned();
    let digits = decimal_bytes(n);
    proof {
        lemma_decimal_digits(n as nat);
    }
    let number = ascii_string(digits.as_slice());
    text.append(number.as_str());
    text
}

} // verus!
