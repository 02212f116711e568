//! Hexadecimal text and the mixed-case checksum of a hexadecimal address.

use crate::error::{Create2Error, ErrorView};
use crate::hash::{keccak256, keccak256_digest};
use crate::text::{all_ascii, ascii_chars, ascii_string, bytes_of};
use vstd::prelude::*;

verus! {

/// The sixteen digits, by value.
pub const HEX_CHARS: [u8; 16] = [
    0x30, 0x31, 0x32, 0x33, 0x34, 0x35, 0x36, 0x37,
    0x38, 0x39, 0x61, 0x62, 0x63, 0x64, 0x65, 0x66,
];

/// The lower-case digit that writes `n`, for `n` below 16.
pub open spec fn hex_digit(n: int) -> u8 {
    if n < 10 {
        (n + 0x30) as u8
    } else {
        (n + 0x57) as u8
    }
}

/// The value of the digit `c`, in either case; `None` where `c` is no digit.
pub open spec fn hex_value(c: u8) -> Option<u8> {
    if 0x30 <= c <= 0x39 {
        Some((c - 0x30) as u8)
    } else if 0x61 <= c <= 0x66 {
        Some((c - 0x57) as u8)
    } else if 0x41 <= c <= 0x46 {
        Some((c - 0x37) as u8)
    } else {
        None
    }
}

/// Whether every byte of `digits` is a hexadecimal digit.
pub open spec fn all_hex_digits(digits: Seq<u8>) -> bool {
    forall|i: int| 0 <= i < digits.len() ==> (#[trigger] hex_value(digits[i])) is Some
}

/// Whether `digits` writes a byte sequence: digits only, two for each byte.
pub open spec fn is_hex(digits: Seq<u8>) -> bool {
    digits.len() % 2 == 0 && all_hex_digits(digits)
}

/// The bytes that `digits` writes, the high digit of each byte first.
pub open spec fn hex_decode(digits: Seq<u8>) -> Seq<u8> {
    Seq::new(
        digits.len() / 2,
        |i: int| (16 * hex_value(digits[2 * i]).unwrap() + hex_value(digits[2 * i + 1]).unwrap()) as u8,
    )
}

/// The lower-case digits that write `bytes`, the high digit of each byte first.
pub open spec fn hex_encode(bytes: Seq<u8>) -> Seq<u8> {
    Seq::new(
        2 * bytes.len(),
        |i: int| if i % 2 == 0 {
            hex_digit(bytes[i / 2] as int / 16)
        } else {
            hex_digit(bytes[i / 2] as int % 16)
        },
    )
}

/// The digit that writes `n`, read from the table of digits.
pub fn digit_of(n: u8) -> (c: u8)
    requires
        n < 16,
    ensures
        c == hex_digit(n as int),
{
    HEX_CHARS[n as usize]
}

/// The value of the digit `c`, if it is one.
fn value_of(c: u8) -> (v: Option<u8>)
    ensures
        v == hex_value(c),
{
    if 0x30 <= c && c <= 0x39 {
        Some(c - 0x30)
    } else if 0x61 <= c && c <= 0x66 {
        Some(c - 0x57)
    } else if 0x41 <= c && c <= 0x46 {
        Some(c - 0x37)
    } else {
        None
    }
}

/// The digits that write `bytes`.
pub fn hex_encode_bytes(bytes: &[u8]) -> (digits: Vec<u8>)
    ensures
        digits@ == hex_encode(bytes@),
{
    let mut digits: Vec<u8> = Vec::new();
    let mut i: usize = 0;
    while i < bytes.len()
        invariant
            i <= bytes.len(),
            digits@ == hex_encode(bytes@.subrange(0, i as int)),
        decreases bytes.len() - i,
    {
        let byte = bytes[i];
        digits.push(digit_of(byte / 16));
        digits.push(digit_of(byte % 16));
        i += 1;
        assert(digits@ =~= hex_encode(bytes@.subrange(0, i as int)));
    }
    assert(bytes@.subrange(0, i as int) =~= bytes@);
    digits
}

/// The bytes that `digits` writes, where it writes any.
pub fn hex_decode_bytes(digits: &[u8]) -> (decoded: Option<Vec<u8>>)
    ensures
        decoded is Some <==> is_hex(digits@),
        decoded is Some ==> decoded.unwrap()@ == hex_decode(digits@),
{
    let n = digits.len();
    if n % 2 != 0 {
        return None;
    }
    let mut bytes: Vec<u8> = Vec::new();
    let mut i: usize = 0;
    while i < n / 2
        invariant
            n == digits.len(),
            n % 2 == 0,
            i <= n / 2,
            bytes@.len() == i,
            forall|j: int| 0 <= j < 2 * i ==> (#[trigger] hex_value(digits@[j])) is Some,
            forall|k: int|
                0 <= k < i ==> #[trigger] bytes@[k] == (16 * hex_value(digits@[2 * k]).unwrap()
                    + hex_value(digits@[2 * k + 1]).unwrap()) as u8,
        decreases n / 2 - i,
    {
        let high = value_of(digits[2 * i]);
        let low = value_of(digits[2 * i + 1]);
        match (high, low) {
            (Some(h), Some(l)) => {
                bytes.push(h * 16 + l);
            },
            _ => {
                assert(!all_hex_digits(digits@)) by {
                    if all_hex_digits(digits@) {
                        assert(hex_value(digits@[2 * i]) is Some);
                        assert(hex_value(digits@[2 * i + 1]) is Some);
                    }
                }
                return None;
            },
        }
        i += 1;
    }
    assert(bytes@ =~= hex_decode(digits@));
    Some(bytes)
}

/// Decodes hexadecimal text. The text is decoded if and only if it is an even
/// number of hexadecimal digits, of either case; any other text is malformed.
pub fn fast_hex_decode(hex_str: &str) -> (decoded: Result<Vec<u8>, Create2Error>)
    ensures
        match decoded {
            Ok(bytes) => is_hex(bytes_of(hex_str@)) && bytes@ == hex_decode(bytes_of(hex_str@)),
            Err(e) => !is_hex(bytes_of(hex_str@)) && e@ == ErrorView::MalformedHex,
        },
{
    match hex_decode_bytes(hex_str.as_bytes()) {
        Some(bytes) => Ok(bytes),
        None => Err(Create2Error::MalformedHex),
    }
}

/// Writes `bytes` as lower-case hexadecimal text, two digits for each byte.
pub fn fast_hex_encode(bytes: &[u8]) -> (text: String)
    ensures
        text@ == ascii_chars(hex_encode(bytes@)),
        bytes_of(text@) == hex_encode(bytes@),
{
    let digits = hex_encode_bytes(bytes);
    ascii_string(digits.as_slice())
}

/// A digit's value is the number that the digit was written for.
pub proof fn lemma_hex_digit_value(n: int)
    requires
        0 <= n < 16,
    ensures
        hex_value(hex_digit(n)) == Some(n as u8),
        hex_digit(n) < 128,
{
}

/// What `hex_encode` writes is hexadecimal ASCII text.
pub proof fn lemma_hex_encode_is_hex(bytes: Seq<u8>)
    ensures
        is_hex(hex_encode(bytes)),
        all_ascii(hex_encode(bytes)),
        hex_encode(bytes).len() == 2 * bytes.len(),
{
    let digits = hex_encode(bytes);
    assert forall|i: int| 0 <= i < digits.len() implies (#[trigger] hex_value(digits[i])) is Some
        && digits[i] < 128 by {
        let byte = bytes[i / 2] as int;
        lemma_hex_digit_value(byte / 16);
        lemma_hex_digit_value(byte % 16);
    }
}

/// Decoding the text that encodes a byte sequence gives the sequence back.
pub proof fn lemma_hex_round_trip(bytes: Seq<u8>)
    ensures
        is_hex(hex_encode(bytes)),
        hex_decode(hex_encode(bytes)) == bytes,
{
    lemma_hex_encode_is_hex(bytes);
    let digits = hex_encode(bytes);
    let decoded = hex_decode(digits);
    assert(decoded.len() == bytes.len());
    assert forall|i: int| 0 <= i < bytes.len() implies decoded[i] == bytes[i] by {
        let byte = bytes[i] as int;
        lemma_hex_digit_value(byte / 16);
        lemma_hex_digit_value(byte % 16);
        assert((2 * i) / 2 == i && (2 * i) % 2 == 0);
        assert((2 * i + 1) / 2 == i && (2 * i + 1) % 2 == 1);
        assert(digits[2 * i] == hex_digit(byte / 16));
        assert(digits[2 * i + 1] == hex_digit(byte % 16));
        assert(16 * (byte / 16) + byte % 16 == byte);
    }
    assert(decoded =~= bytes);
}

/// The lower-case form of an ASCII letter; any other byte is itself.
pub open spec fn to_lower(c: u8) -> u8 {
    if 0x41 <= c <= 0x5a {
        (c + 0x20) as u8
    } else {
        c
    }
}

/// The upper-case form of an ASCII letter; any other byte is itself.
pub open spec fn to_upper(c: u8) -> u8 {
    if 0x61 <= c <= 0x7a {
        (c - 0x20) as u8
    } else {
        c
    }
}

/// `text` with each ASCII letter in lower case.
pub open spec fn lower_case(text: Seq<u8>) -> Seq<u8> {
    Seq::new(text.len(), |i: int| to_lower(text[i]))
}

/// The `i`-th half-byte of `hash`, the high half of each byte first.
pub open spec fn nibble(hash: Seq<u8>, i: int) -> int {
    if i % 2 == 0 {
        hash[i / 2] as int / 16
    } else {
        hash[i / 2] as int % 16
    }
}

/// The checksum casing of an address written as hexadecimal digits. The digits
/// are put in lower case and hashed as ASCII text; the letter at position `i` is
/// then in upper case if and only if the `i`-th half-byte of the hash is 8 or
/// more. The digits 0 to 9 stay as they are.
pub open spec fn checksum_case(digits: Seq<u8>) -> Seq<u8> {
    let lower = lower_case(digits);
    let hash = keccak256(lower);
    Seq::new(
        digits.len(),
        |i: int| if nibble(hash, i) >= 8 {
            to_upper(lower[i])
        } else {
            lower[i]
        },
    )
}

/// Whether `digits` is the body of an address: 40 hexadecimal digits.
pub open spec fn is_address_digits(digits: Seq<u8>) -> bool {
    digits.len() == 40 && all_hex_digits(digits)
}

/// `digits` behind the two characters `0x`.
pub open spec fn with_0x(digits: Seq<u8>) -> Seq<u8> {
    seq![0x30u8, 0x78u8] + digits
}

/// `text` with each ASCII letter in lower case.
pub fn lower_case_bytes(text: &[u8]) -> (lower: Vec<u8>)
    ensures
        lower@ == lower_case(text@),
{
    let mut lower: Vec<u8> = Vec::new();
    let mut i: usize = 0;
    while i < text.len()
        invariant
            i <= text.len(),
            lower@ == lower_case(text@.subrange(0, i as int)),
        decreases text.len() - i,
    {
        let c = text[i];
        if 0x41 <= c && c <= 0x5a {
            lower.push(c + 0x20);
        } else {
            lower.push(c);
        }
        i += 1;
        assert(lower@ =~= lower_case(text@.subrange(0, i as int)));
    }
    assert(text@.subrange(0, i as int) =~= text@);
    lower
}

/// The checksum casing of `digits`, which the hash can cover: 64 at most.
pub fn checksum_case_bytes(digits: &[u8]) -> (cased: Vec<u8>)
    requires
        digits@.len() <= 64,
    ensures
        cased@ == checksum_case(digits@),
{
    let lower = lower_case_bytes(digits);
    let hash = keccak256_digest(lower.as_slice());
    let mut cased: Vec<u8> = Vec::new();
    let mut i: usize = 0;
    while i < lower.len()
        invariant
            i <= lower.len(),
            lower.len() == digits@.len(),
            lower.len() <= 64,
            lower@ == lower_case(digits@),
            hash@ == keccak256(lower@),
            cased@.len() == i,
            forall|j: int| 0 <= j < i ==> #[trigger] cased@[j] == checksum_case(digits@)[j],
        decreases lower.len() - i,
    {
        let c = lower[i];
        let byte = hash[i / 2];
        let half = if i % 2 == 0 {
            byte / 16
        } else {
            byte % 16
        };
        assert(half as int == nibble(hash@, i as int));
        if half >= 8 && 0x61 <= c && c <= 0x7a {
            cased.push(c - 0x20);
        } else {
            cased.push(c);
        }
        i += 1;
    }
    assert(cased@ =~= checksum_case(digits@));
    cased
}

/// The checksum casing keeps hexadecimal digits hexadecimal digits.
pub proof fn lemma_checksum_case_digits(digits: Seq<u8>)
    requires
        all_hex_digits(digits),
    ensures
        all_hex_digits(checksum_case(digits)),
        all_ascii(checksum_case(digits)),
        checksum_case(digits).len() == digits.len(),
{
    let cased = checksum_case(digits);
    assert forall|i: int| 0 <= i < cased.len() implies (#[trigger] hex_value(cased[i])) is Some by {
        assert(hex_value(digits[i]) is Some);
    }
    assert forall|i: int| 0 <= i < cased.len() implies #[trigger] cased[i] < 128 by {
        assert(hex_value(digits[i]) is Some);
    }
}

/// Renders an address, given as its 40 hexadecimal digits, in checksum casing
/// behind `0x`.
pub fn to_checksum_address(address: &str) -> (checksummed: String)
    requires
        is_address_digits(bytes_of(address@)),
    ensures
        checksummed@ == ascii_chars(with_0x(checksum_case(bytes_of(address@)))),
        checksummed@.len() == 42,
{
    let cased = checksum_case_bytes(address.as_bytes());
    let mut out: Vec<u8> = Vec::new();
    out.push(0x30);
    out.push(0x78);
    let mut i: usize = 0;
    proof {
        lemma_checksum_case_digits(bytes_of(address@));
    }
    while i < cased.len()
        invariant
            i <= cased.len(),
            all_ascii(cased@),
            out@ == with_0x(cased@.subrange(0, i as int)),
        decreases cased.len() - i,
    {
        out.push(cased[i]);
        i += 1;
        assert(out@ =~= with_0x(cased@.subrange(0, i as int)));
    }
    assert(cased@.subrange(0, i as int) =~= cased@);
    ascii_string(out.as_slice())
}

/// Whether `digits` is 40 hexadecimal digits.
pub fn is_address_body(digits: &[u8]) -> (valid: bool)
    ensures
        valid == is_address_digits(digits@),
{
    if digits.len() != 40 {
        return false;
    }
    let mut i: usize = 0;
    while i < 40
        invariant
            i <= 40,
            digits@.len() == 40,
            forall|j: int| 0 <= j < i ==> (#[trigger] hex_value(digits@[j])) is Some,
        decreases 40 - i,
    {
        if value_of(digits[i]).is_none() {
            assert(hex_value(digits@[i as int]) is None);
            return false;
        }
        i += 1;
    }
    true
}

/// The text of the error for a text that is not 40 hexadecimal digits.
pub open spec fn invalid_digits_text() -> Seq<char> {
    "Address must be 40 hexadecimal digits"@
}

/// Renders an address in checksum casing behind `0x`, if it is given as 40
/// hexadecimal digits; any other text is no address.
pub fn checksum_address(address: &str) -> (checksummed: Result<String, Create2Error>)
    ensures
        match checksummed {
            Ok(text) => is_address_digits(bytes_of(address@)) && text@ == ascii_chars(
                with_0x(checksum_case(bytes_of(address@))),
            ) && text@.len() == 42,
            Err(e) => !is_address_digits(bytes_of(address@)) && e@ == ErrorView::InvalidAddress(
                invalid_digits_text(),
            ),
        },
{
    if is_address_body(address.as_bytes()) {
        Ok(to_checksum_address(address))
    } else {
        Err(Create2Error::InvalidAddress("Address must be 40 hexadecimal digits".to_owned()))
    }
}

/// Putting a checksummed address back in lower case gives the lower-case form
/// of the address it was made from.
pub proof fn lemma_lower_of_checksum(digits: Seq<u8>)
    ensures
        lower_case(checksum_case(digits)) == lower_case(digits),
{
    assert(lower_case(checksum_case(digits)) =~= lower_case(digits));
}

/// The checksum casing is idempotent through lower case: casing the lower-case
/// form of a cased address gives the cased address again.
pub proof fn lemma_checksum_idempotent(digits: Seq<u8>)
    ensures
        checksum_case(lower_case(checksum_case(digits))) == checksum_case(digits),
{
    lemma_lower_of_checksum(digits);
    assert(lower_case(lower_case(digits)) =~= lower_case(digits));
    assert(checksum_case(lower_case(digits)) =~= checksum_case(digits));
}

} // verus!
