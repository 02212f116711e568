//! The address of a minimal proxy deployed with a salt: the byte layout that is
//! hashed, the two hashes, and the two renderings of the result.

use crate::base58::{
    base58check_text, hex_to_tron_address, tron_address_bytes, tron_address_to_hex, TRON_VERSION,
};
use crate::bytes::{append, copy_range};
use crate::codec::{
    all_hex_digits, checksum_case, fast_hex_encode, hex_decode, hex_decode_bytes, hex_encode,
    hex_value, is_address_body, lemma_hex_encode_is_hex, to_checksum_address, with_0x,
};
use crate::error::{text_result, Create2Error, ErrorView};
use crate::hash::{keccak256, keccak256_digest};
use crate::text::{ascii_chars, bytes_of, decimal, numbered};
use vstd::prelude::*;
use vstd::slice::slice_subrange;

verus! {

/// The code of the proxy in front of the implementation's address.
pub const PREFIX_BYTES: [u8; 20] = [
    0x3d, 0x60, 0x2d, 0x80, 0x60, 0x0a, 0x3d, 0x39, 0x81, 0xf3,
    0x36, 0x3d, 0x3d, 0x37, 0x3d, 0x3d, 0x3d, 0x36, 0x3d, 0x73,
];

/// The code of the proxy behind the implementation's address, and the byte
/// that opens the second hash's input: `0xff` on the hexadecimal chain.
pub const SUFFIX_BYTES: [u8; 16] = [
    0x5a, 0xf4, 0x3d, 0x82, 0x80, 0x3e, 0x90, 0x3d,
    0x91, 0x60, 0x2b, 0x57, 0xfd, 0x5b, 0xf3, 0xff,
];

/// As `SUFFIX_BYTES`, with the byte that the alternate chain puts in front of
/// the second hash's input: `0x41`.
pub const TRON_SUFFIX_BYTES: [u8; 16] = [
    0x5a, 0xf4, 0x3d, 0x82, 0x80, 0x3e, 0x90, 0x3d,
    0x91, 0x60, 0x2b, 0x57, 0xfd, 0x5b, 0xf3, 0x41,
];

/// The longest salt, in bytes.
pub const SALT_LEN: usize = 32;

/// Whether `text` is an address in hexadecimal: `0x` and 40 digits.
pub open spec fn is_valid_address(text: Seq<u8>) -> bool {
    &&& text.len() == 42
    &&& text[0] == 0x30
    &&& text[1] == 0x78
    &&& all_hex_digits(text.subrange(2, 42))
}

/// The text of the error for an address that is not valid.
pub open spec fn invalid_address_text() -> Seq<char> {
    "Invalid address format"@
}

/// The text of the error for a salt of `len` bytes, `len` being over 32.
pub open spec fn invalid_salt_text(len: nat) -> Seq<char> {
    "Salt length should not exceed 32 characters, got "@ + ascii_chars(decimal(len))
}

/// `salt` filled up with zero bytes at its end to 32 bytes.
pub open spec fn pad_salt(salt: Seq<u8>) -> Seq<u8> {
    Seq::new(32, |i: int| if i < salt.len() { salt[i] } else { 0u8 })
}

/// The 108 bytes that are hashed: the proxy's code around the implementation's
/// address, then the deployer's address and the padded salt.
pub open spec fn proxy_layout(
    suffix: Seq<u8>,
    implementation: Seq<u8>,
    deployer: Seq<u8>,
    salt: Seq<u8>,
) -> Seq<u8> {
    PREFIX_BYTES@ + implementation + suffix + deployer + salt
}

/// The address that a layout gives: the first 55 bytes are hashed, the hash is
/// put behind the other 53, the 85 bytes are hashed, and the last 20 bytes of
/// that second hash are the address.
pub open spec fn derived_address(layout: Seq<u8>) -> Seq<u8> {
    let first = keccak256(layout.subrange(0, 55));
    let second = keccak256(layout.subrange(55, 108) + first);
    second.subrange(12, 32)
}

/// Checks that an address is written as `0x` and 40 hexadecimal digits.
pub fn validate_address(address: &str) -> (checked: Result<(), Create2Error>)
    ensures
        checked is Ok <==> is_valid_address(bytes_of(address@)),
        checked matches Err(e) ==> e@ == ErrorView::InvalidAddress(invalid_address_text()),
{
    let text = address.as_bytes();
    if text.len() != 42 || text[0] != 0x30 || text[1] != 0x78 {
        return Err(Create2Error::InvalidAddress("Invalid address format".to_owned()));
    }
    if !is_address_body(slice_subrange(text, 2, 42)) {
        return Err(Create2Error::InvalidAddress("Invalid address format".to_owned()));
    }
    Ok(())
}

/// The error for a salt of `len` bytes.
fn invalid_salt(len: usize) -> (e: Create2Error)
    ensures
        e@ == ErrorView::InvalidSalt(invalid_salt_text(len as nat)),
{
    Create2Error::InvalidSalt(numbered("Salt length should not exceed 32 characters, got ", len))
}

/// Writes a salt into 32 bytes, zero bytes behind it. A salt of more than 32
/// bytes is refused, and the 32 bytes stay as they were.
pub fn salt_to_bytes(salt: &str, output: &mut [u8; 32]) -> (filled: Result<(), Create2Error>)
    ensures
        filled is Ok <==> bytes_of(salt@).len() <= 32,
        filled is Ok ==> final(output)@ == pad_salt(bytes_of(salt@)),
        filled matches Err(e) ==> e@ == ErrorView::InvalidSalt(
            invalid_salt_text(bytes_of(salt@).len()),
        ) && final(output)@ == old(output)@,
{
    let data = salt.as_bytes();
    if data.len() > SALT_LEN {
        return Err(invalid_salt(data.len()));
    }
    let mut i: usize = 0;
    while i < SALT_LEN
        invariant
            i <= 32,
            data@ == bytes_of(salt@),
            data@.len() <= 32,
            forall|j: int| 0 <= j < i ==> #[trigger] output@[j] == pad_salt(data@)[j],
        decreases 32 - i,
    {
        if i < data.len() {
            output[i] = data[i];
        } else {
            output[i] = 0;
        }
        i += 1;
    }
    assert(output@ =~= pad_salt(data@));
    Ok(())
}

/// Derives the 20 address bytes from the two 20-byte addresses and the padded
/// salt, under the suffix of one of the two chains.
pub fn derive_address(
    suffix: &[u8; 16],
    implementation: &[u8],
    deployer: &[u8],
    salt: &[u8; 32],
) -> (address: Vec<u8>)
    requires
        implementation@.len() == 20,
        deployer@.len() == 20,
    ensures
        address@ == derived_address(proxy_layout(suffix@, implementation@, deployer@, salt@)),
        address@.len() == 20,
{
    let mut layout: Vec<u8> = Vec::new();
    append(&mut layout, PREFIX_BYTES.as_slice());
    append(&mut layout, implementation);
    append(&mut layout, suffix.as_slice());
    append(&mut layout, deployer);
    append(&mut layout, salt.as_slice());
    assert(layout@ == proxy_layout(suffix@, implementation@, deployer@, salt@));
    assert(layout@.len() == 108);
    let head = copy_range(layout.as_slice(), 0, 55);
    let first = keccak256_digest(head.as_slice());
    let mut tail = copy_range(layout.as_slice(), 55, 108);
    append(&mut tail, first.as_slice());
    let second = keccak256_digest(tail.as_slice());
    copy_range(second.as_slice(), 12, 32)
}

/// The rendering of 20 address bytes on the hexadecimal chain: `0x` and the 40
/// digits in checksum casing.
pub open spec fn evm_address_text(address: Seq<u8>) -> Seq<char> {
    ascii_chars(with_0x(checksum_case(hex_encode(address))))
}

/// The address on the hexadecimal chain for two valid addresses and a salt of
/// at most 32 bytes, the three given as the bytes of their texts.
pub open spec fn evm_address(implementation: Seq<u8>, deployer: Seq<u8>, salt: Seq<u8>) -> Seq<
    char,
> {
    evm_address_text(
        derived_address(
            proxy_layout(
                SUFFIX_BYTES@,
                hex_decode(implementation.subrange(2, 42)),
                hex_decode(deployer.subrange(2, 42)),
                pad_salt(salt),
            ),
        ),
    )
}

/// What predicting an address on the hexadecimal chain gives, the three inputs
/// taken as the bytes of their texts. The two addresses are checked first, then
/// the salt's length; the address is derived from the decoded addresses and the
/// padded salt.
pub open spec fn predicted_address(
    implementation: Seq<u8>,
    deployer: Seq<u8>,
    salt: Seq<u8>,
) -> Result<Seq<char>, ErrorView> {
    if !is_valid_address(implementation) || !is_valid_address(deployer) {
        Err(ErrorView::InvalidAddress(invalid_address_text()))
    } else if salt.len() > 32 {
        Err(ErrorView::InvalidSalt(invalid_salt_text(salt.len())))
    } else {
        Ok(evm_address(implementation, deployer, salt))
    }
}

/// The 20 bytes of an address that `validate_address` has accepted.
fn address_bytes(address: &str) -> (bytes: Vec<u8>)
    requires
        is_valid_address(bytes_of(address@)),
    ensures
        bytes@ == hex_decode(bytes_of(address@).subrange(2, 42)),
        bytes@.len() == 20,
{
    let digits = copy_range(address.as_bytes(), 2, 42);
    match hex_decode_bytes(digits.as_slice()) {
        Some(bytes) => bytes,
        None => Vec::new(),
    }
}

/// Predicts the address at which the proxy of `implementation` is deployed by
/// `deployer` under `salt`, and renders it in checksum casing: 42 characters.
pub fn predict_deterministic_address(implementation: &str, deployer: &str, salt: &str) -> (predicted:
    Result<String, Create2Error>)
    ensures
        text_result(predicted) == predicted_address(
            bytes_of(implementation@),
            bytes_of(deployer@),
            bytes_of(salt@),
        ),
        predicted matches Ok(text) ==> text@.len() == 42,
{
    match validate_address(implementation) {
        Err(e) => {
            return Err(e);
        },
        Ok(_) => {},
    }
    match validate_address(deployer) {
        Err(e) => {
            return Err(e);
        },
        Ok(_) => {},
    }
    let mut salt_bytes = [0u8; 32];
    match salt_to_bytes(salt, &mut salt_bytes) {
        Err(e) => {
            return Err(e);
        },
        Ok(_) => {},
    }
    let implementation_bytes = address_bytes(implementation);
    let deployer_bytes = address_bytes(deployer);
    let address = derive_address(
        &SUFFIX_BYTES,
        implementation_bytes.as_slice(),
        deployer_bytes.as_slice(),
        &salt_bytes,
    );
    let digits = fast_hex_encode(address.as_slice());
    proof {
        lemma_hex_encode_is_hex(address@);
    }
    Ok(to_checksum_address(digits.as_str()))
}

/// What predicting an address on the alternate chain gives. The two addresses
/// are read from their Base58 texts first, then the salt's length is checked;
/// the address is derived under the alternate chain's suffix and rendered as
/// Base58Check text.
pub open spec fn predicted_tron_address(
    implementation: Seq<char>,
    deployer: Seq<char>,
    salt: Seq<u8>,
) -> Result<Seq<char>, ErrorView> {
    match tron_address_bytes(implementation) {
        Err(e) => Err(e),
        Ok(implementation_bytes) => match tron_address_bytes(deployer) {
            Err(e) => Err(e),
            Ok(deployer_bytes) => if salt.len() > 32 {
                Err(ErrorView::InvalidSalt(invalid_salt_text(salt.len())))
            } else {
                Ok(
                    base58check_text(
                        TRON_VERSION,
                        derived_address(
                            proxy_layout(
                                TRON_SUFFIX_BYTES@,
                                implementation_bytes,
                                deployer_bytes,
                                pad_salt(salt),
                            ),
                        ),
                    ),
                )
            },
        },
    }
}

/// Predicts the address at which the proxy of `implementation` is deployed by
/// `deployer` under `salt` on the alternate chain, the two addresses given and
/// the result rendered as Base58Check text.
pub fn predict_tron_address(implementation: &str, deployer: &str, salt: &str) -> (predicted: Result<
    String,
    Create2Error,
>)
    ensures
        text_result(predicted) == predicted_tron_address(
            implementation@,
            deployer@,
            bytes_of(salt@),
        ),
{
    let implementation_bytes = match tron_address_to_hex(implementation) {
        Err(e) => {
            return Err(e);
        },
        Ok(bytes) => bytes,
    };
    let deployer_bytes = match tron_address_to_hex(deployer) {
        Err(e) => {
            return Err(e);
        },
        Ok(bytes) => bytes,
    };
    let mut salt_bytes = [0u8; 32];
    match salt_to_bytes(salt, &mut salt_bytes) {
        Err(e) => {
            return Err(e);
        },
        Ok(_) => {},
    }
    let address = derive_address(
        &TRON_SUFFIX_BYTES,
        implementation_bytes.as_slice(),
        deployer_bytes.as_slice(),
        &salt_bytes,
    );
    hex_to_tron_address(address.as_slice())
}

/// The two ways in which an address is written.
#[derive(Clone, Copy, Debug, PartialEq, Eq, Structural)]
pub enum ChainFormat {
    /// `0x` and 40 hexadecimal digits in checksum casing.
    Evm,
    /// Base58Check text under the version byte `0x41`.
    Tron,
}

/// What predicting an address gives in either format, the three inputs given
/// as the characters of their texts.
pub open spec fn prediction(
    format: ChainFormat,
    implementation: Seq<char>,
    deployer: Seq<char>,
    salt: Seq<char>,
) -> Result<Seq<char>, ErrorView> {
    match format {
        ChainFormat::Evm => predicted_address(
            bytes_of(implementation),
            bytes_of(deployer),
            bytes_of(salt),
        ),
        ChainFormat::Tron => predicted_tron_address(implementation, deployer, bytes_of(salt)),
    }
}

/// Predicts the address of the proxy in the given format. Both addresses are
/// given, and the result is rendered, in that one format.
pub fn predict(format: ChainFormat, implementation: &str, deployer: &str, salt: &str) -> (predicted:
    Result<String, Create2Error>)
    ensures
        text_result(predicted) == prediction(format, implementation@, deployer@, salt@),
        format == ChainFormat::Evm ==> (predicted matches Ok(text) ==> text@.len() == 42),
{
    match format {
        ChainFormat::Evm => predict_deterministic_address(implementation, deployer, salt),
        ChainFormat::Tron => predict_tron_address(implementation, deployer, salt),
    }
}

/// Prediction is a function of its inputs: any two results for the same format,
/// addresses and salt are the same text or the same error.
pub proof fn lemma_predict_deterministic(
    format: ChainFormat,
    implementation: Seq<char>,
    deployer: Seq<char>,
    salt: Seq<char>,
    first: Result<String, Create2Error>,
    second: Result<String, Create2Error>,
)
    requires
        text_result(first) == prediction(format, implementation, deployer, salt),
        text_result(second) == prediction(format, implementation, deployer, salt),
    ensures
        text_result(first) == text_result(second),
{
}

/// With two valid addresses, a salt of up to 32 bytes is accepted, and a longer
/// one is refused as an invalid salt.
pub proof fn lemma_salt_boundary(implementation: Seq<u8>, deployer: Seq<u8>, salt: Seq<u8>)
    requires
        is_valid_address(implementation),
        is_valid_address(deployer),
    ensures
        salt.len() <= 32 ==> predicted_address(implementation, deployer, salt) is Ok,
        salt.len() > 32 ==> predicted_address(implementation, deployer, salt) == Err::<
            Seq<char>,
            ErrorView,
        >(ErrorView::InvalidSalt(invalid_salt_text(salt.len()))),
{
}

/// An address of another length than 42, one that does not begin with `0x`,
/// and one with a character behind `0x` that is no hexadecimal digit are all
/// refused as invalid addresses, in either position and whatever the salt.
pub proof fn lemma_invalid_address_rejected(
    address: Seq<u8>,
    other: Seq<u8>,
    salt: Seq<u8>,
    at: int,
)
    requires
        address.len() != 42 || address[0] != 0x30 || address[1] != 0x78 || (2 <= at < 42
            && hex_value(address[at]) is None),
    ensures
        !is_valid_address(address),
        predicted_address(address, other, salt) == Err::<Seq<char>, ErrorView>(
            ErrorView::InvalidAddress(invalid_address_text()),
        ),
        predicted_address(other, address, salt) == Err::<Seq<char>, ErrorView>(
            ErrorView::InvalidAddress(invalid_address_text()),
        ),
{
    if address.len() == 42 && 2 <= at < 42 && hex_value(address[at]) is None {
        assert(address.subrange(2, 42)[at - 2] == address[at]);
        assert(hex_value(address.subrange(2, 42)[at - 2]) is None);
    }
}

/// The error that the two addresses give by themselves in a format, if they
/// give one: the error of the first of the two that is not valid.
pub open spec fn address_error(
    format: ChainFormat,
    implementation: Seq<char>,
    deployer: Seq<char>,
) -> Option<ErrorView> {
    match format {
        ChainFormat::Evm => if !is_valid_address(bytes_of(implementation)) || !is_valid_address(
            bytes_of(deployer),
        ) {
            Some(ErrorView::InvalidAddress(invalid_address_text()))
        } else {
            None
        },
        ChainFormat::Tron => match tron_address_bytes(implementation) {
            Err(e) => Some(e),
            Ok(_) => match tron_address_bytes(deployer) {
                Err(e) => Some(e),
                Ok(_) => None,
            },
        },
    }
}

/// Once the two addresses are valid, no salt of up to 32 bytes can fail; and
/// where they are not, every such salt fails with the error of the addresses.
pub proof fn lemma_addresses_decide(
    format: ChainFormat,
    implementation: Seq<char>,
    deployer: Seq<char>,
    salt: Seq<char>,
)
    requires
        bytes_of(salt).len() <= 32,
    ensures
        match address_error(format, implementation, deployer) {
            Some(e) => prediction(format, implementation, deployer, salt) == Err::<
                Seq<char>,
                ErrorView,
            >(e),
            None => prediction(format, implementation, deployer, salt) is Ok,
        },
{
}

/// Two salts that are the same once padded cannot be told apart: whatever is
/// predicted for one is predicted for the other.
pub proof fn lemma_padded_salts_alike(
    format: ChainFormat,
    implementation: Seq<char>,
    deployer: Seq<char>,
    first: Seq<char>,
    second: Seq<char>,
)
    requires
        bytes_of(first).len() <= 32,
        bytes_of(second).len() <= 32,
        pad_salt(bytes_of(first)) == pad_salt(bytes_of(second)),
    ensures
        prediction(format, implementation, deployer, first) == prediction(
            format,
            implementation,
            deployer,
            second,
        ),
{
}

} // verus!
