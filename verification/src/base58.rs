//! Base58 text with a checksum, as the alternate chain writes its addresses.
//! The Base58 digits themselves come from the `bs58` crate: what it encodes and
//! decodes is named here, not computed.

use crate::bytes::{append, copy_range, same_bytes};
use crate::error::{Create2Error, ErrorView};
use crate::hash::{sha256, sha256_digest};
use vstd::prelude::*;

verus! {

/// The version byte of an address of the alternate chain's main network.
pub const TRON_VERSION: u8 = 0x41;

/// The Base58 text that writes `bytes` in the default alphabet.
pub uninterp spec fn base58_text(bytes: Seq<u8>) -> Seq<char>;

/// The bytes that the Base58 text `text` writes in the default alphabet, or
/// `None` where `text` is no such text.
pub uninterp spec fn base58_bytes(text: Seq<char>) -> Option<Seq<u8>>;

/// The error of the decoder of `bs58`: it is handed on and never looked into.
#[verifier::external_type_specification]
#[verifier::external_body]
pub struct ExBase58DecodeError(bs58::decode::Error);

/// Calls `bs58::encode(..).into_string()`. Believed, not proved: the result is
/// the Base58 text of the bytes given, and the crate's decoder reads that text
/// back as the same bytes, the two being the halves of one codec.
#[verifier::external_body]
pub(crate) fn bs58_encode(bytes: &[u8]) -> (text: String)
    ensures
        text@ == base58_text(bytes@),
        base58_bytes(text@) == Some(bytes@),
{
    bs58::encode(bytes).into_string()
}

/// Calls `bs58::decode(..).into_vec()`. Believed, not proved: the call
/// succeeds exactly on the texts that write some bytes, and then returns them.
#[verifier::external_body]
pub(crate) fn bs58_decode(text: &str) -> (decoded: Result<Vec<u8>, bs58::decode::Error>)
    ensures
        match decoded {
            Ok(bytes) => base58_bytes(text@) == Some(bytes@),
            Err(_) => base58_bytes(text@) is None,
        },
{
    bs58::decode(text).into_vec()
}

/// The checksum of `data`: the first four bytes of its double SHA-256 digest.
pub open spec fn checksum4(data: Seq<u8>) -> Seq<u8> {
    sha256(sha256(data)).subrange(0, 4)
}

/// The bytes that are written in Base58: the version byte, the payload, and
/// the checksum of the two.
pub open spec fn check_frame(version: u8, payload: Seq<u8>) -> Seq<u8> {
    let body = seq![version] + payload;
    body + checksum4(body)
}

/// The Base58Check text of a payload under a version byte.
pub open spec fn base58check_text(version: u8, payload: Seq<u8>) -> Seq<char> {
    base58_text(check_frame(version, payload))
}

/// What a Base58Check text holds. A text that is no Base58 is no address; one
/// that does not write 25 bytes has the wrong length; one whose last four bytes
/// are not the checksum of the first 21 has the wrong checksum; any other holds
/// its first byte as the version and the next 20 as the payload.
pub open spec fn base58check_parse(text: Seq<char>) -> Result<(u8, Seq<u8>), ErrorView> {
    match base58_bytes(text) {
        None => Err(ErrorView::InvalidAddress("Invalid Base58 address"@)),
        Some(frame) => if frame.len() != 25 {
            Err(ErrorView::InvalidLength)
        } else if frame.subrange(21, 25) != checksum4(frame.subrange(0, 21)) {
            Err(ErrorView::InvalidChecksum)
        } else {
            Ok((frame[0], frame.subrange(1, 21)))
        },
    }
}

/// The checksum of `data`.
fn checksum_of(data: &[u8]) -> (sum: Vec<u8>)
    ensures
        sum@ == checksum4(data@),
        sum@.len() == 4,
{
    let first = sha256_digest(data);
    let second = sha256_digest(first.as_slice());
    copy_range(second.as_slice(), 0, 4)
}

/// Writes a payload under a version byte as Base58Check text. Decoding the
/// text of a 20-byte payload gives the version and the payload back.
pub fn base58check_encode(version: u8, payload: &[u8]) -> (text: String)
    ensures
        text@ == base58check_text(version, payload@),
        payload@.len() == 20 ==> base58check_parse(text@) == Ok::<(u8, Seq<u8>), ErrorView>(
            (version, payload@),
        ),
{
    let mut frame: Vec<u8> = Vec::new();
    frame.push(version);
    append(&mut frame, payload);
    assert(frame@ =~= seq![version] + payload@);
    let sum = checksum_of(frame.as_slice());
    let ghost body = frame@;
    append(&mut frame, sum.as_slice());
    assert(frame@ == check_frame(version, payload@));
    let text = bs58_encode(frame.as_slice());
    proof {
        if payload@.len() == 20 {
            assert(frame@.subrange(0, 21) =~= body);
            assert(frame@.subrange(21, 25) =~= checksum4(body));
            assert(frame@.subrange(1, 21) =~= payload@);
        }
    }
    text
}

/// Reads a Base58Check text: its version byte and its 20-byte payload.
pub fn base58check_decode(text: &str) -> (decoded: Result<(u8, Vec<u8>), Create2Error>)
    ensures
        match decoded {
            Ok((version, payload)) => base58check_parse(text@) == Ok::<(u8, Seq<u8>), ErrorView>(
                (version, payload@),
            ) && payload@.len() == 20,
            Err(e) => base58check_parse(text@) == Err::<(u8, Seq<u8>), ErrorView>(e@),
        },
{
    match bs58_decode(text) {
        Err(_) => Err(Create2Error::InvalidAddress("Invalid Base58 address".to_owned())),
        Ok(frame) => {
            if frame.len() != 25 {
                return Err(Create2Error::InvalidLength);
            }
            let body = copy_range(frame.as_slice(), 0, 21);
            let given = copy_range(frame.as_slice(), 21, 25);
            let sum = checksum_of(body.as_slice());
            if !same_bytes(given.as_slice(), sum.as_slice()) {
                return Err(Create2Error::InvalidChecksum);
            }
            let payload = copy_range(frame.as_slice(), 1, 21);
            Ok((frame[0], payload))
        },
    }
}

/// The 20 address bytes in an address of the alternate chain: the payload of
/// its Base58Check text. A text that is no Base58 is no address; one that does
/// not write 25 bytes has the wrong length; one whose checksum is not that of
/// its first 21 bytes has the wrong checksum. The version byte is not looked at.
pub open spec fn tron_address_bytes(text: Seq<char>) -> Result<Seq<u8>, ErrorView> {
    match base58check_parse(text) {
        Err(e) => Err(e),
        Ok((_, payload)) => Ok(payload),
    }
}

/// What rendering `address` as an address of the alternate chain gives: its
/// Base58Check text under the main network's version byte, if it is 20 bytes.
pub open spec fn tron_address_text(address: Seq<u8>) -> Result<Seq<char>, ErrorView> {
    if address.len() != 20 {
        Err(ErrorView::InvalidAddress("Invalid address length"@))
    } else {
        Ok(base58check_text(TRON_VERSION, address))
    }
}

/// Reads the 20 address bytes out of an address of the alternate chain, after
/// its length and its checksum have been checked.
pub fn tron_address_to_hex(base58_addr: &str) -> (address: Result<Vec<u8>, Create2Error>)
    ensures
        match address {
            Ok(bytes) => tron_address_bytes(base58_addr@) == Ok::<Seq<u8>, ErrorView>(bytes@)
                && bytes@.len() == 20,
            Err(e) => tron_address_bytes(base58_addr@) == Err::<Seq<u8>, ErrorView>(e@),
        },
{
    match base58check_decode(base58_addr) {
        Err(e) => Err(e),
        Ok((_, payload)) => Ok(payload),
    }
}

/// Renders 20 address bytes as an address of the alternate chain. The text
/// reads back as the main network's version byte and the same 20 bytes.
pub fn hex_to_tron_address(address_bytes: &[u8]) -> (text: Result<String, Create2Error>)
    ensures
        match text {
            Ok(t) => {
                &&& tron_address_text(address_bytes@) == Ok::<Seq<char>, ErrorView>(t@)
                &&& base58check_parse(t@) == Ok::<(u8, Seq<u8>), ErrorView>(
                    (TRON_VERSION, address_bytes@),
                )
                &&& tron_address_bytes(t@) == Ok::<Seq<u8>, ErrorView>(address_bytes@)
            },
            Err(e) => tron_address_text(address_bytes@) == Err::<Seq<char>, ErrorView>(e@),
        },
{
    if address_bytes.len() != 20 {
        return Err(Create2Error::InvalidAddress("Invalid address length".to_owned()));
    }
    Ok(base58check_encode(TRON_VERSION, address_bytes))
}

} // verus!
