//! What the device hands back: one record of fixed width for each salt, read
//! into addresses.

use crate::error::{Create2Error, ErrorView};
use crate::predictor::ChainFormat;
use crate::text::{ascii_chars, decimal, numbered};
use vstd::prelude::*;
use vstd::slice::slice_subrange;
use vstd::string::StringSliceAdditionalSpecFns;
use vstd::utf8::*;

verus! {

/// The error of `core::str::from_utf8`: it is handed on and never looked into.
#[verifier::external_type_specification]
#[verifier::external_body]
pub struct ExUtf8Error(core::str::Utf8Error);

/// `core::str::from_utf8` succeeds exactly on the byte sequences that are valid
/// UTF-8, and the text that it returns is made of the bytes given, as its
/// documentation says.
pub assume_specification<'a>[ core::str::from_utf8 ](v: &'a [u8]) -> (text: Result<
    &'a str,
    core::str::Utf8Error,
>)
    ensures
        match text {
            Ok(s) => valid_utf8(v@) && s.spec_bytes() == v@,
            Err(_) => !valid_utf8(v@),
        },
;

/// The bytes of one result record on the hexadecimal chain: 40 digits and the
/// index of the salt.
pub const EVM_RECORD_LEN: usize = 44;

/// The bytes of one result record on the alternate chain: up to 64 characters,
/// the index of the salt, and the number of characters written.
pub const TRON_RECORD_LEN: usize = 72;

/// The number that four bytes write, the lowest byte first.
pub open spec fn le32_value(bytes: Seq<u8>) -> nat {
    (bytes[0] + 256 * bytes[1] + 65536 * bytes[2] + 16777216 * bytes[3]) as nat
}

/// Reads the number that the four bytes from `at` on write, the lowest first.
pub fn read_le32(bytes: &[u8], at: usize) -> (value: u32)
    requires
        at + 4 <= bytes@.len(),
    ensures
        value == le32_value(bytes@.subrange(at as int, at + 4)),
{
    let b0 = bytes[at] as u32;
    let b1 = bytes[at + 1] as u32;
    let b2 = bytes[at + 2] as u32;
    let b3 = bytes[at + 3] as u32;
    b0 + 256 * b1 + 65536 * b2 + 16777216 * b3
}

/// One result record on the hexadecimal chain.
#[derive(Clone, Copy, Debug)]
pub struct Create2Result {
    pub address: [u8; 40],
    pub salt_index: u32,
}

/// One result record on the alternate chain.
#[derive(Clone, Copy, Debug)]
pub struct Create2TronResult {
    pub address: [u8; 64],
    pub salt_index: u32,
    pub address_len: u32,
}

impl Create2Result {
    /// Reads a record from its 44 bytes.
    pub fn from_bytes(record: &[u8]) -> (result: Self)
        requires
            record@.len() == 44,
        ensures
            result.address@ == record@.subrange(0, 40),
            result.salt_index == le32_value(record@.subrange(40, 44)),
    {
        let mut address = [0u8; 40];
        let mut i: usize = 0;
        while i < 40
            invariant
                i <= 40,
                record@.len() == 44,
                forall|j: int| 0 <= j < i ==> address@[j] == record@[j],
            decreases 40 - i,
        {
            address[i] = record[i];
            i += 1;
        }
        assert(address@ =~= record@.subrange(0, 40));
        Create2Result { address, salt_index: read_le32(record, 40) }
    }
}

impl Create2TronResult {
    /// Reads a record from its 72 bytes.
    pub fn from_bytes(record: &[u8]) -> (result: Self)
        requires
            record@.len() == 72,
        ensures
            result.address@ == record@.subrange(0, 64),
            result.salt_index == le32_value(record@.subrange(64, 68)),
            result.address_len == le32_value(record@.subrange(68, 72)),
    {
        let mut address = [0u8; 64];
        let mut i: usize = 0;
        while i < 64
            invariant
                i <= 64,
                record@.len() == 72,
                forall|j: int| 0 <= j < i ==> address@[j] == record@[j],
            decreases 64 - i,
        {
            address[i] = record[i];
            i += 1;
        }
        assert(address@ =~= record@.subrange(0, 64));
        Create2TronResult {
            address,
            salt_index: read_le32(record, 64),
            address_len: read_le32(record, 68),
        }
    }
}

/// The bytes of one result record in a format.
pub open spec fn record_len(format: ChainFormat) -> nat {
    match format {
        ChainFormat::Evm => 44,
        ChainFormat::Tron => 72,
    }
}

/// The record of the salt at `index` in the results of a batch.
pub open spec fn record_at(format: ChainFormat, results: Seq<u8>, index: nat) -> Seq<u8> {
    results.subrange(
        (record_len(format) * index) as int,
        (record_len(format) * index + record_len(format)) as int,
    )
}

/// The bytes of the address text in a record, or `None` for a record that was
/// not written. On the hexadecimal chain every record holds 40 digits. On the
/// alternate chain a record holds as many characters as its length says; one
/// whose length is 0 or over 64 was not written.
pub open spec fn written_text(format: ChainFormat, record: Seq<u8>) -> Option<Seq<u8>> {
    match format {
        ChainFormat::Evm => Some(record.subrange(0, 40)),
        ChainFormat::Tron => {
            let len = le32_value(record.subrange(68, 72));
            if 0 < len <= 64 {
                Some(record.subrange(0, len as int))
            } else {
                None
            }
        },
    }
}

/// The characters in front of the text of a record: `0x` on the hexadecimal
/// chain, nothing on the alternate chain.
pub open spec fn text_prefix(format: ChainFormat) -> Seq<char> {
    match format {
        ChainFormat::Evm => "0x"@,
        ChainFormat::Tron => ""@,
    }
}

/// The text of the error for a record whose text is not valid UTF-8.
pub open spec fn undecodable_text(index: nat) -> Seq<char> {
    "Failed to decode address at index "@ + ascii_chars(decimal(index))
}

/// What the first `count` records of a batch read as: the address of each
/// record that was written, with the index of its record, in the order of the
/// records; or the error of the first record whose text is not valid UTF-8.
pub open spec fn read_back(format: ChainFormat, results: Seq<u8>, count: nat) -> Result<
    Seq<(Seq<char>, u32)>,
    ErrorView,
>
    decreases count,
{
    if count == 0 {
        Ok(Seq::empty())
    } else {
        let index = (count - 1) as nat;
        match read_back(format, results, index) {
            Err(e) => Err(e),
            Ok(earlier) => match written_text(format, record_at(format, results, index)) {
                None => Ok(earlier),
                Some(text) => if valid_utf8(text) {
                    Ok(earlier.push((text_prefix(format) + decode_utf8(text), index as u32)))
                } else {
                    Err(ErrorView::GpuError(undecodable_text(index)))
                },
            },
        }
    }
}

/// Once a record fails, every longer reading fails with the same error.
pub proof fn lemma_read_back_error(format: ChainFormat, results: Seq<u8>, failed: nat, count: nat)
    requires
        read_back(format, results, failed) is Err,
        failed <= count,
    ensures
        read_back(format, results, count) == read_back(format, results, failed),
    decreases count,
{
    if count > failed {
        lemma_read_back_error(format, results, failed, (count - 1) as nat);
    }
}

/// The addresses read, each with the index of its record, as they are in
/// contracts.
pub open spec fn pairs_view(pairs: Seq<(String, u32)>) -> Seq<(Seq<char>, u32)> {
    Seq::new(pairs.len(), |i: int| (pairs[i].0@, pairs[i].1))
}

/// What reading the results of a batch gives: the buffer must hold `count`
/// records, which are then read in their order.
pub open spec fn read_results_spec(format: ChainFormat, results: Seq<u8>, count: nat) -> Result<
    Seq<(Seq<char>, u32)>,
    ErrorView,
> {
    if results.len() < record_len(format) * count {
        Err(ErrorView::GpuError("Result buffer too small"@))
    } else {
        read_back(format, results, count)
    }
}

/// Reads the results of a batch of `count` salts out of the bytes of the
/// results buffer.
pub fn read_results(format: ChainFormat, results: &[u8], count: u32) -> (read: Result<
    Vec<(String, u32)>,
    Create2Error,
>)
    ensures
        match read {
            Ok(pairs) => read_results_spec(format, results@, count as nat) == Ok::<
                Seq<(Seq<char>, u32)>,
                ErrorView,
            >(pairs_view(pairs@)),
            Err(e) => read_results_spec(format, results@, count as nat) == Err::<
                Seq<(Seq<char>, u32)>,
                ErrorView,
            >(e@),
        },
{
    let width: usize = match format {
        ChainFormat::Evm => EVM_RECORD_LEN,
        ChainFormat::Tron => TRON_RECORD_LEN,
    };
    assert(width == record_len(format));
    assert(width == 44 || width == 72);
    if results.len() / width < count as usize {
        return Err(Create2Error::GpuError("Result buffer too small".to_owned()));
    }
    let mut pairs: Vec<(String, u32)> = Vec::new();
    assert(pairs_view(pairs@) =~= Seq::<(Seq<char>, u32)>::empty());
    let mut i: u32 = 0;
    while i < count
        invariant
            i <= count,
            width == record_len(format),
            width == 44 || width == 72,
            results@.len() >= width * count,
            results@.len() <= usize::MAX,
            read_back(format, results@, i as nat) == Ok::<Seq<(Seq<char>, u32)>, ErrorView>(
                pairs_view(pairs@),
            ),
        decreases count - i,
    {
        let index = i as usize;
        assert(0 <= width * index && width * index + width <= width * count) by (nonlinear_arith)
            requires
                0 <= index,
                index + 1 <= count,
                width > 0,
        ;
        let start = width * index;
        let record = slice_subrange(results, start, start + width);
        assert(record@ == record_at(format, results@, i as nat));
        let length: usize = match format {
            ChainFormat::Evm => 40,
            ChainFormat::Tron => {
                let len = read_le32(record, 68);
                if len <= 64 {
                    len as usize
                } else {
                    0
                }
            },
        };
        let ghost earlier = pairs_view(pairs@);
        if length > 0 {
            let text_bytes = slice_subrange(record, 0, length);
            assert(written_text(format, record@) == Some(text_bytes@));
            match core::str::from_utf8(text_bytes) {
                Err(_) => {
                    proof {
                        lemma_read_back_error(format, results@, (i + 1) as nat, count as nat);
                    }
                    return Err(
                        Create2Error::GpuError(
                            numbered("Failed to decode address at index ", i as usize),
                        ),
                    );
                },
                Ok(text) => {
                    let mut address = match format {
                        ChainFormat::Evm => "0x".to_owned(),
                        ChainFormat::Tron => "".to_owned(),
                    };
                    address.append(text);
                    proof {
                        encode_utf8_decode_utf8(text@);
                        assert(address@ == text_prefix(format) + decode_utf8(text_bytes@));
                    }
                    pairs.push((address, i));
                    assert(pairs_view(pairs@) =~= earlier.push(
                        (text_prefix(format) + decode_utf8(text_bytes@), i),
                    ));
                },
            }
        } else {
            assert(written_text(format, record@) is None);
        }
        i += 1;
    }
    Ok(pairs)
}

} // verus!
