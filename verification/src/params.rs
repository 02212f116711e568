//! What a batch hands to the device: the parameter block, and the salts, each
//! padded to its slot.

use crate::base58::{tron_address_bytes, tron_address_to_hex};
use crate::bytes::{append, copy_range};
use crate::codec::{hex_encode, hex_encode_bytes, lemma_hex_encode_is_hex};
use crate::error::{Create2Error, ErrorView};
use crate::predictor::{
    invalid_address_text, invalid_salt_text, is_valid_address, pad_salt, salt_to_bytes,
    validate_address,
};
use crate::text::bytes_of;
use vstd::prelude::*;

verus! {

/// The four bytes of `value`, the lowest first.
pub open spec fn le32(value: u32) -> Seq<u8> {
    seq![
        (value % 256) as u8,
        (value / 256 % 256) as u8,
        (value / 65536 % 256) as u8,
        (value / 16777216) as u8,
    ]
}

/// Appends the four bytes of `value`, the lowest first.
pub fn push_le32(buffer: &mut Vec<u8>, value: u32)
    ensures
        final(buffer)@ == old(buffer)@ + le32(value),
{
    let ghost before = buffer@;
    buffer.push((value % 256) as u8);
    buffer.push((value / 256 % 256) as u8);
    buffer.push((value / 65536 % 256) as u8);
    buffer.push((value / 16777216) as u8);
    assert(buffer@ =~= before + le32(value));
}

/// The 40 bytes of `digits` as an array.
fn digits_array(digits: &[u8]) -> (array: [u8; 40])
    requires
        digits@.len() == 40,
    ensures
        array@ == digits@,
{
    let mut array = [0u8; 40];
    let mut i: usize = 0;
    while i < 40
        invariant
            i <= 40,
            digits@.len() == 40,
            forall|j: int| 0 <= j < i ==> array@[j] == digits@[j],
        decreases 40 - i,
    {
        array[i] = digits[i];
        i += 1;
    }
    assert(array@ =~= digits@);
    array
}

/// The parameter block of a batch on the hexadecimal chain: the 40 digits of
/// each address as they were given, the number of salts, and the number of
/// addresses that one thread of the device computes.
#[derive(Clone, Copy, Debug)]
pub struct Create2Params {
    pub implementation: [u8; 40],
    pub deployer: [u8; 40],
    pub batch_size: u32,
    pub addresses_per_thread: u32,
}

impl Create2Params {
    /// The bytes of the block as the device reads them: 88 bytes.
    pub open spec fn bytes(&self) -> Seq<u8> {
        self.implementation@ + self.deployer@ + le32(self.batch_size) + le32(
            self.addresses_per_thread,
        )
    }

    /// The block for two addresses, which must be valid.
    pub fn new(implementation: &str, deployer: &str, batch_size: u32, addresses_per_thread: u32) -> (params:
        Result<Self, Create2Error>)
        ensures
            params is Ok <==> is_valid_address(bytes_of(implementation@)) && is_valid_address(
                bytes_of(deployer@),
            ),
            params matches Ok(p) ==> {
                &&& p.implementation@ == bytes_of(implementation@).subrange(2, 42)
                &&& p.deployer@ == bytes_of(deployer@).subrange(2, 42)
                &&& p.batch_size == batch_size
                &&& p.addresses_per_thread == addresses_per_thread
            },
            params matches Err(e) ==> e@ == ErrorView::InvalidAddress(invalid_address_text()),
    {
        match validate_address(implementation) {
            Err(e) => {
                return Err(e);
            },
            Ok(_) => {},
        }
        match validate_address(deployer) {
            Err(e) => {
                return Err(e);
            },
            Ok(_) => {},
        }
        let implementation_digits = copy_range(implementation.as_bytes(), 2, 42);
        let deployer_digits = copy_range(deployer.as_bytes(), 2, 42);
        Ok(
            Create2Params {
                implementation: digits_array(implementation_digits.as_slice()),
                deployer: digits_array(deployer_digits.as_slice()),
                batch_size,
                addresses_per_thread,
            },
        )
    }

    /// The bytes of the block as the device reads them.
    pub fn to_bytes(&self) -> (block: Vec<u8>)
        ensures
            block@ == self.bytes(),
            block@.len() == 88,
    {
        let mut block: Vec<u8> = Vec::new();
        append(&mut block, self.implementation.as_slice());
        append(&mut block, self.deployer.as_slice());
        push_le32(&mut block, self.batch_size);
        push_le32(&mut block, self.addresses_per_thread);
        block
    }
}

/// The parameter block of a batch on the alternate chain: the two addresses
/// as 40 lower-case hexadecimal digits each, the number of salts, the number of
/// addresses that one thread computes, and the seed from which the device makes
/// its own salts where `use_gpu_random` is 1.
#[derive(Clone, Copy, Debug)]
pub struct Create2TronParams {
    pub implementation: [u8; 40],
    pub deployer: [u8; 40],
    pub batch_size: u32,
    pub addresses_per_thread: u32,
    pub random_seed: u32,
    pub use_gpu_random: u32,
}

/// The seed of a batch, where the device makes the salts itself.
pub open spec fn seed_word(random_seed: Option<u32>) -> u32 {
    match random_seed {
        Some(seed) => seed,
        None => 0,
    }
}

/// The word that tells the device whether it makes the salts itself.
pub open spec fn random_word(random_seed: Option<u32>) -> u32 {
    if random_seed is Some {
        1
    } else {
        0
    }
}

impl Create2TronParams {
    /// The bytes of the block as the device reads them: 96 bytes.
    pub open spec fn bytes(&self) -> Seq<u8> {
        self.implementation@ + self.deployer@ + le32(self.batch_size) + le32(
            self.addresses_per_thread,
        ) + le32(self.random_seed) + le32(self.use_gpu_random)
    }

    /// The block for two addresses of the alternate chain. With a seed the
    /// device makes the salts itself; without one it reads them from the salts
    /// buffer.
    pub fn new(
        implementation: &str,
        deployer: &str,
        batch_size: u32,
        addresses_per_thread: u32,
        random_seed: Option<u32>,
    ) -> (params: Result<Self, Create2Error>)
        ensures
            match params {
                Ok(p) => {
                    &&& tron_address_bytes(implementation@) matches Ok(i) && p.implementation@
                        == hex_encode(i)
                    &&& tron_address_bytes(deployer@) matches Ok(d) && p.deployer@ == hex_encode(d)
                    &&& p.batch_size == batch_size
                    &&& p.addresses_per_thread == addresses_per_thread
                    &&& p.random_seed == seed_word(random_seed)
                    &&& p.use_gpu_random == random_word(random_seed)
                },
                Err(e) => match tron_address_bytes(implementation@) {
                    Err(first) => e@ == first,
                    Ok(_) => tron_address_bytes(deployer@) == Err::<Seq<u8>, ErrorView>(e@),
                },
            },
    {
        let implementation_bytes = match tron_address_to_hex(implementation) {
            Err(e) => {
                return Err(e);
            },
            Ok(bytes) => bytes,
        };
        let deployer_bytes = match tron_address_to_hex(deployer) {
            Err(e) => {
                return Err(e);
            },
            Ok(bytes) => bytes,
        };
        let implementation_digits = hex_encode_bytes(implementation_bytes.as_slice());
        let deployer_digits = hex_encode_bytes(deployer_bytes.as_slice());
        proof {
            lemma_hex_encode_is_hex(implementation_bytes@);
            lemma_hex_encode_is_hex(deployer_bytes@);
        }
        let (seed, flag): (u32, u32) = match random_seed {
            Some(seed) => (seed, 1),
            None => (0, 0),
        };
        Ok(
            Create2TronParams {
                implementation: digits_array(implementation_digits.as_slice()),
                deployer: digits_array(deployer_digits.as_slice()),
                batch_size,
                addresses_per_thread,
                random_seed: seed,
                use_gpu_random: flag,
            },
        )
    }

    /// The bytes of the block as the device reads them.
    pub fn to_bytes(&self) -> (block: Vec<u8>)
        ensures
            block@ == self.bytes(),
            block@.len() == 96,
    {
        let mut block: Vec<u8> = Vec::new();
        append(&mut block, self.implementation.as_slice());
        append(&mut block, self.deployer.as_slice());
        push_le32(&mut block, self.batch_size);
        push_le32(&mut block, self.addresses_per_thread);
        push_le32(&mut block, self.random_seed);
        push_le32(&mut block, self.use_gpu_random);
        block
    }
}

/// The salts of a batch as the device reads them: each salt padded with zero
/// bytes to its slot of 32 bytes, the slots one behind the other.
pub open spec fn packed_salts(salts: Seq<String>) -> Seq<u8> {
    Seq::new(32 * salts.len(), |k: int| pad_salt(bytes_of(salts[k / 32]@))[k % 32])
}

/// Whether `index` is where the first salt of more than 32 bytes stands.
pub open spec fn is_first_long_salt(salts: Seq<String>, index: int) -> bool {
    &&& 0 <= index < salts.len()
    &&& bytes_of(salts[index]@).len() > 32
    &&& forall|j: int| 0 <= j < index ==> bytes_of((#[trigger] salts[j])@).len() <= 32
}

/// Packs the salts of a batch for the device. A salt of more than 32 bytes is
/// refused, the first of them by its length.
pub fn pack_salts(salts: &[String]) -> (packed: Result<Vec<u8>, Create2Error>)
    ensures
        match packed {
            Ok(buffer) => {
                &&& forall|i: int|
                    0 <= i < salts@.len() ==> bytes_of((#[trigger] salts@[i])@).len() <= 32
                &&& buffer@ == packed_salts(salts@)
            },
            Err(e) => exists|index: int|
                #[trigger] is_first_long_salt(salts@, index) && e@ == ErrorView::InvalidSalt(
                    invalid_salt_text(bytes_of(salts@[index]@).len()),
                ),
        },
{
    let mut buffer: Vec<u8> = Vec::new();
    let mut i: usize = 0;
    while i < salts.len()
        invariant
            i <= salts.len(),
            buffer@.len() == 32 * i,
            forall|j: int| 0 <= j < i ==> bytes_of((#[trigger] salts@[j])@).len() <= 32,
            forall|k: int|
                0 <= k < 32 * i ==> #[trigger] buffer@[k] == pad_salt(bytes_of(salts@[k / 32]@))[k
                    % 32],
        decreases salts.len() - i,
    {
        let mut slot = [0u8; 32];
        match salt_to_bytes(salts[i].as_str(), &mut slot) {
            Err(e) => {
                assert(is_first_long_salt(salts@, i as int));
                return Err(e);
            },
            Ok(_) => {},
        }
        let ghost before = buffer@;
        append(&mut buffer, slot.as_slice());
        assert forall|k: int| 0 <= k < 32 * (i + 1) implies #[trigger] buffer@[k] == pad_salt(
            bytes_of(salts@[k / 32]@),
        )[k % 32] by {
            if k < 32 * i {
                assert(buffer@[k] == before[k]);
            } else {
                assert(k / 32 == i && k % 32 == k - 32 * i);
                assert(buffer@[k] == slot@[k - 32 * i]);
            }
        }
        i += 1;
    }
    assert(buffer@ =~= packed_salts(salts@));
    Ok(buffer)
}

} // verus!
