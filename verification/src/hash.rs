//! The hash functions a filter can be built with.

use twox_hash::{XxHash3_64, XxHash64};
use vstd::prelude::*;

use crate::error::BloomError;

verus! {

/// The seed of the seeded functions. The XXH family defaults to zero where none is given.
pub const DEFAULT_SEED: u64 = 0;

/// What `twox_hash::XxHash3_64::oneshot` returns for the given bytes.
pub uninterp spec fn xxh3_64(bytes: Seq<u8>) -> u64;

/// What `twox_hash::XxHash64::oneshot` returns for the given seed and bytes.
pub uninterp spec fn xxh64(seed: u64, bytes: Seq<u8>) -> u64;

/// Calls `twox_hash::XxHash3_64::oneshot`, the 64-bit XXH3 hash under its default secret and
/// seed. The result is a function of the bytes alone; which function is not stated.
#[verifier::external_body]
fn xxh3_64_oneshot(bytes: &[u8]) -> (hash: u64)
    ensures
        hash == xxh3_64(bytes@),
{
    XxHash3_64::oneshot(bytes)
}

/// Calls `twox_hash::XxHash64::oneshot`, the 64-bit XXH hash under the given seed. The result is
/// a function of the seed and the bytes alone; which function is not stated.
#[verifier::external_body]
fn xxh64_oneshot(seed: u64, bytes: &[u8]) -> (hash: u64)
    ensures
        hash == xxh64(seed, bytes@),
{
    XxHash64::oneshot(seed, bytes)
}

/// Hash function to use in a Bloom filter.
///
/// The options are fast, non-cryptographic xxHash variants.
#[derive(Clone, Copy, Debug, PartialEq, Eq, Hash, Structural)]
pub enum HashFn {
    /// XXH3, 64 bits wide. The default, under identifier 0.
    XxHash3_64,
    /// XXH, 64 bits wide. Identifier 1.
    XxHash64,
}

impl HashFn {
    /// The hash of a byte sequence under this function.
    pub open spec fn spec_hash(self, bytes: Seq<u8>) -> u64 {
        match self {
            HashFn::XxHash3_64 => xxh3_64(bytes),
            HashFn::XxHash64 => xxh64(DEFAULT_SEED, bytes),
        }
    }

    /// The stable identifier of this function.
    pub open spec fn spec_id(self) -> u32 {
        match self {
            HashFn::XxHash3_64 => 0,
            HashFn::XxHash64 => 1,
        }
    }

    /// The name of this function.
    pub open spec fn spec_name(self) -> Seq<char> {
        match self {
            HashFn::XxHash3_64 => "xxhash3_64"@,
            HashFn::XxHash64 => "xxhash64"@,
        }
    }

    /// Hashes the given bytes using the configured function.
    pub fn hash_bytes(self, bytes: &[u8]) -> (hash: u64)
        ensures
            hash == self.spec_hash(bytes@),
            self is XxHash3_64 ==> hash == xxh3_64(bytes@),
            self is XxHash64 ==> hash == xxh64(0, bytes@),
    {
        match self {
            HashFn::XxHash3_64 => xxh3_64_oneshot(bytes),
            HashFn::XxHash64 => xxh64_oneshot(DEFAULT_SEED, bytes),
        }
    }

    /// The stable identifier of this function.
    pub fn id(self) -> (id: u32)
        ensures
            id == self.spec_id(),
    {
        match self {
            HashFn::XxHash3_64 => 0,
            HashFn::XxHash64 => 1,
        }
    }

    /// The name of this function, as it is displayed.
    pub fn name(self) -> (name: &'static str)
        ensures
            name@ == self.spec_name(),
    {
        match self {
            HashFn::XxHash3_64 => "xxhash3_64",
            HashFn::XxHash64 => "xxhash64",
        }
    }
}

impl TryFrom<u32> for HashFn {
    type Error = BloomError;

    /// Looks a hash function up by its identifier.
    fn try_from(value: u32) -> (r: Result<HashFn, BloomError>)
        ensures
            r == (match value {
                0 => Ok(HashFn::XxHash3_64),
                1 => Ok(HashFn::XxHash64),
                _ => Err(BloomError::UnknownHashFn { id: value }),
            }),
    {
        match value {
            0 => Ok(HashFn::XxHash3_64),
            1 => Ok(HashFn::XxHash64),
            _ => Err(BloomError::UnknownHashFn { id: value }),
        }
    }
}

impl vstd::std_specs::convert::TryFromSpecImpl<u32> for HashFn {
    open spec fn obeys_try_from_spec() -> bool {
        true
    }

    open spec fn try_from_spec(value: u32) -> Result<HashFn, BloomError> {
        match value {
            0 => Ok(HashFn::XxHash3_64),
            1 => Ok(HashFn::XxHash64),
            _ => Err(BloomError::UnknownHashFn { id: value }),
        }
    }
}

/// The hash of a value is that of its whole byte sequence, however long it is, and the seed is
/// zero.
pub proof fn law_whole_value_is_hashed(bytes: Seq<u8>)
    ensures
        HashFn::XxHash3_64.spec_hash(bytes) == xxh3_64(bytes),
        HashFn::XxHash64.spec_hash(bytes) == xxh64(0, bytes),
{
}

/// The stable identifiers and names of the hash functions.
pub proof fn law_identifiers_and_names()
    ensures
        HashFn::XxHash3_64.spec_id() == 0,
        HashFn::XxHash64.spec_id() == 1,
        HashFn::XxHash3_64.spec_name() == "xxhash3_64"@,
        HashFn::XxHash64.spec_name() == "xxhash64"@,
{
}

} // verus!
