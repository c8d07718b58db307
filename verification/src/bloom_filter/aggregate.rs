//! The aggregate that stores one split block Bloom filter for every zone.

use vstd::prelude::*;

use crate::bits;
use crate::dtype;
use crate::dtype::{DType, Nullability};
use crate::error::BloomError;
use crate::hash::HashFn;
use crate::le;
use crate::nonzero::NonZeroUsize;
use crate::scalar::{Scalar, ScalarValue};

use super::canonical::{self, Canonical};
use super::constant::{self, ConstantArray};
use super::options::BloomOptions;
use super::partial;
use super::partial::BloomPartial;

verus! {

/// A batch of a column, in one of the two forms that are accumulated.
#[derive(Debug)]
pub enum Columnar {
    /// Values in canonical form.
    Canonical(Canonical),
    /// One repeated value.
    Constant(ConstantArray),
}

impl Columnar {
    /// Why the batch cannot be accumulated, where it cannot.
    pub open spec fn error(self) -> Option<BloomError> {
        match self {
            Columnar::Canonical(canonical) => if canonical.supported() {
                None
            } else {
                Some(BloomError::UnsupportedCanonical)
            },
            Columnar::Constant(constant) => if constant.scalar.spec_value() is Some
                && constant.scalar.spec_bytes() is None {
                Some(BloomError::UnsupportedScalar)
            } else {
                None
            },
        }
    }

    /// The bytes of the valid values, in order. A repeated value counts once.
    pub open spec fn items(self) -> Seq<Seq<u8>> {
        match self {
            Columnar::Canonical(canonical) => canonical.items(),
            Columnar::Constant(constant) => match constant.scalar.spec_bytes() {
                Some(bytes) => seq![bytes],
                None => Seq::empty(),
            },
        }
    }
}

/// An aggregate together with its options.
#[derive(Clone, Copy, Debug, PartialEq, Eq, Hash, Structural)]
pub struct AggregateFnRef {
    /// The options of the Bloom filter aggregate.
    pub options: BloomOptions,
}

/// A Bloom filter is an approximate membership query structure. In zoned layouts, it helps
/// determine if a value is present in a zone or not.
///
/// Because membership is approximate, the filter can produce false positives. Their probability
/// depends on the number of distinct values in the zone and the filter configuration.
///
/// Only valid (non-null) values are stored in the filter.
#[derive(Clone, Copy, Debug)]
pub struct BloomFilter;

/// What stored options say, or why they are refused: a block count of four bytes, the lowest
/// first, other than zero.
pub open spec fn metadata_error(metadata: Seq<u8>) -> Option<BloomError> {
    if metadata.len() != 4 {
        Some(BloomError::MetadataLength { found: metadata.len() as usize })
    } else if le::le_value(metadata) == 0 {
        Some(BloomError::ZeroBlocks)
    } else {
        None
    }
}

/// The type of a stored filter, where filters hold values of the input type: a byte string,
/// never null.
pub open spec fn state_dtype(input: DType) -> Option<DType> {
    if dtype::spec_is_bloom_valid_dtype(input) {
        Some(DType::Binary(Nullability::NonNullable))
    } else {
        None
    }
}

/// Whether a scalar is the serialized form of a filter: a byte string, of a type without null,
/// that holds the filter's bits.
pub open spec fn is_serialized(scalar: Scalar, partial: BloomPartial) -> bool {
    &&& scalar.spec_dtype() == DType::Binary(Nullability::NonNullable)
    &&& scalar.spec_value() matches Some(ScalarValue::Binary(bytes))
    &&& bits::bytes_bits(bytes@) == partial@
    &&& bytes@.len() == 32 * partial.spec_len()
}

impl BloomFilter {
    /// The identifier of the aggregate.
    pub fn id(&self) -> (id: &'static str)
        ensures
            id@ == "vortex.bloom_filter.v1"@,
    {
        "vortex.bloom_filter.v1"
    }

    /// Writes the options that are stored with the aggregate: the block count, four bytes wide,
    /// the lowest byte first. The hash function is not written, so options with one other than
    /// the default are not read back as they were.
    pub fn serialize(&self, options: &BloomOptions) -> (r: Result<Option<Vec<u8>>, BloomError>)
        ensures
            r matches Ok(Some(metadata)) && metadata@ == le::le_bytes(
                options.spec_blocks() as nat,
                4,
            ),
    {
        let blocks = options.blocks().get();
        Ok(Some(le::write_le(blocks as u128, 4)))
    }

    /// Reads stored options. The hash function is the default one.
    pub fn deserialize(&self, metadata: &[u8]) -> (r: Result<BloomOptions, BloomError>)
        ensures
            r is Ok <==> metadata_error(metadata@) is None,
            r matches Ok(options) ==> options.spec_blocks() == le::le_value(metadata@)
                && options.spec_hash_fn() == HashFn::XxHash3_64 && options.wf(),
            r matches Err(e) ==> metadata_error(metadata@) == Some(e),
    {
        if metadata.len() != 4 {
            return Err(BloomError::MetadataLength { found: metadata.len() });
        }
        let blocks = le::read_u32(metadata);
        assert(metadata@.subrange(0, 4) =~= metadata@);
        match NonZeroUsize::new(blocks as usize) {
            Some(blocks) => Ok(BloomOptions::new(blocks)),
            None => Err(BloomError::ZeroBlocks),
        }
    }

    /// The type of the stored filter, where the input type is supported: a byte string, never
    /// null. An empty filter is all zero bytes rather than null.
    pub fn return_dtype(&self, options: &BloomOptions, input_dtype: &DType) -> (r: Option<DType>)
        ensures
            r == state_dtype(*input_dtype),
    {
        if dtype::is_bloom_valid_dtype(input_dtype) {
            Some(DType::Binary(Nullability::NonNullable))
        } else {
            None
        }
    }

    /// The type of a partial state, which is that of the stored filter.
    pub fn partial_dtype(&self, options: &BloomOptions, input_dtype: &DType) -> (r: Option<DType>)
        ensures
            r == state_dtype(*input_dtype),
    {
        self.return_dtype(options, input_dtype)
    }

    /// Returns an empty filter, with no bit set.
    pub fn empty_partial(&self, options: &BloomOptions, input_dtype: &DType) -> (r: Result<
        BloomPartial,
        BloomError,
    >)
        ensures
            r matches Ok(partial) && partial@ == bits::no_bits(
                (256 * options.spec_blocks()) as nat,
            ) && partial.spec_len() == options.spec_blocks() && partial.spec_hash_fn()
                == options.spec_hash_fn() && partial.wf(),
    {
        Ok(BloomPartial::empty(options))
    }

    /// Adds a serialized filter to a filter of the same size: the bits of both are set. A null
    /// adds nothing. On an error the filter is left as it was.
    pub fn combine_partials(&self, partial: &mut BloomPartial, other: Scalar) -> (r: Result<
        (),
        BloomError,
    >)
        requires
            other.spec_value() is None || other.spec_dtype() is Binary,
        ensures
            match other.spec_value() {
                Some(ScalarValue::Binary(bytes)) => match combine_error(
                    old(partial).spec_len(),
                    bytes@,
                ) {
                    Some(e) => r == Err::<(), BloomError>(e) && final(partial)@ == old(partial)@,
                    None => r == Ok::<(), BloomError>(()) && final(partial)@ == bits::union_bits(
                        old(partial)@,
                        bits::bytes_bits(bytes@),
                    ),
                },
                _ => r == Ok::<(), BloomError>(()) && final(partial)@ == old(partial)@,
            },
            final(partial).spec_len() == old(partial).spec_len(),
            final(partial).spec_hash_fn() == old(partial).spec_hash_fn(),
    {
        match other.value() {
            Some(ScalarValue::Binary(bytes)) => {
                let parsed = BloomPartial::from_bytes(bytes.as_slice(), HashFn::XxHash3_64);
                match parsed {
                    Ok(other) => {
                        if partial.len() != other.len() {
                            return Err(
                                BloomError::LengthMismatch {
                                    expected: partial.len(),
                                    found: other.len(),
                                },
                            );
                        }
                        partial.combine_with_other(&other);
                        Ok(())
                    },
                    Err(e) => Err(e),
                }
            },
            _ => Ok(()),
        }
    }

    /// Returns the filter as a byte string that is never null.
    pub fn to_scalar(&self, partial: &BloomPartial) -> (r: Result<Scalar, BloomError>)
        ensures
            r matches Ok(s) && is_serialized(s, *partial),
    {
        Ok(Scalar::binary(partial.to_bytes(), Nullability::NonNullable))
    }

    /// Clears every bit of the filter.
    pub fn reset(&self, partial: &mut BloomPartial)
        ensures
            final(partial)@ == bits::no_bits(old(partial)@.len()),
            final(partial).spec_len() == old(partial).spec_len(),
            final(partial).spec_hash_fn() == old(partial).spec_hash_fn(),
    {
        partial.reset();
    }

    /// Returns true if all the blocks are full.
    pub fn is_saturated(&self, partial: &BloomPartial) -> (full: bool)
        ensures
            full == (partial@ == bits::all_bits(partial@.len())),
    {
        partial.is_saturated()
    }

    /// Inserts the valid values of a batch. On an error the filter is left as it was.
    pub fn accumulate(&self, partial: &mut BloomPartial, batch: &Columnar) -> (r: Result<
        (),
        BloomError,
    >)
        requires
            old(partial).wf(),
        ensures
            match batch.error() {
                Some(e) => r == Err::<(), BloomError>(e) && final(partial)@ == old(partial)@,
                None => r == Ok::<(), BloomError>(()) && final(partial)@
                    == partial::insert_all_bits(
                    old(partial)@,
                    partial::hashes_of(old(partial).spec_hash_fn(), batch.items()),
                ),
            },
            final(partial).wf(),
            final(partial).spec_len() == old(partial).spec_len(),
            final(partial).spec_hash_fn() == old(partial).spec_hash_fn(),
    {
        match batch {
            Columnar::Constant(constant) => {
                proof {
                    let hash_fn = partial.spec_hash_fn();
                    match constant.scalar.spec_bytes() {
                        Some(bytes) => {
                            let hashes = partial::hashes_of(hash_fn, seq![bytes]);
                            assert(hashes.drop_last() =~= Seq::<u64>::empty());
                            assert(hashes.last() == hash_fn.spec_hash(bytes));
                            assert(partial::insert_all_bits(partial@, hashes.drop_last())
                                == partial@);
                        },
                        None => {
                            assert(partial::hashes_of(hash_fn, Seq::empty())
                                =~= Seq::<u64>::empty());
                        },
                    }
                }
                constant::accumulate_constant(constant, partial)
            },
            Columnar::Canonical(canonical) => canonical::accumulate_canonical(canonical, partial),
        }
    }

    /// Stored states are the results: they are returned as they are.
    pub fn finalize<T>(&self, partials: T) -> (r: Result<T, BloomError>)
        ensures
            r == Ok::<T, BloomError>(partials),
    {
        Ok(partials)
    }

    /// Returns the filter as a byte string that is never null.
    pub fn finalize_scalar(&self, partial: &BloomPartial) -> (r: Result<Scalar, BloomError>)
        ensures
            r matches Ok(s) && is_serialized(s, *partial),
    {
        self.to_scalar(partial)
    }

    /// Binds the aggregate to its options.
    pub fn bind(&self, options: BloomOptions) -> (r: AggregateFnRef)
        ensures
            r.options == options,
    {
        AggregateFnRef { options }
    }
}

/// Why serialized bytes cannot be added to a filter of `blocks` blocks, where they cannot.
pub open spec fn combine_error(blocks: nat, bytes: Seq<u8>) -> Option<BloomError> {
    match partial::decode_error(bytes) {
        Some(e) => Some(e),
        None => if bytes.len() / 32 != blocks {
            Some(
                BloomError::LengthMismatch {
                    expected: blocks as usize,
                    found: (bytes.len() / 32) as usize,
                },
            )
        } else {
            None
        },
    }
}

} // verus!
