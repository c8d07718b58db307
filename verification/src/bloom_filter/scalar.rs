//! Scalar helpers for split block Bloom filters.
//!
//! The core filter operates on bytes. This module provides scalar-aware insertion and membership
//! helpers, with the conversion from scalars to the bytes used for hashing.

use vstd::prelude::*;

use crate::error::BloomError;
use crate::hash::HashFn;
use crate::le::ToBytes;
use crate::scalar::{Scalar, ScalarValue};

use super::partial;
use super::partial::BloomPartial;

verus! {

/// The hash of a scalar under a hash function, or why there is none.
pub open spec fn scalar_hash(hash_fn: HashFn, scalar: Scalar) -> Result<u64, BloomError> {
    if scalar.spec_value() is None {
        Err(BloomError::NullScalar)
    } else {
        match scalar.spec_bytes() {
            Some(bytes) => Ok(hash_fn.spec_hash(bytes)),
            None => Err(BloomError::UnsupportedScalar),
        }
    }
}

impl BloomPartial {
    /// Returns the hash of the scalar's underlying value, or an error if the scalar is null or
    /// its type is unsupported. A scalar of an extension type holds its storage value, which is
    /// what is hashed.
    pub fn hash_valid_scalar(&self, scalar: &Scalar) -> (r: Result<u64, BloomError>)
        ensures
            r == scalar_hash(self.spec_hash_fn(), *scalar),
    {
        match scalar.value() {
            None => Err(BloomError::NullScalar),
            Some(value) => match value {
                ScalarValue::Bool(v) => Ok(self.hash(ToBytes::to_le_bytes(v).as_slice())),
                ScalarValue::Primitive(v) => Ok(self.hash(ToBytes::to_le_bytes(v).as_slice())),
                ScalarValue::Decimal(v) => Ok(self.hash(ToBytes::to_le_bytes(v).as_slice())),
                ScalarValue::Utf8(v) => Ok(self.hash(v.as_str().as_bytes())),
                ScalarValue::Binary(v) => Ok(self.hash(v.as_slice())),
                ScalarValue::Nested => Err(BloomError::UnsupportedScalar),
            },
        }
    }

    /// Returns `true` if the underlying value of a scalar might be present in the filter.
    ///
    /// A `false` result guarantees that the value is absent. A `true` result may
    /// be a false positive.
    pub fn contains_valid_scalar(&self, scalar: &Scalar) -> (r: Result<bool, BloomError>)
        requires
            self.wf(),
        ensures
            r == (match scalar_hash(self.spec_hash_fn(), *scalar) {
                Ok(hash) => Ok(partial::find_bits(self@, hash)),
                Err(e) => Err(e),
            }),
    {
        match self.hash_valid_scalar(scalar) {
            Ok(hash) => Ok(self.find_hash(hash)),
            Err(e) => Err(e),
        }
    }

    /// Inserts the underlying value of a scalar if it is valid. On an error the filter is left
    /// as it was.
    pub fn insert_valid_scalar(&mut self, scalar: &Scalar) -> (r: Result<(), BloomError>)
        requires
            old(self).wf(),
        ensures
            match scalar_hash(old(self).spec_hash_fn(), *scalar) {
                Ok(hash) => r == Ok::<(), BloomError>(()) && final(self)@ == partial::insert_bits(
                    old(self)@,
                    hash,
                ),
                Err(e) => r == Err::<(), BloomError>(e) && final(self)@ == old(self)@,
            },
            final(self).wf(),
            final(self).spec_len() == old(self).spec_len(),
            final(self).spec_hash_fn() == old(self).spec_hash_fn(),
    {
        match self.hash_valid_scalar(scalar) {
            Ok(hash) => {
                self.insert_hash(hash);
                Ok(())
            },
            Err(e) => Err(e),
        }
    }

    /// Inserts a value of fixed width.
    pub fn insert_primitive<T: ToBytes>(&mut self, value: &T)
        requires
            old(self).wf(),
        ensures
            final(self).wf(),
            final(self)@ == partial::insert_bits(
                old(self)@,
                old(self).spec_hash_fn().spec_hash(value.spec_le_bytes()),
            ),
            final(self).spec_len() == old(self).spec_len(),
            final(self).spec_hash_fn() == old(self).spec_hash_fn(),
    {
        let bytes = value.to_le_bytes();
        let hash = self.hash(bytes.as_slice());
        self.insert_hash(hash);
    }
}

} // verus!
