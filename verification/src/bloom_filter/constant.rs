//! Constant arrays, and their accumulation into a filter.

use vstd::prelude::*;

use crate::error::BloomError;
use crate::scalar::Scalar;

use super::partial;
use super::partial::BloomPartial;
use super::scalar;

verus! {

/// An array that repeats one scalar.
#[derive(Debug)]
pub struct ConstantArray {
    /// The scalar.
    pub scalar: Scalar,
    /// How often it is repeated.
    pub len: usize,
}

/// Inserts the value of a constant array. A null is omitted. A value of an unsupported type is
/// rejected and leaves the filter as it was.
pub fn accumulate_constant(constant: &ConstantArray, partial: &mut BloomPartial) -> (r: Result<
    (),
    BloomError,
>)
    requires
        old(partial).wf(),
    ensures
        match scalar::scalar_hash(old(partial).spec_hash_fn(), constant.scalar) {
            Ok(hash) => r == Ok::<(), BloomError>(()) && final(partial)@ == partial::insert_bits(
                old(partial)@,
                hash,
            ),
            Err(e) => final(partial)@ == old(partial)@ && r == if e is NullScalar {
                Ok::<(), BloomError>(())
            } else {
                Err(e)
            },
        },
        final(partial).wf(),
        final(partial).spec_len() == old(partial).spec_len(),
        final(partial).spec_hash_fn() == old(partial).spec_hash_fn(),
{
    if constant.scalar.is_null() {
        return Ok(());
    }
    partial.insert_valid_scalar(&constant.scalar)
}

} // verus!
