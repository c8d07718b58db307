//! What can go wrong when filters are built, stored, combined and probed.

use vstd::prelude::*;

verus! {

/// A rejected request.
#[derive(Clone, Copy, Debug, PartialEq, Eq, Structural)]
pub enum BloomError {
    /// Stored options have the wrong number of bytes.
    MetadataLength {
        /// The number of bytes found.
        found: usize,
    },
    /// Stored options name zero blocks.
    ZeroBlocks,
    /// Stored options name zero bytes.
    ZeroBytes,
    /// Stored options name zero hash probes.
    ZeroHashes,
    /// A size does not fit the 32 bits that options are stored with.
    SizeTooLarge {
        /// The size.
        size: usize,
    },
    /// No hash function has this identifier.
    UnknownHashFn {
        /// The identifier that was looked up.
        id: u32,
    },
    /// A serialized filter is empty or does not consist of whole blocks.
    InvalidByteLength {
        /// The number of bytes found.
        len: usize,
    },
    /// A serialized filter has more blocks than 32 bits can count.
    BlocksOutOfRange {
        /// The number of blocks found.
        blocks: usize,
    },
    /// Two filters to be combined, or a filter and its options, differ in size.
    LengthMismatch {
        /// The size that was asked for.
        expected: usize,
        /// The size found.
        found: usize,
    },
    /// Bytes to be merged into a filter do not fill the same number of blocks.
    BytesMismatch {
        /// The number of blocks of the filter.
        blocks: usize,
        /// The number of bytes found.
        len: usize,
    },
    /// A null scalar has no hash.
    NullScalar,
    /// A scalar of this type has no hash.
    UnsupportedScalar,
    /// An array of this type cannot be accumulated.
    UnsupportedCanonical,
    /// A scalar is not a 64-bit signed integer.
    NotI64,
    /// The column that is probed does not hold serialized filters.
    FilterNotBinary,
    /// The value that is looked for has a type that filters do not support.
    UnsupportedNeedle,
    /// The value that is looked for is not a constant.
    NeedleNotConstant,
}

} // verus!
