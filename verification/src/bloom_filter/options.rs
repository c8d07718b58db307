//! Bloom filter tuning options.

use vstd::prelude::*;

use crate::hash::HashFn;
use crate::nonzero;
use crate::nonzero::NonZeroUsize;
use crate::text;

verus! {

/// Blocks in a filter whose options do not say otherwise.
pub const DEFAULT_BLOCKS_COUNT: usize = 256;

/// Bloom filter tuning options.
///
/// A filter is partitioned into 256-bit blocks. More blocks reduce the false-positive rate at
/// the cost of a larger filter:
///
/// | `blocks_count`  |      Memory | Notes   |
/// | --------------: | ----------: | ------- |
/// |               8 |   **256 B** |         |
/// |             256 |   **8 KiB** | Default |
/// |           8,192 | **256 KiB** |         |
/// |          65,536 |   **2 MiB** |         |
/// |       1,048,576 |  **32 MiB** |         |
///
/// The block count fits 32 bits, which is what blocks are selected by and options are stored
/// with.
#[derive(Clone, Copy, Debug, PartialEq, Eq, Hash, Structural)]
pub struct BloomOptions {
    blocks_count: NonZeroUsize,
    hash_fn: HashFn,
}

impl BloomOptions {
    /// The number of blocks.
    pub closed spec fn spec_blocks(self) -> usize {
        self.blocks_count.value()
    }

    /// The hash function that filters are built with.
    pub closed spec fn spec_hash_fn(self) -> HashFn {
        self.hash_fn
    }

    /// There is a block, and no more of them than 32 bits can count.
    #[verifier::type_invariant]
    pub open spec fn wf(self) -> bool {
        1 <= self.spec_blocks() <= u32::MAX
    }

    /// Creates options for filters of the given number of blocks and the default hash function.
    pub fn new(blocks_count: NonZeroUsize) -> (options: BloomOptions)
        requires
            blocks_count.value() <= u32::MAX,
        ensures
            options.spec_blocks() == blocks_count.value(),
            options.spec_hash_fn() == HashFn::XxHash3_64,
            options.wf(),
    {
        let _ = blocks_count.get();
        BloomOptions { blocks_count, hash_fn: HashFn::XxHash3_64 }
    }

    /// The same options with another hash function.
    ///
    /// Stored options do not name the hash function: what is read back has the default one.
    /// Where filters are built with another function, whoever reads the options has to set it
    /// again, or probes of those filters miss values that are there.
    pub fn with_hash_fn(self, hash_fn: HashFn) -> (options: BloomOptions)
        ensures
            options.spec_blocks() == self.spec_blocks(),
            options.spec_hash_fn() == hash_fn,
            options.wf(),
    {
        proof {
            use_type_invariant(self);
        }
        BloomOptions { blocks_count: self.blocks_count, hash_fn }
    }

    /// Returns the number of blocks.
    pub fn blocks(&self) -> (blocks: NonZeroUsize)
        ensures
            blocks.value() == self.spec_blocks(),
            self.wf(),
    {
        proof {
            use_type_invariant(self);
        }
        self.blocks_count
    }

    /// Returns the hash function.
    pub fn hash_fn(&self) -> (hash_fn: HashFn)
        ensures
            hash_fn == self.spec_hash_fn(),
    {
        self.hash_fn
    }

    /// The options as they are displayed.
    pub fn display(&self) -> (s: String)
        ensures
            s@ == "blocks="@ + text::decimal(self.spec_blocks() as nat),
    {
        let mut s = String::from_str("blocks=");
        text::append_decimal(&mut s, self.blocks_count.get());
        s
    }
}

impl Default for BloomOptions {
    fn default() -> (options: BloomOptions)
        ensures
            options.spec_blocks() == 256,
            options.spec_hash_fn() == HashFn::XxHash3_64,
            options.wf(),
    {
        BloomOptions::new(NonZeroUsize::new(DEFAULT_BLOCKS_COUNT).unwrap())
    }
}

/// Options are determined by their block count and hash function.
pub proof fn lemma_options_ext(a: BloomOptions, b: BloomOptions)
    requires
        a.spec_blocks() == b.spec_blocks(),
        a.spec_hash_fn() == b.spec_hash_fn(),
    ensures
        a == b,
{
    nonzero::lemma_nonzero_usize_ext(a.blocks_count, b.blocks_count);
}

} // verus!
