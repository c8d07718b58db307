//! Split block Bloom filters (SBBF).
//!
//! A filter is a sequence of 256-bit blocks of eight 32-bit lanes. A hash selects one block with
//! its upper 32 bits and one bit in each lane of that block with its lower 32 bits. Inserting a
//! value sets those eight bits; a value may be present where all eight are set.

use vstd::prelude::*;

use crate::bits;
use crate::error::BloomError;
use crate::hash::HashFn;

use super::options::BloomOptions;

verus! {

/// Lanes in a block.
pub const LANES_PER_BLOCK: usize = 8;

/// Bytes in a lane.
pub const BYTES_PER_LANE: usize = 4;

/// Block size (32 bytes, 256 bits).
pub const BLOCK_SIZE: usize = LANES_PER_BLOCK * BYTES_PER_LANE;

/// Eight odd constants for multiply-shift hashing, one for each lane.
///
/// The order of the constants decides which bits a hash sets.
pub const SALT: [u32; 8] = [
    0x47b6137b, 0x44974d91, 0x8824ad5b, 0xa2b7289d, 0x705495c7, 0x2df1424b, 0x9efc4947, 0x5c6bfb31,
];

/// The block, among `blocks` of them, that a hash belongs to: its upper 32 bits, taken as a
/// fraction of 2^32, scaled to the number of blocks.
pub open spec fn block_of(hash: u64, blocks: nat) -> int {
    ((hash as int / 0x1_0000_0000) * blocks) / 0x1_0000_0000
}

/// The bit of lane `lane` that a hash selects, given its lower 32 bits: the five upper bits of
/// their product with the lane's salt, modulo 2^32.
pub open spec fn lane_probe(low: int, lane: int) -> int {
    ((low * SALT@[lane]) % 0x1_0000_0000) / 0x800_0000
}

/// The position in the bit sequence of the bit that a hash selects in lane `lane`.
pub open spec fn probe(hash: u64, blocks: nat, lane: int) -> int {
    256 * block_of(hash, blocks) + 32 * lane + lane_probe(hash as int % 0x1_0000_0000, lane)
}

/// Whether position `p` is one of the eight that a hash selects.
pub open spec fn is_probe(hash: u64, blocks: nat, p: int) -> bool {
    exists|lane: int| 0 <= lane < 8 && p == #[trigger] probe(hash, blocks, lane)
}

/// The bits of a filter after a hash was inserted.
pub open spec fn insert_bits(bits: Seq<bool>, hash: u64) -> Seq<bool> {
    Seq::new(bits.len(), |p: int| bits[p] || is_probe(hash, bits.len() / 256, p))
}

/// The bits of a filter after a sequence of hashes was inserted.
pub open spec fn insert_all_bits(bits: Seq<bool>, hashes: Seq<u64>) -> Seq<bool>
    decreases hashes.len(),
{
    if hashes.len() == 0 {
        bits
    } else {
        insert_bits(insert_all_bits(bits, hashes.drop_last()), hashes.last())
    }
}

/// The hashes of a sequence of values, each given by its bytes.
pub open spec fn hashes_of(hash_fn: HashFn, items: Seq<Seq<u8>>) -> Seq<u64> {
    items.map_values(|item: Seq<u8>| hash_fn.spec_hash(item))
}

/// Whether the eight bits that a hash selects are all set.
pub open spec fn find_bits(bits: Seq<bool>, hash: u64) -> bool {
    forall|lane: int| 0 <= lane < 8 ==> bits[#[trigger] probe(hash, bits.len() / 256, lane)]
}

/// Why bytes are not the serialized form of a filter, where they are not: it consists of whole
/// blocks, at least one and no more than 32 bits can count.
pub open spec fn decode_error(bytes: Seq<u8>) -> Option<BloomError> {
    if bytes.len() == 0 || bytes.len() % 32 != 0 {
        Some(BloomError::InvalidByteLength { len: bytes.len() as usize })
    } else if bytes.len() / 32 > u32::MAX {
        Some(BloomError::BlocksOutOfRange { blocks: (bytes.len() / 32) as usize })
    } else {
        None
    }
}

proof fn lemma_block_of(hash: u64, blocks: nat)
    requires
        blocks >= 1,
    ensures
        0 <= block_of(hash, blocks) < blocks,
{
    let h = hash as int / 0x1_0000_0000;
    let n = blocks as int;
    assert(0 <= h < 0x1_0000_0000);
    assert(0 <= h * n < 0x1_0000_0000 * n) by (nonlinear_arith)
        requires
            0 <= h < 0x1_0000_0000,
            n >= 1,
    ;
}

proof fn lemma_index_fits(hash: u64, blocks: nat)
    requires
        blocks <= u32::MAX,
    ensures
        (hash as int / 0x1_0000_0000) * blocks <= u64::MAX,
{
    let h = hash as int / 0x1_0000_0000;
    let n = blocks as int;
    assert(h * n <= 0xffff_ffff * 0xffff_ffff) by (nonlinear_arith)
        requires
            0 <= h <= 0xffff_ffff,
            0 <= n <= 0xffff_ffff,
    ;
}

proof fn lemma_lane_probe(low: int, lane: int)
    ensures
        0 <= lane_probe(low, lane) < 32,
{
}

/// Every probe lies within the filter, in its own lane of the hash's block.
pub proof fn lemma_probe_range(hash: u64, blocks: nat, lane: int)
    requires
        blocks >= 1,
        0 <= lane < 8,
    ensures
        0 <= probe(hash, blocks, lane) < 256 * blocks,
        probe(hash, blocks, lane) / 256 == block_of(hash, blocks),
        (probe(hash, blocks, lane) % 256) / 32 == lane,
        probe(hash, blocks, lane) % 32 == lane_probe(hash as int % 0x1_0000_0000, lane),
{
    lemma_block_of(hash, blocks);
    lemma_lane_probe(hash as int % 0x1_0000_0000, lane);
}

/// A position is a probe exactly where it is the probe of its own lane.
pub proof fn lemma_is_probe(hash: u64, blocks: nat, p: int)
    requires
        blocks >= 1,
        0 <= p < 256 * blocks,
    ensures
        is_probe(hash, blocks, p) <==> p / 256 == block_of(hash, blocks) && p % 32 == lane_probe(
            hash as int % 0x1_0000_0000,
            (p % 256) / 32,
        ),
{
    let lane = (p % 256) / 32;
    if p / 256 == block_of(hash, blocks) && p % 32 == lane_probe(
        hash as int % 0x1_0000_0000,
        lane,
    ) {
        assert(p == probe(hash, blocks, lane));
    }
    if is_probe(hash, blocks, p) {
        let l = choose|l: int| 0 <= l < 8 && p == #[trigger] probe(hash, blocks, l);
        lemma_probe_range(hash, blocks, l);
    }
}

/// A split block Bloom filter for a single layout zone.
pub struct BloomPartial {
    blocks: Vec<[u32; 8]>,
    hash_fn: HashFn,
}

impl View for BloomPartial {
    type V = Seq<bool>;

    /// The bits of the filter, block by block, lane by lane, least significant bit first.
    closed spec fn view(&self) -> Seq<bool> {
        bits::blocks_bits(self.blocks@)
    }
}

impl BloomPartial {
    /// The number of blocks.
    pub closed spec fn spec_len(self) -> nat {
        self.blocks@.len()
    }

    /// The hash function that values are inserted and looked up with.
    pub closed spec fn spec_hash_fn(self) -> HashFn {
        self.hash_fn
    }

    /// A filter that values can be inserted into: it has a block, and its block count fits the
    /// 32 bits that select a block.
    pub open spec fn wf(self) -> bool {
        1 <= self.spec_len() <= u32::MAX
    }

    /// The filter holds 256 bits for each block.
    pub proof fn lemma_view_len(self)
        ensures
            self@.len() == 256 * self.spec_len(),
    {
    }

    /// Returns the number of blocks.
    pub fn len(&self) -> (n: usize)
        ensures
            n == self.spec_len(),
            self@.len() == 256 * n,
    {
        self.blocks.len()
    }

    /// Returns the lower 32 bits of the hash, from which the block mask is made.
    pub fn lower_hash_bits(&self, hash: u64) -> (low: u32)
        ensures
            low == hash as int % 0x1_0000_0000,
    {
        let low = #[verifier::truncate]
        (hash as u32);
        assert(low == hash % 0x1_0000_0000) by (bit_vector)
            requires
                low == hash as u32,
        ;
        low
    }

    /// Returns the index of the block to which a hash belongs.
    pub fn block_index(&self, hash: u64, blocks_count: usize) -> (idx: usize)
        requires
            (hash as int / 0x1_0000_0000) * blocks_count <= u64::MAX,
        ensures
            idx == block_of(hash, blocks_count as nat),
    {
        let high = hash >> 32;
        assert(high == hash / 0x1_0000_0000) by (bit_vector)
            requires
                high == hash >> 32u64,
        ;
        proof {
            if blocks_count >= 1 {
                lemma_block_of(hash, blocks_count as nat);
            }
            assert(high * blocks_count >= 0) by (nonlinear_arith);
        }
        let product = high * blocks_count as u64;
        let scaled = product >> 32;
        assert(scaled == product / 0x1_0000_0000) by (bit_vector)
            requires
                scaled == product >> 32u64,
        ;
        scaled as usize
    }

    /// Takes the lower bits of a hash and creates a mask with one bit set in each 32-bit lane.
    /// These are the bits to set or check when accessing the block.
    pub fn make_mask(&self, hash: u32) -> (mask: [u32; 8])
        ensures
            forall|lane: int|
                0 <= lane < 8 ==> #[trigger] mask@[lane] == 1u32 << (lane_probe(
                    hash as int,
                    lane,
                ) as u32),
    {
        let mut out = [0u32;8];
        for i in 0..8usize
            invariant
                forall|lane: int|
                    0 <= lane < i ==> #[trigger] out@[lane] == 1u32 << (lane_probe(
                        hash as int,
                        lane,
                    ) as u32),
        {
            let product = hash.wrapping_mul(SALT[i]);
            let y = product >> 27;
            assert(y == product / 0x800_0000 && y < 32) by (bit_vector)
                requires
                    y == product >> 27u32,
            ;
            assert(y == lane_probe(hash as int, i as int));
            out[i] = 1u32 << y;
        }
        out
    }

    /// Sets the eight bits that a hash selects.
    pub fn add_hash(&mut self, hash: u64)
        requires
            old(self).wf(),
        ensures
            final(self).wf(),
            final(self)@ == insert_bits(old(self)@, hash),
            final(self).spec_len() == old(self).spec_len(),
            final(self).spec_hash_fn() == old(self).spec_hash_fn(),
    {
        let count = self.blocks.len();
        proof {
            lemma_index_fits(hash, count as nat);
        }
        let block_idx = self.block_index(hash, count);
        proof {
            lemma_block_of(hash, count as nat);
        }
        let low = self.lower_hash_bits(hash);
        let mask = self.make_mask(low);
        let ghost before = self.blocks@;
        let block = or_block(&self.blocks[block_idx], &mask);
        self.blocks[block_idx] = block;
        proof {
            assert(self@ =~= insert_bits(old(self)@, hash)) by {
                assert forall|p: int| 0 <= p < self@.len() implies self@[p] == insert_bits(
                    old(self)@,
                    hash,
                )[p] by {
                    let lane = (p % 256) / 32;
                    assert(old(self)@.len() / 256 == count);
                    lemma_is_probe(hash, count as nat, p);
                    if p / 256 == block_idx {
                        lemma_lane_probe(low as int, lane);
                        bits::lemma_lane_or_bit(
                            before[block_idx as int]@[lane],
                            lane_probe(low as int, lane) as u32,
                            p % 32,
                        );
                    }
                }
            }
        }
    }

    /// Checks whether a hash is (probably) present in the filter.
    pub fn find_hash(&self, hash: u64) -> (found: bool)
        requires
            self.wf(),
        ensures
            found == find_bits(self@, hash),
    {
        let count = self.blocks.len();
        proof {
            lemma_index_fits(hash, count as nat);
        }
        let idx = self.block_index(hash, count);
        proof {
            lemma_block_of(hash, count as nat);
        }
        let low = self.lower_hash_bits(hash);
        let mask = self.make_mask(low);
        let mut missing: u32 = 0;
        let block = &self.blocks[idx];
        for i in 0..8usize
            invariant
                missing == 0 <==> forall|lane: int|
                    0 <= lane < i ==> (!(#[trigger] block@[lane]) & mask@[lane]) == 0,
        {
            let lacking = !block[i] & mask[i];
            assert((missing | lacking) == 0 <==> missing == 0 && lacking == 0) by (bit_vector);
            missing = missing | lacking;
        }
        proof {
            assert(self@.len() / 256 == count);
            assert forall|lane: int| 0 <= lane < 8 implies ((!(#[trigger] block@[lane])
                & mask@[lane]) == 0 <==> self@[probe(hash, count as nat, lane)]) by {
                lemma_probe_range(hash, count as nat, lane);
                lemma_lane_probe(low as int, lane);
                bits::lemma_lane_missing(block@[lane], lane_probe(low as int, lane) as u32);
            }
            if find_bits(self@, hash) {
                assert forall|lane: int| 0 <= lane < 8 implies (!(#[trigger] block@[lane])
                    & mask@[lane]) == 0 by {
                    assert(self@[probe(hash, count as nat, lane)]);
                }
            }
            if missing == 0 {
                assert forall|lane: int| 0 <= lane < 8 implies self@[#[trigger] probe(
                    hash,
                    count as nat,
                    lane,
                )] by {
                    assert((!block@[lane] & mask@[lane]) == 0);
                }
            }
        }
        missing == 0
    }

    /// Produces the 64-bit hash of a value under the filter's hash function.
    pub fn hash(&self, value: &[u8]) -> (hash: u64)
        ensures
            hash == self.spec_hash_fn().spec_hash(value@),
    {
        self.hash_fn.hash_bytes(value)
    }

    /// Inserts a value that was hashed already.
    pub fn insert_hash(&mut self, hash: u64)
        requires
            old(self).wf(),
        ensures
            final(self).wf(),
            final(self)@ == insert_bits(old(self)@, hash),
            final(self).spec_len() == old(self).spec_len(),
            final(self).spec_hash_fn() == old(self).spec_hash_fn(),
    {
        self.add_hash(hash);
    }

    /// Inserts a value, given by its bytes.
    pub fn insert(&mut self, value: &[u8])
        requires
            old(self).wf(),
        ensures
            final(self).wf(),
            final(self)@ == insert_bits(old(self)@, old(self).spec_hash_fn().spec_hash(value@)),
            final(self).spec_len() == old(self).spec_len(),
            final(self).spec_hash_fn() == old(self).spec_hash_fn(),
    {
        let hash = self.hash(value);
        self.insert_hash(hash);
    }

    /// Returns `true` if `value` might be present in the filter.
    ///
    /// A `false` result guarantees that the value is absent. A `true` result may
    /// be a false positive.
    pub fn contains(&self, value: &[u8]) -> (found: bool)
        requires
            self.wf(),
        ensures
            found == find_bits(self@, self.spec_hash_fn().spec_hash(value@)),
    {
        let hash = self.hash(value);
        self.find_hash(hash)
    }
}

impl BloomPartial {
    /// Clears every bit.
    pub fn reset(&mut self)
        ensures
            final(self)@ == bits::no_bits(old(self)@.len()),
            final(self).spec_len() == old(self).spec_len(),
            final(self).spec_hash_fn() == old(self).spec_hash_fn(),
    {
        let count = self.blocks.len();
        let mut i: usize = 0;
        while i < count
            invariant
                i <= count,
                count == self.blocks@.len(),
                count == old(self).blocks@.len(),
                self.hash_fn == old(self).hash_fn,
                forall|b: int, lane: int|
                    0 <= b < i && 0 <= lane < 8 ==> #[trigger] self.blocks@[b]@[lane] == 0,
            decreases count - i,
        {
            self.blocks[i] = [0u32;8];
            i = i + 1;
        }
        proof {
            assert forall|p: int| 0 <= p < self@.len() implies !self@[p] by {
                bits::lemma_lane_extremes(p % 32);
                assert(self.blocks@[p / 256]@[(p % 256) / 32] == 0);
            }
            assert(self@ =~= bits::no_bits(old(self)@.len()));
        }
    }

    /// Whether every bit is set.
    pub fn is_saturated(&self) -> (full: bool)
        ensures
            full == (self@ == bits::all_bits(self@.len())),
    {
        let count = self.blocks.len();
        let mut i: usize = 0;
        while i < count
            invariant
                i <= count,
                count == self.blocks@.len(),
                forall|b: int, lane: int|
                    0 <= b < i && 0 <= lane < 8 ==> #[trigger] self.blocks@[b]@[lane] == u32::MAX,
            decreases count - i,
        {
            let mut j: usize = 0;
            while j < 8
                invariant
                    j <= 8,
                    i < count,
                    count == self.blocks@.len(),
                    forall|lane: int|
                        0 <= lane < j ==> #[trigger] self.blocks@[i as int]@[lane] == u32::MAX,
                decreases 8 - j,
            {
                let lane = self.blocks[i][j];
                if lane != u32::MAX {
                    proof {
                        if self@ == bits::all_bits(self@.len()) {
                            bits::lemma_full_lane(self.blocks@, i as int, j as int);
                        }
                    }
                    return false;
                }
                j = j + 1;
            }
            i = i + 1;
        }
        proof {
            assert forall|p: int| 0 <= p < self@.len() implies self@[p] by {
                bits::lemma_lane_extremes(p % 32);
                assert(self.blocks@[p / 256]@[(p % 256) / 32] == u32::MAX);
            }
            assert(self@ =~= bits::all_bits(self@.len()));
        }
        true
    }

    /// Merges a compatible serialized Bloom filter into this one.
    ///
    /// The merge is a bitwise OR, which represents the union of two split block Bloom filters
    /// when they use the same block count.
    ///
    /// Only the byte length is validated. Merging bytes from a filter created with a different
    /// hash function produces an invalid filter and introduces false negatives.
    pub fn merge(&mut self, other: &[u8]) -> (r: Result<(), BloomError>)
        ensures
            r is Ok <==> other@.len() == 32 * old(self).spec_len(),
            r matches Err(e) ==> e == (BloomError::BytesMismatch {
                blocks: old(self).spec_len() as usize,
                len: other@.len() as usize,
            }) && *final(self) == *old(self),
            r is Ok ==> final(self)@ == bits::union_bits(old(self)@, bits::bytes_bits(other@)),
            final(self).spec_len() == old(self).spec_len(),
            final(self).spec_hash_fn() == old(self).spec_hash_fn(),
    {
        let count = self.blocks.len();
        if other.len() % BLOCK_SIZE != 0 || other.len() / BLOCK_SIZE != count {
            return Err(BloomError::BytesMismatch { blocks: count, len: other.len() });
        }
        let mut i: usize = 0;
        while i < count
            invariant
                i <= count,
                count == self.blocks@.len(),
                count == old(self).blocks@.len(),
                other@.len() == 32 * count,
                self.hash_fn == old(self).hash_fn,
                forall|p: int|
                    #![trigger self@[p]]
                    0 <= p < 256 * i ==> self@[p] == (old(self)@[p] || bits::bytes_bits(other@)[p]),
                forall|b: int| i <= b < count ==> self.blocks@[b] == old(self).blocks@[b],
            decreases count - i,
        {
            let ghost before = self.blocks@;
            let ghost prior = self@;
            let src = decode_block(other, i);
            let block = or_block(&self.blocks[i], &src);
            self.blocks[i] = block;
            proof {
                assert forall|p: int| #![trigger self@[p]] 0 <= p < 256 * (i + 1) implies self@[p]
                    == (old(self)@[p] || bits::bytes_bits(other@)[p]) by {
                    if p >= 256 * i {
                        let lane = (p % 256) / 32;
                        assert(p / 256 == i);
                        bits::lemma_lane_or(before[i as int]@[lane], src@[lane], p % 32);
                        assert(before[i as int] == old(self).blocks@[i as int]);
                        assert(p - 256 * i == p % 256);
                        assert((p - 256 * i) / 32 == lane);
                    } else {
                        assert(before[p / 256] == self.blocks@[p / 256]);
                        assert(prior[p] == self@[p]);
                    }
                }
            }
            i = i + 1;
        }
        proof {
            assert(self@ =~= bits::union_bits(old(self)@, bits::bytes_bits(other@)));
        }
        Ok(())
    }
}

/// The lane-wise disjunction of two blocks.
fn or_block(a: &[u32; 8], b: &[u32; 8]) -> (block: [u32; 8])
    ensures
        forall|lane: int| 0 <= lane < 8 ==> #[trigger] block@[lane] == a@[lane] | b@[lane],
{
    let mut block = [0u32;8];
    for i in 0..8usize
        invariant
            forall|lane: int| 0 <= lane < i ==> #[trigger] block@[lane] == a@[lane] | b@[lane],
    {
        block[i] = a[i] | b[i];
    }
    block
}

/// Reads the lane at byte `at` of a serialized filter.
fn decode_lane(bytes: &[u8], at: usize) -> (lane: u32)
    requires
        at + 4 <= bytes@.len(),
    ensures
        forall|k: int|
            #![trigger bits::lane_bit(lane, k)]
            0 <= k < 32 ==> bits::lane_bit(lane, k) == bits::bytes_bits(bytes@)[8 * at + k],
{
    let total = bytes.len();
    let b0 = bytes[at];
    let b1 = bytes[at + 1];
    let b2 = bytes[at + 2];
    let b3 = bytes[at + 3];
    let lane = (b0 as u32) | ((b1 as u32) << 8) | ((b2 as u32) << 16) | ((b3 as u32) << 24);
    proof {
        assert forall|k: int|
            #![trigger bits::lane_bit(lane, k)]
            0 <= k < 32 implies bits::lane_bit(lane, k) == bits::bytes_bits(bytes@)[8 * at
            + k] by {
            bits::lemma_lane_of_bytes_bit(b0, b1, b2, b3, k);
            assert((8 * at + k) / 8 == at + k / 8 && (8 * at + k) % 8 == k % 8);
        }
    }
    lane
}

/// Reads block `i` of a serialized filter.
fn decode_block(bytes: &[u8], i: usize) -> (block: [u32; 8])
    requires
        32 * (i + 1) <= bytes@.len(),
    ensures
        forall|p: int|
            #![trigger bits::bytes_bits(bytes@)[p]]
            256 * i <= p < 256 * (i + 1) ==> bits::lane_bit(
                block@[(p - 256 * i) / 32],
                p % 32,
            ) == bits::bytes_bits(bytes@)[p],
{
    let total = bytes.len();
    let mut block = [0u32;8];
    for j in 0..8usize
        invariant
            total == bytes@.len(),
            32 * (i + 1) <= total,
            forall|lane: int, k: int|
                #![trigger bits::lane_bit(block@[lane], k)]
                0 <= lane < j && 0 <= k < 32 ==> bits::lane_bit(block@[lane], k)
                    == bits::bytes_bits(bytes@)[256 * i + 32 * lane + k],
    {
        let at: usize = BLOCK_SIZE * i + BYTES_PER_LANE * j;
        block[j] = decode_lane(bytes, at);
    }
    proof {
        assert forall|p: int|
            #![trigger bits::bytes_bits(bytes@)[p]]
            256 * i <= p < 256 * (i + 1) implies bits::lane_bit(
            block@[(p - 256 * i) / 32],
            p % 32,
        ) == bits::bytes_bits(bytes@)[p] by {
            let lane = (p - 256 * i) / 32;
            assert(256 * i + 32 * lane + p % 32 == p);
        }
    }
    block
}

/// Appends the little-endian bytes of a lane.
fn push_lane(out: &mut Vec<u8>, lane: u32)
    ensures
        final(out)@ == old(out)@ + seq![
            bits::lane_byte(lane, 0),
            bits::lane_byte(lane, 1),
            bits::lane_byte(lane, 2),
            bits::lane_byte(lane, 3),
        ],
{
    for m in 0..4u32
        invariant
            out@.len() == old(out)@.len() + m,
            forall|k: int| 0 <= k < old(out)@.len() ==> #[trigger] out@[k] == old(out)@[k],
            forall|k: int|
                0 <= k < m ==> #[trigger] out@[old(out)@.len() + k] == bits::lane_byte(lane, k),
    {
        let shift = 8 * m;
        let byte = (lane >> shift) & 0xff;
        assert(byte <= 0xff) by (bit_vector)
            requires
                byte == (lane >> shift) & 0xff,
        ;
        let ghost before = out@;
        out.push(byte as u8);
        assert(forall|k: int|
            0 <= k < m ==> #[trigger] out@[old(out)@.len() + k] == before[old(out)@.len() + k]);
    }
    proof {
        let appended = old(out)@ + seq![
            bits::lane_byte(lane, 0),
            bits::lane_byte(lane, 1),
            bits::lane_byte(lane, 2),
            bits::lane_byte(lane, 3),
        ];
        assert forall|k: int| 0 <= k < appended.len() implies out@[k] == appended[k] by {
            if k >= old(out)@.len() {
                assert(out@[old(out)@.len() + (k - old(out)@.len())] == bits::lane_byte(
                    lane,
                    k - old(out)@.len(),
                ));
            }
        }
        assert(out@ =~= appended);
    }
}

impl BloomPartial {
    /// An empty filter of the size and hash function that the options ask for.
    pub fn empty(options: &BloomOptions) -> (partial: BloomPartial)
        ensures
            partial@ == bits::no_bits((256 * options.spec_blocks()) as nat),
            partial.spec_len() == options.spec_blocks(),
            partial.spec_hash_fn() == options.spec_hash_fn(),
            partial.wf(),
    {
        let count = options.blocks().get();
        let mut blocks: Vec<[u32; 8]> = Vec::new();
        let mut i: usize = 0;
        while i < count
            invariant
                i <= count,
                blocks@.len() == i,
                forall|b: int, lane: int|
                    0 <= b < i && 0 <= lane < 8 ==> #[trigger] blocks@[b]@[lane] == 0,
            decreases count - i,
        {
            blocks.push([0u32;8]);
            i = i + 1;
        }
        let partial = BloomPartial { blocks, hash_fn: options.hash_fn() };
        proof {
            assert forall|p: int| 0 <= p < partial@.len() implies !partial@[p] by {
                bits::lemma_lane_extremes(p % 32);
                assert(partial.blocks@[p / 256]@[(p % 256) / 32] == 0);
            }
            assert(partial@ =~= bits::no_bits((256 * options.spec_blocks()) as nat));
        }
        partial
    }

    /// The serialized form: the lanes of each block in turn, in little-endian order.
    pub fn to_bytes(&self) -> (bytes: Vec<u8>)
        ensures
            bits::bytes_bits(bytes@) == self@,
            bytes@.len() == 32 * self.spec_len(),
    {
        let mut bytes: Vec<u8> = Vec::new();
        let count = self.blocks.len();
        let mut i: usize = 0;
        while i < count
            invariant
                i <= count,
                count == self.blocks@.len(),
                bytes@.len() == 32 * i,
                forall|p: int|
                    #![trigger self@[p]]
                    0 <= p < 256 * i ==> bits::bytes_bits(bytes@)[p] == self@[p],
            decreases count - i,
        {
            let mut j: usize = 0;
            while j < 8
                invariant
                    j <= 8,
                    i < count,
                    count == self.blocks@.len(),
                    bytes@.len() == 32 * i + 4 * j,
                    forall|p: int|
                        #![trigger self@[p]]
                        0 <= p < 256 * i + 32 * j ==> bits::bytes_bits(bytes@)[p] == self@[p],
                decreases 8 - j,
            {
                let ghost before = bytes@;
                let lane = self.blocks[i][j];
                push_lane(&mut bytes, lane);
                proof {
                    assert forall|p: int|
                        #![trigger self@[p]]
                        0 <= p < 256 * i + 32 * (j + 1) implies bits::bytes_bits(bytes@)[p]
                        == self@[p] by {
                        if p >= 256 * i + 32 * j {
                            let k = p - 256 * i - 32 * j;
                            assert(p / 256 == i && (p % 256) / 32 == j && p % 32 == k);
                            assert(p / 8 == before.len() + k / 8 && p % 8 == k % 8);
                            bits::lemma_lane_byte_bit(lane, k / 8, k % 8);
                        } else {
                            assert(bits::bytes_bits(before)[p] == self@[p]);
                            assert(p / 8 < before.len());
                        }
                    }
                }
                j = j + 1;
            }
            i = i + 1;
        }
        proof {
            assert forall|p: int| 0 <= p < self@.len() implies bits::bytes_bits(bytes@)[p]
                == self@[p] by {}
            assert(bits::bytes_bits(bytes@) =~= self@);
        }
        bytes
    }

    /// Reconstructs a filter from its serialized form and the hash function it was built with.
    pub fn from_bytes(bytes: &[u8], hash_fn: HashFn) -> (r: Result<BloomPartial, BloomError>)
        ensures
            r is Ok <==> decode_error(bytes@) is None,
            r matches Ok(partial) ==> partial@ == bits::bytes_bits(bytes@)
                && partial.spec_hash_fn() == hash_fn && partial.wf() && partial.spec_len()
                == bytes@.len() / 32,
            r matches Err(e) ==> decode_error(bytes@) == Some(e),
    {
        if bytes.len() == 0 || bytes.len() % BLOCK_SIZE != 0 {
            return Err(BloomError::InvalidByteLength { len: bytes.len() });
        }
        let count = bytes.len() / BLOCK_SIZE;
        if count > u32::MAX as usize {
            return Err(BloomError::BlocksOutOfRange { blocks: count });
        }
        let mut blocks: Vec<[u32; 8]> = Vec::new();
        let mut i: usize = 0;
        while i < count
            invariant
                i <= count,
                bytes@.len() == 32 * count,
                blocks@.len() == i,
                forall|p: int|
                    #![trigger bits::bytes_bits(bytes@)[p]]
                    0 <= p < 256 * i ==> bits::blocks_bits(blocks@)[p] == bits::bytes_bits(
                        bytes@,
                    )[p],
            decreases count - i,
        {
            let block = decode_block(bytes, i);
            let ghost before = blocks@;
            blocks.push(block);
            proof {
                assert forall|p: int|
                    #![trigger bits::bytes_bits(bytes@)[p]]
                    0 <= p < 256 * (i + 1) implies bits::blocks_bits(blocks@)[p]
                    == bits::bytes_bits(bytes@)[p] by {
                    if p >= 256 * i {
                        assert(p / 256 == i && p - 256 * i == p % 256);
                    } else {
                        assert(blocks@[p / 256] == before[p / 256]);
                        assert(bits::blocks_bits(before)[p] == bits::bytes_bits(bytes@)[p]);
                    }
                }
            }
            i = i + 1;
        }
        let partial = BloomPartial { blocks, hash_fn };
        proof {
            assert(partial@ =~= bits::bytes_bits(bytes@));
        }
        Ok(partial)
    }

    /// Adds every bit of a filter of the same size.
    pub fn combine_with_other(&mut self, other: &BloomPartial)
        requires
            old(self).spec_len() == other.spec_len(),
        ensures
            final(self)@ == bits::union_bits(old(self)@, other@),
            final(self).spec_len() == old(self).spec_len(),
            final(self).spec_hash_fn() == old(self).spec_hash_fn(),
    {
        let count = self.blocks.len();
        let mut i: usize = 0;
        while i < count
            invariant
                i <= count,
                count == self.blocks@.len(),
                count == old(self).blocks@.len(),
                count == other.blocks@.len(),
                self.hash_fn == old(self).hash_fn,
                forall|b: int, lane: int|
                    0 <= b < i && 0 <= lane < 8 ==> #[trigger] self.blocks@[b]@[lane] == old(
                        self,
                    ).blocks@[b]@[lane] | other.blocks@[b]@[lane],
                forall|b: int| i <= b < count ==> self.blocks@[b] == old(self).blocks@[b],
            decreases count - i,
        {
            let block = or_block(&self.blocks[i], &other.blocks[i]);
            self.blocks[i] = block;
            i = i + 1;
        }
        proof {
            assert(self@.len() == old(self)@.len());
            assert forall|p: int| #![trigger self@[p]] 0 <= p < self@.len() implies self@[p] == (
            old(self)@[p] || other@[p]) by {
                let b = p / 256;
                let lane = (p % 256) / 32;
                assert(self.blocks@[b]@[lane] == old(self).blocks@[b]@[lane]
                    | other.blocks@[b]@[lane]);
                bits::lemma_lane_or(
                    old(self).blocks@[b]@[lane],
                    other.blocks@[b]@[lane],
                    p % 32,
                );
            }
            assert(self@ =~= bits::union_bits(old(self)@, other@));
        }
    }
}

impl From<&BloomOptions> for BloomPartial {
    fn from(options: &BloomOptions) -> (partial: BloomPartial)
        ensures
            partial@ == bits::no_bits((256 * options.spec_blocks()) as nat),
            partial.spec_len() == options.spec_blocks(),
            partial.spec_hash_fn() == options.spec_hash_fn(),
            partial.wf(),
    {
        BloomPartial::empty(options)
    }
}

impl vstd::std_specs::convert::FromSpecImpl<&BloomOptions> for BloomPartial {
    open spec fn obeys_from_spec() -> bool {
        false
    }

    open spec fn from_spec(options: &BloomOptions) -> BloomPartial {
        arbitrary()
    }
}

impl From<Vec<[u32; 8]>> for BloomPartial {
    /// Wraps blocks that were filled with the default hash function.
    fn from(blocks: Vec<[u32; 8]>) -> (partial: BloomPartial)
        ensures
            partial@ == bits::blocks_bits(blocks@),
            partial.spec_len() == blocks@.len(),
            partial.spec_hash_fn() == HashFn::XxHash3_64,
    {
        BloomPartial { blocks, hash_fn: HashFn::XxHash3_64 }
    }
}

impl vstd::std_specs::convert::FromSpecImpl<Vec<[u32; 8]>> for BloomPartial {
    open spec fn obeys_from_spec() -> bool {
        false
    }

    open spec fn from_spec(blocks: Vec<[u32; 8]>) -> BloomPartial {
        arbitrary()
    }
}

impl From<&BloomPartial> for Vec<u8> {
    fn from(partial: &BloomPartial) -> (bytes: Vec<u8>)
        ensures
            bits::bytes_bits(bytes@) == partial@,
            bytes@.len() == 32 * partial.spec_len(),
    {
        partial.to_bytes()
    }
}

impl vstd::std_specs::convert::FromSpecImpl<&BloomPartial> for Vec<u8> {
    open spec fn obeys_from_spec() -> bool {
        false
    }

    open spec fn from_spec(partial: &BloomPartial) -> Vec<u8> {
        arbitrary()
    }
}

impl TryFrom<&[u8]> for BloomPartial {
    type Error = BloomError;

    /// Reconstructs a filter that was built with the default hash function.
    fn try_from(bytes: &[u8]) -> (r: Result<BloomPartial, BloomError>)
        ensures
            r is Ok <==> decode_error(bytes@) is None,
            r matches Ok(partial) ==> partial@ == bits::bytes_bits(bytes@)
                && partial.spec_hash_fn() == HashFn::XxHash3_64 && partial.wf()
                && partial.spec_len() == bytes@.len() / 32,
            r matches Err(e) ==> decode_error(bytes@) == Some(e),
    {
        BloomPartial::from_bytes(bytes, HashFn::XxHash3_64)
    }
}

impl vstd::std_specs::convert::TryFromSpecImpl<&[u8]> for BloomPartial {
    open spec fn obeys_try_from_spec() -> bool {
        false
    }

    open spec fn try_from_spec(bytes: &[u8]) -> Result<BloomPartial, BloomError> {
        arbitrary()
    }
}

impl PartialEq for BloomPartial {
    /// Two filters are equal where they hold the same bits under the same hash function. The same
    /// bits under another hash function represent another set of values.
    fn eq(&self, other: &BloomPartial) -> (equal: bool) {
        if self.hash_fn != other.hash_fn {
            return false;
        }
        let count = self.blocks.len();
        if count != other.blocks.len() {
            assert(self@.len() != other@.len());
            return false;
        }
        let mut i: usize = 0;
        while i < count
            invariant
                i <= count,
                count == self.blocks@.len(),
                count == other.blocks@.len(),
                forall|b: int, lane: int|
                    0 <= b < i && 0 <= lane < 8 ==> #[trigger] self.blocks@[b]@[lane]
                        == other.blocks@[b]@[lane],
            decreases count - i,
        {
            let mut j: usize = 0;
            while j < 8
                invariant
                    j <= 8,
                    i < count,
                    count == self.blocks@.len(),
                    count == other.blocks@.len(),
                    forall|lane: int|
                        0 <= lane < j ==> #[trigger] self.blocks@[i as int]@[lane]
                            == other.blocks@[i as int]@[lane],
                decreases 8 - j,
            {
                let a = self.blocks[i][j];
                let b = other.blocks[i][j];
                if a != b {
                    proof {
                        if self@ == other@ {
                            bits::lemma_blocks_bits_lane(
                                self.blocks@,
                                other.blocks@,
                                i as int,
                                j as int,
                            );
                        }
                    }
                    return false;
                }
                j = j + 1;
            }
            i = i + 1;
        }
        proof {
            assert forall|p: int| 0 <= p < self@.len() implies self@[p] == other@[p] by {
                assert(self.blocks@[p / 256]@[(p % 256) / 32] == other.blocks@[p / 256]@[(p % 256)
                    / 32]);
            }
            assert(self@ =~= other@);
        }
        true
    }
}

impl vstd::std_specs::cmp::PartialEqSpecImpl for BloomPartial {
    open spec fn obeys_eq_spec() -> bool {
        true
    }

    open spec fn eq_spec(&self, other: &BloomPartial) -> bool {
        self@ == other@ && self.spec_hash_fn() == other.spec_hash_fn()
    }
}

} // verus!
