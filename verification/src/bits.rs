//! Bit sequences, and the bytes and 32-bit lanes that store them.
//!
//! A filter is modelled as a flat `Seq<bool>`. Bit `p` of the sequence is bit `p % 8` of byte
//! `p / 8` of the serialized form, least significant bit first, and bit `p % 32` of 32-bit lane
//! `p / 32` in memory. The two agree because lanes are serialized in little-endian order.

use vstd::arithmetic::power2;
use vstd::prelude::*;

verus! {

/// Bit `i` of a byte, counted from the least significant one.
pub open spec fn byte_bit(byte: u8, i: int) -> bool {
    (byte >> (i as u8)) & 1 == 1
}

/// Bit `i` of a lane, counted from the least significant one.
pub open spec fn lane_bit(lane: u32, i: int) -> bool {
    (lane >> (i as u32)) & 1 == 1
}

/// The bits held by a byte sequence.
pub open spec fn bytes_bits(bytes: Seq<u8>) -> Seq<bool> {
    Seq::new((8 * bytes.len()) as nat, |p: int| byte_bit(bytes[p / 8], p % 8))
}

/// The bits held by a sequence of eight-lane blocks.
pub open spec fn blocks_bits(blocks: Seq<[u32; 8]>) -> Seq<bool> {
    Seq::new(
        (256 * blocks.len()) as nat,
        |p: int| lane_bit(blocks[p / 256]@[(p % 256) / 32], p % 32),
    )
}

/// `len` bits, none of them set.
pub open spec fn no_bits(len: nat) -> Seq<bool> {
    Seq::new(len, |p: int| false)
}

/// `len` bits, all of them set.
pub open spec fn all_bits(len: nat) -> Seq<bool> {
    Seq::new(len, |p: int| true)
}

/// The bits that are set in `a` or in `b`.
pub open spec fn union_bits(a: Seq<bool>, b: Seq<bool>) -> Seq<bool> {
    Seq::new(a.len(), |p: int| a[p] || b[p])
}

/// Whether every bit of `a` is set in `b`.
pub open spec fn subset_bits(a: Seq<bool>, b: Seq<bool>) -> bool {
    &&& a.len() == b.len()
    &&& forall|p: int| #![trigger a[p]] #![trigger b[p]] 0 <= p < a.len() && a[p] ==> b[p]
}

/// The order in which bits are united does not matter.
pub proof fn law_union_commutes(a: Seq<bool>, b: Seq<bool>)
    requires
        a.len() == b.len(),
    ensures
        union_bits(a, b) == union_bits(b, a),
{
    assert(union_bits(a, b) =~= union_bits(b, a));
}

/// The grouping in which bits are united does not matter.
pub proof fn law_union_associates(a: Seq<bool>, b: Seq<bool>, c: Seq<bool>)
    requires
        a.len() == b.len(),
        b.len() == c.len(),
    ensures
        union_bits(union_bits(a, b), c) == union_bits(a, union_bits(b, c)),
{
    assert(union_bits(union_bits(a, b), c) =~= union_bits(a, union_bits(b, c)));
}

/// Uniting bits with themselves, with bits that they already have, or with none changes nothing.
/// Uniting them with all gives all.
pub proof fn law_union_absorbs(a: Seq<bool>, b: Seq<bool>)
    requires
        a.len() == b.len(),
    ensures
        union_bits(a, a) == a,
        union_bits(union_bits(a, b), b) == union_bits(a, b),
        union_bits(a, no_bits(a.len())) == a,
        union_bits(a, all_bits(a.len())) == all_bits(a.len()),
{
    assert(union_bits(a, a) =~= a);
    assert(union_bits(union_bits(a, b), b) =~= union_bits(a, b));
    assert(union_bits(a, no_bits(a.len())) =~= a);
    assert(union_bits(a, all_bits(a.len())) =~= all_bits(a.len()));
}

/// The lane whose little-endian bytes are `b0, b1, b2, b3`.
pub open spec fn lane_of_bytes(b0: u8, b1: u8, b2: u8, b3: u8) -> u32 {
    (b0 as u32) | ((b1 as u32) << 8) | ((b2 as u32) << 16) | ((b3 as u32) << 24)
}

/// Byte `m` of the little-endian form of `lane`.
pub open spec fn lane_byte(lane: u32, m: int) -> u8 {
    ((lane >> ((8 * m) as u32)) & 0xff) as u8
}

pub proof fn lemma_lane_of_bytes_bit(b0: u8, b1: u8, b2: u8, b3: u8, i: int)
    requires
        0 <= i < 32,
    ensures
        lane_bit(lane_of_bytes(b0, b1, b2, b3), i) == byte_bit(
            if i < 8 {
                b0
            } else if i < 16 {
                b1
            } else if i < 24 {
                b2
            } else {
                b3
            },
            i % 8,
        ),
{
    let lane = lane_of_bytes(b0, b1, b2, b3);
    let k = i as u32;
    let j = (i % 8) as u8;
    assert(lane == (b0 as u32) | ((b1 as u32) << 8) | ((b2 as u32) << 16) | ((b3 as u32) << 24));
    assert(k == j + 8 * (i / 8));
    if i < 8 {
        assert((lane >> k) & 1 == 1 <==> (b0 >> j) & 1 == 1) by (bit_vector)
            requires
                lane == (b0 as u32) | ((b1 as u32) << 8) | ((b2 as u32) << 16) | ((b3 as u32)
                    << 24),
                k == j,
                j < 8,
        ;
    } else if i < 16 {
        assert((lane >> k) & 1 == 1 <==> (b1 >> j) & 1 == 1) by (bit_vector)
            requires
                lane == (b0 as u32) | ((b1 as u32) << 8) | ((b2 as u32) << 16) | ((b3 as u32)
                    << 24),
                k == j + 8,
                j < 8,
        ;
    } else if i < 24 {
        assert((lane >> k) & 1 == 1 <==> (b2 >> j) & 1 == 1) by (bit_vector)
            requires
                lane == (b0 as u32) | ((b1 as u32) << 8) | ((b2 as u32) << 16) | ((b3 as u32)
                    << 24),
                k == j + 16,
                j < 8,
        ;
    } else {
        assert((lane >> k) & 1 == 1 <==> (b3 >> j) & 1 == 1) by (bit_vector)
            requires
                lane == (b0 as u32) | ((b1 as u32) << 8) | ((b2 as u32) << 16) | ((b3 as u32)
                    << 24),
                k == j + 24,
                j < 8,
        ;
    }
}

pub proof fn lemma_lane_byte_bit(lane: u32, m: int, j: int)
    requires
        0 <= m < 4,
        0 <= j < 8,
    ensures
        byte_bit(lane_byte(lane, m), j) == lane_bit(lane, 8 * m + j),
{
    let s = (8 * m) as u32;
    let k = (8 * m + j) as u32;
    let b = lane_byte(lane, m);
    let t = j as u8;
    assert(s == 0 || s == 8 || s == 16 || s == 24);
    assert((b >> t) & 1 == 1 <==> (lane >> k) & 1 == 1) by (bit_vector)
        requires
            b == ((lane >> s) & 0xff) as u8,
            s <= 24,
            t < 8,
            k == s + t,
    ;
}

/// The bit sequence determines the byte.
pub proof fn lemma_byte_ext(a: u8, b: u8)
    requires
        forall|i: int| 0 <= i < 8 ==> byte_bit(a, i) == byte_bit(b, i),
    ensures
        a == b,
{
    assert(byte_bit(a, 0) == byte_bit(b, 0));
    assert(byte_bit(a, 1) == byte_bit(b, 1));
    assert(byte_bit(a, 2) == byte_bit(b, 2));
    assert(byte_bit(a, 3) == byte_bit(b, 3));
    assert(byte_bit(a, 4) == byte_bit(b, 4));
    assert(byte_bit(a, 5) == byte_bit(b, 5));
    assert(byte_bit(a, 6) == byte_bit(b, 6));
    assert(byte_bit(a, 7) == byte_bit(b, 7));
    assert(a == b) by (bit_vector)
        requires
            ((a >> 0u8) & 1 == 1) == ((b >> 0u8) & 1 == 1),
            ((a >> 1u8) & 1 == 1) == ((b >> 1u8) & 1 == 1),
            ((a >> 2u8) & 1 == 1) == ((b >> 2u8) & 1 == 1),
            ((a >> 3u8) & 1 == 1) == ((b >> 3u8) & 1 == 1),
            ((a >> 4u8) & 1 == 1) == ((b >> 4u8) & 1 == 1),
            ((a >> 5u8) & 1 == 1) == ((b >> 5u8) & 1 == 1),
            ((a >> 6u8) & 1 == 1) == ((b >> 6u8) & 1 == 1),
            ((a >> 7u8) & 1 == 1) == ((b >> 7u8) & 1 == 1),
    ;
}

/// Two byte sequences that hold the same bits are the same sequence.
pub proof fn lemma_bytes_bits_injective(a: Seq<u8>, b: Seq<u8>)
    requires
        bytes_bits(a) == bytes_bits(b),
    ensures
        a == b,
{
    assert(bytes_bits(a).len() == 8 * a.len());
    assert(bytes_bits(b).len() == 8 * b.len());
    assert forall|k: int| 0 <= k < a.len() implies a[k] == b[k] by {
        assert forall|i: int| 0 <= i < 8 implies byte_bit(a[k], i) == byte_bit(b[k], i) by {
            let p = 8 * k + i;
            assert(p / 8 == k && p % 8 == i && 0 <= p < 8 * a.len());
            assert(bytes_bits(a)[p] == byte_bit(a[k], i));
            assert(bytes_bits(b)[p] == byte_bit(b[k], i));
        }
        lemma_byte_ext(a[k], b[k]);
    }
    assert(a =~= b);
}

/// Setting bit `y` of a lane changes that bit only.
pub proof fn lemma_lane_or_bit(lane: u32, y: u32, i: int)
    requires
        y < 32,
        0 <= i < 32,
    ensures
        lane_bit(lane | (1u32 << y), i) == (lane_bit(lane, i) || i == y),
{
    let k = i as u32;
    assert((((lane | (1u32 << y)) >> k) & 1 == 1) <==> ((lane >> k) & 1 == 1 || k == y))
        by (bit_vector)
        requires
            y < 32,
            k < 32,
    ;
}

/// The bits of the disjunction of two lanes.
pub proof fn lemma_lane_or(a: u32, b: u32, i: int)
    requires
        0 <= i < 32,
    ensures
        lane_bit(a | b, i) == (lane_bit(a, i) || lane_bit(b, i)),
{
    let k = i as u32;
    assert((((a | b) >> k) & 1 == 1) <==> ((a >> k) & 1 == 1 || (b >> k) & 1 == 1)) by (bit_vector)
        requires
            k < 32,
    ;
}

/// Whether bit `y` is missing from a lane.
pub proof fn lemma_lane_missing(lane: u32, y: u32)
    requires
        y < 32,
    ensures
        (!lane & (1u32 << y)) == 0 <==> lane_bit(lane, y as int),
{
    assert((!lane & (1u32 << y)) == 0 <==> (lane >> y) & 1 == 1) by (bit_vector)
        requires
            y < 32,
    ;
}

/// A lane that differs from another one differs from it in some bit.
pub proof fn lemma_lane_ext(a: u32, b: u32)
    requires
        forall|i: int| 0 <= i < 32 ==> lane_bit(a, i) == lane_bit(b, i),
    ensures
        a == b,
{
    assert forall|m: int| 0 <= m < 4 implies lane_byte(a, m) == lane_byte(b, m) by {
        assert forall|j: int| 0 <= j < 8 implies byte_bit(lane_byte(a, m), j) == byte_bit(
            lane_byte(b, m),
            j,
        ) by {
            lemma_lane_byte_bit(a, m, j);
            lemma_lane_byte_bit(b, m, j);
            assert(lane_bit(a, 8 * m + j) == lane_bit(b, 8 * m + j));
        }
        lemma_byte_ext(lane_byte(a, m), lane_byte(b, m));
    }
    assert(lane_byte(a, 0) == lane_byte(b, 0));
    assert(lane_byte(a, 1) == lane_byte(b, 1));
    assert(lane_byte(a, 2) == lane_byte(b, 2));
    assert(lane_byte(a, 3) == lane_byte(b, 3));
    assert(a == b) by (bit_vector)
        requires
            ((a >> 0u32) & 0xff) as u8 == ((b >> 0u32) & 0xff) as u8,
            ((a >> 8u32) & 0xff) as u8 == ((b >> 8u32) & 0xff) as u8,
            ((a >> 16u32) & 0xff) as u8 == ((b >> 16u32) & 0xff) as u8,
            ((a >> 24u32) & 0xff) as u8 == ((b >> 24u32) & 0xff) as u8,
    ;
}

/// No bit of a zero lane is set and every bit of a full lane is.
pub proof fn lemma_lane_extremes(i: int)
    requires
        0 <= i < 32,
    ensures
        !lane_bit(0, i),
        lane_bit(u32::MAX, i),
{
    let k = i as u32;
    assert((0u32 >> k) & 1 == 0) by (bit_vector);
    assert((0xffff_ffffu32 >> k) & 1 == 1) by (bit_vector)
        requires
            k < 32,
    ;
}

/// Block sequences that hold the same bits agree in every lane.
pub proof fn lemma_blocks_bits_lane(a: Seq<[u32; 8]>, b: Seq<[u32; 8]>, block: int, lane: int)
    requires
        blocks_bits(a) == blocks_bits(b),
        0 <= block < a.len(),
        0 <= lane < 8,
    ensures
        a.len() == b.len(),
        a[block]@[lane] == b[block]@[lane],
{
    assert(blocks_bits(a).len() == 256 * a.len());
    assert(blocks_bits(b).len() == 256 * b.len());
    assert forall|k: int| 0 <= k < 32 implies lane_bit(a[block]@[lane], k) == lane_bit(
        b[block]@[lane],
        k,
    ) by {
        let p = 256 * block + 32 * lane + k;
        assert(p / 256 == block && (p % 256) / 32 == lane && p % 32 == k);
        assert(0 <= p < 256 * a.len());
        assert(blocks_bits(a)[p] == lane_bit(a[block]@[lane], k));
        assert(blocks_bits(b)[p] == lane_bit(b[block]@[lane], k));
    }
    lemma_lane_ext(a[block]@[lane], b[block]@[lane]);
}

/// Where every bit is set, every lane is full.
pub proof fn lemma_full_lane(blocks: Seq<[u32; 8]>, block: int, lane: int)
    requires
        blocks_bits(blocks) == all_bits((256 * blocks.len()) as nat),
        0 <= block < blocks.len(),
        0 <= lane < 8,
    ensures
        blocks[block]@[lane] == u32::MAX,
{
    assert forall|k: int| 0 <= k < 32 implies lane_bit(blocks[block]@[lane], k) == lane_bit(
        u32::MAX,
        k,
    ) by {
        let p = 256 * block + 32 * lane + k;
        assert(p / 256 == block && (p % 256) / 32 == lane && p % 32 == k);
        assert(0 <= p < 256 * blocks.len());
        assert(blocks_bits(blocks)[p] == lane_bit(blocks[block]@[lane], k));
        assert(all_bits((256 * blocks.len()) as nat)[p]);
        lemma_lane_extremes(k);
    }
    lemma_lane_ext(blocks[block]@[lane], u32::MAX);
}

/// The bits of bytes are their binary digits, eight for each byte, the lowest first.
pub proof fn law_bits_of_bytes(bytes: Seq<u8>, p: int)
    requires
        0 <= p < 8 * bytes.len(),
    ensures
        bytes_bits(bytes).len() == 8 * bytes.len(),
        bytes_bits(bytes)[p] <==> (bytes[p / 8] as nat / power2::pow2((p % 8) as nat)) % 2 == 1,
{
    let byte = bytes[p / 8];
    let i = (p % 8) as u8;
    vstd::bits::lemma_u8_shr_is_div(byte, i);
    let shifted = byte >> i;
    assert(shifted & 1 == shifted % 2) by (bit_vector);
}

/// The bits of blocks are the binary digits of their lanes, 32 for each lane, the lowest first,
/// lane by lane and block by block.
pub proof fn law_bits_of_blocks(blocks: Seq<[u32; 8]>, block: int, lane: int, i: int)
    requires
        0 <= block < blocks.len(),
        0 <= lane < 8,
        0 <= i < 32,
    ensures
        blocks_bits(blocks).len() == 256 * blocks.len(),
        blocks_bits(blocks)[256 * block + 32 * lane + i] <==> (blocks[block]@[lane] as nat
            / power2::pow2(i as nat)) % 2 == 1,
{
    let p = 256 * block + 32 * lane + i;
    assert(p / 256 == block && (p % 256) / 32 == lane && p % 32 == i);
    let value = blocks[block]@[lane];
    let k = i as u32;
    vstd::bits::lemma_u32_shr_is_div(value, k);
    let shifted = value >> k;
    assert(shifted & 1 == shifted % 2) by (bit_vector);
}

/// Bytes that hold the same bits as blocks are the bytes of the lanes in turn, each lane in
/// little-endian order.
pub proof fn law_bytes_of_blocks(
    blocks: Seq<[u32; 8]>,
    bytes: Seq<u8>,
    block: int,
    lane: int,
    m: int,
)
    requires
        bytes_bits(bytes) == blocks_bits(blocks),
        0 <= block < blocks.len(),
        0 <= lane < 8,
        0 <= m < 4,
    ensures
        bytes.len() == 32 * blocks.len(),
        bytes[32 * block + 4 * lane + m] == (blocks[block]@[lane] as nat / power2::pow2(
            (8 * m) as nat,
        )) % 256,
{
    let at = 32 * block + 4 * lane + m;
    let value = blocks[block]@[lane];
    assert(bytes_bits(bytes).len() == 8 * bytes.len());
    assert(blocks_bits(blocks).len() == 256 * blocks.len());
    assert forall|j: int| 0 <= j < 8 implies byte_bit(bytes[at], j) == byte_bit(
        lane_byte(value, m),
        j,
    ) by {
        let p = 8 * at + j;
        assert(p / 8 == at && p % 8 == j);
        assert(p / 256 == block && (p % 256) / 32 == lane && p % 32 == 8 * m + j);
        assert(bytes_bits(bytes)[p] == byte_bit(bytes[at], j));
        assert(blocks_bits(blocks)[p] == lane_bit(value, 8 * m + j));
        lemma_lane_byte_bit(value, m, j);
    }
    lemma_byte_ext(bytes[at], lane_byte(value, m));
    let s = (8 * m) as u32;
    vstd::bits::lemma_u32_shr_is_div(value, s);
    let shifted = value >> s;
    assert((shifted & 0xff) as u8 == shifted % 256) by (bit_vector);
}

/// Of no bits none is set, of all bits all are, and of a union those that are set in either.
pub proof fn law_bit_sets(a: Seq<bool>, b: Seq<bool>, len: nat, p: int)
    requires
        a.len() == b.len(),
    ensures
        no_bits(len).len() == len,
        0 <= p < len ==> !no_bits(len)[p],
        all_bits(len).len() == len,
        0 <= p < len ==> all_bits(len)[p],
        union_bits(a, b).len() == a.len(),
        0 <= p < a.len() ==> (union_bits(a, b)[p] <==> a[p] || b[p]),
{
}

} // verus!
