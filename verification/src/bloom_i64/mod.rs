//! Classic Bloom filter aggregate for columns of 64-bit signed integers.
//!
//! A filter is one bitset. A value is hashed once, and the hash is expanded to a configured
//! number of probes by double hashing.

use vstd::prelude::*;

use crate::bits;
use crate::bloom_filter::aggregate::Columnar;
use crate::bloom_filter::canonical::{Canonical, Mask, PrimitiveValues};
use crate::dtype::{DType, Nullability, PType};
use crate::error::BloomError;
use crate::le;
use crate::nonzero;
use crate::nonzero::{NonZeroU8, NonZeroUsize};
use crate::scalar::{PValue, Scalar, ScalarValue};
use crate::text;

pub mod laws;

verus! {

/// The SplitMix64 mixing function.
pub open spec fn spec_splitmix64(value: u64) -> u64 {
    let a = value.wrapping_add(0x9e37_79b9_7f4a_7c15);
    let b = (a ^ (a >> 30)).wrapping_mul(0xbf58_476d_1ce4_e5b9);
    let c = (b ^ (b >> 27)).wrapping_mul(0x94d0_49bb_1331_11eb);
    c ^ (c >> 31)
}

/// The SplitMix64 mixing function.
pub fn splitmix64(value: u64) -> (r: u64)
    ensures
        r == spec_splitmix64(value),
{
    let a = value.wrapping_add(0x9e37_79b9_7f4a_7c15);
    let b = (a ^ (a >> 30)).wrapping_mul(0xbf58_476d_1ce4_e5b9);
    let c = (b ^ (b >> 27)).wrapping_mul(0x94d0_49bb_1331_11eb);
    c ^ (c >> 31)
}

/// The hash of a value, taken from its two's complement form.
pub open spec fn value_hash(value: i64) -> u64 {
    spec_splitmix64((value as int % 0x1_0000_0000_0000_0000) as u64 ^ 0x243f_6a88_85a3_08d3)
}

/// The distance between the probes of a hash, which is odd.
pub open spec fn probe_step(hash: u64) -> u64 {
    spec_splitmix64(hash ^ 0x1319_8a2e_0370_7344) | 1
}

/// The number of bits that probes are taken modulo.
pub open spec fn bit_len(bytes: nat) -> int {
    if 8 * bytes > u64::MAX {
        u64::MAX as int
    } else {
        (8 * bytes) as int
    }
}

/// The position of probe `k` of a hash in a bitset of `bytes` bytes.
pub open spec fn position(hash: u64, bytes: nat, k: int) -> int {
    ((hash + k * probe_step(hash)) % 0x1_0000_0000_0000_0000) % bit_len(bytes)
}

/// Whether one of the first `hashes` probes of a hash falls on position `p`.
pub open spec fn is_position(hash: u64, bytes: nat, hashes: u8, p: int) -> bool {
    exists|k: int| 0 <= k < hashes && p == #[trigger] position(hash, bytes, k)
}

/// The bits of a filter after a hash was inserted.
pub open spec fn insert_bits(bits: Seq<bool>, hash: u64, hashes: u8) -> Seq<bool> {
    Seq::new(bits.len(), |p: int| bits[p] || is_position(hash, bits.len() / 8, hashes, p))
}

/// Whether the bits at all probes of a hash are set.
pub open spec fn find_bits(bits: Seq<bool>, hash: u64, hashes: u8) -> bool {
    forall|k: int| 0 <= k < hashes ==> bits[#[trigger] position(hash, bits.len() / 8, k)]
}

/// The bits of a filter after a sequence of values was inserted.
pub open spec fn insert_all_bits(bits: Seq<bool>, values: Seq<i64>, hashes: u8) -> Seq<bool>
    decreases values.len(),
{
    if values.len() == 0 {
        bits
    } else {
        insert_bits(
            insert_all_bits(bits, values.drop_last(), hashes),
            value_hash(values.last()),
            hashes,
        )
    }
}

/// Every probe falls within the bitset.
pub proof fn lemma_position_range(hash: u64, bytes: nat, k: int)
    requires
        bytes >= 1,
    ensures
        0 <= position(hash, bytes, k) < 8 * bytes,
{
}

/// The probes of a hash in a bitset of `bytes` bytes, each as the index of a byte and of a bit
/// in it.
pub fn bloom_positions(hash: u64, bytes: usize, hashes: u8) -> (positions: Vec<(usize, u32)>)
    requires
        bytes > 0 || hashes == 0,
    ensures
        positions@.len() == hashes,
        forall|k: int|
            #![trigger positions@[k]]
            0 <= k < hashes ==> positions@[k].0 < bytes && positions@[k].1 < 8 && 8
                * positions@[k].0 + positions@[k].1 == position(hash, bytes as nat, k),
{
    let mut positions: Vec<(usize, u32)> = Vec::new();
    if hashes == 0 {
        return positions;
    }
    let h1 = hash;
    let h2 = splitmix64(h1 ^ 0x1319_8a2e_0370_7344) | 1;
    let len = match (bytes as u64).checked_mul(8) {
        Some(len) => len,
        None => u64::MAX,
    };
    let mut probe: u8 = 0;
    while probe < hashes
        invariant
            bytes > 0,
            probe <= hashes,
            h1 == hash,
            h2 == probe_step(hash),
            len == bit_len(bytes as nat),
            positions@.len() == probe,
            forall|k: int|
                #![trigger positions@[k]]
                0 <= k < probe ==> positions@[k].0 < bytes && positions@[k].1 < 8 && 8
                    * positions@[k].0 + positions@[k].1 == position(hash, bytes as nat, k),
        decreases hashes - probe,
    {
        let offset = (probe as u64).wrapping_mul(h2);
        let sum = h1.wrapping_add(offset);
        proof {
            let m = 0x1_0000_0000_0000_0000int;
            let product = probe as int * h2 as int;
            assert(offset == product % m);
            assert((h1 + product) % m == (h1 + product % m) % m) by {
                vstd::arithmetic::div_mod::lemma_add_mod_noop_right(h1 as int, product, m);
            }
            assert(sum == (h1 + product) % m);
        }
        let at = sum % len;
        assert(at == position(hash, bytes as nat, probe as int));
        proof {
            lemma_position_range(hash, bytes as nat, probe as int);
        }
        positions.push(((at / 8) as usize, (at % 8) as u32));
        probe = probe + 1;
    }
    positions
}

/// Sets the bits at all probes of a hash.
pub fn bloom_insert_hash(bits: &mut [u8], hash: u64, hashes: u8)
    requires
        old(bits)@.len() > 0 || hashes == 0,
    ensures
        bits::bytes_bits(final(bits)@) == insert_bits(bits::bytes_bits(old(bits)@), hash, hashes),
        final(bits)@.len() == old(bits)@.len(),
{
    let count = bits.len();
    let positions = bloom_positions(hash, count, hashes);
    let mut i: usize = 0;
    while i < positions.len()
        invariant
            i <= positions@.len(),
            positions@.len() == hashes,
            count == bits@.len(),
            count == old(bits)@.len(),
            forall|k: int|
                #![trigger positions@[k]]
                0 <= k < hashes ==> positions@[k].0 < count && positions@[k].1 < 8 && 8
                    * positions@[k].0 + positions@[k].1 == position(hash, count as nat, k),
            forall|p: int|
                #![trigger bits::bytes_bits(bits@)[p]]
                0 <= p < 8 * count ==> bits::bytes_bits(bits@)[p] == (bits::bytes_bits(
                    old(bits)@,
                )[p] || exists|k: int|
                    0 <= k < i && p == #[trigger] position(hash, count as nat, k)),
        decreases positions@.len() - i,
    {
        let (byte, bit) = positions[i];
        let ghost before = bits@;
        let old_byte = bits[byte];
        let shift = bit as u8;
        let new_byte = old_byte | (1u8 << shift);
        bits[byte] = new_byte;
        proof {
            let at = position(hash, count as nat, i as int);
            assert forall|p: int|
                #![trigger bits::bytes_bits(bits@)[p]]
                0 <= p < 8 * count implies bits::bytes_bits(bits@)[p] == (bits::bytes_bits(
                old(bits)@,
            )[p] || exists|k: int|
                0 <= k < i + 1 && p == #[trigger] position(hash, count as nat, k)) by {
                let was = bits::bytes_bits(before)[p];
                assert(bits::bytes_bits(bits@)[p] == (was || p == at)) by {
                    if p / 8 == byte {
                        let j = (p % 8) as u8;
                        assert((new_byte >> j) & 1 == 1 <==> ((old_byte >> j) & 1 == 1 || j
                            == shift)) by (bit_vector)
                            requires
                                new_byte == old_byte | (1u8 << shift),
                                shift < 8,
                                j < 8,
                        ;
                    } else {
                        assert(bits@[p / 8] == before[p / 8]);
                    }
                }
                if was {
                    if !bits::bytes_bits(old(bits)@)[p] {
                        let k = choose|k: int|
                            0 <= k < i && p == #[trigger] position(hash, count as nat, k);
                        assert(0 <= k < i + 1 && p == position(hash, count as nat, k));
                    }
                } else if p == at {
                    assert(0 <= i < i + 1 && p == position(hash, count as nat, i as int));
                }
                if exists|k: int|
                    0 <= k < i + 1 && p == #[trigger] position(hash, count as nat, k) {
                    let k = choose|k: int|
                        0 <= k < i + 1 && p == #[trigger] position(hash, count as nat, k);
                    if k < i {
                        assert(exists|k: int|
                            0 <= k < i && p == #[trigger] position(hash, count as nat, k));
                    }
                }
            }
        }
        i = i + 1;
    }
    proof {
        let was = bits::bytes_bits(old(bits)@);
        assert(was.len() / 8 == count);
        assert(bits::bytes_bits(bits@) =~= insert_bits(was, hash, hashes));
    }
}

/// Whether the bits at all probes of a hash are set.
pub fn bloom_contains_hash(bits: &[u8], hash: u64, hashes: u8) -> (found: bool)
    requires
        bits@.len() > 0 || hashes == 0,
    ensures
        found == find_bits(bits::bytes_bits(bits@), hash, hashes),
{
    let count = bits.len();
    let positions = bloom_positions(hash, count, hashes);
    assert(bits::bytes_bits(bits@).len() / 8 == count);
    let mut i: usize = 0;
    while i < positions.len()
        invariant
            i <= positions@.len(),
            positions@.len() == hashes,
            count == bits@.len(),
            bits::bytes_bits(bits@).len() / 8 == count,
            forall|k: int|
                #![trigger positions@[k]]
                0 <= k < hashes ==> positions@[k].0 < count && positions@[k].1 < 8 && 8
                    * positions@[k].0 + positions@[k].1 == position(hash, count as nat, k),
            forall|k: int|
                0 <= k < i ==> bits::bytes_bits(bits@)[#[trigger] position(hash, count as nat, k)],
        decreases positions@.len() - i,
    {
        let (byte, bit) = positions[i];
        let shift = bit as u8;
        let held = bits[byte];
        let masked = held & (1u8 << shift);
        proof {
            assert(masked != 0 <==> (held >> shift) & 1 == 1) by (bit_vector)
                requires
                    masked == held & (1u8 << shift),
                    shift < 8,
            ;
            let at = position(hash, count as nat, i as int);
            assert(at / 8 == byte && at % 8 == bit);
            assert(bits::bytes_bits(bits@)[at] == (masked != 0));
        }
        if masked == 0 {
            return false;
        }
        i = i + 1;
    }
    true
}

/// The hash of a value.
fn hash_value(value: i64) -> (hash: u64)
    ensures
        hash == value_hash(value),
{
    let unsigned = #[verifier::truncate]
    (value as u64);
    assert(unsigned == if value >= 0 {
        value as int
    } else {
        value + 0x1_0000_0000_0000_0000
    }) by (bit_vector)
        requires
            unsigned == value as u64,
    ;
    splitmix64(unsigned ^ 0x243f_6a88_85a3_08d3)
}

/// Inserts a value into a bitset.
pub fn bloom_insert(bits: &mut [u8], value: i64, hashes: u8)
    requires
        old(bits)@.len() > 0 || hashes == 0,
    ensures
        bits::bytes_bits(final(bits)@) == insert_bits(
            bits::bytes_bits(old(bits)@),
            value_hash(value),
            hashes,
        ),
        final(bits)@.len() == old(bits)@.len(),
{
    let hash = hash_value(value);
    bloom_insert_hash(bits, hash, hashes);
}

/// Whether a value might have been inserted into a bitset. Where it was, the answer is `true`.
pub fn bloom_contains(bits: &[u8], value: i64, hashes: u8) -> (found: bool)
    requires
        bits@.len() > 0 || hashes == 0,
    ensures
        found == find_bits(bits::bytes_bits(bits@), value_hash(value), hashes),
{
    bloom_contains_hash(bits, hash_value(value), hashes)
}

/// Bloom filter tuning persisted as aggregate metadata.
#[derive(Clone, Copy, Debug, PartialEq, Eq, Hash, Structural)]
pub struct BloomOptions {
    bytes: NonZeroUsize,
    hashes: NonZeroU8,
}

impl BloomOptions {
    /// The number of bytes stored for each zone.
    pub closed spec fn spec_bytes(self) -> usize {
        self.bytes.value()
    }

    /// The number of hash probes for each value.
    pub closed spec fn spec_hashes(self) -> u8 {
        self.hashes.value()
    }

    /// There is a byte and a probe.
    #[verifier::type_invariant]
    pub open spec fn wf(self) -> bool {
        self.spec_bytes() != 0 && self.spec_hashes() != 0
    }

    /// Create bloom options with a fixed number of bytes and hash probes per zone.
    pub fn new(bytes: NonZeroUsize, hashes: NonZeroU8) -> (options: BloomOptions)
        ensures
            options.spec_bytes() == bytes.value(),
            options.spec_hashes() == hashes.value(),
            options.wf(),
    {
        let _ = bytes.get();
        let _ = hashes.get();
        BloomOptions { bytes, hashes }
    }

    /// Bytes stored for each zone.
    pub fn bytes(&self) -> (bytes: NonZeroUsize)
        ensures
            bytes.value() == self.spec_bytes(),
            self.spec_bytes() != 0,
    {
        proof {
            use_type_invariant(self);
        }
        self.bytes
    }

    /// Hash probes performed for each inserted or tested value.
    pub fn hashes(&self) -> (hashes: NonZeroU8)
        ensures
            hashes.value() == self.spec_hashes(),
            self.spec_hashes() != 0,
    {
        proof {
            use_type_invariant(self);
        }
        self.hashes
    }

    /// The options as they are displayed.
    pub fn display(&self) -> (s: String)
        ensures
            s@ == "bytes="@ + text::decimal(self.spec_bytes() as nat) + ",hashes="@
                + text::decimal(self.spec_hashes() as nat),
    {
        let mut s = String::from_str("bytes=");
        text::append_decimal(&mut s, self.bytes.get());
        s.append(",hashes=");
        text::append_decimal(&mut s, self.hashes.get() as usize);
        s
    }
}

impl Default for BloomOptions {
    /// Eight bits per row of a zone of 8192 rows, and five probes.
    fn default() -> (options: BloomOptions)
        ensures
            options.spec_bytes() == 8192,
            options.spec_hashes() == 5,
            options.wf(),
    {
        BloomOptions::new(NonZeroUsize::new(8192).unwrap(), NonZeroU8::new(5).unwrap())
    }
}

/// Options are determined by their byte and probe counts.
pub proof fn lemma_options_ext(a: BloomOptions, b: BloomOptions)
    requires
        a.spec_bytes() == b.spec_bytes(),
        a.spec_hashes() == b.spec_hashes(),
    ensures
        a == b,
{
    nonzero::lemma_nonzero_usize_ext(a.bytes, b.bytes);
    nonzero::lemma_nonzero_u8_ext(a.hashes, b.hashes);
}

/// In-memory Bloom accumulator. Only the bitset is persisted.
pub struct BloomPartial {
    bits: Vec<u8>,
    hashes: u8,
}

impl View for BloomPartial {
    type V = Seq<bool>;

    /// The bits of the filter, byte by byte, least significant bit first.
    closed spec fn view(&self) -> Seq<bool> {
        bits::bytes_bits(self.bits@)
    }
}

impl BloomPartial {
    /// The number of bytes.
    pub closed spec fn spec_len(self) -> nat {
        self.bits@.len()
    }

    /// The number of hash probes for each value.
    pub closed spec fn spec_hashes(self) -> u8 {
        self.hashes
    }

    /// A filter that values can be inserted into: it has a byte.
    pub open spec fn wf(self) -> bool {
        self.spec_len() >= 1
    }

    /// The filter holds eight bits for each byte.
    pub proof fn lemma_view_len(self)
        ensures
            self@.len() == 8 * self.spec_len(),
    {
    }
}

/// The valid values among those given, in order.
pub open spec fn valid_values(values: Seq<i64>, validity: Mask) -> Seq<i64>
    decreases values.len(),
{
    if values.len() == 0 {
        Seq::empty()
    } else {
        let items = valid_values(values.drop_last(), validity);
        if validity.spec_is_valid(values.len() - 1) {
            items.push(values.last())
        } else {
            items
        }
    }
}

/// What a scalar holds for the purposes of this filter: nothing where it is null, a value where
/// its type is that of 64-bit signed integers.
pub open spec fn scalar_i64(scalar: Scalar) -> Result<Option<i64>, BloomError> {
    match scalar.spec_value() {
        None => Ok(None),
        Some(ScalarValue::Primitive(PValue::I64(v))) if scalar.spec_dtype() is Primitive => Ok(
            Some(v),
        ),
        _ => Err(BloomError::NotI64),
    }
}

/// Whether a scalar can be asked for its value: a number that is not null is a 64-bit signed
/// integer.
pub open spec fn scalar_readable(scalar: Scalar) -> bool {
    scalar.spec_value() is Some ==> (scalar.spec_dtype() matches DType::Primitive(ptype, _)
        ==> ptype == PType::I64)
}

/// Whether a batch can be accumulated: a canonical one holds 64-bit signed integers.
pub open spec fn batch_readable(batch: Columnar) -> bool {
    match batch {
        Columnar::Constant(constant) => scalar_readable(constant.scalar),
        Columnar::Canonical(Canonical::Primitive(array)) => array.values is I64,
        Columnar::Canonical(_) => false,
    }
}

/// The valid values of a batch, in order, or why there are none. A repeated value counts once.
pub open spec fn batch_values(batch: Columnar) -> Result<Seq<i64>, BloomError> {
    match batch {
        Columnar::Constant(constant) => match scalar_i64(constant.scalar) {
            Ok(Some(v)) => Ok(seq![v]),
            Ok(None) => Ok(Seq::empty()),
            Err(e) => Err(e),
        },
        Columnar::Canonical(Canonical::Primitive(array)) => match array.values {
            PrimitiveValues::I64(values) => Ok(valid_values(values@, array.validity)),
            _ => Err(BloomError::NotI64),
        },
        Columnar::Canonical(_) => Err(BloomError::NotI64),
    }
}

/// Returns the value of a scalar, `None` where it is null.
pub fn i64_value(scalar: &Scalar) -> (r: Result<Option<i64>, BloomError>)
    requires
        scalar_readable(*scalar),
    ensures
        r == scalar_i64(*scalar),
{
    match scalar.value() {
        None => Ok(None),
        Some(value) => match (scalar.dtype(), value) {
            (DType::Primitive(_, _), ScalarValue::Primitive(PValue::I64(v))) => Ok(Some(*v)),
            _ => Err(BloomError::NotI64),
        },
    }
}

/// Why stored options are refused, where they are: a byte count of four bytes, the lowest
/// first, and a probe count of one byte, both other than zero.
pub open spec fn metadata_error(metadata: Seq<u8>) -> Option<BloomError> {
    if metadata.len() != 5 {
        Some(BloomError::MetadataLength { found: metadata.len() as usize })
    } else if le::le_value(metadata.subrange(0, 4)) == 0 {
        Some(BloomError::ZeroBytes)
    } else if metadata[4] == 0 {
        Some(BloomError::ZeroHashes)
    } else {
        None
    }
}

/// Whether a scalar is the serialized form of a filter: a byte string, of a type without null,
/// that holds the filter's bits.
pub open spec fn is_serialized(scalar: Scalar, partial: BloomPartial) -> bool {
    &&& scalar.spec_dtype() == DType::Binary(Nullability::NonNullable)
    &&& scalar.spec_value() matches Some(ScalarValue::Binary(bytes))
    &&& bits::bytes_bits(bytes@) == partial@
    &&& bytes@.len() == partial.spec_len()
}

/// Aggregate that stores one fixed-size Bloom bitset as a byte string for every zone.
#[derive(Clone, Copy, Debug)]
pub struct BloomFilter;

impl BloomFilter {
    /// The identifier of the aggregate.
    pub fn id(&self) -> (id: &'static str)
        ensures
            id@ == "vortex.bloom_filter.i64.v1"@,
    {
        "vortex.bloom_filter.i64.v1"
    }

    /// Writes the options that are stored with the aggregate: the byte count, four bytes wide,
    /// the lowest byte first, and the probe count.
    pub fn serialize(&self, options: &BloomOptions) -> (r: Result<Option<Vec<u8>>, BloomError>)
        ensures
            options.spec_bytes() <= u32::MAX ==> (r matches Ok(Some(metadata)) && metadata@
                == le::le_bytes(options.spec_bytes() as nat, 4).push(options.spec_hashes())),
            options.spec_bytes() > u32::MAX ==> r == Err::<Option<Vec<u8>>, BloomError>(
                BloomError::SizeTooLarge { size: options.spec_bytes() },
            ),
    {
        let bytes = options.bytes().get();
        if bytes > u32::MAX as usize {
            return Err(BloomError::SizeTooLarge { size: bytes });
        }
        let mut metadata = le::write_le(bytes as u128, 4);
        metadata.push(options.hashes().get());
        Ok(Some(metadata))
    }

    /// Reads stored options.
    pub fn deserialize(&self, metadata: &[u8]) -> (r: Result<BloomOptions, BloomError>)
        ensures
            r is Ok <==> metadata_error(metadata@) is None,
            r matches Ok(options) ==> options.spec_bytes() == le::le_value(
                metadata@.subrange(0, 4),
            ) && options.spec_hashes() == metadata@[4] && options.wf(),
            r matches Err(e) ==> metadata_error(metadata@) == Some(e),
    {
        if metadata.len() != 5 {
            return Err(BloomError::MetadataLength { found: metadata.len() });
        }
        let bytes = le::read_u32(metadata);
        match NonZeroUsize::new(bytes as usize) {
            None => Err(BloomError::ZeroBytes),
            Some(bytes) => match NonZeroU8::new(metadata[4]) {
                None => Err(BloomError::ZeroHashes),
                Some(hashes) => Ok(BloomOptions::new(bytes, hashes)),
            },
        }
    }

    /// The type of the stored filter, where the input holds 64-bit signed integers.
    pub fn return_dtype(&self, options: &BloomOptions, input_dtype: &DType) -> (r: Option<DType>)
        ensures
            r == (match *input_dtype {
                DType::Primitive(PType::I64, _) => Some(DType::Binary(Nullability::NonNullable)),
                _ => None,
            }),
    {
        match input_dtype {
            DType::Primitive(PType::I64, _) => Some(DType::Binary(Nullability::NonNullable)),
            _ => None,
        }
    }

    /// The type of a partial state, which is that of the stored filter.
    pub fn partial_dtype(&self, options: &BloomOptions, input_dtype: &DType) -> (r: Option<DType>)
        ensures
            r == (match *input_dtype {
                DType::Primitive(PType::I64, _) => Some(DType::Binary(Nullability::NonNullable)),
                _ => None,
            }),
    {
        self.return_dtype(options, input_dtype)
    }

    /// Returns an empty filter, with no bit set.
    pub fn empty_partial(&self, options: &BloomOptions, input_dtype: &DType) -> (r: Result<
        BloomPartial,
        BloomError,
    >)
        ensures
            r matches Ok(partial) && partial@ == bits::no_bits((8 * options.spec_bytes()) as nat)
                && partial.spec_len() == options.spec_bytes() && partial.spec_hashes()
                == options.spec_hashes() && partial.wf(),
    {
        let count = options.bytes().get();
        let mut bits: Vec<u8> = Vec::new();
        let mut i: usize = 0;
        while i < count
            invariant
                i <= count,
                bits@.len() == i,
                forall|k: int| 0 <= k < i ==> bits@[k] == 0,
            decreases count - i,
        {
            bits.push(0);
            i = i + 1;
        }
        let partial = BloomPartial { bits, hashes: options.hashes().get() };
        proof {
            lemma_zero_bytes(partial.bits@);
        }
        Ok(partial)
    }

    /// Adds a stored bitset to a filter of the same size: the bits of both are set. A null adds
    /// nothing. On an error the filter is left as it was.
    pub fn combine_partials(&self, partial: &mut BloomPartial, other: Scalar) -> (r: Result<
        (),
        BloomError,
    >)
        requires
            other.spec_value() is None || other.spec_dtype() is Binary,
        ensures
            match other.spec_value() {
                Some(ScalarValue::Binary(bytes)) => if bytes@.len() != old(partial).spec_len() {
                    r == Err::<(), BloomError>(
                        BloomError::LengthMismatch {
                            expected: old(partial).spec_len() as usize,
                            found: bytes@.len() as usize,
                        },
                    ) && final(partial)@ == old(partial)@
                } else {
                    r == Ok::<(), BloomError>(()) && final(partial)@ == bits::union_bits(
                        old(partial)@,
                        bits::bytes_bits(bytes@),
                    )
                },
                _ => r == Ok::<(), BloomError>(()) && final(partial)@ == old(partial)@,
            },
            final(partial).spec_len() == old(partial).spec_len(),
            final(partial).spec_hashes() == old(partial).spec_hashes(),
    {
        match other.value() {
            Some(ScalarValue::Binary(bytes)) => {
                let count = partial.bits.len();
                if count != bytes.len() {
                    return Err(
                        BloomError::LengthMismatch { expected: count, found: bytes.len() },
                    );
                }
                let mut i: usize = 0;
                while i < count
                    invariant
                        i <= count,
                        count == partial.bits@.len(),
                        count == old(partial).bits@.len(),
                        count == bytes@.len(),
                        partial.hashes == old(partial).hashes,
                        forall|k: int|
                            0 <= k < i ==> #[trigger] partial.bits@[k] == old(partial).bits@[k]
                                | bytes@[k],
                        forall|k: int|
                            i <= k < count ==> #[trigger] partial.bits@[k] == old(partial).bits@[k],
                    decreases count - i,
                {
                    let merged = partial.bits[i] | bytes[i];
                    partial.bits.set(i, merged);
                    i = i + 1;
                }
                proof {
                    lemma_or_bytes(old(partial).bits@, bytes@, partial.bits@);
                }
                Ok(())
            },
            _ => Ok(()),
        }
    }

    /// Returns the bitset as a byte string that is never null.
    pub fn to_scalar(&self, partial: &BloomPartial) -> (r: Result<Scalar, BloomError>)
        ensures
            r matches Ok(s) && is_serialized(s, *partial),
    {
        let mut bytes: Vec<u8> = Vec::new();
        bytes.extend_from_slice(partial.bits.as_slice());
        assert(bytes@ =~= partial.bits@);
        Ok(Scalar::binary(bytes, Nullability::NonNullable))
    }

    /// Clears every bit of the filter.
    pub fn reset(&self, partial: &mut BloomPartial)
        ensures
            final(partial)@ == bits::no_bits(old(partial)@.len()),
            final(partial).spec_len() == old(partial).spec_len(),
            final(partial).spec_hashes() == old(partial).spec_hashes(),
    {
        let count = partial.bits.len();
        let mut i: usize = 0;
        while i < count
            invariant
                i <= count,
                count == partial.bits@.len(),
                count == old(partial).bits@.len(),
                partial.hashes == old(partial).hashes,
                forall|k: int| 0 <= k < i ==> #[trigger] partial.bits@[k] == 0,
            decreases count - i,
        {
            partial.bits.set(i, 0);
            i = i + 1;
        }
        proof {
            lemma_zero_bytes(partial.bits@);
        }
    }

    /// Whether every bit of the filter is set.
    pub fn is_saturated(&self, partial: &BloomPartial) -> (full: bool)
        ensures
            full == (partial@ == bits::all_bits(partial@.len())),
    {
        let count = partial.bits.len();
        let mut i: usize = 0;
        while i < count
            invariant
                i <= count,
                count == partial.bits@.len(),
                forall|k: int| 0 <= k < i ==> #[trigger] partial.bits@[k] == u8::MAX,
            decreases count - i,
        {
            if partial.bits[i] != u8::MAX {
                proof {
                    if partial@ == bits::all_bits(partial@.len()) {
                        lemma_full_bytes(partial.bits@, i as int);
                    }
                }
                return false;
            }
            i = i + 1;
        }
        proof {
            assert forall|p: int| 0 <= p < partial@.len() implies partial@[p] by {
                assert(partial.bits@[p / 8] == u8::MAX);
                let j = (p % 8) as u8;
                assert((0xffu8 >> j) & 1 == 1) by (bit_vector)
                    requires
                        j < 8,
                ;
            }
            assert(partial@ =~= bits::all_bits(partial@.len()));
        }
        true
    }

    /// Inserts the valid values of a batch. On an error the filter is left as it was.
    pub fn accumulate(&self, partial: &mut BloomPartial, batch: &Columnar) -> (r: Result<
        (),
        BloomError,
    >)
        requires
            old(partial).wf(),
            batch_readable(*batch),
        ensures
            match batch_values(*batch) {
                Ok(values) => r == Ok::<(), BloomError>(()) && final(partial)@ == insert_all_bits(
                    old(partial)@,
                    values,
                    old(partial).spec_hashes(),
                ),
                Err(e) => r == Err::<(), BloomError>(e) && final(partial)@ == old(partial)@,
            },
            final(partial).wf(),
            final(partial).spec_len() == old(partial).spec_len(),
            final(partial).spec_hashes() == old(partial).spec_hashes(),
    {
        let hashes = partial.hashes;
        match batch {
            Columnar::Constant(constant) => match i64_value(&constant.scalar) {
                Ok(Some(value)) => {
                    bloom_insert(&mut partial.bits, value, hashes);
                    proof {
                        let values = seq![value];
                        assert(values.drop_last() =~= Seq::<i64>::empty());
                        assert(insert_all_bits(old(partial)@, values.drop_last(), hashes) == old(
                            partial,
                        )@);
                    }
                    Ok(())
                },
                Ok(None) => Ok(()),
                Err(e) => Err(e),
            },
            Columnar::Canonical(Canonical::Primitive(array)) => match &array.values {
                PrimitiveValues::I64(values) => {
                    let count = values.len();
                    let mut i: usize = 0;
                    assert(values@.take(0) =~= Seq::<i64>::empty());
                    while i < count
                        invariant
                            i <= count,
                            count == values@.len(),
                            hashes == old(partial).hashes,
                            hashes == partial.hashes,
                            partial.bits@.len() == old(partial).bits@.len(),
                            partial.bits@.len() >= 1,
                            partial@ == insert_all_bits(
                                old(partial)@,
                                valid_values(values@.take(i as int), array.validity),
                                hashes,
                            ),
                        decreases count - i,
                    {
                        proof {
                            let longer = values@.take(i + 1);
                            assert(longer.drop_last() =~= values@.take(i as int));
                            let items = valid_values(values@.take(i as int), array.validity);
                            if array.validity.spec_is_valid(i as int) {
                                assert(valid_values(longer, array.validity).drop_last() =~= items);
                            }
                        }
                        if array.validity.is_valid(i) {
                            bloom_insert(&mut partial.bits, values[i], hashes);
                        }
                        i = i + 1;
                    }
                    assert(values@.take(count as int) =~= values@);
                    Ok(())
                },
                _ => Err(BloomError::NotI64),
            },
            Columnar::Canonical(_) => Err(BloomError::NotI64),
        }
    }

    /// Stored states are the results: they are returned as they are.
    pub fn finalize<T>(&self, partials: T) -> (r: Result<T, BloomError>)
        ensures
            r == Ok::<T, BloomError>(partials),
    {
        Ok(partials)
    }

    /// Returns the bitset as a byte string that is never null.
    pub fn finalize_scalar(&self, partial: &BloomPartial) -> (r: Result<Scalar, BloomError>)
        ensures
            r matches Ok(s) && is_serialized(s, *partial),
    {
        self.to_scalar(partial)
    }
}

proof fn lemma_zero_bytes(bytes: Seq<u8>)
    requires
        forall|k: int| 0 <= k < bytes.len() ==> bytes[k] == 0,
    ensures
        bits::bytes_bits(bytes) == bits::no_bits((8 * bytes.len()) as nat),
{
    assert forall|p: int| 0 <= p < 8 * bytes.len() implies !bits::bytes_bits(bytes)[p] by {
        assert(bytes[p / 8] == 0);
        let j = (p % 8) as u8;
        assert((0u8 >> j) & 1 == 0) by (bit_vector);
    }
    assert(bits::bytes_bits(bytes) =~= bits::no_bits((8 * bytes.len()) as nat));
}

proof fn lemma_or_bytes(a: Seq<u8>, b: Seq<u8>, c: Seq<u8>)
    requires
        a.len() == b.len(),
        a.len() == c.len(),
        forall|k: int| 0 <= k < a.len() ==> #[trigger] c[k] == a[k] | b[k],
    ensures
        bits::bytes_bits(c) == bits::union_bits(bits::bytes_bits(a), bits::bytes_bits(b)),
{
    assert forall|p: int| 0 <= p < 8 * a.len() implies bits::bytes_bits(c)[p] == (bits::bytes_bits(
        a,
    )[p] || bits::bytes_bits(b)[p]) by {
        let x = a[p / 8];
        let y = b[p / 8];
        let z = c[p / 8];
        let j = (p % 8) as u8;
        assert((z >> j) & 1 == 1 <==> ((x >> j) & 1 == 1 || (y >> j) & 1 == 1)) by (bit_vector)
            requires
                z == x | y,
                j < 8,
        ;
    }
    assert(bits::bytes_bits(c) =~= bits::union_bits(bits::bytes_bits(a), bits::bytes_bits(b)));
}

proof fn lemma_full_bytes(bytes: Seq<u8>, k: int)
    requires
        bits::bytes_bits(bytes) == bits::all_bits((8 * bytes.len()) as nat),
        0 <= k < bytes.len(),
    ensures
        bytes[k] == u8::MAX,
{
    assert forall|i: int| 0 <= i < 8 implies bits::byte_bit(bytes[k], i) == bits::byte_bit(
        u8::MAX,
        i,
    ) by {
        let p = 8 * k + i;
        assert(p / 8 == k && p % 8 == i);
        assert(bits::bytes_bits(bytes)[p] == bits::byte_bit(bytes[k], i));
        assert(bits::all_bits((8 * bytes.len()) as nat)[p]);
        let j = i as u8;
        assert((0xffu8 >> j) & 1 == 1) by (bit_vector)
            requires
                j < 8,
        ;
    }
    bits::lemma_byte_ext(bytes[k], u8::MAX);
}

} // verus!
