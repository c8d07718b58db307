//! What holds of classic Bloom filters as a whole.
//!
//! Filters are taken by their bits, as the contracts of the operations take them.

use vstd::prelude::*;

use crate::bits;
use crate::bloom_filter::aggregate::Columnar;
use crate::bloom_filter::canonical::{Canonical, Mask, PrimitiveArray, PrimitiveValues};
use crate::bloom_filter::constant::ConstantArray;
use crate::dtype::{DType, Nullability, PType};
use crate::error::BloomError;
use crate::le;
use crate::scalar::{PValue, Scalar, ScalarValue};

use super::{BloomOptions, BloomPartial};

verus! {

/// Bits of a filter: whole bytes, at least one.
pub open spec fn is_filter(bits: Seq<bool>) -> bool {
    bits.len() >= 8 && bits.len() % 8 == 0
}

/// The bits that a filter holds after some values were inserted into an empty one.
pub open spec fn filter_of(bytes: nat, hashes: u8, values: Seq<i64>) -> Seq<bool> {
    super::insert_all_bits(bits::no_bits((8 * bytes) as nat), values, hashes)
}

/// Insertion keeps the size of a filter.
pub proof fn lemma_insert_all_len(bits: Seq<bool>, values: Seq<i64>, hashes: u8)
    ensures
        super::insert_all_bits(bits, values, hashes).len() == bits.len(),
    decreases values.len(),
{
    if values.len() > 0 {
        lemma_insert_all_len(bits, values.drop_last(), hashes);
    }
}

/// Whether a probe of one of the values falls on position `p`.
pub open spec fn is_hit(bytes: nat, values: Seq<i64>, hashes: u8, p: int) -> bool {
    exists|k: int|
        0 <= k < values.len() && #[trigger] super::is_position(
            super::value_hash(values[k]),
            bytes,
            hashes,
            p,
        )
}

/// A bit is set after insertions exactly where it was set before or a probe of one of the values
/// falls on it.
pub proof fn law_insert_all_sets_positions(bits: Seq<bool>, values: Seq<i64>, hashes: u8, p: int)
    requires
        0 <= p < bits.len(),
    ensures
        super::insert_all_bits(bits, values, hashes)[p] <==> bits[p] || is_hit(
            bits.len() / 8,
            values,
            hashes,
            p,
        ),
    decreases values.len(),
{
    if values.len() > 0 {
        let n = bits.len() / 8;
        let shorter = values.drop_last();
        lemma_insert_all_len(bits, shorter, hashes);
        law_insert_all_sets_positions(bits, shorter, hashes, p);
        lemma_hit_carries_over(n, shorter, values, hashes, p);
        let last = values.len() - 1;
        assert(values[last] == values.last());
        if is_hit(n, values, hashes, p) {
            let k = choose|k: int|
                0 <= k < values.len() && #[trigger] super::is_position(
                    super::value_hash(values[k]),
                    n,
                    hashes,
                    p,
                );
            if k < last {
                assert(super::is_position(super::value_hash(shorter[k]), n, hashes, p));
            }
        }
        if super::is_position(super::value_hash(values[last]), n, hashes, p) {
            assert(is_hit(n, values, hashes, p));
        }
    }
}

proof fn lemma_hit_carries_over(bytes: nat, a: Seq<i64>, b: Seq<i64>, hashes: u8, p: int)
    requires
        forall|k: int| 0 <= k < a.len() ==> b.contains(#[trigger] a[k]),
    ensures
        is_hit(bytes, a, hashes, p) ==> is_hit(bytes, b, hashes, p),
{
    if is_hit(bytes, a, hashes, p) {
        let k = choose|k: int|
            0 <= k < a.len() && #[trigger] super::is_position(
                super::value_hash(a[k]),
                bytes,
                hashes,
                p,
            );
        assert(b.contains(a[k]));
        let m = choose|m: int| 0 <= m < b.len() && b[m] == a[k];
        assert(super::is_position(super::value_hash(b[m]), bytes, hashes, p));
    }
}

/// A filter that has the bits of another finds all that the other finds.
pub proof fn law_more_bits_find_more(a: Seq<bool>, b: Seq<bool>, hash: u64, hashes: u8)
    requires
        is_filter(a),
        bits::subset_bits(a, b),
        super::find_bits(a, hash, hashes),
    ensures
        super::find_bits(b, hash, hashes),
{
    let n = a.len() / 8;
    assert forall|k: int| 0 <= k < hashes implies b[#[trigger] super::position(hash, n, k)] by {
        super::lemma_position_range(hash, n, k);
        assert(a[super::position(hash, n, k)]);
    }
}

/// Insertion clears no bit, so what was found before is found after.
pub proof fn law_insert_keeps_found(bits: Seq<bool>, inserted: u64, hash: u64, hashes: u8)
    requires
        is_filter(bits),
    ensures
        bits::subset_bits(bits, super::insert_bits(bits, inserted, hashes)),
        super::find_bits(bits, hash, hashes) ==> super::find_bits(
            super::insert_bits(bits, inserted, hashes),
            hash,
            hashes,
        ),
{
    if super::find_bits(bits, hash, hashes) {
        law_more_bits_find_more(bits, super::insert_bits(bits, inserted, hashes), hash, hashes);
    }
}

/// There are no false negatives: after any sequence of values was inserted into any filter, each
/// of them is found.
pub proof fn law_no_false_negatives(bits: Seq<bool>, values: Seq<i64>, hashes: u8, i: int)
    requires
        is_filter(bits),
        0 <= i < values.len(),
    ensures
        super::find_bits(
            super::insert_all_bits(bits, values, hashes),
            super::value_hash(values[i]),
            hashes,
        ),
{
    let n = bits.len() / 8;
    let hash = super::value_hash(values[i]);
    let after = super::insert_all_bits(bits, values, hashes);
    lemma_insert_all_len(bits, values, hashes);
    assert forall|k: int| 0 <= k < hashes implies after[#[trigger] super::position(hash, n, k)] by {
        let p = super::position(hash, n, k);
        super::lemma_position_range(hash, n, k);
        assert(super::is_position(super::value_hash(values[i]), n, hashes, p));
        assert(is_hit(n, values, hashes, p));
        law_insert_all_sets_positions(bits, values, hashes, p);
    }
}

/// A value that is not found was not inserted.
pub proof fn law_miss_proves_absence(bits: Seq<bool>, values: Seq<i64>, hashes: u8, value: i64)
    requires
        is_filter(bits),
        !super::find_bits(
            super::insert_all_bits(bits, values, hashes),
            super::value_hash(value),
            hashes,
        ),
    ensures
        !values.contains(value),
{
    if values.contains(value) {
        let i = choose|i: int| 0 <= i < values.len() && values[i] == value;
        law_no_false_negatives(bits, values, hashes, i);
    }
}

/// Filters only depend on which values were inserted: neither the order nor repetitions matter.
pub proof fn law_insertion_order_is_irrelevant(
    bits: Seq<bool>,
    a: Seq<i64>,
    b: Seq<i64>,
    hashes: u8,
)
    requires
        forall|value: i64| a.contains(value) <==> b.contains(value),
    ensures
        super::insert_all_bits(bits, a, hashes) == super::insert_all_bits(bits, b, hashes),
{
    lemma_insert_all_len(bits, a, hashes);
    lemma_insert_all_len(bits, b, hashes);
    assert forall|k: int| 0 <= k < a.len() implies b.contains(#[trigger] a[k]) by {
        assert(a.contains(a[k]));
    }
    assert forall|k: int| 0 <= k < b.len() implies a.contains(#[trigger] b[k]) by {
        assert(b.contains(b[k]));
    }
    assert forall|p: int| 0 <= p < bits.len() implies super::insert_all_bits(bits, a, hashes)[p]
        == super::insert_all_bits(bits, b, hashes)[p] by {
        law_insert_all_sets_positions(bits, a, hashes, p);
        law_insert_all_sets_positions(bits, b, hashes, p);
        lemma_hit_carries_over(bits.len() / 8, a, b, hashes, p);
        lemma_hit_carries_over(bits.len() / 8, b, a, hashes, p);
    }
    assert(super::insert_all_bits(bits, a, hashes) =~= super::insert_all_bits(bits, b, hashes));
}

/// Inserting one sequence of values and then another is inserting the two in a row.
pub proof fn law_insert_in_a_row(bits: Seq<bool>, a: Seq<i64>, b: Seq<i64>, hashes: u8)
    ensures
        super::insert_all_bits(bits, a + b, hashes) == super::insert_all_bits(
            super::insert_all_bits(bits, a, hashes),
            b,
            hashes,
        ),
    decreases b.len(),
{
    if b.len() == 0 {
        assert(a + b =~= a);
    } else {
        law_insert_in_a_row(bits, a, b.drop_last(), hashes);
        assert((a + b).drop_last() =~= a + b.drop_last());
    }
}

/// Filters combine as the values in them do: the union of two filters is the filter that one
/// gets from the values of both.
pub proof fn law_union_holds_both_inputs(bytes: nat, hashes: u8, a: Seq<i64>, b: Seq<i64>)
    ensures
        bits::union_bits(filter_of(bytes, hashes, a), filter_of(bytes, hashes, b)) == filter_of(
            bytes,
            hashes,
            a + b,
        ),
{
    let empty = bits::no_bits((8 * bytes) as nat);
    let n = empty.len() / 8;
    let both = a + b;
    lemma_insert_all_len(empty, a, hashes);
    lemma_insert_all_len(empty, b, hashes);
    lemma_insert_all_len(empty, both, hashes);
    assert forall|k: int| 0 <= k < a.len() implies both.contains(#[trigger] a[k]) by {
        assert(both[k] == a[k]);
    }
    assert forall|k: int| 0 <= k < b.len() implies both.contains(#[trigger] b[k]) by {
        assert(both[a.len() + k] == b[k]);
    }
    let united = bits::union_bits(filter_of(bytes, hashes, a), filter_of(bytes, hashes, b));
    assert forall|p: int| 0 <= p < empty.len() implies united[p] == filter_of(
        bytes,
        hashes,
        both,
    )[p] by {
        law_insert_all_sets_positions(empty, a, hashes, p);
        law_insert_all_sets_positions(empty, b, hashes, p);
        law_insert_all_sets_positions(empty, both, hashes, p);
        lemma_hit_carries_over(n, a, both, hashes, p);
        lemma_hit_carries_over(n, b, both, hashes, p);
        if is_hit(n, both, hashes, p) {
            let k = choose|k: int|
                0 <= k < both.len() && #[trigger] super::is_position(
                    super::value_hash(both[k]),
                    n,
                    hashes,
                    p,
                );
            if k < a.len() {
                assert(super::is_position(super::value_hash(a[k]), n, hashes, p));
            } else {
                assert(super::is_position(super::value_hash(b[k - a.len()]), n, hashes, p));
            }
        }
    }
    assert(united =~= filter_of(bytes, hashes, both));
}

/// What either of two filters finds, their union finds.
pub proof fn law_union_keeps_found(a: Seq<bool>, b: Seq<bool>, hash: u64, hashes: u8)
    requires
        is_filter(a),
        a.len() == b.len(),
    ensures
        super::find_bits(a, hash, hashes) ==> super::find_bits(
            bits::union_bits(a, b),
            hash,
            hashes,
        ),
        super::find_bits(b, hash, hashes) ==> super::find_bits(
            bits::union_bits(a, b),
            hash,
            hashes,
        ),
{
    let united = bits::union_bits(a, b);
    if super::find_bits(a, hash, hashes) {
        law_more_bits_find_more(a, united, hash, hashes);
    }
    if super::find_bits(b, hash, hashes) {
        law_more_bits_find_more(b, united, hash, hashes);
    }
}

/// An empty filter finds nothing, and a saturated one finds everything.
pub proof fn law_extremes(bytes: nat, hash: u64, hashes: u8)
    requires
        bytes >= 1,
        hashes >= 1,
    ensures
        !super::find_bits(bits::no_bits((8 * bytes) as nat), hash, hashes),
        super::find_bits(bits::all_bits((8 * bytes) as nat), hash, hashes),
{
    let empty = bits::no_bits((8 * bytes) as nat);
    let full = bits::all_bits((8 * bytes) as nat);
    assert(empty.len() / 8 == bytes && full.len() / 8 == bytes);
    super::lemma_position_range(hash, bytes, 0);
    assert(!empty[super::position(hash, empty.len() / 8, 0)]);
    assert forall|k: int| 0 <= k < hashes implies full[#[trigger] super::position(
        hash,
        bytes,
        k,
    )] by {
        super::lemma_position_range(hash, bytes, k);
    }
}

/// A filter has one serialized form.
pub proof fn law_serialized_form_is_unique(partial: BloomPartial, a: Seq<u8>, b: Seq<u8>)
    requires
        partial@ == bits::bytes_bits(a),
        partial@ == bits::bytes_bits(b),
    ensures
        a == b,
{
    bits::lemma_bytes_bits_injective(a, b);
}

/// Stored options are read back.
pub proof fn law_options_round_trip(written: BloomOptions, read: BloomOptions, metadata: Seq<u8>)
    requires
        written.wf(),
        written.spec_bytes() <= u32::MAX,
        metadata == le::le_bytes(written.spec_bytes() as nat, 4).push(written.spec_hashes()),
        read.spec_bytes() == le::le_value(metadata.subrange(0, 4)),
        read.spec_hashes() == metadata[4],
    ensures
        super::metadata_error(metadata) is None,
        read == written,
{
    let head = le::le_bytes(written.spec_bytes() as nat, 4);
    le::lemma_le_bytes_len(written.spec_bytes() as nat, 4);
    reveal_with_fuel(le::capacity, 5);
    le::law_le_value_of_le_bytes(written.spec_bytes() as nat, 4);
    assert(metadata.subrange(0, 4) =~= head);
    super::lemma_options_ext(written, read);
}

/// Metadata that is accepted is written again as it was.
pub proof fn law_metadata_round_trip(metadata: Seq<u8>)
    requires
        super::metadata_error(metadata) is None,
    ensures
        0 < le::le_value(metadata.subrange(0, 4)) <= u32::MAX,
        le::le_bytes(le::le_value(metadata.subrange(0, 4)), 4).push(metadata[4]) == metadata,
{
    let head = metadata.subrange(0, 4);
    reveal_with_fuel(le::capacity, 5);
    le::law_le_bytes_of_le_value(head);
    assert(head.push(metadata[4]) =~= metadata);
}

/// The values of an array that are inserted are the valid ones.
pub proof fn law_values_are_the_valid_ones(values: Seq<i64>, validity: Mask, value: i64)
    ensures
        super::valid_values(values, validity).contains(value) <==> exists|i: int|
            0 <= i < values.len() && #[trigger] validity.spec_is_valid(i) && values[i] == value,
    decreases values.len(),
{
    let listed = super::valid_values(values, validity);
    if values.len() > 0 {
        let n = values.len() - 1;
        let shorter = values.drop_last();
        let before = super::valid_values(shorter, validity);
        law_values_are_the_valid_ones(shorter, validity, value);
        if listed.contains(value) {
            let k = choose|k: int| 0 <= k < listed.len() && listed[k] == value;
            if validity.spec_is_valid(n) && k == before.len() {
                assert(values[n] == value);
            } else {
                assert(before[k] == value);
                let i = choose|i: int|
                    0 <= i < shorter.len() && #[trigger] validity.spec_is_valid(i) && shorter[i]
                        == value;
                assert(values[i] == value);
            }
        }
        if exists|i: int|
            0 <= i < values.len() && #[trigger] validity.spec_is_valid(i) && values[i] == value {
            let i = choose|i: int|
                0 <= i < values.len() && #[trigger] validity.spec_is_valid(i) && values[i]
                    == value;
            if i == n {
                assert(listed[before.len() as int] == value);
            } else {
                assert(shorter[i] == value);
                let k = choose|k: int| 0 <= k < before.len() && before[k] == value;
                assert(listed[k] == value);
            }
        }
    }
}

/// Each valid value of a batch is found in the filter that the batch was accumulated into,
/// whatever the filter held before.
pub proof fn law_accumulated_is_found(
    bits: Seq<bool>,
    hashes: u8,
    batch: Columnar,
    values: Seq<i64>,
    value: i64,
)
    requires
        is_filter(bits),
        super::batch_values(batch) == Ok::<Seq<i64>, BloomError>(values),
        values.contains(value),
    ensures
        super::find_bits(
            super::insert_all_bits(bits, values, hashes),
            super::value_hash(value),
            hashes,
        ),
{
    let i = choose|i: int| 0 <= i < values.len() && values[i] == value;
    law_no_false_negatives(bits, values, hashes, i);
}

/// The mixing function is SplitMix64: a sum and two products modulo 2^64, each after which the
/// upper bits are folded into the lower ones.
pub proof fn law_splitmix64(value: u64, a: u64, b: u64, c: u64)
    requires
        a == (value + 0x9e37_79b9_7f4a_7c15) % 0x1_0000_0000_0000_0000,
        b == ((a ^ (a >> 30)) * 0xbf58_476d_1ce4_e5b9) % 0x1_0000_0000_0000_0000,
        c == ((b ^ (b >> 27)) * 0x94d0_49bb_1331_11eb) % 0x1_0000_0000_0000_0000,
    ensures
        super::spec_splitmix64(value) == c ^ (c >> 31),
{
}

/// A value is hashed by mixing its two's complement, which for negative values lies 2^64 above
/// the value.
pub proof fn law_value_hash(value: i64, unsigned: u64)
    requires
        unsigned == if value < 0 {
            value + 0x1_0000_0000_0000_0000
        } else {
            value as int
        },
    ensures
        super::value_hash(value) == super::spec_splitmix64(unsigned ^ 0x243f_6a88_85a3_08d3),
{
}

/// The probes of a hash start at the hash and go on by an odd step that is mixed from it, modulo
/// 2^64 and then modulo the number of bits.
pub proof fn law_probe_position(hash: u64, bytes: nat, k: int, step: u64, length: int)
    requires
        bytes >= 1,
        step == super::spec_splitmix64(hash ^ 0x1319_8a2e_0370_7344) | 1,
        length == if 8 * bytes > u64::MAX {
            u64::MAX as int
        } else {
            (8 * bytes) as int
        },
    ensures
        super::position(hash, bytes, k) == ((hash + k * step) % 0x1_0000_0000_0000_0000) % length,
        0 <= super::position(hash, bytes, k) < 8 * bytes,
{
}

/// Insertion sets the bits at the probes of a hash and changes no other.
pub proof fn law_insert_sets_exactly(bits: Seq<bool>, hash: u64, hashes: u8, p: int)
    requires
        0 <= p < bits.len(),
    ensures
        super::insert_bits(bits, hash, hashes).len() == bits.len(),
        super::insert_bits(bits, hash, hashes)[p] <==> bits[p] || exists|k: int|
            0 <= k < hashes && p == #[trigger] super::position(hash, bits.len() / 8, k),
{
}

/// A hash is found exactly where the bits at all of its probes are set.
pub proof fn law_found_exactly(bits: Seq<bool>, hash: u64, hashes: u8)
    ensures
        super::find_bits(bits, hash, hashes) <==> forall|k: int|
            0 <= k < hashes ==> bits[#[trigger] super::position(hash, bits.len() / 8, k)],
{
}

/// The batch of an array of 64-bit signed integers.
pub open spec fn array_batch(rows: Vec<i64>, validity: Mask) -> Columnar {
    Columnar::Canonical(
        Canonical::Primitive(PrimitiveArray { values: PrimitiveValues::I64(rows), validity }),
    )
}

/// The values of an array that are inserted are those of its valid rows: each of them, however
/// many there are, and nothing else.
pub proof fn law_values_are_the_valid_rows(rows: Vec<i64>, validity: Mask, value: i64)
    ensures
        super::batch_values(
            Columnar::Canonical(
                Canonical::Primitive(
                    PrimitiveArray { values: PrimitiveValues::I64(rows), validity },
                ),
            ),
        ) matches Ok(values) && (values.contains(value) <==> exists|i: int|
            0 <= i < rows@.len() && #[trigger] validity.spec_is_valid(i) && rows@[i] == value),
{
    law_values_are_the_valid_ones(rows@, validity, value);
}

/// The value of a constant batch is inserted, a null is not, and a value other than a number of
/// this type is refused.
pub proof fn law_value_of_constants(constant: ConstantArray)
    requires
        constant.scalar.wf(),
        super::scalar_readable(constant.scalar),
    ensures
        match constant.scalar.spec_value() {
            None => super::batch_values(Columnar::Constant(constant)) matches Ok(values)
                && values.len() == 0,
            Some(value) => if constant.scalar.spec_dtype() is Primitive {
                super::batch_values(Columnar::Constant(constant)) matches Ok(values)
                    && values.len() == 1 && value == ScalarValue::Primitive(PValue::I64(values[0]))
            } else {
                super::batch_values(Columnar::Constant(constant)) == Err::<Seq<i64>, BloomError>(
                    BloomError::NotI64,
                )
            },
        },
{
    constant.scalar.lemma_wf();
}

/// What a scalar holds for this filter: nothing where it is null, its value where its type is
/// that of 64-bit signed integers, and an error where it is no number.
pub proof fn law_value_of_scalars(s: Scalar, v: i64)
    requires
        s.wf(),
    ensures
        s.spec_value() is None ==> super::scalar_i64(s) == Ok::<Option<i64>, BloomError>(None),
        s.spec_dtype() is Primitive && s.spec_value() == Some(
            ScalarValue::Primitive(PValue::I64(v)),
        ) ==> super::scalar_i64(s) == Ok::<Option<i64>, BloomError>(Some(v)),
        s.spec_value() is Some && !(s.spec_dtype() is Primitive) ==> super::scalar_i64(s) == Err::<
            Option<i64>,
            BloomError,
        >(BloomError::NotI64),
{
    s.lemma_wf();
}

/// Every array of 64-bit signed integers can be accumulated, and every constant that is null, of
/// this type, or no number.
pub proof fn law_readable_batches(
    rows: Vec<i64>,
    validity: Mask,
    constant: ConstantArray,
    n: Nullability,
)
    ensures
        super::batch_readable(array_batch(rows, validity)),
        constant.scalar.spec_value() is None ==> super::batch_readable(
            Columnar::Constant(constant),
        ),
        !(constant.scalar.spec_dtype() is Primitive) ==> super::batch_readable(
            Columnar::Constant(constant),
        ),
        constant.scalar.spec_dtype() == DType::Primitive(PType::I64, n) ==> super::batch_readable(
            Columnar::Constant(constant),
        ),
{
}

/// The value of each valid row of an array is found in the filter that the array was accumulated
/// into, whatever the filter held before.
pub proof fn law_valid_rows_are_found(
    bits: Seq<bool>,
    hashes: u8,
    rows: Vec<i64>,
    validity: Mask,
    i: int,
)
    requires
        is_filter(bits),
        0 <= i < rows@.len(),
        validity.spec_is_valid(i),
    ensures
        super::batch_values(array_batch(rows, validity)) matches Ok(values) && super::find_bits(
            super::insert_all_bits(bits, values, hashes),
            super::value_hash(rows@[i]),
            hashes,
        ),
{
    let values = super::batch_values(array_batch(rows, validity))->Ok_0;
    law_values_are_the_valid_rows(rows, validity, rows@[i]);
    law_accumulated_is_found(bits, hashes, array_batch(rows, validity), values, rows@[i]);
}

/// Accumulation sets exactly the bits that the values of the valid rows select: a bit is set
/// after it where it was set before, or where a probe of one of those values falls.
pub proof fn law_accumulation_sets_exactly(
    bits: Seq<bool>,
    hashes: u8,
    rows: Vec<i64>,
    validity: Mask,
    p: int,
)
    requires
        0 <= p < bits.len(),
    ensures
        super::batch_values(array_batch(rows, validity)) matches Ok(values) && (
        super::insert_all_bits(bits, values, hashes)[p] <==> bits[p] || exists|i: int, k: int|
            0 <= i < rows@.len() && validity.spec_is_valid(i) && 0 <= k < hashes && p
                == #[trigger] super::position(
                super::value_hash(rows@[i]),
                bits.len() / 8,
                k,
            )),
{
    let n = bits.len() / 8;
    let values = super::batch_values(array_batch(rows, validity))->Ok_0;
    law_insert_all_sets_positions(bits, values, hashes, p);
    if is_hit(n, values, hashes, p) {
        let m = choose|m: int|
            0 <= m < values.len() && #[trigger] super::is_position(
                super::value_hash(values[m]),
                n,
                hashes,
                p,
            );
        let k = choose|k: int|
            0 <= k < hashes && p == #[trigger] super::position(
                super::value_hash(values[m]),
                n,
                k,
            );
        assert(values.contains(values[m]));
        law_values_are_the_valid_rows(rows, validity, values[m]);
        let i = choose|i: int|
            0 <= i < rows@.len() && #[trigger] validity.spec_is_valid(i) && rows@[i] == values[m];
        assert(p == super::position(super::value_hash(rows@[i]), n, k));
    }
    if exists|i: int, k: int|
        0 <= i < rows@.len() && validity.spec_is_valid(i) && 0 <= k < hashes && p
            == #[trigger] super::position(super::value_hash(rows@[i]), n, k) {
        let (i, k) = choose|i: int, k: int|
            0 <= i < rows@.len() && validity.spec_is_valid(i) && 0 <= k < hashes && p
                == #[trigger] super::position(super::value_hash(rows@[i]), n, k);
        law_values_are_the_valid_rows(rows, validity, rows@[i]);
        let m = choose|m: int| 0 <= m < values.len() && values[m] == rows@[i];
        assert(super::is_position(super::value_hash(values[m]), n, hashes, p));
        assert(is_hit(n, values, hashes, p));
    }
}

/// Metadata is accepted exactly where it is five bytes, of which the first four are not all zero
/// and the last is not. The byte count is looked at first.
pub proof fn law_accepted_metadata(metadata: Seq<u8>)
    ensures
        metadata.len() != 5 ==> super::metadata_error(metadata) == Some(
            BloomError::MetadataLength { found: metadata.len() as usize },
        ),
        metadata.len() == 5 && metadata.take(4) == seq![0u8, 0u8, 0u8, 0u8]
            ==> super::metadata_error(metadata) == Some(BloomError::ZeroBytes),
        metadata.len() == 5 && metadata.take(4) != seq![0u8, 0u8, 0u8, 0u8] && metadata[4] == 0
            ==> super::metadata_error(metadata) == Some(BloomError::ZeroHashes),
        metadata.len() == 5 && metadata.take(4) != seq![0u8, 0u8, 0u8, 0u8] && metadata[4] != 0
            ==> super::metadata_error(metadata) is None,
{
    if metadata.len() == 5 {
        let head = metadata.subrange(0, 4);
        le::law_value_of_four_bytes(head);
        assert(head =~= metadata.take(4));
        if le::le_value(head) == 0 {
            assert(head =~= seq![0u8, 0u8, 0u8, 0u8]);
        }
    }
}

/// The stored form of a filter is a byte string, of the type without null, of all bits of the
/// filter.
pub proof fn law_stored_form(s: Scalar, partial: BloomPartial)
    ensures
        super::is_serialized(s, partial) <==> s.spec_dtype() == DType::Binary(
            Nullability::NonNullable,
        ) && (s.spec_value() matches Some(ScalarValue::Binary(bytes)) && bits::bytes_bits(bytes@)
            == partial@ && bytes@.len() == partial.spec_len()),
{
}

} // verus!
