//! What holds of split block Bloom filters as a whole.
//!
//! Filters are taken by their bits, as the contracts of the operations take them.

use vstd::prelude::*;

use crate::bits;
use crate::dtype;
use crate::dtype::{DType, Nullability};
use crate::error::BloomError;
use crate::hash::HashFn;
use crate::le;
use crate::le::ToBytes;
use crate::scalar::{DecimalValue, PValue, Scalar, ScalarValue};

use super::aggregate;
use super::aggregate::Columnar;
use super::canonical;
use super::canonical::{Canonical, DecimalValues, Mask, PrimitiveValues};
use super::constant::ConstantArray;
use super::options;
use super::options::BloomOptions;
use super::partial;
use super::partial::BloomPartial;
use super::scalar;

verus! {

/// Bits of a filter: whole blocks, at least one.
pub open spec fn is_filter(bits: Seq<bool>) -> bool {
    bits.len() >= 256 && bits.len() % 256 == 0
}

/// The bits that a filter holds after some values were inserted into an empty one.
pub open spec fn filter_of(blocks: nat, hash_fn: HashFn, items: Seq<Seq<u8>>) -> Seq<bool> {
    partial::insert_all_bits(
        bits::no_bits((256 * blocks) as nat),
        partial::hashes_of(hash_fn, items),
    )
}

/// Insertion keeps the size of a filter.
pub proof fn lemma_insert_all_len(bits: Seq<bool>, hashes: Seq<u64>)
    ensures
        partial::insert_all_bits(bits, hashes).len() == bits.len(),
    decreases hashes.len(),
{
    if hashes.len() > 0 {
        lemma_insert_all_len(bits, hashes.drop_last());
    }
}

/// A bit is set after insertions exactly where it was set before or one of the hashes selects
/// it.
pub proof fn law_insert_all_sets_probes(bits: Seq<bool>, hashes: Seq<u64>, p: int)
    requires
        0 <= p < bits.len(),
    ensures
        partial::insert_all_bits(bits, hashes)[p] <==> bits[p] || exists|k: int|
            0 <= k < hashes.len() && #[trigger] partial::is_probe(
                hashes[k],
                bits.len() / 256,
                p,
            ),
    decreases hashes.len(),
{
    if hashes.len() > 0 {
        let shorter = hashes.drop_last();
        lemma_insert_all_len(bits, shorter);
        law_insert_all_sets_probes(bits, shorter, p);
        if exists|k: int|
            0 <= k < shorter.len() && #[trigger] partial::is_probe(
                shorter[k],
                bits.len() / 256,
                p,
            ) {
            let k = choose|k: int|
                0 <= k < shorter.len() && #[trigger] partial::is_probe(
                    shorter[k],
                    bits.len() / 256,
                    p,
                );
            assert(partial::is_probe(hashes[k], bits.len() / 256, p));
        }
        if exists|k: int|
            0 <= k < hashes.len() && #[trigger] partial::is_probe(hashes[k], bits.len() / 256, p) {
            let k = choose|k: int|
                0 <= k < hashes.len() && #[trigger] partial::is_probe(
                    hashes[k],
                    bits.len() / 256,
                    p,
                );
            if k < shorter.len() {
                assert(partial::is_probe(shorter[k], bits.len() / 256, p));
            } else {
                assert(hashes[k] == hashes.last());
            }
        }
        assert(partial::is_probe(hashes.last(), bits.len() / 256, p) ==> partial::is_probe(
            hashes[hashes.len() - 1],
            bits.len() / 256,
            p,
        ));
    }
}

/// What was inserted is found.
pub proof fn law_inserted_is_found(bits: Seq<bool>, hash: u64)
    requires
        is_filter(bits),
    ensures
        partial::find_bits(partial::insert_bits(bits, hash), hash),
{
    let blocks = bits.len() / 256;
    let after = partial::insert_bits(bits, hash);
    assert forall|lane: int| 0 <= lane < 8 implies after[#[trigger] partial::probe(
        hash,
        blocks,
        lane,
    )] by {
        partial::lemma_probe_range(hash, blocks, lane);
        assert(partial::is_probe(hash, blocks, partial::probe(hash, blocks, lane)));
    }
}

/// A filter that has the bits of another finds all that the other finds.
pub proof fn law_more_bits_find_more(a: Seq<bool>, b: Seq<bool>, hash: u64)
    requires
        is_filter(a),
        bits::subset_bits(a, b),
        partial::find_bits(a, hash),
    ensures
        partial::find_bits(b, hash),
{
    let blocks = a.len() / 256;
    assert forall|lane: int| 0 <= lane < 8 implies b[#[trigger] partial::probe(
        hash,
        blocks,
        lane,
    )] by {
        partial::lemma_probe_range(hash, blocks, lane);
        assert(a[partial::probe(hash, blocks, lane)]);
    }
}

/// Insertion clears no bit, so what was found before is found after.
pub proof fn law_insert_keeps_found(bits: Seq<bool>, inserted: u64, hash: u64)
    requires
        is_filter(bits),
    ensures
        bits::subset_bits(bits, partial::insert_bits(bits, inserted)),
        partial::find_bits(bits, hash) ==> partial::find_bits(
            partial::insert_bits(bits, inserted),
            hash,
        ),
{
    if partial::find_bits(bits, hash) {
        law_more_bits_find_more(bits, partial::insert_bits(bits, inserted), hash);
    }
}

/// What was found before any number of insertions is found after.
pub proof fn law_insert_all_keeps_found(bits: Seq<bool>, inserted: Seq<u64>, hash: u64)
    requires
        is_filter(bits),
        partial::find_bits(bits, hash),
    ensures
        partial::find_bits(partial::insert_all_bits(bits, inserted), hash),
    decreases inserted.len(),
{
    if inserted.len() > 0 {
        let shorter = inserted.drop_last();
        lemma_insert_all_len(bits, shorter);
        law_insert_all_keeps_found(bits, shorter, hash);
        law_insert_keeps_found(partial::insert_all_bits(bits, shorter), inserted.last(), hash);
    }
}

/// There are no false negatives: after any sequence of values was inserted into any filter, each
/// of them is found.
pub proof fn law_no_false_negatives(
    bits: Seq<bool>,
    hash_fn: HashFn,
    items: Seq<Seq<u8>>,
    i: int,
)
    requires
        is_filter(bits),
        0 <= i < items.len(),
    ensures
        partial::find_bits(
            partial::insert_all_bits(bits, partial::hashes_of(hash_fn, items)),
            hash_fn.spec_hash(items[i]),
        ),
{
    let hashes = partial::hashes_of(hash_fn, items);
    let after = partial::insert_all_bits(bits, hashes);
    let hash = hash_fn.spec_hash(items[i]);
    let blocks = bits.len() / 256;
    lemma_insert_all_len(bits, hashes);
    assert forall|lane: int| 0 <= lane < 8 implies after[#[trigger] partial::probe(
        hash,
        blocks,
        lane,
    )] by {
        let p = partial::probe(hash, blocks, lane);
        partial::lemma_probe_range(hash, blocks, lane);
        law_insert_all_sets_probes(bits, hashes, p);
        assert(hashes[i] == hash);
        assert(partial::is_probe(hashes[i], blocks, p));
    }
}

/// A value that is not found was not inserted.
pub proof fn law_miss_proves_absence(
    bits: Seq<bool>,
    hash_fn: HashFn,
    items: Seq<Seq<u8>>,
    value: Seq<u8>,
)
    requires
        is_filter(bits),
        !partial::find_bits(
            partial::insert_all_bits(bits, partial::hashes_of(hash_fn, items)),
            hash_fn.spec_hash(value),
        ),
    ensures
        !items.contains(value),
{
    if items.contains(value) {
        let i = choose|i: int| 0 <= i < items.len() && items[i] == value;
        law_no_false_negatives(bits, hash_fn, items, i);
    }
}

/// Filters only depend on which values were inserted: neither the order nor repetitions matter.
pub proof fn law_insertion_order_is_irrelevant(bits: Seq<bool>, a: Seq<u64>, b: Seq<u64>)
    requires
        forall|hash: u64| a.contains(hash) <==> b.contains(hash),
    ensures
        partial::insert_all_bits(bits, a) == partial::insert_all_bits(bits, b),
{
    lemma_insert_all_len(bits, a);
    lemma_insert_all_len(bits, b);
    assert forall|p: int| 0 <= p < bits.len() implies partial::insert_all_bits(bits, a)[p]
        == partial::insert_all_bits(bits, b)[p] by {
        law_insert_all_sets_probes(bits, a, p);
        law_insert_all_sets_probes(bits, b, p);
        lemma_probe_carries_over(bits.len() / 256, a, b, p);
        lemma_probe_carries_over(bits.len() / 256, b, a, p);
    }
    assert(partial::insert_all_bits(bits, a) =~= partial::insert_all_bits(bits, b));
}

proof fn lemma_probe_carries_over(blocks: nat, a: Seq<u64>, b: Seq<u64>, p: int)
    requires
        forall|hash: u64| a.contains(hash) ==> b.contains(hash),
    ensures
        (exists|k: int|
            0 <= k < a.len() && #[trigger] partial::is_probe(a[k], blocks, p)) ==> (exists|k: int|

            0 <= k < b.len() && #[trigger] partial::is_probe(b[k], blocks, p)),
{
    if exists|k: int| 0 <= k < a.len() && #[trigger] partial::is_probe(a[k], blocks, p) {
        let k = choose|k: int|
            0 <= k < a.len() && #[trigger] partial::is_probe(a[k], blocks, p);
        assert(a.contains(a[k]));
        let m = choose|m: int| 0 <= m < b.len() && b[m] == a[k];
        assert(partial::is_probe(b[m], blocks, p));
    }
}

/// Inserting one sequence of values and then another is inserting the two in a row.
pub proof fn law_insert_in_a_row(bits: Seq<bool>, a: Seq<u64>, b: Seq<u64>)
    ensures
        partial::insert_all_bits(bits, a + b) == partial::insert_all_bits(
            partial::insert_all_bits(bits, a),
            b,
        ),
    decreases b.len(),
{
    if b.len() == 0 {
        assert(a + b =~= a);
    } else {
        law_insert_in_a_row(bits, a, b.drop_last());
        assert((a + b).drop_last() =~= a + b.drop_last());
    }
}

/// Filters combine as the values in them do: the union of two filters is the filter that one
/// gets from the values of both.
pub proof fn law_union_holds_both_inputs(
    blocks: nat,
    hash_fn: HashFn,
    a: Seq<Seq<u8>>,
    b: Seq<Seq<u8>>,
)
    ensures
        bits::union_bits(filter_of(blocks, hash_fn, a), filter_of(blocks, hash_fn, b))
            == filter_of(blocks, hash_fn, a + b),
{
    let empty = bits::no_bits((256 * blocks) as nat);
    let ha = partial::hashes_of(hash_fn, a);
    let hb = partial::hashes_of(hash_fn, b);
    let hab = partial::hashes_of(hash_fn, a + b);
    assert(hab =~= ha + hb);
    lemma_insert_all_len(empty, ha);
    lemma_insert_all_len(empty, hb);
    lemma_insert_all_len(empty, hab);
    let n = empty.len() / 256;
    let united = bits::union_bits(filter_of(blocks, hash_fn, a), filter_of(blocks, hash_fn, b));
    assert forall|p: int| 0 <= p < empty.len() implies united[p] == filter_of(
        blocks,
        hash_fn,
        a + b,
    )[p] by {
        law_insert_all_sets_probes(empty, ha, p);
        law_insert_all_sets_probes(empty, hb, p);
        law_insert_all_sets_probes(empty, hab, p);
        assert forall|hash: u64| ha.contains(hash) implies hab.contains(hash) by {
            let k = choose|k: int| 0 <= k < ha.len() && ha[k] == hash;
            assert(hab[k] == hash);
        }
        assert forall|hash: u64| hb.contains(hash) implies hab.contains(hash) by {
            let k = choose|k: int| 0 <= k < hb.len() && hb[k] == hash;
            assert(hab[ha.len() + k] == hash);
        }
        lemma_probe_carries_over(n, ha, hab, p);
        lemma_probe_carries_over(n, hb, hab, p);
        if exists|k: int| 0 <= k < hab.len() && #[trigger] partial::is_probe(hab[k], n, p) {
            let k = choose|k: int|
                0 <= k < hab.len() && #[trigger] partial::is_probe(hab[k], n, p);
            if k < ha.len() {
                assert(partial::is_probe(ha[k], n, p));
            } else {
                assert(partial::is_probe(hb[k - ha.len()], n, p));
            }
        }
    }
    assert(united =~= filter_of(blocks, hash_fn, a + b));
}

/// What either of two filters finds, their union finds.
pub proof fn law_union_keeps_found(a: Seq<bool>, b: Seq<bool>, hash: u64)
    requires
        is_filter(a),
        a.len() == b.len(),
    ensures
        partial::find_bits(a, hash) ==> partial::find_bits(bits::union_bits(a, b), hash),
        partial::find_bits(b, hash) ==> partial::find_bits(bits::union_bits(a, b), hash),
{
    let united = bits::union_bits(a, b);
    if partial::find_bits(a, hash) {
        law_more_bits_find_more(a, united, hash);
    }
    if partial::find_bits(b, hash) {
        law_more_bits_find_more(b, united, hash);
    }
}

/// An empty filter finds nothing, and is not saturated.
pub proof fn law_empty_finds_nothing(blocks: nat, hash: u64)
    requires
        blocks >= 1,
    ensures
        !partial::find_bits(bits::no_bits((256 * blocks) as nat), hash),
        bits::no_bits((256 * blocks) as nat) != bits::all_bits((256 * blocks) as nat),
{
    let empty = bits::no_bits((256 * blocks) as nat);
    partial::lemma_probe_range(hash, blocks, 0);
    assert(empty.len() / 256 == blocks);
    assert(!empty[partial::probe(hash, empty.len() / 256, 0)]);
    assert(bits::all_bits(empty.len())[0] && !empty[0]);
}

/// A saturated filter finds everything, and insertion no longer changes it.
pub proof fn law_saturated_finds_everything(blocks: nat, hash: u64)
    requires
        blocks >= 1,
    ensures
        partial::find_bits(bits::all_bits((256 * blocks) as nat), hash),
        partial::insert_bits(bits::all_bits((256 * blocks) as nat), hash) == bits::all_bits(
            (256 * blocks) as nat,
        ),
{
    let full = bits::all_bits((256 * blocks) as nat);
    assert(full.len() / 256 == blocks);
    assert forall|lane: int| 0 <= lane < 8 implies full[#[trigger] partial::probe(
        hash,
        blocks,
        lane,
    )] by {
        partial::lemma_probe_range(hash, blocks, lane);
    }
    assert(partial::insert_bits(full, hash) =~= full);
}

/// An insertion changes no block but the one that the hash selects, and in each lane of it at
/// most one bit.
pub proof fn law_insert_stays_in_its_block(bits: Seq<bool>, hash: u64, p: int, q: int)
    requires
        is_filter(bits),
        0 <= p < bits.len(),
        0 <= q < bits.len(),
        partial::insert_bits(bits, hash)[p] != bits[p],
        partial::insert_bits(bits, hash)[q] != bits[q],
    ensures
        p / 256 == partial::block_of(hash, bits.len() / 256),
        p / 256 == q / 256,
        p / 32 == q / 32 ==> p == q,
{
    partial::lemma_is_probe(hash, bits.len() / 256, p);
    partial::lemma_is_probe(hash, bits.len() / 256, q);
}

/// The bytes that a filter is written as are accepted, and what is read from them, with the hash
/// function of the filter, is equal to the filter.
pub proof fn law_serialization_round_trip(
    written: BloomPartial,
    bytes: Seq<u8>,
    read: BloomPartial,
)
    requires
        written.wf(),
        bits::bytes_bits(bytes) == written@,
        partial::decode_error(bytes) is None ==> read@ == bits::bytes_bits(bytes)
            && read.spec_hash_fn() == written.spec_hash_fn(),
    ensures
        partial::decode_error(bytes) is None,
        bytes.len() / 32 == written.spec_len(),
        vstd::std_specs::cmp::PartialEqSpec::eq_spec(&read, &written),
{
    written.lemma_view_len();
    assert(bits::bytes_bits(bytes).len() == 8 * bytes.len());
}

/// Bytes that are accepted are the bytes that the filter read from them is written as: a filter
/// has one serialized form.
pub proof fn law_serialized_form_is_unique(read: BloomPartial, bytes: Seq<u8>, rewritten: Seq<u8>)
    requires
        read@ == bits::bytes_bits(bytes),
        read@ == bits::bytes_bits(rewritten),
    ensures
        rewritten == bytes,
{
    bits::lemma_bytes_bits_injective(rewritten, bytes);
}

/// An empty filter is written as zero bytes.
pub proof fn law_empty_filter_is_zero_bytes(blocks: nat, bytes: Seq<u8>, k: int)
    requires
        bits::bytes_bits(bytes) == bits::no_bits((256 * blocks) as nat),
        0 <= k < bytes.len(),
    ensures
        bytes.len() == 32 * blocks,
        bytes[k] == 0,
{
    assert(bits::bytes_bits(bytes).len() == 8 * bytes.len());
    assert forall|i: int| 0 <= i < 8 implies bits::byte_bit(bytes[k], i) == bits::byte_bit(0, i) by {
        let p = 8 * k + i;
        assert(p / 8 == k && p % 8 == i);
        assert(!bits::bytes_bits(bytes)[p]);
        let j = i as u8;
        assert((0u8 >> j) & 1 == 0) by (bit_vector);
    }
    bits::lemma_byte_ext(bytes[k], 0);
}

/// Stored options are read back with the block count that was written and with the default hash
/// function, whichever one the options had. So options with the default function are read back
/// as they were, and no others.
pub proof fn law_options_round_trip(written: BloomOptions, read: BloomOptions, metadata: Seq<u8>)
    requires
        written.wf(),
        metadata == le::le_bytes(written.spec_blocks() as nat, 4),
        read.spec_blocks() == le::le_value(metadata),
        read.spec_hash_fn() == HashFn::XxHash3_64,
    ensures
        aggregate::metadata_error(metadata) is None,
        read.spec_blocks() == written.spec_blocks(),
        read.spec_hash_fn() == HashFn::XxHash3_64,
        read == written <==> written.spec_hash_fn() == HashFn::XxHash3_64,
{
    le::lemma_le_bytes_len(written.spec_blocks() as nat, 4);
    reveal_with_fuel(le::capacity, 5);
    le::law_le_value_of_le_bytes(written.spec_blocks() as nat, 4);
    if written.spec_hash_fn() == HashFn::XxHash3_64 {
        options::lemma_options_ext(written, read);
    }
}

/// Metadata that is accepted is written again as it was.
pub proof fn law_metadata_round_trip(metadata: Seq<u8>)
    requires
        aggregate::metadata_error(metadata) is None,
    ensures
        0 < le::le_value(metadata) <= u32::MAX,
        le::le_bytes(le::le_value(metadata), 4) == metadata,
{
    reveal_with_fuel(le::capacity, 5);
    le::law_le_bytes_of_le_value(metadata);
}

/// Each hash function is found again by its identifier.
pub proof fn law_hash_fn_id_round_trip(hash_fn: HashFn)
    ensures
        <HashFn as vstd::std_specs::convert::TryFromSpec<u32>>::try_from_spec(hash_fn.spec_id())
            == Ok::<HashFn, BloomError>(hash_fn),
{
}

/// The hash of a scalar rests on its value alone. So a scalar of an extension type and its
/// storage scalar, which hold the same value, are the same to a filter.
pub proof fn law_hash_rests_on_the_value(hash_fn: HashFn, a: Scalar, b: Scalar)
    requires
        a.spec_value() == b.spec_value(),
    ensures
        scalar::scalar_hash(hash_fn, a) == scalar::scalar_hash(hash_fn, b),
{
}

/// Scalars that are not null can be hashed exactly where the filters support their type.
pub proof fn law_supported_types_are_hashed(hash_fn: HashFn, s: Scalar)
    requires
        s.wf(),
    ensures
        scalar::scalar_hash(hash_fn, s) is Ok <==> s.spec_value() is Some
            && dtype::spec_is_bloom_valid_dtype(s.spec_dtype()),
{
    s.lemma_wf();
}

/// The values of an array that are listed are the valid ones.
pub proof fn law_items_are_the_valid_values<T: ToBytes>(
    values: Seq<T>,
    validity: Mask,
    item: Seq<u8>,
)
    ensures
        canonical::valid_items(values, validity).contains(item) <==> exists|i: int|
            0 <= i < values.len() && validity.spec_is_valid(i)
                && #[trigger] values[i].spec_le_bytes() == item,
    decreases values.len(),
{
    let items = canonical::valid_items(values, validity);
    if values.len() > 0 {
        let n = values.len() - 1;
        let shorter = values.drop_last();
        let before = canonical::valid_items(shorter, validity);
        law_items_are_the_valid_values(shorter, validity, item);
        if items.contains(item) {
            let k = choose|k: int| 0 <= k < items.len() && items[k] == item;
            if validity.spec_is_valid(n) && k == before.len() {
                assert(values[n].spec_le_bytes() == item);
            } else {
                assert(before[k] == item);
                let i = choose|i: int|
                    0 <= i < shorter.len() && validity.spec_is_valid(i)
                        && #[trigger] shorter[i].spec_le_bytes() == item;
                assert(values[i].spec_le_bytes() == item);
            }
        }
        if exists|i: int|
            0 <= i < values.len() && validity.spec_is_valid(i)
                && #[trigger] values[i].spec_le_bytes() == item {
            let i = choose|i: int|
                0 <= i < values.len() && validity.spec_is_valid(i)
                    && #[trigger] values[i].spec_le_bytes() == item;
            if i == n {
                assert(items[before.len() as int] == item);
            } else {
                assert(shorter[i].spec_le_bytes() == item);
                let k = choose|k: int| 0 <= k < before.len() && before[k] == item;
                assert(items[k] == item);
            }
        }
    }
}

/// What stands at the places of nulls does not matter: arrays that agree on the valid values are
/// the same to a filter.
pub proof fn law_nulls_are_omitted<T: ToBytes>(a: Seq<T>, b: Seq<T>, validity: Mask)
    requires
        a.len() == b.len(),
        forall|i: int|
            0 <= i < a.len() && validity.spec_is_valid(i) ==> #[trigger] a[i].spec_le_bytes()
                == b[i].spec_le_bytes(),
    ensures
        canonical::valid_items(a, validity) == canonical::valid_items(b, validity),
    decreases a.len(),
{
    if a.len() > 0 {
        let n = a.len() - 1;
        assert forall|i: int| 0 <= i < n && validity.spec_is_valid(i) implies
            #[trigger] a.drop_last()[i].spec_le_bytes() == b.drop_last()[i].spec_le_bytes() by {
            assert(a[i].spec_le_bytes() == b[i].spec_le_bytes());
        }
        law_nulls_are_omitted(a.drop_last(), b.drop_last(), validity);
        if validity.spec_is_valid(n) {
            assert(a[n].spec_le_bytes() == b[n].spec_le_bytes());
        }
    }
}

/// Nothing is listed of an array of nulls, so it leaves every filter as it was.
pub proof fn law_all_null_changes_nothing<T: ToBytes>(
    bits: Seq<bool>,
    hash_fn: HashFn,
    values: Seq<T>,
    validity: Mask,
)
    requires
        forall|i: int| 0 <= i < values.len() ==> !#[trigger] validity.spec_is_valid(i),
    ensures
        canonical::valid_items(values, validity).len() == 0,
        partial::insert_all_bits(
            bits,
            partial::hashes_of(hash_fn, canonical::valid_items(values, validity)),
        ) == bits,
    decreases values.len(),
{
    if values.len() > 0 {
        law_all_null_changes_nothing(bits, hash_fn, values.drop_last(), validity);
    }
}

/// Each valid value of a batch is found in the filter that the batch was accumulated into,
/// whatever the filter held before.
pub proof fn law_accumulated_is_found(
    bits: Seq<bool>,
    hash_fn: HashFn,
    batch: Columnar,
    needle: Scalar,
    value: Seq<u8>,
)
    requires
        is_filter(bits),
        batch.error() is None,
        needle.spec_bytes() == Some(value),
        batch.items().contains(value),
    ensures
        scalar::scalar_hash(hash_fn, needle) matches Ok(hash) && partial::find_bits(
            partial::insert_all_bits(bits, partial::hashes_of(hash_fn, batch.items())),
            hash,
        ),
{
    let i = choose|i: int| 0 <= i < batch.items().len() && batch.items()[i] == value;
    law_no_false_negatives(bits, hash_fn, batch.items(), i);
}

/// Whether the number at `i` is the given one.
pub open spec fn primitive_at(values: PrimitiveValues, i: int, value: PValue) -> bool {
    match (values, value) {
        (PrimitiveValues::U8(s), PValue::U8(x)) => 0 <= i < s@.len() && s@[i] == x,
        (PrimitiveValues::U16(s), PValue::U16(x)) => 0 <= i < s@.len() && s@[i] == x,
        (PrimitiveValues::U32(s), PValue::U32(x)) => 0 <= i < s@.len() && s@[i] == x,
        (PrimitiveValues::U64(s), PValue::U64(x)) => 0 <= i < s@.len() && s@[i] == x,
        (PrimitiveValues::I8(s), PValue::I8(x)) => 0 <= i < s@.len() && s@[i] == x,
        (PrimitiveValues::I16(s), PValue::I16(x)) => 0 <= i < s@.len() && s@[i] == x,
        (PrimitiveValues::I32(s), PValue::I32(x)) => 0 <= i < s@.len() && s@[i] == x,
        (PrimitiveValues::I64(s), PValue::I64(x)) => 0 <= i < s@.len() && s@[i] == x,
        (PrimitiveValues::F16(s), PValue::F16(x)) => 0 <= i < s@.len() && s@[i] == x,
        (PrimitiveValues::F32(s), PValue::F32(x)) => 0 <= i < s@.len() && s@[i] == x,
        (PrimitiveValues::F64(s), PValue::F64(x)) => 0 <= i < s@.len() && s@[i] == x,
        _ => false,
    }
}

/// Whether the decimal at `i` is the given one, in the same width.
pub open spec fn decimal_at(values: DecimalValues, i: int, value: DecimalValue) -> bool {
    match (values, value) {
        (DecimalValues::I8(s), DecimalValue::I8(x)) => 0 <= i < s@.len() && s@[i] == x,
        (DecimalValues::I16(s), DecimalValue::I16(x)) => 0 <= i < s@.len() && s@[i] == x,
        (DecimalValues::I32(s), DecimalValue::I32(x)) => 0 <= i < s@.len() && s@[i] == x,
        (DecimalValues::I64(s), DecimalValue::I64(x)) => 0 <= i < s@.len() && s@[i] == x,
        (DecimalValues::I128(s), DecimalValue::I128(x)) => 0 <= i < s@.len() && s@[i] == x,
        (DecimalValues::I256(s), DecimalValue::I256(x)) => 0 <= i < s@.len() && s@[i] == x,
        _ => false,
    }
}

/// Whether the valid value at `i` of an array is the given one.
pub open spec fn array_holds(array: Canonical, i: int, value: ScalarValue) -> bool
    decreases array,
{
    match (array, value) {
        (Canonical::Bool(a), ScalarValue::Bool(v)) => a.validity.spec_is_valid(i) && 0 <= i
            < a.values@.len() && a.values@[i] == v,
        (Canonical::Primitive(a), ScalarValue::Primitive(v)) => a.validity.spec_is_valid(i)
            && primitive_at(a.values, i, v),
        (Canonical::Decimal(a), ScalarValue::Decimal(v)) => a.validity.spec_is_valid(i)
            && decimal_at(a.values, i, v),
        (Canonical::VarBinView(a), ScalarValue::Utf8(v)) => a.validity.spec_is_valid(i) && 0 <= i
            < a.values@.len() && a.values@[i]@ == vstd::utf8::encode_utf8(v@),
        (Canonical::VarBinView(a), ScalarValue::Binary(v)) => a.validity.spec_is_valid(i) && 0
            <= i < a.values@.len() && a.values@[i]@ == v@,
        (Canonical::Extension(storage), v) => array_holds(*storage, i, v),
        _ => false,
    }
}

/// Arrays and scalars agree on bytes: the bytes of a scalar are listed for each array that holds
/// its value.
pub proof fn law_arrays_and_scalars_agree(array: Canonical, i: int, value: ScalarValue)
    requires
        array_holds(array, i, value),
    ensures
        array.supported(),
        value.spec_bytes() matches Some(bytes) && array.items().contains(bytes),
    decreases array,
{
    match (array, value) {
        (Canonical::Bool(array), ScalarValue::Bool(x)) => {
            assert(array.values@[i].spec_le_bytes() == x.spec_le_bytes());
            law_items_are_the_valid_values(array.values@, array.validity, x.spec_le_bytes());
        },
        (Canonical::Primitive(array), ScalarValue::Primitive(v)) => {
            match (array.values, v) {
                (PrimitiveValues::U8(s), PValue::U8(x)) => {
                    assert(s@[i].spec_le_bytes() == x.spec_le_bytes());
                    law_items_are_the_valid_values(s@, array.validity, x.spec_le_bytes());
                },
                (PrimitiveValues::U16(s), PValue::U16(x)) => {
                    assert(s@[i].spec_le_bytes() == x.spec_le_bytes());
                    law_items_are_the_valid_values(s@, array.validity, x.spec_le_bytes());
                },
                (PrimitiveValues::U32(s), PValue::U32(x)) => {
                    assert(s@[i].spec_le_bytes() == x.spec_le_bytes());
                    law_items_are_the_valid_values(s@, array.validity, x.spec_le_bytes());
                },
                (PrimitiveValues::U64(s), PValue::U64(x)) => {
                    assert(s@[i].spec_le_bytes() == x.spec_le_bytes());
                    law_items_are_the_valid_values(s@, array.validity, x.spec_le_bytes());
                },
                (PrimitiveValues::I8(s), PValue::I8(x)) => {
                    assert(s@[i].spec_le_bytes() == x.spec_le_bytes());
                    law_items_are_the_valid_values(s@, array.validity, x.spec_le_bytes());
                },
                (PrimitiveValues::I16(s), PValue::I16(x)) => {
                    assert(s@[i].spec_le_bytes() == x.spec_le_bytes());
                    law_items_are_the_valid_values(s@, array.validity, x.spec_le_bytes());
                },
                (PrimitiveValues::I32(s), PValue::I32(x)) => {
                    assert(s@[i].spec_le_bytes() == x.spec_le_bytes());
                    law_items_are_the_valid_values(s@, array.validity, x.spec_le_bytes());
                },
                (PrimitiveValues::I64(s), PValue::I64(x)) => {
                    assert(s@[i].spec_le_bytes() == x.spec_le_bytes());
                    law_items_are_the_valid_values(s@, array.validity, x.spec_le_bytes());
                },
                (PrimitiveValues::F16(s), PValue::F16(x)) => {
                    assert(s@[i].spec_le_bytes() == x.spec_le_bytes());
                    law_items_are_the_valid_values(s@, array.validity, x.spec_le_bytes());
                },
                (PrimitiveValues::F32(s), PValue::F32(x)) => {
                    assert(s@[i].spec_le_bytes() == x.spec_le_bytes());
                    law_items_are_the_valid_values(s@, array.validity, x.spec_le_bytes());
                },
                (PrimitiveValues::F64(s), PValue::F64(x)) => {
                    assert(s@[i].spec_le_bytes() == x.spec_le_bytes());
                    law_items_are_the_valid_values(s@, array.validity, x.spec_le_bytes());
                },
                _ => {},
            }
        },
        (Canonical::Decimal(array), ScalarValue::Decimal(v)) => {
            match (array.values, v) {
                (DecimalValues::I8(s), DecimalValue::I8(x)) => {
                    assert(s@[i].spec_le_bytes() == x.spec_le_bytes());
                    law_items_are_the_valid_values(s@, array.validity, x.spec_le_bytes());
                },
                (DecimalValues::I16(s), DecimalValue::I16(x)) => {
                    assert(s@[i].spec_le_bytes() == x.spec_le_bytes());
                    law_items_are_the_valid_values(s@, array.validity, x.spec_le_bytes());
                },
                (DecimalValues::I32(s), DecimalValue::I32(x)) => {
                    assert(s@[i].spec_le_bytes() == x.spec_le_bytes());
                    law_items_are_the_valid_values(s@, array.validity, x.spec_le_bytes());
                },
                (DecimalValues::I64(s), DecimalValue::I64(x)) => {
                    assert(s@[i].spec_le_bytes() == x.spec_le_bytes());
                    law_items_are_the_valid_values(s@, array.validity, x.spec_le_bytes());
                },
                (DecimalValues::I128(s), DecimalValue::I128(x)) => {
                    assert(s@[i].spec_le_bytes() == x.spec_le_bytes());
                    law_items_are_the_valid_values(s@, array.validity, x.spec_le_bytes());
                },
                (DecimalValues::I256(s), DecimalValue::I256(x)) => {
                    assert(s@[i].spec_le_bytes() == x.spec_le_bytes());
                    law_items_are_the_valid_values(s@, array.validity, x.spec_le_bytes());
                },
                _ => {},
            }
        },
        (Canonical::VarBinView(array), _) => {
            let bytes = array.values@[i].spec_le_bytes();
            law_items_are_the_valid_values(array.values@, array.validity, bytes);
        },
        (Canonical::Extension(storage), v) => {
            law_arrays_and_scalars_agree(*storage, i, v);
        },
        _ => {},
    }
}

/// Whether two values are the same: of one type and width, with the same bits.
pub open spec fn same_value(a: ScalarValue, b: ScalarValue) -> bool {
    match (a, b) {
        (ScalarValue::Bool(x), ScalarValue::Bool(y)) => x == y,
        (ScalarValue::Primitive(x), ScalarValue::Primitive(y)) => x == y,
        (ScalarValue::Decimal(x), ScalarValue::Decimal(y)) => x == y,
        (ScalarValue::Utf8(x), ScalarValue::Utf8(y)) => x@ == y@,
        (ScalarValue::Binary(x), ScalarValue::Binary(y)) => x@ == y@,
        _ => false,
    }
}

/// Whether the valid value in a row of a batch is the given one.
pub open spec fn batch_holds(batch: Columnar, row: int, value: ScalarValue) -> bool {
    match batch {
        Columnar::Canonical(array) => array_holds(array, row, value),
        Columnar::Constant(constant) => 0 <= row < constant.len
            && match constant.scalar.spec_value() {
            Some(repeated) => same_value(repeated, value),
            None => false,
        },
    }
}

/// The bytes of a value are listed for each batch that holds it.
pub proof fn law_batches_and_scalars_agree(batch: Columnar, row: int, value: ScalarValue)
    requires
        batch_holds(batch, row, value),
    ensures
        batch.error() is None,
        value.spec_bytes() matches Some(bytes) && batch.items().contains(bytes),
{
    match batch {
        Columnar::Canonical(array) => {
            law_arrays_and_scalars_agree(array, row, value);
        },
        Columnar::Constant(constant) => {
            assert(constant.scalar.spec_bytes() == value.spec_bytes());
            assert(batch.items()[0] == value.spec_bytes()->Some_0);
        },
    }
}

/// The bits of a filter after batches were accumulated into it, one after the other. A batch that
/// is refused leaves them as they were.
pub open spec fn accumulate_all_bits(
    bits: Seq<bool>,
    hash_fn: HashFn,
    batches: Seq<Columnar>,
) -> Seq<bool>
    decreases batches.len(),
{
    if batches.len() == 0 {
        bits
    } else {
        let before = accumulate_all_bits(bits, hash_fn, batches.drop_last());
        match batches.last().error() {
            Some(_) => before,
            None => partial::insert_all_bits(
                before,
                partial::hashes_of(hash_fn, batches.last().items()),
            ),
        }
    }
}

/// Accumulation keeps the size of a filter.
pub proof fn lemma_accumulate_all_len(bits: Seq<bool>, hash_fn: HashFn, batches: Seq<Columnar>)
    ensures
        accumulate_all_bits(bits, hash_fn, batches).len() == bits.len(),
    decreases batches.len(),
{
    if batches.len() > 0 {
        let before = accumulate_all_bits(bits, hash_fn, batches.drop_last());
        lemma_accumulate_all_len(bits, hash_fn, batches.drop_last());
        lemma_insert_all_len(before, partial::hashes_of(hash_fn, batches.last().items()));
    }
}

/// A scalar whose value is in a row of any of some batches is found in the filter that they were
/// accumulated into, one after the other.
pub proof fn law_batch_value_is_found(
    bits: Seq<bool>,
    hash_fn: HashFn,
    batches: Seq<Columnar>,
    batch: int,
    row: int,
    needle: Scalar,
)
    requires
        is_filter(bits),
        0 <= batch < batches.len(),
        needle.spec_value() matches Some(value) && batch_holds(batches[batch], row, value),
    ensures
        scalar::scalar_hash(hash_fn, needle) matches Ok(hash) && partial::find_bits(
            accumulate_all_bits(bits, hash_fn, batches),
            hash,
        ),
    decreases batches.len(),
{
    let value = needle.spec_value()->Some_0;
    let earlier = batches.drop_last();
    let before = accumulate_all_bits(bits, hash_fn, earlier);
    lemma_accumulate_all_len(bits, hash_fn, earlier);
    law_batches_and_scalars_agree(batches[batch], row, value);
    if batch == batches.len() - 1 {
        law_accumulated_is_found(
            before,
            hash_fn,
            batches[batch],
            needle,
            value.spec_bytes()->Some_0,
        );
    } else {
        assert(earlier[batch] == batches[batch]);
        law_batch_value_is_found(bits, hash_fn, earlier, batch, row, needle);
        law_insert_all_keeps_found(
            before,
            partial::hashes_of(hash_fn, batches.last().items()),
            scalar::scalar_hash(hash_fn, needle)->Ok_0,
        );
    }
}

/// Batches may be accumulated into separate filters that are then combined: a bit is set after
/// all of them in a row exactly where it is set in one of the two filters.
pub proof fn law_batches_may_be_split(
    blocks: nat,
    hash_fn: HashFn,
    a: Seq<Columnar>,
    b: Seq<Columnar>,
    p: int,
)
    requires
        0 <= p < 256 * blocks,
    ensures
        ({
            let empty = bits::no_bits((256 * blocks) as nat);
            accumulate_all_bits(empty, hash_fn, a + b)[p] <==> accumulate_all_bits(
                empty,
                hash_fn,
                a,
            )[p] || accumulate_all_bits(empty, hash_fn, b)[p]
        }),
    decreases b.len(),
{
    let empty = bits::no_bits((256 * blocks) as nat);
    if b.len() == 0 {
        assert(a + b =~= a);
    } else {
        let earlier = b.drop_last();
        assert((a + b).drop_last() =~= a + earlier);
        assert((a + b).last() == b.last());
        law_batches_may_be_split(blocks, hash_fn, a, earlier, p);
        lemma_accumulate_all_len(empty, hash_fn, a + earlier);
        lemma_accumulate_all_len(empty, hash_fn, earlier);
        let hashes = partial::hashes_of(hash_fn, b.last().items());
        law_insert_all_sets_probes(accumulate_all_bits(empty, hash_fn, a + earlier), hashes, p);
        law_insert_all_sets_probes(accumulate_all_bits(empty, hash_fn, earlier), hashes, p);
    }
}

/// Filters that are equal answer alike for every value.
pub proof fn law_equal_filters_answer_alike(a: BloomPartial, b: BloomPartial, value: Seq<u8>)
    requires
        vstd::std_specs::cmp::PartialEqSpec::eq_spec(&a, &b),
    ensures
        a.spec_hash_fn() == b.spec_hash_fn(),
        partial::find_bits(a@, a.spec_hash_fn().spec_hash(value)) == partial::find_bits(
            b@,
            b.spec_hash_fn().spec_hash(value),
        ),
{
}

/// Which values a mask marks: all, none, or those whose mark is set.
pub proof fn law_masks(len: usize, marks: Vec<bool>, i: int)
    ensures
        Mask::AllTrue(len).spec_is_valid(i),
        !Mask::AllFalse(len).spec_is_valid(i),
        Mask::Values(marks).spec_is_valid(i) <==> 0 <= i < marks@.len() && marks@[i],
{
}

/// Masks that are the same mark the same values.
pub proof fn law_same_masks(a: Mask, b: Mask, i: int)
    ensures
        a.same_as(b) <==> match (a, b) {
            (Mask::AllTrue(m), Mask::AllTrue(n)) => m == n,
            (Mask::AllFalse(m), Mask::AllFalse(n)) => m == n,
            (Mask::Values(m), Mask::Values(n)) => m@ == n@,
            _ => false,
        },
        a.same_as(b) ==> a.spec_is_valid(i) == b.spec_is_valid(i),
{
}

/// The eight bits that a hash selects lie in the block whose number is the fraction, of 2^32,
/// that the upper half of the hash is, of the number of blocks. There is one in each lane, at the
/// place that the upper five bits of the product of the lower half and the lane's salt give.
pub proof fn law_probe_position(hash: u64, blocks: nat, lane: int)
    requires
        blocks >= 1,
        0 <= lane < 8,
    ensures
        ({
            let salts: Seq<int> = seq![
                0x47b6137b, 0x44974d91, 0x8824ad5b, 0xa2b7289d, 0x705495c7, 0x2df1424b, 0x9efc4947,
                0x5c6bfb31,
            ];
            let high = hash as int / 0x1_0000_0000;
            let low = hash as int % 0x1_0000_0000;
            let p = partial::probe(hash, blocks, lane);
            let product = (low * salts[lane]) % 0x1_0000_0000;
            &&& 0 <= p < 256 * blocks
            &&& (p / 256) * 0x1_0000_0000 <= high * blocks < (p / 256 + 1) * 0x1_0000_0000
            &&& (p % 256) / 32 == lane
            &&& (p % 32) * 0x800_0000 <= product < (p % 32 + 1) * 0x800_0000
        }),
{
    partial::lemma_probe_range(hash, blocks, lane);
    let salts: Seq<int> = seq![
        0x47b6137b, 0x44974d91, 0x8824ad5b, 0xa2b7289d, 0x705495c7, 0x2df1424b, 0x9efc4947,
        0x5c6bfb31,
    ];
    assert(partial::SALT@[0] == salts[0]);
    assert(partial::SALT@[1] == salts[1]);
    assert(partial::SALT@[2] == salts[2]);
    assert(partial::SALT@[3] == salts[3]);
    assert(partial::SALT@[4] == salts[4]);
    assert(partial::SALT@[5] == salts[5]);
    assert(partial::SALT@[6] == salts[6]);
    assert(partial::SALT@[7] == salts[7]);
    assert(partial::SALT@[lane] == salts[lane]);
}

/// A hash belongs to the block whose number is the fraction, of 2^32, that its upper half is, of
/// the number of blocks.
pub proof fn law_block_of_a_hash(hash: u64, blocks: nat)
    ensures
        ({
            let high = hash as int / 0x1_0000_0000;
            let block = partial::block_of(hash, blocks);
            block * 0x1_0000_0000 <= high * blocks < (block + 1) * 0x1_0000_0000
        }),
{
}

/// The bit that a hash selects in a lane is where all but the upper five bits of the product of
/// its lower half and the lane's salt are dropped.
pub proof fn law_bit_of_a_lane(hash: u64, blocks: nat, lane: int, low: int)
    requires
        blocks >= 1,
        0 <= lane < 8,
        low == hash as int % 0x1_0000_0000,
    ensures
        partial::lane_probe(low, lane) == partial::probe(hash, blocks, lane) % 32,
        0 <= partial::lane_probe(low, lane) < 32,
{
    partial::lemma_probe_range(hash, blocks, lane);
}

/// Insertion sets the eight bits that a hash selects and changes no other.
pub proof fn law_insert_sets_exactly(bits: Seq<bool>, hash: u64, p: int)
    requires
        0 <= p < bits.len(),
    ensures
        partial::insert_bits(bits, hash).len() == bits.len(),
        partial::insert_bits(bits, hash)[p] <==> bits[p] || exists|lane: int|
            0 <= lane < 8 && p == #[trigger] partial::probe(hash, bits.len() / 256, lane),
{
}

/// A hash is found exactly where all eight bits that it selects are set.
pub proof fn law_found_exactly(bits: Seq<bool>, hash: u64)
    ensures
        partial::find_bits(bits, hash) <==> forall|lane: int|
            0 <= lane < 8 ==> bits[#[trigger] partial::probe(hash, bits.len() / 256, lane)],
{
}

/// Nothing but the values that were inserted, or that select only bits of theirs, is found: each
/// bit of what is found was selected by one of them.
pub proof fn law_found_bits_were_inserted(
    blocks: nat,
    hash_fn: HashFn,
    items: Seq<Seq<u8>>,
    value: Seq<u8>,
    lane: int,
)
    requires
        blocks >= 1,
        0 <= lane < 8,
        partial::find_bits(filter_of(blocks, hash_fn, items), hash_fn.spec_hash(value)),
    ensures
        exists|i: int|
            0 <= i < items.len() && partial::probe(
                #[trigger] hash_fn.spec_hash(items[i]),
                blocks,
                lane,
            ) == partial::probe(hash_fn.spec_hash(value), blocks, lane),
{
    let empty = bits::no_bits((256 * blocks) as nat);
    let hashes = partial::hashes_of(hash_fn, items);
    let hash = hash_fn.spec_hash(value);
    let p = partial::probe(hash, blocks, lane);
    lemma_insert_all_len(empty, hashes);
    assert(empty.len() / 256 == blocks);
    partial::lemma_probe_range(hash, blocks, lane);
    assert(filter_of(blocks, hash_fn, items)[p]);
    law_insert_all_sets_probes(empty, hashes, p);
    let i = choose|i: int|
        0 <= i < hashes.len() && #[trigger] partial::is_probe(hashes[i], blocks, p);
    assert(hashes[i] == hash_fn.spec_hash(items[i]));
    let l = choose|l: int| 0 <= l < 8 && p == #[trigger] partial::probe(hashes[i], blocks, l);
    partial::lemma_probe_range(hashes[i], blocks, l);
}

/// The hashes of values are those of each in turn.
pub proof fn law_hashes_are_one_by_one(hash_fn: HashFn, items: Seq<Seq<u8>>, i: int)
    requires
        0 <= i < items.len(),
    ensures
        partial::hashes_of(hash_fn, items).len() == items.len(),
        partial::hashes_of(hash_fn, items)[i] == hash_fn.spec_hash(items[i]),
{
}

/// Bytes are a filter exactly where they fill whole blocks, at least one and no more than 32 bits
/// can count.
pub proof fn law_decodable_bytes(bytes: Seq<u8>)
    ensures
        partial::decode_error(bytes) is None <==> bytes.len() > 0 && bytes.len() % 32 == 0
            && bytes.len() <= 32 * u32::MAX,
        bytes.len() == 0 || bytes.len() % 32 != 0 ==> partial::decode_error(bytes) == Some(
            BloomError::InvalidByteLength { len: bytes.len() as usize },
        ),
        bytes.len() % 32 == 0 && bytes.len() > 32 * u32::MAX ==> partial::decode_error(bytes)
            == Some(BloomError::BlocksOutOfRange { blocks: (bytes.len() / 32) as usize }),
{
}

/// Bytes combine with a filter exactly where they are a filter of as many blocks.
pub proof fn law_combinable_bytes(blocks: nat, bytes: Seq<u8>)
    ensures
        1 <= blocks <= u32::MAX ==> (aggregate::combine_error(blocks, bytes) is None
            <==> bytes.len() == 32 * blocks),
        partial::decode_error(bytes) is Some ==> aggregate::combine_error(blocks, bytes)
            == partial::decode_error(bytes),
        partial::decode_error(bytes) is None && bytes.len() != 32 * blocks
            ==> aggregate::combine_error(blocks, bytes) == Some(
            BloomError::LengthMismatch {
                expected: blocks as usize,
                found: (bytes.len() / 32) as usize,
            },
        ),
{
}

/// Metadata is accepted exactly where it is four bytes that are not all zero.
pub proof fn law_accepted_metadata(metadata: Seq<u8>)
    ensures
        metadata.len() != 4 ==> aggregate::metadata_error(metadata) == Some(
            BloomError::MetadataLength { found: metadata.len() as usize },
        ),
        metadata == seq![0u8, 0u8, 0u8, 0u8] ==> aggregate::metadata_error(metadata) == Some(
            BloomError::ZeroBlocks,
        ),
        metadata.len() == 4 && metadata != seq![0u8, 0u8, 0u8, 0u8]
            ==> aggregate::metadata_error(metadata) is None,
{
    if metadata.len() == 4 {
        le::law_value_of_four_bytes(metadata);
        if le::le_value(metadata) == 0 {
            assert(metadata =~= seq![0u8, 0u8, 0u8, 0u8]);
        }
    }
}

/// The stored form of a filter has a type, a byte string that is never null, exactly for the
/// column types that filters support.
pub proof fn law_state_type(input: DType)
    ensures
        aggregate::state_dtype(input) is Some <==> dtype::spec_is_bloom_valid_dtype(input),
        aggregate::state_dtype(input) matches Some(state) ==> state == DType::Binary(
            Nullability::NonNullable,
        ),
{
}

/// The stored form of a filter is a byte string, of the type without null, of all bits of the
/// filter and 32 bytes for each block.
pub proof fn law_stored_form(s: Scalar, partial: BloomPartial)
    ensures
        aggregate::is_serialized(s, partial) <==> s.spec_dtype() == DType::Binary(
            Nullability::NonNullable,
        ) && (s.spec_value() matches Some(ScalarValue::Binary(bytes)) && bits::bytes_bits(bytes@)
            == partial@ && bytes@.len() == 32 * partial.spec_len()),
{
}

/// A scalar is hashed by its bytes. Null is refused as such, and values without bytes as
/// unsupported.
pub proof fn law_scalar_hash(hash_fn: HashFn, s: Scalar)
    ensures
        match s.spec_value() {
            None => scalar::scalar_hash(hash_fn, s) == Err::<u64, BloomError>(
                BloomError::NullScalar,
            ),
            Some(value) => match value.spec_bytes() {
                Some(bytes) => scalar::scalar_hash(hash_fn, s) == Ok::<u64, BloomError>(
                    hash_fn.spec_hash(bytes),
                ),
                None => scalar::scalar_hash(hash_fn, s) == Err::<u64, BloomError>(
                    BloomError::UnsupportedScalar,
                ),
            },
        },
{
}

/// Nested arrays are refused, alone or as the storage of an extension, and no others.
pub proof fn law_supported_arrays(array: Canonical)
    ensures
        match array {
            Canonical::Null(_)
            | Canonical::Bool(_)
            | Canonical::Primitive(_)
            | Canonical::Decimal(_)
            | Canonical::VarBinView(_) => array.supported(),
            Canonical::Extension(storage) => array.supported() <==> storage.supported(),
            _ => !array.supported(),
        },
{
}

/// A batch is refused where its array is, or where it repeats a value that has no bytes. A
/// repeated null is not refused.
pub proof fn law_refused_batches(batch: Columnar)
    ensures
        match batch {
            Columnar::Canonical(array) => batch.error() == if array.supported() {
                None::<BloomError>
            } else {
                Some(BloomError::UnsupportedCanonical)
            },
            Columnar::Constant(constant) => match constant.scalar.spec_value() {
                Some(value) => batch.error() == if value.spec_bytes() is Some {
                    None::<BloomError>
                } else {
                    Some(BloomError::UnsupportedScalar)
                },
                None => batch.error() is None,
            },
        },
{
}

/// Of a constant batch the bytes of the repeated value are listed, and nothing else. A repeated
/// null lists nothing.
pub proof fn law_items_of_constants(constant: ConstantArray, bytes: Seq<u8>)
    ensures
        Columnar::Constant(constant).items().contains(bytes) <==> (
        constant.scalar.spec_value() matches Some(value) && value.spec_bytes() == Some(bytes)),
{
    let items = Columnar::Constant(constant).items();
    if constant.scalar.spec_bytes() == Some(bytes) {
        assert(items[0] == bytes);
    }
}

/// What is listed of an array is what is listed of its own values under its own mask. Of an
/// extension array its storage is listed, and of an array of nulls nothing.
pub proof fn law_items_of_arrays(array: Canonical)
    ensures
        match array {
            Canonical::Bool(a) => array.items() == canonical::valid_items(a.values@, a.validity),
            Canonical::Primitive(a) => match a.values {
                PrimitiveValues::U8(v) => array.items() == canonical::valid_items(
                    v@,
                    a.validity,
                ),
                PrimitiveValues::U16(v) => array.items() == canonical::valid_items(
                    v@,
                    a.validity,
                ),
                PrimitiveValues::U32(v) => array.items() == canonical::valid_items(
                    v@,
                    a.validity,
                ),
                PrimitiveValues::U64(v) => array.items() == canonical::valid_items(
                    v@,
                    a.validity,
                ),
                PrimitiveValues::I8(v) => array.items() == canonical::valid_items(
                    v@,
                    a.validity,
                ),
                PrimitiveValues::I16(v) => array.items() == canonical::valid_items(
                    v@,
                    a.validity,
                ),
                PrimitiveValues::I32(v) => array.items() == canonical::valid_items(
                    v@,
                    a.validity,
                ),
                PrimitiveValues::I64(v) => array.items() == canonical::valid_items(
                    v@,
                    a.validity,
                ),
                PrimitiveValues::F16(v) => array.items() == canonical::valid_items(
                    v@,
                    a.validity,
                ),
                PrimitiveValues::F32(v) => array.items() == canonical::valid_items(
                    v@,
                    a.validity,
                ),
                PrimitiveValues::F64(v) => array.items() == canonical::valid_items(
                    v@,
                    a.validity,
                ),
            },
            Canonical::Decimal(a) => match a.values {
                DecimalValues::I8(v) => array.items() == canonical::valid_items(
                    v@,
                    a.validity,
                ),
                DecimalValues::I16(v) => array.items() == canonical::valid_items(
                    v@,
                    a.validity,
                ),
                DecimalValues::I32(v) => array.items() == canonical::valid_items(
                    v@,
                    a.validity,
                ),
                DecimalValues::I64(v) => array.items() == canonical::valid_items(
                    v@,
                    a.validity,
                ),
                DecimalValues::I128(v) => array.items() == canonical::valid_items(
                    v@,
                    a.validity,
                ),
                DecimalValues::I256(v) => array.items() == canonical::valid_items(
                    v@,
                    a.validity,
                ),
            },
            Canonical::VarBinView(a) => array.items() == canonical::valid_items(
                a.values@,
                a.validity,
            ),
            Canonical::Extension(storage) => array.items() == storage.items(),
            _ => array.items().len() == 0,
        },
{
}

/// A byte string is listed as all of its bytes.
pub proof fn law_bytes_of_byte_strings(value: Vec<u8>)
    ensures
        value.spec_le_bytes() == value@,
{
}

/// Nothing is listed of an array but the bytes of values that it holds in valid rows.
pub proof fn law_listed_bytes_are_held(array: Canonical, bytes: Seq<u8>)
    requires
        array.items().contains(bytes),
    ensures
        exists|i: int, value: ScalarValue| #[trigger]
            array_holds(array, i, value) && value.spec_bytes() == Some(bytes),
    decreases array,
{
    match array {
        Canonical::Bool(a) => {
            law_items_are_the_valid_values(a.values@, a.validity, bytes);
            let i = choose|i: int|
                0 <= i < a.values@.len() && a.validity.spec_is_valid(i)
                    && #[trigger] a.values@[i].spec_le_bytes() == bytes;
            let value = ScalarValue::Bool(a.values@[i]);
            assert(array_holds(array, i, value) && value.spec_bytes() == Some(bytes));
        },
        Canonical::Primitive(a) => {
            match a.values {
                PrimitiveValues::U8(s) => {
                    law_items_are_the_valid_values(s@, a.validity, bytes);
                    let i = choose|i: int|
                        0 <= i < s@.len() && a.validity.spec_is_valid(i)
                            && #[trigger] s@[i].spec_le_bytes() == bytes;
                    let value = ScalarValue::Primitive(PValue::U8(s@[i]));
                    assert(array_holds(array, i, value) && value.spec_bytes() == Some(bytes));
                },
                PrimitiveValues::U16(s) => {
                    law_items_are_the_valid_values(s@, a.validity, bytes);
                    let i = choose|i: int|
                        0 <= i < s@.len() && a.validity.spec_is_valid(i)
                            && #[trigger] s@[i].spec_le_bytes() == bytes;
                    let value = ScalarValue::Primitive(PValue::U16(s@[i]));
                    assert(array_holds(array, i, value) && value.spec_bytes() == Some(bytes));
                },
                PrimitiveValues::U32(s) => {
                    law_items_are_the_valid_values(s@, a.validity, bytes);
                    let i = choose|i: int|
                        0 <= i < s@.len() && a.validity.spec_is_valid(i)
                            && #[trigger] s@[i].spec_le_bytes() == bytes;
                    let value = ScalarValue::Primitive(PValue::U32(s@[i]));
                    assert(array_holds(array, i, value) && value.spec_bytes() == Some(bytes));
                },
                PrimitiveValues::U64(s) => {
                    law_items_are_the_valid_values(s@, a.validity, bytes);
                    let i = choose|i: int|
                        0 <= i < s@.len() && a.validity.spec_is_valid(i)
                            && #[trigger] s@[i].spec_le_bytes() == bytes;
                    let value = ScalarValue::Primitive(PValue::U64(s@[i]));
                    assert(array_holds(array, i, value) && value.spec_bytes() == Some(bytes));
                },
                PrimitiveValues::I8(s) => {
                    law_items_are_the_valid_values(s@, a.validity, bytes);
                    let i = choose|i: int|
                        0 <= i < s@.len() && a.validity.spec_is_valid(i)
                            && #[trigger] s@[i].spec_le_bytes() == bytes;
                    let value = ScalarValue::Primitive(PValue::I8(s@[i]));
                    assert(array_holds(array, i, value) && value.spec_bytes() == Some(bytes));
                },
                PrimitiveValues::I16(s) => {
                    law_items_are_the_valid_values(s@, a.validity, bytes);
                    let i = choose|i: int|
                        0 <= i < s@.len() && a.validity.spec_is_valid(i)
                            && #[trigger] s@[i].spec_le_bytes() == bytes;
                    let value = ScalarValue::Primitive(PValue::I16(s@[i]));
                    assert(array_holds(array, i, value) && value.spec_bytes() == Some(bytes));
                },
                PrimitiveValues::I32(s) => {
                    law_items_are_the_valid_values(s@, a.validity, bytes);
                    let i = choose|i: int|
                        0 <= i < s@.len() && a.validity.spec_is_valid(i)
                            && #[trigger] s@[i].spec_le_bytes() == bytes;
                    let value = ScalarValue::Primitive(PValue::I32(s@[i]));
                    assert(array_holds(array, i, value) && value.spec_bytes() == Some(bytes));
                },
                PrimitiveValues::I64(s) => {
                    law_items_are_the_valid_values(s@, a.validity, bytes);
                    let i = choose|i: int|
                        0 <= i < s@.len() && a.validity.spec_is_valid(i)
                            && #[trigger] s@[i].spec_le_bytes() == bytes;
                    let value = ScalarValue::Primitive(PValue::I64(s@[i]));
                    assert(array_holds(array, i, value) && value.spec_bytes() == Some(bytes));
                },
                PrimitiveValues::F16(s) => {
                    law_items_are_the_valid_values(s@, a.validity, bytes);
                    let i = choose|i: int|
                        0 <= i < s@.len() && a.validity.spec_is_valid(i)
                            && #[trigger] s@[i].spec_le_bytes() == bytes;
                    let value = ScalarValue::Primitive(PValue::F16(s@[i]));
                    assert(array_holds(array, i, value) && value.spec_bytes() == Some(bytes));
                },
                PrimitiveValues::F32(s) => {
                    law_items_are_the_valid_values(s@, a.validity, bytes);
                    let i = choose|i: int|
                        0 <= i < s@.len() && a.validity.spec_is_valid(i)
                            && #[trigger] s@[i].spec_le_bytes() == bytes;
                    let value = ScalarValue::Primitive(PValue::F32(s@[i]));
                    assert(array_holds(array, i, value) && value.spec_bytes() == Some(bytes));
                },
                PrimitiveValues::F64(s) => {
                    law_items_are_the_valid_values(s@, a.validity, bytes);
                    let i = choose|i: int|
                        0 <= i < s@.len() && a.validity.spec_is_valid(i)
                            && #[trigger] s@[i].spec_le_bytes() == bytes;
                    let value = ScalarValue::Primitive(PValue::F64(s@[i]));
                    assert(array_holds(array, i, value) && value.spec_bytes() == Some(bytes));
                },
            }
        },
        Canonical::Decimal(a) => {
            match a.values {
                DecimalValues::I8(s) => {
                    law_items_are_the_valid_values(s@, a.validity, bytes);
                    let i = choose|i: int|
                        0 <= i < s@.len() && a.validity.spec_is_valid(i)
                            && #[trigger] s@[i].spec_le_bytes() == bytes;
                    let value = ScalarValue::Decimal(DecimalValue::I8(s@[i]));
                    assert(array_holds(array, i, value) && value.spec_bytes() == Some(bytes));
                },
                DecimalValues::I16(s) => {
                    law_items_are_the_valid_values(s@, a.validity, bytes);
                    let i = choose|i: int|
                        0 <= i < s@.len() && a.validity.spec_is_valid(i)
                            && #[trigger] s@[i].spec_le_bytes() == bytes;
                    let value = ScalarValue::Decimal(DecimalValue::I16(s@[i]));
                    assert(array_holds(array, i, value) && value.spec_bytes() == Some(bytes));
                },
                DecimalValues::I32(s) => {
                    law_items_are_the_valid_values(s@, a.validity, bytes);
                    let i = choose|i: int|
                        0 <= i < s@.len() && a.validity.spec_is_valid(i)
                            && #[trigger] s@[i].spec_le_bytes() == bytes;
                    let value = ScalarValue::Decimal(DecimalValue::I32(s@[i]));
                    assert(array_holds(array, i, value) && value.spec_bytes() == Some(bytes));
                },
                DecimalValues::I64(s) => {
                    law_items_are_the_valid_values(s@, a.validity, bytes);
                    let i = choose|i: int|
                        0 <= i < s@.len() && a.validity.spec_is_valid(i)
                            && #[trigger] s@[i].spec_le_bytes() == bytes;
                    let value = ScalarValue::Decimal(DecimalValue::I64(s@[i]));
                    assert(array_holds(array, i, value) && value.spec_bytes() == Some(bytes));
                },
                DecimalValues::I128(s) => {
                    law_items_are_the_valid_values(s@, a.validity, bytes);
                    let i = choose|i: int|
                        0 <= i < s@.len() && a.validity.spec_is_valid(i)
                            && #[trigger] s@[i].spec_le_bytes() == bytes;
                    let value = ScalarValue::Decimal(DecimalValue::I128(s@[i]));
                    assert(array_holds(array, i, value) && value.spec_bytes() == Some(bytes));
                },
                DecimalValues::I256(s) => {
                    law_items_are_the_valid_values(s@, a.validity, bytes);
                    let i = choose|i: int|
                        0 <= i < s@.len() && a.validity.spec_is_valid(i)
                            && #[trigger] s@[i].spec_le_bytes() == bytes;
                    let value = ScalarValue::Decimal(DecimalValue::I256(s@[i]));
                    assert(array_holds(array, i, value) && value.spec_bytes() == Some(bytes));
                },
            }
        },
        Canonical::VarBinView(a) => {
            law_items_are_the_valid_values(a.values@, a.validity, bytes);
            let i = choose|i: int|
                0 <= i < a.values@.len() && a.validity.spec_is_valid(i)
                    && #[trigger] a.values@[i].spec_le_bytes() == bytes;
            let value = ScalarValue::Binary(a.values@[i]);
            assert(array_holds(array, i, value) && value.spec_bytes() == Some(bytes));
        },
        Canonical::Extension(storage) => {
            law_listed_bytes_are_held(*storage, bytes);
            let (i, value) = choose|i: int, value: ScalarValue| #[trigger]
                array_holds(*storage, i, value) && value.spec_bytes() == Some(bytes);
            assert(array_holds(array, i, value));
        },
        _ => {},
    }
}

/// Whether a batch puts the value with the given bytes into a filter.
pub open spec fn batch_has(batch: Columnar, bytes: Seq<u8>) -> bool {
    match batch {
        Columnar::Canonical(array) => exists|i: int, value: ScalarValue| #[trigger]
            array_holds(array, i, value) && value.spec_bytes() == Some(bytes),
        Columnar::Constant(constant) => constant.scalar.spec_value() matches Some(value)
            && value.spec_bytes() == Some(bytes),
    }
}

/// The items of a batch are the bytes of its valid values: each valid row is listed, and nothing
/// else.
pub proof fn law_items_are_the_valid_rows(batch: Columnar, bytes: Seq<u8>)
    ensures
        batch.items().contains(bytes) <==> batch_has(batch, bytes),
{
    match batch {
        Columnar::Canonical(array) => {
            if batch.items().contains(bytes) {
                law_listed_bytes_are_held(array, bytes);
            }
            if batch_has(batch, bytes) {
                let (i, value) = choose|i: int, value: ScalarValue| #[trigger]
                    array_holds(array, i, value) && value.spec_bytes() == Some(bytes);
                law_arrays_and_scalars_agree(array, i, value);
            }
        },
        Columnar::Constant(constant) => {
            law_items_of_constants(constant, bytes);
        },
    }
}

/// Accumulation sets exactly the bits that the valid values of the batch select: a bit is set
/// after it where it was set before, or where one of those values selects it.
pub proof fn law_accumulation_sets_exactly(
    bits: Seq<bool>,
    hash_fn: HashFn,
    batch: Columnar,
    p: int,
)
    requires
        0 <= p < bits.len(),
    ensures
        partial::insert_all_bits(bits, partial::hashes_of(hash_fn, batch.items()))[p] <==> bits[p]
            || exists|value: Seq<u8>, lane: int|
            batch_has(batch, value) && 0 <= lane < 8 && p == #[trigger] partial::probe(
                hash_fn.spec_hash(value),
                bits.len() / 256,
                lane,
            ),
{
    let items = batch.items();
    let hashes = partial::hashes_of(hash_fn, items);
    let n = bits.len() / 256;
    law_insert_all_sets_probes(bits, hashes, p);
    if exists|k: int| 0 <= k < hashes.len() && #[trigger] partial::is_probe(hashes[k], n, p) {
        let k = choose|k: int|
            0 <= k < hashes.len() && #[trigger] partial::is_probe(hashes[k], n, p);
        let lane = choose|lane: int|
            0 <= lane < 8 && p == #[trigger] partial::probe(hashes[k], n, lane);
        assert(items.contains(items[k]));
        law_items_are_the_valid_rows(batch, items[k]);
        assert(p == partial::probe(hash_fn.spec_hash(items[k]), n, lane));
    }
    if exists|value: Seq<u8>, lane: int|
        batch_has(batch, value) && 0 <= lane < 8 && p == #[trigger] partial::probe(
            hash_fn.spec_hash(value),
            n,
            lane,
        ) {
        let (value, lane) = choose|value: Seq<u8>, lane: int|
            batch_has(batch, value) && 0 <= lane < 8 && p == #[trigger] partial::probe(
                hash_fn.spec_hash(value),
                n,
                lane,
            );
        law_items_are_the_valid_rows(batch, value);
        let k = choose|k: int| 0 <= k < items.len() && items[k] == value;
        assert(hashes[k] == hash_fn.spec_hash(value));
        assert(partial::is_probe(hashes[k], n, p));
    }
}

/// A batch without a valid row leaves every filter as it was.
pub proof fn law_batch_of_nulls_changes_nothing(
    bits: Seq<bool>,
    hash_fn: HashFn,
    batch: Columnar,
)
    requires
        forall|value: Seq<u8>| !batch_has(batch, value),
    ensures
        batch.items().len() == 0,
        partial::insert_all_bits(bits, partial::hashes_of(hash_fn, batch.items())) == bits,
{
    if batch.items().len() > 0 {
        law_items_are_the_valid_rows(batch, batch.items()[0]);
    }
}

/// Filters are equal exactly where they hold the same bits under the same hash function.
pub proof fn law_equality(a: BloomPartial, b: BloomPartial)
    ensures
        vstd::std_specs::cmp::PartialEqSpec::eq_spec(&a, &b) <==> a@ == b@ && a.spec_hash_fn()
            == b.spec_hash_fn(),
{
}

} // verus!
