//! The split block filter: options, blocks, scalars, arrays and the aggregate.

use vortex_bloom::bloom_filter::aggregate::{BloomFilter, Columnar};
use vortex_bloom::bloom_filter::canonical::{
    accumulate_canonical, BoolArray, Canonical, DecimalArray, DecimalValues, Mask, PrimitiveArray,
    PrimitiveValues, VarBinViewArray,
};
use vortex_bloom::bloom_filter::constant::{accumulate_constant, ConstantArray};
use vortex_bloom::bloom_filter::options::{BloomOptions, DEFAULT_BLOCKS_COUNT};
use vortex_bloom::bloom_filter::partial::BloomPartial;
use vortex_bloom::dtype::{is_bloom_valid_dtype, DType, Nullability, PType};
use vortex_bloom::error::BloomError;
use vortex_bloom::hash::HashFn;
use vortex_bloom::le::{ToBytes, F16, F32, F64, I256};
use vortex_bloom::nonzero::{NonZeroU8, NonZeroUsize};
use vortex_bloom::scalar::{DecimalValue, PValue, Scalar, ScalarValue};

fn options(blocks: usize, hash_fn: HashFn) -> BloomOptions {
    BloomOptions::new(NonZeroUsize::new(blocks).expect("valid non-zero")).with_hash_fn(hash_fn)
}

fn empty(blocks: usize) -> BloomPartial {
    BloomPartial::from(&options(blocks, HashFn::XxHash3_64))
}

fn bytes_of(scalar: &Scalar) -> Vec<u8> {
    match scalar.value() {
        Some(ScalarValue::Binary(bytes)) => bytes.clone(),
        _ => panic!("bloom state is non-null"),
    }
}

fn setup() -> BloomOptions {
    let options = BloomOptions::default();
    let metadata = BloomFilter
        .serialize(&options)
        .unwrap()
        .expect("bloom is serializable");
    assert_eq!(BloomFilter.deserialize(&metadata).unwrap(), options);
    options
}

fn build_filter(batch: Canonical, dtype: DType) -> BloomPartial {
    let options = setup();
    let mut partial = BloomFilter.empty_partial(&options, &dtype).unwrap();
    BloomFilter
        .accumulate(&mut partial, &Columnar::Canonical(batch))
        .unwrap();
    let state = BloomFilter.finalize_scalar(&partial).unwrap();
    BloomPartial::try_from(bytes_of(&state).as_slice()).unwrap()
}

fn nullable_i32() -> DType {
    DType::Primitive(PType::I32, Nullability::Nullable)
}

#[test]
fn nulls_are_omitted() {
    let mut zone_partial = BloomFilter
        .empty_partial(&BloomOptions::default(), &nullable_i32())
        .unwrap();
    assert!(
        accumulate_constant(
            &ConstantArray {
                scalar: Scalar::null(nullable_i32()),
                len: 1
            },
            &mut zone_partial,
        )
        .is_ok(),
        "expected to return Ok() for null scalars"
    );
    assert!(zone_partial == BloomPartial::empty(&BloomOptions::default()));
}

#[test]
fn null_raises_error_on_hash() {
    let zone_partial = BloomFilter
        .empty_partial(&BloomOptions::default(), &nullable_i32())
        .unwrap();
    assert!(
        zone_partial
            .contains_valid_scalar(&Scalar::null(nullable_i32()))
            .is_err(),
        "expected to return Err() for null scalars"
    );
    assert_eq!(
        zone_partial.hash_valid_scalar(&Scalar::null(nullable_i32())),
        Err(BloomError::NullScalar)
    );
}

#[test]
fn valid_extension_is_a_member() {
    let stored = Scalar::primitive(PValue::I64(1_000i64), Nullability::NonNullable);
    let scalar = Scalar::extension(stored);
    let ext_dtype = scalar.dtype().clone();
    assert!(matches!(&ext_dtype, DType::Extension(_)));
    let mut zone_partial = BloomFilter
        .empty_partial(&BloomOptions::default(), &ext_dtype)
        .unwrap();

    let constant = ConstantArray { scalar, len: 1 };
    accumulate_constant(&constant, &mut zone_partial).unwrap();

    assert!(zone_partial
        .contains_valid_scalar(&constant.scalar)
        .unwrap());
    let storage = Scalar::primitive(PValue::I64(1_000i64), Nullability::NonNullable);
    assert!(zone_partial.contains_valid_scalar(&storage).unwrap());
}

#[test]
fn saturation_false_when_empty() {
    let options = BloomOptions::default();
    let partial = BloomFilter
        .empty_partial(&options, &DType::Binary(Nullability::NonNullable))
        .unwrap();
    assert!(!BloomFilter.is_saturated(&partial));
}

#[test]
fn saturation_true_when_every_block_is_full() {
    let blocks = vec![[u32::MAX; 8]; 4];
    let partial = BloomPartial::from(blocks);

    assert!(BloomFilter.is_saturated(&partial));
}

#[test]
fn combine_partials_rejects_mismatched_block_counts() {
    let mut smaller = BloomFilter
        .empty_partial(
            &BloomOptions::new(NonZeroUsize::new(4).unwrap()),
            &DType::Binary(Nullability::NonNullable),
        )
        .unwrap();
    let bigger = BloomFilter
        .empty_partial(
            &BloomOptions::default(),
            &DType::Binary(Nullability::NonNullable),
        )
        .unwrap();

    let bigger_scalar = BloomFilter.to_scalar(&bigger).unwrap();
    let result = BloomFilter.combine_partials(&mut smaller, bigger_scalar);

    assert!(
        result.is_err(),
        "combining partials built with different blocks_count must fail loudly, not corrupt state"
    );
    assert_eq!(
        result,
        Err(BloomError::LengthMismatch {
            expected: 4,
            found: 256
        })
    );
}

#[test]
fn combine_partials_unions_two_disjoint_partials() {
    let dtype = DType::Binary(Nullability::NonNullable);
    let mut partial = BloomFilter
        .empty_partial(&BloomOptions::default(), &dtype)
        .unwrap();
    for i in 0..50i64 {
        partial.insert(&i.to_le_bytes());
    }

    let mut secondary_partial = BloomFilter
        .empty_partial(&BloomOptions::default(), &dtype)
        .unwrap();
    for i in 50..100i64 {
        secondary_partial.insert(&i.to_le_bytes());
    }

    let mut expected = BloomFilter
        .empty_partial(&BloomOptions::default(), &dtype)
        .unwrap();
    for i in 0..100i64 {
        expected.insert(&i.to_le_bytes());
    }

    let secondary_partial_as_scalar = BloomFilter.to_scalar(&secondary_partial).unwrap();
    BloomFilter
        .combine_partials(&mut partial, secondary_partial_as_scalar)
        .unwrap();

    assert!(
        partial == expected,
        "merging via combine_partials should equal a single filter built from the union of inputs"
    );

    for i in 0..100i64 {
        assert!(
            partial.contains(&i.to_le_bytes()),
            "value {i} missing after merge"
        );
    }

    for i in 101..200i64 {
        assert!(
            !partial.contains(&i.to_le_bytes()),
            "value {i} shouldn't be present after"
        );
    }
}

#[test]
fn equality_includes_hash_function() {
    let xxhash3 = BloomPartial::from(&options(1, HashFn::XxHash3_64));
    let xxhash64 = BloomPartial::from(&options(1, HashFn::XxHash64));
    assert_eq!(xxhash3.to_bytes(), xxhash64.to_bytes());

    assert!(xxhash3 != xxhash64);
}

#[test]
fn bigger_filter_size() {
    // The filter contains only even numbers. Finding an odd number would be a valid false
    // positive, but for this fixed set of values there are none.
    let options = options(DEFAULT_BLOCKS_COUNT * 1000, HashFn::XxHash3_64);
    let mut bloom_filter = BloomPartial::from(&options);

    for i in 1..=1_000_000u64 {
        if i % 2 == 0 {
            bloom_filter.insert(&i.to_le_bytes());
        }
    }

    for i in 1..=1_000_000u64 {
        if i % 2 == 0 {
            assert!(
                bloom_filter.contains(&i.to_le_bytes()),
                "expected {i} to exist"
            );
        } else {
            assert!(
                !bloom_filter.contains(&i.to_le_bytes()),
                "unexpected false positive for odd number {i}"
            );
        }
    }
}

#[test]
fn valid_serde() {
    let mut bloom_filter = BloomPartial::from(&BloomOptions::default());
    bloom_filter.insert(&32i32.to_le_bytes());

    let bytes: Vec<u8> = (&bloom_filter).into();
    let valid_filter = BloomPartial::try_from(bytes.as_slice()).unwrap();

    assert!(
        valid_filter.contains(&32i32.to_le_bytes()),
        "expect filter to have value"
    );

    assert!(
        !valid_filter.contains(&14i32.to_le_bytes()),
        "expect filter to not have value"
    );
}

#[test]
fn invalid_serde() {
    let mut bloom_filter = BloomPartial::from(&BloomOptions::default());
    bloom_filter.insert(&32i32.to_le_bytes());

    let mut bytes: Vec<u8> = (&bloom_filter).into();
    bytes.pop();
    let invalid_filter = BloomPartial::try_from(bytes.as_slice());

    assert!(invalid_filter.is_err(), "expect filter to be invalid");

    let mut bytes: Vec<u8> = (&bloom_filter).into();
    bytes.push(0u8);
    let invalid_filter = BloomPartial::try_from(bytes.as_slice());

    assert!(invalid_filter.is_err(), "expect filter to be invalid");
}

#[test]
fn serialized_bits_are_stable() {
    let mut bloom_filter = BloomPartial::from(&options(1, HashFn::XxHash3_64));

    bloom_filter.insert(b"vortex");

    // There is one block, and this is the only value inserted, so the lanes equal its mask.
    let expected_lanes: [u32; 8] = [
        0x0000_1000,
        0x0200_0000,
        0x0000_2000,
        0x0800_0000,
        0x0200_0000,
        0x0000_0040,
        0x0000_4000,
        0x0000_1000,
    ];

    let expected_bytes: Vec<u8> = expected_lanes
        .into_iter()
        .flat_map(u32::to_le_bytes)
        .collect();

    let bytes: Vec<u8> = (&bloom_filter).into();
    assert_eq!(bytes, expected_bytes);
}

#[test]
fn hash_output_is_stable() {
    for (hash_fn, expected) in [
        (HashFn::XxHash3_64, 16649171463689419262u64),
        (HashFn::XxHash64, 631098470869724288u64),
    ] {
        let mut bloom_filter = BloomPartial::from(&options(256, hash_fn));
        assert_eq!(bloom_filter.hash(b"vortex"), expected);
        assert_eq!(hash_fn.hash_bytes(b"vortex"), expected);

        bloom_filter.insert(b"vortex");
        assert!(bloom_filter.contains(b"vortex"));
    }
}

fn check_membership(
    precision: u8,
    scale: i8,
    values: DecimalValues,
    present: Vec<DecimalValue>,
    absent: DecimalValue,
) {
    let dtype = DType::Decimal(precision, scale, Nullability::NonNullable);
    let len = present.len();
    let batch = Canonical::Decimal(DecimalArray {
        values,
        validity: Mask::AllTrue(len),
    });
    let bloom_filter = build_filter(batch, dtype);
    for v in present {
        let scalar = Scalar::decimal(v, precision, scale, Nullability::NonNullable);
        assert!(bloom_filter.contains_valid_scalar(&scalar).unwrap());
    }
    let absent = Scalar::decimal(absent, precision, scale, Nullability::NonNullable);
    assert!(!bloom_filter.contains_valid_scalar(&absent).unwrap());
}

#[test]
fn membership() {
    check_membership(
        3,
        0,
        DecimalValues::I8(vec![1i8, 2, 3]),
        [1i8, 2, 3].into_iter().map(DecimalValue::I8).collect(),
        DecimalValue::I8(99),
    );
    check_membership(
        5,
        1,
        DecimalValues::I16(vec![10i16, 20, 30]),
        [10i16, 20, 30].into_iter().map(DecimalValue::I16).collect(),
        DecimalValue::I16(99),
    );
    check_membership(
        9,
        2,
        DecimalValues::I32(vec![1000i32, 2000, 3000]),
        [1000i32, 2000, 3000]
            .into_iter()
            .map(DecimalValue::I32)
            .collect(),
        DecimalValue::I32(99999),
    );
    check_membership(
        18,
        2,
        DecimalValues::I64(vec![1000i64, 2000, 3000]),
        [1000i64, 2000, 3000]
            .into_iter()
            .map(DecimalValue::I64)
            .collect(),
        DecimalValue::I64(99999),
    );
    check_membership(
        10,
        2,
        DecimalValues::I128(vec![1000i128, 2000, 3000]),
        [1000i128, 2000, 3000]
            .into_iter()
            .map(DecimalValue::I128)
            .collect(),
        DecimalValue::I128(99999),
    );
    let wide = |low: u128| I256 { low, high: -1 };
    check_membership(
        60,
        2,
        DecimalValues::I256(vec![wide(1000), wide(2000)]),
        vec![
            DecimalValue::I256(wide(1000)),
            DecimalValue::I256(wide(2000)),
        ],
        DecimalValue::I256(I256 { low: 1000, high: 0 }),
    );
}

const PRESENT: [i8; 5] = [10i8, 20, 30, 40, 50];

fn decimals_with(validity: Mask) -> BloomPartial {
    build_filter(
        Canonical::Decimal(DecimalArray {
            values: DecimalValues::I8(PRESENT.to_vec()),
            validity,
        }),
        DType::Decimal(3, 0, Nullability::Nullable),
    )
}

fn holds_decimal(filter: &BloomPartial, value: i8) -> bool {
    let scalar = Scalar::decimal(DecimalValue::I8(value), 3, 0, Nullability::Nullable);
    filter.contains_valid_scalar(&scalar).unwrap()
}

#[test]
fn validity_all_true() {
    let bloom_filter = decimals_with(Mask::AllTrue(5));
    for v in PRESENT {
        assert!(holds_decimal(&bloom_filter, v));
    }
}

#[test]
fn validity_all_false() {
    let bloom_filter = decimals_with(Mask::AllFalse(5));
    for v in PRESENT {
        assert!(!holds_decimal(&bloom_filter, v));
    }
}

#[test]
fn validity_mixed() {
    let bloom_filter = decimals_with(Mask::Values(vec![true, false, true, false, true]));
    for (i, v) in PRESENT.into_iter().enumerate() {
        assert_eq!(holds_decimal(&bloom_filter, v), i % 2 == 0);
    }
}

#[test]
fn options_defaults_and_display() {
    let default = BloomOptions::default();
    assert_eq!(default.blocks().get(), 256);
    assert_eq!(default.hash_fn(), HashFn::XxHash3_64);
    assert_eq!(default.display(), "blocks=256");
    assert_eq!(options(1_048_576, HashFn::XxHash64).display(), "blocks=1048576");
    assert_eq!(options(9, HashFn::XxHash64).hash_fn(), HashFn::XxHash64);
    assert!(NonZeroUsize::new(0).is_none());
    assert!(NonZeroU8::new(0).is_none());
    assert_eq!(BloomFilter.id(), "vortex.bloom_filter.v1");
}

#[test]
fn metadata_layout_is_stable() {
    let written = options(0x0403_0201, HashFn::XxHash3_64);
    let metadata = BloomFilter.serialize(&written).unwrap().unwrap();
    assert_eq!(metadata, vec![1u8, 2, 3, 4]);
    assert_eq!(BloomFilter.deserialize(&metadata).unwrap(), written);
    // The hash function is not part of the metadata.
    let other = options(0x0403_0201, HashFn::XxHash64);
    assert_eq!(BloomFilter.serialize(&other).unwrap().unwrap(), metadata);
    let read = BloomFilter.deserialize(&metadata).unwrap();
    assert_eq!(read.blocks(), other.blocks());
    assert_eq!(read.hash_fn(), HashFn::XxHash3_64);
    assert_eq!(read.with_hash_fn(HashFn::XxHash64), other);
}

#[test]
fn block_counts_span_32_bits() {
    for blocks in [1, u32::MAX as usize] {
        let written = options(blocks, HashFn::XxHash3_64);
        assert_eq!(written.blocks().get(), blocks);
        let metadata = BloomFilter.serialize(&written).unwrap().unwrap();
        assert_eq!(metadata, (blocks as u32).to_le_bytes().to_vec());
        assert_eq!(BloomFilter.deserialize(&metadata).unwrap(), written);
    }
}

#[test]
fn metadata_is_rejected() {
    assert_eq!(
        BloomFilter.deserialize(&[1, 0, 0]).unwrap_err(),
        BloomError::MetadataLength { found: 3 }
    );
    assert_eq!(
        BloomFilter.deserialize(&[1, 0, 0, 0, 0]).unwrap_err(),
        BloomError::MetadataLength { found: 5 }
    );
    assert_eq!(
        BloomFilter.deserialize(&[0, 0, 0, 0]).unwrap_err(),
        BloomError::ZeroBlocks
    );
}

#[test]
fn hash_functions_are_found_by_identifier() {
    for hash_fn in [HashFn::XxHash3_64, HashFn::XxHash64] {
        assert_eq!(HashFn::try_from(hash_fn.id()), Ok(hash_fn));
    }
    assert_eq!(HashFn::XxHash3_64.id(), 0);
    assert_eq!(HashFn::XxHash64.id(), 1);
    assert_eq!(
        HashFn::try_from(2),
        Err(BloomError::UnknownHashFn { id: 2 })
    );
    assert_eq!(HashFn::XxHash3_64.name(), "xxhash3_64");
    assert_eq!(HashFn::XxHash64.name(), "xxhash64");
}

#[test]
fn supported_types() {
    let n = Nullability::Nullable;
    for dtype in [
        DType::Bool(n),
        DType::Primitive(PType::F16, n),
        DType::Decimal(3, 0, n),
        DType::Utf8(n),
        DType::Binary(n),
        DType::Extension(Box::new(DType::Extension(Box::new(DType::Utf8(n))))),
    ] {
        assert!(is_bloom_valid_dtype(&dtype));
        assert!(matches!(
            BloomFilter.return_dtype(&BloomOptions::default(), &dtype),
            Some(DType::Binary(Nullability::NonNullable))
        ));
    }
    for dtype in [
        DType::Null,
        DType::List(n),
        DType::FixedSizeList(n),
        DType::Mapping(n),
        DType::Struct(n),
        DType::Union(n),
        DType::Variant(n),
        DType::Extension(Box::new(DType::Struct(n))),
    ] {
        assert!(!is_bloom_valid_dtype(&dtype));
        assert!(BloomFilter
            .partial_dtype(&BloomOptions::default(), &dtype)
            .is_none());
    }
}

#[test]
fn probes_follow_the_hash() {
    let partial = empty(10);
    let hash: u64 = 0x8000_0000_dead_beef;
    assert_eq!(partial.lower_hash_bits(hash), 0xdead_beef);
    // Half of the range of the upper bits falls on the middle block.
    assert_eq!(partial.block_index(hash, 10), 5);
    assert_eq!(partial.block_index(0, 10), 0);
    assert_eq!(partial.block_index(u64::MAX, 10), 9);
    assert_eq!(partial.block_index(u64::MAX, u32::MAX as usize), 4294967294);
    assert_eq!(partial.make_mask(0), [1u32; 8]);
    let salts: [u32; 8] = [
        0x47b6137b, 0x44974d91, 0x8824ad5b, 0xa2b7289d, 0x705495c7, 0x2df1424b, 0x9efc4947,
        0x5c6bfb31,
    ];
    let mask = partial.make_mask(0xdead_beef);
    for (lane, salt) in mask.into_iter().zip(salts) {
        assert_eq!(lane, 1 << (0xdead_beefu32.wrapping_mul(salt) >> 27));
    }
}

#[test]
fn hashes_stay_in_their_block() {
    let mut partial = empty(10);
    let hash: u64 = 0x8000_0000_dead_beef;
    assert!(!partial.find_hash(hash));
    partial.insert_hash(hash);
    assert!(partial.find_hash(hash));
    let once = partial.to_bytes();
    partial.add_hash(hash);
    assert_eq!(partial.to_bytes(), once);
    let mask = partial.make_mask(0xdead_beef);
    let expected: Vec<u8> = mask.into_iter().flat_map(u32::to_le_bytes).collect();
    assert_eq!(&once[160..192], expected.as_slice());
    assert!(once[..160].iter().chain(&once[192..]).all(|b| *b == 0));
}

#[test]
fn merge_adds_serialized_bits() {
    let mut a = empty(4);
    let mut b = empty(4);
    a.insert(b"a");
    b.insert(b"b");
    let b_bytes = b.to_bytes();
    a.merge(&b_bytes).unwrap();
    let mut both = empty(4);
    both.insert(b"b");
    both.insert(b"a");
    assert!(a == both);
    // Once merged, merging again or merging nothing changes nothing.
    a.merge(&b_bytes).unwrap();
    a.merge(&[0u8; 128]).unwrap();
    assert!(a == both);
    assert_eq!(
        a.merge(&b_bytes[..127]),
        Err(BloomError::BytesMismatch {
            blocks: 4,
            len: 127
        })
    );
    assert!(a == both);
}

#[test]
fn union_is_the_same_in_either_order() {
    let mut a = empty(4);
    let mut b = empty(4);
    a.insert(b"a");
    b.insert(b"b");
    let mut ab = BloomPartial::from_bytes(&a.to_bytes(), HashFn::XxHash3_64).unwrap();
    ab.combine_with_other(&b);
    b.combine_with_other(&a);
    assert!(ab == b);
}

#[test]
fn combine_partials_checks_what_it_is_given() {
    let mut partial = empty(2);
    let null = Scalar::null(DType::Binary(Nullability::Nullable));
    assert_eq!(BloomFilter.combine_partials(&mut partial, null), Ok(()));
    let ragged = Scalar::binary(vec![1u8; 63], Nullability::NonNullable);
    assert_eq!(
        BloomFilter.combine_partials(&mut partial, ragged),
        Err(BloomError::InvalidByteLength { len: 63 })
    );
    let nothing = Scalar::binary(Vec::new(), Nullability::NonNullable);
    assert_eq!(
        BloomFilter.combine_partials(&mut partial, nothing),
        Err(BloomError::InvalidByteLength { len: 0 })
    );
    assert!(partial == empty(2));
}

#[test]
fn reset_gives_an_empty_filter() {
    let mut partial = BloomPartial::from(vec![[u32::MAX; 8], [7; 8]]);
    assert_eq!(partial.len(), 2);
    assert!(!partial.is_saturated());
    BloomFilter.reset(&mut partial);
    assert!(partial == empty(2));
    assert!(!partial.contains(b"anything"));
    assert_eq!(partial.to_bytes(), vec![0u8; 64]);
}

#[test]
fn serialized_form_is_little_endian() {
    let mut block = [0u32; 8];
    block[0] = 0x0403_0201;
    block[7] = 0x8000_0000;
    let bytes = BloomPartial::from(vec![block]).to_bytes();
    assert_eq!(bytes[..4], [1, 2, 3, 4]);
    assert_eq!(bytes[28..], [0, 0, 0, 0x80]);
    let read = BloomPartial::from_bytes(&bytes, HashFn::XxHash64).unwrap();
    assert_eq!(read.to_bytes(), bytes);
    assert!(read != BloomPartial::from(vec![block]));
}

#[test]
fn insertion_order_is_irrelevant() {
    let mut forward = empty(3);
    let mut backward = empty(3);
    for i in 0..20u32 {
        forward.insert_primitive(&i);
        backward.insert_primitive(&(19 - i));
        backward.insert_primitive(&(19 - i));
    }
    assert!(forward == backward);
}

#[test]
fn scalars_hash_by_their_bytes() {
    let partial = empty(4);
    let n = Nullability::NonNullable;
    let cases: Vec<(Scalar, Vec<u8>)> = vec![
        (Scalar::bool(true, n), vec![1]),
        (Scalar::bool(false, n), vec![0]),
        (Scalar::primitive(PValue::U8(200), n), vec![200]),
        (Scalar::primitive(PValue::U16(0x0201), n), vec![1, 2]),
        (
            Scalar::primitive(PValue::U32(0x0403_0201), n),
            vec![1, 2, 3, 4],
        ),
        (
            Scalar::primitive(PValue::U64(u64::MAX - 1), n),
            (u64::MAX - 1).to_le_bytes().to_vec(),
        ),
        (Scalar::primitive(PValue::I8(-2), n), vec![0xfe]),
        (Scalar::primitive(PValue::I16(-2), n), vec![0xfe, 0xff]),
        (
            Scalar::primitive(PValue::I32(54), n),
            54i32.to_le_bytes().to_vec(),
        ),
        (
            Scalar::primitive(PValue::I32(i32::MIN), n),
            i32::MIN.to_le_bytes().to_vec(),
        ),
        (
            Scalar::primitive(PValue::I64(-3), n),
            (-3i64).to_le_bytes().to_vec(),
        ),
        (
            Scalar::primitive(PValue::F16(F16 { bits: 0x3c00 }), n),
            vec![0, 0x3c],
        ),
        (
            Scalar::primitive(PValue::F32(F32 { bits: 1.5f32.to_bits() }), n),
            1.5f32.to_le_bytes().to_vec(),
        ),
        (
            Scalar::primitive(PValue::F64(F64 { bits: (-2.25f64).to_bits() }), n),
            (-2.25f64).to_le_bytes().to_vec(),
        ),
        (
            Scalar::decimal(DecimalValue::I128(-5), 20, 2, n),
            (-5i128).to_le_bytes().to_vec(),
        ),
        (
            Scalar::decimal(DecimalValue::I128(i128::MIN), 20, 2, n),
            i128::MIN.to_le_bytes().to_vec(),
        ),
        (
            Scalar::decimal(DecimalValue::I256(I256 { low: 1, high: -1 }), 60, 2, n),
            [1u128.to_le_bytes(), [0xff; 16]].concat(),
        ),
        (
            Scalar::utf8("h\u{e9}".to_string(), n),
            vec![b'h', 0xc3, 0xa9],
        ),
        (Scalar::binary(vec![9, 8], n), vec![9, 8]),
    ];
    for (scalar, bytes) in cases {
        assert_eq!(
            partial.hash_valid_scalar(&scalar),
            Ok(partial.hash(&bytes)),
            "{scalar:?}"
        );
    }
    let nested = Scalar::try_new(DType::Struct(n), Some(ScalarValue::Nested)).unwrap();
    assert_eq!(
        partial.hash_valid_scalar(&nested),
        Err(BloomError::UnsupportedScalar)
    );
}

#[test]
fn scalar_insertion_is_byte_insertion() {
    let mut by_scalar = empty(4);
    let mut by_bytes = empty(4);
    let scalar = Scalar::utf8("london".to_string(), Nullability::NonNullable);
    by_scalar.insert_valid_scalar(&scalar).unwrap();
    by_bytes.insert(b"london");
    assert!(by_scalar == by_bytes);
    assert_eq!(
        by_scalar.insert_valid_scalar(&Scalar::null(nullable_i32())),
        Err(BloomError::NullScalar)
    );
    assert!(by_scalar == by_bytes);
}

#[test]
fn scalars_hold_values_of_their_type() {
    let n = Nullability::NonNullable;
    assert!(Scalar::try_new(DType::Bool(n), None).is_none());
    assert!(Scalar::try_new(DType::Bool(n), Some(ScalarValue::Bool(true))).is_some());
    assert!(Scalar::try_new(DType::Utf8(n), Some(ScalarValue::Bool(true))).is_none());
    assert!(Scalar::try_new(
        DType::Primitive(PType::I32, n),
        Some(ScalarValue::Primitive(PValue::I64(1)))
    )
    .is_none());
    let null = Scalar::try_new(DType::Null, None).unwrap();
    assert!(null.is_null() && !null.is_valid());
}

#[test]
fn bytes_of_numbers_are_little_endian() {
    assert_eq!(ToBytes::to_le_bytes(&0x0807_0605_0403_0201u64), vec![1u8, 2, 3, 4, 5, 6, 7, 8]);
    assert_eq!(ToBytes::to_le_bytes(&-1i8), vec![0xffu8]);
    assert_eq!(ToBytes::to_le_bytes(&i16::MIN), vec![0u8, 0x80]);
    assert_eq!(ToBytes::to_le_bytes(&true), vec![1u8]);
}

#[test]
fn arrays_of_every_kind_are_accumulated() {
    let mut partial = empty(16);
    let all = |len| Mask::AllTrue(len);
    let numbers = |values| {
        Canonical::Primitive(PrimitiveArray {
            values,
            validity: Mask::AllTrue(1),
        })
    };
    for array in [
        Canonical::Bool(BoolArray {
            values: vec![true],
            validity: all(1),
        }),
        numbers(PrimitiveValues::U8(vec![11])),
        numbers(PrimitiveValues::U16(vec![12])),
        numbers(PrimitiveValues::U32(vec![13])),
        numbers(PrimitiveValues::U64(vec![14])),
        numbers(PrimitiveValues::I8(vec![-15])),
        numbers(PrimitiveValues::I16(vec![-16])),
        numbers(PrimitiveValues::I32(vec![-17])),
        numbers(PrimitiveValues::I64(vec![-18])),
        numbers(PrimitiveValues::F16(vec![F16 { bits: 19 }])),
        numbers(PrimitiveValues::F32(vec![F32 { bits: 20 }])),
        numbers(PrimitiveValues::F64(vec![F64 { bits: 21 }])),
        Canonical::VarBinView(VarBinViewArray {
            values: vec![b"london".to_vec()],
            validity: all(1),
        }),
        Canonical::Extension(Box::new(numbers(PrimitiveValues::I64(vec![22])))),
        Canonical::Null(5),
    ] {
        assert_eq!(accumulate_canonical(&array, &mut partial), Ok(()));
    }
    let mut expected = empty(16);
    expected.insert(&[1]);
    expected.insert(&11u8.to_le_bytes());
    expected.insert(&12u16.to_le_bytes());
    expected.insert(&13u32.to_le_bytes());
    expected.insert(&14u64.to_le_bytes());
    expected.insert(&(-15i8).to_le_bytes());
    expected.insert(&(-16i16).to_le_bytes());
    expected.insert(&(-17i32).to_le_bytes());
    expected.insert(&(-18i64).to_le_bytes());
    expected.insert(&19u16.to_le_bytes());
    expected.insert(&20u32.to_le_bytes());
    expected.insert(&21u64.to_le_bytes());
    expected.insert(b"london");
    expected.insert(&22i64.to_le_bytes());
    assert!(partial == expected);
}

#[test]
fn unsupported_arrays_are_refused() {
    for array in [
        Canonical::Struct,
        Canonical::List,
        Canonical::FixedSizeList,
        Canonical::Variant,
        Canonical::Union,
        Canonical::Mapping,
        Canonical::Extension(Box::new(Canonical::Struct)),
    ] {
        let mut partial = empty(2);
        assert_eq!(
            BloomFilter.accumulate(&mut partial, &Columnar::Canonical(array)),
            Err(BloomError::UnsupportedCanonical)
        );
        assert!(partial == empty(2));
    }
    let mut partial = empty(2);
    let nested = Scalar::try_new(
        DType::List(Nullability::NonNullable),
        Some(ScalarValue::Nested),
    )
    .unwrap();
    assert_eq!(
        BloomFilter.accumulate(
            &mut partial,
            &Columnar::Constant(ConstantArray {
                scalar: nested,
                len: 3
            })
        ),
        Err(BloomError::UnsupportedScalar)
    );
    assert!(partial == empty(2));
}

#[test]
fn values_at_nulls_do_not_matter() {
    let strings = |hidden: &[u8]| {
        Canonical::VarBinView(VarBinViewArray {
            values: vec![b"a".to_vec(), hidden.to_vec(), b"b".to_vec()],
            validity: Mask::Values(vec![true, false, true]),
        })
    };
    let mut one = empty(4);
    let mut other = empty(4);
    accumulate_canonical(&strings(b"x"), &mut one).unwrap();
    accumulate_canonical(&strings(b"yyy"), &mut other).unwrap();
    assert!(one == other);
    assert!(one.contains(b"a") && one.contains(b"b"));
    assert!(!one.contains(b"x") && !one.contains(b"yyy"));
}

#[test]
fn constants_match_arrays() {
    let mut by_constant = empty(4);
    let constant = Columnar::Constant(ConstantArray {
        scalar: Scalar::primitive(PValue::I32(5), Nullability::NonNullable),
        len: 1000,
    });
    BloomFilter.accumulate(&mut by_constant, &constant).unwrap();
    let mut by_array = empty(4);
    let array = Columnar::Canonical(Canonical::Primitive(PrimitiveArray {
        values: PrimitiveValues::I32(vec![5, 5]),
        validity: Mask::AllTrue(2),
    }));
    BloomFilter.accumulate(&mut by_array, &array).unwrap();
    assert!(by_constant == by_array);
}

#[test]
fn stored_states_are_final() {
    assert_eq!(BloomFilter.finalize("states").unwrap(), "states");
    let partial = empty(1);
    let state = BloomFilter.finalize_scalar(&partial).unwrap();
    assert!(matches!(
        state.dtype(),
        DType::Binary(Nullability::NonNullable)
    ));
    assert_eq!(bytes_of(&state), vec![0u8; 32]);
    let bound = BloomFilter.bind(BloomOptions::default());
    assert_eq!(bound.options, BloomOptions::default());
}
