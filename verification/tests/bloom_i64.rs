//! The classic filter over 64-bit signed integers.

use vortex_bloom::bloom_filter::aggregate::Columnar;
use vortex_bloom::bloom_filter::canonical::{
    Canonical, Mask, PrimitiveArray, PrimitiveValues,
};
use vortex_bloom::bloom_filter::constant::ConstantArray;
use vortex_bloom::bloom_i64::{
    bloom_contains, bloom_contains_hash, bloom_insert, bloom_insert_hash, bloom_positions,
    i64_value, splitmix64, BloomFilter, BloomOptions, BloomPartial,
};
use vortex_bloom::dtype::{DType, Nullability, PType};
use vortex_bloom::error::BloomError;
use vortex_bloom::nonzero::{NonZeroU8, NonZeroUsize};
use vortex_bloom::scalar::{PValue, Scalar, ScalarValue};

fn small_options() -> BloomOptions {
    BloomOptions::new(
        NonZeroUsize::new(64).expect("64 is non-zero"),
        NonZeroU8::new(3).expect("3 is non-zero"),
    )
}

fn i64_dtype() -> DType {
    DType::Primitive(PType::I64, Nullability::NonNullable)
}

fn i64_batch(values: Vec<i64>, validity: Mask) -> Columnar {
    Columnar::Canonical(Canonical::Primitive(PrimitiveArray {
        values: PrimitiveValues::I64(values),
        validity,
    }))
}

fn constant(scalar: Scalar) -> Columnar {
    Columnar::Constant(ConstantArray { scalar, len: 4 })
}

fn state_bytes(partial: &BloomPartial) -> Vec<u8> {
    match BloomFilter.to_scalar(partial).unwrap().value() {
        Some(ScalarValue::Binary(bytes)) => bytes.clone(),
        _ => panic!("bloom state is non-null"),
    }
}

fn filter_of(options: &BloomOptions, values: Vec<i64>) -> BloomPartial {
    let mut partial = BloomFilter.empty_partial(options, &i64_dtype()).unwrap();
    let len = values.len();
    BloomFilter
        .accumulate(&mut partial, &i64_batch(values, Mask::AllTrue(len)))
        .unwrap();
    partial
}

#[test]
fn roundtrips_options_and_membership() {
    let options = small_options();
    let metadata = BloomFilter
        .serialize(&options)
        .unwrap()
        .expect("bloom is serializable");
    assert_eq!(BloomFilter.deserialize(&metadata).unwrap(), options);

    let partial = filter_of(&options, vec![10i64, 20, 30]);
    let bytes = state_bytes(&partial);
    assert!(bloom_contains(bytes.as_slice(), 10, options.hashes().get()));
    assert!(bloom_contains(bytes.as_slice(), 20, options.hashes().get()));
    assert!(!bloom_contains(bytes.as_slice(), 999, options.hashes().get()));
}

#[test]
fn i64_options_defaults_and_display() {
    let options = BloomOptions::default();
    assert_eq!(options.bytes().get(), 8192);
    assert_eq!(options.hashes().get(), 5);
    assert_eq!(options.display(), "bytes=8192,hashes=5");
    assert_eq!(small_options().display(), "bytes=64,hashes=3");
    assert_eq!(BloomFilter.id(), "vortex.bloom_filter.i64.v1");
}

#[test]
fn i64_metadata_layout_is_stable() {
    let options = BloomOptions::new(
        NonZeroUsize::new(0x0403_0201).unwrap(),
        NonZeroU8::new(9).unwrap(),
    );
    assert_eq!(
        BloomFilter.serialize(&options).unwrap().unwrap(),
        vec![1u8, 2, 3, 4, 9]
    );
    assert_eq!(BloomFilter.deserialize(&[1, 2, 3, 4, 9]).unwrap(), options);
}

#[test]
fn i64_metadata_is_rejected() {
    assert_eq!(
        BloomFilter.deserialize(&[1, 0, 0, 0]).unwrap_err(),
        BloomError::MetadataLength { found: 4 }
    );
    assert_eq!(
        BloomFilter.deserialize(&[]).unwrap_err(),
        BloomError::MetadataLength { found: 0 }
    );
    assert_eq!(
        BloomFilter.deserialize(&[0, 0, 0, 0, 1]).unwrap_err(),
        BloomError::ZeroBytes
    );
    assert_eq!(
        BloomFilter.deserialize(&[1, 0, 0, 0, 0]).unwrap_err(),
        BloomError::ZeroHashes
    );
    assert_eq!(
        BloomFilter.deserialize(&[0, 0, 0, 0, 0]).unwrap_err(),
        BloomError::ZeroBytes
    );
    let large = BloomOptions::new(
        NonZeroUsize::new(0x1_0000_0000).unwrap(),
        NonZeroU8::new(1).unwrap(),
    );
    assert_eq!(
        BloomFilter.serialize(&large).unwrap_err(),
        BloomError::SizeTooLarge { size: 0x1_0000_0000 }
    );
}

#[test]
fn only_i64_columns_have_a_filter() {
    let options = small_options();
    for nullability in [Nullability::NonNullable, Nullability::Nullable] {
        assert!(matches!(
            BloomFilter.return_dtype(&options, &DType::Primitive(PType::I64, nullability)),
            Some(DType::Binary(Nullability::NonNullable))
        ));
        assert!(matches!(
            BloomFilter.partial_dtype(&options, &DType::Primitive(PType::I64, nullability)),
            Some(DType::Binary(Nullability::NonNullable))
        ));
        assert!(BloomFilter
            .return_dtype(&options, &DType::Primitive(PType::I32, nullability))
            .is_none());
    }
    assert!(BloomFilter
        .return_dtype(&options, &DType::Extension(Box::new(i64_dtype())))
        .is_none());
    assert!(BloomFilter
        .partial_dtype(&options, &DType::Utf8(Nullability::Nullable))
        .is_none());
}

#[test]
fn splitmix64_is_stable() {
    // The first outputs of the SplitMix64 generator with seed zero.
    assert_eq!(splitmix64(0), 0xe220_a839_7b1d_cdaf);
    assert_eq!(splitmix64(0x9e37_79b9_7f4a_7c15), 0x6e78_9e6a_a1b9_65f4);
}

#[test]
fn positions_follow_double_hashing() {
    let hash: u64 = 0xfedc_ba98_7654_3210;
    let step = splitmix64(hash ^ 0x1319_8a2e_0370_7344) | 1;
    let positions = bloom_positions(hash, 5, 4);
    assert_eq!(positions.len(), 4);
    for (k, (byte, bit)) in positions.into_iter().enumerate() {
        let at = hash.wrapping_add((k as u64).wrapping_mul(step)) % 40;
        assert_eq!((byte, bit), ((at / 8) as usize, (at % 8) as u32));
    }
    assert!(bloom_positions(hash, 0, 0).is_empty());
}

#[test]
fn hash_probes_are_set_and_found() {
    let mut bits = [0u8; 16];
    assert!(!bloom_contains_hash(&bits, 77, 5));
    bloom_insert_hash(&mut bits, 77, 5);
    assert!(bloom_contains_hash(&bits, 77, 5));
    let mut expected = [0u8; 16];
    for (byte, bit) in bloom_positions(77, 16, 5) {
        expected[byte] |= 1 << bit;
    }
    assert_eq!(bits, expected);
    let before = bits;
    bloom_insert_hash(&mut bits, 78, 0);
    assert_eq!(bits, before);
}

#[test]
fn i64_values_of_every_sign_are_found() {
    let mut bits = vec![0u8; 256];
    let values = [0i64, 1, -1, i64::MAX, i64::MIN, 1 << 40, -(1 << 40)];
    for value in values {
        bloom_insert(&mut bits, value, 5);
    }
    for value in values {
        assert!(bloom_contains(&bits, value, 5));
    }
    assert!(!bloom_contains(&bits, 12345, 5));
}

#[test]
fn i64_scalars_are_read() {
    let nullable = DType::Primitive(PType::I64, Nullability::Nullable);
    assert_eq!(i64_value(&Scalar::null(nullable)), Ok(None));
    assert_eq!(
        i64_value(&Scalar::primitive(PValue::I64(-7), Nullability::NonNullable)),
        Ok(Some(-7))
    );
    assert_eq!(
        i64_value(&Scalar::bool(true, Nullability::NonNullable)),
        Err(BloomError::NotI64)
    );
    let stored = Scalar::primitive(PValue::I64(1), Nullability::NonNullable);
    assert_eq!(
        i64_value(&Scalar::extension(stored)),
        Err(BloomError::NotI64)
    );
    assert_eq!(
        i64_value(&Scalar::null(DType::Utf8(Nullability::Nullable))),
        Ok(None)
    );
}

#[test]
fn i64_nulls_are_skipped() {
    let options = small_options();
    let mut partial = BloomFilter.empty_partial(&options, &i64_dtype()).unwrap();
    let batch = i64_batch(vec![1, 2, 3], Mask::Values(vec![true, false, true]));
    BloomFilter.accumulate(&mut partial, &batch).unwrap();
    let bytes = state_bytes(&partial);
    assert_eq!(bytes, state_bytes(&filter_of(&options, vec![1, 3])));
    assert!(!bloom_contains(&bytes, 2, 3));

    BloomFilter
        .accumulate(&mut partial, &i64_batch(vec![8, 9], Mask::AllFalse(2)))
        .unwrap();
    BloomFilter
        .accumulate(
            &mut partial,
            &constant(Scalar::null(DType::Primitive(
                PType::I64,
                Nullability::Nullable,
            ))),
        )
        .unwrap();
    assert_eq!(state_bytes(&partial), bytes);
}

#[test]
fn i64_constants_are_accumulated() {
    let options = small_options();
    let mut partial = BloomFilter.empty_partial(&options, &i64_dtype()).unwrap();
    let batch = constant(Scalar::primitive(PValue::I64(10), Nullability::NonNullable));
    BloomFilter.accumulate(&mut partial, &batch).unwrap();
    assert_eq!(
        state_bytes(&partial),
        state_bytes(&filter_of(&options, vec![10]))
    );
    let refused = constant(Scalar::utf8("ten".to_string(), Nullability::NonNullable));
    assert_eq!(
        BloomFilter.accumulate(&mut partial, &refused),
        Err(BloomError::NotI64)
    );
    assert_eq!(
        state_bytes(&partial),
        state_bytes(&filter_of(&options, vec![10]))
    );
}

#[test]
fn i64_partials_combine_to_the_union() {
    let options = small_options();
    let mut partial = filter_of(&options, vec![10, 20]);
    let other = filter_of(&options, vec![30, 40]);
    let state = BloomFilter.finalize_scalar(&other).unwrap();
    assert!(matches!(
        state.dtype(),
        DType::Binary(Nullability::NonNullable)
    ));
    BloomFilter.combine_partials(&mut partial, state).unwrap();
    let expected = filter_of(&options, vec![40, 10, 30, 20, 10]);
    assert_eq!(state_bytes(&partial), state_bytes(&expected));

    let null = Scalar::null(DType::Binary(Nullability::Nullable));
    BloomFilter.combine_partials(&mut partial, null).unwrap();
    assert_eq!(state_bytes(&partial), state_bytes(&expected));

    let short = Scalar::binary(vec![0xff; 63], Nullability::NonNullable);
    assert_eq!(
        BloomFilter.combine_partials(&mut partial, short),
        Err(BloomError::LengthMismatch {
            expected: 64,
            found: 63
        })
    );
    assert_eq!(state_bytes(&partial), state_bytes(&expected));
}

#[test]
fn i64_saturation_and_reset() {
    let options = small_options();
    let mut partial = filter_of(&options, vec![1, 2, 3]);
    assert!(!BloomFilter.is_saturated(&partial));
    let full = Scalar::binary(vec![0xff; 64], Nullability::NonNullable);
    BloomFilter.combine_partials(&mut partial, full).unwrap();
    assert!(BloomFilter.is_saturated(&partial));
    assert!(bloom_contains(&state_bytes(&partial), 999, 3));
    BloomFilter.reset(&mut partial);
    assert!(!BloomFilter.is_saturated(&partial));
    assert_eq!(state_bytes(&partial), vec![0u8; 64]);
}

#[test]
fn i64_stored_states_are_final() {
    assert_eq!(BloomFilter.finalize(vec![1u8, 2]).unwrap(), vec![1u8, 2]);
}

#[test]
fn masks_mark_valid_values() {
    assert!(Mask::AllTrue(1).is_valid(0));
    assert!(!Mask::AllFalse(1).is_valid(0));
    let some = Mask::Values(vec![true, false]);
    assert!(some.is_valid(0) && !some.is_valid(1) && !some.is_valid(2));
}
