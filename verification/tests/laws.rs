//! The laws of the library on concrete values.

use vortex_bloom::bloom_filter::aggregate::{BloomFilter, Columnar};
use vortex_bloom::bloom_filter::canonical::{
    Canonical, Mask, PrimitiveArray, PrimitiveValues, VarBinViewArray,
};
use vortex_bloom::bloom_filter::options::BloomOptions;
use vortex_bloom::bloom_filter::partial::BloomPartial;
use vortex_bloom::bloom_i64::{bloom_contains, bloom_insert};
use vortex_bloom::dtype::{DType, Nullability};
use vortex_bloom::hash::HashFn;
use vortex_bloom::le::{read_u32, write_le};
use vortex_bloom::nonzero::NonZeroUsize;
use vortex_bloom::scalar::{PValue, Scalar};
use vortex_bloom::skip_index::bloom::BloomContains;
use vortex_bloom::text::append_decimal;

fn with(items: &[&[u8]]) -> BloomPartial {
    let options = BloomOptions::new(NonZeroUsize::new(3).unwrap());
    let mut partial = BloomPartial::from(&options);
    for item in items {
        partial.insert(item);
    }
    partial
}

fn union(mut a: BloomPartial, b: &BloomPartial) -> BloomPartial {
    a.combine_with_other(b);
    a
}

#[test]
fn union_is_associative_and_absorbs() {
    let a = || with(&[b"a"]);
    let b = || with(&[b"b"]);
    let c = || with(&[b"c"]);
    assert!(union(union(a(), &b()), &c()) == union(a(), &union(b(), &c())));
    assert!(union(a(), &a()) == a());
    assert!(union(a(), &with(&[])) == a());
    let full = BloomPartial::from(vec![[u32::MAX; 8]; 3]);
    assert!(union(a(), &full) == full);
    assert!(union(union(a(), &b()), &c()) == with(&[b"c", b"b", b"a", b"b"]));
}

#[test]
fn insertion_keeps_what_was_found() {
    let mut partial = with(&[b"first"]);
    for i in 0..200u32 {
        partial.insert(&i.to_le_bytes());
        assert!(partial.contains(b"first"));
        assert!(partial.contains(&i.to_le_bytes()));
    }
}

#[test]
fn saturated_filter_finds_everything() {
    let mut full = BloomPartial::from(vec![[u32::MAX; 8]; 3]);
    for i in 0..100u32 {
        assert!(full.contains(&i.to_le_bytes()));
        full.insert(&i.to_le_bytes());
    }
    assert!(full.is_saturated());
    let empty = with(&[]);
    for i in 0..100u32 {
        assert!(!empty.contains(&i.to_le_bytes()));
    }
}

#[test]
fn equal_filters_answer_alike() {
    let a = with(&[b"x", b"y"]);
    let b = BloomPartial::from_bytes(&a.to_bytes(), HashFn::XxHash3_64).unwrap();
    assert!(a == b);
    for i in 0..100u32 {
        assert_eq!(a.contains(&i.to_le_bytes()), b.contains(&i.to_le_bytes()));
    }
}

#[test]
fn batches_add_up() {
    let strings = |values: &[&str]| {
        Columnar::Canonical(Canonical::VarBinView(VarBinViewArray {
            values: values.iter().map(|v| v.as_bytes().to_vec()).collect(),
            validity: Mask::AllTrue(values.len()),
        }))
    };
    let mut in_two = with(&[]);
    BloomFilter
        .accumulate(&mut in_two, &strings(&["a", "b"]))
        .unwrap();
    BloomFilter
        .accumulate(&mut in_two, &strings(&["c"]))
        .unwrap();
    let mut in_one = with(&[]);
    BloomFilter
        .accumulate(&mut in_one, &strings(&["a", "b", "c"]))
        .unwrap();
    assert!(in_two == in_one);
}

#[test]
fn every_valid_row_is_found() {
    let options = BloomOptions::new(NonZeroUsize::new(4).unwrap());
    let values: Vec<i64> = (-40..40).map(|v| v * 1_000_003).collect();
    let marks: Vec<bool> = (0..80).map(|i| i % 3 != 0).collect();
    let array = Canonical::Extension(Box::new(Canonical::Primitive(PrimitiveArray {
        values: PrimitiveValues::I64(values.clone()),
        validity: Mask::Values(marks.clone()),
    })));
    let dtype = DType::Binary(Nullability::NonNullable);
    let mut partial = BloomFilter.empty_partial(&options, &dtype).unwrap();
    BloomFilter
        .accumulate(&mut partial, &Columnar::Canonical(array))
        .unwrap();
    let filters = VarBinViewArray {
        values: vec![partial.to_bytes()],
        validity: Mask::AllTrue(1),
    };
    for (value, valid) in values.into_iter().zip(marks) {
        if valid {
            let needle = Scalar::primitive(PValue::I64(value), Nullability::NonNullable);
            assert!(partial.contains_valid_scalar(&needle).unwrap());
            let answers = BloomContains
                .execute(&options, &filters, Some(&needle))
                .unwrap();
            assert_eq!(answers.values, vec![true]);
        }
    }
}

#[test]
fn i64_order_and_repetition_are_irrelevant() {
    let mut forward = [0u8; 32];
    let mut backward = [0u8; 32];
    for value in 0..10 {
        bloom_insert(&mut forward, value, 4);
    }
    for value in (0..10).rev() {
        bloom_insert(&mut backward, value, 4);
        bloom_insert(&mut backward, value, 4);
    }
    assert_eq!(forward, backward);
    assert!((0..10).all(|value| bloom_contains(&forward, value, 4)));
    assert!(!bloom_contains(&[0u8; 32], 3, 4));
    assert!(bloom_contains(&[0xffu8; 32], 3, 4));
}

#[test]
fn little_endian_round_trip() {
    for value in [0u32, 1, 255, 256, 0x0403_0201, u32::MAX] {
        let bytes = write_le(value as u128, 4);
        assert_eq!(bytes, value.to_le_bytes().to_vec());
        assert_eq!(read_u32(&bytes), value);
    }
    assert_eq!(write_le(0x1_02, 1), vec![2u8]);
}

#[test]
fn decimal_text_has_no_leading_zeros() {
    for (n, expected) in [(0, "n=0"), (9, "n=9"), (10, "n=10"), (1_048_576, "n=1048576")] {
        let mut s = String::from("n=");
        append_decimal(&mut s, n);
        assert_eq!(s, expected);
    }
}
