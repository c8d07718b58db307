//! The skip index: what is stored, how it is probed, and which predicates it falsifies.

use std::sync::Arc;

use vortex_bloom::bloom_filter::aggregate::{BloomFilter, Columnar};
use vortex_bloom::bloom_filter::canonical::{
    BoolArray, Canonical, Mask, PrimitiveArray, PrimitiveValues, VarBinViewArray,
};
use vortex_bloom::bloom_filter::constant::ConstantArray;
use vortex_bloom::bloom_filter::options::BloomOptions;
use vortex_bloom::dtype::{DType, Nullability, PType};
use vortex_bloom::error::BloomError;
use vortex_bloom::hash::HashFn;
use vortex_bloom::nonzero::NonZeroUsize;
use vortex_bloom::scalar::{PValue, Scalar, ScalarValue};
use vortex_bloom::skip_index::bloom::{BloomContains, BloomEqRewrite, BloomSkipIndex};
use vortex_bloom::skip_index::expr::{Expression, Operand, Operator, Side, StatsRewriteCtx};
use vortex_bloom::skip_index::{SkipIndex, SkipIndexRef, ZonedLayoutOptions};

fn i32_lit(value: i32) -> Expression {
    Expression::Literal(Scalar::primitive(
        PValue::I32(value),
        Nullability::NonNullable,
    ))
}

fn str_lit(value: &str) -> Expression {
    Expression::Literal(Scalar::utf8(value.to_string(), Nullability::NonNullable))
}

fn binary(op: Operator, left: Expression, right: Expression) -> Expression {
    Expression::Binary(op, Arc::new(left), Arc::new(right))
}

fn eq(left: Expression, right: Expression) -> Expression {
    binary(Operator::Eq, left, right)
}

fn falsify(index: &BloomSkipIndex, expr: &Expression, scope: &DType) -> Option<Expression> {
    let ctx = StatsRewriteCtx { scope };
    index.register().rewrite.falsify(expr, &ctx).unwrap()
}

/// The stored filter of one zone, as a column of one row.
fn build_zone(options: &BloomOptions, dtype: &DType, batch: Canonical) -> VarBinViewArray {
    let mut zone_filter = BloomFilter.empty_partial(options, dtype).unwrap();
    BloomFilter
        .accumulate(&mut zone_filter, &Columnar::Canonical(batch))
        .unwrap();
    let state = BloomFilter.to_scalar(&zone_filter).unwrap();
    let bytes = match state.value() {
        Some(ScalarValue::Binary(bytes)) => bytes.clone(),
        _ => panic!("bloom state is non-null"),
    };
    VarBinViewArray {
        values: vec![bytes],
        validity: Mask::Values(vec![true]),
    }
}

/// Which zones a falsifier proves to be free of matches.
fn prune(falsifier: Option<Expression>, filters: &VarBinViewArray) -> Vec<bool> {
    let Some(Expression::Not(contains)) = falsifier else {
        return vec![false; filters.values.len()];
    };
    let Expression::BloomContains(options, filter, needle) = &*contains else {
        panic!("the falsifier negates a probe");
    };
    let Expression::Stat(column, aggregate) = &**filter else {
        panic!("the probe reads a stored state");
    };
    assert!(matches!(**column, Expression::Root));
    assert_eq!(aggregate.options, *options);
    let Expression::Literal(needle) = &**needle else {
        panic!("the needle is a literal");
    };
    let answers = BloomContains.execute(options, filters, Some(needle)).unwrap();
    misses(&answers)
}

fn misses(answers: &BoolArray) -> Vec<bool> {
    answers
        .values
        .iter()
        .enumerate()
        .map(|(i, found)| answers.validity.is_valid(i) && !found)
        .collect()
}

#[test]
fn missing_stat_stays_inconclusive() {
    let index = BloomSkipIndex::new(BloomOptions::default());
    let dtype = DType::Primitive(PType::I64, Nullability::NonNullable);
    let predicate = eq(
        Expression::Root,
        Expression::Literal(Scalar::primitive(
            PValue::I64(42),
            Nullability::NonNullable,
        )),
    );
    let proof = falsify(&index, &predicate, &dtype);
    assert!(proof.is_some(), "equality has a bloom proof");

    let filters = VarBinViewArray {
        values: vec![Vec::new(), Vec::new()],
        validity: Mask::AllFalse(2),
    };
    assert_eq!(prune(proof, &filters), vec![false, false]);
}

fn i32_zone() -> (DType, VarBinViewArray) {
    let dtype = DType::Primitive(PType::I32, Nullability::Nullable);
    let batch = Canonical::Primitive(PrimitiveArray {
        values: PrimitiveValues::I32(vec![5i32, 6i32, 7i32]),
        validity: Mask::AllTrue(3),
    });
    let zone = build_zone(&BloomOptions::default(), &dtype, batch);
    (dtype, zone)
}

#[test]
fn test_zone_map_prunes_with_bloom_filter_i32() {
    let (dtype, zone) = i32_zone();
    let index = BloomSkipIndex::new(BloomOptions::default());
    let null = Expression::Literal(Scalar::null(DType::Primitive(
        PType::I32,
        Nullability::Nullable,
    )));
    for (expr, expected) in [
        (eq(Expression::Root, i32_lit(99)), [true]),
        (eq(Expression::Root, i32_lit(5)), [false]),
        (
            binary(Operator::Gte, Expression::Root, i32_lit(4)),
            [false],
        ),
        (binary(Operator::Gte, Expression::Root, null), [false]),
    ] {
        assert_eq!(prune(falsify(&index, &expr, &dtype), &zone), expected);
    }
}

#[test]
fn test_zone_map_prunes_with_bloom_filter_varbin() {
    let dtype = DType::Utf8(Nullability::NonNullable);
    let batch = Canonical::VarBinView(VarBinViewArray {
        values: vec![b"london".to_vec(), b"hamburg".to_vec(), b"newyork".to_vec()],
        validity: Mask::AllTrue(3),
    });
    let zone = build_zone(&BloomOptions::default(), &dtype, batch);
    let index = BloomSkipIndex::new(BloomOptions::default());
    for (expr, expected) in [
        (eq(Expression::Root, str_lit("zz")), [true]),
        (eq(Expression::Root, str_lit("london")), [false]),
    ] {
        assert_eq!(prune(falsify(&index, &expr, &dtype), &zone), expected);
    }
}

#[test]
fn literal_may_stand_on_either_side() {
    let (dtype, zone) = i32_zone();
    let index = BloomSkipIndex::default();
    for (value, expected) in [(99, [true]), (6, [false])] {
        let left = falsify(&index, &eq(i32_lit(value), Expression::Root), &dtype);
        assert!(left.is_some());
        assert_eq!(prune(left, &zone), expected);
    }
}

#[test]
fn other_predicates_have_no_falsifier() {
    let index = BloomSkipIndex::default();
    let dtype = DType::Primitive(PType::I32, Nullability::Nullable);
    for op in [
        Operator::NotEq,
        Operator::Gt,
        Operator::Gte,
        Operator::Lt,
        Operator::Lte,
        Operator::And,
        Operator::Or,
        Operator::Add,
        Operator::Sub,
        Operator::Mul,
        Operator::Div,
    ] {
        let expr = binary(op, Expression::Root, i32_lit(5));
        assert!(falsify(&index, &expr, &dtype).is_none());
    }
    for (left, right) in [
        (Expression::Root, Expression::Root),
        (i32_lit(1), i32_lit(1)),
        (Expression::Other, i32_lit(1)),
        (Expression::Root, Expression::Other),
        (Expression::Not(Arc::new(Expression::Root)), i32_lit(1)),
    ] {
        assert!(falsify(&index, &eq(left, right), &dtype).is_none());
    }
}

#[test]
fn null_and_unsupported_types_have_no_falsifier() {
    let index = BloomSkipIndex::default();
    let dtype = DType::Primitive(PType::I32, Nullability::Nullable);
    let null = Expression::Literal(Scalar::null(dtype.clone()));
    assert!(falsify(&index, &eq(Expression::Root, null), &dtype).is_none());
    let nested = DType::Struct(Nullability::NonNullable);
    assert!(falsify(&index, &eq(Expression::Root, i32_lit(1)), &nested).is_none());
    let extension = DType::Extension(Box::new(dtype));
    assert!(falsify(&index, &eq(Expression::Root, i32_lit(1)), &extension).is_some());
}

#[test]
fn index_supplies_its_aggregate() {
    let options = BloomOptions::new(NonZeroUsize::new(8).unwrap());
    let index = BloomSkipIndex::new(options);
    assert_eq!(*index.options(), options);
    let dtype = DType::Utf8(Nullability::Nullable);
    assert_eq!(index.aggregate_fn(&dtype).unwrap().options, options);
    assert!(index
        .aggregate_fn(&DType::List(Nullability::Nullable))
        .is_none());
    assert_eq!(index.register().rewrite.options, options);
    assert_eq!(
        *BloomSkipIndex::default().options(),
        BloomOptions::default()
    );

    let shared = SkipIndexRef::new(Arc::new(index)).clone();
    assert_eq!(shared.aggregate_fn(&dtype).unwrap().options, options);
    assert_eq!(shared.register().rewrite.options, options);
}

#[test]
fn skip_indexes_are_added_in_order() {
    let small = BloomOptions::new(NonZeroUsize::new(8).unwrap());
    let layout = ZonedLayoutOptions {
        skip_indexes: None,
        settings: "block size",
    };
    let layout = layout
        .with_skip_index(SkipIndexRef::new(Arc::new(BloomSkipIndex::new(small))))
        .with_skip_index(SkipIndexRef::new(Arc::new(BloomSkipIndex::default())));
    assert_eq!(layout.settings, "block size");
    let blocks: Vec<usize> = layout
        .skip_indexes
        .unwrap()
        .iter()
        .map(|index| index.register().rewrite.options.blocks().get())
        .collect();
    assert_eq!(blocks, vec![8, 256]);
}

#[test]
fn probe_function_describes_itself() {
    let options = BloomOptions::default();
    assert_eq!(BloomContains.id(), "vortex.bloom_contains.v1");
    assert_eq!(BloomContains.arity(&options), 2);
    assert_eq!(BloomContains.child_name(&options, 0), "filter");
    assert_eq!(BloomContains.child_name(&options, 1), "needle");
    assert!(!BloomContains.is_null_sensitive(&options));
    assert!(!BloomContains.is_fallible(&options));
    let metadata = BloomContains.serialize(&options).unwrap().unwrap();
    assert_eq!(metadata, vec![0u8, 1, 0, 0]);
    assert_eq!(BloomContains.deserialize(&metadata).unwrap(), options);
    assert_eq!(
        BloomContains.deserialize(&[0, 0, 0, 0]).unwrap_err(),
        BloomError::ZeroBlocks
    );
}

#[test]
fn probe_types_are_checked() {
    let options = BloomOptions::default();
    let plain = Nullability::NonNullable;
    let nullable = Nullability::Nullable;
    for (filter, needle, expected) in [
        (plain, plain, plain),
        (plain, nullable, nullable),
        (nullable, plain, nullable),
        (nullable, nullable, nullable),
    ] {
        let args = [DType::Binary(filter), DType::Utf8(needle)];
        match BloomContains.return_dtype(&options, &args) {
            Ok(DType::Bool(n)) => assert_eq!(n, expected),
            other => panic!("{other:?}"),
        }
    }
    assert_eq!(
        BloomContains
            .return_dtype(&options, &[DType::Utf8(plain), DType::Utf8(plain)])
            .unwrap_err(),
        BloomError::FilterNotBinary
    );
    assert_eq!(
        BloomContains
            .return_dtype(&options, &[DType::Binary(plain), DType::Null])
            .unwrap_err(),
        BloomError::UnsupportedNeedle
    );
}

#[test]
fn probe_answers_row_by_row() {
    let options = BloomOptions::new(NonZeroUsize::new(1).unwrap());
    let needle = Scalar::utf8("vortex".to_string(), Nullability::NonNullable);
    let dtype = DType::Utf8(Nullability::NonNullable);
    let held = build_zone(
        &options,
        &dtype,
        Canonical::VarBinView(VarBinViewArray {
            values: vec![b"vortex".to_vec()],
            validity: Mask::AllTrue(1),
        }),
    );
    let filters = VarBinViewArray {
        values: vec![
            held.values[0].clone(),
            vec![0u8; 32],
            vec![1u8; 5],
            vec![0xff; 32],
        ],
        validity: Mask::Values(vec![true, true, false, true]),
    };
    let answers = BloomContains
        .execute(&options, &filters, Some(&needle))
        .unwrap();
    assert_eq!(answers.values, vec![true, false, false, true]);
    assert_eq!(misses(&answers), vec![false, true, false, false]);

    let null = Scalar::null(DType::Utf8(Nullability::Nullable));
    let answers = BloomContains
        .execute(&options, &filters, Some(&null))
        .unwrap();
    assert_eq!(answers.values, vec![false; 4]);
}

#[test]
fn probe_errors() {
    let options = BloomOptions::new(NonZeroUsize::new(2).unwrap());
    let needle = Scalar::bool(true, Nullability::NonNullable);
    let column = |values: Vec<Vec<u8>>| VarBinViewArray {
        validity: Mask::AllTrue(values.len()),
        values,
    };
    let probe = |values| {
        BloomContains
            .execute(&options, &column(values), Some(&needle))
            .map(|answers| answers.values)
    };
    assert_eq!(
        BloomContains
            .execute(&options, &column(vec![]), None)
            .unwrap_err(),
        BloomError::NeedleNotConstant
    );
    assert_eq!(probe(vec![]), Ok(vec![]));
    assert_eq!(
        probe(vec![vec![0u8; 64], vec![0u8; 33], vec![]]),
        Err(BloomError::InvalidByteLength { len: 33 })
    );
    assert_eq!(
        probe(vec![vec![0u8; 32]]),
        Err(BloomError::LengthMismatch {
            expected: 2,
            found: 1
        })
    );
    let nested = Scalar::try_new(
        DType::List(Nullability::NonNullable),
        Some(ScalarValue::Nested),
    )
    .unwrap();
    assert_eq!(
        BloomContains
            .execute(&options, &column(vec![vec![0u8; 64]]), Some(&nested))
            .unwrap_err(),
        BloomError::UnsupportedScalar
    );
}

#[test]
fn zones_of_several_batches_prune_soundly() {
    let dtype = DType::Primitive(PType::I32, Nullability::NonNullable);
    let options = BloomOptions::new(NonZeroUsize::new(8).unwrap());
    let numbers = |values: Vec<i32>| {
        Columnar::Canonical(Canonical::Primitive(PrimitiveArray {
            validity: Mask::AllTrue(values.len()),
            values: PrimitiveValues::I32(values),
        }))
    };
    let constant = |scalar| Columnar::Constant(ConstantArray { scalar, len: 3 });
    let seven = Scalar::primitive(PValue::I32(7), Nullability::NonNullable);
    let mut zone = BloomFilter.empty_partial(&options, &dtype).unwrap();
    for batch in [numbers(vec![1, 2]), constant(seven), numbers(vec![3])] {
        BloomFilter.accumulate(&mut zone, &batch).unwrap();
    }
    let mut other = BloomFilter.empty_partial(&options, &dtype).unwrap();
    BloomFilter
        .accumulate(&mut other, &numbers(vec![40]))
        .unwrap();
    let state = BloomFilter.to_scalar(&other).unwrap();
    BloomFilter.combine_partials(&mut zone, state).unwrap();

    let filters = VarBinViewArray {
        values: vec![zone.to_bytes()],
        validity: Mask::AllTrue(1),
    };
    let index = BloomSkipIndex::new(options);
    for (value, expected) in [
        (1, [false]),
        (2, [false]),
        (3, [false]),
        (7, [false]),
        (40, [false]),
        (99, [true]),
    ] {
        let proof = falsify(&index, &eq(Expression::Root, i32_lit(value)), &dtype);
        assert_eq!(prune(proof, &filters), expected);
    }
}

#[test]
fn literal_side_is_known_before_the_literal() {
    let rewrite = BloomSkipIndex::default().register().rewrite;
    for (operator, left, right, expected) in [
        (Operator::Eq, Operand::Column, Operand::Literal, Some(Side::Right)),
        (Operator::Eq, Operand::Literal, Operand::Column, Some(Side::Left)),
        (Operator::Eq, Operand::Column, Operand::Column, None),
        (Operator::Eq, Operand::Literal, Operand::Literal, None),
        (Operator::Eq, Operand::Column, Operand::Other, None),
        (Operator::Gte, Operand::Column, Operand::Literal, None),
    ] {
        assert_eq!(rewrite.literal_side(operator, left, right), expected);
    }
    assert_eq!(Expression::Root.operand(), Operand::Column);
    assert_eq!(i32_lit(1).operand(), Operand::Literal);
    assert_eq!(Expression::Other.operand(), Operand::Other);
}

#[test]
fn every_hash_function_prunes_soundly() {
    let dtype = DType::Primitive(PType::I32, Nullability::NonNullable);
    for hash_fn in [HashFn::XxHash3_64, HashFn::XxHash64] {
        let options = BloomOptions::new(NonZeroUsize::new(8).unwrap()).with_hash_fn(hash_fn);
        let batch = Canonical::Primitive(PrimitiveArray {
            values: PrimitiveValues::I32((0..50).collect()),
            validity: Mask::AllTrue(50),
        });
        let zone = build_zone(&options, &dtype, batch);
        let rewrite = BloomEqRewrite { options };
        let ctx = StatsRewriteCtx { scope: &dtype };
        for value in 0..50 {
            let proof = rewrite
                .falsify(&eq(Expression::Root, i32_lit(value)), &ctx)
                .unwrap();
            assert_eq!(prune(proof, &zone), [false]);
        }
    }
}
