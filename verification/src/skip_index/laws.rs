//! What holds of the Bloom skip index as a whole: it prunes no zone that holds a match.

use std::sync::Arc;

use vstd::prelude::*;

use crate::bits;
use crate::bloom_filter::aggregate;
use crate::bloom_filter::aggregate::{AggregateFnRef, Columnar};
use crate::bloom_filter::canonical::{BoolArray, Mask, VarBinViewArray};
use crate::bloom_filter::laws as filter_laws;
use crate::bloom_filter::options::BloomOptions;
use crate::bloom_filter::partial;
use crate::bloom_filter::scalar;
use crate::dtype;
use crate::dtype::DType;
use crate::error::BloomError;
use crate::scalar::{Scalar, ScalarValue};

use super::bloom;
use super::bloom::{BloomEqRewrite, BloomSkipIndex};
use super::expr::{Expression, Operator, Side};
use super::SkipIndex;

verus! {

/// Whether a probe proves that zone `i` does not hold the value that was looked for: its answer
/// is not null, and it is `false`.
pub open spec fn is_miss(answers: Seq<bool>, validity: Mask, i: int) -> bool {
    validity.spec_is_valid(i) && !answers[i]
}

/// A probe that succeeds answers for each filter, by that filter alone.
pub proof fn law_answers_are_row_by_row(
    options: BloomOptions,
    filters: Seq<Vec<u8>>,
    validity: Mask,
    needle: Scalar,
    answers: Seq<bool>,
    i: int,
)
    requires
        bloom::probe_rows(options, filters, validity, needle) == Ok::<Seq<bool>, BloomError>(
            answers,
        ),
        0 <= i < filters.len(),
    ensures
        answers.len() == filters.len(),
        validity.spec_is_valid(i) ==> bloom::probe_row(options, filters[i]@, needle) == Ok::<
            bool,
            BloomError,
        >(answers[i]),
        !validity.spec_is_valid(i) ==> !answers[i],
    decreases filters.len(),
{
    let shorter = filters.drop_last();
    if shorter.len() == 0 {
        assert(bloom::probe_rows(options, shorter, validity, needle) == Ok::<
            Seq<bool>,
            BloomError,
        >(Seq::empty()));
    } else {
        let before = bloom::probe_rows(options, shorter, validity, needle)->Ok_0;
        law_answers_are_row_by_row(options, shorter, validity, needle, before, 0);
        if i < shorter.len() {
            law_answers_are_row_by_row(options, shorter, validity, needle, before, i);
            assert(shorter[i] == filters[i]);
        }
    }
}

/// A probe does not fail on filters of the size that the options name, if the needle is null or
/// of a supported type.
pub proof fn law_probe_of_stored_filters_succeeds(
    options: BloomOptions,
    filters: VarBinViewArray,
    needle: Scalar,
)
    requires
        forall|i: int|
            0 <= i < filters.values@.len() && filters.validity.spec_is_valid(i)
                ==> aggregate::combine_error(
                options.spec_blocks() as nat,
                #[trigger] filters.values@[i]@,
            ) is None,
        needle.wf(),
        needle.spec_value() is None || dtype::spec_is_bloom_valid_dtype(needle.spec_dtype()),
    ensures
        bloom::probe_answers(options, filters, Some(needle)) is Ok,
{
    if needle.spec_value() is Some {
        filter_laws::law_supported_types_are_hashed(options.spec_hash_fn(), needle);
        lemma_probe_rows_succeeds(options, filters.values@, filters.validity, needle);
    }
}

proof fn lemma_probe_rows_succeeds(
    options: BloomOptions,
    filters: Seq<Vec<u8>>,
    validity: Mask,
    needle: Scalar,
)
    requires
        forall|i: int|
            0 <= i < filters.len() && validity.spec_is_valid(i) ==> aggregate::combine_error(
                options.spec_blocks() as nat,
                #[trigger] filters[i]@,
            ) is None,
        scalar::scalar_hash(options.spec_hash_fn(), needle) is Ok,
    ensures
        bloom::probe_rows(options, filters, validity, needle) is Ok,
    decreases filters.len(),
{
    if filters.len() > 0 {
        let n = filters.len() - 1;
        let shorter = filters.drop_last();
        assert forall|i: int| 0 <= i < shorter.len() && validity.spec_is_valid(i) implies
            aggregate::combine_error(
            options.spec_blocks() as nat,
            #[trigger] shorter[i]@,
        ) is None by {
            assert(filters[i] == shorter[i]);
        }
        lemma_probe_rows_succeeds(options, shorter, validity, needle);
        assert(filters[n] == filters.last());
    }
}

/// The probe accepts what the aggregate stores: wherever there is a filter for a column type, the
/// filter and a value of that type are arguments of the probe.
pub proof fn law_probe_accepts_stored_type(column: DType, stored: DType)
    requires
        aggregate::state_dtype(column) == Some(stored),
    ensures
        bloom::probe_dtype(seq![stored, column]) == Ok::<DType, BloomError>(
            DType::Bool(column.spec_nullability()),
        ),
{
}

/// Whether bytes are a stored filter of a zone with the given batches: the batches were
/// accumulated, one after the other, into an empty filter with the options. The filter may hold
/// more, as it does once it was combined with others.
pub open spec fn is_zone_filter(
    options: BloomOptions,
    batches: Seq<Columnar>,
    stored: Seq<u8>,
) -> bool {
    bits::subset_bits(
        filter_laws::accumulate_all_bits(
            bits::no_bits((256 * options.spec_blocks()) as nat),
            options.spec_hash_fn(),
            batches,
        ),
        bits::bytes_bits(stored),
    )
}

/// Two filters combine to a filter of the batches of both.
pub proof fn law_combined_filters_cover_both(
    options: BloomOptions,
    a: Seq<Columnar>,
    b: Seq<Columnar>,
    stored_a: Seq<u8>,
    stored_b: Seq<u8>,
    stored: Seq<u8>,
)
    requires
        is_zone_filter(options, a, stored_a),
        is_zone_filter(options, b, stored_b),
        bits::bytes_bits(stored) == bits::union_bits(
            bits::bytes_bits(stored_a),
            bits::bytes_bits(stored_b),
        ),
    ensures
        is_zone_filter(options, a + b, stored),
{
    let blocks = options.spec_blocks() as nat;
    let hash_fn = options.spec_hash_fn();
    let empty = bits::no_bits((256 * blocks) as nat);
    let both = filter_laws::accumulate_all_bits(empty, hash_fn, a + b);
    filter_laws::lemma_accumulate_all_len(empty, hash_fn, a);
    filter_laws::lemma_accumulate_all_len(empty, hash_fn, b);
    filter_laws::lemma_accumulate_all_len(empty, hash_fn, a + b);
    assert forall|p: int| 0 <= p < both.len() && both[p] implies bits::bytes_bits(stored)[p] by {
        filter_laws::law_batches_may_be_split(blocks, hash_fn, a, b, p);
        if filter_laws::accumulate_all_bits(empty, hash_fn, a)[p] {
            assert(bits::bytes_bits(stored_a)[p]);
        } else {
            assert(bits::bytes_bits(stored_b)[p]);
        }
    }
}

/// Whether a row of a zone holds the value of a scalar.
pub open spec fn zone_holds(batches: Seq<Columnar>, batch: int, row: int, scalar: Scalar) -> bool {
    &&& 0 <= batch < batches.len()
    &&& scalar.spec_value() matches Some(value)
    &&& filter_laws::batch_holds(batches[batch], row, value)
}

/// A zone that holds the value of a scalar is never a miss for it, whatever the type of the
/// column and whatever batches the zone was written in.
pub proof fn law_zone_with_a_match_is_not_missed(
    options: BloomOptions,
    batches: Seq<Columnar>,
    batch: int,
    row: int,
    stored: Seq<u8>,
    needle: Scalar,
)
    requires
        options.wf(),
        is_zone_filter(options, batches, stored),
        zone_holds(batches, batch, row, needle),
    ensures
        bloom::probe_row(options, stored, needle) == Ok::<bool, BloomError>(true),
{
    let empty = bits::no_bits((256 * options.spec_blocks()) as nat);
    let hash_fn = options.spec_hash_fn();
    let zone = filter_laws::accumulate_all_bits(empty, hash_fn, batches);
    filter_laws::lemma_accumulate_all_len(empty, hash_fn, batches);
    assert(bits::bytes_bits(stored).len() == 8 * stored.len());
    filter_laws::law_batch_value_is_found(empty, hash_fn, batches, batch, row, needle);
    filter_laws::law_more_bits_find_more(
        zone,
        bits::bytes_bits(stored),
        scalar::scalar_hash(hash_fn, needle)->Ok_0,
    );
}

/// A miss proves that no row of the zone holds the value that was looked for.
pub proof fn law_miss_proves_absence(
    options: BloomOptions,
    batches: Seq<Columnar>,
    filters: VarBinViewArray,
    needle: Scalar,
    answers: Seq<bool>,
    zone: int,
    batch: int,
    row: int,
)
    requires
        options.wf(),
        0 <= zone < filters.values@.len(),
        is_zone_filter(options, batches, filters.values@[zone]@),
        bloom::probe_answers(options, filters, Some(needle)) == Ok::<Seq<bool>, BloomError>(
            answers,
        ),
        is_miss(answers, filters.validity, zone),
    ensures
        !zone_holds(batches, batch, row, needle),
{
    if zone_holds(batches, batch, row, needle) {
        let stored = filters.values@[zone]@;
        law_answers_are_row_by_row(
            options,
            filters.values@,
            filters.validity,
            needle,
            answers,
            zone,
        );
        law_zone_with_a_match_is_not_missed(options, batches, batch, row, stored, needle);
    }
}

/// A zone without a stored filter stays inconclusive, whatever is looked for.
pub proof fn law_missing_filter_is_inconclusive(
    options: BloomOptions,
    filters: VarBinViewArray,
    needle: Option<Scalar>,
    answers: BoolArray,
    zone: int,
)
    requires
        !filters.validity.spec_is_valid(zone),
        bloom::probe_answers(options, filters, needle) == Ok::<Seq<bool>, BloomError>(
            answers.values@,
        ),
        answers.validity.same_as(filters.validity),
    ensures
        !is_miss(answers.values@, answers.validity, zone),
{
}

/// The rewrite does not depend on which side of the comparison the literal stands.
pub proof fn law_falsify_is_symmetric(
    rewrite: BloomEqRewrite,
    left: Arc<Expression>,
    right: Arc<Expression>,
    scope: DType,
)
    ensures
        rewrite.spec_falsify(Expression::Binary(Operator::Eq, left, right), scope)
            == rewrite.spec_falsify(Expression::Binary(Operator::Eq, right, left), scope),
{
}

/// What the read side consults is what the write side stores: where the rewrite of an index
/// gives a falsifier, it probes, with the options of the index, the state of the aggregate that
/// the index persists for the column, for the literal of the predicate.
pub proof fn law_rewrite_reads_what_is_written(
    index: BloomSkipIndex,
    expr: Expression,
    scope: DType,
)
    requires
        index.spec_registration().rewrite.spec_falsify(expr, scope) is Some,
    ensures
        expr matches Expression::Binary(op, left, right) && op == Operator::Eq && {
            let literal = if *left is Literal {
                left
            } else {
                right
            };
            let column = Arc::new(Expression::Root);
            index.spec_aggregate_fn(scope) matches Some(stored) && stored.options
                == index.spec_options() && index.spec_registration().rewrite.spec_falsify(
                expr,
                scope,
            ) == Some(
                Expression::Not(
                    Arc::new(
                        Expression::BloomContains(
                            index.spec_options(),
                            Arc::new(Expression::Stat(column, stored)),
                            literal,
                        ),
                    ),
                ),
            )
        },
{
}

/// Whether a falsifier is true of a zone whose stored filter is given. A zone without one leaves
/// it null.
pub open spec fn falsifier_is_true(falsifier: Expression, stored: Option<Seq<u8>>) -> bool {
    match (falsifier, stored) {
        (Expression::Not(contains), Some(bytes)) => match *contains {
            Expression::BloomContains(options, _, needle) => match *needle {
                Expression::Literal(value) => bloom::probe_row(options, bytes, value) == Ok::<
                    bool,
                    BloomError,
                >(false),
                _ => false,
            },
            _ => false,
        },
        _ => false,
    }
}

/// The literal that the column is compared with for equality, where the predicate is such a
/// comparison.
pub open spec fn compared_literal(expr: Expression) -> Option<Scalar> {
    match expr {
        Expression::Binary(Operator::Eq, left, right) => match (*left, *right) {
            (Expression::Root, Expression::Literal(v)) => Some(v),
            (Expression::Literal(v), Expression::Root) => Some(v),
            _ => None,
        },
        _ => None,
    }
}

/// Whether a row of a zone satisfies a comparison of the column with a literal for equality.
pub open spec fn row_satisfies(
    expr: Expression,
    batches: Seq<Columnar>,
    batch: int,
    row: int,
) -> bool {
    match compared_literal(expr) {
        Some(literal) => zone_holds(batches, batch, row, literal),
        None => false,
    }
}

/// The index prunes soundly: where the falsifier of a predicate is true of a zone, whose batches
/// were accumulated into the stored filter, no row of any batch satisfies the predicate.
pub proof fn law_falsifier_is_sound(
    index: BloomSkipIndex,
    expr: Expression,
    scope: DType,
    falsifier: Expression,
    batches: Seq<Columnar>,
    stored: Option<Seq<u8>>,
    batch: int,
    row: int,
)
    requires
        index.spec_options().wf(),
        index.spec_registration().rewrite.spec_falsify(expr, scope) == Some(falsifier),
        stored matches Some(bytes) ==> is_zone_filter(index.spec_options(), batches, bytes),
        falsifier_is_true(falsifier, stored),
    ensures
        !row_satisfies(expr, batches, batch, row),
{
    if row_satisfies(expr, batches, batch, row) {
        let bytes = stored->Some_0;
        let literal = compared_literal(expr)->Some_0;
        law_zone_with_a_match_is_not_missed(
            index.spec_options(),
            batches,
            batch,
            row,
            bytes,
            literal,
        );
    }
}

/// A comparison with null has no falsifier, so null never prunes a zone.
pub proof fn law_null_has_no_falsifier(rewrite: BloomEqRewrite, null: Scalar, scope: DType)
    requires
        null.spec_value() is None,
    ensures
        rewrite.spec_falsify(
            Expression::Binary(
                Operator::Eq,
                Arc::new(Expression::Root),
                Arc::new(Expression::Literal(null)),
            ),
            scope,
        ) is None,
{
}

/// A probe is exact on the filter: of a filter of the size that the options name it is answered
/// `true` exactly where each of the eight bits that the hash of the needle selects is set,
/// whatever the type of the needle.
pub proof fn law_probe_is_exact(
    options: BloomOptions,
    stored: Seq<u8>,
    needle: Scalar,
    value: ScalarValue,
    bytes: Seq<u8>,
)
    requires
        options.wf(),
        stored.len() == 32 * options.spec_blocks(),
        needle.spec_value() == Some(value),
        value.spec_bytes() == Some(bytes),
    ensures
        bloom::probe_row(options, stored, needle) == Ok::<bool, BloomError>(
            forall|lane: int|
                0 <= lane < 8 ==> bits::bytes_bits(stored)[#[trigger] partial::probe(
                    options.spec_hash_fn().spec_hash(bytes),
                    options.spec_blocks() as nat,
                    lane,
                )],
        ),
{
    assert(bits::bytes_bits(stored).len() / 256 == options.spec_blocks());
}

/// A filter with no bit set, that of an empty zone, does not hold any value.
pub proof fn law_empty_filter_holds_nothing(options: BloomOptions, stored: Seq<u8>, needle: Scalar)
    requires
        options.wf(),
        bits::bytes_bits(stored) == bits::no_bits((256 * options.spec_blocks()) as nat),
        needle.wf(),
        needle.spec_value() is Some,
        dtype::spec_is_bloom_valid_dtype(needle.spec_dtype()),
    ensures
        bloom::probe_row(options, stored, needle) == Ok::<bool, BloomError>(false),
{
    assert(bits::bytes_bits(stored).len() == 8 * stored.len());
    filter_laws::law_supported_types_are_hashed(options.spec_hash_fn(), needle);
    filter_laws::law_empty_finds_nothing(
        options.spec_blocks() as nat,
        scalar::scalar_hash(options.spec_hash_fn(), needle)->Ok_0,
    );
}

/// Needles with the same bytes get the same answer, whatever their types.
pub proof fn law_answer_rests_on_the_bytes(
    options: BloomOptions,
    stored: Seq<u8>,
    a: Scalar,
    b: Scalar,
)
    requires
        a.spec_value() is Some,
        b.spec_value() is Some,
        a.spec_bytes() == b.spec_bytes(),
    ensures
        bloom::probe_row(options, stored, a) == bloom::probe_row(options, stored, b),
{
}

/// A probe of one filter fails where its bytes are no filter of the size that the options name,
/// and, where they are, only if the needle cannot be hashed.
pub proof fn law_probe_errors(options: BloomOptions, stored: Seq<u8>, needle: Scalar)
    requires
        options.wf(),
    ensures
        stored.len() == 0 || stored.len() % 32 != 0 ==> bloom::probe_row(options, stored, needle)
            == Err::<bool, BloomError>(
            BloomError::InvalidByteLength { len: stored.len() as usize },
        ),
        0 < stored.len() <= 32 * u32::MAX && stored.len() % 32 == 0 && stored.len() != 32
            * options.spec_blocks() ==> bloom::probe_row(options, stored, needle) == Err::<
            bool,
            BloomError,
        >(
            BloomError::LengthMismatch {
                expected: options.spec_blocks(),
                found: (stored.len() / 32) as usize,
            },
        ),
        stored.len() > 32 * u32::MAX && stored.len() % 32 == 0 ==> bloom::probe_row(
            options,
            stored,
            needle,
        ) == Err::<bool, BloomError>(
            BloomError::BlocksOutOfRange { blocks: (stored.len() / 32) as usize },
        ),
        stored.len() == 32 * options.spec_blocks() ==> match needle.spec_value() {
            None => bloom::probe_row(options, stored, needle) == Err::<bool, BloomError>(
                BloomError::NullScalar,
            ),
            Some(value) => if value.spec_bytes() is None {
                bloom::probe_row(options, stored, needle) == Err::<bool, BloomError>(
                    BloomError::UnsupportedScalar,
                )
            } else {
                bloom::probe_row(options, stored, needle) is Ok
            },
        },
{
}

/// A probe of a column fails with the error of the first valid filter that cannot be probed, and
/// only then.
pub proof fn law_first_error_counts(
    options: BloomOptions,
    filters: Seq<Vec<u8>>,
    validity: Mask,
    needle: Scalar,
)
    ensures
        match bloom::probe_rows(options, filters, validity, needle) {
            Ok(answers) => answers.len() == filters.len() && forall|i: int|
                0 <= i < filters.len() && validity.spec_is_valid(i) ==> bloom::probe_row(
                    options,
                    #[trigger] filters[i]@,
                    needle,
                ) is Ok,
            Err(e) => exists|i: int|
                0 <= i < filters.len() && validity.spec_is_valid(i) && bloom::probe_row(
                    options,
                    #[trigger] filters[i]@,
                    needle,
                ) == Err::<bool, BloomError>(e) && forall|j: int|
                    0 <= j < i && validity.spec_is_valid(j) ==> bloom::probe_row(
                        options,
                        #[trigger] filters[j]@,
                        needle,
                    ) is Ok,
        },
    decreases filters.len(),
{
    if filters.len() > 0 {
        let n = filters.len() - 1;
        let shorter = filters.drop_last();
        law_first_error_counts(options, shorter, validity, needle);
        assert(forall|i: int| 0 <= i < n ==> shorter[i] == #[trigger] filters[i]);
        assert(filters[n] == filters.last());
        match bloom::probe_rows(options, shorter, validity, needle) {
            Ok(_) => {
                assert forall|j: int| 0 <= j < n && validity.spec_is_valid(j) implies
                    bloom::probe_row(options, #[trigger] filters[j]@, needle) is Ok by {
                    assert(bloom::probe_row(options, shorter[j]@, needle) is Ok);
                }
                if validity.spec_is_valid(n) {
                    match bloom::probe_row(options, filters[n]@, needle) {
                        Ok(_) => {},
                        Err(e) => {
                            assert(bloom::probe_row(options, filters[n]@, needle) == Err::<
                                bool,
                                BloomError,
                            >(e));
                        },
                    }
                }
            },
            Err(e) => {
                let i = choose|i: int|
                    0 <= i < shorter.len() && validity.spec_is_valid(i) && bloom::probe_row(
                        options,
                        #[trigger] shorter[i]@,
                        needle,
                    ) == Err::<bool, BloomError>(e) && forall|j: int|
                        0 <= j < i && validity.spec_is_valid(j) ==> bloom::probe_row(
                            options,
                            #[trigger] shorter[j]@,
                            needle,
                        ) is Ok;
                assert(bloom::probe_row(options, filters[i]@, needle) == Err::<bool, BloomError>(
                    e,
                ));
                assert forall|j: int| 0 <= j < i && validity.spec_is_valid(j) implies
                    bloom::probe_row(options, #[trigger] filters[j]@, needle) is Ok by {
                    assert(bloom::probe_row(options, shorter[j]@, needle) is Ok);
                }
            },
        }
    }
}

/// A needle that is no constant is refused. A null needle is in no filter, and no filter is
/// looked at for it. Any other is looked for in each filter.
pub proof fn law_probe_by_needle(
    options: BloomOptions,
    filters: VarBinViewArray,
    needle: Scalar,
    i: int,
)
    ensures
        bloom::probe_answers(options, filters, None) == Err::<Seq<bool>, BloomError>(
            BloomError::NeedleNotConstant,
        ),
        needle.spec_value() is None ==> (bloom::probe_answers(options, filters, Some(needle))
            matches Ok(answers) && answers.len() == filters.values@.len() && (0 <= i
            < answers.len() ==> !answers[i])),
        needle.spec_value() is Some ==> bloom::probe_answers(options, filters, Some(needle))
            == bloom::probe_rows(options, filters.values@, filters.validity, needle),
{
}

/// A probe has a type exactly where its first argument is a byte string and filters hold values
/// of its second: that of booleans, nullable where either argument is.
pub proof fn law_probe_type(args: Seq<DType>)
    requires
        args.len() >= 2,
    ensures
        !(args[0] is Binary) ==> bloom::probe_dtype(args) == Err::<DType, BloomError>(
            BloomError::FilterNotBinary,
        ),
        args[0] is Binary && !dtype::spec_is_bloom_valid_dtype(args[1]) ==> bloom::probe_dtype(args)
            == Err::<DType, BloomError>(BloomError::UnsupportedNeedle),
        args[0] is Binary && dtype::spec_is_bloom_valid_dtype(args[1]) ==> (bloom::probe_dtype(
            args,
        ) matches Ok(DType::Bool(n)) && (n is Nullable <==> args[0].spec_nullability() is Nullable
            || args[1].spec_nullability() is Nullable)),
{
}

/// The rewrite is complete: wherever the index stores an aggregate for a column, each comparison
/// of the column for equality with a literal that is not null has a falsifier, with the literal
/// on either side.
pub proof fn law_rewrite_is_complete(index: BloomSkipIndex, literal: Scalar, scope: DType)
    requires
        index.spec_aggregate_fn(scope) is Some,
        literal.spec_value() is Some,
    ensures
        ({
            let column = Arc::new(Expression::Root);
            let value = Arc::new(Expression::Literal(literal));
            let rewrite = index.spec_registration().rewrite;
            &&& rewrite.spec_falsify(
                Expression::Binary(Operator::Eq, column, value),
                scope,
            ) is Some
            &&& rewrite.spec_falsify(
                Expression::Binary(Operator::Eq, value, column),
                scope,
            ) is Some
        }),
{
}

/// Which predicates have a falsifier, and which one: comparisons for equality of the column with
/// a literal that is not null, for each column type that filters support. It says that the filter
/// that the aggregate stored of the column, with the options of the rewrite, does not hold the
/// literal.
pub proof fn law_falsifiers(
    rewrite: BloomEqRewrite,
    operator: Operator,
    left: Arc<Expression>,
    right: Arc<Expression>,
    scope: DType,
)
    ensures
        ({
            let falsifier = rewrite.spec_falsify(Expression::Binary(operator, left, right), scope);
            let says_not_held = |column: Arc<Expression>, literal: Arc<Expression>|
                Some(
                    Expression::Not(
                        Arc::new(
                            Expression::BloomContains(
                                rewrite.options,
                                Arc::new(
                                    Expression::Stat(
                                        column,
                                        AggregateFnRef { options: rewrite.options },
                                    ),
                                ),
                                literal,
                            ),
                        ),
                    ),
                );
            match (*left, *right) {
                (Expression::Root, Expression::Literal(v)) => if operator == Operator::Eq
                    && v.spec_value() is Some && dtype::spec_is_bloom_valid_dtype(scope) {
                    falsifier == says_not_held(left, right)
                } else {
                    falsifier is None
                },
                (Expression::Literal(v), Expression::Root) => if operator == Operator::Eq
                    && v.spec_value() is Some && dtype::spec_is_bloom_valid_dtype(scope) {
                    falsifier == says_not_held(right, left)
                } else {
                    falsifier is None
                },
                _ => falsifier is None,
            }
        }),
{
}

/// A predicate that the shape test turns away has no falsifier, and each falsifier speaks of the
/// literal on the side that the test gives.
pub proof fn law_shape_test(operator: Operator, left: Expression, right: Expression)
    ensures
        bloom::spec_literal_side(operator, left.spec_operand(), right.spec_operand()) == Some(
            Side::Right,
        ) <==> operator == Operator::Eq && left is Root && right is Literal,
        bloom::spec_literal_side(operator, left.spec_operand(), right.spec_operand()) == Some(
            Side::Left,
        ) <==> operator == Operator::Eq && left is Literal && right is Root,
        left.spec_operand() is Column <==> left is Root,
        left.spec_operand() is Literal <==> left is Literal,
{
}

/// What an index stores and registers: the aggregate, with its own options, for each column type
/// that filters support, and a rewrite with the same options.
pub proof fn law_index_components(index: BloomSkipIndex, column: DType)
    ensures
        index.spec_aggregate_fn(column) is Some <==> dtype::spec_is_bloom_valid_dtype(column),
        index.spec_aggregate_fn(column) matches Some(bound) ==> bound.options
            == index.spec_options(),
        index.spec_registration().rewrite.options == index.spec_options(),
{
}

} // verus!
