//! Bloom skipping index for equality predicates.

use std::sync::Arc;

use vstd::prelude::*;

use crate::bits;
use crate::bloom_filter::aggregate;
use crate::bloom_filter::aggregate::{AggregateFnRef, BloomFilter};
use crate::bloom_filter::canonical::{BoolArray, Mask, VarBinViewArray};
use crate::bloom_filter::options::BloomOptions;
use crate::bloom_filter::partial;
use crate::bloom_filter::partial::BloomPartial;
use crate::bloom_filter::scalar;
use crate::dtype;
use crate::dtype::DType;
use crate::error::BloomError;
use crate::hash::HashFn;
use crate::le;
use crate::scalar::Scalar;

use super::expr::{Expression, Operand, Operator, Side, StatsRewriteCtx};
use super::SkipIndex;

verus! {

/// Bloom skip index for constant-equality predicates.
#[derive(Clone, Copy, Debug)]
pub struct BloomSkipIndex {
    options: BloomOptions,
}

/// The components of a Bloom skip index that readers register.
#[derive(Clone, Copy, Debug)]
pub struct BloomRegistration {
    /// The aggregate.
    pub aggregate_fn: BloomFilter,
    /// The probe function.
    pub scalar_fn: BloomContains,
    /// The predicate rewrite.
    pub rewrite: BloomEqRewrite,
}

impl BloomSkipIndex {
    /// The options of the filters.
    pub closed spec fn spec_options(self) -> BloomOptions {
        self.options
    }

    /// Creates an index whose filters have the given options.
    pub fn new(options: BloomOptions) -> (index: BloomSkipIndex)
        ensures
            index.spec_options() == options,
    {
        BloomSkipIndex { options }
    }

    /// Returns the options of the filters.
    pub fn options(&self) -> (options: &BloomOptions)
        ensures
            *options == self.spec_options(),
    {
        &self.options
    }
}

impl Default for BloomSkipIndex {
    /// An index whose filters have the default options.
    fn default() -> (index: BloomSkipIndex)
        ensures
            index.spec_options().spec_blocks() == 256,
            index.spec_options().spec_hash_fn() == HashFn::XxHash3_64,
            index.spec_options().wf(),
    {
        BloomSkipIndex::new(BloomOptions::default())
    }
}

impl SkipIndex for BloomSkipIndex {
    type AggregateFn = AggregateFnRef;

    type Registration = BloomRegistration;

    open spec fn spec_aggregate_fn(&self, input_dtype: DType) -> Option<AggregateFnRef> {
        if dtype::spec_is_bloom_valid_dtype(input_dtype) {
            Some(AggregateFnRef { options: self.spec_options() })
        } else {
            None
        }
    }

    open spec fn spec_registration(&self) -> BloomRegistration {
        BloomRegistration {
            aggregate_fn: BloomFilter,
            scalar_fn: BloomContains,
            rewrite: BloomEqRewrite { options: self.spec_options() },
        }
    }

    /// Supported types get a filter with the options of the index.
    fn aggregate_fn(&self, input_dtype: &DType) -> (r: Option<AggregateFnRef>) {
        match BloomFilter.return_dtype(&self.options, input_dtype) {
            Some(_) => Some(BloomFilter.bind(self.options)),
            None => None,
        }
    }

    fn register(&self) -> (r: BloomRegistration) {
        BloomRegistration {
            aggregate_fn: BloomFilter,
            scalar_fn: BloomContains,
            rewrite: BloomEqRewrite { options: self.options },
        }
    }
}

/// What the probe of one stored filter for a value gives.
pub open spec fn probe_row(options: BloomOptions, bytes: Seq<u8>, needle: Scalar) -> Result<
    bool,
    BloomError,
> {
    match aggregate::combine_error(options.spec_blocks() as nat, bytes) {
        Some(e) => Err(e),
        None => match scalar::scalar_hash(options.spec_hash_fn(), needle) {
            Ok(hash) => Ok(partial::find_bits(bits::bytes_bits(bytes), hash)),
            Err(e) => Err(e),
        },
    }
}

/// What the probe of a column of stored filters for a value gives: an answer for each, `false`
/// for those that are null, or the error of the first that cannot be probed.
pub open spec fn probe_rows(
    options: BloomOptions,
    filters: Seq<Vec<u8>>,
    validity: Mask,
    needle: Scalar,
) -> Result<Seq<bool>, BloomError>
    decreases filters.len(),
{
    if filters.len() == 0 {
        Ok(Seq::empty())
    } else {
        match probe_rows(options, filters.drop_last(), validity, needle) {
            Err(e) => Err(e),
            Ok(answers) => if !validity.spec_is_valid(filters.len() - 1) {
                Ok(answers.push(false))
            } else {
                match probe_row(options, filters.last()@, needle) {
                    Ok(answer) => Ok(answers.push(answer)),
                    Err(e) => Err(e),
                }
            },
        }
    }
}

/// What a probe gives as a whole. `needle` is absent where the value that is looked for is not a
/// constant.
pub open spec fn probe_answers(
    options: BloomOptions,
    filters: VarBinViewArray,
    needle: Option<Scalar>,
) -> Result<Seq<bool>, BloomError> {
    match needle {
        None => Err(BloomError::NeedleNotConstant),
        Some(needle) => if needle.spec_value() is None {
            Ok(Seq::new(filters.values@.len(), |i: int| false))
        } else {
            probe_rows(options, filters.values@, filters.validity, needle)
        },
    }
}

/// The type of a probe's result, by the types of its arguments: a boolean, nullable where either
/// argument is. The first argument is a filter, the second the value that is looked for.
pub open spec fn probe_dtype(args: Seq<DType>) -> Result<DType, BloomError> {
    if !(args[0] is Binary) {
        Err(BloomError::FilterNotBinary)
    } else if !dtype::spec_is_bloom_valid_dtype(args[1]) {
        Err(BloomError::UnsupportedNeedle)
    } else {
        Ok(DType::Bool(args[0].spec_nullability().spec_or(args[1].spec_nullability())))
    }
}

/// Probe scalar function: tests one literal against each stored Bloom filter.
#[derive(Clone, Copy, Debug)]
pub struct BloomContains;

impl BloomContains {
    /// The identifier of the function.
    pub fn id(&self) -> (id: &'static str)
        ensures
            id@ == "vortex.bloom_contains.v1"@,
    {
        "vortex.bloom_contains.v1"
    }

    /// Writes the options that are stored with the function, as for the aggregate: without the
    /// hash function.
    pub fn serialize(&self, options: &BloomOptions) -> (r: Result<Option<Vec<u8>>, BloomError>)
        ensures
            r matches Ok(Some(metadata)) && metadata@ == le::le_bytes(
                options.spec_blocks() as nat,
                4,
            ),
    {
        BloomFilter.serialize(options)
    }

    /// Reads stored options, as for the aggregate.
    pub fn deserialize(&self, metadata: &[u8]) -> (r: Result<BloomOptions, BloomError>)
        ensures
            r is Ok <==> aggregate::metadata_error(metadata@) is None,
            r matches Ok(options) ==> options.spec_blocks() == le::le_value(metadata@)
                && options.spec_hash_fn() == HashFn::XxHash3_64 && options.wf(),
            r matches Err(e) ==> aggregate::metadata_error(metadata@) == Some(e),
    {
        BloomFilter.deserialize(metadata)
    }

    /// The number of arguments.
    pub fn arity(&self, options: &BloomOptions) -> (n: usize)
        ensures
            n == 2,
    {
        2
    }

    /// The names of the two arguments. The first is the filter as a byte string, the second the
    /// literal value to search for.
    pub fn child_name(&self, options: &BloomOptions, child_idx: usize) -> (name: &'static str)
        requires
            child_idx < 2,
        ensures
            name@ == if child_idx == 0 {
                "filter"@
            } else {
                "needle"@
            },
    {
        if child_idx == 0 {
            "filter"
        } else {
            "needle"
        }
    }

    /// The type of the result: a boolean, nullable where either argument is.
    pub fn return_dtype(&self, options: &BloomOptions, args: &[DType]) -> (r: Result<
        DType,
        BloomError,
    >)
        requires
            args@.len() >= 2,
        ensures
            r == probe_dtype(args@),
    {
        match &args[0] {
            DType::Binary(_) => {},
            _ => {
                return Err(BloomError::FilterNotBinary);
            },
        }
        if !dtype::is_bloom_valid_dtype(&args[1]) {
            return Err(BloomError::UnsupportedNeedle);
        }
        Ok(DType::Bool(args[0].nullability().or(args[1].nullability())))
    }

    /// Tests the needle against each filter. A null filter stays null, and a null needle is in
    /// no filter.
    pub fn execute(
        &self,
        options: &BloomOptions,
        filters: &VarBinViewArray,
        needle: Option<&Scalar>,
    ) -> (r: Result<BoolArray, BloomError>)
        ensures
            match probe_answers(
                *options,
                *filters,
                match needle {
                    Some(s) => Some(*s),
                    None => None,
                },
            ) {
                Ok(answers) => r matches Ok(array) && array.values@ == answers
                    && array.validity.same_as(filters.validity),
                Err(e) => r == Err::<BoolArray, BloomError>(e),
            },
    {
        let value = match needle {
            Some(value) => value,
            None => {
                return Err(BloomError::NeedleNotConstant);
            },
        };
        let count = filters.values.len();
        let is_null = value.is_null();
        let mut possible: Vec<bool> = Vec::new();
        let mut i: usize = 0;
        proof {
            assert(filters.values@.take(0) =~= Seq::<Vec<u8>>::empty());
        }
        while i < count
            invariant
                i <= count,
                count == filters.values@.len(),
                needle == Some(value),
                is_null == (value.spec_value() is None),
                possible@.len() == i,
                is_null ==> forall|k: int| 0 <= k < i ==> !#[trigger] possible@[k],
                !is_null ==> probe_rows(
                    *options,
                    filters.values@.take(i as int),
                    filters.validity,
                    *value,
                ) == Ok::<Seq<bool>, BloomError>(possible@),
            decreases count - i,
        {
            if is_null {
                possible.push(false);
            } else {
                proof {
                    assert(filters.values@.take(i + 1).drop_last() =~= filters.values@.take(
                        i as int,
                    ));
                }
                let answer = if filters.validity.is_valid(i) {
                    match self.probe(options, filters.values[i].as_slice(), value) {
                        Ok(answer) => answer,
                        Err(e) => {
                            proof {
                                lemma_probe_rows_error(
                                    *options,
                                    filters.values@,
                                    filters.validity,
                                    *value,
                                    i + 1,
                                    e,
                                );
                            }
                            return Err(e);
                        },
                    }
                } else {
                    false
                };
                possible.push(answer);
            }
            i = i + 1;
        }
        proof {
            assert(filters.values@.take(count as int) =~= filters.values@);
            if is_null {
                assert(possible@ =~= Seq::new(filters.values@.len(), |i: int| false));
            }
        }
        Ok(BoolArray { values: possible, validity: filters.validity.clone() })
    }

    /// Tests the needle against one filter.
    fn probe(&self, options: &BloomOptions, bytes: &[u8], needle: &Scalar) -> (r: Result<
        bool,
        BloomError,
    >)
        ensures
            r == probe_row(*options, bytes@, *needle),
    {
        match BloomPartial::from_bytes(bytes, options.hash_fn()) {
            Ok(partial) => {
                if partial.len() != options.blocks().get() {
                    return Err(
                        BloomError::LengthMismatch {
                            expected: options.blocks().get(),
                            found: partial.len(),
                        },
                    );
                }
                partial.contains_valid_scalar(needle)
            },
            Err(e) => Err(e),
        }
    }

    /// Whether the function operates on nulls as such. It declares that it does not.
    pub fn is_null_sensitive(&self, options: &BloomOptions) -> (r: bool)
        ensures
            !r,
    {
        false
    }

    /// Whether there are arguments of the right types, with filters of the right size, on which
    /// evaluation is meant to fail. There are none.
    pub fn is_fallible(&self, options: &BloomOptions) -> (r: bool)
        ensures
            !r,
    {
        false
    }
}

/// An error among the first filters is the error of the whole probe.
proof fn lemma_probe_rows_error(
    options: BloomOptions,
    filters: Seq<Vec<u8>>,
    validity: Mask,
    needle: Scalar,
    n: int,
    e: BloomError,
)
    requires
        0 <= n <= filters.len(),
        probe_rows(options, filters.take(n), validity, needle) == Err::<Seq<bool>, BloomError>(e),
    ensures
        probe_rows(options, filters, validity, needle) == Err::<Seq<bool>, BloomError>(e),
    decreases filters.len() - n,
{
    if n < filters.len() {
        assert(filters.take(n + 1).drop_last() =~= filters.take(n));
        lemma_probe_rows_error(options, filters, validity, needle, n + 1, e);
    } else {
        assert(filters.take(n) =~= filters);
    }
}

/// The proof that no value of a zone equals a literal: the filter of the zone does not hold it.
/// There is none where filters do not hold values of the column's type, nor for null.
pub open spec fn absence_proof(
    options: BloomOptions,
    column: Arc<Expression>,
    literal: Arc<Expression>,
    scope: DType,
) -> Option<Expression> {
    match *literal {
        Expression::Literal(value) => if dtype::spec_is_bloom_valid_dtype(scope)
            && value.spec_value() is Some {
            let filter = Arc::new(Expression::Stat(column, AggregateFnRef { options }));
            Some(Expression::Not(Arc::new(Expression::BloomContains(options, filter, literal))))
        } else {
            None
        },
        _ => None,
    }
}

/// Equality rewrite that turns a Bloom miss into a zone falsifier.
#[derive(Clone, Copy, Debug)]
pub struct BloomEqRewrite {
    /// The options of the filters.
    pub options: BloomOptions,
}

/// On which side the literal stands in a comparison of the column with a literal for equality.
/// Other predicates are none.
pub open spec fn spec_literal_side(operator: Operator, left: Operand, right: Operand) -> Option<
    Side,
> {
    if operator != Operator::Eq {
        None
    } else if left is Column && right is Literal {
        Some(Side::Right)
    } else if left is Literal && right is Column {
        Some(Side::Left)
    } else {
        None
    }
}

impl BloomEqRewrite {
    /// The falsifier of a predicate. Only comparisons of the column with a literal for equality
    /// have one, in either order.
    pub open spec fn spec_falsify(self, expr: Expression, scope: DType) -> Option<Expression> {
        match expr {
            Expression::Binary(operator, left, right) => match spec_literal_side(
                operator,
                left.spec_operand(),
                right.spec_operand(),
            ) {
                Some(Side::Right) => absence_proof(self.options, left, right, scope),
                Some(Side::Left) => absence_proof(self.options, right, left, scope),
                None => None,
            },
            _ => None,
        }
    }

    /// Returns on which side the literal stands, or `None` where the predicate is no comparison
    /// of the column with a literal for equality. Such a predicate has no falsifier, whatever its
    /// operands hold and whatever the type of the column.
    pub fn literal_side(&self, operator: Operator, left: Operand, right: Operand) -> (r: Option<
        Side,
    >)
        ensures
            r == spec_literal_side(operator, left, right),
    {
        match (operator, left, right) {
            (Operator::Eq, Operand::Column, Operand::Literal) => Some(Side::Right),
            (Operator::Eq, Operand::Literal, Operand::Column) => Some(Side::Left),
            _ => None,
        }
    }

    /// Returns an expression over the stored filter of a zone that is true only if the predicate
    /// is false for every row of the zone, or `None` where there is no such expression.
    pub fn falsify(&self, expr: &Expression, ctx: &StatsRewriteCtx<'_>) -> (r: Result<
        Option<Expression>,
        BloomError,
    >)
        requires
            expr is Binary,
        ensures
            r == Ok::<Option<Expression>, BloomError>(self.spec_falsify(*expr, *ctx.scope)),
    {
        let (operator, left, right) = match expr {
            Expression::Binary(operator, left, right) => (*operator, left, right),
            _ => {
                return Ok(None);
            },
        };
        let (column, literal) = match self.literal_side(operator, left.operand(), right.operand()) {
            Some(Side::Right) => (left, right),
            Some(Side::Left) => (right, left),
            None => {
                return Ok(None);
            },
        };
        let is_null = match &**literal {
            Expression::Literal(value) => value.is_null(),
            _ => true,
        };
        if !dtype::is_bloom_valid_dtype(ctx.scope) || is_null {
            return Ok(None);
        }
        let filter = Expression::Stat(column.clone(), BloomFilter.bind(self.options));
        let contains = Expression::BloomContains(self.options, Arc::new(filter), literal.clone());
        Ok(Some(Expression::Not(Arc::new(contains))))
    }
}

} // verus!
