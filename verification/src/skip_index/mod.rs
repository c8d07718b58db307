//! Skipping-index interface and implementations.
//!
//! A skip index prunes zones by using the results of an aggregate. During writes, the aggregate
//! is calculated for each zone. During reads, the stored states are interpreted to determine
//! whether a zone can be pruned.
//!
//! Unlike a locating index, a skipping index summarizes a zone. It does not locate matching rows.
//! It can only prove that a zone cannot match a predicate.

use std::sync::Arc;

use vstd::prelude::*;

use crate::dtype::DType;

pub mod bloom;
pub mod expr;
pub mod laws;

verus! {

/// One definition that supplies a persisted aggregate and every read-side component needed to
/// consult it.
///
/// A skip index has no identifier or serialized representation of its own. It is represented in
/// a file by the aggregate that it provides.
pub trait SkipIndex: Sized {
    /// An aggregate bound to its options.
    type AggregateFn;

    /// The components that readers register.
    type Registration;

    /// The aggregate for a column type, where the type is supported.
    spec fn spec_aggregate_fn(&self, input_dtype: DType) -> Option<Self::AggregateFn>;

    /// The components that readers register.
    spec fn spec_registration(&self) -> Self::Registration;

    /// The aggregate state to persist for `input_dtype`, or `None` when unsupported.
    fn aggregate_fn(&self, input_dtype: &DType) -> (r: Option<Self::AggregateFn>)
        ensures
            r == self.spec_aggregate_fn(*input_dtype),
    ;

    /// The aggregate, the probe function and the predicate rewrite, to be registered as one.
    fn register(&self) -> (r: Self::Registration)
        ensures
            r == self.spec_registration(),
    ;
}

/// A reference-counted [`SkipIndex`].
pub struct SkipIndexRef<I: SkipIndex>(Arc<I>);

impl<I: SkipIndex> SkipIndexRef<I> {
    /// The index that is referred to.
    pub closed spec fn index(self) -> I {
        *self.0
    }

    /// Refers to an index.
    pub fn new(index_ref: Arc<I>) -> (r: SkipIndexRef<I>)
        ensures
            r.index() == *index_ref,
    {
        SkipIndexRef(index_ref)
    }

    /// The aggregate state to persist for `input_dtype`, or `None` when unsupported.
    pub fn aggregate_fn(&self, input_dtype: &DType) -> (r: Option<I::AggregateFn>)
        ensures
            r == self.index().spec_aggregate_fn(*input_dtype),
    {
        self.0.aggregate_fn(input_dtype)
    }

    /// The aggregate, the probe function and the predicate rewrite, to be registered as one.
    pub fn register(&self) -> (r: I::Registration)
        ensures
            r == self.index().spec_registration(),
    {
        self.0.register()
    }
}

impl<I: SkipIndex> Clone for SkipIndexRef<I> {
    fn clone(&self) -> (r: SkipIndexRef<I>)
        ensures
            r == *self,
    {
        SkipIndexRef(self.0.clone())
    }
}

/// Settings of the writer of one column's zones. `R` refers to a skip index, and `settings` are
/// those that do not concern skip indexes, the default aggregates among them.
pub struct ZonedLayoutOptions<R, S> {
    /// The skip indexes of the column, in the order in which they were added.
    pub skip_indexes: Option<Vec<R>>,
    /// Everything else.
    pub settings: S,
}

impl<R, S> ZonedLayoutOptions<R, S> {
    /// The skip indexes of the column, in the order in which they were added.
    pub open spec fn indexes(self) -> Seq<R> {
        match self.skip_indexes {
            Some(indexes) => indexes@,
            None => Seq::empty(),
        }
    }

    /// Adds `skip_index` behind the indexes that were added before. All other settings are
    /// retained.
    pub fn with_skip_index(self, skip_index: R) -> (r: ZonedLayoutOptions<R, S>)
        ensures
            r.skip_indexes matches Some(after) && after@ == match self.skip_indexes {
                Some(before) => before@.push(skip_index),
                None => seq![skip_index],
            },
            r.indexes() == self.indexes().push(skip_index),
            r.settings == self.settings,
    {
        let mut skip_indexes = match self.skip_indexes {
            Some(indexes) => indexes,
            None => Vec::new(),
        };
        skip_indexes.push(skip_index);
        ZonedLayoutOptions { skip_indexes: Some(skip_indexes), settings: self.settings }
    }
}

} // verus!
