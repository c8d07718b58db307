//! Logical types of columns and scalars.

use vstd::prelude::*;

verus! {

/// Whether a type admits null.
#[derive(Clone, Copy, Debug, PartialEq, Eq, Hash, Structural)]
pub enum Nullability {
    /// Null is excluded.
    NonNullable,
    /// Null is admitted.
    Nullable,
}

impl Nullability {
    /// Nullable where either of the two is.
    pub open spec fn spec_or(self, other: Nullability) -> Nullability {
        if self is Nullable || other is Nullable {
            Nullability::Nullable
        } else {
            Nullability::NonNullable
        }
    }

    /// Nullable where either of the two is.
    pub fn or(self, other: Nullability) -> (r: Nullability)
        ensures
            r == self.spec_or(other),
    {
        match (self, other) {
            (Nullability::NonNullable, Nullability::NonNullable) => Nullability::NonNullable,
            _ => Nullability::Nullable,
        }
    }
}

/// Fixed-width numeric types.
#[derive(Clone, Copy, Debug, PartialEq, Eq, Hash, Structural)]
pub enum PType {
    /// An 8-bit unsigned integer.
    U8,
    /// A 16-bit unsigned integer.
    U16,
    /// A 32-bit unsigned integer.
    U32,
    /// A 64-bit unsigned integer.
    U64,
    /// An 8-bit signed integer.
    I8,
    /// A 16-bit signed integer.
    I16,
    /// A 32-bit signed integer.
    I32,
    /// A 64-bit signed integer.
    I64,
    /// A 16-bit floating point number.
    F16,
    /// A 32-bit floating point number.
    F32,
    /// A 64-bit floating point number.
    F64,
}

/// A logical type. Of nested types, whose values no filter holds, only the nullability is kept.
#[derive(Debug)]
pub enum DType {
    /// The type whose only value is null.
    Null,
    /// Booleans.
    Bool(Nullability),
    /// Fixed-width numbers.
    Primitive(PType, Nullability),
    /// Decimal numbers of fixed precision and scale.
    Decimal(u8, i8, Nullability),
    /// UTF-8 strings.
    Utf8(Nullability),
    /// Byte strings.
    Binary(Nullability),
    /// Lists of varying length.
    List(Nullability),
    /// Lists of fixed length.
    FixedSizeList(Nullability),
    /// Maps.
    Mapping(Nullability),
    /// Structs.
    Struct(Nullability),
    /// Unions.
    Union(Nullability),
    /// Dynamically typed values.
    Variant(Nullability),
    /// An extension type, by the type that it is stored as.
    Extension(Box<DType>),
}

impl Clone for DType {
    fn clone(&self) -> (r: DType)
        ensures
            r == *self,
        decreases self,
    {
        match self {
            DType::Null => DType::Null,
            DType::Bool(n) => DType::Bool(*n),
            DType::Primitive(ptype, n) => DType::Primitive(*ptype, *n),
            DType::Decimal(precision, scale, n) => DType::Decimal(*precision, *scale, *n),
            DType::Utf8(n) => DType::Utf8(*n),
            DType::Binary(n) => DType::Binary(*n),
            DType::List(n) => DType::List(*n),
            DType::FixedSizeList(n) => DType::FixedSizeList(*n),
            DType::Mapping(n) => DType::Mapping(*n),
            DType::Struct(n) => DType::Struct(*n),
            DType::Union(n) => DType::Union(*n),
            DType::Variant(n) => DType::Variant(*n),
            DType::Extension(storage) => {
                let inner: &DType = &**storage;
                DType::Extension(Box::new(inner.clone()))
            },
        }
    }
}

impl DType {
    /// The nullability of the type. An extension type has that of its storage type.
    pub open spec fn spec_nullability(self) -> Nullability
        decreases self,
    {
        match self {
            DType::Null => Nullability::Nullable,
            DType::Bool(n) => n,
            DType::Primitive(_, n) => n,
            DType::Decimal(_, _, n) => n,
            DType::Utf8(n) => n,
            DType::Binary(n) => n,
            DType::List(n) => n,
            DType::FixedSizeList(n) => n,
            DType::Mapping(n) => n,
            DType::Struct(n) => n,
            DType::Union(n) => n,
            DType::Variant(n) => n,
            DType::Extension(storage) => storage.spec_nullability(),
        }
    }

    /// The type that values are stored as: the type itself, or, through any number of extension
    /// types, the type underneath.
    pub open spec fn storage(self) -> DType
        decreases self,
    {
        match self {
            DType::Extension(storage) => storage.storage(),
            other => other,
        }
    }

    /// Returns the nullability of the type.
    pub fn nullability(&self) -> (n: Nullability)
        ensures
            n == self.spec_nullability(),
        decreases self,
    {
        match self {
            DType::Null => Nullability::Nullable,
            DType::Bool(n) => *n,
            DType::Primitive(_, n) => *n,
            DType::Decimal(_, _, n) => *n,
            DType::Utf8(n) => *n,
            DType::Binary(n) => *n,
            DType::List(n) => *n,
            DType::FixedSizeList(n) => *n,
            DType::Mapping(n) => *n,
            DType::Struct(n) => *n,
            DType::Union(n) => *n,
            DType::Variant(n) => *n,
            DType::Extension(storage) => storage.nullability(),
        }
    }
}

/// Whether filters hold values of a type: booleans, numbers, decimals, strings and byte strings,
/// as they are or as the storage of an extension type.
pub open spec fn spec_is_bloom_valid_dtype(dtype: DType) -> bool {
    let storage = dtype.storage();
    storage is Bool || storage is Primitive || storage is Decimal || storage is Utf8
        || storage is Binary
}

/// Returns `true` if filters hold values of the type.
pub fn is_bloom_valid_dtype(dtype: &DType) -> (valid: bool)
    ensures
        valid == spec_is_bloom_valid_dtype(*dtype),
    decreases dtype,
{
    match dtype {
        DType::Extension(storage) => is_bloom_valid_dtype(storage),
        DType::Bool(_) | DType::Primitive(_, _) | DType::Decimal(_, _, _) | DType::Utf8(_)
        | DType::Binary(_) => true,
        _ => false,
    }
}

/// Filters hold booleans, numbers of every type, decimals, strings and byte strings, nullable or
/// not, and no other values. An extension type is supported where its storage type is.
pub proof fn law_supported_types(
    n: Nullability,
    ptype: PType,
    precision: u8,
    scale: i8,
    storage: Box<DType>,
)
    ensures
        spec_is_bloom_valid_dtype(DType::Bool(n)),
        spec_is_bloom_valid_dtype(DType::Primitive(ptype, n)),
        spec_is_bloom_valid_dtype(DType::Decimal(precision, scale, n)),
        spec_is_bloom_valid_dtype(DType::Utf8(n)),
        spec_is_bloom_valid_dtype(DType::Binary(n)),
        spec_is_bloom_valid_dtype(DType::Extension(storage)) <==> spec_is_bloom_valid_dtype(
            *storage,
        ),
        !spec_is_bloom_valid_dtype(DType::Null),
        !spec_is_bloom_valid_dtype(DType::List(n)),
        !spec_is_bloom_valid_dtype(DType::FixedSizeList(n)),
        !spec_is_bloom_valid_dtype(DType::Mapping(n)),
        !spec_is_bloom_valid_dtype(DType::Struct(n)),
        !spec_is_bloom_valid_dtype(DType::Union(n)),
        !spec_is_bloom_valid_dtype(DType::Variant(n)),
{
}

/// A type has the nullability that it was given. The null type is nullable, and an extension type
/// is as its storage type.
pub proof fn law_nullability(
    n: Nullability,
    ptype: PType,
    precision: u8,
    scale: i8,
    storage: Box<DType>,
)
    ensures
        DType::Null.spec_nullability() is Nullable,
        DType::Bool(n).spec_nullability() == n,
        DType::Primitive(ptype, n).spec_nullability() == n,
        DType::Decimal(precision, scale, n).spec_nullability() == n,
        DType::Utf8(n).spec_nullability() == n,
        DType::Binary(n).spec_nullability() == n,
        DType::List(n).spec_nullability() == n,
        DType::FixedSizeList(n).spec_nullability() == n,
        DType::Mapping(n).spec_nullability() == n,
        DType::Struct(n).spec_nullability() == n,
        DType::Union(n).spec_nullability() == n,
        DType::Variant(n).spec_nullability() == n,
        DType::Extension(storage).spec_nullability() == storage.spec_nullability(),
{
}

/// What is stored of a type is the type itself, except for extension types, which are stored as
/// their storage type is.
pub proof fn law_storage(dtype: DType)
    ensures
        match dtype {
            DType::Extension(inner) => dtype.storage() == inner.storage(),
            _ => dtype.storage() == dtype,
        },
        !(dtype.storage() is Extension),
    decreases dtype,
{
    match dtype {
        DType::Extension(inner) => law_storage(*inner),
        _ => {},
    }
}

/// Two nullabilities join to nullable exactly where one of them is.
pub proof fn law_nullability_joins(a: Nullability, b: Nullability)
    ensures
        a.spec_or(b) is Nullable <==> a is Nullable || b is Nullable,
{
}

} // verus!
