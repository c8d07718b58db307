//! Scalar values.

use vstd::prelude::*;

use crate::dtype::{DType, Nullability, PType};
use crate::le::{F16, F32, F64, I256, ToBytes};

verus! {

/// A fixed-width number.
#[derive(Clone, Copy, Debug)]
pub enum PValue {
    /// An 8-bit unsigned integer.
    U8(u8),
    /// A 16-bit unsigned integer.
    U16(u16),
    /// A 32-bit unsigned integer.
    U32(u32),
    /// A 64-bit unsigned integer.
    U64(u64),
    /// An 8-bit signed integer.
    I8(i8),
    /// A 16-bit signed integer.
    I16(i16),
    /// A 32-bit signed integer.
    I32(i32),
    /// A 64-bit signed integer.
    I64(i64),
    /// A 16-bit floating point number.
    F16(F16),
    /// A 32-bit floating point number.
    F32(F32),
    /// A 64-bit floating point number.
    F64(F64),
}

/// A decimal number, scaled to an integer of one of six widths.
#[derive(Clone, Copy, Debug)]
pub enum DecimalValue {
    /// 8 bits wide.
    I8(i8),
    /// 16 bits wide.
    I16(i16),
    /// 32 bits wide.
    I32(i32),
    /// 64 bits wide.
    I64(i64),
    /// 128 bits wide.
    I128(i128),
    /// 256 bits wide.
    I256(I256),
}

/// A value other than null.
#[derive(Debug)]
pub enum ScalarValue {
    /// A boolean.
    Bool(bool),
    /// A fixed-width number.
    Primitive(PValue),
    /// A decimal number.
    Decimal(DecimalValue),
    /// A string.
    Utf8(String),
    /// A byte string.
    Binary(Vec<u8>),
    /// A list, map, struct, union or variant value. What it holds is not kept.
    Nested,
}

impl PValue {
    /// The type of the number.
    pub open spec fn spec_ptype(self) -> PType {
        match self {
            PValue::U8(_) => PType::U8,
            PValue::U16(_) => PType::U16,
            PValue::U32(_) => PType::U32,
            PValue::U64(_) => PType::U64,
            PValue::I8(_) => PType::I8,
            PValue::I16(_) => PType::I16,
            PValue::I32(_) => PType::I32,
            PValue::I64(_) => PType::I64,
            PValue::F16(_) => PType::F16,
            PValue::F32(_) => PType::F32,
            PValue::F64(_) => PType::F64,
        }
    }

    /// Returns the type of the number.
    pub fn ptype(&self) -> (ptype: PType)
        ensures
            ptype == self.spec_ptype(),
    {
        match self {
            PValue::U8(_) => PType::U8,
            PValue::U16(_) => PType::U16,
            PValue::U32(_) => PType::U32,
            PValue::U64(_) => PType::U64,
            PValue::I8(_) => PType::I8,
            PValue::I16(_) => PType::I16,
            PValue::I32(_) => PType::I32,
            PValue::I64(_) => PType::I64,
            PValue::F16(_) => PType::F16,
            PValue::F32(_) => PType::F32,
            PValue::F64(_) => PType::F64,
        }
    }
}

impl ToBytes for PValue {
    open spec fn spec_le_bytes(&self) -> Seq<u8> {
        match *self {
            PValue::U8(v) => v.spec_le_bytes(),
            PValue::U16(v) => v.spec_le_bytes(),
            PValue::U32(v) => v.spec_le_bytes(),
            PValue::U64(v) => v.spec_le_bytes(),
            PValue::I8(v) => v.spec_le_bytes(),
            PValue::I16(v) => v.spec_le_bytes(),
            PValue::I32(v) => v.spec_le_bytes(),
            PValue::I64(v) => v.spec_le_bytes(),
            PValue::F16(v) => v.spec_le_bytes(),
            PValue::F32(v) => v.spec_le_bytes(),
            PValue::F64(v) => v.spec_le_bytes(),
        }
    }

    fn to_le_bytes(&self) -> (bytes: Vec<u8>) {
        match self {
            PValue::U8(v) => ToBytes::to_le_bytes(v),
            PValue::U16(v) => ToBytes::to_le_bytes(v),
            PValue::U32(v) => ToBytes::to_le_bytes(v),
            PValue::U64(v) => ToBytes::to_le_bytes(v),
            PValue::I8(v) => ToBytes::to_le_bytes(v),
            PValue::I16(v) => ToBytes::to_le_bytes(v),
            PValue::I32(v) => ToBytes::to_le_bytes(v),
            PValue::I64(v) => ToBytes::to_le_bytes(v),
            PValue::F16(v) => ToBytes::to_le_bytes(v),
            PValue::F32(v) => ToBytes::to_le_bytes(v),
            PValue::F64(v) => ToBytes::to_le_bytes(v),
        }
    }
}

impl ToBytes for DecimalValue {
    open spec fn spec_le_bytes(&self) -> Seq<u8> {
        match *self {
            DecimalValue::I8(v) => v.spec_le_bytes(),
            DecimalValue::I16(v) => v.spec_le_bytes(),
            DecimalValue::I32(v) => v.spec_le_bytes(),
            DecimalValue::I64(v) => v.spec_le_bytes(),
            DecimalValue::I128(v) => v.spec_le_bytes(),
            DecimalValue::I256(v) => v.spec_le_bytes(),
        }
    }

    fn to_le_bytes(&self) -> (bytes: Vec<u8>) {
        match self {
            DecimalValue::I8(v) => ToBytes::to_le_bytes(v),
            DecimalValue::I16(v) => ToBytes::to_le_bytes(v),
            DecimalValue::I32(v) => ToBytes::to_le_bytes(v),
            DecimalValue::I64(v) => ToBytes::to_le_bytes(v),
            DecimalValue::I128(v) => ToBytes::to_le_bytes(v),
            DecimalValue::I256(v) => ToBytes::to_le_bytes(v),
        }
    }
}

impl ScalarValue {
    /// The bytes that stand for the value in a filter, where there are any.
    pub open spec fn spec_bytes(self) -> Option<Seq<u8>> {
        match self {
            ScalarValue::Bool(v) => Some(v.spec_le_bytes()),
            ScalarValue::Primitive(v) => Some(v.spec_le_bytes()),
            ScalarValue::Decimal(v) => Some(v.spec_le_bytes()),
            ScalarValue::Utf8(v) => Some(vstd::utf8::encode_utf8(v@)),
            ScalarValue::Binary(v) => Some(v@),
            ScalarValue::Nested => None,
        }
    }
}

/// Whether a value of a type can be the given one. `None` is null.
pub open spec fn value_fits(dtype: DType, value: Option<ScalarValue>) -> bool {
    match value {
        None => dtype.spec_nullability() is Nullable,
        Some(v) => match dtype.storage() {
            DType::Bool(_) => v is Bool,
            DType::Primitive(ptype, _) => v matches ScalarValue::Primitive(p) && p.spec_ptype()
                == ptype,
            DType::Decimal(_, _, _) => v is Decimal,
            DType::Utf8(_) => v is Utf8,
            DType::Binary(_) => v is Binary,
            DType::Null | DType::Extension(_) => false,
            _ => v is Nested,
        },
    }
}

fn check_value(dtype: &DType, value: &Option<ScalarValue>) -> (fits: bool)
    ensures
        fits == value_fits(*dtype, *value),
    decreases dtype,
{
    match value {
        None => match dtype.nullability() {
            Nullability::Nullable => true,
            Nullability::NonNullable => false,
        },
        Some(v) => match dtype {
            DType::Extension(storage) => check_value(storage, value),
            DType::Bool(_) => matches!(v, ScalarValue::Bool(_)),
            DType::Primitive(ptype, _) => match v {
                ScalarValue::Primitive(p) => p.ptype() == *ptype,
                _ => false,
            },
            DType::Decimal(_, _, _) => matches!(v, ScalarValue::Decimal(_)),
            DType::Utf8(_) => matches!(v, ScalarValue::Utf8(_)),
            DType::Binary(_) => matches!(v, ScalarValue::Binary(_)),
            DType::Null => false,
            _ => matches!(v, ScalarValue::Nested),
        },
    }
}

/// A typed value, or a typed null.
#[derive(Debug)]
pub struct Scalar {
    dtype: DType,
    value: Option<ScalarValue>,
}

impl Scalar {
    /// The type of the scalar.
    pub closed spec fn spec_dtype(self) -> DType {
        self.dtype
    }

    /// The value, `None` where it is null.
    pub closed spec fn spec_value(self) -> Option<ScalarValue> {
        self.value
    }

    /// The value is one of the type.
    #[verifier::type_invariant]
    pub closed spec fn wf(self) -> bool {
        value_fits(self.dtype, self.value)
    }

    /// The bytes that stand for the scalar in a filter, where there are any.
    pub open spec fn spec_bytes(self) -> Option<Seq<u8>> {
        match self.spec_value() {
            Some(v) => v.spec_bytes(),
            None => None,
        }
    }

    /// A scalar is well formed exactly where its value is one of its type.
    pub proof fn lemma_wf(self)
        ensures
            self.wf() == value_fits(self.spec_dtype(), self.spec_value()),
    {
    }

    /// Creates a scalar, or returns `None` where the value is not one of the type.
    pub fn try_new(dtype: DType, value: Option<ScalarValue>) -> (r: Option<Scalar>)
        ensures
            r is Some <==> value_fits(dtype, value),
            r matches Some(s) ==> s.spec_dtype() == dtype && s.spec_value() == value,
    {
        if check_value(&dtype, &value) {
            Some(Scalar { dtype, value })
        } else {
            None
        }
    }

    /// The null of a type.
    pub fn null(dtype: DType) -> (s: Scalar)
        requires
            dtype.spec_nullability() is Nullable,
        ensures
            s.spec_dtype() == dtype,
            s.spec_value() is None,
    {
        Scalar { dtype, value: None }
    }

    /// A boolean.
    pub fn bool(value: bool, nullability: Nullability) -> (s: Scalar)
        ensures
            s.spec_dtype() == DType::Bool(nullability),
            s.spec_value() == Some(ScalarValue::Bool(value)),
    {
        Scalar { dtype: DType::Bool(nullability), value: Some(ScalarValue::Bool(value)) }
    }

    /// A fixed-width number.
    pub fn primitive(value: PValue, nullability: Nullability) -> (s: Scalar)
        ensures
            s.spec_dtype() == DType::Primitive(value.spec_ptype(), nullability),
            s.spec_value() == Some(ScalarValue::Primitive(value)),
    {
        Scalar {
            dtype: DType::Primitive(value.ptype(), nullability),
            value: Some(ScalarValue::Primitive(value)),
        }
    }

    /// A decimal number.
    pub fn decimal(
        value: DecimalValue,
        precision: u8,
        scale: i8,
        nullability: Nullability,
    ) -> (s: Scalar)
        ensures
            s.spec_dtype() == DType::Decimal(precision, scale, nullability),
            s.spec_value() == Some(ScalarValue::Decimal(value)),
    {
        Scalar {
            dtype: DType::Decimal(precision, scale, nullability),
            value: Some(ScalarValue::Decimal(value)),
        }
    }

    /// A string.
    pub fn utf8(value: String, nullability: Nullability) -> (s: Scalar)
        ensures
            s.spec_dtype() == DType::Utf8(nullability),
            s.spec_value() == Some(ScalarValue::Utf8(value)),
    {
        Scalar { dtype: DType::Utf8(nullability), value: Some(ScalarValue::Utf8(value)) }
    }

    /// A byte string.
    pub fn binary(value: Vec<u8>, nullability: Nullability) -> (s: Scalar)
        ensures
            s.spec_dtype() == DType::Binary(nullability),
            s.spec_value() == Some(ScalarValue::Binary(value)),
    {
        Scalar { dtype: DType::Binary(nullability), value: Some(ScalarValue::Binary(value)) }
    }

    /// An extension value, given by the scalar that it is stored as.
    pub fn extension(storage: Scalar) -> (s: Scalar)
        ensures
            s.spec_dtype() == DType::Extension(Box::new(storage.spec_dtype())),
            s.spec_value() == storage.spec_value(),
    {
        proof {
            use_type_invariant(&storage);
        }
        Scalar { dtype: DType::Extension(Box::new(storage.dtype)), value: storage.value }
    }

    /// Returns the type of the scalar.
    pub fn dtype(&self) -> (dtype: &DType)
        ensures
            *dtype == self.spec_dtype(),
    {
        &self.dtype
    }

    /// Returns the value, `None` where it is null.
    pub fn value(&self) -> (value: &Option<ScalarValue>)
        ensures
            *value == self.spec_value(),
            value_fits(self.spec_dtype(), self.spec_value()),
    {
        proof {
            use_type_invariant(self);
        }
        &self.value
    }

    /// Whether the scalar is null.
    pub fn is_null(&self) -> (null: bool)
        ensures
            null == (self.spec_value() is None),
    {
        self.value.is_none()
    }

    /// Whether the scalar is not null.
    pub fn is_valid(&self) -> (valid: bool)
        ensures
            valid == (self.spec_value() is Some),
    {
        self.value.is_some()
    }
}

/// The bytes of a value are those of what it holds: of a number the bytes of its own type, of a
/// string its whole UTF-8 form, of a byte string all of its bytes. Nested values have none.
pub proof fn law_bytes_of_values(value: ScalarValue)
    ensures
        match value {
            ScalarValue::Bool(v) => value.spec_bytes() == Some(v.spec_le_bytes()),
            ScalarValue::Primitive(number) => match number {
                PValue::U8(v) => value.spec_bytes() == Some(v.spec_le_bytes()),
                PValue::U16(v) => value.spec_bytes() == Some(v.spec_le_bytes()),
                PValue::U32(v) => value.spec_bytes() == Some(v.spec_le_bytes()),
                PValue::U64(v) => value.spec_bytes() == Some(v.spec_le_bytes()),
                PValue::I8(v) => value.spec_bytes() == Some(v.spec_le_bytes()),
                PValue::I16(v) => value.spec_bytes() == Some(v.spec_le_bytes()),
                PValue::I32(v) => value.spec_bytes() == Some(v.spec_le_bytes()),
                PValue::I64(v) => value.spec_bytes() == Some(v.spec_le_bytes()),
                PValue::F16(v) => value.spec_bytes() == Some(v.spec_le_bytes()),
                PValue::F32(v) => value.spec_bytes() == Some(v.spec_le_bytes()),
                PValue::F64(v) => value.spec_bytes() == Some(v.spec_le_bytes()),
            },
            ScalarValue::Decimal(number) => match number {
                DecimalValue::I8(v) => value.spec_bytes() == Some(v.spec_le_bytes()),
                DecimalValue::I16(v) => value.spec_bytes() == Some(v.spec_le_bytes()),
                DecimalValue::I32(v) => value.spec_bytes() == Some(v.spec_le_bytes()),
                DecimalValue::I64(v) => value.spec_bytes() == Some(v.spec_le_bytes()),
                DecimalValue::I128(v) => value.spec_bytes() == Some(v.spec_le_bytes()),
                DecimalValue::I256(v) => value.spec_bytes() == Some(v.spec_le_bytes()),
            },
            ScalarValue::Utf8(v) => value.spec_bytes() == Some(vstd::utf8::encode_utf8(v@)),
            ScalarValue::Binary(v) => value.spec_bytes() == Some(v@),
            ScalarValue::Nested => value.spec_bytes() is None,
        },
{
}

/// The bytes of a scalar are those of its value, whatever its type. Null has none.
pub proof fn law_bytes_of_scalars(s: Scalar)
    ensures
        match s.spec_value() {
            Some(value) => s.spec_bytes() == value.spec_bytes(),
            None => s.spec_bytes() is None,
        },
{
}

/// The type of a number is that of what it holds.
pub proof fn law_types_of_numbers(value: PValue)
    ensures
        match value {
            PValue::U8(_) => value.spec_ptype() is U8,
            PValue::U16(_) => value.spec_ptype() is U16,
            PValue::U32(_) => value.spec_ptype() is U32,
            PValue::U64(_) => value.spec_ptype() is U64,
            PValue::I8(_) => value.spec_ptype() is I8,
            PValue::I16(_) => value.spec_ptype() is I16,
            PValue::I32(_) => value.spec_ptype() is I32,
            PValue::I64(_) => value.spec_ptype() is I64,
            PValue::F16(_) => value.spec_ptype() is F16,
            PValue::F32(_) => value.spec_ptype() is F32,
            PValue::F64(_) => value.spec_ptype() is F64,
        },
{
}

/// Null is a value of each nullable type and of no other.
pub proof fn law_null_fits_nullable_types(dtype: DType)
    ensures
        value_fits(dtype, None) <==> dtype.spec_nullability() is Nullable,
{
}

/// A value is one of the types for values of its kind, and of the extension types that are stored
/// as such.
pub proof fn law_values_fit_their_types(dtype: DType, value: ScalarValue)
    ensures
        match dtype {
            DType::Bool(_) => value_fits(dtype, Some(value)) <==> value is Bool,
            DType::Primitive(ptype, _) => value_fits(dtype, Some(value)) <==> (
            value matches ScalarValue::Primitive(number) && number.spec_ptype() == ptype),
            DType::Decimal(_, _, _) => value_fits(dtype, Some(value)) <==> value is Decimal,
            DType::Utf8(_) => value_fits(dtype, Some(value)) <==> value is Utf8,
            DType::Binary(_) => value_fits(dtype, Some(value)) <==> value is Binary,
            DType::Null => !value_fits(dtype, Some(value)),
            DType::Extension(storage) => value_fits(dtype, Some(value)) <==> value_fits(
                *storage,
                Some(value),
            ),
            _ => value_fits(dtype, Some(value)) <==> value is Nested,
        },
{
}

} // verus!
