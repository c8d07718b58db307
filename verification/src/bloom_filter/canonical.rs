//! Arrays in canonical form, and their accumulation into a filter.

use vstd::prelude::*;

use crate::error::BloomError;
use crate::le::{F16, F32, F64, I256, ToBytes};

use super::partial;
use super::partial::BloomPartial;

verus! {

/// Which values of an array are valid, that is, not null.
#[derive(Debug)]
pub enum Mask {
    /// All of them. The length of the array is given.
    AllTrue(usize),
    /// None of them. The length of the array is given.
    AllFalse(usize),
    /// Those marked `true`.
    Values(Vec<bool>),
}

impl Clone for Mask {
    fn clone(&self) -> (r: Mask)
        ensures
            r.same_as(*self),
    {
        match self {
            Mask::AllTrue(len) => Mask::AllTrue(*len),
            Mask::AllFalse(len) => Mask::AllFalse(*len),
            Mask::Values(v) => {
                let mut copy: Vec<bool> = Vec::new();
                copy.extend_from_slice(v.as_slice());
                assert(copy@ =~= v@);
                Mask::Values(copy)
            },
        }
    }
}

impl Mask {
    /// Whether two masks are of the same form and mark the same values.
    pub open spec fn same_as(self, other: Mask) -> bool {
        match (self, other) {
            (Mask::AllTrue(a), Mask::AllTrue(b)) => a == b,
            (Mask::AllFalse(a), Mask::AllFalse(b)) => a == b,
            (Mask::Values(a), Mask::Values(b)) => a@ == b@,
            _ => false,
        }
    }

    /// Whether the value at `i` is valid.
    pub open spec fn spec_is_valid(self, i: int) -> bool {
        match self {
            Mask::AllTrue(_) => true,
            Mask::AllFalse(_) => false,
            Mask::Values(v) => 0 <= i < v@.len() && v@[i],
        }
    }

    /// Returns whether the value at `i` is valid.
    pub fn is_valid(&self, i: usize) -> (valid: bool)
        ensures
            valid == self.spec_is_valid(i as int),
    {
        match self {
            Mask::AllTrue(_) => true,
            Mask::AllFalse(_) => false,
            Mask::Values(v) => i < v.len() && v[i],
        }
    }
}

/// Fixed-width numbers, all of one type.
#[derive(Debug)]
pub enum PrimitiveValues {
    /// 8-bit unsigned integers.
    U8(Vec<u8>),
    /// 16-bit unsigned integers.
    U16(Vec<u16>),
    /// 32-bit unsigned integers.
    U32(Vec<u32>),
    /// 64-bit unsigned integers.
    U64(Vec<u64>),
    /// 8-bit signed integers.
    I8(Vec<i8>),
    /// 16-bit signed integers.
    I16(Vec<i16>),
    /// 32-bit signed integers.
    I32(Vec<i32>),
    /// 64-bit signed integers.
    I64(Vec<i64>),
    /// 16-bit floating point numbers.
    F16(Vec<F16>),
    /// 32-bit floating point numbers.
    F32(Vec<F32>),
    /// 64-bit floating point numbers.
    F64(Vec<F64>),
}

/// Decimal numbers, all of one width.
#[derive(Debug)]
pub enum DecimalValues {
    /// 8 bits wide.
    I8(Vec<i8>),
    /// 16 bits wide.
    I16(Vec<i16>),
    /// 32 bits wide.
    I32(Vec<i32>),
    /// 64 bits wide.
    I64(Vec<i64>),
    /// 128 bits wide.
    I128(Vec<i128>),
    /// 256 bits wide.
    I256(Vec<I256>),
}

/// An array of booleans.
#[derive(Debug)]
pub struct BoolArray {
    /// The values. Those that are not valid mean nothing.
    pub values: Vec<bool>,
    /// Which values are valid.
    pub validity: Mask,
}

/// An array of fixed-width numbers.
#[derive(Debug)]
pub struct PrimitiveArray {
    /// The values. Those that are not valid mean nothing.
    pub values: PrimitiveValues,
    /// Which values are valid.
    pub validity: Mask,
}

/// An array of decimal numbers.
#[derive(Debug)]
pub struct DecimalArray {
    /// The values. Those that are not valid mean nothing.
    pub values: DecimalValues,
    /// Which values are valid.
    pub validity: Mask,
}

/// An array of strings or of byte strings, both given by their bytes.
#[derive(Debug)]
pub struct VarBinViewArray {
    /// The values. Those that are not valid mean nothing.
    pub values: Vec<Vec<u8>>,
    /// Which values are valid.
    pub validity: Mask,
}

/// An array in canonical form. Of nested arrays, which no filter accumulates, nothing is kept.
#[derive(Debug)]
pub enum Canonical {
    /// An array of nulls. Its length is given.
    Null(usize),
    /// Booleans.
    Bool(BoolArray),
    /// Fixed-width numbers.
    Primitive(PrimitiveArray),
    /// Decimal numbers.
    Decimal(DecimalArray),
    /// Strings or byte strings.
    VarBinView(VarBinViewArray),
    /// Values of an extension type, by the array that they are stored as.
    Extension(Box<Canonical>),
    /// Structs.
    Struct,
    /// Lists of varying length.
    List,
    /// Lists of fixed length.
    FixedSizeList,
    /// Dynamically typed values.
    Variant,
    /// Unions.
    Union,
    /// Maps.
    Mapping,
}

/// The bytes of the valid values of an array, in order.
pub open spec fn valid_items<T: ToBytes>(values: Seq<T>, validity: Mask) -> Seq<Seq<u8>>
    decreases values.len(),
{
    if values.len() == 0 {
        Seq::empty()
    } else {
        let items = valid_items(values.drop_last(), validity);
        if validity.spec_is_valid(values.len() - 1) {
            items.push(values.last().spec_le_bytes())
        } else {
            items
        }
    }
}

impl ToBytes for Vec<u8> {
    open spec fn spec_le_bytes(&self) -> Seq<u8> {
        self@
    }

    fn to_le_bytes(&self) -> (bytes: Vec<u8>) {
        let mut bytes: Vec<u8> = Vec::new();
        bytes.extend_from_slice(self.as_slice());
        assert(bytes@ =~= self@);
        bytes
    }
}

impl PrimitiveArray {
    /// The bytes of the valid values, in order.
    pub open spec fn items(self) -> Seq<Seq<u8>> {
        match self.values {
            PrimitiveValues::U8(v) => valid_items(v@, self.validity),
            PrimitiveValues::U16(v) => valid_items(v@, self.validity),
            PrimitiveValues::U32(v) => valid_items(v@, self.validity),
            PrimitiveValues::U64(v) => valid_items(v@, self.validity),
            PrimitiveValues::I8(v) => valid_items(v@, self.validity),
            PrimitiveValues::I16(v) => valid_items(v@, self.validity),
            PrimitiveValues::I32(v) => valid_items(v@, self.validity),
            PrimitiveValues::I64(v) => valid_items(v@, self.validity),
            PrimitiveValues::F16(v) => valid_items(v@, self.validity),
            PrimitiveValues::F32(v) => valid_items(v@, self.validity),
            PrimitiveValues::F64(v) => valid_items(v@, self.validity),
        }
    }
}

impl DecimalArray {
    /// The bytes of the valid values, in order.
    pub open spec fn items(self) -> Seq<Seq<u8>> {
        match self.values {
            DecimalValues::I8(v) => valid_items(v@, self.validity),
            DecimalValues::I16(v) => valid_items(v@, self.validity),
            DecimalValues::I32(v) => valid_items(v@, self.validity),
            DecimalValues::I64(v) => valid_items(v@, self.validity),
            DecimalValues::I128(v) => valid_items(v@, self.validity),
            DecimalValues::I256(v) => valid_items(v@, self.validity),
        }
    }
}

impl Canonical {
    /// Whether a filter accumulates arrays of this kind.
    pub open spec fn supported(self) -> bool
        decreases self,
    {
        match self {
            Canonical::Extension(storage) => storage.supported(),
            Canonical::Struct
            | Canonical::List
            | Canonical::FixedSizeList
            | Canonical::Variant
            | Canonical::Union
            | Canonical::Mapping => false,
            _ => true,
        }
    }

    /// The bytes of the valid values, in order. There are none in an array of nulls.
    pub open spec fn items(self) -> Seq<Seq<u8>>
        decreases self,
    {
        match self {
            Canonical::Bool(array) => valid_items(array.values@, array.validity),
            Canonical::Primitive(array) => array.items(),
            Canonical::Decimal(array) => array.items(),
            Canonical::VarBinView(array) => valid_items(array.values@, array.validity),
            Canonical::Extension(storage) => storage.items(),
            _ => Seq::empty(),
        }
    }
}

/// Inserts the valid values among those given.
fn accumulate_values<T: ToBytes>(values: &Vec<T>, validity: &Mask, partial: &mut BloomPartial)
    requires
        old(partial).wf(),
    ensures
        final(partial).wf(),
        final(partial)@ == partial::insert_all_bits(
            old(partial)@,
            partial::hashes_of(old(partial).spec_hash_fn(), valid_items(values@, *validity)),
        ),
        final(partial).spec_len() == old(partial).spec_len(),
        final(partial).spec_hash_fn() == old(partial).spec_hash_fn(),
{
    let ghost hash_fn = partial.spec_hash_fn();
    let count = values.len();
    let mut i: usize = 0;
    assert(values@.take(0) =~= Seq::<T>::empty());
    assert(partial::hashes_of(hash_fn, Seq::empty()) =~= Seq::<u64>::empty());
    while i < count
        invariant
            i <= count,
            count == values@.len(),
            hash_fn == old(partial).spec_hash_fn(),
            partial.wf(),
            partial@ == partial::insert_all_bits(
                old(partial)@,
                partial::hashes_of(hash_fn, valid_items(values@.take(i as int), *validity)),
            ),
            partial.spec_len() == old(partial).spec_len(),
            partial.spec_hash_fn() == hash_fn,
        decreases count - i,
    {
        proof {
            let longer = values@.take(i + 1);
            assert(longer.drop_last() =~= values@.take(i as int));
            let items = valid_items(values@.take(i as int), *validity);
            if validity.spec_is_valid(i as int) {
                let hashes = partial::hashes_of(hash_fn, valid_items(longer, *validity));
                assert(hashes.drop_last() =~= partial::hashes_of(hash_fn, items));
                assert(hashes.last() == hash_fn.spec_hash(values@[i as int].spec_le_bytes()));
            }
        }
        if validity.is_valid(i) {
            partial.insert_primitive(&values[i]);
        }
        i = i + 1;
    }
    assert(values@.take(count as int) =~= values@);
}

/// Inserts the valid values of an array of booleans.
pub fn accumulate_bool(array: &BoolArray, partial: &mut BloomPartial)
    requires
        old(partial).wf(),
    ensures
        final(partial).wf(),
        final(partial)@ == partial::insert_all_bits(
            old(partial)@,
            partial::hashes_of(
                old(partial).spec_hash_fn(),
                valid_items(array.values@, array.validity),
            ),
        ),
        final(partial).spec_len() == old(partial).spec_len(),
        final(partial).spec_hash_fn() == old(partial).spec_hash_fn(),
{
    accumulate_values(&array.values, &array.validity, partial);
}

/// Inserts the valid values of an array of fixed-width numbers.
pub fn accumulate_primitive(array: &PrimitiveArray, partial: &mut BloomPartial)
    requires
        old(partial).wf(),
    ensures
        final(partial).wf(),
        final(partial)@ == partial::insert_all_bits(
            old(partial)@,
            partial::hashes_of(old(partial).spec_hash_fn(), array.items()),
        ),
        final(partial).spec_len() == old(partial).spec_len(),
        final(partial).spec_hash_fn() == old(partial).spec_hash_fn(),
{
    match &array.values {
        PrimitiveValues::U8(v) => accumulate_values(v, &array.validity, partial),
        PrimitiveValues::U16(v) => accumulate_values(v, &array.validity, partial),
        PrimitiveValues::U32(v) => accumulate_values(v, &array.validity, partial),
        PrimitiveValues::U64(v) => accumulate_values(v, &array.validity, partial),
        PrimitiveValues::I8(v) => accumulate_values(v, &array.validity, partial),
        PrimitiveValues::I16(v) => accumulate_values(v, &array.validity, partial),
        PrimitiveValues::I32(v) => accumulate_values(v, &array.validity, partial),
        PrimitiveValues::I64(v) => accumulate_values(v, &array.validity, partial),
        PrimitiveValues::F16(v) => accumulate_values(v, &array.validity, partial),
        PrimitiveValues::F32(v) => accumulate_values(v, &array.validity, partial),
        PrimitiveValues::F64(v) => accumulate_values(v, &array.validity, partial),
    }
}

/// Inserts the valid values of an array of decimal numbers.
pub fn accumulate_decimal(array: &DecimalArray, partial: &mut BloomPartial)
    requires
        old(partial).wf(),
    ensures
        final(partial).wf(),
        final(partial)@ == partial::insert_all_bits(
            old(partial)@,
            partial::hashes_of(old(partial).spec_hash_fn(), array.items()),
        ),
        final(partial).spec_len() == old(partial).spec_len(),
        final(partial).spec_hash_fn() == old(partial).spec_hash_fn(),
{
    match &array.values {
        DecimalValues::I8(v) => accumulate_values(v, &array.validity, partial),
        DecimalValues::I16(v) => accumulate_values(v, &array.validity, partial),
        DecimalValues::I32(v) => accumulate_values(v, &array.validity, partial),
        DecimalValues::I64(v) => accumulate_values(v, &array.validity, partial),
        DecimalValues::I128(v) => accumulate_values(v, &array.validity, partial),
        DecimalValues::I256(v) => accumulate_values(v, &array.validity, partial),
    }
}

/// Inserts the valid values of an array of strings or byte strings.
pub fn accumulate_varbin(array: &VarBinViewArray, partial: &mut BloomPartial)
    requires
        old(partial).wf(),
    ensures
        final(partial).wf(),
        final(partial)@ == partial::insert_all_bits(
            old(partial)@,
            partial::hashes_of(
                old(partial).spec_hash_fn(),
                valid_items(array.values@, array.validity),
            ),
        ),
        final(partial).spec_len() == old(partial).spec_len(),
        final(partial).spec_hash_fn() == old(partial).spec_hash_fn(),
{
    accumulate_values(&array.values, &array.validity, partial);
}

/// Inserts the valid values of an array. Nulls are skipped and are not part of any filter.
/// An unsupported array is rejected and leaves the filter as it was.
pub fn accumulate_canonical(canonical: &Canonical, partial: &mut BloomPartial) -> (r: Result<
    (),
    BloomError,
>)
    requires
        old(partial).wf(),
    ensures
        r == if canonical.supported() {
            Ok::<(), BloomError>(())
        } else {
            Err(BloomError::UnsupportedCanonical)
        },
        final(partial).wf(),
        canonical.supported() ==> final(partial)@ == partial::insert_all_bits(
            old(partial)@,
            partial::hashes_of(old(partial).spec_hash_fn(), canonical.items()),
        ),
        !canonical.supported() ==> final(partial)@ == old(partial)@,
        final(partial).spec_len() == old(partial).spec_len(),
        final(partial).spec_hash_fn() == old(partial).spec_hash_fn(),
    decreases canonical,
{
    match canonical {
        Canonical::Bool(array) => {
            accumulate_bool(array, partial);
            Ok(())
        },
        Canonical::Primitive(array) => {
            accumulate_primitive(array, partial);
            Ok(())
        },
        Canonical::Decimal(array) => {
            accumulate_decimal(array, partial);
            Ok(())
        },
        Canonical::VarBinView(array) => {
            accumulate_varbin(array, partial);
            Ok(())
        },
        Canonical::Extension(storage) => accumulate_canonical(storage, partial),
        Canonical::Null(_) => {
            assert(partial::hashes_of(partial.spec_hash_fn(), Seq::empty()) =~= Seq::<u64>::empty());
            Ok(())
        },
        Canonical::Struct
        | Canonical::List
        | Canonical::FixedSizeList
        | Canonical::Variant
        | Canonical::Union
        | Canonical::Mapping => Err(BloomError::UnsupportedCanonical),
    }
}

} // verus!
