//! Little-endian byte order.

use vstd::arithmetic::div_mod;
use vstd::arithmetic::power;
use vstd::prelude::*;

verus! {

/// The `width` lowest bytes of a number, the lowest first.
pub open spec fn le_bytes(value: nat, width: nat) -> Seq<u8>
    decreases width,
{
    if width == 0 {
        Seq::empty()
    } else {
        seq![(value % 256) as u8] + le_bytes(value / 256, (width - 1) as nat)
    }
}

/// The number whose bytes, the lowest first, are given.
pub open spec fn le_value(bytes: Seq<u8>) -> nat
    decreases bytes.len(),
{
    if bytes.len() == 0 {
        0
    } else {
        bytes[0] as nat + 256 * le_value(bytes.drop_first())
    }
}

/// The number of values that `width` bytes can hold.
pub open spec fn capacity(width: nat) -> nat
    decreases width,
{
    if width == 0 {
        1
    } else {
        256 * capacity((width - 1) as nat)
    }
}

/// The form of a number has the width asked for.
pub proof fn lemma_le_bytes_len(value: nat, width: nat)
    ensures
        le_bytes(value, width).len() == width,
    decreases width,
{
    if width > 0 {
        lemma_le_bytes_len(value / 256, (width - 1) as nat);
    }
}

/// A number that fits is read back from its bytes.
pub proof fn law_le_value_of_le_bytes(value: nat, width: nat)
    requires
        value < capacity(width),
    ensures
        le_value(le_bytes(value, width)) == value,
    decreases width,
{
    if width > 0 {
        let rest = le_bytes(value / 256, (width - 1) as nat);
        law_le_value_of_le_bytes(value / 256, (width - 1) as nat);
        assert(le_bytes(value, width).drop_first() =~= rest);
    }
}

/// The bytes of a number are read back from it.
pub proof fn law_le_bytes_of_le_value(bytes: Seq<u8>)
    ensures
        le_bytes(le_value(bytes), bytes.len()) == bytes,
        le_value(bytes) < capacity(bytes.len()),
    decreases bytes.len(),
{
    if bytes.len() > 0 {
        let rest = bytes.drop_first();
        law_le_bytes_of_le_value(rest);
        assert(le_value(bytes) % 256 == bytes[0]);
        assert(le_value(bytes) / 256 == le_value(rest));
        assert(bytes =~= seq![bytes[0]] + rest);
    }
}

/// Different numbers that fit have different bytes.
pub proof fn law_le_bytes_injective(a: nat, b: nat, width: nat)
    requires
        a < capacity(width),
        b < capacity(width),
        le_bytes(a, width) == le_bytes(b, width),
    ensures
        a == b,
{
    law_le_value_of_le_bytes(a, width);
    law_le_value_of_le_bytes(b, width);
}

/// Writes the `width` lowest bytes of a number, the lowest first.
pub fn write_le(value: u128, width: usize) -> (bytes: Vec<u8>)
    ensures
        bytes@ == le_bytes(value as nat, width as nat),
{
    let mut bytes: Vec<u8> = Vec::new();
    let mut rest = value;
    let mut i: usize = 0;
    while i < width
        invariant
            i <= width,
            bytes@ + le_bytes(rest as nat, (width - i) as nat) == le_bytes(
                value as nat,
                width as nat,
            ),
        decreases width - i,
    {
        let ghost before = bytes@;
        let ghost tail = le_bytes((rest / 256) as nat, (width - i - 1) as nat);
        bytes.push((rest % 256) as u8);
        assert(bytes@ + tail =~= before + (seq![(rest % 256) as u8] + tail));
        rest = rest / 256;
        i = i + 1;
    }
    assert(bytes@ =~= bytes@ + le_bytes(rest as nat, 0));
    bytes
}

/// The two's complement form of a 128-bit integer.
fn twos_complement(signed: i128) -> (unsigned: u128)
    ensures
        unsigned == signed as int % 0x1_0000_0000_0000_0000_0000_0000_0000_0000int,
{
    let unsigned = #[verifier::truncate]
    (signed as u128);
    assert(unsigned == if signed >= 0 {
        signed as int
    } else {
        signed + 0x1_0000_0000_0000_0000_0000_0000_0000_0000int
    }) by (bit_vector)
        requires
            unsigned == signed as u128,
    ;
    unsigned
}

/// Reads four bytes, the lowest first.
pub fn read_u32(bytes: &[u8]) -> (value: u32)
    requires
        bytes@.len() >= 4,
    ensures
        value == le_value(bytes@.subrange(0, 4)),
{
    let value = bytes[0] as u32 + 256 * (bytes[1] as u32) + 65536 * (bytes[2] as u32) + 16777216 * (
    bytes[3] as u32);
    proof {
        let s0 = bytes@.subrange(0, 4);
        let s1 = s0.drop_first();
        let s2 = s1.drop_first();
        let s3 = s2.drop_first();
        let s4 = s3.drop_first();
        assert(le_value(s4) == 0);
        assert(le_value(s3) == bytes@[3] as nat + 256 * le_value(s4));
        assert(le_value(s2) == bytes@[2] as nat + 256 * le_value(s3));
        assert(le_value(s1) == bytes@[1] as nat + 256 * le_value(s2));
    }
    value
}

/// A 256-bit signed integer, `high * 2^128 + low`.
#[derive(Clone, Copy, Debug, PartialEq, Eq, Hash, Structural)]
pub struct I256 {
    /// The lower 128 bits.
    pub low: u128,
    /// The upper 128 bits, which carry the sign.
    pub high: i128,
}

/// A 16-bit floating point number, held as its bit pattern.
#[derive(Clone, Copy, Debug, PartialEq, Eq, Hash, Structural)]
pub struct F16 {
    /// The bit pattern.
    pub bits: u16,
}

/// A 32-bit floating point number, held as its bit pattern.
#[derive(Clone, Copy, Debug, PartialEq, Eq, Hash, Structural)]
pub struct F32 {
    /// The bit pattern.
    pub bits: u32,
}

/// A 64-bit floating point number, held as its bit pattern.
#[derive(Clone, Copy, Debug, PartialEq, Eq, Hash, Structural)]
pub struct F64 {
    /// The bit pattern.
    pub bits: u64,
}

/// Values with a fixed-width byte form. Signed integers take their two's complement form and
/// floating point numbers their bit pattern.
pub trait ToBytes {
    /// The bytes of the value, the lowest first.
    spec fn spec_le_bytes(&self) -> Seq<u8>;

    /// Returns the bytes of the value, the lowest first.
    fn to_le_bytes(&self) -> (bytes: Vec<u8>)
        ensures
            bytes@ == self.spec_le_bytes(),
    ;
}

impl ToBytes for bool {
    open spec fn spec_le_bytes(&self) -> Seq<u8> {
        seq![if *self { 1u8 } else { 0u8 }]
    }

    fn to_le_bytes(&self) -> (bytes: Vec<u8>) {
        let byte: u8 = if *self {
            1
        } else {
            0
        };
        vec![byte]
    }
}

impl ToBytes for u8 {
    open spec fn spec_le_bytes(&self) -> Seq<u8> {
        le_bytes(*self as nat, 1)
    }

    fn to_le_bytes(&self) -> (bytes: Vec<u8>) {
        write_le(*self as u128, 1)
    }
}

impl ToBytes for u16 {
    open spec fn spec_le_bytes(&self) -> Seq<u8> {
        le_bytes(*self as nat, 2)
    }

    fn to_le_bytes(&self) -> (bytes: Vec<u8>) {
        write_le(*self as u128, 2)
    }
}

impl ToBytes for u32 {
    open spec fn spec_le_bytes(&self) -> Seq<u8> {
        le_bytes(*self as nat, 4)
    }

    fn to_le_bytes(&self) -> (bytes: Vec<u8>) {
        write_le(*self as u128, 4)
    }
}

impl ToBytes for u64 {
    open spec fn spec_le_bytes(&self) -> Seq<u8> {
        le_bytes(*self as nat, 8)
    }

    fn to_le_bytes(&self) -> (bytes: Vec<u8>) {
        write_le(*self as u128, 8)
    }
}

impl ToBytes for i8 {
    open spec fn spec_le_bytes(&self) -> Seq<u8> {
        le_bytes((*self as int % 0x100) as nat, 1)
    }

    fn to_le_bytes(&self) -> (bytes: Vec<u8>) {
        let unsigned = #[verifier::truncate]
        (*self as u8);
        let signed = *self;
        assert(unsigned == if signed >= 0 {
            signed as int
        } else {
            signed + 0x100
        }) by (bit_vector)
            requires
                unsigned == signed as u8,
        ;
        write_le(unsigned as u128, 1)
    }
}

impl ToBytes for i16 {
    open spec fn spec_le_bytes(&self) -> Seq<u8> {
        le_bytes((*self as int % 0x1_0000) as nat, 2)
    }

    fn to_le_bytes(&self) -> (bytes: Vec<u8>) {
        let unsigned = #[verifier::truncate]
        (*self as u16);
        let signed = *self;
        assert(unsigned == if signed >= 0 {
            signed as int
        } else {
            signed + 0x1_0000
        }) by (bit_vector)
            requires
                unsigned == signed as u16,
        ;
        write_le(unsigned as u128, 2)
    }
}

impl ToBytes for i32 {
    open spec fn spec_le_bytes(&self) -> Seq<u8> {
        le_bytes((*self as int % 0x1_0000_0000) as nat, 4)
    }

    fn to_le_bytes(&self) -> (bytes: Vec<u8>) {
        let unsigned = #[verifier::truncate]
        (*self as u32);
        let signed = *self;
        assert(unsigned == if signed >= 0 {
            signed as int
        } else {
            signed + 0x1_0000_0000
        }) by (bit_vector)
            requires
                unsigned == signed as u32,
        ;
        write_le(unsigned as u128, 4)
    }
}

impl ToBytes for i64 {
    open spec fn spec_le_bytes(&self) -> Seq<u8> {
        le_bytes((*self as int % 0x1_0000_0000_0000_0000) as nat, 8)
    }

    fn to_le_bytes(&self) -> (bytes: Vec<u8>) {
        let unsigned = #[verifier::truncate]
        (*self as u64);
        let signed = *self;
        assert(unsigned == if signed >= 0 {
            signed as int
        } else {
            signed + 0x1_0000_0000_0000_0000
        }) by (bit_vector)
            requires
                unsigned == signed as u64,
        ;
        write_le(unsigned as u128, 8)
    }
}

impl ToBytes for i128 {
    open spec fn spec_le_bytes(&self) -> Seq<u8> {
        le_bytes((*self as int % 0x1_0000_0000_0000_0000_0000_0000_0000_0000int) as nat, 16)
    }

    fn to_le_bytes(&self) -> (bytes: Vec<u8>) {
        write_le(twos_complement(*self), 16)
    }
}

impl ToBytes for I256 {
    open spec fn spec_le_bytes(&self) -> Seq<u8> {
        le_bytes(self.low as nat, 16) + self.high.spec_le_bytes()
    }

    fn to_le_bytes(&self) -> (bytes: Vec<u8>) {
        let mut bytes = write_le(self.low, 16);
        let mut high = write_le(twos_complement(self.high), 16);
        bytes.append(&mut high);
        bytes
    }
}

impl ToBytes for F16 {
    open spec fn spec_le_bytes(&self) -> Seq<u8> {
        le_bytes(self.bits as nat, 2)
    }

    fn to_le_bytes(&self) -> (bytes: Vec<u8>) {
        write_le(self.bits as u128, 2)
    }
}

impl ToBytes for F32 {
    open spec fn spec_le_bytes(&self) -> Seq<u8> {
        le_bytes(self.bits as nat, 4)
    }

    fn to_le_bytes(&self) -> (bytes: Vec<u8>) {
        write_le(self.bits as u128, 4)
    }
}

impl ToBytes for F64 {
    open spec fn spec_le_bytes(&self) -> Seq<u8> {
        le_bytes(self.bits as nat, 8)
    }

    fn to_le_bytes(&self) -> (bytes: Vec<u8>) {
        write_le(self.bits as u128, 8)
    }
}

/// Byte `k` of a number is its digit for the power `k` of 256.
pub proof fn law_bytes_are_digits(value: nat, width: nat, k: int)
    requires
        0 <= k < width,
    ensures
        le_bytes(value, width).len() == width,
        le_bytes(value, width)[k] == (value / power::pow(256, k as nat) as nat) % 256,
    decreases width,
{
    reveal(power::pow);
    lemma_le_bytes_len(value, width);
    power::lemma_pow_positive(256, k as nat);
    let rest = le_bytes(value / 256, (width - 1) as nat);
    lemma_le_bytes_len(value / 256, (width - 1) as nat);
    if k > 0 {
        power::lemma_pow_positive(256, (k - 1) as nat);
        law_bytes_are_digits(value / 256, (width - 1) as nat, k - 1);
        div_mod::lemma_div_denominator(value as int, 256, power::pow(256, (k - 1) as nat));
        assert(le_bytes(value, width)[k] == rest[k - 1]);
    } else {
        assert(power::pow(256, 0) == 1);
    }
}

/// `width` bytes hold the numbers below that power of 256.
pub proof fn law_capacity_is_a_power(width: nat)
    ensures
        capacity(width) == power::pow(256, width),
    decreases width,
{
    reveal(power::pow);
    if width > 0 {
        law_capacity_is_a_power((width - 1) as nat);
    }
}

/// Four bytes stand for the number that they are the digits of, the lowest first.
pub proof fn law_value_of_four_bytes(bytes: Seq<u8>)
    requires
        bytes.len() == 4,
    ensures
        le_value(bytes) == bytes[0] + 0x100 * bytes[1] + 0x1_0000 * bytes[2] + 0x100_0000
            * bytes[3],
{
    reveal_with_fuel(le_value, 5);
    let rest = bytes.drop_first();
    assert(rest.drop_first().drop_first().drop_first().len() == 0);
}

/// The bytes of an unsigned integer are those of its value, one for each eight bits of its type.
pub proof fn law_bytes_of_unsigned(a: u8, b: u16, c: u32, d: u64)
    ensures
        a.spec_le_bytes() == le_bytes(a as nat, 1),
        b.spec_le_bytes() == le_bytes(b as nat, 2),
        c.spec_le_bytes() == le_bytes(c as nat, 4),
        d.spec_le_bytes() == le_bytes(d as nat, 8),
{
}

/// The bytes of a signed integer are those of its two's complement: of the value itself, or, where
/// it is negative, of the value plus the number of values of the type.
pub proof fn law_bytes_of_signed(a: i8, b: i16, c: i32, d: i64, e: i128)
    ensures
        a >= 0 ==> a.spec_le_bytes() == le_bytes(a as nat, 1),
        a < 0 ==> a.spec_le_bytes() == le_bytes((a + 0x100) as nat, 1),
        b >= 0 ==> b.spec_le_bytes() == le_bytes(b as nat, 2),
        b < 0 ==> b.spec_le_bytes() == le_bytes((b + 0x1_0000) as nat, 2),
        c >= 0 ==> c.spec_le_bytes() == le_bytes(c as nat, 4),
        c < 0 ==> c.spec_le_bytes() == le_bytes((c + 0x1_0000_0000) as nat, 4),
        d >= 0 ==> d.spec_le_bytes() == le_bytes(d as nat, 8),
        d < 0 ==> d.spec_le_bytes() == le_bytes((d + 0x1_0000_0000_0000_0000) as nat, 8),
        e >= 0 ==> e.spec_le_bytes() == le_bytes(e as nat, 16),
        e < 0 ==> e.spec_le_bytes() == le_bytes(
            (e + 0x1_0000_0000_0000_0000_0000_0000_0000_0000int) as nat,
            16,
        ),
{
}

/// A boolean is one byte. A 256-bit integer is the bytes of its two halves, the lower first. A
/// floating point number is the bytes of its bit pattern.
pub proof fn law_bytes_of_others(a: bool, b: I256, c: F16, d: F32, e: F64)
    ensures
        a.spec_le_bytes() == seq![if a { 1u8 } else { 0u8 }],
        b.spec_le_bytes() == le_bytes(b.low as nat, 16) + b.high.spec_le_bytes(),
        c.spec_le_bytes() == le_bytes(c.bits as nat, 2),
        d.spec_le_bytes() == le_bytes(d.bits as nat, 4),
        e.spec_le_bytes() == le_bytes(e.bits as nat, 8),
{
}

/// Different 64-bit integers of a type have different bytes: they are two values to a filter.
pub proof fn law_wide_integers_have_different_bytes(a: i64, b: i64, c: u64, d: u64)
    ensures
        a.spec_le_bytes() == b.spec_le_bytes() ==> a == b,
        c.spec_le_bytes() == d.spec_le_bytes() ==> c == d,
{
    reveal_with_fuel(capacity, 9);
    if a.spec_le_bytes() == b.spec_le_bytes() {
        law_le_bytes_injective(
            (a as int % 0x1_0000_0000_0000_0000) as nat,
            (b as int % 0x1_0000_0000_0000_0000) as nat,
            8,
        );
    }
    if c.spec_le_bytes() == d.spec_le_bytes() {
        law_le_bytes_injective(c as nat, d as nat, 8);
    }
}

} // verus!
