//! The value types the graph records for every value it owns.
//!
//! The graph treats types almost opaquely: it stores them, copies them when a
//! value is duplicated, and inspects only an array's static length, whether a
//! type is a reference, and a numeric type's bit width.

use vstd::prelude::*;

verus! {

/// Bit width of the native field type: the widest numeric type a value can
/// carry.
pub const FIELD_BIT_SIZE: u32 = 254;

/// A numeric value type: a signed or unsigned integer of a fixed bit width,
/// or the native field.
#[derive(Clone, Copy, PartialEq, Eq, Structural, Debug, Hash)]
pub enum NumericType {
    Signed { bit_size: u32 },
    Unsigned { bit_size: u32 },
    NativeField,
}

impl NumericType {
    /// The number of bits a value of this type occupies.
    pub open spec fn spec_bit_size(self) -> u32 {
        match self {
            NumericType::Signed { bit_size } => bit_size,
            NumericType::Unsigned { bit_size } => bit_size,
            NumericType::NativeField => FIELD_BIT_SIZE,
        }
    }

    /// Returns the number of bits a value of this type occupies.
    pub fn bit_size(&self) -> (r: u32)
        ensures
            r == self.spec_bit_size(),
    {
        match self {
            NumericType::Signed { bit_size } => *bit_size,
            NumericType::Unsigned { bit_size } => *bit_size,
            NumericType::NativeField => FIELD_BIT_SIZE,
        }
    }
}

/// The number of binary digits needed to write `v`; zero for zero.
pub open spec fn num_bits_of(v: u128) -> nat
    decreases v,
{
    if v == 0 {
        0
    } else {
        1 + num_bits_of(v / 2)
    }
}

proof fn lemma_num_bits_at_most(v: u128, k: nat)
    requires
        (v as nat) < vstd::arithmetic::power2::pow2(k),
    ensures
        num_bits_of(v) <= k,
    decreases v,
{
    if v > 0 {
        vstd::arithmetic::power2::lemma2_to64();
        assert(k > 0);
        vstd::arithmetic::power2::lemma_pow2_unfold(k);
        lemma_num_bits_at_most(v / 2, (k - 1) as nat);
    }
}

/// No 128-bit constant needs more than 128 bits.
pub proof fn lemma_num_bits_le_128(v: u128)
    ensures
        num_bits_of(v) <= 128,
{
    vstd::arithmetic::power2::lemma2_to64();
    vstd::arithmetic::power2::lemma_pow2_adds(64, 64);
    assert((v as nat) < vstd::arithmetic::power2::pow2(128));
    lemma_num_bits_at_most(v, 128);
}

/// Returns the exact number of bits needed to represent `value`.
pub fn constant_num_bits(value: u128) -> (r: u32)
    ensures
        r as nat == num_bits_of(value),
{
    proof {
        lemma_num_bits_le_128(value);
    }
    let mut v = value;
    let mut bits: u32 = 0;
    while v > 0
        invariant
            bits as nat + num_bits_of(v) == num_bits_of(value),
            num_bits_of(value) <= 128,
        decreases v,
    {
        v = v / 2;
        bits = bits + 1;
    }
    bits
}

/// The type of a value: numeric, a mutable reference, an array of a statically
/// known length, a slice of a dynamically known length, or a function
/// reference.
#[derive(PartialEq, Eq, Debug)]
pub enum Type {
    Numeric(NumericType),
    Reference(Box<Type>),
    Array(Box<Type>, u32),
    Slice(Box<Type>),
    Function,
}

impl Clone for Type {
    /// Structural copy: the clone is equal to the original.
    fn clone(&self) -> (r: Self)
        ensures
            r == *self,
        decreases self,
    {
        match self {
            Type::Numeric(t) => Type::Numeric(*t),
            Type::Reference(element) => Type::Reference(Box::new((**element).clone())),
            Type::Array(element, length) => Type::Array(Box::new((**element).clone()), *length),
            Type::Slice(element) => Type::Slice(Box::new((**element).clone())),
            Type::Function => Type::Function,
        }
    }
}

impl Type {
    /// The native field type.
    pub fn field() -> (r: Type)
        ensures
            r == Type::Numeric(NumericType::NativeField),
    {
        Type::Numeric(NumericType::NativeField)
    }

    /// An unsigned integer type of the given bit width.
    pub fn unsigned(bit_size: u32) -> (r: Type)
        ensures
            r == Type::Numeric(NumericType::Unsigned { bit_size }),
    {
        Type::Numeric(NumericType::Unsigned { bit_size })
    }

    /// A boolean, carried as a one-bit unsigned integer.
    pub fn bool() -> (r: Type)
        ensures
            r == Type::Numeric(NumericType::Unsigned { bit_size: 1 }),
    {
        Type::Numeric(NumericType::Unsigned { bit_size: 1 })
    }

    /// The bit width of this type, defined for numeric types only.
    pub open spec fn spec_bit_size(self) -> u32 {
        match self {
            Type::Numeric(t) => t.spec_bit_size(),
            _ => 0,
        }
    }

    /// Returns the bit width of this type.  Only a numeric type has one;
    /// asking for any other type's width is a caller error.
    pub fn bit_size(&self) -> (r: u32)
        requires
            self is Numeric,
        ensures
            r == self.spec_bit_size(),
    {
        match self {
            Type::Numeric(t) => t.bit_size(),
            _ => 0,
        }
    }

    /// The numeric type inside this type, defined when it is numeric.
    pub open spec fn spec_unwrap_numeric(self) -> NumericType {
        match self {
            Type::Numeric(t) => t,
            _ => NumericType::NativeField,
        }
    }

    /// Returns the numeric type this type wraps; the caller must know the
    /// type is numeric.
    pub fn unwrap_numeric(&self) -> (r: NumericType)
        requires
            self is Numeric,
        ensures
            r == self.spec_unwrap_numeric(),
    {
        match self {
            Type::Numeric(t) => *t,
            _ => NumericType::NativeField,
        }
    }
}

} // verus!
