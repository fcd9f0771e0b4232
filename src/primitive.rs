use vstd::prelude::*;

use crate::schema::{bound_value, Bound, Schema, SchemaModel};

verus! {

/// The closed set of scalar kinds that have a fixed schema fragment.
#[derive(Clone, Copy, Debug, PartialEq, Eq, Structural)]
pub enum Primitive {
    I8,
    I16,
    I32,
    I64,
    I128,
    Isize,
    U8,
    U16,
    U32,
    U64,
    U128,
    Usize,
    F32,
    F64,
    Bool,
    Text,
}

/// Significand of the shortest decimal that reads back as the largest
/// finite single-precision value; its exponent is `F32_MAX_EXPONENT`.
pub const F32_MAX_SIGNIFICAND: u128 = 34028234663852886;

pub const F32_MAX_EXPONENT: u32 = 22;

/// Significand of the shortest decimal that reads back as the largest
/// finite double-precision value; its exponent is `F64_MAX_EXPONENT`.
pub const F64_MAX_SIGNIFICAND: u128 = 17976931348623157;

pub const F64_MAX_EXPONENT: u32 = 292;

pub open spec fn float_max(significand: u128, exponent: u32) -> int {
    significand as int * vstd::arithmetic::power::pow(10, exponent as nat)
}

/// The fragment of each primitive kind: integers carry their native range,
/// floating-point kinds their finite range, and the rest only a type.
pub open spec fn fragment_model(kind: Primitive) -> SchemaModel {
    match kind {
        Primitive::I8 => SchemaModel::Integer { minimum: i8::MIN as int, maximum: i8::MAX as int },
        Primitive::I16 => SchemaModel::Integer { minimum: i16::MIN as int, maximum: i16::MAX as int },
        Primitive::I32 => SchemaModel::Integer { minimum: i32::MIN as int, maximum: i32::MAX as int },
        Primitive::I64 => SchemaModel::Integer { minimum: i64::MIN as int, maximum: i64::MAX as int },
        Primitive::I128 => SchemaModel::Integer {
            minimum: i128::MIN as int,
            maximum: i128::MAX as int,
        },
        Primitive::Isize => SchemaModel::Integer {
            minimum: isize::MIN as int,
            maximum: isize::MAX as int,
        },
        Primitive::U8 => SchemaModel::Integer { minimum: 0, maximum: u8::MAX as int },
        Primitive::U16 => SchemaModel::Integer { minimum: 0, maximum: u16::MAX as int },
        Primitive::U32 => SchemaModel::Integer { minimum: 0, maximum: u32::MAX as int },
        Primitive::U64 => SchemaModel::Integer { minimum: 0, maximum: u64::MAX as int },
        Primitive::U128 => SchemaModel::Integer { minimum: 0, maximum: u128::MAX as int },
        Primitive::Usize => SchemaModel::Integer { minimum: 0, maximum: usize::MAX as int },
        Primitive::F32 => SchemaModel::Number {
            minimum: -float_max(F32_MAX_SIGNIFICAND, F32_MAX_EXPONENT),
            maximum: float_max(F32_MAX_SIGNIFICAND, F32_MAX_EXPONENT),
        },
        Primitive::F64 => SchemaModel::Number {
            minimum: -float_max(F64_MAX_SIGNIFICAND, F64_MAX_EXPONENT),
            maximum: float_max(F64_MAX_SIGNIFICAND, F64_MAX_EXPONENT),
        },
        Primitive::Bool => SchemaModel::Boolean,
        Primitive::Text => SchemaModel::Text,
    }
}

/// The bound that denotes `v`.
pub fn signed_bound(v: i128) -> (b: Bound)
    ensures
        bound_value(b) == v as int,
{
    proof {
        vstd::arithmetic::power::lemma_pow0(10);
    }
    if v < 0 {
        let magnitude: u128 = ((-(v + 1)) as u128) + 1;
        Bound { negative: true, magnitude, exponent: 0 }
    } else {
        Bound { negative: false, magnitude: v as u128, exponent: 0 }
    }
}

/// The bound that denotes `v`.
pub fn unsigned_bound(v: u128) -> (b: Bound)
    ensures
        bound_value(b) == v as int,
{
    proof {
        vstd::arithmetic::power::lemma_pow0(10);
    }
    Bound { negative: false, magnitude: v, exponent: 0 }
}

fn integer(minimum: Bound, maximum: Bound) -> (r: Schema)
    ensures
        r@ == (SchemaModel::Integer { minimum: bound_value(minimum), maximum: bound_value(maximum) }),
{
    Schema::Integer { minimum, maximum }
}

fn float_range(significand: u128, exponent: u32) -> (r: Schema)
    ensures
        r@ == (SchemaModel::Number {
            minimum: -float_max(significand, exponent),
            maximum: float_max(significand, exponent),
        }),
{
    Schema::Number {
        minimum: Bound { negative: true, magnitude: significand, exponent },
        maximum: Bound { negative: false, magnitude: significand, exponent },
    }
}

/// The schema fragment of a primitive kind; it depends on the kind alone.
pub fn fragment_for(kind: Primitive) -> (r: Schema)
    ensures
        r@ == fragment_model(kind),
{
    match kind {
        Primitive::I8 => integer(signed_bound(i8::MIN as i128), signed_bound(i8::MAX as i128)),
        Primitive::I16 => integer(signed_bound(i16::MIN as i128), signed_bound(i16::MAX as i128)),
        Primitive::I32 => integer(signed_bound(i32::MIN as i128), signed_bound(i32::MAX as i128)),
        Primitive::I64 => integer(signed_bound(i64::MIN as i128), signed_bound(i64::MAX as i128)),
        Primitive::I128 => integer(signed_bound(i128::MIN), signed_bound(i128::MAX)),
        Primitive::Isize => integer(
            signed_bound(isize::MIN as i128),
            signed_bound(isize::MAX as i128),
        ),
        Primitive::U8 => integer(unsigned_bound(0), unsigned_bound(u8::MAX as u128)),
        Primitive::U16 => integer(unsigned_bound(0), unsigned_bound(u16::MAX as u128)),
        Primitive::U32 => integer(unsigned_bound(0), unsigned_bound(u32::MAX as u128)),
        Primitive::U64 => integer(unsigned_bound(0), unsigned_bound(u64::MAX as u128)),
        Primitive::U128 => integer(unsigned_bound(0), unsigned_bound(u128::MAX)),
        Primitive::Usize => integer(unsigned_bound(0), unsigned_bound(usize::MAX as u128)),
        Primitive::F32 => float_range(F32_MAX_SIGNIFICAND, F32_MAX_EXPONENT),
        Primitive::F64 => float_range(F64_MAX_SIGNIFICAND, F64_MAX_EXPONENT),
        Primitive::Bool => Schema::Boolean,
        Primitive::Text => Schema::Text,
    }
}

} // verus!
