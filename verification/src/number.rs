//! JSON numbers and the integer targets they are converted to.
//!
//! A number is an integer in the range of `i64` or `u64`, or a binary64
//! value, which is held by its bit pattern beside its written form. What
//! such a pattern denotes is stated here over the integers, and computed
//! with integer arithmetic.

use crate::text::{decimal, decimal_string};
use vstd::arithmetic::div_mod::{lemma_basic_div, lemma_small_mod};
use vstd::arithmetic::power2::{
    lemma2_to64, lemma2_to64_rest, lemma_pow2_pos, lemma_pow2_strictly_increases,
    lemma_pow2_unfold, pow2,
};
use vstd::prelude::*;

verus! {

/// A JSON number.
#[derive(Debug, PartialEq, Eq)]
pub enum JsonNumber {
    /// An integer written without a sign.
    PosInt(u64),
    /// An integer written with a minus sign.
    NegInt(i64),
    /// A number with a fraction or an exponent: the bits of its binary64
    /// value, and its written form. The bits decide what the number
    /// converts to; the written form is what a failure calls it.
    Float(u64, String),
}

/// The mathematical model of a JSON number.
pub enum NumberModel {
    PosInt(u64),
    NegInt(i64),
    Float(u64, Seq<char>),
}

impl View for JsonNumber {
    type V = NumberModel;

    open spec fn view(&self) -> NumberModel {
        match self {
            JsonNumber::PosInt(u) => NumberModel::PosInt(*u),
            JsonNumber::NegInt(i) => NumberModel::NegInt(*i),
            JsonNumber::Float(bits, text) => NumberModel::Float(*bits, text@),
        }
    }
}

impl Clone for JsonNumber {
    fn clone(&self) -> (r: Self)
        ensures
            r@ == self@,
    {
        match self {
            JsonNumber::PosInt(u) => JsonNumber::PosInt(*u),
            JsonNumber::NegInt(i) => JsonNumber::NegInt(*i),
            JsonNumber::Float(bits, text) => JsonNumber::Float(*bits, text.clone()),
        }
    }
}

/// The number as a failure names it: an integer in decimal notation, any
/// other number in its written form.
pub open spec fn written(n: NumberModel) -> Seq<char> {
    match n {
        NumberModel::PosInt(u) => decimal(u as int),
        NumberModel::NegInt(i) => decimal(i as int),
        NumberModel::Float(_, text) => text,
    }
}

/// The number that stands for a value that is no number: zero, as a
/// binary64 value.
pub open spec fn zero_number() -> NumberModel {
    NumberModel::Float(0, "0.0"@)
}

/// Two to the power of 52: the weight of the hidden bit of a significand.
pub const TWO_TO_52: u64 = 0x10_0000_0000_0000;

/// Two to the power of 63: the sign bit of a binary64 pattern.
pub const TWO_TO_63: u64 = 0x8000_0000_0000_0000;

/// Two to the power of 64: one more than any `u64`.
pub const TWO_TO_64: u128 = 0x1_0000_0000_0000_0000;

/// The sign bit of a binary64 pattern.
pub open spec fn float_negative(bits: u64) -> bool {
    bits >= TWO_TO_63
}

/// The eleven exponent bits of a binary64 pattern.
pub open spec fn float_exponent_bits(bits: u64) -> nat {
    ((bits / TWO_TO_52) % 2048) as nat
}

/// The fifty-two fraction bits of a binary64 pattern.
pub open spec fn float_fraction_bits(bits: u64) -> nat {
    (bits % TWO_TO_52) as nat
}

/// The pattern denotes a number: it is neither an infinity nor a NaN.
pub open spec fn float_finite(bits: u64) -> bool {
    float_exponent_bits(bits) != 2047
}

/// The significand of a finite pattern. The magnitude that the pattern
/// denotes is `float_significand(bits) * 2^float_scale(bits)`.
pub open spec fn float_significand(bits: u64) -> nat {
    if float_exponent_bits(bits) == 0 {
        float_fraction_bits(bits)
    } else {
        float_fraction_bits(bits) + TWO_TO_52 as nat
    }
}

/// The power of two by which the significand of a finite pattern is scaled.
pub open spec fn float_scale(bits: u64) -> int {
    if float_exponent_bits(bits) == 0 {
        -1074
    } else {
        float_exponent_bits(bits) - 1075
    }
}

/// The pattern denotes an integer.
pub open spec fn float_is_integral(bits: u64) -> bool {
    &&& float_finite(bits)
    &&& (float_scale(bits) >= 0 || float_significand(bits) % pow2(
        (-float_scale(bits)) as nat,
    ) == 0)
}

/// The magnitude that a finite pattern denotes, rounded down to an integer.
pub open spec fn float_floor(bits: u64) -> nat {
    if float_scale(bits) >= 0 {
        float_significand(bits) * pow2(float_scale(bits) as nat)
    } else {
        (float_significand(bits) / pow2((-float_scale(bits)) as nat)) as nat
    }
}

/// The number that a finite pattern denotes, rounded toward zero.
pub open spec fn float_truncated(bits: u64) -> int {
    if float_negative(bits) {
        -(float_floor(bits) as int)
    } else {
        float_floor(bits) as int
    }
}

/// `n`, or two to the sixty-fourth power if `n` is not below it.
pub open spec fn capped(n: nat) -> nat {
    if n >= TWO_TO_64 {
        TWO_TO_64 as nat
    } else {
        n
    }
}

/// A finite binary64 value, rounded toward zero.
pub struct Truncated {
    /// The sign bit is set.
    pub negative: bool,
    /// Nothing was cut off: the value is an integer.
    pub integral: bool,
    /// The magnitude of the rounded value, capped at two to the sixty-fourth.
    pub magnitude: u128,
}

/// Two to the power of `e`.
pub fn power_of_two(e: u64) -> (p: u64)
    requires
        e < 64,
    ensures
        p == pow2(e as nat),
{
    let mut p: u64 = 1;
    let mut i: u64 = 0;
    proof {
        lemma2_to64();
    }
    while i < e
        invariant
            i <= e,
            e < 64,
            p == pow2(i as nat),
        decreases e - i,
    {
        proof {
            lemma_pow2_unfold((i + 1) as nat);
            lemma2_to64_rest();
            if i + 1 < 63 {
                lemma_pow2_strictly_increases((i + 1) as nat, 63);
            }
        }
        p = p * 2;
        i = i + 1;
    }
    p
}

/// Rounds a finite binary64 value toward zero.
pub fn truncate_float(bits: u64) -> (t: Truncated)
    requires
        float_finite(bits),
    ensures
        t.negative == float_negative(bits),
        t.integral == float_is_integral(bits),
        t.magnitude == capped(float_floor(bits)),
{
    let fraction: u64 = bits % TWO_TO_52;
    let exponent: u64 = (bits / TWO_TO_52) % 2048;
    let negative = bits >= TWO_TO_63;
    proof {
        lemma2_to64();
        lemma2_to64_rest();
    }
    if exponent == 0 {
        proof {
            lemma_pow2_strictly_increases(52, 1074);
            lemma_basic_div(fraction as int, pow2(1074) as int);
            lemma_small_mod(fraction as nat, pow2(1074));
        }
        return Truncated { negative, integral: fraction == 0, magnitude: 0 };
    }
    let significand: u64 = fraction + TWO_TO_52;
    if exponent >= 1075 {
        let scale: u64 = exponent - 1075;
        if scale >= 12 {
            proof {
                if scale > 12 {
                    lemma_pow2_strictly_increases(12, scale as nat);
                }
                let p = pow2(scale as nat) as int;
                assert(significand as int * p >= 0x10_0000_0000_0000 * 4096) by (nonlinear_arith)
                    requires
                        significand as int >= 0x10_0000_0000_0000,
                        p >= 4096,
                ;
            }
            Truncated { negative, integral: true, magnitude: TWO_TO_64 }
        } else {
            let p = power_of_two(scale);
            proof {
                if scale < 11 {
                    lemma_pow2_strictly_increases(scale as nat, 11);
                }
                assert(significand as int * p as int <= 0x20_0000_0000_0000 * 2048)
                    by (nonlinear_arith)
                    requires
                        0 <= significand as int <= 0x20_0000_0000_0000,
                        0 <= p as int <= 2048,
                ;
            }
            Truncated { negative, integral: true, magnitude: (significand as u128) * (p as u128) }
        }
    } else {
        let k: u64 = 1075 - exponent;
        if k >= 53 {
            proof {
                if k > 53 {
                    lemma_pow2_strictly_increases(53, k as nat);
                }
                lemma_basic_div(significand as int, pow2(k as nat) as int);
                lemma_small_mod(significand as nat, pow2(k as nat));
            }
            Truncated { negative, integral: false, magnitude: 0 }
        } else {
            let p = power_of_two(k);
            proof {
                lemma_pow2_pos(k as nat);
            }
            Truncated {
                negative,
                integral: significand % p == 0,
                magnitude: (significand / p) as u128,
            }
        }
    }
}

/// An integer type that a JSON number can be converted to.
#[derive(Clone, Copy, Debug, PartialEq, Eq)]
pub enum IntKind {
    U8,
    U16,
    U32,
    U64,
    I8,
    I16,
    I32,
    I64,
}

impl IntKind {
    /// The least value of the type.
    pub open spec fn min(self) -> int {
        match self {
            IntKind::U8 | IntKind::U16 | IntKind::U32 | IntKind::U64 => 0,
            IntKind::I8 => i8::MIN as int,
            IntKind::I16 => i16::MIN as int,
            IntKind::I32 => i32::MIN as int,
            IntKind::I64 => i64::MIN as int,
        }
    }

    /// The greatest value of the type.
    pub open spec fn max(self) -> int {
        match self {
            IntKind::U8 => u8::MAX as int,
            IntKind::U16 => u16::MAX as int,
            IntKind::U32 => u32::MAX as int,
            IntKind::U64 => u64::MAX as int,
            IntKind::I8 => i8::MAX as int,
            IntKind::I16 => i16::MAX as int,
            IntKind::I32 => i32::MAX as int,
            IntKind::I64 => i64::MAX as int,
        }
    }

    /// The name of the type.
    pub open spec fn name(self) -> Seq<char> {
        match self {
            IntKind::U8 => "u8"@,
            IntKind::U16 => "u16"@,
            IntKind::U32 => "u32"@,
            IntKind::U64 => "u64"@,
            IntKind::I8 => "i8"@,
            IntKind::I16 => "i16"@,
            IntKind::I32 => "i32"@,
            IntKind::I64 => "i64"@,
        }
    }

    /// The least value of the type.
    pub fn lower(&self) -> (v: i128)
        ensures
            v == self.min(),
    {
        match self {
            IntKind::U8 | IntKind::U16 | IntKind::U32 | IntKind::U64 => 0,
            IntKind::I8 => -128,
            IntKind::I16 => -32768,
            IntKind::I32 => -2147483648,
            IntKind::I64 => -9223372036854775808,
        }
    }

    /// The greatest value of the type.
    pub fn upper(&self) -> (v: i128)
        ensures
            v == self.max(),
    {
        match self {
            IntKind::U8 => 255,
            IntKind::U16 => 65535,
            IntKind::U32 => 4294967295,
            IntKind::U64 => 18446744073709551615,
            IntKind::I8 => 127,
            IntKind::I16 => 32767,
            IntKind::I32 => 2147483647,
            IntKind::I64 => 9223372036854775807,
        }
    }

    /// The name of the type.
    pub fn label(&self) -> (s: &'static str)
        ensures
            s@ == self.name(),
    {
        match self {
            IntKind::U8 => "u8",
            IntKind::U16 => "u16",
            IntKind::U32 => "u32",
            IntKind::U64 => "u64",
            IntKind::I8 => "i8",
            IntKind::I16 => "i16",
            IntKind::I32 => "i32",
            IntKind::I64 => "i64",
        }
    }
}

/// Converts a JSON number to an integer type: the integer, if the number
/// is one of the type. An integer is one if it lies between the bounds of
/// the type. A binary64 value is one if it denotes an integer between those
/// bounds; a value with a fraction, an infinity or a NaN is none.
pub open spec fn read_integer(n: NumberModel, kind: IntKind) -> Option<int> {
    match n {
        NumberModel::PosInt(u) => if u <= kind.max() {
            Some(u as int)
        } else {
            None
        },
        NumberModel::NegInt(i) => if kind.min() <= i <= kind.max() {
            Some(i as int)
        } else {
            None
        },
        NumberModel::Float(bits, _) => if float_is_integral(bits) && kind.min() <= float_truncated(
            bits,
        ) <= kind.max() {
            Some(float_truncated(bits))
        } else {
            None
        },
    }
}

/// Converts a JSON number to an integer type: the integer if the number is
/// one of the type, nothing if it is not.
pub fn convert_integer(n: &JsonNumber, kind: &IntKind) -> (r: Option<i128>)
    ensures
        match r {
            Some(v) => read_integer(n@, *kind) == Some(v as int),
            None => read_integer(n@, *kind) is None,
        },
{
    let lower = kind.lower();
    let upper = kind.upper();
    match n {
        JsonNumber::PosInt(u) => {
            let v = *u as i128;
            if v <= upper {
                Some(v)
            } else {
                None
            }
        },
        JsonNumber::NegInt(i) => {
            let v = *i as i128;
            if lower <= v && v <= upper {
                Some(v)
            } else {
                None
            }
        },
        JsonNumber::Float(bits, _) => {
            let exponent: u64 = (*bits / TWO_TO_52) % 2048;
            if exponent == 2047 {
                return None;
            }
            let t = truncate_float(*bits);
            if t.integral && t.magnitude < TWO_TO_64 {
                let v: i128 = if t.negative {
                    -(t.magnitude as i128)
                } else {
                    t.magnitude as i128
                };
                if lower <= v && v <= upper {
                    return Some(v);
                }
            }
            None
        },
    }
}

/// The number as a failure names it.
pub fn written_form(n: &JsonNumber) -> (s: String)
    ensures
        s@ == written(n@),
{
    match n {
        JsonNumber::PosInt(u) => decimal_string(*u as i128),
        JsonNumber::NegInt(i) => decimal_string(*i as i128),
        JsonNumber::Float(_, text) => text.clone(),
    }
}

/// The number that stands for a value that is no number.
pub fn zero() -> (n: JsonNumber)
    ensures
        n@ == zero_number(),
{
    JsonNumber::Float(0, String::from_str("0.0"))
}

} // verus!
