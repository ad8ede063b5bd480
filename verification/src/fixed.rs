//! Integer fixed-point decimal formatting, no floats: centi- and
//! milli-scaled integers become `26.96` and `2.939`.

use vstd::prelude::*;
use crate::text::{dec, padded, push_byte, push_padded, push_u64};

verus! {

/// `|value| / scale` then `.` then `frac_digits` zero-padded digits of
/// `|value| % scale`, led by `-` when `value` is negative.
pub open spec fn scaled(value: int, scale: nat, frac_digits: nat) -> Seq<u8> {
    let magnitude: nat = if value < 0 { (-value) as nat } else { value as nat };
    let sign: Seq<u8> = if value < 0 { seq![45u8] } else { Seq::empty() };
    let integer: nat = if scale == 0 { 0 } else { magnitude / scale };
    let fraction: nat = if scale == 0 { 0 } else { magnitude % scale };
    sign + dec(integer) + seq![46u8] + padded(fraction, frac_digits)
}

/// Two fraction digits: 2696 is `26.96`, -50 is `-0.50`.
pub open spec fn centi(value: int) -> Seq<u8> {
    scaled(value, 100, 2)
}

/// Three fraction digits: 2939 is `2.939`, -1 is `-0.001`.
pub open spec fn milli(value: int) -> Seq<u8> {
    scaled(value, 1000, 3)
}

/// Appends `value_centi` as a decimal with two fraction digits.
pub fn write_centi(w: &mut Vec<u8>, value_centi: i32)
    ensures
        final(w)@ == old(w)@ + centi(value_centi as int),
{
    write_scaled(w, value_centi, 100, 2);
}

/// Appends `value_milli` as a decimal with three fraction digits.
pub fn write_milli(w: &mut Vec<u8>, value_milli: i32)
    ensures
        final(w)@ == old(w)@ + milli(value_milli as int),
{
    write_scaled(w, value_milli, 1000, 3);
}

/// Splits `|value|` into the integer and fraction parts of `value / scale`
/// and appends them; the full `i32` range renders exactly. A zero `scale`
/// has no quotient: both parts are then written as 0.
pub fn write_scaled(w: &mut Vec<u8>, value: i32, scale: u32, frac_digits: u32)
    ensures
        final(w)@ == old(w)@ + scaled(value as int, scale as nat, frac_digits as nat),
{
    let ghost start = w@;
    if value < 0 {
        push_byte(w, 45u8);
    }
    let ghost after_sign = w@;
    let magnitude: u64 = if value < 0 { (-(value as i64)) as u64 } else { value as u64 };
    let integer: u64 = if scale == 0 { 0 } else { magnitude / (scale as u64) };
    let fraction: u64 = if scale == 0 { 0 } else { magnitude % (scale as u64) };
    push_u64(w, integer);
    push_byte(w, 46u8);
    push_padded(w, fraction, frac_digits);
    let ghost sign: Seq<u8> = if value < 0 { seq![45u8] } else { Seq::empty() };
    assert(after_sign == start + sign);
    assert(w@ == start + scaled(value as int, scale as nat, frac_digits as nat));
}

} // verus!
