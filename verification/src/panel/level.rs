//! Slider values that are held between bounds.

use vstd::prelude::*;

verus! {

/// A slider's value, a number of single precision, by its bits.
pub type Level = i32;

pub const ZERO: i32 = 0;

/// 0.002, the least a brush or a repair is across.
pub const LEAST_SIZE: i32 = 0x3b03126f;

/// 0.3, the most a repair is across.
pub const MOST_REPAIR: i32 = 0x3e99999a;

/// 0.5, the most a brush is across.
pub const MOST_BRUSH: i32 = 0x3f000000;

/// 0.5, half way.
pub const HALF: i32 = 0x3f000000;

pub const ONE: i32 = 0x3f800000;

/// The bits of the infinities; those beyond either are of no number.
pub const INFINITY: i32 = 0x7f800000;

pub const MINUS_INFINITY: i32 = -0x800000;

/// 180 degrees, and 360.
pub const HALF_CIRCLE: i32 = 0x43340000;

pub const CIRCLE: i32 = 0x43b40000;

pub open spec fn is_number(v: Level) -> bool {
    v <= INFINITY && (v >= 0 || v <= MINUS_INFINITY)
}

/// Where a number is among the others: from zero up the bits are in the
/// numbers' own order, and below zero in the other, from a zero of their
/// own.
pub open spec fn place(v: Level) -> int {
    if v >= 0 {
        v as int
    } else {
        i32::MIN - v
    }
}

/// A number below another; what is no number is below none and above
/// none.
pub open spec fn below(a: Level, b: Level) -> bool {
    is_number(a) && is_number(b) && place(a) < place(b)
}

pub fn is_below(a: Level, b: Level) -> (r: bool)
    ensures
        r == below(a, b),
{
    let numbers: bool = a <= INFINITY && (a >= 0 || a <= MINUS_INFINITY) && b <= INFINITY && (b
        >= 0 || b <= MINUS_INFINITY);
    let x: i64 = if a >= 0 {
        a as i64
    } else {
        i32::MIN as i64 - a as i64
    };
    let y: i64 = if b >= 0 {
        b as i64
    } else {
        i32::MIN as i64 - b as i64
    };
    numbers && x < y
}

/// A value held between two bounds; what is no number is kept.
pub open spec fn held(v: Level, least: Level, most: Level) -> Level {
    if below(v, least) {
        least
    } else if below(most, v) {
        most
    } else {
        v
    }
}

pub fn hold(v: Level, least: Level, most: Level) -> (r: Level)
    ensures
        r == held(v, least, most),
{
    if is_below(v, least) {
        least
    } else if is_below(most, v) {
        most
    } else {
        v
    }
}

/// The number as far below zero.
pub open spec fn negative(v: Level) -> Level {
    (v + i32::MIN) as i32
}

/// A value held as far above zero as below.
pub open spec fn held_about(v: Level, most: Level) -> Level {
    held(v, negative(most), most)
}

pub fn hold_about(v: Level, most: Level) -> (r: Level)
    requires
        most >= 0,
    ensures
        r == held_about(v, most),
{
    hold(v, most + i32::MIN, most)
}

/// A value not below zero; what is no number is nothing.
pub open spec fn from_zero(v: Level) -> Level {
    if below(ZERO, v) {
        v
    } else {
        ZERO
    }
}

pub fn at_least_zero(v: Level) -> (r: Level)
    ensures
        r == from_zero(v),
{
    if is_below(ZERO, v) {
        v
    } else {
        ZERO
    }
}

/// A hue on the circle of the degrees.
pub open spec fn on_circle(hue: Level) -> bool {
    0 <= hue < CIRCLE
}

/// A hue on the circle: itself, or where one off it comes round to
/// (`round`).
pub open spec fn brought_round(hue: Level, round: Level) -> Level {
    if on_circle(hue) {
        hue
    } else {
        round
    }
}

pub fn bring_round(hue: Level, round: Level) -> (r: Level)
    ensures
        r == brought_round(hue, round),
{
    if 0 <= hue && hue < CIRCLE {
        hue
    } else {
        round
    }
}

/// What is held stays held.
pub proof fn holding_settles(v: Level, least: Level, most: Level)
    requires
        !below(most, least),
    ensures
        held(held(v, least, most), least, most) == held(v, least, most),
{
}

/// Numbers are in their own order: above zero as their bits are, below it
/// the other way round, and what is no number is in none.
pub proof fn numbers_are_in_their_order(a: Level, b: Level)
    ensures
        0 <= a <= INFINITY && 0 <= b <= INFINITY ==> (below(a, b) <==> a < b),
        i32::MIN < a <= MINUS_INFINITY && 0 <= b <= INFINITY ==> below(a, b) && !below(b, a),
        i32::MIN <= a <= MINUS_INFINITY && i32::MIN <= b <= MINUS_INFINITY ==> (below(a, b) <==> a
            > b),
        !below(i32::MIN, 0) && !below(0, i32::MIN),
        a > INFINITY || MINUS_INFINITY < a < 0 ==> !below(a, b) && !below(b, a),
{
}

/// A number held is within its bounds, and itself where it was already;
/// past one it is that one. What is no number is kept.
pub proof fn what_is_held_is_within(v: Level, least: Level, most: Level)
    requires
        is_number(least),
        is_number(most),
        !below(most, least),
    ensures
        !below(held(v, least, most), least),
        !below(most, held(v, least, most)),
        !below(v, least) && !below(most, v) ==> held(v, least, most) == v,
        below(v, least) ==> held(v, least, most) == least,
        below(most, v) ==> held(v, least, most) == most,
        !is_number(v) ==> held(v, least, most) == v,
{
}

/// Held about zero, a number goes as far one way as the other.
pub proof fn what_is_held_about_zero_is_as_far_each_way(v: Level, most: Level)
    requires
        0 <= most <= INFINITY,
    ensures
        0 <= v <= most ==> held_about(v, most) == v,
        most < v <= INFINITY ==> held_about(v, most) == most,
        i32::MIN < v <= MINUS_INFINITY && v - i32::MIN <= most ==> held_about(v, most) == v,
        i32::MIN < v <= MINUS_INFINITY && v - i32::MIN > most ==> held_about(v, most) - i32::MIN
            == most,
{
}

/// A value from zero up is itself, and any other is nothing.
pub proof fn what_is_held_from_zero(v: Level)
    ensures
        0 <= v <= INFINITY ==> from_zero(v) == v,
        v < 0 || v > INFINITY ==> from_zero(v) == 0,
{
}

/// A hue on the circle stays where it is, and any other is where it comes
/// round to.
pub proof fn a_hue_on_the_circle_stays(hue: Level, round: Level)
    ensures
        0 <= hue < CIRCLE ==> brought_round(hue, round) == hue,
        hue < 0 || hue >= CIRCLE ==> brought_round(hue, round) == round,
{
}

} // verus!
