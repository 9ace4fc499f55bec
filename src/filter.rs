use vstd::prelude::*;
use crate::ev::Axis;
use crate::raw::{AxisInfo, IS_Y_AXIS_REVERSED};
use crate::value::Ratio;

verus! {

/// `v` limited to `[lo, hi]`.
pub open spec fn clamp_int(v: int, lo: int, hi: int) -> int {
    if v < lo {
        lo
    } else if v > hi {
        hi
    } else {
        v
    }
}

/// Whether the axis value is negated because the source reports Y pointing down.
pub open spec fn flips_y(axis: Axis) -> bool {
    IS_Y_AXIS_REVERSED && (axis == Axis::LeftStickY || axis == Axis::RightStickY)
}

/// Raw `v` mapped linearly from `[min, max]` onto `[-1, 1]` and clamped, before any Y flip.
/// An empty range gives zero.
pub open spec fn axis_value_unflipped(info: AxisInfo, v: i32) -> Ratio {
    let range = info.max - info.min;
    if range == 0 {
        Ratio { num: 0, den: 1 }
    } else {
        let den = if range > 0 { range } else { -range };
        let n = if range > 0 { 2 * (v - info.min) - range } else { range - 2 * (v - info.min) };
        Ratio { num: clamp_int(n, -den, den) as i64, den: den as i64 }
    }
}

/// Normalized axis value: [`axis_value_unflipped`], negated for the Y axes of sticks where the
/// source reports Y pointing down.
pub open spec fn axis_value_spec(info: AxisInfo, v: i32, axis: Axis) -> Ratio {
    let r = axis_value_unflipped(info, v);
    if flips_y(axis) {
        Ratio { num: (-r.num) as i64, den: r.den }
    } else {
        r
    }
}

/// Raw `v` mapped linearly from `[min, max]` onto `[0, 1]` and clamped. An empty range gives
/// zero.
pub open spec fn btn_value_spec(info: AxisInfo, v: i32) -> Ratio {
    let range = info.max - info.min;
    if range == 0 {
        Ratio { num: 0, den: 1 }
    } else {
        let den = if range > 0 { range } else { -range };
        let n = if range > 0 { v - info.min } else { info.min - v };
        Ratio { num: clamp_int(n, 0, den) as i64, den: den as i64 }
    }
}

/// Normalizes raw axis value `val` of an axis described by `info`.
pub fn axis_value(info: &AxisInfo, val: i32, axis: Axis) -> (r: Ratio)
    ensures
        r == axis_value_spec(*info, val, axis),
        r.wf(),
        r.in_unit_range(),
{
    let range: i64 = info.max as i64 - info.min as i64;
    if range == 0 {
        return Ratio::zero();
    }
    let off: i64 = val as i64 - info.min as i64;
    let den: i64 = if range > 0 { range } else { -range };
    let n: i64 = if range > 0 { 2 * off - range } else { range - 2 * off };
    let c: i64 = if n < -den {
        -den
    } else if n > den {
        den
    } else {
        n
    };
    let flip = IS_Y_AXIS_REVERSED && (match axis {
        Axis::LeftStickY | Axis::RightStickY => true,
        _ => false,
    });
    if flip {
        Ratio::new(-c, den)
    } else {
        Ratio::new(c, den)
    }
}

/// Maps raw value `val` of an axis described by `info` onto a button value in `[0, 1]`.
pub fn btn_value(info: &AxisInfo, val: i32) -> (r: Ratio)
    ensures
        r == btn_value_spec(*info, val),
        r.wf(),
        r.in_half_unit_range(),
{
    let range: i64 = info.max as i64 - info.min as i64;
    if range == 0 {
        return Ratio::zero();
    }
    let den: i64 = if range > 0 { range } else { -range };
    let n: i64 = if range > 0 { val as i64 - info.min as i64 } else { info.min as i64 - val as i64 };
    let c: i64 = if n < 0 {
        0
    } else if n > den {
        den
    } else {
        n
    };
    Ratio::new(c, den)
}

/// Axis normalization on a proper range: for every raw value in `[min, max]` the result lies in
/// `[-1, 1]` and is the exact linear image `(2 * (v - min) - (max - min)) / (max - min)`; `min`
/// gives `-1` and `max` gives `1`.
pub proof fn lemma_axis_value_linear(info: AxisInfo, v: i32)
    requires
        info.min < info.max,
        info.min <= v <= info.max,
    ensures
        axis_value_unflipped(info, v).wf(),
        axis_value_unflipped(info, v).in_unit_range(),
        axis_value_unflipped(info, v).num == 2 * (v - info.min) - (info.max - info.min),
        axis_value_unflipped(info, v).den == info.max - info.min,
        axis_value_unflipped(info, info.min).same(Ratio { num: -1i64, den: 1 }),
        axis_value_unflipped(info, info.max).same(Ratio { num: 1, den: 1 }),
{
}

/// Button values always lie in `[0, 1]`; on a proper range `min` gives `0` and `max` gives `1`.
pub proof fn lemma_btn_value_range(info: AxisInfo, v: i32)
    ensures
        btn_value_spec(info, v).wf(),
        btn_value_spec(info, v).in_half_unit_range(),
        info.min < info.max ==> btn_value_spec(info, info.min).same(Ratio { num: 0, den: 1 }),
        info.min < info.max ==> btn_value_spec(info, info.max).same(Ratio { num: 1, den: 1 }),
{
    let r = btn_value_spec(info, info.min);
    if info.min < info.max {
        assert(r.num == 0);
        assert(0 * r.den == 0) by (nonlinear_arith);
    }
}

} // verus!
