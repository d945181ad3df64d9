//! The brightness calculator: turns an adjustment specification into a
//! concrete target value, always clamped to the device range.

use vstd::prelude::*;

verus! {

/// What the user asked for, decided once at parse time.
///
/// A sign prefix on the value argument selects a relative adjustment, its
/// absence an absolute one; a trailing `%` selects percent-of-maximum
/// semantics, its absence raw device units.
#[derive(Clone, Copy, Debug, PartialEq, Eq, Structural)]
pub enum AdjustmentSpec {
    /// Set the brightness to this raw value.
    AbsoluteRaw(u32),
    /// Set the brightness to this percentage of the device maximum.
    AbsolutePercent(u32),
    /// Add this signed raw delta to the current brightness.
    RelativeRaw(i32),
    /// Add this signed percentage of the device maximum to the current
    /// brightness.
    RelativePercent(i32),
}

/// Division by 100 that truncates toward zero, the rounding rule used for
/// all percentage arithmetic here (it matches what signed integer division
/// in the executable code does).
pub open spec fn div100_trunc(a: int) -> int {
    if a >= 0 {
        a / 100
    } else {
        -((-a) / 100)
    }
}

/// The target value before clamping; it may be negative or exceed the
/// maximum.
pub open spec fn raw_target(current: int, max: int, sp: AdjustmentSpec) -> int {
    match sp {
        AdjustmentSpec::AbsoluteRaw(raw) => raw as int,
        AdjustmentSpec::AbsolutePercent(percent) => div100_trunc(max * percent),
        AdjustmentSpec::RelativeRaw(delta) => current + delta,
        AdjustmentSpec::RelativePercent(pd) => current + div100_trunc(max * pd),
    }
}

/// Saturate a value into `[0, max]`.
pub open spec fn clamp_to_max(t: int, max: int) -> int {
    if t < 0 {
        0
    } else if t > max {
        max
    } else {
        t
    }
}

/// The value the calculator owes for a given current value, maximum and
/// specification.
pub open spec fn target_value(current: int, max: int, sp: AdjustmentSpec) -> int {
    clamp_to_max(raw_target(current, max, sp), max)
}

/// Compute the new target brightness and clamp it to `[0, max]`.
///
/// The calculator never fails: whatever the inputs, the result is the
/// clamped target, and in particular always within the device range.
pub fn compute_target(current: u32, max: u32, sp: AdjustmentSpec) -> (v: u32)
    ensures
        v as int == target_value(current as int, max as int, sp),
        v <= max,
{
    let t: i128 = match sp {
        AdjustmentSpec::AbsoluteRaw(raw) => raw as i128,
        AdjustmentSpec::AbsolutePercent(percent) => {
            proof {
                assert((max as u64) * (percent as u64) <= u64::MAX) by (nonlinear_arith)
                    requires
                        max <= u32::MAX && percent <= u32::MAX,
                ;
            }
            let part: u64 = (max as u64) * (percent as u64) / 100;
            part as i128
        },
        AdjustmentSpec::RelativeRaw(delta) => current as i128 + delta as i128,
        AdjustmentSpec::RelativePercent(pd) => {
            let mag: u64 = if pd < 0 {
                (-(pd as i64)) as u64
            } else {
                pd as u64
            };
            proof {
                assert((max as u64) * mag <= u64::MAX) by (nonlinear_arith)
                    requires
                        max <= u32::MAX && mag <= 0x8000_0000u64,
                ;
                if pd < 0 {
                    assert((max as int) * (mag as int) == -((max as int) * (pd as int)))
                        by (nonlinear_arith)
                        requires
                            mag as int == -(pd as int),
                    ;
                }
            }
            let part: u64 = (max as u64) * mag / 100;
            if pd < 0 {
                current as i128 - part as i128
            } else {
                current as i128 + part as i128
            }
        },
    };
    let clamped: i128 = if t < 0 {
        0
    } else if t > max as i128 {
        max as i128
    } else {
        t
    };
    clamped as u32
}

/// An absolute-raw specification ignores the current value entirely: any
/// two current values give the same target.
pub proof fn lemma_absolute_raw_ignores_current(c1: int, c2: int, max: int, raw: u32)
    ensures
        target_value(c1, max, AdjustmentSpec::AbsoluteRaw(raw)) == target_value(
            c2,
            max,
            AdjustmentSpec::AbsoluteRaw(raw),
        ),
{
}

/// An absolute specification of one hundred percent lands exactly on the
/// maximum, for every device range and current value.
pub proof fn lemma_absolute_percent_full(current: int, max: int)
    requires
        max >= 0,
    ensures
        target_value(current, max, AdjustmentSpec::AbsolutePercent(100)) == max,
{
    assert(max * 100 == 100 * max) by (nonlinear_arith);
    assert(100 * max / 100 == max) by (nonlinear_arith)
        requires
            max >= 0,
    ;
}

/// An absolute specification of zero percent lands exactly on zero, for
/// every device range and current value.
pub proof fn lemma_absolute_percent_zero(current: int, max: int)
    requires
        max >= 0,
    ensures
        target_value(current, max, AdjustmentSpec::AbsolutePercent(0)) == 0,
{
    assert(max * 0 == 0) by (nonlinear_arith);
}

} // verus!
