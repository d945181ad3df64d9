//! The value writer's defensive check. The caller is expected to hand in
//! a value the calculator already clamped; this check still rejects one
//! above the device maximum before anything reaches the hardware.

use crate::error::BacklightError;
use vstd::prelude::*;

verus! {

/// Accept a value for writing exactly when it does not exceed the device
/// maximum; otherwise fail with `InvalidValue` and write nothing.
pub fn validate_brightness(value: u32, max: u32) -> (r: Result<(), BacklightError>)
    ensures
        match r {
            Ok(()) => value <= max,
            Err(e) => e == BacklightError::InvalidValue && value > max,
        },
{
    if value <= max {
        Ok(())
    } else {
        Err(BacklightError::InvalidValue)
    }
}

} // verus!
