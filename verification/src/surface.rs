//! The command surface's decisions: turn the validated value argument
//! into an adjustment specification, and pick the action an invocation
//! performs. All file handling stays with the caller.

use crate::calc::AdjustmentSpec;
use crate::digits::digits_val;
use crate::digits::is_digit_char;
use crate::digits::parse_digits;
use crate::error::BacklightError;
use crate::grammar::body_end;
use crate::grammar::digits_part;
use crate::grammar::grammar_matches;
use crate::grammar::matches_value_grammar;
use crate::grammar::sign_len;
use vstd::prelude::*;
use vstd::string::StrSliceExecFns;

verus! {

/// Whether the value argument carries a sign prefix and so asks for a
/// relative adjustment.
pub open spec fn is_relative_form(s: Seq<char>) -> bool {
    sign_len(s) == 1
}

/// Whether the sign prefix is a minus.
pub open spec fn is_negative_form(s: Seq<char>) -> bool {
    s.len() > 0 && s[0] == '-'
}

/// Whether the value argument carries a percent suffix.
pub open spec fn is_percent_form(s: Seq<char>) -> bool {
    s.len() > 0 && s[s.len() - 1] == '%'
}

/// The numeric value of the digit run of the value argument.
pub open spec fn magnitude(s: Seq<char>) -> nat {
    digits_val(digits_part(s))
}

/// The magnitude with the sign prefix applied.
pub open spec fn signed_magnitude(s: Seq<char>) -> int {
    if is_negative_form(s) {
        -(magnitude(s) as int)
    } else {
        magnitude(s) as int
    }
}

/// Whether the magnitude fits the arithmetic type its form needs: `i32`
/// for a relative adjustment, `u32` for an absolute one.
pub open spec fn magnitude_fits(s: Seq<char>) -> bool {
    if is_relative_form(s) {
        magnitude(s) <= i32::MAX
    } else {
        magnitude(s) <= u32::MAX
    }
}

/// The adjustment a grammar-matching value argument denotes.
pub open spec fn adjustment_of_value(s: Seq<char>) -> AdjustmentSpec {
    if is_relative_form(s) {
        if is_percent_form(s) {
            AdjustmentSpec::RelativePercent(signed_magnitude(s) as i32)
        } else {
            AdjustmentSpec::RelativeRaw(signed_magnitude(s) as i32)
        }
    } else {
        if is_percent_form(s) {
            AdjustmentSpec::AbsolutePercent(magnitude(s) as u32)
        } else {
            AdjustmentSpec::AbsoluteRaw(magnitude(s) as u32)
        }
    }
}

/// Parse a value argument into an adjustment specification.
///
/// Succeeds exactly when the argument matches the grammar and its
/// magnitude fits; everything else is `InvalidArgument`, decided before
/// any file is touched.
pub fn parse_adjustment(value: &str) -> (r: Result<AdjustmentSpec, BacklightError>)
    ensures
        match r {
            Ok(sp) => grammar_matches(value@) && magnitude_fits(value@) && sp
                == adjustment_of_value(value@),
            Err(e) => e == BacklightError::InvalidArgument && !(grammar_matches(value@)
                && magnitude_fits(value@)),
        },
{
    if !matches_value_grammar(value) {
        return Err(BacklightError::InvalidArgument);
    }
    let len = value.unicode_len();
    assert(len >= 1);
    let first = value.get_char(0);
    let neg = first == '-';
    let rel = neg || first == '+';
    let start: usize = if rel {
        1
    } else {
        0
    };
    let last = value.get_char(len - 1);
    let pct = last == '%';
    let end: usize = if pct {
        len - 1
    } else {
        len
    };
    assert(start as int == sign_len(value@));
    assert(end as int == body_end(value@));
    assert(rel == is_relative_form(value@));
    assert(neg == is_negative_form(value@));
    assert(pct == is_percent_form(value@));
    assert forall|i: int| start <= i < end implies is_digit_char(#[trigger] value@[i]) by {
        assert(digits_part(value@)[i - start] == value@[i]);
    }
    let m: u32 = match parse_digits(value, start, end) {
        Some(m) => m,
        None => {
            return Err(BacklightError::InvalidArgument);
        },
    };
    assert(m as nat == magnitude(value@));
    if rel {
        if m > 0x7fff_ffff {
            return Err(BacklightError::InvalidArgument);
        }
        let d: i32 = if neg {
            -(m as i32)
        } else {
            m as i32
        };
        assert(d as int == signed_magnitude(value@));
        if pct {
            Ok(AdjustmentSpec::RelativePercent(d))
        } else {
            Ok(AdjustmentSpec::RelativeRaw(d))
        }
    } else {
        if pct {
            Ok(AdjustmentSpec::AbsolutePercent(m))
        } else {
            Ok(AdjustmentSpec::AbsoluteRaw(m))
        }
    }
}

/// The action one invocation performs.
#[derive(Clone, Copy, Debug, PartialEq, Eq, Structural)]
pub enum Action {
    /// Report the maximum and current brightness.
    ShowStats,
    /// Compute and write a new brightness from this adjustment.
    SetValue(AdjustmentSpec),
    /// Neither a stats request nor a value: present usage help and touch
    /// no file.
    ShowUsage,
}

/// Decide what an invocation does.
///
/// The stats flag wins over any value. Without it, a missing or empty
/// value argument means usage help — an explicit no-op, never a default
/// write — and anything else must parse as an adjustment.
pub fn decide_action(stats: bool, value: Option<&str>) -> (r: Result<Action, BacklightError>)
    ensures
        ({
            match (stats, value) {
                (true, _) => r == Ok::<Action, BacklightError>(Action::ShowStats),
                (false, None) => r == Ok::<Action, BacklightError>(Action::ShowUsage),
                (false, Some(v)) => {
                    if v@.len() == 0 {
                        r == Ok::<Action, BacklightError>(Action::ShowUsage)
                    } else if grammar_matches(v@) && magnitude_fits(v@) {
                        r == Ok::<Action, BacklightError>(
                            Action::SetValue(adjustment_of_value(v@)),
                        )
                    } else {
                        r == Err::<Action, BacklightError>(BacklightError::InvalidArgument)
                    }
                },
            }
        }),
{
    if stats {
        return Ok(Action::ShowStats);
    }
    match value {
        None => Ok(Action::ShowUsage),
        Some(v) => {
            if v.unicode_len() == 0 {
                return Ok(Action::ShowUsage);
            }
            match parse_adjustment(v) {
                Ok(sp) => Ok(Action::SetValue(sp)),
                Err(e) => Err(e),
            }
        },
    }
}

/// Stats mode may report one value while the other shows its error, but
/// the process exits successfully only when both reads succeeded.
pub fn stats_exit_success(max_ok: bool, current_ok: bool) -> (r: bool)
    ensures
        r == (max_ok && current_ok),
{
    max_ok && current_ok
}

} // verus!
