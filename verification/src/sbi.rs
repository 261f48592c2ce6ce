//! Judging the results of SBI calls for the timer extension.

use vstd::prelude::*;

verus! {

/// Extension id of the SBI base extension.
pub const EID_BASE: usize = 0x10;
/// Function id of "probe extension" in the base extension.
pub const FID_PROBE_EXTENSION: usize = 3;
/// Extension id of the SBI timer extension ("TIME").
pub const EID_TIME: usize = 0x54494d45;
/// Function id of "set timer" in the timer extension.
pub const FID_SET_TIMER: usize = 0;

/// A failed SBI request.
#[derive(Clone, Copy, PartialEq, Eq, Structural, Debug)]
pub enum SbiError {
    /// The base probe itself failed with this SBI error.
    ProbeFailed(isize),
    /// The firmware does not offer the timer extension.
    TimeUnavailable,
    /// Setting the timer failed with this SBI error.
    SetTimerFailed(isize),
}

/// The result of an SBI call from its `a0` (error) and `a1` (value).
pub fn sbi_result(error: isize, value: usize) -> (r: Result<usize, isize>)
    ensures
        r == if error == 0 {
            Ok::<usize, isize>(value)
        } else {
            Err(error)
        },
{
    if error == 0 {
        Ok(value)
    } else {
        Err(error)
    }
}

/// Judges the probe of the timer extension: the probe must succeed and
/// report the extension as present (non-zero).
pub fn init_time(probe: Result<usize, isize>) -> (r: Result<(), SbiError>)
    ensures
        r == match probe {
            Err(e) => Err(SbiError::ProbeFailed(e)),
            Ok(0) => Err(SbiError::TimeUnavailable),
            Ok(_) => Ok(()),
        },
{
    match probe {
        Err(e) => Err(SbiError::ProbeFailed(e)),
        Ok(v) => if v == 0 {
            Err(SbiError::TimeUnavailable)
        } else {
            Ok(())
        },
    }
}

/// Judges the result of a set-timer call.
pub fn set_timer(result: Result<usize, isize>) -> (r: Result<(), SbiError>)
    ensures
        r == match result {
            Err(e) => Err(SbiError::SetTimerFailed(e)),
            Ok(_) => Ok(()),
        },
{
    match result {
        Err(e) => Err(SbiError::SetTimerFailed(e)),
        Ok(_) => Ok(()),
    }
}

} // verus!
