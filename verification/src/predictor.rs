//! Predictors: pure functions from a decoded delta plus history to an
//! absolute field value.
//!
//! The final value is always the decoded delta plus the predicted one, as a
//! wrapping 32-bit addition. Two's-complement makes the signed and the
//! unsigned addition agree bit for bit, so only the predicted value itself
//! depends on the field's signedness.

use vstd::prelude::*;

use crate::ascii;
use crate::headers::Headers;
use crate::parser::{ParseError, ParseResult};

verus! {

/// How a field's absolute value is reconstructed from its decoded delta.
/// Decoded from header digits 0 to 11.
#[derive(Debug, Clone, Copy, PartialEq, Eq, Hash, Structural)]
pub enum Predictor {
    Zero,
    Previous,
    StraightLine,
    Average2,
    MinThrottle,
    Motor0,
    Increment,
    /// Accepted but not reconstructed: the predicted value is zero.
    HomeLat,
    FifteenHundred,
    VBatReference,
    /// Accepted but not reconstructed: the predicted value is zero.
    LastMainFrameTime,
    MinMotor,
}

/// The predictor a header digit string stands for, if any: the decimal
/// numerals `0` to `11`, written with no sign and no extra digits.
pub open spec fn spec_predictor_from_num_str(s: Seq<u8>) -> Option<Predictor> {
    if s.len() == 1 {
        if s[0] == ascii::DIGIT_ZERO {
            Some(Predictor::Zero)
        } else if s[0] == ascii::DIGIT_ZERO + 1 {
            Some(Predictor::Previous)
        } else if s[0] == ascii::DIGIT_ZERO + 2 {
            Some(Predictor::StraightLine)
        } else if s[0] == ascii::DIGIT_ZERO + 3 {
            Some(Predictor::Average2)
        } else if s[0] == ascii::DIGIT_ZERO + 4 {
            Some(Predictor::MinThrottle)
        } else if s[0] == ascii::DIGIT_ZERO + 5 {
            Some(Predictor::Motor0)
        } else if s[0] == ascii::DIGIT_ZERO + 6 {
            Some(Predictor::Increment)
        } else if s[0] == ascii::DIGIT_ZERO + 7 {
            Some(Predictor::HomeLat)
        } else if s[0] == ascii::DIGIT_ZERO + 8 {
            Some(Predictor::FifteenHundred)
        } else if s[0] == ascii::DIGIT_ZERO + 9 {
            Some(Predictor::VBatReference)
        } else {
            None
        }
    } else if s.len() == 2 && s[0] == ascii::DIGIT_ZERO + 1 {
        if s[1] == ascii::DIGIT_ZERO {
            Some(Predictor::LastMainFrameTime)
        } else if s[1] == ascii::DIGIT_ZERO + 1 {
            Some(Predictor::MinMotor)
        } else {
            None
        }
    } else {
        None
    }
}

/// The two-point extrapolation `2*last - last_last`, clamped back to
/// `last` when it leaves the type's range; `last` alone when no older
/// value exists, zero when none does.
pub open spec fn spec_straight_line_u32(last: Option<u32>, last_last: Option<u32>) -> u32 {
    match (last, last_last) {
        (Some(l), Some(ll)) => {
            let v = 2 * (l as int) - (ll as int);
            if 0 <= v <= u32::MAX {
                v as u32
            } else {
                l
            }
        },
        (Some(l), None) => l,
        _ => 0u32,
    }
}

/// Signed counterpart of `spec_straight_line_u32`.
pub open spec fn spec_straight_line_i32(last: Option<i32>, last_last: Option<i32>) -> i32 {
    match (last, last_last) {
        (Some(l), Some(ll)) => {
            let v = 2 * (l as int) - (ll as int);
            if i32::MIN <= v <= i32::MAX {
                v as i32
            } else {
                l
            }
        },
        (Some(l), None) => l,
        _ => 0i32,
    }
}

/// `spec_straight_line_u32` for 8-bit values.
pub open spec fn spec_straight_line_u8(last: Option<u8>, last_last: Option<u8>) -> u8 {
    match (last, last_last) {
        (Some(l), Some(ll)) => {
            let v = 2 * (l as int) - (ll as int);
            if 0 <= v <= u8::MAX {
                v as u8
            } else {
                l
            }
        },
        (Some(l), None) => l,
        _ => 0u8,
    }
}

/// `spec_straight_line_i32` for 8-bit values.
pub open spec fn spec_straight_line_i8(last: Option<i8>, last_last: Option<i8>) -> i8 {
    match (last, last_last) {
        (Some(l), Some(ll)) => {
            let v = 2 * (l as int) - (ll as int);
            if i8::MIN <= v <= i8::MAX {
                v as i8
            } else {
                l
            }
        },
        (Some(l), None) => l,
        _ => 0i8,
    }
}

/// The mean of the last two values, the division truncating toward zero;
/// a missing older value leaves the newer one, a missing newer one counts
/// as zero.
pub open spec fn spec_average_u32(last: Option<u32>, last_last: Option<u32>) -> u32 {
    let l = match last {
        Some(l) => l,
        None => 0u32,
    };
    match last_last {
        Some(ll) => (((l as int) + (ll as int)) / 2) as u32,
        None => l,
    }
}

/// Signed counterpart of `spec_average_u32`.
pub open spec fn spec_average_i32(last: Option<i32>, last_last: Option<i32>) -> i32 {
    let l = match last {
        Some(l) => l,
        None => 0i32,
    };
    match last_last {
        Some(ll) => {
            let sum = (l as int) + (ll as int);
            if sum >= 0 {
                (sum / 2) as i32
            } else {
                (0 - ((0 - sum) / 2)) as i32
            }
        },
        None => l,
    }
}

/// Extrapolates a straight line through the last two unsigned values.
pub fn straight_line_u32(last: Option<u32>, last_last: Option<u32>) -> (result: u32)
    ensures
        result == spec_straight_line_u32(last, last_last),
{
    match (last, last_last) {
        (Some(l), Some(ll)) => {
            let sum: u64 = 2 * (l as u64);
            if (ll as u64) > sum {
                l
            } else {
                let v: u64 = sum - (ll as u64);
                if v > u32::MAX as u64 {
                    l
                } else {
                    v as u32
                }
            }
        },
        (Some(l), None) => l,
        _ => 0,
    }
}

/// Extrapolates a straight line through the last two signed values.
pub fn straight_line_i32(last: Option<i32>, last_last: Option<i32>) -> (result: i32)
    ensures
        result == spec_straight_line_i32(last, last_last),
{
    match (last, last_last) {
        (Some(l), Some(ll)) => {
            let v: i64 = 2 * (l as i64) - (ll as i64);
            if v < i32::MIN as i64 || v > i32::MAX as i64 {
                l
            } else {
                v as i32
            }
        },
        (Some(l), None) => l,
        _ => 0,
    }
}

/// Extrapolates a straight line through the last two unsigned 8-bit values.
pub fn straight_line_u8(last: Option<u8>, last_last: Option<u8>) -> (result: u8)
    ensures
        result == spec_straight_line_u8(last, last_last),
{
    match (last, last_last) {
        (Some(l), Some(ll)) => {
            let sum: u16 = 2 * (l as u16);
            if (ll as u16) > sum {
                l
            } else {
                let v: u16 = sum - (ll as u16);
                if v > u8::MAX as u16 {
                    l
                } else {
                    v as u8
                }
            }
        },
        (Some(l), None) => l,
        _ => 0,
    }
}

/// Extrapolates a straight line through the last two signed 8-bit values.
pub fn straight_line_i8(last: Option<i8>, last_last: Option<i8>) -> (result: i8)
    ensures
        result == spec_straight_line_i8(last, last_last),
{
    match (last, last_last) {
        (Some(l), Some(ll)) => {
            let v: i16 = 2 * (l as i16) - (ll as i16);
            if v < i8::MIN as i16 || v > i8::MAX as i16 {
                l
            } else {
                v as i8
            }
        },
        (Some(l), None) => l,
        _ => 0,
    }
}

/// Averages the last two unsigned values.
pub fn average_u32(last: Option<u32>, last_last: Option<u32>) -> (result: u32)
    ensures
        result == spec_average_u32(last, last_last),
{
    let l = match last {
        Some(l) => l,
        None => 0,
    };
    match last_last {
        Some(ll) => (((l as u64) + (ll as u64)) / 2) as u32,
        None => l,
    }
}

/// Averages the last two signed values, truncating toward zero as the
/// machine division does.
pub fn average_i32(last: Option<i32>, last_last: Option<i32>) -> (result: i32)
    ensures
        result == spec_average_i32(last, last_last),
{
    let l = match last {
        Some(l) => l,
        None => 0,
    };
    match last_last {
        Some(ll) => {
            let sum: i64 = (l as i64) + (ll as i64);
            if sum >= 0 {
                (((sum as u64) / 2) as i64) as i32
            } else {
                let half: u64 = ((-sum) as u64) / 2;
                (-(half as i64)) as i32
            }
        },
        None => l,
    }
}

/// The predicted value `p` stands for, as the 32-bit pattern to add to the
/// decoded delta, or the error when the `motor[0]` field it needs is not
/// there.
pub open spec fn spec_predicted(
    p: Predictor,
    headers: Headers,
    signed: bool,
    current: Seq<u32>,
    last: Option<u32>,
    last_last: Option<u32>,
    skipped_frames: u32,
) -> ParseResult<u32> {
    match p {
        Predictor::Zero => Ok(0u32),
        Predictor::Previous => Ok(
            match last {
                Some(l) => l,
                None => 0u32,
            },
        ),
        Predictor::StraightLine => Ok(
            if signed {
                spec_straight_line_i32(
                    match last {
                        Some(l) => Some(l as i32),
                        None => None,
                    },
                    match last_last {
                        Some(l) => Some(l as i32),
                        None => None,
                    },
                ) as u32
            } else {
                spec_straight_line_u32(last, last_last)
            },
        ),
        Predictor::Average2 => Ok(
            if signed {
                spec_average_i32(
                    match last {
                        Some(l) => Some(l as i32),
                        None => None,
                    },
                    match last_last {
                        Some(l) => Some(l as i32),
                        None => None,
                    },
                ) as u32
            } else {
                spec_average_u32(last, last_last)
            },
        ),
        Predictor::MinThrottle => Ok(headers.min_throttle as u32),
        Predictor::Motor0 => match headers.motor_0_index {
            Some(i) => if i < current.len() {
                Ok(current[i as int])
            } else {
                Err(ParseError::Corrupted)
            },
            None => Err(ParseError::Corrupted),
        },
        Predictor::Increment => Ok(
            vstd::wrapping::u32_specs::wrapping_add(
                vstd::wrapping::u32_specs::wrapping_add(1u32, skipped_frames),
                match last {
                    Some(l) => l,
                    None => 0u32,
                },
            ),
        ),
        Predictor::FifteenHundred => Ok(1500u32),
        Predictor::VBatReference => Ok(headers.vbat_reference as u32),
        Predictor::MinMotor => Ok(headers.motor_output_range.min as u32),
        Predictor::HomeLat => Ok(0u32),
        Predictor::LastMainFrameTime => Ok(0u32),
    }
}

/// The absolute value a field takes: the decoded delta plus the predicted
/// value, as one wrapping 32-bit addition.
pub open spec fn spec_apply(
    p: Predictor,
    headers: Headers,
    value: u32,
    signed: bool,
    current: Seq<u32>,
    last: Option<u32>,
    last_last: Option<u32>,
    skipped_frames: u32,
) -> ParseResult<u32> {
    match spec_predicted(p, headers, signed, current, last, last_last, skipped_frames) {
        Ok(diff) => Ok(vstd::wrapping::u32_specs::wrapping_add(value, diff)),
        Err(e) => Err(e),
    }
}

impl Predictor {
    /// Reconstructs a field's absolute value from its decoded delta
    /// `value`, the fields of the current frame decoded so far, and the
    /// per-field history of the last and the one-before-last frame.
    ///
    /// The addition wraps; when `signed` the history is reinterpreted as
    /// two's-complement before predicting.
    pub fn apply(
        self,
        headers: &Headers,
        value: u32,
        signed: bool,
        current: &[u32],
        last: Option<u32>,
        last_last: Option<u32>,
        skipped_frames: u32,
    ) -> (result: ParseResult<u32>)
        ensures
            result == spec_apply(
                self,
                *headers,
                value,
                signed,
                current@,
                last,
                last_last,
                skipped_frames,
            ),
    {
        let diff: u32 = match self {
            Predictor::Zero => 0,
            Predictor::Previous => last.unwrap_or(0),
            Predictor::StraightLine => {
                if signed {
                    straight_line_i32(
                        match last {
                            Some(l) => Some(l as i32),
                            None => None,
                        },
                        match last_last {
                            Some(l) => Some(l as i32),
                            None => None,
                        },
                    ) as u32
                } else {
                    straight_line_u32(last, last_last)
                }
            },
            Predictor::Average2 => {
                if signed {
                    average_i32(
                        match last {
                            Some(l) => Some(l as i32),
                            None => None,
                        },
                        match last_last {
                            Some(l) => Some(l as i32),
                            None => None,
                        },
                    ) as u32
                } else {
                    average_u32(last, last_last)
                }
            },
            Predictor::MinThrottle => headers.min_throttle as u32,
            Predictor::Motor0 => {
                match headers.motor_0_index {
                    Some(i) => {
                        if i < current.len() {
                            *vstd::slice::slice_index_get(current, i)
                        } else {
                            return Err(ParseError::Corrupted);
                        }
                    },
                    None => {
                        return Err(ParseError::Corrupted);
                    },
                }
            },
            Predictor::Increment => 1u32.wrapping_add(skipped_frames).wrapping_add(
                last.unwrap_or(0),
            ),
            Predictor::FifteenHundred => 1500,
            Predictor::VBatReference => headers.vbat_reference as u32,
            Predictor::MinMotor => headers.motor_output_range.min as u32,
            Predictor::HomeLat | Predictor::LastMainFrameTime => 0,
        };
        Ok(value.wrapping_add(diff))
    }

    /// Looks up the predictor a header digit string names.
    pub fn from_num_str(s: &[u8]) -> (result: Option<Self>)
        ensures
            result == spec_predictor_from_num_str(s@),
    {
        if s.len() == 1 {
            let b: u8 = *vstd::slice::slice_index_get(s, 0);
            if b == ascii::DIGIT_ZERO {
                Some(Self::Zero)
            } else if b == ascii::DIGIT_ZERO + 1 {
                Some(Self::Previous)
            } else if b == ascii::DIGIT_ZERO + 2 {
                Some(Self::StraightLine)
            } else if b == ascii::DIGIT_ZERO + 3 {
                Some(Self::Average2)
            } else if b == ascii::DIGIT_ZERO + 4 {
                Some(Self::MinThrottle)
            } else if b == ascii::DIGIT_ZERO + 5 {
                Some(Self::Motor0)
            } else if b == ascii::DIGIT_ZERO + 6 {
                Some(Self::Increment)
            } else if b == ascii::DIGIT_ZERO + 7 {
                Some(Self::HomeLat)
            } else if b == ascii::DIGIT_ZERO + 8 {
                Some(Self::FifteenHundred)
            } else if b == ascii::DIGIT_ZERO + 9 {
                Some(Self::VBatReference)
            } else {
                None
            }
        } else if s.len() == 2 {
            let b0: u8 = *vstd::slice::slice_index_get(s, 0);
            let b1: u8 = *vstd::slice::slice_index_get(s, 1);
            if b0 == ascii::DIGIT_ZERO + 1 {
                if b1 == ascii::DIGIT_ZERO {
                    Some(Self::LastMainFrameTime)
                } else if b1 == ascii::DIGIT_ZERO + 1 {
                    Some(Self::MinMotor)
                } else {
                    None
                }
            } else {
                None
            }
        } else {
            None
        }
    }
}

} // verus!
