//! Event records: the discrete occurrences an `E` record carries between
//! data frames, selected by a one-byte event code.

use vstd::prelude::*;

use crate::parser::{ParseError, ParseResult};
use crate::reader::Reader;
use crate::variable::{spec_variable, spec_variable_signed, variable, variable_signed};

verus! {

/// The payload of an in-flight adjustment: either a signed setting or the
/// bit pattern of a single-precision value, which this decoder keeps as
/// bits.
#[derive(Debug, Clone, Copy, PartialEq, Eq, Structural)]
pub enum AdjustmentValue {
    Signed(i32),
    FloatBits(u32),
}

/// One event record.
#[derive(Debug, Clone, PartialEq, Eq, Structural)]
pub enum Event {
    /// A beeper sync mark with its timestamp.
    SyncBeep(u32),
    /// An in-flight adjustment of the numbered function.
    InflightAdjustment { function: u8, value: AdjustmentValue },
    /// Logging started again after a pause.
    LoggingResume { log_iteration: u32, current_time: u32 },
    /// The craft disarmed, with the reason code.
    Disarm(u32),
    /// The flight mode flags changed.
    FlightMode { flags: u32, last_flags: u32 },
    /// The log ends here; later bytes are not part of it.
    End,
}

/// The event code bytes of the wire format.
pub const EVENT_SYNC_BEEP: u8 = 0;

pub const EVENT_INFLIGHT_ADJUSTMENT: u8 = 13;

pub const EVENT_LOGGING_RESUME: u8 = 14;

pub const EVENT_DISARM: u8 = 15;

pub const EVENT_FLIGHT_MODE: u8 = 30;

pub const EVENT_END: u8 = 255;

/// The bytes `End of log` and a final zero, which close the end event.
pub open spec fn spec_end_of_log() -> Seq<u8> {
    seq![69u8, 110u8, 100u8, 32u8, 111u8, 102u8, 32u8, 108u8, 111u8, 103u8, 0u8]
}

/// Checks the end-of-log string byte by byte from index `k`: a byte that
/// differs is corruption, running out of data a truncation.
pub open spec fn spec_end_check(data: Seq<u8>, pos: int, k: int) -> ParseResult<int>
    decreases 11 - k,
{
    if k >= 11 {
        Ok(pos + k)
    } else if !(0 <= pos + k < data.len()) {
        Err(ParseError::UnexpectedEof)
    } else if data[pos + k] != spec_end_of_log()[k] {
        Err(ParseError::Corrupted)
    } else {
        spec_end_check(data, pos, k + 1)
    }
}

/// The event starting at byte `pos`, which holds the event code, and the
/// position after its payload. An unknown code is corruption.
pub open spec fn spec_event(data: Seq<u8>, pos: int) -> ParseResult<(Event, int)> {
    if !(0 <= pos < data.len()) {
        Err(ParseError::UnexpectedEof)
    } else {
        let code = data[pos];
        if code == EVENT_SYNC_BEEP {
            match spec_variable(data, pos + 1) {
                Ok((t, next)) => Ok((Event::SyncBeep(t), next)),
                Err(e) => Err(e),
            }
        } else if code == EVENT_INFLIGHT_ADJUSTMENT {
            if !(pos + 1 < data.len()) {
                Err(ParseError::UnexpectedEof)
            } else {
                let function = data[pos + 1];
                if function & 0x80 != 0 {
                    if pos + 6 <= data.len() {
                        let w = (data[pos + 2] + 256 * data[pos + 3] + 65536 * data[pos + 4]
                            + 16777216 * data[pos + 5]) as u32;
                        Ok(
                            (
                                Event::InflightAdjustment {
                                    function,
                                    value: AdjustmentValue::FloatBits(w),
                                },
                                pos + 6,
                            ),
                        )
                    } else {
                        Err(ParseError::UnexpectedEof)
                    }
                } else {
                    match spec_variable_signed(data, pos + 2) {
                        Ok((v, next)) => Ok(
                            (
                                Event::InflightAdjustment {
                                    function,
                                    value: AdjustmentValue::Signed(v),
                                },
                                next,
                            ),
                        ),
                        Err(e) => Err(e),
                    }
                }
            }
        } else if code == EVENT_LOGGING_RESUME {
            match spec_variable(data, pos + 1) {
                Ok((it, mid)) => match spec_variable(data, mid) {
                    Ok((t, next)) => Ok(
                        (Event::LoggingResume { log_iteration: it, current_time: t }, next),
                    ),
                    Err(e) => Err(e),
                },
                Err(e) => Err(e),
            }
        } else if code == EVENT_DISARM {
            match spec_variable(data, pos + 1) {
                Ok((reason, next)) => Ok((Event::Disarm(reason), next)),
                Err(e) => Err(e),
            }
        } else if code == EVENT_FLIGHT_MODE {
            match spec_variable(data, pos + 1) {
                Ok((flags, mid)) => match spec_variable(data, mid) {
                    Ok((last_flags, next)) => Ok(
                        (Event::FlightMode { flags, last_flags }, next),
                    ),
                    Err(e) => Err(e),
                },
                Err(e) => Err(e),
            }
        } else if code == EVENT_END {
            match spec_end_check(data, pos + 1, 0) {
                Ok(next) => Ok((Event::End, next)),
                Err(e) => Err(e),
            }
        } else {
            Err(ParseError::Corrupted)
        }
    }
}

/// Decodes one event record, starting at the event code byte.
pub fn decode_event(data: &mut Reader) -> (result: ParseResult<Event>)
    requires
        old(data).wf(),
    ensures
        final(data).wf(),
        final(data).spec_data() == old(data).spec_data(),
        final(data).spec_bit_pos() >= old(data).spec_bit_pos(),
        match spec_event(old(data).spec_data(), old(data).spec_byte_pos()) {
            Ok((ev, next)) => result == Ok::<_, ParseError>(ev) && final(data).spec_aligned()
                && final(data).spec_byte_pos() == next,
            Err(e) => result == Err::<Event, _>(e),
        },
{
    let ghost d = old(data).spec_data();
    let ghost pos0 = old(data).spec_byte_pos();
    let code: u8 = match data.read_byte() {
        Some(b) => b,
        None => {
            return Err(ParseError::UnexpectedEof);
        },
    };
    if code == EVENT_SYNC_BEEP {
        match variable(data) {
            Ok(t) => Ok(Event::SyncBeep(t)),
            Err(e) => Err(e),
        }
    } else if code == EVENT_INFLIGHT_ADJUSTMENT {
        let function: u8 = match data.read_byte() {
            Some(b) => b,
            None => {
                return Err(ParseError::UnexpectedEof);
            },
        };
        if function & 0x80 != 0 {
            let b0: u8 = match data.read_byte() {
                Some(b) => b,
                None => {
                    return Err(ParseError::UnexpectedEof);
                },
            };
            let b1: u8 = match data.read_byte() {
                Some(b) => b,
                None => {
                    return Err(ParseError::UnexpectedEof);
                },
            };
            let b2: u8 = match data.read_byte() {
                Some(b) => b,
                None => {
                    return Err(ParseError::UnexpectedEof);
                },
            };
            let b3: u8 = match data.read_byte() {
                Some(b) => b,
                None => {
                    return Err(ParseError::UnexpectedEof);
                },
            };
            let w: u32 = (b0 as u32) + 256 * (b1 as u32) + 65536 * (b2 as u32) + 16777216 * (
            b3 as u32);
            Ok(Event::InflightAdjustment { function, value: AdjustmentValue::FloatBits(w) })
        } else {
            match variable_signed(data) {
                Ok(v) => Ok(
                    Event::InflightAdjustment { function, value: AdjustmentValue::Signed(v) },
                ),
                Err(e) => Err(e),
            }
        }
    } else if code == EVENT_LOGGING_RESUME {
        let log_iteration: u32 = match variable(data) {
            Ok(v) => v,
            Err(e) => {
                return Err(e);
            },
        };
        match variable(data) {
            Ok(t) => Ok(Event::LoggingResume { log_iteration, current_time: t }),
            Err(e) => Err(e),
        }
    } else if code == EVENT_DISARM {
        match variable(data) {
            Ok(reason) => Ok(Event::Disarm(reason)),
            Err(e) => Err(e),
        }
    } else if code == EVENT_FLIGHT_MODE {
        let flags: u32 = match variable(data) {
            Ok(v) => v,
            Err(e) => {
                return Err(e);
            },
        };
        match variable(data) {
            Ok(last_flags) => Ok(Event::FlightMode { flags, last_flags }),
            Err(e) => Err(e),
        }
    } else if code == EVENT_END {
        let marker = [69u8, 110u8, 100u8, 32u8, 111u8, 102u8, 32u8, 108u8, 111u8, 103u8, 0u8];
        proof {
            assert(marker@ =~= spec_end_of_log());
        }
        let mut k: usize = 0;
        while k < 11
            invariant
                data.wf(),
                data.spec_aligned(),
                data.spec_data() == d,
                d == old(data).spec_data(),
                pos0 == old(data).spec_byte_pos(),
                marker@ == spec_end_of_log(),
                0 <= k <= 11,
                data.spec_byte_pos() == pos0 + 1 + k,
                data.spec_bit_pos() >= old(data).spec_bit_pos(),
                spec_end_check(d, pos0 + 1, 0) == spec_end_check(d, pos0 + 1, k as int),
                spec_event(d, pos0) == (match spec_end_check(d, pos0 + 1, 0) {
                    Ok(next) => Ok::<(Event, int), ParseError>((Event::End, next)),
                    Err(err) => Err::<(Event, int), ParseError>(err),
                }),
            decreases 11 - k,
        {
            let b: u8 = match data.read_byte() {
                Some(b) => b,
                None => {
                    return Err(ParseError::UnexpectedEof);
                },
            };
            if b != marker[k] {
                return Err(ParseError::Corrupted);
            }
            k = k + 1;
        }
        Ok(Event::End)
    } else {
        Err(ParseError::Corrupted)
    }
}

} // verus!
