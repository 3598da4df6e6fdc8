//! Shared parser types: the error taxonomy, the decoder configuration and the
//! one-byte frame-kind markers that drive the frame loop.

use vstd::prelude::*;

use crate::ascii;
use crate::log::Log;

verus! {

/// Why decoding a log stopped. Every error is terminal for the current log;
/// frames decoded before it remain valid.
#[derive(Debug, Clone, PartialEq, Eq)]
pub enum ParseError {
    /// The `Data version` header held a version this decoder does not take.
    /// Carries the header value.
    UnsupportedVersion(Vec<u8>),
    /// The `Firmware revision` header named no known firmware. Carries the
    /// header value.
    UnknownFirmware(Vec<u8>),
    /// The data does not follow the format: a malformed header, an unknown
    /// frame kind or event code, or an ill-formed encoding.
    Corrupted,
    /// The input ended in the middle of a header or a frame.
    UnexpectedEof,
}

pub type ParseResult<T> = Result<T, ParseError>;

/// Decoder configuration.
#[derive(Debug, Default, Clone, Copy)]
pub struct Config {
    /// Skip applying predictors to the parsed values
    pub raw: bool,
}

impl Config {
    /// Decodes one log from `data` under this configuration: the header
    /// block, then the frame loop, exactly as `Log::parse` states.
    pub fn parse(&self, data: &[u8]) -> (result: ParseResult<Log>)
        ensures
            match result {
                Ok(log) => log.wf() && log.spec_config() == *self && log.spec_source()
                    == data@,
                Err(_) => true,
            },
            data@.len() == 0 ==> result == Err::<Log, _>(ParseError::Corrupted),
            match crate::headers::spec_collect(data@, 0, crate::headers::spec_lines_empty()) {
                Ok((lines, off)) => match crate::headers::spec_build_error(lines) {
                    Some(he) => result matches Err(e)
                        && crate::headers::spec_header_error_matches(he, e),
                    None => exists|h: crate::headers::Headers|
                        {
                            &&& #[trigger] crate::headers::spec_headers_match(lines, h)
                            &&& h.wf()
                            &&& match crate::log::spec_frame_loop(
                                data@.skip(off),
                                h,
                                self.raw,
                                crate::log::spec_drive_init(),
                            ) {
                                Ok(m) => result matches Ok(log) && log.headers == h
                                    && crate::log::spec_log_matches(m, log, off),
                                Err(e) => result == Err::<Log, _>(e),
                            }
                        },
                },
                Err(e) => result == Err::<Log, _>(e),
            },
    {
        Log::parse(self, data)
    }
}

/// What the one-byte marker in front of a record selects.
#[derive(Debug, Clone, Copy, PartialEq, Eq, Hash, Structural)]
pub enum FrameKind {
    Event,
    Data(DataFrameKind),
}

/// The five data frame kinds, each with its own field definition table.
#[derive(Debug, Clone, Copy, PartialEq, Eq, Hash, Structural)]
pub enum DataFrameKind {
    Intra,
    Inter,
    Gps,
    GpsHome,
    Slow,
}

/// The data frame kind a marker byte stands for, if any.
pub open spec fn spec_data_frame_kind_from_byte(byte: u8) -> Option<DataFrameKind> {
    if byte == ascii::LETTER_I {
        Some(DataFrameKind::Intra)
    } else if byte == ascii::LETTER_P {
        Some(DataFrameKind::Inter)
    } else if byte == ascii::LETTER_G {
        Some(DataFrameKind::Gps)
    } else if byte == ascii::LETTER_H {
        Some(DataFrameKind::GpsHome)
    } else if byte == ascii::LETTER_S {
        Some(DataFrameKind::Slow)
    } else {
        None
    }
}

/// The frame kind a marker byte stands for: `E` for events, else one of the
/// data kinds.
pub open spec fn spec_frame_kind_from_byte(byte: u8) -> Option<FrameKind> {
    if byte == ascii::LETTER_E {
        Some(FrameKind::Event)
    } else {
        match spec_data_frame_kind_from_byte(byte) {
            Some(kind) => Some(FrameKind::Data(kind)),
            None => None,
        }
    }
}

impl FrameKind {
    /// Classifies the byte that opens a record.
    pub fn from_byte(byte: u8) -> (result: Option<Self>)
        ensures
            result == spec_frame_kind_from_byte(byte),
    {
        if byte == ascii::LETTER_E {
            Some(Self::Event)
        } else {
            match DataFrameKind::from_byte(byte) {
                Some(kind) => Some(Self::Data(kind)),
                None => None,
            }
        }
    }
}

impl DataFrameKind {
    /// Classifies the byte that opens a data record.
    pub fn from_byte(byte: u8) -> (result: Option<Self>)
        ensures
            result == spec_data_frame_kind_from_byte(byte),
    {
        if byte == ascii::LETTER_I {
            Some(Self::Intra)
        } else if byte == ascii::LETTER_P {
            Some(Self::Inter)
        } else if byte == ascii::LETTER_G {
            Some(Self::Gps)
        } else if byte == ascii::LETTER_H {
            Some(Self::GpsHome)
        } else if byte == ascii::LETTER_S {
            Some(Self::Slow)
        } else {
            None
        }
    }

    /// The marker byte this kind is written as: the letter that opens its
    /// records and names it in `Field <K> ...` header keys.
    pub fn to_letter(self) -> (result: u8)
        ensures
            spec_data_frame_kind_from_byte(result) == Some(self),
    {
        match self {
            Self::Intra => ascii::LETTER_I,
            Self::Inter => ascii::LETTER_P,
            Self::Gps => ascii::LETTER_G,
            Self::GpsHome => ascii::LETTER_H,
            Self::Slow => ascii::LETTER_S,
        }
    }

    /// The kind a one-letter `Field <K> ...` header key names, if any.
    pub fn from_letter(s: &[u8]) -> (result: Option<Self>)
        ensures
            result == if s@.len() == 1 {
                spec_data_frame_kind_from_byte(s@[0])
            } else {
                None::<DataFrameKind>
            },
    {
        if s.len() == 1 {
            Self::from_byte(*vstd::slice::slice_index_get(s, 0))
        } else {
            None
        }
    }
}

} // verus!
