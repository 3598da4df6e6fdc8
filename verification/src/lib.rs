//! Decoder for Blackbox flight-recorder logs written by Betaflight, EmuFlight
//! and INAV flight controllers.
//!
//! A byte buffer may hold several concatenated logs. Each log starts with a
//! textual header block that declares, per frame kind, the field names,
//! predictors, encodings and signedness, followed by a compact binary stream
//! of variable-width integer encodings. The decoder reconstructs absolute
//! field values by applying predictors to the decoded deltas while keeping
//! history across frames.

use vstd::prelude::*;

pub mod ascii;
pub mod elias;
pub mod encoding;
pub mod event;
pub mod frame;
pub mod headers;
pub mod log;
pub mod parser;
pub mod predictor;
pub mod reader;
pub mod tagged;
pub mod units;
pub mod variable;

pub use encoding::Encoding;
pub use event::{AdjustmentValue, Event};
pub use headers::{DataVersion, FieldDef, FieldDefinition, FirmwareKind, Headers, MotorOutputRange};
pub use log::{Frame, Log, Stats};
pub use parser::{Config, ParseError, ParseResult};
pub use predictor::Predictor;
pub use reader::Reader;
pub use units::{FailsafePhase, Flag, FlagSet, FlightMode, FlightModeSet, State, StateSet};

verus! {

/// True when `needle` occurs in `data` starting at byte `p`.
pub open spec fn spec_is_match(data: Seq<u8>, needle: Seq<u8>, p: int) -> bool {
    &&& 0 <= p
    &&& p + needle.len() <= data.len()
    &&& data.subrange(p, p + needle.len()) == needle
}

/// Relies on memchr::memmem::find_iter: it yields the byte offsets of the
/// non-overlapping occurrences of the needle in the haystack, leftmost
/// first, each next search resuming right after the previous occurrence.
/// So the offsets come out ascending, at least a needle length apart, each
/// one an occurrence, and every occurrence overlaps a reported one.
#[verifier::external_body]
fn find_marker_offsets(data: &[u8], needle: &[u8]) -> (result: Vec<usize>)
    requires
        needle@.len() >= 1,
    ensures
        forall|k: int|
            0 <= k < result@.len() ==> spec_is_match(data@, needle@, result@[k] as int),
        forall|k: int|
            0 <= k < result@.len() - 1 ==> #[trigger] result@[k] + needle@.len() <= result@[k
                + 1],
        forall|p: int|
            spec_is_match(data@, needle@, p) ==> exists|k: int|
                0 <= k < result@.len() && (#[trigger] result@[k]) <= p < result@[k]
                    + needle@.len(),
{
    memchr::memmem::find_iter(data, needle).collect()
}

/// The file split marker: the product banner header line that opens every
/// log.
pub open spec fn spec_marker() -> Seq<u8> {
    seq![72u8, 32u8, 80u8, 114u8, 111u8, 100u8, 117u8, 99u8, 116u8, 58u8, 66u8, 108u8, 97u8, 99u8, 107u8, 98u8, 111u8, 120u8, 32u8, 102u8, 108u8, 105u8, 103u8, 104u8, 116u8, 32u8, 100u8, 97u8, 116u8, 97u8, 32u8, 114u8, 101u8, 99u8, 111u8, 114u8, 100u8, 101u8, 114u8, 32u8, 98u8, 121u8, 32u8, 78u8, 105u8, 99u8, 104u8, 111u8, 108u8, 97u8, 115u8, 32u8, 83u8, 104u8, 101u8, 114u8, 108u8, 111u8, 99u8, 107u8, 10u8]
}

/// Builds the file split marker as bytes.
pub fn marker_bytes() -> (result: Vec<u8>)
    ensures
        result@ == spec_marker(),
{
    let m = [72u8, 32u8, 80u8, 114u8, 111u8, 100u8, 117u8, 99u8, 116u8, 58u8, 66u8, 108u8, 97u8, 99u8, 107u8, 98u8, 111u8, 120u8, 32u8, 102u8, 108u8, 105u8, 103u8, 104u8, 116u8, 32u8, 100u8, 97u8, 116u8, 97u8, 32u8, 114u8, 101u8, 99u8, 111u8, 114u8, 100u8, 101u8, 114u8, 32u8, 98u8, 121u8, 32u8, 78u8, 105u8, 99u8, 104u8, 111u8, 108u8, 97u8, 115u8, 32u8, 83u8, 104u8, 101u8, 114u8, 108u8, 111u8, 99u8, 107u8, 10u8];
    proof {
        assert(m@ =~= spec_marker());
    }
    ascii::copy_range(m.as_slice(), 0, 61)
}

/// A byte buffer holding zero or more concatenated logs, split at the
/// product banner marker. The fields are public for the sake of the
/// specifications; `new` is the constructor.
pub struct File<'data> {
    /// The offset of each log's marker, ascending.
    pub offsets: Vec<usize>,
    /// The whole buffer.
    pub data: &'data [u8],
}

impl<'data> File<'data> {
    /// What `new` establishes: each offset starts a marker occurrence,
    /// the offsets ascend without overlap, and every occurrence overlaps
    /// a listed one — on a buffer of concatenated logs, one offset per
    /// log.
    pub open spec fn wf(self) -> bool {
        &&& forall|k: int|
            0 <= k < self.offsets@.len() ==> spec_is_match(
                self.data@,
                spec_marker(),
                self.offsets@[k] as int,
            )
        &&& forall|k: int|
            0 <= k < self.offsets@.len() - 1 ==> #[trigger] self.offsets@[k]
                + spec_marker().len() <= self.offsets@[k + 1]
        &&& forall|p: int|
            spec_is_match(self.data@, spec_marker(), p) ==> exists|k: int|
                0 <= k < self.offsets@.len() && (#[trigger] self.offsets@[k]) <= p
                    < self.offsets@[k] + spec_marker().len()
    }

    /// Scans the buffer for the split marker, one hit per log.
    pub fn new(data: &'data [u8]) -> (result: Self)
        ensures
            result.wf(),
            result.data@ == data@,
    {
        let needle = marker_bytes();
        let offsets = find_marker_offsets(data, needle.as_slice());
        File { offsets, data }
    }

    /// How many logs the buffer holds. Empty input holds none: the marker
    /// is longer than nothing, so nothing can match.
    pub fn log_count(&self) -> (result: usize)
        requires
            self.wf(),
        ensures
            result == self.offsets@.len(),
            self.data@.len() == 0 ==> result == 0,
    {
        proof {
            if self.data@.len() == 0 && self.offsets@.len() > 0 {
                assert(spec_is_match(self.data@, spec_marker(), self.offsets@[0] as int));
            }
        }
        self.offsets.len()
    }

    /// Decodes the log at `index`: exactly the `Log::parse` of the suffix
    /// of the buffer that begins at the indexed marker, untouched by any
    /// byte before it or by any other log's outcome. The index must name
    /// one of the `log_count` logs.
    pub fn parse_by_index<'config>(&self, config: &'config Config, index: usize) -> (result:
        ParseResult<Log>)
        requires
            self.wf(),
            index < self.offsets@.len(),
        ensures
            match result {
                Ok(log) => log.wf() && log.spec_config() == *config && log.spec_source()
                    == self.data@.skip(self.offsets@[index as int] as int),
                Err(_) => true,
            },
            ({
                let suffix = self.data@.skip(self.offsets@[index as int] as int);
                match headers::spec_collect(suffix, 0, headers::spec_lines_empty()) {
                    Ok((lines, off)) => match headers::spec_build_error(lines) {
                        Some(he) => result matches Err(e) && headers::spec_header_error_matches(
                            he,
                            e,
                        ),
                        None => exists|h: Headers|
                            {
                                &&& #[trigger] headers::spec_headers_match(lines, h)
                                &&& h.wf()
                                &&& match log::spec_frame_loop(
                                    suffix.skip(off),
                                    h,
                                    config.raw,
                                    log::spec_drive_init(),
                                ) {
                                    Ok(m) => result matches Ok(lg) && lg.headers == h
                                        && log::spec_log_matches(m, lg, off),
                                    Err(e) => result == Err::<Log, _>(e),
                                }
                            },
                    },
                    Err(e) => result == Err::<Log, _>(e),
                }
            }),
    {
        let start = self.offsets[index];
        proof {
            assert(spec_is_match(self.data@, spec_marker(), start as int));
            assert(self.data@.subrange(start as int, self.data@.len() as int) =~= self.data@.skip(
                start as int,
            ));
        }
        let suffix_data = vstd::slice::slice_subrange(self.data, start, self.data.len());
        let result = Log::parse(config, suffix_data);
        proof {
            let suffix = self.data@.skip(start as int);
            assert(suffix_data@ == suffix);
            if headers::spec_collect(suffix, 0, headers::spec_lines_empty()) is Ok {
                let off = headers::spec_collect(
                    suffix,
                    0,
                    headers::spec_lines_empty(),
                )->Ok_0.1;
                assert(suffix.skip(off) =~= suffix.skip(off));
            }
        }
        result
    }

    /// Decodes every log in the buffer, in order. Each entry is that
    /// log's outcome, decoded from its own suffix of the buffer; a
    /// failure in one log does not touch the others.
    pub fn parse_all(&self, config: &Config) -> (result: Vec<ParseResult<Log>>)
        requires
            self.wf(),
        ensures
            result@.len() == self.offsets@.len(),
            forall|i: int|
                0 <= i < result@.len() ==> ((#[trigger] result@[i]) matches Ok(log) ==> log.wf()
                    && log.spec_config() == *config && log.spec_source() == self.data@.skip(
                    self.offsets@[i] as int,
                )),
    {
        let mut out: Vec<ParseResult<Log>> = Vec::new();
        let mut i: usize = 0;
        while i < self.offsets.len()
            invariant
                self.wf(),
                0 <= i <= self.offsets@.len(),
                out@.len() == i,
                forall|j: int|
                    0 <= j < i ==> ((#[trigger] out@[j]) matches Ok(log) ==> log.wf()
                        && log.spec_config() == *config && log.spec_source()
                        == self.data@.skip(self.offsets@[j] as int)),
            decreases self.offsets@.len() - i,
        {
            out.push(self.parse_by_index(config, i));
            i = i + 1;
        }
        out
    }
}

} // verus!
