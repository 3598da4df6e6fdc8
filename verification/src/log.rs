//! One decoded log: its headers, the frames of every kind, the events,
//! and the loop that walks the frame section byte by byte.

use vstd::prelude::*;

use crate::event::{decode_event, spec_event, Event};
use crate::frame::{
    apply_frame, read_field_values, spec_apply_frame, spec_encodings, spec_opt_view,
    spec_read_values,
};
use crate::headers::{
    spec_build_error, spec_collect, spec_header_error_matches, spec_headers_match,
    spec_lines_empty, FieldDefinition, Headers,
};
use crate::parser::{
    spec_frame_kind_from_byte, Config, DataFrameKind, FrameKind, ParseError, ParseResult,
};
use crate::reader::{spec_align8, Reader};

verus! {

/// One decoded frame: its kind, its absolute field values, and (as ghost
/// bookkeeping) the raw deltas and the history in force when it was
/// decoded.
pub struct Frame {
    /// The frame kind this record was decoded as.
    pub kind: DataFrameKind,
    /// One absolute value per field of the kind's definition table.
    pub values: Vec<u32>,
    /// The raw deltas the wire carried, before predictors.
    pub raw: Ghost<Seq<u32>>,
    /// The per-field history of the newest preceding frame consulted.
    pub last: Ghost<Option<Seq<u32>>>,
    /// The per-field history of the frame before that.
    pub last_last: Ghost<Option<Seq<u32>>>,
    /// The skipped-frames count in force.
    pub skipped: Ghost<u32>,
}

/// The field definition table a frame kind decodes against; an undeclared
/// table is empty.
pub open spec fn spec_defs_for(h: Headers, kind: DataFrameKind) -> Seq<FieldDefinition> {
    match kind {
        DataFrameKind::Intra => h.intra_fields@,
        DataFrameKind::Inter => match h.inter_fields {
            Some(d) => d@,
            None => Seq::empty(),
        },
        DataFrameKind::Slow => match h.slow_fields {
            Some(d) => d@,
            None => Seq::empty(),
        },
        DataFrameKind::Gps => match h.gps_fields {
            Some(d) => d@,
            None => Seq::empty(),
        },
        DataFrameKind::GpsHome => match h.gps_home_fields {
            Some(d) => d@,
            None => Seq::empty(),
        },
    }
}

/// What every emitted frame satisfies: it has exactly one raw delta and
/// one absolute value per field of its kind's table, and its values are
/// the raw deltas themselves when predictors were skipped, else exactly
/// the predictor pipeline applied to the raw deltas under the recorded
/// history.
pub open spec fn spec_frame_wf(f: Frame, h: Headers, raw_mode: bool) -> bool {
    let defs = spec_defs_for(h, f.kind);
    &&& f.raw@.len() == defs.len()
    &&& f.values@.len() == defs.len()
    &&& if raw_mode {
        f.values@ == f.raw@
    } else {
        spec_apply_frame(h, defs, f.raw@, f.last@, f.last_last@, f.skipped@, 0, Seq::empty())
            == Ok::<Seq<u32>, ParseError>(f.values@)
    }
}

/// The spec-level image of one decoded frame.
pub ghost struct FrameModel {
    pub kind: DataFrameKind,
    pub raw: Seq<u32>,
    pub values: Seq<u32>,
    pub last: Option<Seq<u32>>,
    pub last_last: Option<Seq<u32>>,
    pub skipped: u32,
}

/// The image of an emitted frame.
pub open spec fn spec_frame_model(f: Frame) -> FrameModel {
    FrameModel {
        kind: f.kind,
        raw: f.raw@,
        values: f.values@,
        last: f.last@,
        last_last: f.last_last@,
        skipped: f.skipped@,
    }
}

/// The images of a frame sequence.
pub open spec fn spec_frames_view(frames: Seq<Frame>) -> Seq<FrameModel> {
    Seq::new(frames.len(), |i: int| spec_frame_model(frames[i]))
}

/// The image of an optional frame.
pub open spec fn spec_opt_frame_view(f: Option<Frame>) -> Option<FrameModel> {
    match f {
        Some(f) => Some(spec_frame_model(f)),
        None => None,
    }
}

/// Everything the frame loop of one log yields: the frames of every kind,
/// the events, and the byte offset within the frame section where
/// decoding ended.
pub ghost struct LogModel {
    pub main: Seq<FrameModel>,
    pub slow: Seq<FrameModel>,
    pub gps: Seq<FrameModel>,
    pub home: Option<FrameModel>,
    pub events: Seq<Event>,
    pub end_pos: int,
}

/// The frame loop's running state: the byte offset of the next record,
/// the histories, and everything emitted so far.
pub ghost struct DriveState {
    pub pos: int,
    pub last: Option<Seq<u32>>,
    pub last_last: Option<Seq<u32>>,
    pub last_slow: Option<Seq<u32>>,
    pub seen_intra: bool,
    pub main: Seq<FrameModel>,
    pub slow: Seq<FrameModel>,
    pub gps: Seq<FrameModel>,
    pub home: Option<FrameModel>,
    pub events: Seq<Event>,
}

/// The state before the first record.
pub open spec fn spec_drive_init() -> DriveState {
    DriveState {
        pos: 0,
        last: None,
        last_last: None,
        last_slow: None,
        seen_intra: false,
        main: Seq::empty(),
        slow: Seq::empty(),
        gps: Seq::empty(),
        home: None,
        events: Seq::empty(),
    }
}

/// One data frame decoded with its fields starting at bit `bp`: the raw
/// values of every field of the kind's table (their number must equal
/// the table's), then the predictors applied under the given history, or
/// the raw values themselves when predictors are skipped.
pub open spec fn spec_data_frame(
    section: Seq<u8>,
    bp: int,
    h: Headers,
    kind: DataFrameKind,
    raw_mode: bool,
    last: Option<Seq<u32>>,
    last_last: Option<Seq<u32>>,
    skipped: u32,
) -> ParseResult<(FrameModel, int)> {
    let defs = spec_defs_for(h, kind);
    match spec_read_values(section, bp, spec_encodings(defs), 0) {
        Ok((vs, nbp)) => if vs.len() != defs.len() {
            Err(ParseError::Corrupted)
        } else if raw_mode {
            Ok(
                (
                    FrameModel { kind, raw: vs, values: vs, last, last_last, skipped },
                    nbp,
                ),
            )
        } else {
            match spec_apply_frame(h, defs, vs, last, last_last, skipped, 0, Seq::empty()) {
                Ok(values) => Ok(
                    (FrameModel { kind, raw: vs, values, last, last_last, skipped }, nbp),
                ),
                Err(e) => Err(e),
            }
        },
        Err(e) => Err(e),
    }
}

/// The frame loop from state `st`: at the end of the input the log is
/// complete; otherwise one byte selects an event or a data frame, the
/// record is decoded, history and output grow, and the loop goes on — an
/// end-of-log event completes the log ignoring every later byte, an
/// unknown kind byte, an inter or slow frame before the first intra
/// frame, or a frame of a kind without a table is corruption.
#[verifier::opaque]
pub open spec fn spec_frame_loop(
    section: Seq<u8>,
    h: Headers,
    raw_mode: bool,
    st: DriveState,
) -> ParseResult<LogModel>
    decreases section.len() - st.pos,
{
    if !(0 <= st.pos < section.len()) {
        Ok(
            LogModel {
                main: st.main,
                slow: st.slow,
                gps: st.gps,
                home: st.home,
                events: st.events,
                end_pos: st.pos,
            },
        )
    } else {
        match spec_frame_kind_from_byte(section[st.pos]) {
            None => Err(ParseError::Corrupted),
            Some(FrameKind::Event) => match spec_event(section, st.pos + 1) {
                Ok((ev, next)) => if ev == Event::End {
                    Ok(
                        LogModel {
                            main: st.main,
                            slow: st.slow,
                            gps: st.gps,
                            home: st.home,
                            events: st.events.push(Event::End),
                            end_pos: next,
                        },
                    )
                } else if st.pos < next <= section.len() {
                    spec_frame_loop(
                        section,
                        h,
                        raw_mode,
                        DriveState { pos: next, events: st.events.push(ev), ..st },
                    )
                } else {
                    Err(ParseError::Corrupted)
                },
                Err(e) => Err(e),
            },
            Some(FrameKind::Data(kind)) => {
                if (kind == DataFrameKind::Inter || kind == DataFrameKind::Slow)
                    && !st.seen_intra {
                    Err(ParseError::Corrupted)
                } else if kind == DataFrameKind::Inter && h.inter_fields is None {
                    Err(ParseError::Corrupted)
                } else if kind == DataFrameKind::Slow && h.slow_fields is None {
                    Err(ParseError::Corrupted)
                } else if kind == DataFrameKind::Gps && h.gps_fields is None {
                    Err(ParseError::Corrupted)
                } else if kind == DataFrameKind::GpsHome && h.gps_home_fields is None {
                    Err(ParseError::Corrupted)
                } else {
                    let last = if kind == DataFrameKind::Intra || kind
                        == DataFrameKind::Inter {
                        st.last
                    } else if kind == DataFrameKind::Slow {
                        st.last_slow
                    } else {
                        None
                    };
                    let last_last = if kind == DataFrameKind::Intra || kind
                        == DataFrameKind::Inter {
                        st.last_last
                    } else {
                        None
                    };
                    match spec_data_frame(
                        section,
                        8 * (st.pos + 1),
                        h,
                        kind,
                        raw_mode,
                        last,
                        last_last,
                        0,
                    ) {
                        Ok((fm, nbp)) => {
                            let next = spec_align8(nbp) / 8;
                            if st.pos < next <= section.len() {
                                spec_frame_loop(
                                    section,
                                    h,
                                    raw_mode,
                                    spec_drive_step(st, kind, fm, next),
                                )
                            } else {
                                Err(ParseError::Corrupted)
                            }
                        },
                        Err(e) => Err(e),
                    }
                }
            },
        }
    }
}

/// The state after one data frame of the given kind.
pub open spec fn spec_drive_step(
    st: DriveState,
    kind: DataFrameKind,
    fm: FrameModel,
    next: int,
) -> DriveState {
    match kind {
        DataFrameKind::Intra => DriveState {
            pos: next,
            main: st.main.push(fm),
            last_last: st.last,
            last: Some(fm.values),
            seen_intra: true,
            ..st
        },
        DataFrameKind::Inter => DriveState {
            pos: next,
            main: st.main.push(fm),
            last_last: st.last,
            last: Some(fm.values),
            ..st
        },
        DataFrameKind::Slow => DriveState {
            pos: next,
            slow: st.slow.push(fm),
            last_slow: Some(fm.values),
            ..st
        },
        DataFrameKind::Gps => DriveState { pos: next, gps: st.gps.push(fm), ..st },
        DataFrameKind::GpsHome => DriveState { pos: next, home: Some(fm), ..st },
    }
}

/// Whether a decoded log realizes the frame loop's outcome for a header
/// block that ended at byte `off`.
pub open spec fn spec_log_matches(m: LogModel, log: Log, off: int) -> bool {
    &&& spec_frames_view(log.main_frames@) == m.main
    &&& spec_frames_view(log.slow_frames@) == m.slow
    &&& spec_frames_view(log.gps_frames@) == m.gps
    &&& spec_opt_frame_view(log.gps_home_frame) == m.home
    &&& log.events@ == m.events
    &&& log.stats.bytes == off + m.end_pos
}

/// Counts of what one log holds, and how many bytes of the input its
/// decoding consumed (headers included).
#[derive(Debug, Clone, Copy, PartialEq, Eq)]
pub struct Stats {
    pub main_frame_count: usize,
    pub slow_frame_count: usize,
    pub gps_frame_count: usize,
    pub event_count: usize,
    pub bytes: usize,
}

/// One decoded log. The fields are public for the sake of the
/// specifications; `parse` is the only constructor the library offers.
pub struct Log {
    pub headers: Headers,
    pub main_frames: Vec<Frame>,
    pub slow_frames: Vec<Frame>,
    pub gps_frames: Vec<Frame>,
    pub gps_home_frame: Option<Frame>,
    pub events: Vec<Event>,
    pub stats: Stats,
    pub config: Ghost<Config>,
    pub source: Ghost<Seq<u8>>,
}

impl Log {
    /// The configuration this log was decoded under.
    pub open spec fn spec_config(self) -> Config {
        self.config@
    }

    /// The bytes this log was decoded from.
    pub open spec fn spec_source(self) -> Seq<u8> {
        self.source@
    }

    /// The headers of this log.
    pub open spec fn spec_headers(self) -> Headers {
        self.headers
    }

    /// The main frames of this log.
    pub open spec fn spec_main_frames(self) -> Seq<Frame> {
        self.main_frames@
    }

    /// The slow frames of this log.
    pub open spec fn spec_slow_frames(self) -> Seq<Frame> {
        self.slow_frames@
    }

    /// The GPS frames of this log.
    pub open spec fn spec_gps_frames(self) -> Seq<Frame> {
        self.gps_frames@
    }

    /// The GPS home frame of this log, when one was decoded.
    pub open spec fn spec_gps_home_frame(self) -> Option<Frame> {
        self.gps_home_frame
    }

    /// The events of this log.
    pub open spec fn spec_events(self) -> Seq<Event> {
        self.events@
    }

    /// What every decoded log satisfies: well-formed headers, every frame
    /// well-formed against its kind's field table, frame kinds sorted into
    /// the right sequences, and counts that match.
    pub open spec fn wf(self) -> bool {
        &&& self.headers.wf()
        &&& forall|i: int|
            0 <= i < self.main_frames@.len() ==> spec_frame_wf(
                #[trigger] self.main_frames@[i],
                self.headers,
                self.config@.raw,
            ) && (self.main_frames@[i].kind == DataFrameKind::Intra || self.main_frames@[i].kind
                == DataFrameKind::Inter)
        &&& forall|i: int|
            0 <= i < self.slow_frames@.len() ==> spec_frame_wf(
                #[trigger] self.slow_frames@[i],
                self.headers,
                self.config@.raw,
            ) && self.slow_frames@[i].kind == DataFrameKind::Slow
        &&& forall|i: int|
            0 <= i < self.gps_frames@.len() ==> spec_frame_wf(
                #[trigger] self.gps_frames@[i],
                self.headers,
                self.config@.raw,
            ) && self.gps_frames@[i].kind == DataFrameKind::Gps
        &&& match self.gps_home_frame {
            Some(f) => spec_frame_wf(f, self.headers, self.config@.raw) && f.kind
                == DataFrameKind::GpsHome,
            None => true,
        }
        &&& self.main_frames@.len() > 0 ==> self.main_frames@[0].kind == DataFrameKind::Intra
        &&& crate::headers::spec_block_end(self.source@, 0) <= self.stats.bytes
            <= self.source@.len()
        &&& self.stats.main_frame_count == self.main_frames@.len()
        &&& self.stats.slow_frame_count == self.slow_frames@.len()
        &&& self.stats.gps_frame_count == self.gps_frames@.len()
        &&& self.stats.event_count == self.events@.len()
    }

    /// Returns the headers.
    pub fn headers(&self) -> (result: &Headers)
        ensures
            *result == self.spec_headers(),
    {
        &self.headers
    }

    /// Returns the main frames in stream order.
    pub fn main_frames(&self) -> (result: &Vec<Frame>)
        ensures
            result@ == self.spec_main_frames(),
    {
        &self.main_frames
    }

    /// Returns the slow frames in stream order.
    pub fn slow_frames(&self) -> (result: &Vec<Frame>)
        ensures
            result@ == self.spec_slow_frames(),
    {
        &self.slow_frames
    }

    /// Returns the GPS frames in stream order.
    pub fn gps_frames(&self) -> (result: &Vec<Frame>)
        ensures
            result@ == self.spec_gps_frames(),
    {
        &self.gps_frames
    }

    /// Returns the GPS home frame, when one was decoded.
    pub fn gps_home_frame(&self) -> (result: &Option<Frame>)
        ensures
            *result == self.spec_gps_home_frame(),
    {
        &self.gps_home_frame
    }

    /// Returns the events in stream order.
    pub fn events(&self) -> (result: &Vec<Event>)
        ensures
            result@ == self.spec_events(),
    {
        &self.events
    }

    /// Returns the counts.
    pub fn stats(&self) -> (result: &Stats)
        ensures
            *result == self.stats,
    {
        &self.stats
    }
}

/// Copies a value vector, for the history slots.
fn copy_u32s(v: &Vec<u32>) -> (result: Vec<u32>)
    ensures
        result@ == v@,
{
    let mut result: Vec<u32> = Vec::new();
    let mut i: usize = 0;
    while i < v.len()
        invariant
            0 <= i <= v@.len(),
            result@ == v@.subrange(0, i as int),
        decreases v@.len() - i,
    {
        result.push(*vstd::slice::slice_index_get(v.as_slice(), i));
        proof {
            assert(result@ =~= v@.subrange(0, i + 1));
        }
        i = i + 1;
    }
    proof {
        assert(result@ =~= v@);
    }
    result
}

/// The length of what the predictor pipeline yields: one absolute value
/// per raw delta.
proof fn lemma_apply_frame_len(
    headers: Headers,
    defs: Seq<FieldDefinition>,
    raw: Seq<u32>,
    last: Option<Seq<u32>>,
    last_last: Option<Seq<u32>>,
    skipped_frames: u32,
    i: int,
    acc: Seq<u32>,
)
    requires
        raw.len() == defs.len(),
        0 <= i <= raw.len(),
        acc.len() == i,
    ensures
        spec_apply_frame(headers, defs, raw, last, last_last, skipped_frames, i, acc) matches Ok(
            s,
        ) ==> s.len() == raw.len(),
    decreases raw.len() - i,
{
    if i < raw.len() {
        match crate::predictor::spec_apply(
            defs[i].predictor,
            headers,
            raw[i],
            defs[i].signed,
            acc,
            crate::frame::spec_history_at(last, i),
            crate::frame::spec_history_at(last_last, i),
            skipped_frames,
        ) {
            Ok(v) => {
                lemma_apply_frame_len(
                    headers,
                    defs,
                    raw,
                    last,
                    last_last,
                    skipped_frames,
                    i + 1,
                    acc.push(v),
                );
            },
            Err(_) => {},
        }
    }
}

/// Decodes one frame of the given definition table and either keeps the
/// raw deltas or applies the predictors, as the configuration asks.
fn decode_data_frame(
    r: &mut Reader,
    headers: &Headers,
    defs: &Vec<FieldDefinition>,
    config: &Config,
    kind: DataFrameKind,
    last: &Option<Vec<u32>>,
    last_last: &Option<Vec<u32>>,
    skipped_frames: u32,
) -> (result: ParseResult<Frame>)
    requires
        old(r).wf(),
        defs@ == spec_defs_for(*headers, kind),
    ensures
        final(r).wf(),
        final(r).spec_data() == old(r).spec_data(),
        final(r).spec_bit_pos() >= old(r).spec_bit_pos(),
        match spec_data_frame(
            old(r).spec_data(),
            old(r).spec_bit_pos(),
            *headers,
            kind,
            config.raw,
            spec_opt_view(*last),
            spec_opt_view(*last_last),
            skipped_frames,
        ) {
            Ok((fm, nbp)) => result matches Ok(f) && spec_frame_model(f) == fm && spec_frame_wf(
                f,
                *headers,
                config.raw,
            ) && f.kind == kind && final(r).spec_bit_pos() == nbp,
            Err(e) => result == Err::<Frame, _>(e),
        },
{
    let raw_values = match read_field_values(r, defs) {
        Ok(v) => v,
        Err(e) => {
            return Err(e);
        },
    };
    let values = if config.raw {
        copy_u32s(&raw_values)
    } else {
        proof {
            lemma_apply_frame_len(
                *headers,
                defs@,
                raw_values@,
                spec_opt_view(*last),
                spec_opt_view(*last_last),
                skipped_frames,
                0,
                Seq::empty(),
            );
        }
        match apply_frame(headers, defs, &raw_values, last, last_last, skipped_frames) {
            Ok(v) => v,
            Err(e) => {
                return Err(e);
            },
        }
    };
    Ok(
        Frame {
            kind,
            values,
            raw: Ghost(raw_values@),
            last: Ghost(spec_opt_view(*last)),
            last_last: Ghost(spec_opt_view(*last_last)),
            skipped: Ghost(skipped_frames),
        },
    )
}

/// Unfolding one event step of the frame loop.
proof fn lemma_loop_step_event(
    section: Seq<u8>,
    h: Headers,
    raw_mode: bool,
    st0: DriveState,
    ev: Event,
    next: int,
)
    requires
        0 <= st0.pos < section.len(),
        spec_frame_kind_from_byte(section[st0.pos]) == Some(FrameKind::Event),
        spec_event(section, st0.pos + 1) == Ok::<(Event, int), ParseError>((ev, next)),
        ev != Event::End,
        st0.pos < next <= section.len(),
    ensures
        spec_frame_loop(section, h, raw_mode, st0) == spec_frame_loop(
            section,
            h,
            raw_mode,
            DriveState { pos: next, events: st0.events.push(ev), ..st0 },
        ),
{
    reveal(spec_frame_loop);
}

/// Unfolding one data-frame step of the frame loop.
proof fn lemma_loop_step_data(
    section: Seq<u8>,
    h: Headers,
    raw_mode: bool,
    st0: DriveState,
    kind: DataFrameKind,
    sel_last: Option<Seq<u32>>,
    sel_last_last: Option<Seq<u32>>,
    fm: FrameModel,
    nbp: int,
    next: int,
)
    requires
        0 <= st0.pos < section.len(),
        spec_frame_kind_from_byte(section[st0.pos]) == Some(FrameKind::Data(kind)),
        kind == DataFrameKind::Inter || kind == DataFrameKind::Slow ==> st0.seen_intra,
        kind == DataFrameKind::Inter ==> h.inter_fields is Some,
        kind == DataFrameKind::Slow ==> h.slow_fields is Some,
        kind == DataFrameKind::Gps ==> h.gps_fields is Some,
        kind == DataFrameKind::GpsHome ==> h.gps_home_fields is Some,
        sel_last == if kind == DataFrameKind::Intra || kind == DataFrameKind::Inter {
            st0.last
        } else if kind == DataFrameKind::Slow {
            st0.last_slow
        } else {
            None::<Seq<u32>>
        },
        sel_last_last == if kind == DataFrameKind::Intra || kind == DataFrameKind::Inter {
            st0.last_last
        } else {
            None::<Seq<u32>>
        },
        spec_data_frame(section, 8 * (st0.pos + 1), h, kind, raw_mode, sel_last, sel_last_last, 0)
            == Ok::<(FrameModel, int), ParseError>((fm, nbp)),
        next == spec_align8(nbp) / 8,
        st0.pos < next <= section.len(),
    ensures
        spec_frame_loop(section, h, raw_mode, st0) == spec_frame_loop(
            section,
            h,
            raw_mode,
            spec_drive_step(st0, kind, fm, next),
        ),
{
    reveal(spec_frame_loop);
}

/// The frame loop at the end of the input: the log is complete.
proof fn lemma_loop_end(section: Seq<u8>, h: Headers, raw_mode: bool, st0: DriveState)
    requires
        !(0 <= st0.pos < section.len()),
    ensures
        spec_frame_loop(section, h, raw_mode, st0) == Ok::<LogModel, ParseError>(
            LogModel {
                main: st0.main,
                slow: st0.slow,
                gps: st0.gps,
                home: st0.home,
                events: st0.events,
                end_pos: st0.pos,
            },
        ),
{
    reveal(spec_frame_loop);
}

/// The frame loop at an end-of-log event: the log is complete, whatever
/// bytes follow.
proof fn lemma_loop_end_event(
    section: Seq<u8>,
    h: Headers,
    raw_mode: bool,
    st0: DriveState,
    next: int,
)
    requires
        0 <= st0.pos < section.len(),
        spec_frame_kind_from_byte(section[st0.pos]) == Some(FrameKind::Event),
        spec_event(section, st0.pos + 1) == Ok::<(Event, int), ParseError>((Event::End, next)),
    ensures
        spec_frame_loop(section, h, raw_mode, st0) == Ok::<LogModel, ParseError>(
            LogModel {
                main: st0.main,
                slow: st0.slow,
                gps: st0.gps,
                home: st0.home,
                events: st0.events.push(Event::End),
                end_pos: next,
            },
        ),
{
    reveal(spec_frame_loop);
}

/// The frame loop at a byte that opens no record.
proof fn lemma_loop_err_kind(section: Seq<u8>, h: Headers, raw_mode: bool, st0: DriveState)
    requires
        0 <= st0.pos < section.len(),
        spec_frame_kind_from_byte(section[st0.pos]) is None,
    ensures
        spec_frame_loop(section, h, raw_mode, st0) == Err::<LogModel, _>(ParseError::Corrupted),
{
    reveal(spec_frame_loop);
}

/// The frame loop at an event record that does not decode.
proof fn lemma_loop_err_event(
    section: Seq<u8>,
    h: Headers,
    raw_mode: bool,
    st0: DriveState,
    e: ParseError,
)
    requires
        0 <= st0.pos < section.len(),
        spec_frame_kind_from_byte(section[st0.pos]) == Some(FrameKind::Event),
        spec_event(section, st0.pos + 1) == Err::<(Event, int), ParseError>(e),
    ensures
        spec_frame_loop(section, h, raw_mode, st0) == Err::<LogModel, _>(e),
{
    reveal(spec_frame_loop);
}

/// The frame loop at a data frame that may not start here: an inter or
/// slow frame before the first intra frame, or a kind without a table.
proof fn lemma_loop_err_avail(
    section: Seq<u8>,
    h: Headers,
    raw_mode: bool,
    st0: DriveState,
    kind: DataFrameKind,
)
    requires
        0 <= st0.pos < section.len(),
        spec_frame_kind_from_byte(section[st0.pos]) == Some(FrameKind::Data(kind)),
        ((kind == DataFrameKind::Inter || kind == DataFrameKind::Slow) && !st0.seen_intra) || (
        kind == DataFrameKind::Inter && h.inter_fields is None) || (kind == DataFrameKind::Slow
            && h.slow_fields is None) || (kind == DataFrameKind::Gps && h.gps_fields is None)
            || (kind == DataFrameKind::GpsHome && h.gps_home_fields is None),
    ensures
        spec_frame_loop(section, h, raw_mode, st0) == Err::<LogModel, _>(ParseError::Corrupted),
{
    reveal(spec_frame_loop);
}

/// The frame loop at a data frame whose record does not decode.
proof fn lemma_loop_err_frame(
    section: Seq<u8>,
    h: Headers,
    raw_mode: bool,
    st0: DriveState,
    kind: DataFrameKind,
    sel_last: Option<Seq<u32>>,
    sel_last_last: Option<Seq<u32>>,
    e: ParseError,
)
    requires
        0 <= st0.pos < section.len(),
        spec_frame_kind_from_byte(section[st0.pos]) == Some(FrameKind::Data(kind)),
        kind == DataFrameKind::Inter || kind == DataFrameKind::Slow ==> st0.seen_intra,
        kind == DataFrameKind::Inter ==> h.inter_fields is Some,
        kind == DataFrameKind::Slow ==> h.slow_fields is Some,
        kind == DataFrameKind::Gps ==> h.gps_fields is Some,
        kind == DataFrameKind::GpsHome ==> h.gps_home_fields is Some,
        sel_last == if kind == DataFrameKind::Intra || kind == DataFrameKind::Inter {
            st0.last
        } else if kind == DataFrameKind::Slow {
            st0.last_slow
        } else {
            None::<Seq<u32>>
        },
        sel_last_last == if kind == DataFrameKind::Intra || kind == DataFrameKind::Inter {
            st0.last_last
        } else {
            None::<Seq<u32>>
        },
        spec_data_frame(section, 8 * (st0.pos + 1), h, kind, raw_mode, sel_last, sel_last_last, 0)
            == Err::<(FrameModel, int), ParseError>(e),
    ensures
        spec_frame_loop(section, h, raw_mode, st0) == Err::<LogModel, _>(e),
{
    reveal(spec_frame_loop);
}

impl Log {
    /// Decodes one log: the header block, then frames and events until the
    /// end of the input, an end-of-log event, or an error, exactly as
    /// `spec_collect`, `spec_build_error` and `spec_frame_loop` state. An
    /// inter or slow frame before the first intra frame, an unknown frame
    /// kind byte, or an unknown event code is corruption; decoding stops
    /// there and the error is returned, dropping the partial log.
    ///
    /// The skipped-frames count the `Increment` predictor reads stays
    /// zero: the recognized header keys carry no frame-interval
    /// information from which a gap between inter frames could be
    /// inferred, so every frame decodes with a zero count. The predictor
    /// itself is specified and verified for every count.
    #[verifier::rlimit(100)]
    #[verifier::spinoff_prover]
    pub fn parse(config: &Config, data: &[u8]) -> (result: ParseResult<Log>)
        ensures
            match result {
                Ok(log) => log.wf() && log.spec_config() == *config && log.spec_source()
                    == data@,
                Err(_) => true,
            },
            data@.len() == 0 ==> result == Err::<Log, _>(ParseError::Corrupted),
            match spec_collect(data@, 0, spec_lines_empty()) {
                Ok((lines, off)) => match spec_build_error(lines) {
                    Some(he) => result matches Err(e) && spec_header_error_matches(he, e),
                    None => exists|h: Headers|
                        {
                            &&& #[trigger] spec_headers_match(lines, h)
                            &&& h.wf()
                            &&& match spec_frame_loop(
                                data@.skip(off),
                                h,
                                config.raw,
                                spec_drive_init(),
                            ) {
                                Ok(m) => result matches Ok(log) && log.headers == h
                                    && spec_log_matches(m, log, off),
                                Err(e) => result == Err::<Log, _>(e),
                            }
                        },
                },
                Err(e) => result == Err::<Log, _>(e),
            },
    {
        let (headers, off) = match Headers::parse(data) {
            Ok(x) => x,
            Err(e) => {
                return Err(e);
            },
        };
        let section = vstd::slice::slice_subrange(data, off, data.len());
        proof {
            assert(section@ =~= data@.skip(off as int));
        }
        let mut r = Reader::new(section);
        let mut main_frames: Vec<Frame> = Vec::new();
        let mut slow_frames: Vec<Frame> = Vec::new();
        let mut gps_frames: Vec<Frame> = Vec::new();
        let mut gps_home_frame: Option<Frame> = None;
        let mut events: Vec<Event> = Vec::new();
        let mut last: Option<Vec<u32>> = None;
        let mut last_last: Option<Vec<u32>> = None;
        let mut last_slow: Option<Vec<u32>> = None;
        let mut seen_intra = false;
        let skipped_frames: u32 = 0;
        proof {
            let st0 = DriveState {
                pos: r.spec_byte_pos(),
                last: spec_opt_view(last),
                last_last: spec_opt_view(last_last),
                last_slow: spec_opt_view(last_slow),
                seen_intra: seen_intra,
                main: spec_frames_view(main_frames@),
                slow: spec_frames_view(slow_frames@),
                gps: spec_frames_view(gps_frames@),
                home: spec_opt_frame_view(gps_home_frame),
                events: events@,
            };
            assert(st0.main =~= spec_drive_init().main);
            assert(st0.slow =~= spec_drive_init().slow);
            assert(st0.gps =~= spec_drive_init().gps);
            assert(st0 == spec_drive_init());
        }
        loop
            invariant_except_break
                spec_frame_loop(section@, headers, config.raw, spec_drive_init())
                    == spec_frame_loop(
                    section@,
                    headers,
                    config.raw,
                    DriveState {
                        pos: r.spec_byte_pos(),
                        last: spec_opt_view(last),
                        last_last: spec_opt_view(last_last),
                        last_slow: spec_opt_view(last_slow),
                        seen_intra: seen_intra,
                        main: spec_frames_view(main_frames@),
                        slow: spec_frames_view(slow_frames@),
                        gps: spec_frames_view(gps_frames@),
                        home: spec_opt_frame_view(gps_home_frame),
                        events: events@,
                    },
                ),
            invariant
                data@.len() > 0,
                r.wf(),
                r.spec_data() == section@,
                skipped_frames == 0,
                headers.wf(),
                match spec_collect(data@, 0, spec_lines_empty()) {
                    Ok((lines, o)) => spec_build_error(lines) is None && spec_headers_match(
                        lines,
                        headers,
                    ) && o == off as int && section@ == data@.skip(o),
                    Err(_) => false,
                },
                forall|i: int|
                    0 <= i < main_frames@.len() ==> spec_frame_wf(
                        #[trigger] main_frames@[i],
                        headers,
                        config.raw,
                    ) && (main_frames@[i].kind == DataFrameKind::Intra || main_frames@[i].kind
                        == DataFrameKind::Inter),
                forall|i: int|
                    0 <= i < slow_frames@.len() ==> spec_frame_wf(
                        #[trigger] slow_frames@[i],
                        headers,
                        config.raw,
                    ) && slow_frames@[i].kind == DataFrameKind::Slow,
                forall|i: int|
                    0 <= i < gps_frames@.len() ==> spec_frame_wf(
                        #[trigger] gps_frames@[i],
                        headers,
                        config.raw,
                    ) && gps_frames@[i].kind == DataFrameKind::Gps,
                match gps_home_frame {
                    Some(f) => spec_frame_wf(f, headers, config.raw) && f.kind
                        == DataFrameKind::GpsHome,
                    None => true,
                },
                !seen_intra ==> main_frames@.len() == 0,
                seen_intra ==> main_frames@.len() > 0,
                main_frames@.len() > 0 ==> main_frames@[0].kind == DataFrameKind::Intra,
            ensures
                r.wf(),
                headers.wf(),
                forall|i: int|
                    0 <= i < main_frames@.len() ==> spec_frame_wf(
                        #[trigger] main_frames@[i],
                        headers,
                        config.raw,
                    ) && (main_frames@[i].kind == DataFrameKind::Intra || main_frames@[i].kind
                        == DataFrameKind::Inter),
                forall|i: int|
                    0 <= i < slow_frames@.len() ==> spec_frame_wf(
                        #[trigger] slow_frames@[i],
                        headers,
                        config.raw,
                    ) && slow_frames@[i].kind == DataFrameKind::Slow,
                forall|i: int|
                    0 <= i < gps_frames@.len() ==> spec_frame_wf(
                        #[trigger] gps_frames@[i],
                        headers,
                        config.raw,
                    ) && gps_frames@[i].kind == DataFrameKind::Gps,
                match gps_home_frame {
                    Some(f) => spec_frame_wf(f, headers, config.raw) && f.kind
                        == DataFrameKind::GpsHome,
                    None => true,
                },
                main_frames@.len() > 0 ==> main_frames@[0].kind == DataFrameKind::Intra,
                spec_frame_loop(section@, headers, config.raw, spec_drive_init()) == Ok::<
                    LogModel,
                    ParseError,
                >(
                    LogModel {
                        main: spec_frames_view(main_frames@),
                        slow: spec_frames_view(slow_frames@),
                        gps: spec_frames_view(gps_frames@),
                        home: spec_opt_frame_view(gps_home_frame),
                        events: events@,
                        end_pos: r.spec_byte_pos(),
                    },
                ),
            decreases 8 * section@.len() - r.spec_bit_pos(),
        {
            let ghost st0 = DriveState {
                pos: r.spec_byte_pos(),
                last: spec_opt_view(last),
                last_last: spec_opt_view(last_last),
                last_slow: spec_opt_view(last_slow),
                seen_intra: seen_intra,
                main: spec_frames_view(main_frames@),
                slow: spec_frames_view(slow_frames@),
                gps: spec_frames_view(gps_frames@),
                home: spec_opt_frame_view(gps_home_frame),
                events: events@,
            };
            let kind_byte: u8 = match r.read_byte() {
                Some(b) => b,
                None => {
                    proof {
                        lemma_loop_end(section@, headers, config.raw, st0);
                    }
                    break ;
                },
            };
            match FrameKind::from_byte(kind_byte) {
                None => {
                    proof {
                        lemma_loop_err_kind(section@, headers, config.raw, st0);
                    }
                    return Err(ParseError::Corrupted);
                },
                Some(FrameKind::Event) => {
                    match decode_event(&mut r) {
                        Ok(Event::End) => {
                            events.push(Event::End);
                            proof {
                                assert(events@ =~= st0.events.push(Event::End));
                                lemma_loop_end_event(
                                    section@,
                                    headers,
                                    config.raw,
                                    st0,
                                    r.spec_byte_pos() as int,
                                );
                            }
                            break ;
                        },
                        Ok(ev) => {
                            events.push(ev);
                            proof {
                                assert(events@ =~= st0.events.push(ev));
                                lemma_loop_step_event(
                                    section@,
                                    headers,
                                    config.raw,
                                    st0,
                                    ev,
                                    r.spec_byte_pos() as int,
                                );
                                assert(DriveState {
                                    pos: r.spec_byte_pos(),
                                    last: spec_opt_view(last),
                                    last_last: spec_opt_view(last_last),
                                    last_slow: spec_opt_view(last_slow),
                                    seen_intra: seen_intra,
                                    main: spec_frames_view(main_frames@),
                                    slow: spec_frames_view(slow_frames@),
                                    gps: spec_frames_view(gps_frames@),
                                    home: spec_opt_frame_view(gps_home_frame),
                                    events: events@,
                                } == DriveState {
                                    pos: r.spec_byte_pos(),
                                    events: st0.events.push(ev),
                                    ..st0
                                });
                            }
                        },
                        Err(e) => {
                            proof {
                                lemma_loop_err_event(section@, headers, config.raw, st0, e);
                            }
                            return Err(e);
                        },
                    }
                },
                Some(FrameKind::Data(kind)) => {
                    let defs: &Vec<FieldDefinition> = match kind {
                        DataFrameKind::Intra => &headers.intra_fields,
                        DataFrameKind::Inter => {
                            if !seen_intra {
                                proof {
                                    lemma_loop_err_avail(
                                        section@,
                                        headers,
                                        config.raw,
                                        st0,
                                        kind,
                                    );
                                }
                                return Err(ParseError::Corrupted);
                            }
                            match &headers.inter_fields {
                                Some(d) => d,
                                None => {
                                    proof {
                                        lemma_loop_err_avail(
                                            section@,
                                            headers,
                                            config.raw,
                                            st0,
                                            kind,
                                        );
                                    }
                                    return Err(ParseError::Corrupted);
                                },
                            }
                        },
                        DataFrameKind::Slow => {
                            if !seen_intra {
                                proof {
                                    lemma_loop_err_avail(
                                        section@,
                                        headers,
                                        config.raw,
                                        st0,
                                        kind,
                                    );
                                }
                                return Err(ParseError::Corrupted);
                            }
                            match &headers.slow_fields {
                                Some(d) => d,
                                None => {
                                    proof {
                                        lemma_loop_err_avail(
                                            section@,
                                            headers,
                                            config.raw,
                                            st0,
                                            kind,
                                        );
                                    }
                                    return Err(ParseError::Corrupted);
                                },
                            }
                        },
                        DataFrameKind::Gps => match &headers.gps_fields {
                            Some(d) => d,
                            None => {
                                proof {
                                    lemma_loop_err_avail(
                                        section@,
                                        headers,
                                        config.raw,
                                        st0,
                                        kind,
                                    );
                                }
                                return Err(ParseError::Corrupted);
                            },
                        },
                        DataFrameKind::GpsHome => match &headers.gps_home_fields {
                            Some(d) => d,
                            None => {
                                proof {
                                    lemma_loop_err_avail(
                                        section@,
                                        headers,
                                        config.raw,
                                        st0,
                                        kind,
                                    );
                                }
                                return Err(ParseError::Corrupted);
                            },
                        },
                    };
                    let frame_last: &Option<Vec<u32>> = match kind {
                        DataFrameKind::Intra | DataFrameKind::Inter => &last,
                        DataFrameKind::Slow => &last_slow,
                        _ => &None,
                    };
                    let frame_last_last: &Option<Vec<u32>> = match kind {
                        DataFrameKind::Intra | DataFrameKind::Inter => &last_last,
                        _ => &None,
                    };
                    let ghost sel_last = spec_opt_view(*frame_last);
                    let ghost sel_last_last = spec_opt_view(*frame_last_last);
                    let frame = match decode_data_frame(
                        &mut r,
                        &headers,
                        defs,
                        config,
                        kind,
                        frame_last,
                        frame_last_last,
                        skipped_frames,
                    ) {
                        Ok(f) => f,
                        Err(e) => {
                            proof {
                                lemma_loop_err_frame(
                                    section@,
                                    headers,
                                    config.raw,
                                    st0,
                                    kind,
                                    sel_last,
                                    sel_last_last,
                                    e,
                                );
                            }
                            return Err(e);
                        },
                    };
                    let ghost fm = spec_frame_model(frame);
                    let ghost nbp = r.spec_bit_pos();
                    proof {
                        lemma_loop_step_data(
                            section@,
                            headers,
                            config.raw,
                            st0,
                            kind,
                            sel_last,
                            sel_last_last,
                            fm,
                            nbp,
                            r.spec_byte_pos() as int,
                        );
                    }
                    match kind {
                        DataFrameKind::Intra => {
                            let history = copy_u32s(&frame.values);
                            main_frames.push(frame);
                            last_last = last;
                            last = Some(history);
                            seen_intra = true;
                            proof {
                                assert(spec_frames_view(main_frames@) =~~= st0.main.push(fm));
                            }
                        },
                        DataFrameKind::Inter => {
                            let history = copy_u32s(&frame.values);
                            main_frames.push(frame);
                            last_last = last;
                            last = Some(history);
                            proof {
                                assert(spec_frames_view(main_frames@) =~~= st0.main.push(fm));
                            }
                        },
                        DataFrameKind::Slow => {
                            let history = copy_u32s(&frame.values);
                            slow_frames.push(frame);
                            last_slow = Some(history);
                            proof {
                                assert(spec_frames_view(slow_frames@) =~~= st0.slow.push(fm));
                            }
                        },
                        DataFrameKind::Gps => {
                            gps_frames.push(frame);
                            proof {
                                assert(spec_frames_view(gps_frames@) =~~= st0.gps.push(fm));
                            }
                        },
                        DataFrameKind::GpsHome => {
                            gps_home_frame = Some(frame);
                        },
                    }
                    proof {
                        assert(DriveState {
                            pos: r.spec_byte_pos(),
                            last: spec_opt_view(last),
                            last_last: spec_opt_view(last_last),
                            last_slow: spec_opt_view(last_slow),
                            seen_intra: seen_intra,
                            main: spec_frames_view(main_frames@),
                            slow: spec_frames_view(slow_frames@),
                            gps: spec_frames_view(gps_frames@),
                            home: spec_opt_frame_view(gps_home_frame),
                            events: events@,
                        } == spec_drive_step(st0, kind, fm, r.spec_byte_pos() as int));
                    }
                },
            }
        }
        let consumed: usize = section.len() - r.remaining_bytes();
        let stats = Stats {
            main_frame_count: main_frames.len(),
            slow_frame_count: slow_frames.len(),
            gps_frame_count: gps_frames.len(),
            event_count: events.len(),
            bytes: off + consumed,
        };
        let log = Log {
            headers,
            main_frames,
            slow_frames,
            gps_frames,
            gps_home_frame,
            events,
            stats,
            config: Ghost(*config),
            source: Ghost(data@),
        };
        Ok(log)
    }
}

} // verus!
