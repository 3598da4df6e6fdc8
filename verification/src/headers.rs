//! The decoded header block of one log: firmware identity, the numeric
//! parameters the predictors draw on, and the per-frame-kind field
//! definition tables.

use vstd::prelude::*;

use crate::ascii;
use crate::encoding::Encoding;
use crate::parser::{ParseError, ParseResult};
use crate::predictor::Predictor;

verus! {

/// The firmware family that wrote the log, detected from the
/// `Firmware revision` header.
#[derive(Debug, Clone, Copy, PartialEq, Eq, Hash, Structural)]
pub enum FirmwareKind {
    Betaflight,
    EmuFlight,
    Inav,
}

/// The `Data version` header. Both versions decode alike here; the field is
/// kept as metadata.
#[derive(Debug, Clone, Copy, PartialEq, Eq, Hash, Structural)]
pub enum DataVersion {
    V1,
    V2,
}

/// The `motorOutput` header: the range motor values live in.
#[derive(Debug, Clone, Copy, PartialEq, Eq, Hash, Structural)]
pub struct MotorOutputRange {
    pub min: u16,
    pub max: u16,
}

impl MotorOutputRange {
    /// The lower end of the motor output range.
    pub fn min(&self) -> (result: u16)
        ensures
            result == self.min,
    {
        self.min
    }
}

/// One field of a frame definition: its name and how its values are coded
/// on the wire and reconstructed.
#[derive(Debug, Clone, PartialEq, Eq)]
pub struct FieldDefinition {
    pub name: Vec<u8>,
    pub predictor: Predictor,
    pub encoding: Encoding,
    pub signed: bool,
}

/// Read access to a field definition, shared by the per-kind tables.
pub trait FieldDef {
    /// The field's name.
    spec fn spec_name(&self) -> Seq<u8>;

    /// The field's predictor.
    spec fn spec_predictor(&self) -> Predictor;

    /// The field's encoding.
    spec fn spec_encoding(&self) -> Encoding;

    /// Returns the field's name.
    fn name(&self) -> (result: &Vec<u8>)
        ensures
            result@ == self.spec_name(),
    ;

    /// Returns the field's predictor.
    fn predictor(&self) -> (result: Predictor)
        ensures
            result == self.spec_predictor(),
    ;

    /// Returns the field's encoding.
    fn encoding(&self) -> (result: Encoding)
        ensures
            result == self.spec_encoding(),
    ;
}

impl FieldDef for FieldDefinition {
    open spec fn spec_name(&self) -> Seq<u8> {
        self.name@
    }

    open spec fn spec_predictor(&self) -> Predictor {
        self.predictor
    }

    open spec fn spec_encoding(&self) -> Encoding {
        self.encoding
    }

    fn name(&self) -> (result: &Vec<u8>) {
        &self.name
    }

    fn predictor(&self) -> (result: Predictor) {
        self.predictor
    }

    fn encoding(&self) -> (result: Encoding) {
        self.encoding
    }
}

/// The name of the field the `Motor0` predictor reads: `motor[0]`.
pub open spec fn spec_motor_0_name() -> Seq<u8> {
    seq![109u8, 111u8, 116u8, 111u8, 114u8, 91u8, 48u8, 93u8]
}

/// Builds the name `motor[0]` as bytes.
pub fn motor_0_name() -> (result: Vec<u8>)
    ensures
        result@ == spec_motor_0_name(),
{
    let mut v: Vec<u8> = Vec::new();
    v.push(109);  // m
    v.push(111);  // o
    v.push(116);  // t
    v.push(111);  // o
    v.push(114);  // r
    v.push(91);  // [
    v.push(48);  // 0
    v.push(93);  // ]
    proof {
        assert(v@ =~= spec_motor_0_name());
    }
    v
}

/// Everything the header block of one log declares. Immutable once parsed.
#[derive(Debug, Clone)]
pub struct Headers {
    /// The detected firmware family.
    pub firmware_kind: FirmwareKind,
    /// The raw `Firmware revision` value.
    pub firmware_revision: Vec<u8>,
    /// The raw `Firmware type` value, when given.
    pub firmware_type: Option<Vec<u8>>,
    /// The raw `Firmware date` value, when given.
    pub firmware_date: Option<Vec<u8>>,
    /// The raw `Product` value, when given.
    pub product: Option<Vec<u8>>,
    /// The raw `Craft name` value, when given.
    pub craft_name: Option<Vec<u8>>,
    /// The declared data version.
    pub data_version: DataVersion,
    /// The `minthrottle` header.
    pub min_throttle: u16,
    /// The `maxthrottle` header, when given.
    pub max_throttle: Option<u16>,
    /// The `motorOutput` header.
    pub motor_output_range: MotorOutputRange,
    /// The `vbatref` header.
    pub vbat_reference: u16,
    /// The `acc_1G` header, when given.
    pub acceleration_1g: Option<u16>,
    /// The `gyro_scale` header as the raw bit pattern of its
    /// single-precision value, when given. Kept as bits: the decoder itself
    /// never does floating-point arithmetic.
    pub gyro_scale_bits: Option<u32>,
    /// Field definitions of intra (`I`) frames.
    pub intra_fields: Vec<FieldDefinition>,
    /// Field definitions of inter (`P`) frames, when declared.
    pub inter_fields: Option<Vec<FieldDefinition>>,
    /// Field definitions of slow (`S`) frames, when declared.
    pub slow_fields: Option<Vec<FieldDefinition>>,
    /// Field definitions of GPS (`G`) frames, when declared.
    pub gps_fields: Option<Vec<FieldDefinition>>,
    /// Field definitions of GPS-home (`H`) frames, when declared.
    pub gps_home_fields: Option<Vec<FieldDefinition>>,
    /// The position of the `motor[0]` field among the intra fields, when
    /// one exists; the `Motor0` predictor reads it.
    pub motor_0_index: Option<usize>,
    /// Unrecognized headers, kept as metadata in order of appearance.
    pub unknown: Vec<(Vec<u8>, Vec<u8>)>,
}

impl Headers {
    /// The `motor_0_index` slot truly describes the intra field table: it
    /// points at the first field named `motor[0]`, and is empty only when
    /// no field has that name.
    pub open spec fn wf(self) -> bool {
        match self.motor_0_index {
            Some(i) => {
                &&& i < self.intra_fields@.len()
                &&& self.intra_fields@[i as int].name@ == spec_motor_0_name()
                &&& forall|j: int|
                    0 <= j < i ==> self.intra_fields@[j].name@ != spec_motor_0_name()
            },
            None => forall|j: int|
                0 <= j < self.intra_fields@.len() ==> self.intra_fields@[j].name@
                    != spec_motor_0_name(),
        }
    }
}

/// The four per-kind field definition header lines.
#[derive(Debug, Clone, Copy, PartialEq, Eq, Structural)]
pub enum DataFrameProperty {
    Name,
    Predictor,
    Encoding,
    Signed,
}

/// The property a `Field <K> <property>` header key names, if any.
pub open spec fn spec_property_from_name(s: Seq<u8>) -> Option<DataFrameProperty> {
    if s == seq![110u8, 97u8, 109u8, 101u8] {
        Some(DataFrameProperty::Name)
    } else if s == seq![112u8, 114u8, 101u8, 100u8, 105u8, 99u8, 116u8, 111u8, 114u8] {
        Some(DataFrameProperty::Predictor)
    } else if s == seq![101u8, 110u8, 99u8, 111u8, 100u8, 105u8, 110u8, 103u8] {
        Some(DataFrameProperty::Encoding)
    } else if s == seq![115u8, 105u8, 103u8, 110u8, 101u8, 100u8] {
        Some(DataFrameProperty::Signed)
    } else {
        None
    }
}

impl DataFrameProperty {
    /// Looks up the property a header key part names.
    pub fn from_name(s: &[u8]) -> (result: Option<Self>)
        ensures
            result == spec_property_from_name(s@),
    {
        let name = [110u8, 97u8, 109u8, 101u8];
        let predictor = [112u8, 114u8, 101u8, 100u8, 105u8, 99u8, 116u8, 111u8, 114u8];
        let encoding = [101u8, 110u8, 99u8, 111u8, 100u8, 105u8, 110u8, 103u8];
        let signed = [115u8, 105u8, 103u8, 110u8, 101u8, 100u8];
        proof {
            assert(name@ =~= seq![110u8, 97u8, 109u8, 101u8]);
            assert(predictor@ =~= seq![
                112u8,
                114u8,
                101u8,
                100u8,
                105u8,
                99u8,
                116u8,
                111u8,
                114u8,
            ]);
            assert(encoding@ =~= seq![101u8, 110u8, 99u8, 111u8, 100u8, 105u8, 110u8, 103u8]);
            assert(signed@ =~= seq![115u8, 105u8, 103u8, 110u8, 101u8, 100u8]);
        }
        if crate::ascii::bytes_eq(s, name.as_slice()) {
            Some(Self::Name)
        } else if crate::ascii::bytes_eq(s, predictor.as_slice()) {
            Some(Self::Predictor)
        } else if crate::ascii::bytes_eq(s, encoding.as_slice()) {
            Some(Self::Encoding)
        } else if crate::ascii::bytes_eq(s, signed.as_slice()) {
            Some(Self::Signed)
        } else {
            None
        }
    }
}

/// The bytes of the key prefix `Field ` that opens every field definition
/// header.
pub open spec fn spec_field_prefix() -> Seq<u8> {
    seq![70u8, 105u8, 101u8, 108u8, 100u8, 32u8]
}

/// What a header key declares when it is a field definition line: the
/// frame kind letter between `Field ` and the next space, and the property
/// after that space.
pub open spec fn spec_parse_frame_def_header(key: Seq<u8>) -> Option<
    (crate::parser::DataFrameKind, DataFrameProperty),
> {
    if key.len() < 6 || key.subrange(0, 6) != spec_field_prefix() {
        None
    } else {
        match crate::ascii::spec_find_byte(key, 6, crate::ascii::SPACE) {
            Some(i) => if 6 <= i < key.len() {
                let kind = if i == 7 {
                    crate::parser::spec_data_frame_kind_from_byte(key[6])
                } else {
                    None
                };
                let prop = spec_property_from_name(key.subrange(i + 1, key.len() as int));
                match (kind, prop) {
                    (Some(k), Some(p)) => Some((k, p)),
                    _ => None,
                }
            } else {
                None
            },
            None => None,
        }
    }
}

/// Reads a `Field <K> <property>` header key.
pub fn parse_frame_def_header(key: &[u8]) -> (result: Option<
    (crate::parser::DataFrameKind, DataFrameProperty),
>)
    ensures
        result == spec_parse_frame_def_header(key@),
{
    let prefix = [70u8, 105u8, 101u8, 108u8, 100u8, 32u8];
    proof {
        assert(prefix@ =~= spec_field_prefix());
    }
    if key.len() < 6 {
        return None;
    }
    if !crate::ascii::bytes_eq(vstd::slice::slice_subrange(key, 0, 6), prefix.as_slice()) {
        return None;
    }
    proof {
        crate::ascii::lemma_find_byte(key@, 6, crate::ascii::SPACE);
    }
    match crate::ascii::find_byte(key, 6, crate::ascii::SPACE) {
        Some(i) => {
            let kind = if i == 7 {
                crate::parser::DataFrameKind::from_byte(*vstd::slice::slice_index_get(key, 6))
            } else {
                None
            };
            let prop = DataFrameProperty::from_name(
                vstd::slice::slice_subrange(key, i + 1, key.len()),
            );
            match (kind, prop) {
                (Some(k), Some(p)) => Some((k, p)),
                _ => None,
            }
        },
        None => None,
    }
}

/// Checks whether a header key declares part of a field definition table.
pub fn is_frame_def_header(key: &[u8]) -> (result: bool)
    ensures
        result == (spec_parse_frame_def_header(key@) is Some),
{
    parse_frame_def_header(key).is_some()
}

/// The field names a comma-separated header value declares, each trimmed.
pub open spec fn spec_name_list(s: Seq<u8>) -> Seq<Seq<u8>> {
    crate::ascii::spec_split_from(s, 0).map_values(|p: Seq<u8>| crate::ascii::spec_trimmed(p))
}

/// Splits a `Field <K> name` header value into trimmed names. A missing
/// line is corruption.
pub fn parse_names(names: Option<&Vec<u8>>) -> (result: ParseResult<Vec<Vec<u8>>>)
    ensures
        match names {
            Some(v) => result matches Ok(r) && r@.len() == spec_name_list(v@).len() && forall|
                j: int,
            | 0 <= j < r@.len() ==> r@[j]@ == spec_name_list(v@)[j],
            None => result == Err::<Vec<Vec<u8>>, _>(ParseError::Corrupted),
        },
{
    let v = match names {
        Some(v) => v,
        None => {
            return Err(ParseError::Corrupted);
        },
    };
    let pieces = crate::ascii::split_commas(v.as_slice());
    let mut out: Vec<Vec<u8>> = Vec::new();
    let mut j: usize = 0;
    while j < pieces.len()
        invariant
            0 <= j <= pieces@.len(),
            pieces@.len() == crate::ascii::spec_split_from(v@, 0).len(),
            forall|k: int|
                0 <= k < pieces@.len() ==> pieces@[k]@ == crate::ascii::spec_split_from(v@, 0)[k],
            out@.len() == j,
            forall|k: int| 0 <= k < j ==> out@[k]@ == spec_name_list(v@)[k],
        decreases pieces@.len() - j,
    {
        let piece = vstd::slice::slice_index_get(pieces.as_slice(), j);
        out.push(crate::ascii::trim(piece.as_slice()));
        j = j + 1;
    }
    Ok(out)
}

/// The predictors a comma-separated header value declares, each read from
/// its trimmed decimal form; nothing when any entry is unreadable.
pub open spec fn spec_predictor_list(s: Seq<u8>) -> Option<Seq<Predictor>> {
    let pieces = crate::ascii::spec_split_from(s, 0);
    if forall|j: int|
        0 <= j < pieces.len() ==> (#[trigger] crate::predictor::spec_predictor_from_num_str(
            crate::ascii::spec_trimmed(pieces[j]),
        )) is Some {
        Some(
            Seq::new(
                pieces.len(),
                |j: int|
                    crate::predictor::spec_predictor_from_num_str(
                        crate::ascii::spec_trimmed(pieces[j]),
                    )->Some_0,
            ),
        )
    } else {
        None
    }
}

/// Reads a `Field <K> predictor` header value. A missing line or an
/// unknown predictor number is corruption.
pub fn parse_predictors(predictors: Option<&Vec<u8>>) -> (result: ParseResult<Vec<Predictor>>)
    ensures
        match predictors {
            Some(v) => match spec_predictor_list(v@) {
                Some(ps) => result matches Ok(r) && r@ == ps,
                None => result == Err::<Vec<Predictor>, _>(ParseError::Corrupted),
            },
            None => result == Err::<Vec<Predictor>, _>(ParseError::Corrupted),
        },
{
    let v = match predictors {
        Some(v) => v,
        None => {
            return Err(ParseError::Corrupted);
        },
    };
    let pieces = crate::ascii::split_commas(v.as_slice());
    let mut out: Vec<Predictor> = Vec::new();
    let mut j: usize = 0;
    while j < pieces.len()
        invariant
            predictors == Some(v),
            0 <= j <= pieces@.len(),
            pieces@.len() == crate::ascii::spec_split_from(v@, 0).len(),
            forall|k: int|
                0 <= k < pieces@.len() ==> pieces@[k]@ == crate::ascii::spec_split_from(v@, 0)[k],
            out@.len() == j,
            forall|k: int|
                0 <= k < j ==> crate::predictor::spec_predictor_from_num_str(
                    crate::ascii::spec_trimmed(crate::ascii::spec_split_from(v@, 0)[k]),
                ) == Some(out@[k]),
        decreases pieces@.len() - j,
    {
        let piece = vstd::slice::slice_index_get(pieces.as_slice(), j);
        let t = crate::ascii::trim(piece.as_slice());
        match Predictor::from_num_str(t.as_slice()) {
            Some(p) => {
                out.push(p);
            },
            None => {
                proof {
                    let pieces_s = crate::ascii::spec_split_from(v@, 0);
                    assert(exists|k: int|
                        0 <= k < pieces_s.len() && !((#[trigger] crate::predictor::spec_predictor_from_num_str(
                            crate::ascii::spec_trimmed(pieces_s[k]),
                        )) is Some)) by {
                        assert(!(crate::predictor::spec_predictor_from_num_str(
                            crate::ascii::spec_trimmed(pieces_s[j as int]),
                        ) is Some));
                    }
                    assert(spec_predictor_list(v@) is None);
                }
                return Err(ParseError::Corrupted);
            },
        }
        j = j + 1;
    }
    proof {
        let pieces_s = crate::ascii::spec_split_from(v@, 0);
        assert forall|k: int|
            0 <= k < pieces_s.len() implies (#[trigger] crate::predictor::spec_predictor_from_num_str(
            crate::ascii::spec_trimmed(pieces_s[k]),
        )) is Some by {
            assert(crate::predictor::spec_predictor_from_num_str(
                crate::ascii::spec_trimmed(pieces_s[k]),
            ) == Some(out@[k]));
        }
        let ps = spec_predictor_list(v@);
        assert(ps is Some);
        assert(out@ =~= ps->Some_0);
    }
    Ok(out)
}

/// The encodings a comma-separated header value declares; nothing when
/// any entry is unreadable.
pub open spec fn spec_encoding_list(s: Seq<u8>) -> Option<Seq<Encoding>> {
    let pieces = crate::ascii::spec_split_from(s, 0);
    if forall|j: int|
        0 <= j < pieces.len() ==> (#[trigger] crate::encoding::spec_encoding_from_num_str(
            crate::ascii::spec_trimmed(pieces[j]),
        )) is Some {
        Some(
            Seq::new(
                pieces.len(),
                |j: int|
                    crate::encoding::spec_encoding_from_num_str(
                        crate::ascii::spec_trimmed(pieces[j]),
                    )->Some_0,
            ),
        )
    } else {
        None
    }
}

/// Reads a `Field <K> encoding` header value. A missing line or an
/// unknown encoding number is corruption.
pub fn parse_encodings(encodings: Option<&Vec<u8>>) -> (result: ParseResult<Vec<Encoding>>)
    ensures
        match encodings {
            Some(v) => match spec_encoding_list(v@) {
                Some(es) => result matches Ok(r) && r@ == es,
                None => result == Err::<Vec<Encoding>, _>(ParseError::Corrupted),
            },
            None => result == Err::<Vec<Encoding>, _>(ParseError::Corrupted),
        },
{
    let v = match encodings {
        Some(v) => v,
        None => {
            return Err(ParseError::Corrupted);
        },
    };
    let pieces = crate::ascii::split_commas(v.as_slice());
    let mut out: Vec<Encoding> = Vec::new();
    let mut j: usize = 0;
    while j < pieces.len()
        invariant
            encodings == Some(v),
            0 <= j <= pieces@.len(),
            pieces@.len() == crate::ascii::spec_split_from(v@, 0).len(),
            forall|k: int|
                0 <= k < pieces@.len() ==> pieces@[k]@ == crate::ascii::spec_split_from(v@, 0)[k],
            out@.len() == j,
            forall|k: int|
                0 <= k < j ==> crate::encoding::spec_encoding_from_num_str(
                    crate::ascii::spec_trimmed(crate::ascii::spec_split_from(v@, 0)[k]),
                ) == Some(out@[k]),
        decreases pieces@.len() - j,
    {
        let piece = vstd::slice::slice_index_get(pieces.as_slice(), j);
        let t = crate::ascii::trim(piece.as_slice());
        match Encoding::from_num_str(t.as_slice()) {
            Some(enc) => {
                out.push(enc);
            },
            None => {
                proof {
                    let pieces_s = crate::ascii::spec_split_from(v@, 0);
                    assert(exists|k: int|
                        0 <= k < pieces_s.len() && !((#[trigger] crate::encoding::spec_encoding_from_num_str(
                            crate::ascii::spec_trimmed(pieces_s[k]),
                        )) is Some)) by {
                        assert(!(crate::encoding::spec_encoding_from_num_str(
                            crate::ascii::spec_trimmed(pieces_s[j as int]),
                        ) is Some));
                    }
                    assert(spec_encoding_list(v@) is None);
                }
                return Err(ParseError::Corrupted);
            },
        }
        j = j + 1;
    }
    proof {
        let pieces_s = crate::ascii::spec_split_from(v@, 0);
        assert forall|k: int|
            0 <= k < pieces_s.len() implies (#[trigger] crate::encoding::spec_encoding_from_num_str(
            crate::ascii::spec_trimmed(pieces_s[k]),
        )) is Some by {
            assert(crate::encoding::spec_encoding_from_num_str(
                crate::ascii::spec_trimmed(pieces_s[k]),
            ) == Some(out@[k]));
        }
        let es = spec_encoding_list(v@);
        assert(es is Some);
        assert(out@ =~= es->Some_0);
    }
    Ok(out)
}

/// The signedness flags a comma-separated header value declares: every
/// trimmed entry other than `0` counts as signed.
pub open spec fn spec_sign_list(s: Seq<u8>) -> Seq<bool> {
    crate::ascii::spec_split_from(s, 0).map_values(
        |p: Seq<u8>| crate::ascii::spec_trimmed(p) != seq![crate::ascii::DIGIT_ZERO],
    )
}

/// Reads a `Field <K> signed` header value. A missing line is corruption.
pub fn parse_signs(signs: Option<&Vec<u8>>) -> (result: ParseResult<Vec<bool>>)
    ensures
        match signs {
            Some(v) => result matches Ok(r) && r@ == spec_sign_list(v@),
            None => result == Err::<Vec<bool>, _>(ParseError::Corrupted),
        },
{
    let v = match signs {
        Some(v) => v,
        None => {
            return Err(ParseError::Corrupted);
        },
    };
    let pieces = crate::ascii::split_commas(v.as_slice());
    let mut out: Vec<bool> = Vec::new();
    let mut j: usize = 0;
    while j < pieces.len()
        invariant
            0 <= j <= pieces@.len(),
            pieces@.len() == crate::ascii::spec_split_from(v@, 0).len(),
            forall|k: int|
                0 <= k < pieces@.len() ==> pieces@[k]@ == crate::ascii::spec_split_from(v@, 0)[k],
            out@.len() == j,
            forall|k: int| 0 <= k < j ==> out@[k] == spec_sign_list(v@)[k],
        decreases pieces@.len() - j,
    {
        let piece = vstd::slice::slice_index_get(pieces.as_slice(), j);
        let t = crate::ascii::trim(piece.as_slice());
        let is_zero = t.len() == 1 && *vstd::slice::slice_index_get(t.as_slice(), 0)
            == crate::ascii::DIGIT_ZERO;
        proof {
            if is_zero {
                assert(t@ =~= seq![crate::ascii::DIGIT_ZERO]);
            }
        }
        out.push(!is_zero);
        j = j + 1;
    }
    proof {
        assert(out@ =~= spec_sign_list(v@));
    }
    Ok(out)
}

/// The firmware family a `Firmware revision` value names, matched by an
/// ASCII-case-insensitive prefix.
pub open spec fn spec_firmware_kind(rev: Seq<u8>) -> Option<FirmwareKind> {
    if ascii::spec_starts_with_ci(
        rev,
        seq![98u8, 101u8, 116u8, 97u8, 102u8, 108u8, 105u8, 103u8, 104u8, 116u8],
    ) {
        Some(FirmwareKind::Betaflight)
    } else if ascii::spec_starts_with_ci(
        rev,
        seq![101u8, 109u8, 117u8, 102u8, 108u8, 105u8, 103u8, 104u8, 116u8],
    ) {
        Some(FirmwareKind::EmuFlight)
    } else if ascii::spec_starts_with_ci(rev, seq![105u8, 110u8, 97u8, 118u8]) {
        Some(FirmwareKind::Inav)
    } else {
        None
    }
}

/// Detects the firmware family from a `Firmware revision` value.
pub fn detect_firmware_kind(rev: &[u8]) -> (result: Option<FirmwareKind>)
    ensures
        result == spec_firmware_kind(rev@),
{
    let betaflight = [98u8, 101u8, 116u8, 97u8, 102u8, 108u8, 105u8, 103u8, 104u8, 116u8];
    let emuflight = [101u8, 109u8, 117u8, 102u8, 108u8, 105u8, 103u8, 104u8, 116u8];
    let inav = [105u8, 110u8, 97u8, 118u8];
    proof {
        assert(betaflight@ =~= seq![
            98u8,
            101u8,
            116u8,
            97u8,
            102u8,
            108u8,
            105u8,
            103u8,
            104u8,
            116u8,
        ]);
        assert(emuflight@ =~= seq![101u8, 109u8, 117u8, 102u8, 108u8, 105u8, 103u8, 104u8, 116u8]);
        assert(inav@ =~= seq![105u8, 110u8, 97u8, 118u8]);
    }
    if ascii::starts_with_ci(rev, betaflight.as_slice()) {
        Some(FirmwareKind::Betaflight)
    } else if ascii::starts_with_ci(rev, emuflight.as_slice()) {
        Some(FirmwareKind::EmuFlight)
    } else if ascii::starts_with_ci(rev, inav.as_slice()) {
        Some(FirmwareKind::Inav)
    } else {
        None
    }
}

/// Where the frame section starts when headers are read from `pos` on:
/// every line opening with `H ` is consumed up to and over its newline,
/// and the first byte that opens no such line ends the block.
pub open spec fn spec_block_end(data: Seq<u8>, pos: int) -> int
    decreases data.len() - pos,
{
    if 0 <= pos && pos + 2 <= data.len() && data[pos] == ascii::LETTER_H && data[pos + 1]
        == ascii::SPACE {
        match ascii::spec_find_byte(data, pos + 2, ascii::NEWLINE) {
            Some(nl) => if pos + 2 <= nl < data.len() {
                spec_block_end(data, nl + 1)
            } else {
                data.len() as int
            },
            None => data.len() as int,
        }
    } else {
        pos
    }
}


/// The raw values of the four definition lines of one frame kind, as the
/// spec-level image of what the header block delivered.
pub ghost struct RawDefLinesModel {
    pub names: Option<Seq<u8>>,
    pub predictors: Option<Seq<u8>>,
    pub encodings: Option<Seq<u8>>,
    pub signs: Option<Seq<u8>>,
}

/// The spec-level image of every line the header block delivered, sorted
/// by key.
pub ghost struct HeaderLinesModel {
    pub product: Option<Seq<u8>>,
    pub data_version: Option<Seq<u8>>,
    pub firmware_type: Option<Seq<u8>>,
    pub firmware_revision: Option<Seq<u8>>,
    pub firmware_date: Option<Seq<u8>>,
    pub craft_name: Option<Seq<u8>>,
    pub min_throttle: Option<Seq<u8>>,
    pub max_throttle: Option<Seq<u8>>,
    pub motor_output: Option<Seq<u8>>,
    pub vbat_reference: Option<Seq<u8>>,
    pub acceleration_1g: Option<Seq<u8>>,
    pub gyro_scale: Option<Seq<u8>>,
    pub intra: RawDefLinesModel,
    pub inter: RawDefLinesModel,
    pub slow: RawDefLinesModel,
    pub gps: RawDefLinesModel,
    pub gps_home: RawDefLinesModel,
    pub unknown: Seq<(Seq<u8>, Seq<u8>)>,
}

/// A header block that declared nothing yet.
pub open spec fn spec_raw_lines_empty() -> RawDefLinesModel {
    RawDefLinesModel { names: None, predictors: None, encodings: None, signs: None }
}

/// The collection state before any line is read.
pub open spec fn spec_lines_empty() -> HeaderLinesModel {
    HeaderLinesModel {
        product: None,
        data_version: None,
        firmware_type: None,
        firmware_revision: None,
        firmware_date: None,
        craft_name: None,
        min_throttle: None,
        max_throttle: None,
        motor_output: None,
        vbat_reference: None,
        acceleration_1g: None,
        gyro_scale: None,
        intra: spec_raw_lines_empty(),
        inter: spec_raw_lines_empty(),
        slow: spec_raw_lines_empty(),
        gps: spec_raw_lines_empty(),
        gps_home: spec_raw_lines_empty(),
        unknown: Seq::empty(),
    }
}

/// The bytes of the header key `Product`.
pub open spec fn spec_kw_product() -> Seq<u8> {
    seq![80u8, 114u8, 111u8, 100u8, 117u8, 99u8, 116u8]
}

/// The bytes of the header key `Data version`.
pub open spec fn spec_kw_data_version() -> Seq<u8> {
    seq![68u8, 97u8, 116u8, 97u8, 32u8, 118u8, 101u8, 114u8, 115u8, 105u8, 111u8, 110u8]
}

/// The bytes of the header key `Firmware type`.
pub open spec fn spec_kw_firmware_type() -> Seq<u8> {
    seq![70u8, 105u8, 114u8, 109u8, 119u8, 97u8, 114u8, 101u8, 32u8, 116u8, 121u8, 112u8, 101u8]
}

/// The bytes of the header key `Firmware revision`.
pub open spec fn spec_kw_firmware_revision() -> Seq<u8> {
    seq![70u8, 105u8, 114u8, 109u8, 119u8, 97u8, 114u8, 101u8, 32u8, 114u8, 101u8, 118u8, 105u8, 115u8, 105u8, 111u8, 110u8]
}

/// The bytes of the header key `Firmware date`.
pub open spec fn spec_kw_firmware_date() -> Seq<u8> {
    seq![70u8, 105u8, 114u8, 109u8, 119u8, 97u8, 114u8, 101u8, 32u8, 100u8, 97u8, 116u8, 101u8]
}

/// The bytes of the header key `Craft name`.
pub open spec fn spec_kw_craft_name() -> Seq<u8> {
    seq![67u8, 114u8, 97u8, 102u8, 116u8, 32u8, 110u8, 97u8, 109u8, 101u8]
}

/// The bytes of the header key `minthrottle`.
pub open spec fn spec_kw_min_throttle() -> Seq<u8> {
    seq![109u8, 105u8, 110u8, 116u8, 104u8, 114u8, 111u8, 116u8, 116u8, 108u8, 101u8]
}

/// The bytes of the header key `maxthrottle`.
pub open spec fn spec_kw_max_throttle() -> Seq<u8> {
    seq![109u8, 97u8, 120u8, 116u8, 104u8, 114u8, 111u8, 116u8, 116u8, 108u8, 101u8]
}

/// The bytes of the header key `motorOutput`.
pub open spec fn spec_kw_motor_output() -> Seq<u8> {
    seq![109u8, 111u8, 116u8, 111u8, 114u8, 79u8, 117u8, 116u8, 112u8, 117u8, 116u8]
}

/// The bytes of the header key `vbatref`.
pub open spec fn spec_kw_vbat_reference() -> Seq<u8> {
    seq![118u8, 98u8, 97u8, 116u8, 114u8, 101u8, 102u8]
}

/// The bytes of the header key `acc_1G`.
pub open spec fn spec_kw_acceleration_1g() -> Seq<u8> {
    seq![97u8, 99u8, 99u8, 95u8, 49u8, 71u8]
}

/// The bytes of the header key `gyro_scale`.
pub open spec fn spec_kw_gyro_scale() -> Seq<u8> {
    seq![103u8, 121u8, 114u8, 111u8, 95u8, 115u8, 99u8, 97u8, 108u8, 101u8]
}

/// Storing one definition-line value under its property.
pub open spec fn spec_raw_set(
    r: RawDefLinesModel,
    property: DataFrameProperty,
    value: Seq<u8>,
) -> RawDefLinesModel {
    match property {
        DataFrameProperty::Name => RawDefLinesModel { names: Some(value), ..r },
        DataFrameProperty::Predictor => RawDefLinesModel { predictors: Some(value), ..r },
        DataFrameProperty::Encoding => RawDefLinesModel { encodings: Some(value), ..r },
        DataFrameProperty::Signed => RawDefLinesModel { signs: Some(value), ..r },
    }
}

/// Storing one header line: a `Field <K> <property>` key fills its slot in
/// the right kind's table, a recognized key fills its typed slot (the
/// last occurrence wins), and anything else is kept among the unknown
/// keys in order of appearance.
pub open spec fn spec_lines_update(
    acc: HeaderLinesModel,
    key: Seq<u8>,
    value: Seq<u8>,
) -> HeaderLinesModel {
    match spec_parse_frame_def_header(key) {
        Some((kind, property)) => match kind {
            crate::parser::DataFrameKind::Intra => HeaderLinesModel {
                intra: spec_raw_set(acc.intra, property, value),
                ..acc
            },
            crate::parser::DataFrameKind::Inter => HeaderLinesModel {
                inter: spec_raw_set(acc.inter, property, value),
                ..acc
            },
            crate::parser::DataFrameKind::Slow => HeaderLinesModel {
                slow: spec_raw_set(acc.slow, property, value),
                ..acc
            },
            crate::parser::DataFrameKind::Gps => HeaderLinesModel {
                gps: spec_raw_set(acc.gps, property, value),
                ..acc
            },
            crate::parser::DataFrameKind::GpsHome => HeaderLinesModel {
                gps_home: spec_raw_set(acc.gps_home, property, value),
                ..acc
            },
        },
        None => if key == spec_kw_product() {
            HeaderLinesModel { product: Some(value), ..acc }
        } else if key == spec_kw_data_version() {
            HeaderLinesModel { data_version: Some(value), ..acc }
        } else if key == spec_kw_firmware_type() {
            HeaderLinesModel { firmware_type: Some(value), ..acc }
        } else if key == spec_kw_firmware_revision() {
            HeaderLinesModel { firmware_revision: Some(value), ..acc }
        } else if key == spec_kw_firmware_date() {
            HeaderLinesModel { firmware_date: Some(value), ..acc }
        } else if key == spec_kw_craft_name() {
            HeaderLinesModel { craft_name: Some(value), ..acc }
        } else if key == spec_kw_min_throttle() {
            HeaderLinesModel { min_throttle: Some(value), ..acc }
        } else if key == spec_kw_max_throttle() {
            HeaderLinesModel { max_throttle: Some(value), ..acc }
        } else if key == spec_kw_motor_output() {
            HeaderLinesModel { motor_output: Some(value), ..acc }
        } else if key == spec_kw_vbat_reference() {
            HeaderLinesModel { vbat_reference: Some(value), ..acc }
        } else if key == spec_kw_acceleration_1g() {
            HeaderLinesModel { acceleration_1g: Some(value), ..acc }
        } else if key == spec_kw_gyro_scale() {
            HeaderLinesModel { gyro_scale: Some(value), ..acc }
        } else {
            HeaderLinesModel { unknown: acc.unknown.push((key, value)), ..acc }
        },
    }
}

/// Walks the header block from `pos`: every line opening with `H ` is
/// split at its first colon into a key and a trimmed value and stored;
/// a line without a colon is corruption. Yields everything collected and
/// the offset of the first byte past the block.
pub open spec fn spec_collect(data: Seq<u8>, pos: int, acc: HeaderLinesModel) -> ParseResult<
    (HeaderLinesModel, int),
>
    decreases data.len() - pos,
{
    if !(0 <= pos && pos + 2 <= data.len() && data[pos] == ascii::LETTER_H && data[pos + 1]
        == ascii::SPACE) {
        Ok((acc, pos))
    } else {
        let line_end = match ascii::spec_find_byte(data, pos + 2, ascii::NEWLINE) {
            Some(nl) => if pos + 2 <= nl < data.len() {
                nl
            } else {
                data.len() as int
            },
            None => data.len() as int,
        };
        let line = data.subrange(pos + 2, line_end);
        match ascii::spec_find_byte(line, 0, ascii::COLON) {
            Some(c) => if 0 <= c < line.len() {
                let key = line.subrange(0, c);
                let value = ascii::spec_trimmed(line.subrange(c + 1, line.len() as int));
                let next = if line_end >= data.len() {
                    data.len() as int
                } else {
                    line_end + 1
                };
                spec_collect(data, next, spec_lines_update(acc, key, value))
            } else {
                Err(ParseError::Corrupted)
            },
            None => Err(ParseError::Corrupted),
        }
    }
}

/// How one kind's four definition lines build up: absent entirely, present
/// and readable, or broken (a line missing, an unknown predictor or
/// encoding number, or lists of unequal length).
pub ghost enum DefOutcome {
    Absent,
    Present,
    Invalid,
}

/// Classifies one kind's raw definition lines.
pub open spec fn spec_def_outcome(r: RawDefLinesModel) -> DefOutcome {
    if r.names is None && r.predictors is None && r.encodings is None && r.signs is None {
        DefOutcome::Absent
    } else if r.names is None || r.predictors is None || r.encodings is None || r.signs is None {
        DefOutcome::Invalid
    } else if spec_predictor_list(r.predictors->Some_0) is None || spec_encoding_list(
        r.encodings->Some_0,
    ) is None {
        DefOutcome::Invalid
    } else {
        let names = spec_name_list(r.names->Some_0);
        let predictors = spec_predictor_list(r.predictors->Some_0)->Some_0;
        let encodings = spec_encoding_list(r.encodings->Some_0)->Some_0;
        let signs = spec_sign_list(r.signs->Some_0);
        if predictors.len() == names.len() && encodings.len() == names.len() && signs.len()
            == names.len() {
            DefOutcome::Present
        } else {
            DefOutcome::Invalid
        }
    }
}

/// The field table one kind's readable definition lines declare: the
/// trimmed names zipped with the parsed predictors, encodings and signs.
pub open spec fn spec_defs_match(r: RawDefLinesModel, defs: Seq<FieldDefinition>) -> bool {
    let names = spec_name_list(r.names->Some_0);
    let predictors = spec_predictor_list(r.predictors->Some_0)->Some_0;
    let encodings = spec_encoding_list(r.encodings->Some_0)->Some_0;
    let signs = spec_sign_list(r.signs->Some_0);
    &&& defs.len() == names.len()
    &&& forall|i: int|
        0 <= i < defs.len() ==> {
            &&& (#[trigger] defs[i]).name@ == names[i]
            &&& defs[i].predictor == predictors[i]
            &&& defs[i].encoding == encodings[i]
            &&& defs[i].signed == signs[i]
        }
}

/// Why building the typed header table from the collected lines fails.
pub ghost enum HeaderError {
    UnsupportedVersion(Seq<u8>),
    UnknownFirmware(Seq<u8>),
    Corrupted,
}

/// Whether an error value reports the failure the model names.
pub open spec fn spec_header_error_matches(model: HeaderError, e: ParseError) -> bool {
    match model {
        HeaderError::UnsupportedVersion(s) => e matches ParseError::UnsupportedVersion(v)
            && v@ == s,
        HeaderError::UnknownFirmware(s) => e matches ParseError::UnknownFirmware(v) && v@ == s,
        HeaderError::Corrupted => e == ParseError::Corrupted,
    }
}

/// Whether a decimal header value reads as a 16-bit number.
pub open spec fn spec_u16_ok(v: Seq<u8>) -> bool {
    match ascii::spec_parse_dec(v) {
        Some(n) => n <= u16::MAX,
        None => false,
    }
}

/// The 16-bit number a decimal header value stands for.
pub open spec fn spec_u16_of(v: Seq<u8>) -> u16 {
    ascii::spec_parse_dec(v)->Some_0 as u16
}

/// The data version a header value names: the numerals `1` and `2`.
pub open spec fn spec_version_of(v: Seq<u8>) -> Option<DataVersion> {
    if v == seq![(ascii::DIGIT_ZERO + 1) as u8] {
        Some(DataVersion::V1)
    } else if v == seq![(ascii::DIGIT_ZERO + 2) as u8] {
        Some(DataVersion::V2)
    } else {
        None
    }
}

/// Whether a `gyro_scale` value reads as `0x` and hexadecimal digits.
pub open spec fn spec_gyro_ok(v: Seq<u8>) -> bool {
    v.len() >= 2 && v[0] == ascii::DIGIT_ZERO && v[1] == 120 && ascii::spec_parse_hex(
        v.subrange(2, v.len() as int),
    ) is Some
}

/// The bit pattern a `gyro_scale` value stands for.
pub open spec fn spec_gyro_of(v: Seq<u8>) -> u32 {
    ascii::spec_parse_hex(v.subrange(2, v.len() as int))->Some_0
}

/// The first failure building the typed headers from the collected lines,
/// checked in the order the builder works: firmware identity, version,
/// the numeric parameters, then the five definition tables (the intra
/// table may not be absent).
pub open spec fn spec_build_error(lines: HeaderLinesModel) -> Option<HeaderError> {
    if lines.firmware_revision is None {
        Some(HeaderError::Corrupted)
    } else if spec_firmware_kind(lines.firmware_revision->Some_0) is None {
        Some(HeaderError::UnknownFirmware(lines.firmware_revision->Some_0))
    } else if lines.data_version is None {
        Some(HeaderError::Corrupted)
    } else if spec_version_of(lines.data_version->Some_0) is None {
        Some(HeaderError::UnsupportedVersion(lines.data_version->Some_0))
    } else if lines.min_throttle is None || !spec_u16_ok(lines.min_throttle->Some_0) {
        Some(HeaderError::Corrupted)
    } else if lines.max_throttle matches Some(v) && !spec_u16_ok(v) {
        Some(HeaderError::Corrupted)
    } else if lines.motor_output is None {
        Some(HeaderError::Corrupted)
    } else if ascii::spec_split_from(lines.motor_output->Some_0, 0).len() != 2 {
        Some(HeaderError::Corrupted)
    } else if !spec_u16_ok(
        ascii::spec_trimmed(ascii::spec_split_from(lines.motor_output->Some_0, 0)[0]),
    ) || !spec_u16_ok(
        ascii::spec_trimmed(ascii::spec_split_from(lines.motor_output->Some_0, 0)[1]),
    ) {
        Some(HeaderError::Corrupted)
    } else if lines.vbat_reference is None || !spec_u16_ok(lines.vbat_reference->Some_0) {
        Some(HeaderError::Corrupted)
    } else if lines.acceleration_1g matches Some(v) && !spec_u16_ok(v) {
        Some(HeaderError::Corrupted)
    } else if lines.gyro_scale matches Some(v) && !spec_gyro_ok(v) {
        Some(HeaderError::Corrupted)
    } else if !(spec_def_outcome(lines.intra) is Present) {
        Some(HeaderError::Corrupted)
    } else if spec_def_outcome(lines.inter) is Invalid || spec_def_outcome(lines.slow)
        is Invalid || spec_def_outcome(lines.gps) is Invalid || spec_def_outcome(lines.gps_home)
        is Invalid {
        Some(HeaderError::Corrupted)
    } else {
        None
    }
}

/// The spec-level image of the retained unknown headers.
pub open spec fn spec_unknown_view(u: Seq<(Vec<u8>, Vec<u8>)>) -> Seq<(Seq<u8>, Seq<u8>)> {
    Seq::new(u.len(), |i: int| (u[i].0@, u[i].1@))
}

/// The spec-level image of an optional byte value.
pub open spec fn spec_opt_bytes(o: Option<Vec<u8>>) -> Option<Seq<u8>> {
    match o {
        Some(v) => Some(v@),
        None => None,
    }
}

/// Whether one optional definition table realizes one kind's lines.
pub open spec fn spec_opt_defs_match(
    r: RawDefLinesModel,
    defs: Option<Vec<FieldDefinition>>,
) -> bool {
    match spec_def_outcome(r) {
        DefOutcome::Absent => defs is None,
        DefOutcome::Present => defs matches Some(d) && spec_defs_match(r, d@),
        DefOutcome::Invalid => false,
    }
}

/// Whether a typed header table realizes the collected lines: every field
/// equals what its line declares. Meaningful when `spec_build_error` is
/// empty; it then pins every field of the result.
pub open spec fn spec_headers_match(lines: HeaderLinesModel, h: Headers) -> bool {
    &&& lines.firmware_revision matches Some(rev) && h.firmware_revision@ == rev
    &&& spec_firmware_kind(h.firmware_revision@) == Some(h.firmware_kind)
    &&& spec_opt_bytes(h.firmware_type) == lines.firmware_type
    &&& spec_opt_bytes(h.firmware_date) == lines.firmware_date
    &&& spec_opt_bytes(h.product) == lines.product
    &&& spec_opt_bytes(h.craft_name) == lines.craft_name
    &&& lines.data_version matches Some(dv) && spec_version_of(dv) == Some(h.data_version)
    &&& lines.min_throttle matches Some(mt) && h.min_throttle == spec_u16_of(mt)
    &&& h.max_throttle == match lines.max_throttle {
        Some(v) => Some(spec_u16_of(v)),
        None => None::<u16>,
    }
    &&& lines.motor_output matches Some(mo) && h.motor_output_range.min == spec_u16_of(
        ascii::spec_trimmed(ascii::spec_split_from(mo, 0)[0]),
    ) && h.motor_output_range.max == spec_u16_of(
        ascii::spec_trimmed(ascii::spec_split_from(mo, 0)[1]),
    )
    &&& lines.vbat_reference matches Some(vb) && h.vbat_reference == spec_u16_of(vb)
    &&& h.acceleration_1g == match lines.acceleration_1g {
        Some(v) => Some(spec_u16_of(v)),
        None => None::<u16>,
    }
    &&& h.gyro_scale_bits == match lines.gyro_scale {
        Some(v) => Some(spec_gyro_of(v)),
        None => None::<u32>,
    }
    &&& spec_def_outcome(lines.intra) is Present && spec_defs_match(lines.intra, h.intra_fields@)
    &&& spec_opt_defs_match(lines.inter, h.inter_fields)
    &&& spec_opt_defs_match(lines.slow, h.slow_fields)
    &&& spec_opt_defs_match(lines.gps, h.gps_fields)
    &&& spec_opt_defs_match(lines.gps_home, h.gps_home_fields)
    &&& h.unknown@.len() == lines.unknown.len()
    &&& forall|i: int|
        0 <= i < lines.unknown.len() ==> (#[trigger] h.unknown@[i]).0@ == lines.unknown[i].0
            && h.unknown@[i].1@ == lines.unknown[i].1
}

/// The raw values of the four definition lines of one frame kind, as the
/// header block delivered them.
struct RawDefLines {
    names: Option<Vec<u8>>,
    predictors: Option<Vec<u8>>,
    encodings: Option<Vec<u8>>,
    signs: Option<Vec<u8>>,
}

/// The spec-level image of one kind's collected lines.
spec fn spec_raw_view(r: RawDefLines) -> RawDefLinesModel {
    RawDefLinesModel {
        names: spec_opt_bytes(r.names),
        predictors: spec_opt_bytes(r.predictors),
        encodings: spec_opt_bytes(r.encodings),
        signs: spec_opt_bytes(r.signs),
    }
}

impl RawDefLines {
    fn new() -> (result: Self)
        ensures
            spec_raw_view(result) == spec_raw_lines_empty(),
    {
        RawDefLines { names: None, predictors: None, encodings: None, signs: None }
    }

    fn set(&mut self, property: DataFrameProperty, value: Vec<u8>)
        ensures
            spec_raw_view(*final(self)) == spec_raw_set(
                spec_raw_view(*old(self)),
                property,
                value@,
            ),
    {
        match property {
            DataFrameProperty::Name => {
                self.names = Some(value);
            },
            DataFrameProperty::Predictor => {
                self.predictors = Some(value);
            },
            DataFrameProperty::Encoding => {
                self.encodings = Some(value);
            },
            DataFrameProperty::Signed => {
                self.signs = Some(value);
            },
        }
    }

    fn is_empty(&self) -> (result: bool)
        ensures
            result == (self.names is None && self.predictors is None && self.encodings is None
                && self.signs is None),
    {
        self.names.is_none() && self.predictors.is_none() && self.encodings.is_none()
            && self.signs.is_none()
    }
}

/// The lines collected while walking the header block, exec side.
struct Collected {
    product: Option<Vec<u8>>,
    data_version: Option<Vec<u8>>,
    firmware_type: Option<Vec<u8>>,
    firmware_revision: Option<Vec<u8>>,
    firmware_date: Option<Vec<u8>>,
    craft_name: Option<Vec<u8>>,
    min_throttle: Option<Vec<u8>>,
    max_throttle: Option<Vec<u8>>,
    motor_output: Option<Vec<u8>>,
    vbat_reference: Option<Vec<u8>>,
    acceleration_1g: Option<Vec<u8>>,
    gyro_scale: Option<Vec<u8>>,
    intra: RawDefLines,
    inter: RawDefLines,
    slow: RawDefLines,
    gps: RawDefLines,
    gps_home: RawDefLines,
    unknown: Vec<(Vec<u8>, Vec<u8>)>,
}

/// The spec-level image of the collected lines.
spec fn spec_collected_view(c: Collected) -> HeaderLinesModel {
    HeaderLinesModel {
        product: spec_opt_bytes(c.product),
        data_version: spec_opt_bytes(c.data_version),
        firmware_type: spec_opt_bytes(c.firmware_type),
        firmware_revision: spec_opt_bytes(c.firmware_revision),
        firmware_date: spec_opt_bytes(c.firmware_date),
        craft_name: spec_opt_bytes(c.craft_name),
        min_throttle: spec_opt_bytes(c.min_throttle),
        max_throttle: spec_opt_bytes(c.max_throttle),
        motor_output: spec_opt_bytes(c.motor_output),
        vbat_reference: spec_opt_bytes(c.vbat_reference),
        acceleration_1g: spec_opt_bytes(c.acceleration_1g),
        gyro_scale: spec_opt_bytes(c.gyro_scale),
        intra: spec_raw_view(c.intra),
        inter: spec_raw_view(c.inter),
        slow: spec_raw_view(c.slow),
        gps: spec_raw_view(c.gps),
        gps_home: spec_raw_view(c.gps_home),
        unknown: spec_unknown_view(c.unknown@),
    }
}

impl Collected {
    fn new() -> (result: Self)
        ensures
            spec_collected_view(result) == spec_lines_empty(),
    {
        let result = Collected {
            product: None,
            data_version: None,
            firmware_type: None,
            firmware_revision: None,
            firmware_date: None,
            craft_name: None,
            min_throttle: None,
            max_throttle: None,
            motor_output: None,
            vbat_reference: None,
            acceleration_1g: None,
            gyro_scale: None,
            intra: RawDefLines::new(),
            inter: RawDefLines::new(),
            slow: RawDefLines::new(),
            gps: RawDefLines::new(),
            gps_home: RawDefLines::new(),
            unknown: Vec::new(),
        };
        proof {
            assert(spec_unknown_view(result.unknown@) =~= spec_lines_empty().unknown);
        }
        result
    }

    /// Stores one header line under its key, as `spec_lines_update` says.
    #[verifier::rlimit(100)]
    fn store(&mut self, key: &[u8], value: Vec<u8>)
        ensures
            spec_collected_view(*final(self)) == spec_lines_update(
                spec_collected_view(*old(self)),
                key@,
                value@,
            ),
    {
        let ghost m0 = spec_collected_view(*self);
        let ghost value_s = value@;
        match parse_frame_def_header(key) {
            Some((kind, property)) => {
                match kind {
                    crate::parser::DataFrameKind::Intra => self.intra.set(property, value),
                    crate::parser::DataFrameKind::Inter => self.inter.set(property, value),
                    crate::parser::DataFrameKind::Slow => self.slow.set(property, value),
                    crate::parser::DataFrameKind::Gps => self.gps.set(property, value),
                    crate::parser::DataFrameKind::GpsHome => self.gps_home.set(
                        property,
                        value,
                    ),
                }
            },
            None => {
                let product_kw = [80u8, 114u8, 111u8, 100u8, 117u8, 99u8, 116u8];
                let data_version_kw = [68u8, 97u8, 116u8, 97u8, 32u8, 118u8, 101u8, 114u8,
                    115u8, 105u8, 111u8, 110u8];
                let firmware_type_kw = [70u8, 105u8, 114u8, 109u8, 119u8, 97u8, 114u8, 101u8,
                    32u8, 116u8, 121u8, 112u8, 101u8];
                let firmware_revision_kw = [70u8, 105u8, 114u8, 109u8, 119u8, 97u8, 114u8,
                    101u8, 32u8, 114u8, 101u8, 118u8, 105u8, 115u8, 105u8, 111u8, 110u8];
                let firmware_date_kw = [70u8, 105u8, 114u8, 109u8, 119u8, 97u8, 114u8, 101u8,
                    32u8, 100u8, 97u8, 116u8, 101u8];
                let craft_name_kw = [67u8, 114u8, 97u8, 102u8, 116u8, 32u8, 110u8, 97u8, 109u8,
                    101u8];
                let min_throttle_kw = [109u8, 105u8, 110u8, 116u8, 104u8, 114u8, 111u8, 116u8,
                    116u8, 108u8, 101u8];
                let max_throttle_kw = [109u8, 97u8, 120u8, 116u8, 104u8, 114u8, 111u8, 116u8,
                    116u8, 108u8, 101u8];
                let motor_output_kw = [109u8, 111u8, 116u8, 111u8, 114u8, 79u8, 117u8, 116u8,
                    112u8, 117u8, 116u8];
                let vbat_reference_kw = [118u8, 98u8, 97u8, 116u8, 114u8, 101u8, 102u8];
                let acceleration_1g_kw = [97u8, 99u8, 99u8, 95u8, 49u8, 71u8];
                let gyro_scale_kw = [103u8, 121u8, 114u8, 111u8, 95u8, 115u8, 99u8, 97u8,
                    108u8, 101u8];
                proof {
                    assert(product_kw@ =~= spec_kw_product());
                    assert(data_version_kw@ =~= spec_kw_data_version());
                    assert(firmware_type_kw@ =~= spec_kw_firmware_type());
                    assert(firmware_revision_kw@ =~= spec_kw_firmware_revision());
                    assert(firmware_date_kw@ =~= spec_kw_firmware_date());
                    assert(craft_name_kw@ =~= spec_kw_craft_name());
                    assert(min_throttle_kw@ =~= spec_kw_min_throttle());
                    assert(max_throttle_kw@ =~= spec_kw_max_throttle());
                    assert(motor_output_kw@ =~= spec_kw_motor_output());
                    assert(vbat_reference_kw@ =~= spec_kw_vbat_reference());
                    assert(acceleration_1g_kw@ =~= spec_kw_acceleration_1g());
                    assert(gyro_scale_kw@ =~= spec_kw_gyro_scale());
                }
                if crate::ascii::bytes_eq(key, product_kw.as_slice()) {
                    self.product = Some(value);
                } else if crate::ascii::bytes_eq(key, data_version_kw.as_slice()) {
                    self.data_version = Some(value);
                } else if crate::ascii::bytes_eq(key, firmware_type_kw.as_slice()) {
                    self.firmware_type = Some(value);
                } else if crate::ascii::bytes_eq(key, firmware_revision_kw.as_slice()) {
                    self.firmware_revision = Some(value);
                } else if crate::ascii::bytes_eq(key, firmware_date_kw.as_slice()) {
                    self.firmware_date = Some(value);
                } else if crate::ascii::bytes_eq(key, craft_name_kw.as_slice()) {
                    self.craft_name = Some(value);
                } else if crate::ascii::bytes_eq(key, min_throttle_kw.as_slice()) {
                    self.min_throttle = Some(value);
                } else if crate::ascii::bytes_eq(key, max_throttle_kw.as_slice()) {
                    self.max_throttle = Some(value);
                } else if crate::ascii::bytes_eq(key, motor_output_kw.as_slice()) {
                    self.motor_output = Some(value);
                } else if crate::ascii::bytes_eq(key, vbat_reference_kw.as_slice()) {
                    self.vbat_reference = Some(value);
                } else if crate::ascii::bytes_eq(key, acceleration_1g_kw.as_slice()) {
                    self.acceleration_1g = Some(value);
                } else if crate::ascii::bytes_eq(key, gyro_scale_kw.as_slice()) {
                    self.gyro_scale = Some(value);
                } else {
                    self.unknown.push((crate::ascii::copy_range(key, 0, key.len()), value));
                    proof {
                        assert(key@.subrange(0, key@.len() as int) =~= key@);
                        assert(spec_unknown_view(self.unknown@) =~~= m0.unknown.push((
                            key@,
                            value_s,
                        )));
                    }
                }
            },
        }
    }
}

/// Builds one frame kind's field table from its four header lines: all
/// four must be there, with lists of one shared length. A kind with no
/// lines at all has no table.
fn build_def(raw: &RawDefLines) -> (result: ParseResult<Option<Vec<FieldDefinition>>>)
    ensures
        match spec_def_outcome(spec_raw_view(*raw)) {
            DefOutcome::Absent => result == Ok::<Option<Vec<FieldDefinition>>, ParseError>(
                None,
            ),
            DefOutcome::Invalid => result == Err::<Option<Vec<FieldDefinition>>, _>(
                ParseError::Corrupted,
            ),
            DefOutcome::Present => result matches Ok(Some(defs)) && spec_defs_match(
                spec_raw_view(*raw),
                defs@,
            ),
        },
{
    if raw.is_empty() {
        return Ok(None);
    }
    let names = match parse_names(raw.names.as_ref()) {
        Ok(n) => n,
        Err(e) => {
            return Err(e);
        },
    };
    let predictors = match parse_predictors(raw.predictors.as_ref()) {
        Ok(p) => p,
        Err(e) => {
            return Err(e);
        },
    };
    let encodings = match parse_encodings(raw.encodings.as_ref()) {
        Ok(es) => es,
        Err(e) => {
            return Err(e);
        },
    };
    let signs = match parse_signs(raw.signs.as_ref()) {
        Ok(s) => s,
        Err(e) => {
            return Err(e);
        },
    };
    let n: usize = names.len();
    if predictors.len() != n || encodings.len() != n || signs.len() != n {
        return Err(ParseError::Corrupted);
    }
    let mut defs: Vec<FieldDefinition> = Vec::new();
    let mut i: usize = 0;
    while i < n
        invariant
            0 <= i <= n,
            n == names@.len(),
            n == predictors@.len(),
            n == encodings@.len(),
            n == signs@.len(),
            raw.names matches Some(nv) && names@.len() == spec_name_list(nv@).len() && (forall|
                k: int,
            | 0 <= k < names@.len() ==> names@[k]@ == spec_name_list(nv@)[k]),
            raw.predictors matches Some(pv) && Some(predictors@) == spec_predictor_list(pv@),
            raw.encodings matches Some(ev) && Some(encodings@) == spec_encoding_list(ev@),
            raw.signs matches Some(sv) && signs@ == spec_sign_list(sv@),
            defs@.len() == i,
            forall|k: int|
                0 <= k < i ==> {
                    &&& (#[trigger] defs@[k]).name@ == names@[k]@
                    &&& defs@[k].predictor == predictors@[k]
                    &&& defs@[k].encoding == encodings@[k]
                    &&& defs@[k].signed == signs@[k]
                },
        decreases n - i,
    {
        let name_ref = vstd::slice::slice_index_get(names.as_slice(), i);
        let name = ascii::copy_range(name_ref.as_slice(), 0, name_ref.len());
        defs.push(
            FieldDefinition {
                name,
                predictor: predictors[i],
                encoding: encodings[i],
                signed: signs[i],
            },
        );
        i = i + 1;
    }
    Ok(Some(defs))
}

/// Finds the first intra field named `motor[0]`.
fn find_motor_0(defs: &Vec<FieldDefinition>) -> (result: Option<usize>)
    ensures
        match result {
            Some(i) => {
                &&& i < defs@.len()
                &&& defs@[i as int].name@ == spec_motor_0_name()
                &&& forall|j: int| 0 <= j < i ==> defs@[j].name@ != spec_motor_0_name()
            },
            None => forall|j: int|
                0 <= j < defs@.len() ==> defs@[j].name@ != spec_motor_0_name(),
        },
{
    let target = motor_0_name();
    let mut i: usize = 0;
    while i < defs.len()
        invariant
            0 <= i <= defs@.len(),
            target@ == spec_motor_0_name(),
            forall|j: int| 0 <= j < i ==> defs@[j].name@ != spec_motor_0_name(),
        decreases defs@.len() - i,
    {
        let def = vstd::slice::slice_index_get(defs.as_slice(), i);
        if ascii::bytes_eq(def.name.as_slice(), target.as_slice()) {
            return Some(i);
        }
        i = i + 1;
    }
    None
}

/// Reads a small decimal header value.
fn parse_u16(v: &Vec<u8>) -> (result: ParseResult<u16>)
    ensures
        match ascii::spec_parse_dec(v@) {
            Some(n) => if n <= u16::MAX {
                result == Ok::<u16, ParseError>(n as u16)
            } else {
                result == Err::<u16, _>(ParseError::Corrupted)
            },
            None => result == Err::<u16, _>(ParseError::Corrupted),
        },
{
    match ascii::parse_dec(v.as_slice()) {
        Some(n) => if n <= u16::MAX as u32 {
            Ok(n as u16)
        } else {
            Err(ParseError::Corrupted)
        },
        None => Err(ParseError::Corrupted),
    }
}

impl Headers {
    /// Parses the header block at the start of `data`: every leading line
    /// of the form `H <key>:<value>`. Returns the headers and the offset
    /// of the frame section. Recognized keys fill the typed fields; the
    /// rest are kept verbatim. A missing required header, an unreadable
    /// number, an incomplete field definition table or a key without a
    /// colon is corruption; only an unrecognized `Firmware revision` or
    /// `Data version` value gets its own error.
    #[verifier::rlimit(100)]
    #[verifier::spinoff_prover]
    pub fn parse(data: &[u8]) -> (result: ParseResult<(Headers, usize)>)
        ensures
            match result {
                Ok((h, off)) => {
                    &&& h.wf()
                    &&& off == spec_block_end(data@, 0)
                    &&& off <= data@.len()
                    &&& spec_firmware_kind(h.firmware_revision@) == Some(h.firmware_kind)
                },
                Err(_) => true,
            },
            data@.len() == 0 ==> result == Err::<(Headers, usize), _>(ParseError::Corrupted),
            match spec_collect(data@, 0, spec_lines_empty()) {
                Ok((lines, off)) => match spec_build_error(lines) {
                    Some(he) => result matches Err(e) && spec_header_error_matches(he, e),
                    None => result matches Ok((h, o)) && o == off && spec_headers_match(
                        lines,
                        h,
                    ),
                },
                Err(e) => result == Err::<(Headers, usize), _>(e),
            },
    {
        let n: usize = data.len();
        let mut pos: usize = 0;
        let mut c = Collected::new();
        loop
            invariant
                n == data@.len(),
                0 <= pos <= n,
                spec_block_end(data@, 0) == spec_block_end(data@, pos as int),
                n == 0 ==> c.firmware_revision is None,
                spec_collect(data@, 0, spec_lines_empty()) == spec_collect(
                    data@,
                    pos as int,
                    spec_collected_view(c),
                ),
            ensures
                n == 0 ==> c.firmware_revision is None,
                0 <= pos <= n,
                n == data@.len(),
                spec_block_end(data@, 0) == pos as int,
                spec_collect(data@, 0, spec_lines_empty()) == Ok::<
                    (HeaderLinesModel, int),
                    ParseError,
                >((spec_collected_view(c), pos as int)),
            decreases n - pos,
        {
            if pos >= n || pos + 1 >= n || *vstd::slice::slice_index_get(data, pos)
                != ascii::LETTER_H || *vstd::slice::slice_index_get(data, pos + 1)
                != ascii::SPACE {
                proof {
                    assert(spec_block_end(data@, pos as int) == pos as int);
                    assert(spec_collect(data@, pos as int, spec_collected_view(c)) == Ok::<
                        (HeaderLinesModel, int),
                        ParseError,
                    >((spec_collected_view(c), pos as int)));
                }
                break ;
            }
            let ghost pos0 = pos as int;
            let ghost m0 = spec_collected_view(c);
            proof {
                ascii::lemma_find_byte(data@, pos + 2, ascii::NEWLINE);
            }
            let line_end: usize = match ascii::find_byte(data, pos + 2, ascii::NEWLINE) {
                Some(nl) => nl,
                None => n,
            };
            let line = vstd::slice::slice_subrange(data, pos + 2, line_end);
            proof {
                ascii::lemma_find_byte(line@, 0, ascii::COLON);
            }
            let colon: usize = match ascii::find_byte(line, 0, ascii::COLON) {
                Some(col) => col,
                None => {
                    return Err(ParseError::Corrupted);
                },
            };
            let key = vstd::slice::slice_subrange(line, 0, colon);
            let value = ascii::trim(vstd::slice::slice_subrange(line, colon + 1, line.len()));
            let ghost key_s = key@;
            let ghost value_s = value@;
            c.store(key, value);
            if line_end >= n {
                pos = n;
            } else {
                pos = line_end + 1;
            }
            proof {
                assert(line@ == data@.subrange(pos0 + 2, line_end as int));
                assert(key_s == line@.subrange(0, colon as int));
                assert(value_s == ascii::spec_trimmed(
                    line@.subrange(colon + 1, line@.len() as int),
                ));
                assert(spec_collect(data@, pos0, m0) == spec_collect(
                    data@,
                    pos as int,
                    spec_lines_update(m0, key_s, value_s),
                ));
            }
        }
        // The textual block is behind; what was collected becomes the
        // typed header table.
        let ghost lines = spec_collected_view(c);
        let Collected {
            product,
            data_version,
            firmware_type,
            firmware_revision,
            firmware_date,
            craft_name,
            min_throttle,
            max_throttle,
            motor_output,
            vbat_reference,
            acceleration_1g,
            gyro_scale,
            intra: intra_raw,
            inter: inter_raw,
            slow: slow_raw,
            gps: gps_raw,
            gps_home: gps_home_raw,
            unknown,
        } = c;
        let revision = match firmware_revision {
            Some(v) => v,
            None => {
                return Err(ParseError::Corrupted);
            },
        };
        let firmware_kind = match detect_firmware_kind(revision.as_slice()) {
            Some(k) => k,
            None => {
                return Err(ParseError::UnknownFirmware(revision));
            },
        };
        let version_value = match data_version {
            Some(v) => v,
            None => {
                return Err(ParseError::Corrupted);
            },
        };
        let version_is_1 = version_value.len() == 1 && *vstd::slice::slice_index_get(
            version_value.as_slice(),
            0,
        ) == ascii::DIGIT_ZERO + 1;
        let version_is_2 = version_value.len() == 1 && *vstd::slice::slice_index_get(
            version_value.as_slice(),
            0,
        ) == ascii::DIGIT_ZERO + 2;
        proof {
            if version_is_1 {
                assert(version_value@ =~= seq![(ascii::DIGIT_ZERO + 1) as u8]);
            }
            if version_is_2 {
                assert(version_value@ =~= seq![(ascii::DIGIT_ZERO + 2) as u8]);
            }
        }
        let version = if version_is_1 {
            DataVersion::V1
        } else if version_is_2 {
            DataVersion::V2
        } else {
            return Err(ParseError::UnsupportedVersion(version_value));
        };
        let min_throttle = match min_throttle {
            Some(v) => match parse_u16(&v) {
                Ok(x) => x,
                Err(e) => {
                    return Err(e);
                },
            },
            None => {
                return Err(ParseError::Corrupted);
            },
        };
        let max_throttle = match max_throttle {
            Some(v) => match parse_u16(&v) {
                Ok(x) => Some(x),
                Err(e) => {
                    return Err(e);
                },
            },
            None => None,
        };
        let motor_output_range = match motor_output {
            Some(v) => {
                let parts = ascii::split_commas(v.as_slice());
                if parts.len() != 2 {
                    return Err(ParseError::Corrupted);
                }
                let lo = ascii::trim(
                    vstd::slice::slice_index_get(parts.as_slice(), 0).as_slice(),
                );
                let hi = ascii::trim(
                    vstd::slice::slice_index_get(parts.as_slice(), 1).as_slice(),
                );
                let min = match parse_u16(&lo) {
                    Ok(x) => x,
                    Err(e) => {
                        return Err(e);
                    },
                };
                let max = match parse_u16(&hi) {
                    Ok(x) => x,
                    Err(e) => {
                        return Err(e);
                    },
                };
                MotorOutputRange { min, max }
            },
            None => {
                return Err(ParseError::Corrupted);
            },
        };
        let vbat_reference = match vbat_reference {
            Some(v) => match parse_u16(&v) {
                Ok(x) => x,
                Err(e) => {
                    return Err(e);
                },
            },
            None => {
                return Err(ParseError::Corrupted);
            },
        };
        let acceleration_1g = match acceleration_1g {
            Some(v) => match parse_u16(&v) {
                Ok(x) => Some(x),
                Err(e) => {
                    return Err(e);
                },
            },
            None => None,
        };
        let gyro_scale_bits = match gyro_scale {
            Some(v) => {
                if v.len() < 2 || *vstd::slice::slice_index_get(v.as_slice(), 0)
                    != ascii::DIGIT_ZERO || *vstd::slice::slice_index_get(v.as_slice(), 1)
                    != 120 {
                    return Err(ParseError::Corrupted);
                }
                match ascii::parse_hex(vstd::slice::slice_subrange(v.as_slice(), 2, v.len())) {
                    Some(bits) => Some(bits),
                    None => {
                        return Err(ParseError::Corrupted);
                    },
                }
            },
            None => None,
        };
        let intra_fields = match build_def(&intra_raw) {
            Ok(Some(defs)) => defs,
            Ok(None) => {
                return Err(ParseError::Corrupted);
            },
            Err(e) => {
                return Err(e);
            },
        };
        let inter_fields = match build_def(&inter_raw) {
            Ok(d) => d,
            Err(e) => {
                return Err(e);
            },
        };
        let slow_fields = match build_def(&slow_raw) {
            Ok(d) => d,
            Err(e) => {
                return Err(e);
            },
        };
        let gps_fields = match build_def(&gps_raw) {
            Ok(d) => d,
            Err(e) => {
                return Err(e);
            },
        };
        let gps_home_fields = match build_def(&gps_home_raw) {
            Ok(d) => d,
            Err(e) => {
                return Err(e);
            },
        };
        let motor_0_index = find_motor_0(&intra_fields);
        let headers = Headers {
            firmware_kind,
            firmware_revision: revision,
            firmware_type,
            firmware_date,
            product,
            craft_name,
            data_version: version,
            min_throttle,
            max_throttle,
            motor_output_range,
            vbat_reference,
            acceleration_1g,
            gyro_scale_bits,
            intra_fields,
            inter_fields,
            slow_fields,
            gps_fields,
            gps_home_fields,
            motor_0_index,
            unknown,
        };
        proof {
            assert(spec_build_error(lines) is None);
            assert(spec_headers_match(lines, headers));
        }
        Ok((headers, pos))
    }
}

} // verus!
