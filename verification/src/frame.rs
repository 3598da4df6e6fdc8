//! Decoding one frame: walking the field definition table, batching
//! adjacent fields that share a tagged encoding, decoding the raw values,
//! and applying the predictors to reconstruct absolute values.

use vstd::prelude::*;

use crate::elias::{
    elias_delta, elias_delta_signed, elias_gamma, elias_gamma_signed, spec_elias_delta,
    spec_elias_delta_signed, spec_elias_gamma, spec_elias_gamma_signed,
};
use crate::encoding::Encoding;
use crate::headers::{FieldDefinition, Headers};
use crate::parser::{ParseError, ParseResult};
use crate::predictor::spec_apply;
use crate::reader::{spec_align8, Reader};
use crate::tagged::{spec_tagged_16, spec_tagged_32, tagged_16, tagged_32};
use crate::variable::{
    negative_14_bit, spec_negative_14_bit, spec_tagged_variable, spec_variable,
    spec_variable_signed, tagged_variable, variable, variable_signed,
};

verus! {

/// The bit patterns of a batch of signed values.
pub open spec fn spec_as_u32s(values: Seq<i32>) -> Seq<u32> {
    values.map_values(|v: i32| v as u32)
}

/// One decoder call at bit position `pos`: the values it emits and the bit
/// position after it. Byte-aligned encodings first flush to the next byte
/// boundary; the Elias family reads bits in place. `extra` is the number
/// of additional same-encoding fields batched into the call; only the
/// tagged-variable batch reads it, the other tagged encodings emit their
/// fixed count and the rest emit one value.
pub open spec fn spec_chunk(data: Seq<u8>, pos: int, e: Encoding, extra: int) -> ParseResult<
    (Seq<u32>, int),
> {
    let p = spec_align8(pos) / 8;
    match e {
        Encoding::Variable => match spec_variable(data, p) {
            Ok((v, next)) => Ok((seq![v], 8 * next)),
            Err(err) => Err(err),
        },
        Encoding::VariableSigned => match spec_variable_signed(data, p) {
            Ok((v, next)) => Ok((seq![v as u32], 8 * next)),
            Err(err) => Err(err),
        },
        Encoding::Negative14Bit => match spec_negative_14_bit(data, p) {
            Ok((v, next)) => Ok((seq![v as u32], 8 * next)),
            Err(err) => Err(err),
        },
        Encoding::EliasDelta => match spec_elias_delta(data, pos) {
            Ok((v, next)) => Ok((seq![v], next)),
            Err(err) => Err(err),
        },
        Encoding::EliasDeltaSigned => match spec_elias_delta_signed(data, pos) {
            Ok((v, next)) => Ok((seq![v as u32], next)),
            Err(err) => Err(err),
        },
        Encoding::EliasGamma => match spec_elias_gamma(data, pos) {
            Ok((v, next)) => Ok((seq![v], next)),
            Err(err) => Err(err),
        },
        Encoding::EliasGammaSigned => match spec_elias_gamma_signed(data, pos) {
            Ok((v, next)) => Ok((seq![v as u32], next)),
            Err(err) => Err(err),
        },
        Encoding::Tagged16 => match spec_tagged_16(data, p) {
            Ok((vs, next)) => Ok((spec_as_u32s(vs), 8 * next)),
            Err(err) => Err(err),
        },
        Encoding::Tagged32 => match spec_tagged_32(data, p) {
            Ok((vs, next)) => Ok((spec_as_u32s(vs), 8 * next)),
            Err(err) => Err(err),
        },
        Encoding::TaggedVariable => match spec_tagged_variable(data, p, extra + 1) {
            Ok((vs, next)) => Ok((spec_as_u32s(vs), 8 * next)),
            Err(err) => Err(err),
        },
        Encoding::Null => Ok((seq![0u32], pos)),
    }
}

/// Appends the bit patterns of signed values to the sink.
fn push_as_u32s(values: &mut Vec<u32>, vs: &Vec<i32>)
    ensures
        final(values)@ == old(values)@ + spec_as_u32s(vs@),
{
    let ghost prefix = old(values)@;
    let mut j: usize = 0;
    while j < vs.len()
        invariant
            0 <= j <= vs@.len(),
            values@ == prefix + spec_as_u32s(vs@).subrange(0, j as int),
        decreases vs@.len() - j,
    {
        values.push((*vstd::slice::slice_index_get(vs.as_slice(), j)) as u32);
        proof {
            assert(values@ =~= prefix + spec_as_u32s(vs@).subrange(0, j + 1));
        }
        j = j + 1;
    }
    proof {
        assert(spec_as_u32s(vs@).subrange(0, vs@.len() as int) =~= spec_as_u32s(vs@));
    }
}

impl Encoding {
    /// Runs one decoder call for this encoding, appending the emitted
    /// values to `values`.
    #[verifier::rlimit(100)]
    pub fn decode_into(self, data: &mut Reader, extra: usize, values: &mut Vec<u32>) -> (result:
        ParseResult<()>)
        requires
            old(data).wf(),
            extra + 1 <= self.spec_max_chunk_size(),
        ensures
            final(data).wf(),
            final(data).spec_data() == old(data).spec_data(),
            final(data).spec_bit_pos() >= old(data).spec_bit_pos(),
            match spec_chunk(
                old(data).spec_data(),
                old(data).spec_bit_pos(),
                self,
                extra as int,
            ) {
                Ok((vs, nbp)) => result is Ok && final(values)@ == old(values)@ + vs
                    && final(data).spec_bit_pos() == nbp,
                Err(e) => result == Err::<(), _>(e),
            },
    {
        match self {
            Encoding::Variable => match variable(data) {
                Ok(v) => {
                    values.push(v);
                    proof {
                        let vs = spec_chunk(
                            old(data).spec_data(),
                            old(data).spec_bit_pos(),
                            self,
                            extra as int,
                        )->Ok_0.0;
                        assert(values@ =~= old(values)@ + vs);
                    }
                    Ok(())
                },
                Err(e) => Err(e),
            },
            Encoding::VariableSigned => match variable_signed(data) {
                Ok(v) => {
                    values.push(v as u32);
                    proof {
                        let vs = spec_chunk(
                            old(data).spec_data(),
                            old(data).spec_bit_pos(),
                            self,
                            extra as int,
                        )->Ok_0.0;
                        assert(values@ =~= old(values)@ + vs);
                    }
                    Ok(())
                },
                Err(e) => Err(e),
            },
            Encoding::Negative14Bit => match negative_14_bit(data) {
                Ok(v) => {
                    values.push(v as u32);
                    proof {
                        let vs = spec_chunk(
                            old(data).spec_data(),
                            old(data).spec_bit_pos(),
                            self,
                            extra as int,
                        )->Ok_0.0;
                        assert(values@ =~= old(values)@ + vs);
                    }
                    Ok(())
                },
                Err(e) => Err(e),
            },
            Encoding::EliasDelta => match elias_delta(data) {
                Ok(v) => {
                    values.push(v);
                    proof {
                        let vs = spec_chunk(
                            old(data).spec_data(),
                            old(data).spec_bit_pos(),
                            self,
                            extra as int,
                        )->Ok_0.0;
                        assert(values@ =~= old(values)@ + vs);
                    }
                    Ok(())
                },
                Err(e) => Err(e),
            },
            Encoding::EliasDeltaSigned => match elias_delta_signed(data) {
                Ok(v) => {
                    values.push(v as u32);
                    proof {
                        let vs = spec_chunk(
                            old(data).spec_data(),
                            old(data).spec_bit_pos(),
                            self,
                            extra as int,
                        )->Ok_0.0;
                        assert(values@ =~= old(values)@ + vs);
                    }
                    Ok(())
                },
                Err(e) => Err(e),
            },
            Encoding::EliasGamma => match elias_gamma(data) {
                Ok(v) => {
                    values.push(v);
                    proof {
                        let vs = spec_chunk(
                            old(data).spec_data(),
                            old(data).spec_bit_pos(),
                            self,
                            extra as int,
                        )->Ok_0.0;
                        assert(values@ =~= old(values)@ + vs);
                    }
                    Ok(())
                },
                Err(e) => Err(e),
            },
            Encoding::EliasGammaSigned => match elias_gamma_signed(data) {
                Ok(v) => {
                    values.push(v as u32);
                    proof {
                        let vs = spec_chunk(
                            old(data).spec_data(),
                            old(data).spec_bit_pos(),
                            self,
                            extra as int,
                        )->Ok_0.0;
                        assert(values@ =~= old(values)@ + vs);
                    }
                    Ok(())
                },
                Err(e) => Err(e),
            },
            Encoding::Tagged16 => match tagged_16(data) {
                Ok(vs) => {
                    push_as_u32s(values, &vs);
                    Ok(())
                },
                Err(e) => Err(e),
            },
            Encoding::Tagged32 => match tagged_32(data) {
                Ok(vs) => {
                    push_as_u32s(values, &vs);
                    Ok(())
                },
                Err(e) => Err(e),
            },
            Encoding::TaggedVariable => match tagged_variable(data, extra) {
                Ok(vs) => {
                    push_as_u32s(values, &vs);
                    Ok(())
                },
                Err(e) => Err(e),
            },
            Encoding::Null => {
                values.push(0);
                proof {
                    assert(values@ =~= old(values)@ + seq![0u32]);
                }
                Ok(())
            },
        }
    }
}

/// The encodings of a field definition table, in order.
pub open spec fn spec_encodings(defs: Seq<FieldDefinition>) -> Seq<Encoding> {
    defs.map_values(|f: FieldDefinition| f.encoding)
}

/// How many fields directly after `j` share the encoding `e`, counting at
/// most `max`.
pub open spec fn spec_count_same(encs: Seq<Encoding>, j: int, e: Encoding, max: int) -> nat
    decreases max,
{
    if max <= 0 || !(0 <= j < encs.len()) || encs[j] != e {
        0
    } else {
        (1 + spec_count_same(encs, j + 1, e, max - 1)) as nat
    }
}

/// Counts the run of fields from `start` on that share `encoding`, capped
/// at `max`: they are batched into the decoder call for the field before
/// them.
pub fn count_fields_with_same_encoding(
    fields: &Vec<FieldDefinition>,
    start: usize,
    max: usize,
    encoding: Encoding,
) -> (extra: usize)
    requires
        start <= fields@.len(),
    ensures
        extra == spec_count_same(spec_encodings(fields@), start as int, encoding, max as int),
        start + extra <= fields@.len(),
        extra <= max,
{
    let n: usize = fields.len();
    let mut extra: usize = 0;
    while extra < max && start + extra < n && fields[start + extra].encoding == encoding
        invariant
            n == fields@.len(),
            start + extra <= fields@.len(),
            extra <= max,
            spec_count_same(spec_encodings(fields@), start as int, encoding, max as int)
                == extra + spec_count_same(
                spec_encodings(fields@),
                start + extra,
                encoding,
                max - extra,
            ),
        decreases max - extra,
    {
        extra = extra + 1;
    }
    extra
}

/// The raw values of one frame: every field decoded in order, adjacent
/// same-encoding fields batched up to the encoding's chunk size, starting
/// at field `i` and bit position `pos`.
pub open spec fn spec_read_values(data: Seq<u8>, pos: int, encs: Seq<Encoding>, i: int) -> ParseResult<(Seq<u32>, int)>
    decreases encs.len() - i,
{
    if !(0 <= i < encs.len()) {
        Ok((Seq::empty(), pos))
    } else {
        let e = encs[i];
        let extra = spec_count_same(encs, i + 1, e, e.spec_max_chunk_size() - 1);
        let next_i = if i + 1 + extra <= encs.len() {
            i + 1 + extra
        } else {
            encs.len() as int
        };
        match spec_chunk(data, pos, e, extra as int) {
            Ok((vs, nbp)) => match spec_read_values(data, nbp, encs, next_i) {
                Ok((rest, end)) => Ok((vs + rest, end)),
                Err(err) => Err(err),
            },
            Err(err) => Err(err),
        }
    }
}

/// Decodes the raw values of one frame. The emitted vector must line up
/// one to one with the field table; a tagged batch that emits more or
/// fewer values than it covers fields is corruption.
pub fn read_field_values(data: &mut Reader, fields: &Vec<FieldDefinition>) -> (result: ParseResult<
    Vec<u32>,
>)
    requires
        old(data).wf(),
    ensures
        final(data).wf(),
        final(data).spec_data() == old(data).spec_data(),
        final(data).spec_bit_pos() >= old(data).spec_bit_pos(),
        match spec_read_values(
            old(data).spec_data(),
            old(data).spec_bit_pos(),
            spec_encodings(fields@),
            0,
        ) {
            Ok((vs, nbp)) => if vs.len() == fields@.len() {
                &&& result matches Ok(v) && v@ == vs
                &&& final(data).spec_bit_pos() == nbp
            } else {
                result == Err::<Vec<u32>, _>(ParseError::Corrupted)
            },
            Err(e) => result == Err::<Vec<u32>, _>(e),
        },
{
    let ghost d = old(data).spec_data();
    let ghost bp0 = old(data).spec_bit_pos();
    let ghost encs = spec_encodings(fields@);
    let mut values: Vec<u32> = Vec::new();
    let mut i: usize = 0;
    proof {
        let whole = spec_read_values(d, bp0, encs, 0);
        if whole is Ok {
            assert(Seq::<u32>::empty() + whole->Ok_0.0 =~= whole->Ok_0.0);
        }
    }
    while i < fields.len()
        invariant
            data.wf(),
            data.spec_data() == d,
            d == old(data).spec_data(),
            bp0 == old(data).spec_bit_pos(),
            data.spec_bit_pos() >= bp0,
            encs == spec_encodings(fields@),
            0 <= i <= fields@.len(),
            spec_read_values(d, bp0, encs, 0) == match spec_read_values(
                d,
                data.spec_bit_pos(),
                encs,
                i as int,
            ) {
                Ok((rest, end)) => Ok::<_, ParseError>((values@ + rest, end)),
                Err(e) => Err::<(Seq<u32>, int), _>(e),
            },
        decreases fields@.len() - i,
    {
        let encoding = fields[i].encoding;
        let max = encoding.max_chunk_size();
        let extra = count_fields_with_same_encoding(fields, i + 1, max - 1, encoding);
        let ghost cur0 = data.spec_bit_pos();
        let ghost prefix = values@;
        match encoding.decode_into(data, extra, &mut values) {
            Ok(()) => {
                proof {
                    let chunk = spec_chunk(d, cur0, encoding, extra as int);
                    let rest_spec = spec_read_values(
                        d,
                        data.spec_bit_pos(),
                        encs,
                        i + 1 + extra,
                    );
                    if rest_spec is Ok {
                        assert(values@ + rest_spec->Ok_0.0 =~= prefix + (chunk->Ok_0.0
                            + rest_spec->Ok_0.0));
                    }
                }
            },
            Err(e) => {
                return Err(e);
            },
        }
        i = i + 1 + extra;
    }
    proof {
        assert(values@ + Seq::<u32>::empty() =~= values@);
    }
    if values.len() != fields.len() {
        return Err(ParseError::Corrupted);
    }
    Ok(values)
}

/// The per-field history a frame may draw on: the value the same field
/// position took in an earlier frame, when there was one long enough.
pub open spec fn spec_history_at(h: Option<Seq<u32>>, i: int) -> Option<u32> {
    match h {
        Some(s) => if 0 <= i < s.len() {
            Some(s[i])
        } else {
            None
        },
        None => None,
    }
}

/// The view of an optional history vector.
pub open spec fn spec_opt_view(h: Option<Vec<u32>>) -> Option<Seq<u32>> {
    match h {
        Some(v) => Some(v@),
        None => None,
    }
}

/// The absolute values of one frame, built left to right from field `i`
/// on: each field's predictor is applied to its raw delta, consulting the
/// absolute values `acc` already built for this frame and the per-field
/// history of the last and one-before-last frame.
pub open spec fn spec_apply_frame(
    headers: Headers,
    defs: Seq<FieldDefinition>,
    raw: Seq<u32>,
    last: Option<Seq<u32>>,
    last_last: Option<Seq<u32>>,
    skipped_frames: u32,
    i: int,
    acc: Seq<u32>,
) -> ParseResult<Seq<u32>>
    decreases raw.len() - i,
{
    if !(0 <= i < raw.len() && i < defs.len()) {
        Ok(acc)
    } else {
        match spec_apply(
            defs[i].predictor,
            headers,
            raw[i],
            defs[i].signed,
            acc,
            spec_history_at(last, i),
            spec_history_at(last_last, i),
            skipped_frames,
        ) {
            Ok(v) => spec_apply_frame(
                headers,
                defs,
                raw,
                last,
                last_last,
                skipped_frames,
                i + 1,
                acc.push(v),
            ),
            Err(e) => Err(e),
        }
    }
}

/// Applies the predictors of a frame's fields to its raw values.
pub fn apply_frame(
    headers: &Headers,
    defs: &Vec<FieldDefinition>,
    raw: &Vec<u32>,
    last: &Option<Vec<u32>>,
    last_last: &Option<Vec<u32>>,
    skipped_frames: u32,
) -> (result: ParseResult<Vec<u32>>)
    requires
        raw@.len() == defs@.len(),
    ensures
        match spec_apply_frame(
            *headers,
            defs@,
            raw@,
            spec_opt_view(*last),
            spec_opt_view(*last_last),
            skipped_frames,
            0,
            Seq::empty(),
        ) {
            Ok(s) => result matches Ok(v) && v@ == s,
            Err(e) => result == Err::<Vec<u32>, _>(e),
        },
{
    let mut current: Vec<u32> = Vec::new();
    let mut i: usize = 0;
    while i < raw.len()
        invariant
            raw@.len() == defs@.len(),
            0 <= i <= raw@.len(),
            current@.len() == i,
            spec_apply_frame(
                *headers,
                defs@,
                raw@,
                spec_opt_view(*last),
                spec_opt_view(*last_last),
                skipped_frames,
                0,
                Seq::empty(),
            ) == spec_apply_frame(
                *headers,
                defs@,
                raw@,
                spec_opt_view(*last),
                spec_opt_view(*last_last),
                skipped_frames,
                i as int,
                current@,
            ),
        decreases raw@.len() - i,
    {
        let pred = defs[i].predictor;
        let signed = defs[i].signed;
        let value = raw[i];
        let last_i: Option<u32> = match last {
            Some(v) => if i < v.len() {
                Some(v[i])
            } else {
                None
            },
            None => None,
        };
        let last_last_i: Option<u32> = match last_last {
            Some(v) => if i < v.len() {
                Some(v[i])
            } else {
                None
            },
            None => None,
        };
        match pred.apply(
            headers,
            value,
            signed,
            current.as_slice(),
            last_i,
            last_last_i,
            skipped_frames,
        ) {
            Ok(v) => {
                current.push(v);
            },
            Err(e) => {
                return Err(e);
            },
        }
        i = i + 1;
    }
    Ok(current)
}

/// What a frame consumes is the sum of what its decoder calls consume:
/// the first chunk's consumption plus, inductively, the consumption of
/// the chunks after it.
pub proof fn lemma_read_values_consumption(data: Seq<u8>, pos: int, encs: Seq<Encoding>, i: int)
    ensures
        spec_read_values(data, pos, encs, i) matches Ok((vs, end)) ==> if 0 <= i < encs.len() {
            let e = encs[i];
            let extra = spec_count_same(encs, i + 1, e, e.spec_max_chunk_size() - 1);
            let next_i = if i + 1 + extra <= encs.len() {
                i + 1 + extra
            } else {
                encs.len() as int
            };
            &&& spec_chunk(data, pos, e, extra as int) is Ok
            &&& spec_read_values(data, spec_chunk(data, pos, e, extra as int)->Ok_0.1, encs, next_i)
                is Ok
            &&& end - pos == (spec_chunk(data, pos, e, extra as int)->Ok_0.1 - pos) + (end
                - spec_chunk(data, pos, e, extra as int)->Ok_0.1)
        } else {
            end == pos
        },
{
}

} // verus!
