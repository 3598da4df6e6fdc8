//! The tagged encodings: one header byte announces the widths of a small
//! batch of signed fields that follow it.

use vstd::prelude::*;

use crate::encoding::{spec_sign_extend, sign_extend};
use crate::parser::{ParseError, ParseResult};
use crate::reader::Reader;

verus! {

/// One slot of a tagged-16 batch, selected by its two-bit tag: 0 is the
/// constant zero, 1 a four-bit nibble (two to a byte, the low nibble
/// handed out first, the high one kept pending for the next such slot),
/// 2 a signed byte, 3 a signed 16-bit little-endian value. Yields the
/// value, the next position and the pending nibble left over.
pub open spec fn spec_tagged_16_slot(data: Seq<u8>, pos: int, t: u8, pending: Option<u8>) -> ParseResult<(i32, int, Option<u8>)> {
    if t == 0 {
        Ok((0i32, pos, pending))
    } else if t == 1 {
        match pending {
            Some(nib) => Ok((spec_sign_extend(4, nib as u32), pos, None::<u8>)),
            None => if 0 <= pos < data.len() {
                Ok(
                    (
                        spec_sign_extend(4, (data[pos] & 0x0f) as u32),
                        pos + 1,
                        Some((data[pos] >> 4) as u8),
                    ),
                )
            } else {
                Err(ParseError::UnexpectedEof)
            },
        }
    } else if t == 2 {
        if 0 <= pos < data.len() {
            Ok((spec_sign_extend(8, data[pos] as u32), pos + 1, pending))
        } else {
            Err(ParseError::UnexpectedEof)
        }
    } else {
        if 0 <= pos && pos + 2 <= data.len() {
            Ok(
                (
                    spec_sign_extend(16, (data[pos] + 256 * data[pos + 1]) as u32),
                    pos + 2,
                    pending,
                ),
            )
        } else {
            Err(ParseError::UnexpectedEof)
        }
    }
}

/// The tagged-16 slots from `s` on, with the two-bit tags packed into
/// `tag` lowest tag first.
pub open spec fn spec_tagged_16_slots(
    data: Seq<u8>,
    pos: int,
    tag: u8,
    s: int,
    pending: Option<u8>,
) -> ParseResult<(Seq<i32>, int)>
    decreases 4 - s,
{
    if s >= 4 {
        Ok((Seq::empty(), pos))
    } else {
        match spec_tagged_16_slot(data, pos, (tag >> ((2 * s) as u8)) & 3, pending) {
            Ok((v, next, p2)) => match spec_tagged_16_slots(data, next, tag, s + 1, p2) {
                Ok((rest, end)) => Ok((seq![v] + rest, end)),
                Err(e) => Err(e),
            },
            Err(e) => Err(e),
        }
    }
}

/// The tagged-16 batch at byte `pos`: a tag byte, then the four slots it
/// announces. Always four values.
pub open spec fn spec_tagged_16(data: Seq<u8>, pos: int) -> ParseResult<(Seq<i32>, int)> {
    if 0 <= pos < data.len() {
        spec_tagged_16_slots(data, pos + 1, data[pos], 0, None)
    } else {
        Err(ParseError::UnexpectedEof)
    }
}

/// Decodes one tagged-16 batch: exactly four signed values.
pub fn tagged_16(data: &mut Reader) -> (result: ParseResult<Vec<i32>>)
    requires
        old(data).wf(),
    ensures
        final(data).wf(),
        final(data).spec_data() == old(data).spec_data(),
        final(data).spec_bit_pos() >= old(data).spec_bit_pos(),
        match spec_tagged_16(old(data).spec_data(), old(data).spec_byte_pos()) {
            Ok((values, next)) => {
                &&& result matches Ok(v) && v@ == values
                &&& final(data).spec_aligned()
                &&& final(data).spec_byte_pos() == next
            },
            Err(e) => result == Err::<Vec<i32>, _>(e),
        },
{
    let ghost d = old(data).spec_data();
    let ghost pos0 = old(data).spec_byte_pos();
    let tag: u8 = match data.read_byte() {
        Some(b) => b,
        None => {
            return Err(ParseError::UnexpectedEof);
        },
    };
    let mut values: Vec<i32> = Vec::new();
    let mut pending: Option<u8> = None;
    let mut s: usize = 0;
    proof {
        let whole = spec_tagged_16_slots(d, pos0 + 1, tag, 0, None);
        if whole is Ok {
            assert(Seq::<i32>::empty() + whole->Ok_0.0 =~= whole->Ok_0.0);
        }
    }
    loop
        invariant
            data.wf(),
            data.spec_aligned(),
            data.spec_bit_pos() >= old(data).spec_bit_pos(),
            data.spec_data() == d,
            d == old(data).spec_data(),
            pos0 == old(data).spec_byte_pos(),
            0 <= s <= 4,
            values@.len() == s,
            spec_tagged_16(d, pos0) == match spec_tagged_16_slots(
                d,
                data.spec_byte_pos(),
                tag,
                s as int,
                pending,
            ) {
                Ok((rest, end)) => Ok::<_, ParseError>((values@ + rest, end)),
                Err(e) => Err::<(Seq<i32>, int), _>(e),
            },
        decreases 4 - s,
    {
        if s >= 4 {
            proof {
                assert(values@ + Seq::<i32>::empty() =~= values@);
            }
            return Ok(values);
        }
        let t: u8 = (tag >> ((2 * s) as u8)) & 3;
        let ghost cur0 = data.spec_byte_pos();
        let ghost prefix = values@;
        let ghost pending0 = pending;
        let v: i32 = if t == 0 {
            0
        } else if t == 1 {
            match pending {
                Some(nib) => {
                    pending = None;
                    sign_extend::<4>(nib as u32)
                },
                None => {
                    match data.read_byte() {
                        Some(b) => {
                            pending = Some(b >> 4);
                            sign_extend::<4>((b & 0x0f) as u32)
                        },
                        None => {
                            return Err(ParseError::UnexpectedEof);
                        },
                    }
                },
            }
        } else if t == 2 {
            match data.read_byte() {
                Some(b) => sign_extend::<8>(b as u32),
                None => {
                    return Err(ParseError::UnexpectedEof);
                },
            }
        } else {
            let b0: u8 = match data.read_byte() {
                Some(b) => b,
                None => {
                    return Err(ParseError::UnexpectedEof);
                },
            };
            let b1: u8 = match data.read_byte() {
                Some(b) => b,
                None => {
                    return Err(ParseError::UnexpectedEof);
                },
            };
            sign_extend::<16>((b0 as u32) + 256 * (b1 as u32))
        };
        values.push(v);
        proof {
            let step = spec_tagged_16_slot(d, cur0, t, pending0);
            assert(step == Ok::<_, ParseError>((v, data.spec_byte_pos(), pending)));
            let rest_spec = spec_tagged_16_slots(
                d,
                data.spec_byte_pos(),
                tag,
                s + 1,
                pending,
            );
            if rest_spec is Ok {
                assert(values@ + rest_spec->Ok_0.0 =~= prefix + (seq![v] + rest_spec->Ok_0.0));
            }
        }
        s = s + 1;
    }
}

/// One field of a tagged-32 batch in its per-field form, selected by a
/// two-bit width tag: 0 is a signed byte, 1 a signed 16-bit, 2 a signed
/// 24-bit and 3 a full 32-bit value, all little-endian.
pub open spec fn spec_tagged_32_field(data: Seq<u8>, pos: int, t: u8) -> ParseResult<(i32, int)> {
    if t == 0 {
        if 0 <= pos < data.len() {
            Ok((spec_sign_extend(8, data[pos] as u32), pos + 1))
        } else {
            Err(ParseError::UnexpectedEof)
        }
    } else if t == 1 {
        if 0 <= pos && pos + 2 <= data.len() {
            Ok((spec_sign_extend(16, (data[pos] + 256 * data[pos + 1]) as u32), pos + 2))
        } else {
            Err(ParseError::UnexpectedEof)
        }
    } else if t == 2 {
        if 0 <= pos && pos + 3 <= data.len() {
            Ok(
                (
                    spec_sign_extend(
                        24,
                        (data[pos] + 256 * data[pos + 1] + 65536 * data[pos + 2]) as u32,
                    ),
                    pos + 3,
                ),
            )
        } else {
            Err(ParseError::UnexpectedEof)
        }
    } else {
        if 0 <= pos && pos + 4 <= data.len() {
            Ok(
                (
                    spec_sign_extend(
                        32,
                        (data[pos] + 256 * data[pos + 1] + 65536 * data[pos + 2] + 16777216
                            * data[pos + 3]) as u32,
                    ),
                    pos + 4,
                ),
            )
        } else {
            Err(ParseError::UnexpectedEof)
        }
    }
}

/// The three per-field tagged-32 values from field `i` on, their width
/// tags packed into the low six bits of `lead`, lowest tag first.
pub open spec fn spec_tagged_32_fields(data: Seq<u8>, pos: int, lead: u8, i: int) -> ParseResult<
    (Seq<i32>, int),
>
    decreases 3 - i,
{
    if i >= 3 {
        Ok((Seq::empty(), pos))
    } else {
        match spec_tagged_32_field(data, pos, (lead >> ((2 * i) as u8)) & 3) {
            Ok((v, next)) => match spec_tagged_32_fields(data, next, lead, i + 1) {
                Ok((rest, end)) => Ok((seq![v] + rest, end)),
                Err(e) => Err(e),
            },
            Err(e) => Err(e),
        }
    }
}

/// The tagged-32 batch at byte `pos`: the top two bits of the lead byte
/// pick a layout for three signed fields. Layout 0 packs three 2-bit
/// fields into the lead byte itself; 1 packs three 4-bit fields into the
/// lead's low nibble and one more byte; 2 takes three 6-bit fields from
/// the lead's low six bits and two more bytes; 3 gives every field its
/// own width tag in the lead's low six bits.
pub open spec fn spec_tagged_32(data: Seq<u8>, pos: int) -> ParseResult<(Seq<i32>, int)> {
    if !(0 <= pos < data.len()) {
        Err(ParseError::UnexpectedEof)
    } else {
        let lead = data[pos];
        let layout = lead >> 6;
        if layout == 0 {
            Ok(
                (
                    seq![
                        spec_sign_extend(2, ((lead >> 4) & 3) as u32),
                        spec_sign_extend(2, ((lead >> 2) & 3) as u32),
                        spec_sign_extend(2, (lead & 3) as u32),
                    ],
                    pos + 1,
                ),
            )
        } else if layout == 1 {
            if pos + 2 <= data.len() {
                Ok(
                    (
                        seq![
                            spec_sign_extend(4, (lead & 0x0f) as u32),
                            spec_sign_extend(4, (data[pos + 1] >> 4) as u32),
                            spec_sign_extend(4, (data[pos + 1] & 0x0f) as u32),
                        ],
                        pos + 2,
                    ),
                )
            } else {
                Err(ParseError::UnexpectedEof)
            }
        } else if layout == 2 {
            if pos + 3 <= data.len() {
                Ok(
                    (
                        seq![
                            spec_sign_extend(6, (lead & 0x3f) as u32),
                            spec_sign_extend(6, (data[pos + 1] & 0x3f) as u32),
                            spec_sign_extend(6, (data[pos + 2] & 0x3f) as u32),
                        ],
                        pos + 3,
                    ),
                )
            } else {
                Err(ParseError::UnexpectedEof)
            }
        } else {
            spec_tagged_32_fields(data, pos + 1, lead, 0)
        }
    }
}

/// Decodes one tagged-32 batch: exactly three signed values.
pub fn tagged_32(data: &mut Reader) -> (result: ParseResult<Vec<i32>>)
    requires
        old(data).wf(),
    ensures
        final(data).wf(),
        final(data).spec_data() == old(data).spec_data(),
        final(data).spec_bit_pos() >= old(data).spec_bit_pos(),
        match spec_tagged_32(old(data).spec_data(), old(data).spec_byte_pos()) {
            Ok((values, next)) => {
                &&& result matches Ok(v) && v@ == values
                &&& final(data).spec_aligned()
                &&& final(data).spec_byte_pos() == next
            },
            Err(e) => result == Err::<Vec<i32>, _>(e),
        },
{
    let ghost d = old(data).spec_data();
    let ghost pos0 = old(data).spec_byte_pos();
    let lead: u8 = match data.read_byte() {
        Some(b) => b,
        None => {
            return Err(ParseError::UnexpectedEof);
        },
    };
    let layout: u8 = lead >> 6;
    let mut values: Vec<i32> = Vec::new();
    if layout == 0 {
        values.push(sign_extend::<2>(((lead >> 4) & 3) as u32));
        values.push(sign_extend::<2>(((lead >> 2) & 3) as u32));
        values.push(sign_extend::<2>((lead & 3) as u32));
        proof {
            assert(values@ =~= spec_tagged_32(d, pos0)->Ok_0.0);
        }
        Ok(values)
    } else if layout == 1 {
        let b1: u8 = match data.read_byte() {
            Some(b) => b,
            None => {
                return Err(ParseError::UnexpectedEof);
            },
        };
        values.push(sign_extend::<4>((lead & 0x0f) as u32));
        values.push(sign_extend::<4>((b1 >> 4) as u32));
        values.push(sign_extend::<4>((b1 & 0x0f) as u32));
        proof {
            assert(values@ =~= spec_tagged_32(d, pos0)->Ok_0.0);
        }
        Ok(values)
    } else if layout == 2 {
        let b1: u8 = match data.read_byte() {
            Some(b) => b,
            None => {
                return Err(ParseError::UnexpectedEof);
            },
        };
        let b2: u8 = match data.read_byte() {
            Some(b) => b,
            None => {
                return Err(ParseError::UnexpectedEof);
            },
        };
        values.push(sign_extend::<6>((lead & 0x3f) as u32));
        values.push(sign_extend::<6>((b1 & 0x3f) as u32));
        values.push(sign_extend::<6>((b2 & 0x3f) as u32));
        proof {
            assert(values@ =~= spec_tagged_32(d, pos0)->Ok_0.0);
        }
        Ok(values)
    } else {
        proof {
            assert(lead >> 6 < 4) by (bit_vector);
            let whole = spec_tagged_32_fields(d, pos0 + 1, lead, 0);
            if whole is Ok {
                assert(Seq::<i32>::empty() + whole->Ok_0.0 =~= whole->Ok_0.0);
            }
        }
        let mut i: usize = 0;
        loop
            invariant
                data.wf(),
                data.spec_aligned(),
                data.spec_bit_pos() >= old(data).spec_bit_pos(),
                data.spec_data() == d,
                d == old(data).spec_data(),
                pos0 == old(data).spec_byte_pos(),
                0 <= i <= 3,
                values@.len() == i,
                lead >> 6 == 3,
                spec_tagged_32(d, pos0) == match spec_tagged_32_fields(
                    d,
                    data.spec_byte_pos(),
                    lead,
                    i as int,
                ) {
                    Ok((rest, end)) => Ok::<_, ParseError>((values@ + rest, end)),
                    Err(e) => Err::<(Seq<i32>, int), _>(e),
                },
            decreases 3 - i,
        {
            if i >= 3 {
                proof {
                    assert(values@ + Seq::<i32>::empty() =~= values@);
                }
                return Ok(values);
            }
            let t: u8 = (lead >> ((2 * i) as u8)) & 3;
            let ghost cur0 = data.spec_byte_pos();
            let ghost prefix = values@;
            let v: i32 = if t == 0 {
                match data.read_byte() {
                    Some(b) => sign_extend::<8>(b as u32),
                    None => {
                        return Err(ParseError::UnexpectedEof);
                    },
                }
            } else {
                let b0: u8 = match data.read_byte() {
                    Some(b) => b,
                    None => {
                        return Err(ParseError::UnexpectedEof);
                    },
                };
                let b1: u8 = match data.read_byte() {
                    Some(b) => b,
                    None => {
                        return Err(ParseError::UnexpectedEof);
                    },
                };
                if t == 1 {
                    sign_extend::<16>((b0 as u32) + 256 * (b1 as u32))
                } else if t == 2 {
                    let b2: u8 = match data.read_byte() {
                        Some(b) => b,
                        None => {
                            return Err(ParseError::UnexpectedEof);
                        },
                    };
                    sign_extend::<24>((b0 as u32) + 256 * (b1 as u32) + 65536 * (b2 as u32))
                } else {
                    let b2: u8 = match data.read_byte() {
                        Some(b) => b,
                        None => {
                            return Err(ParseError::UnexpectedEof);
                        },
                    };
                    let b3: u8 = match data.read_byte() {
                        Some(b) => b,
                        None => {
                            return Err(ParseError::UnexpectedEof);
                        },
                    };
                    let w: u32 = (b0 as u32) + 256 * (b1 as u32) + 65536 * (b2 as u32) + 16777216
                        * (b3 as u32);
                    proof {
                        lemma_sign_extend_32(w);
                    }
                    #[verifier::truncate] (w as i32)
                }
            };
            values.push(v);
            proof {
                let step = spec_tagged_32_field(d, cur0, t);
                assert(step == Ok::<_, ParseError>((v, data.spec_byte_pos())));
                let rest_spec = spec_tagged_32_fields(d, data.spec_byte_pos(), lead, i + 1);
                if rest_spec is Ok {
                    assert(values@ + rest_spec->Ok_0.0 =~= prefix + (seq![v]
                        + rest_spec->Ok_0.0));
                }
            }
            i = i + 1;
        }
    }
}

/// Thirty-two-bit sign extension is plain two's-complement
/// reinterpretation.
proof fn lemma_sign_extend_32(w: u32)
    by (bit_vector)
    ensures
        spec_sign_extend(32, w) == w as i32,
{
}

} // verus!
