//! The variable-byte encodings: unsigned and signed LEB128-style values,
//! the negated 14-bit form, and the tagged-variable batch.

use vstd::prelude::*;

use crate::encoding::{spec_sign_extend, spec_zig_zag_decode, sign_extend, zig_zag_decode};
use crate::parser::{ParseError, ParseResult};
use crate::reader::Reader;

verus! {

/// One step of the unsigned variable-byte decoding, looking at the `i`-th
/// byte of the value: each byte contributes its low seven bits, least
/// significant group first; a set high bit continues. At most five bytes
/// form one value; a fifth byte asking to continue is corruption. The
/// value is returned unbounded, together with the position after it.
pub open spec fn spec_variable_rec(data: Seq<u8>, pos: int, i: int) -> ParseResult<(int, int)>
    decreases 5 - i,
{
    if i >= 5 {
        Err(ParseError::Corrupted)
    } else if !(0 <= pos < data.len()) {
        Err(ParseError::UnexpectedEof)
    } else {
        let b = data[pos];
        if b < 0x80 {
            Ok(((b as int), pos + 1))
        } else {
            match spec_variable_rec(data, pos + 1, i + 1) {
                Ok((rest, next)) => Ok(((b - 0x80) + 128 * rest, next)),
                Err(e) => Err(e),
            }
        }
    }
}

/// The unsigned variable-byte value starting at byte `pos`, truncated to
/// 32 bits, with the position after it.
pub open spec fn spec_variable(data: Seq<u8>, pos: int) -> ParseResult<(u32, int)> {
    match spec_variable_rec(data, pos, 0) {
        Ok((v, next)) => Ok(((v % 0x1_0000_0000) as u32, next)),
        Err(e) => Err(e),
    }
}

/// `128^n`, the number of values `n` seven-bit groups can hold.
pub open spec fn spec_pow128(n: int) -> int
    decreases n,
{
    if n <= 0 {
        1
    } else {
        128 * spec_pow128(n - 1)
    }
}

/// The value of a variable-byte prefix is bounded by the bytes it may
/// still consume.
proof fn lemma_variable_rec_bound(data: Seq<u8>, pos: int, i: int)
    requires
        0 <= i <= 5,
    ensures
        match spec_variable_rec(data, pos, i) {
            Ok((v, next)) => 0 <= v < spec_pow128(5 - i) && pos < next <= data.len(),
            Err(_) => true,
        },
    decreases 5 - i,
{
    lemma_pow128_bounds(5 - i);
    if i < 5 && 0 <= pos < data.len() {
        if data[pos] < 0x80 {
        } else {
            lemma_variable_rec_bound(data, pos + 1, i + 1);
            if spec_variable_rec(data, pos + 1, i + 1) is Ok {
                let rest = spec_variable_rec(data, pos + 1, i + 1)->Ok_0.0;
                assert((data[pos] - 0x80) + 128 * rest < 128 * spec_pow128(4 - i))
                    by (nonlinear_arith)
                    requires
                        0 <= rest < spec_pow128(4 - i),
                        0x80 <= data[pos] < 0x100,
                ;
            }
        }
    }
}

/// The values `spec_pow128` takes on the depths the decoder reaches.
proof fn lemma_pow128_bounds(n: int)
    requires
        0 <= n <= 5,
    ensures
        1 <= spec_pow128(n) <= 0x8_0000_0000,
        n >= 1 ==> spec_pow128(n) >= 128,
{
    assert(spec_pow128(0) == 1);
    assert(spec_pow128(1) == 128);
    assert(spec_pow128(2) == 0x4000);
    assert(spec_pow128(3) == 0x20_0000);
    assert(spec_pow128(4) == 0x1000_0000);
    assert(spec_pow128(5) == 0x8_0000_0000);
}

/// Recursive worker for `variable`: decodes from the `i`-th byte of the
/// value on.
fn variable_rec(data: &mut Reader, i: usize) -> (result: ParseResult<u64>)
    requires
        old(data).wf(),
        old(data).spec_aligned(),
        i <= 5,
    ensures
        final(data).wf(),
        final(data).spec_data() == old(data).spec_data(),
        final(data).spec_bit_pos() >= old(data).spec_bit_pos(),
        match result {
            Ok(v) => {
                &&& spec_variable_rec(old(data).spec_data(), old(data).spec_byte_pos(), i as int)
                    == Ok::<_, ParseError>((v as int, final(data).spec_byte_pos()))
                &&& final(data).spec_aligned()
                &&& v < spec_pow128(5 - i)
            },
            Err(e) => spec_variable_rec(old(data).spec_data(), old(data).spec_byte_pos(), i as int)
                == Err::<(int, int), _>(e),
        },
    decreases 5 - i,
{
    if i >= 5 {
        return Err(ParseError::Corrupted);
    }
    let b: u8 = match data.read_byte() {
        Some(b) => b,
        None => {
            return Err(ParseError::UnexpectedEof);
        },
    };
    if b < 0x80 {
        proof {
            lemma_pow128_bounds(5 - i);
        }
        Ok(b as u64)
    } else {
        match variable_rec(data, i + 1) {
            Ok(rest) => {
                proof {
                    lemma_pow128_bounds(4 - i);
                    assert(128 * rest < 128 * spec_pow128(4 - i)) by (nonlinear_arith)
                        requires
                            rest < spec_pow128(5 - (i + 1)),
                            spec_pow128(5 - (i + 1)) == spec_pow128(4 - i),
                            1 <= spec_pow128(4 - i) <= 0x8_0000_0000,
                    ;
                }
                Ok(((b - 0x80) as u64) + 128 * rest)
            },
            Err(e) => Err(e),
        }
    }
}

/// Decodes one unsigned variable-byte value.
pub fn variable(data: &mut Reader) -> (result: ParseResult<u32>)
    requires
        old(data).wf(),
    ensures
        final(data).wf(),
        final(data).spec_data() == old(data).spec_data(),
        final(data).spec_bit_pos() >= old(data).spec_bit_pos(),
        match spec_variable(old(data).spec_data(), old(data).spec_byte_pos()) {
            Ok((v, next)) => result == Ok::<_, ParseError>(v) && final(data).spec_aligned()
                && final(data).spec_byte_pos() == next,
            Err(e) => result == Err::<u32, _>(e),
        },
{
    data.align_to_byte();
    match variable_rec(data, 0) {
        Ok(v) => Ok((v % 0x1_0000_0000) as u32),
        Err(e) => Err(e),
    }
}

/// The signed variable-byte value at byte `pos`: unsigned, then zig-zag.
pub open spec fn spec_variable_signed(data: Seq<u8>, pos: int) -> ParseResult<(i32, int)> {
    match spec_variable(data, pos) {
        Ok((v, next)) => Ok((spec_zig_zag_decode(v), next)),
        Err(e) => Err(e),
    }
}

/// Decodes one signed variable-byte value.
pub fn variable_signed(data: &mut Reader) -> (result: ParseResult<i32>)
    requires
        old(data).wf(),
    ensures
        final(data).wf(),
        final(data).spec_data() == old(data).spec_data(),
        final(data).spec_bit_pos() >= old(data).spec_bit_pos(),
        match spec_variable_signed(old(data).spec_data(), old(data).spec_byte_pos()) {
            Ok((v, next)) => result == Ok::<_, ParseError>(v) && final(data).spec_aligned()
                && final(data).spec_byte_pos() == next,
            Err(e) => result == Err::<i32, _>(e),
        },
{
    match variable(data) {
        Ok(v) => Ok(zig_zag_decode(v)),
        Err(e) => Err(e),
    }
}

/// The negated 14-bit value at byte `pos`: an unsigned variable-byte value
/// whose low 14 bits are sign-extended, then negated.
pub open spec fn spec_negative_14_bit(data: Seq<u8>, pos: int) -> ParseResult<(i32, int)> {
    match spec_variable(data, pos) {
        Ok((v, next)) => Ok(((0 - spec_sign_extend(14, v)) as i32, next)),
        Err(e) => Err(e),
    }
}

/// Decodes one negated 14-bit value.
pub fn negative_14_bit(data: &mut Reader) -> (result: ParseResult<i32>)
    requires
        old(data).wf(),
    ensures
        final(data).wf(),
        final(data).spec_data() == old(data).spec_data(),
        final(data).spec_bit_pos() >= old(data).spec_bit_pos(),
        match spec_negative_14_bit(old(data).spec_data(), old(data).spec_byte_pos()) {
            Ok((v, next)) => result == Ok::<_, ParseError>(v) && final(data).spec_aligned()
                && final(data).spec_byte_pos() == next,
            Err(e) => result == Err::<i32, _>(e),
        },
{
    match variable(data) {
        Ok(v) => {
            let extended: i32 = sign_extend::<14>(v);
            proof {
                assert(1u64 << 14u32 == 0x4000u64) by (bit_vector);
                assert(1u64 << (14u32 - 1) as u64 == 0x2000u64) by (bit_vector);
                assert((v as u64) % 0x4000u64 < 0x4000u64) by (bit_vector);
            }
            Ok(-extended)
        },
        Err(e) => Err(e),
    }
}

/// The tagged-variable batch of `count` signed fields starting at field
/// `i`, each present exactly when its (least-significant-first) bit of
/// `header` is set; absent fields are zero without consuming input.
pub open spec fn spec_tagged_variable_fields(
    data: Seq<u8>,
    pos: int,
    header: u8,
    i: int,
    count: int,
) -> ParseResult<(Seq<i32>, int)>
    decreases count - i,
{
    if i >= count {
        Ok((Seq::empty(), pos))
    } else if (header >> (i as u8)) & 1u8 == 1u8 {
        match spec_variable_signed(data, pos) {
            Ok((v, next)) => match spec_tagged_variable_fields(data, next, header, i + 1, count) {
                Ok((rest, end)) => Ok((seq![v] + rest, end)),
                Err(e) => Err(e),
            },
            Err(e) => Err(e),
        }
    } else {
        match spec_tagged_variable_fields(data, pos, header, i + 1, count) {
            Ok((rest, end)) => Ok((seq![0i32] + rest, end)),
            Err(e) => Err(e),
        }
    }
}

/// The tagged-variable batch of `count` fields at byte `pos`. A single
/// field is written as a plain signed variable-byte value; a larger batch
/// opens with one byte of presence flags.
pub open spec fn spec_tagged_variable(data: Seq<u8>, pos: int, count: int) -> ParseResult<
    (Seq<i32>, int),
> {
    if count == 1 {
        match spec_variable_signed(data, pos) {
            Ok((v, next)) => Ok((seq![v], next)),
            Err(e) => Err(e),
        }
    } else if !(0 <= pos < data.len()) {
        Err(ParseError::UnexpectedEof)
    } else {
        spec_tagged_variable_fields(data, pos + 1, data[pos], 0, count)
    }
}

/// Decodes a batch of `extra + 1` tagged-variable fields.
pub fn tagged_variable(data: &mut Reader, extra: usize) -> (result: ParseResult<Vec<i32>>)
    requires
        old(data).wf(),
        extra < 8,
    ensures
        final(data).wf(),
        final(data).spec_data() == old(data).spec_data(),
        final(data).spec_bit_pos() >= old(data).spec_bit_pos(),
        match spec_tagged_variable(
            old(data).spec_data(),
            old(data).spec_byte_pos(),
            extra + 1,
        ) {
            Ok((values, next)) => {
                &&& result matches Ok(v) && v@ == values
                &&& final(data).spec_aligned()
                &&& final(data).spec_byte_pos() == next
            },
            Err(e) => result == Err::<Vec<i32>, _>(e),
        },
{
    let mut values: Vec<i32> = Vec::new();
    if extra == 0 {
        match variable_signed(data) {
            Ok(v) => {
                values.push(v);
                proof {
                    let spec = spec_variable_signed(
                        old(data).spec_data(),
                        old(data).spec_byte_pos(),
                    );
                    assert(values@ =~= seq![spec->Ok_0.0]);
                }
                Ok(values)
            },
            Err(e) => Err(e),
        }
    } else {
        let count: usize = extra + 1;
        let header: u8 = match data.read_byte() {
            Some(b) => b,
            None => {
                return Err(ParseError::UnexpectedEof);
            },
        };
        let ghost data0 = old(data).spec_data();
        let ghost pos0 = old(data).spec_byte_pos();
        proof {
            let fields0 = spec_tagged_variable_fields(data0, pos0 + 1, header, 0, count as int);
            if fields0 is Ok {
                assert(Seq::<i32>::empty() + fields0->Ok_0.0 =~= fields0->Ok_0.0);
            }
        }
        let mut i: usize = 0;
        loop
            invariant
                data.wf(),
                data.spec_aligned(),
                data.spec_bit_pos() >= old(data).spec_bit_pos(),
                data0 == old(data).spec_data(),
                pos0 == old(data).spec_byte_pos(),
                data.spec_data() == data0,
                0 <= i <= count,
                count == extra + 1,
                extra < 8,
                values@.len() == i,
                spec_tagged_variable(data0, pos0, count as int) == match spec_tagged_variable_fields(
                    data0,
                    data.spec_byte_pos(),
                    header,
                    i as int,
                    count as int,
                ) {
                    Ok((rest, end)) => Ok::<_, ParseError>((values@ + rest, end)),
                    Err(e) => Err::<(Seq<i32>, int), _>(e),
                },
            decreases count - i,
        {
            if i >= count {
                proof {
                    assert(values@ + Seq::<i32>::empty() =~= values@);
                }
                return Ok(values);
            }
            let present = (header >> (i as u8)) & 1 == 1;
            let ghost cur0 = data.spec_byte_pos();
            let ghost prefix = values@;
            if present {
                match variable_signed(data) {
                    Ok(v) => {
                        values.push(v);
                        proof {
                            let step = spec_variable_signed(data0, cur0);
                            assert(step == Ok::<_, ParseError>((v, data.spec_byte_pos())));
                            let rest_spec = spec_tagged_variable_fields(
                                data0,
                                data.spec_byte_pos(),
                                header,
                                i + 1,
                                count as int,
                            );
                            assert(spec_tagged_variable_fields(
                                data0,
                                cur0,
                                header,
                                i as int,
                                count as int,
                            ) == match rest_spec {
                                Ok((rest, end)) => Ok::<_, ParseError>((seq![v] + rest, end)),
                                Err(e) => Err::<(Seq<i32>, int), _>(e),
                            });
                            if rest_spec is Ok {
                                assert(values@ + rest_spec->Ok_0.0 =~= prefix + (seq![v]
                                    + rest_spec->Ok_0.0));
                            }
                        }
                    },
                    Err(e) => {
                        return Err(e);
                    },
                }
            } else {
                values.push(0);
                proof {
                    let rest_spec = spec_tagged_variable_fields(
                        data0,
                        cur0,
                        header,
                        i + 1,
                        count as int,
                    );
                    assert(spec_tagged_variable_fields(
                        data0,
                        cur0,
                        header,
                        i as int,
                        count as int,
                    ) == match rest_spec {
                        Ok((rest, end)) => Ok::<_, ParseError>((seq![0i32] + rest, end)),
                        Err(e) => Err::<(Seq<i32>, int), _>(e),
                    });
                    if rest_spec is Ok {
                        assert(values@ + rest_spec->Ok_0.0 =~= prefix + (seq![0i32]
                            + rest_spec->Ok_0.0));
                    }
                }
            }
            i = i + 1;
        }
    }
}

} // verus!
