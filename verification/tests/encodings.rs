//! Unit-level tests: the bit helpers, the primitive integer codecs and
//! the predictors.

use blackbox_log::elias::{elias_delta, elias_delta_signed, elias_gamma, elias_gamma_signed};
use blackbox_log::encoding::Encoding;
use blackbox_log::encoding::zig_zag_decode;
use blackbox_log::predictor::{
    average_i32, average_u32, straight_line_i32, straight_line_i8, straight_line_u32,
    straight_line_u8, Predictor,
};
use blackbox_log::reader::Reader;
use blackbox_log::tagged::{tagged_16, tagged_32};
use blackbox_log::variable::{negative_14_bit, tagged_variable, variable, variable_signed};
use blackbox_log::ParseError;

#[test]
fn mod_zig_zag_decode() {
    assert_eq!(0, zig_zag_decode(0));
    assert_eq!(-1, zig_zag_decode(1));
    assert_eq!(1, zig_zag_decode(2));
    assert_eq!(-2, zig_zag_decode(3));

    assert_eq!(i32::MIN, zig_zag_decode(u32::MAX));
    assert_eq!(i32::MAX, zig_zag_decode(u32::MAX - 1));
}

#[test]
fn sign_extend() {
    assert_eq!(0, blackbox_log::encoding::sign_extend::<2>(0b00));
    assert_eq!(1, blackbox_log::encoding::sign_extend::<2>(0b01));
    assert_eq!(-2, blackbox_log::encoding::sign_extend::<2>(0b10));
    assert_eq!(-1, blackbox_log::encoding::sign_extend::<2>(0b11));
}

#[test]
fn sign_extend_wider() {
    assert_eq!(7, blackbox_log::encoding::sign_extend::<4>(0x7));
    assert_eq!(-8, blackbox_log::encoding::sign_extend::<4>(0x8));
    assert_eq!(-1, blackbox_log::encoding::sign_extend::<14>(0x3FFF));
    assert_eq!(i32::MIN, blackbox_log::encoding::sign_extend::<32>(0x8000_0000));
}

/// The LEB128 encoder used only by the tests.
fn encode_variable(mut v: u32) -> Vec<u8> {
    let mut out = Vec::new();
    loop {
        let byte = (v & 0x7f) as u8;
        v >>= 7;
        if v == 0 {
            out.push(byte);
            return out;
        }
        out.push(byte | 0x80);
    }
}

#[test]
fn variable_round_trip() {
    for v in [0u32, 1, 5, 127, 128, 300, 16383, 16384, 0x12345678, u32::MAX] {
        let bytes = encode_variable(v);
        let mut r = Reader::new(&bytes);
        assert_eq!(Ok(v), variable(&mut r));
        assert_eq!(0, r.remaining_bytes());
        assert_eq!(bytes.len(), r.tell());
    }
}

#[test]
fn variable_signed_round_trip() {
    for v in [0i32, -1, 1, -64, 64, i32::MIN, i32::MAX] {
        let zz = if v >= 0 { (v as u32) << 1 } else { ((!(v as u32)) << 1) | 1 };
        let bytes = encode_variable(zz);
        let mut r = Reader::new(&bytes);
        assert_eq!(Ok(v), variable_signed(&mut r));
    }
}

#[test]
fn variable_too_long_is_corrupt() {
    let bytes = [0xff, 0xff, 0xff, 0xff, 0xff, 0x01];
    let mut r = Reader::new(&bytes);
    assert_eq!(Err(ParseError::Corrupted), variable(&mut r));
}

#[test]
fn variable_truncated_is_eof() {
    let bytes = [0x85];
    let mut r = Reader::new(&bytes);
    assert_eq!(Err(ParseError::UnexpectedEof), variable(&mut r));
}

#[test]
fn negative_14_bit_values() {
    // 1 -> -1; 0x3FFF sign-extends to -1, negated to 1.
    let bytes = encode_variable(1);
    let mut r = Reader::new(&bytes);
    assert_eq!(Ok(-1), negative_14_bit(&mut r));

    let bytes = encode_variable(0x3FFF);
    let mut r = Reader::new(&bytes);
    assert_eq!(Ok(1), negative_14_bit(&mut r));
}

/// The Elias gamma encoder used only by the tests: value v is written as
/// the binary digits of v+1, preceded by one zero per digit after the
/// first.
fn encode_gamma(v: u32, bits: &mut Vec<bool>) {
    let n = (v as u64) + 1;
    let width = 64 - n.leading_zeros();
    for _ in 0..width - 1 {
        bits.push(false);
    }
    for i in (0..width).rev() {
        bits.push((n >> i) & 1 == 1);
    }
}

fn bits_to_bytes(bits: &[bool]) -> Vec<u8> {
    let mut out = vec![0u8; (bits.len() + 7) / 8];
    for (i, bit) in bits.iter().enumerate() {
        if *bit {
            out[i / 8] |= 1 << (7 - i % 8);
        }
    }
    out
}

#[test]
fn elias_gamma_round_trip() {
    for v in [0u32, 1, 2, 3, 7, 8, 100, 65535, 0x7fff_fffe] {
        let mut bits = Vec::new();
        encode_gamma(v, &mut bits);
        let bytes = bits_to_bytes(&bits);
        let mut r = Reader::new(&bytes);
        assert_eq!(Ok(v), elias_gamma(&mut r), "value {v}");
    }
}

#[test]
fn elias_gamma_signed_value() {
    // Signed gamma is gamma then zig-zag: code 3 stands for -2.
    let mut bits = Vec::new();
    encode_gamma(3, &mut bits);
    let bytes = bits_to_bytes(&bits);
    let mut r = Reader::new(&bytes);
    assert_eq!(Ok(-2), elias_gamma_signed(&mut r));
}

/// The Elias delta encoder used only by the tests: v+1 = 2^k + m with
/// m < 2^k; gamma-code k, then k plain bits of m.
fn encode_delta(v: u32, bits: &mut Vec<bool>) {
    let n = (v as u64) + 1;
    let k = 63 - n.leading_zeros() as u64;
    encode_gamma(k as u32, bits);
    for i in (0..k).rev() {
        bits.push((n >> i) & 1 == 1);
    }
}

#[test]
fn elias_delta_round_trip() {
    for v in [0u32, 1, 2, 3, 7, 8, 100, 65535, 0x7fff_fffe] {
        let mut bits = Vec::new();
        encode_delta(v, &mut bits);
        let bytes = bits_to_bytes(&bits);
        let mut r = Reader::new(&bytes);
        assert_eq!(Ok(v), elias_delta(&mut r), "value {v}");
    }
}

#[test]
fn elias_delta_signed_value() {
    let mut bits = Vec::new();
    encode_delta(4, &mut bits);
    let bytes = bits_to_bytes(&bits);
    let mut r = Reader::new(&bytes);
    assert_eq!(Ok(2), elias_delta_signed(&mut r));
}

#[test]
fn tagged_16_zero_tags() {
    let bytes = [0x00];
    let mut r = Reader::new(&bytes);
    assert_eq!(Ok(vec![0, 0, 0, 0]), tagged_16(&mut r));
    assert_eq!(0, r.remaining_bytes());
}

#[test]
fn tagged_16_mixed_tags() {
    // Tags low first: slot0 nibble, slot1 nibble, slot2 byte, slot3
    // 16-bit. The two nibbles share one byte, low nibble first.
    let tag = 0b11_10_01_01u8;
    let bytes = [tag, 0xF3, 0x80, 0x34, 0x12];
    let mut r = Reader::new(&bytes);
    assert_eq!(Ok(vec![3, -1, -128, 0x1234]), tagged_16(&mut r));
}

#[test]
fn tagged_32_two_bit_layout() {
    // Layout 0: three 2-bit fields packed into the lead byte.
    let lead = 0b00_01_10_11u8;
    let bytes = [lead];
    let mut r = Reader::new(&bytes);
    assert_eq!(Ok(vec![1, -2, -1]), tagged_32(&mut r));
}

#[test]
fn tagged_32_per_field_layout() {
    // Layout 3: per-field width tags, lowest tag first. Field 0 one byte,
    // field 1 two bytes, field 2 four bytes, all little-endian.
    let lead = 0b11_11_01_00u8;
    let bytes = [lead, 0xFF, 0x34, 0x12, 0x78, 0x56, 0x34, 0x12];
    let mut r = Reader::new(&bytes);
    assert_eq!(Ok(vec![-1, 0x1234, 0x12345678]), tagged_32(&mut r));
}

#[test]
fn tagged_variable_batches() {
    // A single field is written as a plain signed variable-byte value.
    let bytes = encode_variable(4);
    let mut r = Reader::new(&bytes);
    assert_eq!(Ok(vec![2]), tagged_variable(&mut r, 0));

    // A batch opens with presence flags, least significant bit first.
    let bytes = [0b0000_0101, 0x02, 0x04];
    let mut r = Reader::new(&bytes);
    assert_eq!(Ok(vec![1, 0, 2]), tagged_variable(&mut r, 2));
}

#[test]
fn straight_line_signed() {
    assert_eq!(0, straight_line_i8(None, None));
    assert_eq!(10, straight_line_i8(Some(10), None));
    assert_eq!(-2, straight_line_i8(Some(-2), None));
    assert_eq!(14, straight_line_i8(Some(12), Some(10)));
    assert_eq!(8, straight_line_i8(Some(10), Some(12)));
    assert_eq!(-i8::MAX, straight_line_i8(Some(0), Some(i8::MAX)));
    assert_eq!(0, straight_line_i8(Some(0), Some(i8::MIN)));
    assert_eq!(126, straight_line_i8(Some(126), Some(0)));
    assert_eq!(14, straight_line_i32(Some(12), Some(10)));
}

#[test]
fn straight_line_unsigned() {
    assert_eq!(2, straight_line_u8(Some(2), Some(2)));
    assert_eq!(14, straight_line_u8(Some(12), Some(10)));
    assert_eq!(8, straight_line_u8(Some(10), Some(12)));
    assert_eq!(0, straight_line_u8(Some(0), Some(u8::MIN)));
    assert_eq!(254, straight_line_u8(Some(u8::MAX - 1), Some(0)));
    assert_eq!(0, straight_line_u8(Some(0), Some(u8::MAX)));
    assert_eq!(14, straight_line_u32(Some(12), Some(10)));
}

#[test]
fn average_signed() {
    assert_eq!(0, average_i32(None, None));
    assert_eq!(-1, average_i32(Some(-1), None));
    assert_eq!(0, average_i32(Some(2), Some(-1)));
    assert_eq!(0x4000_0000, average_i32(Some(i32::MAX), Some(1)));
}

#[test]
fn average_unsigned() {
    assert_eq!(0, average_u32(None, None));
    assert_eq!(1, average_u32(Some(1), None));
    assert_eq!(6, average_u32(Some(2), Some(10)));
    assert_eq!(0x8000_0000, average_u32(Some(u32::MAX), Some(1)));
}

#[test]
fn predictor_from_num_str() {
    assert_eq!(Some(Predictor::Zero), Predictor::from_num_str(b"0"));
    assert_eq!(Some(Predictor::Previous), Predictor::from_num_str(b"1"));
    assert_eq!(Some(Predictor::VBatReference), Predictor::from_num_str(b"9"));
    assert_eq!(Some(Predictor::LastMainFrameTime), Predictor::from_num_str(b"10"));
    assert_eq!(Some(Predictor::MinMotor), Predictor::from_num_str(b"11"));
    assert_eq!(None, Predictor::from_num_str(b"12"));
    assert_eq!(None, Predictor::from_num_str(b""));
}

#[test]
fn encoding_from_num_str() {
    assert_eq!(Some(Encoding::VariableSigned), Encoding::from_num_str(b"0"));
    assert_eq!(Some(Encoding::Variable), Encoding::from_num_str(b"1"));
    assert_eq!(None, Encoding::from_num_str(b"2"));
    assert_eq!(Some(Encoding::Negative14Bit), Encoding::from_num_str(b"3"));
    assert_eq!(Some(Encoding::EliasGammaSigned), Encoding::from_num_str(b"11"));
    assert_eq!(None, Encoding::from_num_str(b"12"));
}
