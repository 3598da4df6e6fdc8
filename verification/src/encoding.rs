//! The wire encodings a log may use for its field values, plus the two small
//! bit-level helpers (zig-zag and sign extension) shared by several of them.

use vstd::prelude::*;

verus! {

/// A self-terminating integer codec appearing in the binary frame section.
///
/// The header's `encoding` lists select one of these per field, by its
/// numeric code (`from_num_str`).
#[derive(Debug, Clone, Copy, PartialEq, Eq, Structural)]
pub enum Encoding {
    /// Signed variable byte
    VariableSigned,
    /// Unsigned variable byte
    Variable,
    /// Unsigned variable byte, but negated after decoding. Value fits in 14 bits
    Negative14Bit,
    EliasDelta,
    EliasDeltaSigned,
    TaggedVariable,
    Tagged32,
    /// 1 tag byte containing 4 2-bit tags, followed by 4 fields
    ///
    /// | Tag | Field width         |
    /// |-----|---------------------|
    /// | 0   | 0 (field value = 0) |
    /// | 1   | 4                   |
    /// | 2   | 8                   |
    /// | 3   | 16                  |
    Tagged16,
    /// Nothing is written to the log, assume value is 0
    Null,
    EliasGamma,
    EliasGammaSigned,
}

/// The encoding a numeric code stands for, if any. The gap at 2 is part of
/// the wire format: that code was never assigned.
pub open spec fn spec_encoding_from_num(n: u32) -> Option<Encoding> {
    match n {
        0u32 => Some(Encoding::VariableSigned),
        1u32 => Some(Encoding::Variable),
        3u32 => Some(Encoding::Negative14Bit),
        4u32 => Some(Encoding::EliasDelta),
        5u32 => Some(Encoding::EliasDeltaSigned),
        6u32 => Some(Encoding::TaggedVariable),
        7u32 => Some(Encoding::Tagged32),
        8u32 => Some(Encoding::Tagged16),
        9u32 => Some(Encoding::Null),
        10u32 => Some(Encoding::EliasGamma),
        11u32 => Some(Encoding::EliasGammaSigned),
        _ => None,
    }
}

/// The encoding a header digit string stands for: the decimal number it
/// spells, looked up in the code table.
pub open spec fn spec_encoding_from_num_str(s: Seq<u8>) -> Option<Encoding> {
    match crate::ascii::spec_parse_dec(s) {
        Some(n) => spec_encoding_from_num(n),
        None => None,
    }
}

impl Encoding {
    /// Looks up the encoding a header digit string names.
    pub fn from_num_str(s: &[u8]) -> (result: Option<Encoding>)
        ensures
            result == spec_encoding_from_num_str(s@),
    {
        match crate::ascii::parse_dec(s) {
            Some(n) => Encoding::from_num(n),
            None => None,
        }
    }

    /// Looks up the encoding for a numeric code.
    pub fn from_num(n: u32) -> (result: Option<Encoding>)
        ensures
            result == spec_encoding_from_num(n),
    {
        match n {
            0u32 => Some(Encoding::VariableSigned),
            1u32 => Some(Encoding::Variable),
            3u32 => Some(Encoding::Negative14Bit),
            4u32 => Some(Encoding::EliasDelta),
            5u32 => Some(Encoding::EliasDeltaSigned),
            6u32 => Some(Encoding::TaggedVariable),
            7u32 => Some(Encoding::Tagged32),
            8u32 => Some(Encoding::Tagged16),
            9u32 => Some(Encoding::Null),
            10u32 => Some(Encoding::EliasGamma),
            11u32 => Some(Encoding::EliasGammaSigned),
            _ => None,
        }
    }

    /// How many adjacent fields that share this encoding one decoder call may
    /// consume at most. It is 1 for every encoding but the tagged family,
    /// whose single call emits several values.
    pub open spec fn spec_max_chunk_size(self) -> usize {
        match self {
            Encoding::Tagged16 => 4usize,
            Encoding::Tagged32 => 3usize,
            Encoding::TaggedVariable => 8usize,
            _ => 1usize,
        }
    }

    /// Returns the batching limit for this encoding.
    pub fn max_chunk_size(self) -> (result: usize)
        ensures
            result == self.spec_max_chunk_size(),
    {
        match self {
            Encoding::Tagged16 => 4,
            Encoding::Tagged32 => 3,
            Encoding::TaggedVariable => 8,
            _ => 1,
        }
    }
}

/// The value a zig-zag-coded word stands for: even words are the
/// non-negative integers in order, odd words the negative ones.
pub open spec fn spec_zig_zag_decode(value: u32) -> i32 {
    if value % 2 == 0 {
        (value / 2) as i32
    } else {
        (-1 - value / 2) as i32
    }
}

/// The zig-zag code of a signed value: alternates non-negative and negative
/// values so that small magnitudes get small codes.
pub open spec fn spec_zig_zag_encode(value: i32) -> u32 {
    if value >= 0 {
        (2 * value) as u32
    } else {
        (-2 * value - 1) as u32
    }
}

/// Maps a zig-zag-coded word back to the signed value it stands for.
pub fn zig_zag_decode(value: u32) -> (result: i32)
    ensures
        result == spec_zig_zag_decode(value),
{
    proof {
        assert(value & 1 <= 1) by (bit_vector);
    }
    let result = (value >> 1) as i32 ^ -((value & 1) as i32);
    proof {
        assert(result == spec_zig_zag_decode(value)) by (bit_vector)
            requires
                result == (value >> 1) as i32 ^ ((-((value & 1) as i32)) as i32),
        ;
    }
    result
}

/// Every unsigned word is the zig-zag code of the value it decodes to:
/// decoding and re-encoding round-trips.
pub proof fn lemma_zig_zag_round_trip(value: u32)
    ensures
        spec_zig_zag_encode(spec_zig_zag_decode(value)) == value,
{
}

/// Decoding is injective: distinct words stand for distinct signed values.
pub proof fn lemma_zig_zag_injective(a: u32, b: u32)
    requires
        spec_zig_zag_decode(a) == spec_zig_zag_decode(b),
    ensures
        a == b,
{
    lemma_zig_zag_round_trip(a);
    lemma_zig_zag_round_trip(b);
}

/// Reinterprets the low `bits` bits of `from` as a two's-complement signed
/// value: words below half the range are themselves, the rest wrap to
/// negatives.
pub open spec fn spec_sign_extend(bits: u32, from: u32) -> i32
    recommends
        1 <= bits <= 32,
{
    let modulus = 1u64 << bits;
    let half = 1u64 << (bits - 1) as u64;
    let m = (from as u64) % modulus;
    if m < half {
        m as i32
    } else {
        (m - modulus) as i32
    }
}

/// The shift pair used by the executable code computes exactly the
/// two's-complement reinterpretation that `spec_sign_extend` states.
#[verifier::rlimit(100)]
proof fn lemma_shift_sign_extend(bits: u32, from: u32, result: i32)
    by (bit_vector)
    requires
        1 <= bits <= 32,
        result == ((from << (32 - bits) as u32) as i32) >> (32 - bits) as u32,
    ensures
        result == spec_sign_extend(bits, from),
{
}

/// Sign-extends the low `BITS` bits of a word.
pub fn sign_extend<const BITS: u32>(from: u32) -> (result: i32)
    requires
        1 <= BITS <= 32,
    ensures
        result == spec_sign_extend(BITS, from),
{
    let unused_bits = 32 - BITS;
    let result = ((from << unused_bits) as i32) >> unused_bits;
    proof {
        lemma_shift_sign_extend(BITS, from, result);
    }
    result
}

} // verus!
