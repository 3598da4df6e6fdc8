//! The Elias gamma and delta encodings: self-terminating bit-level codes
//! made of a zero-run length prefix followed by binary digits.

use vstd::arithmetic::power2::{
    lemma2_to64, lemma_pow2_pos, lemma_pow2_strictly_increases, lemma_pow2_unfold, pow2,
};
use vstd::bits::{lemma_u64_pow2_no_overflow, lemma_u64_shl_is_mul};
use vstd::prelude::*;

use crate::encoding::{spec_zig_zag_decode, zig_zag_decode};
use crate::parser::{ParseError, ParseResult};
use crate::reader::{spec_bit, Reader};

verus! {

/// The number a run of `n` bits starting at bit `pos` stands for, read most
/// significant bit first; reading past the end of the data fails. Zero bits
/// read as zero.
pub open spec fn spec_read_bits(data: Seq<u8>, pos: int, n: int) -> ParseResult<int>
    decreases n,
{
    if n <= 0 {
        Ok(0int)
    } else if !(0 <= pos && pos + n <= 8 * data.len()) {
        Err(ParseError::UnexpectedEof)
    } else {
        match spec_read_bits(data, pos, n - 1) {
            Ok(hi) => Ok(
                2 * hi + if spec_bit(data, pos + n - 1) {
                    1int
                } else {
                    0int
                },
            ),
            Err(e) => Err(e),
        }
    }
}

/// The length of the zero-bit run starting at bit `pos`, watching at most
/// `limit` bits: a run that long is corruption, and one cut short by the
/// end of the data is a truncation.
pub open spec fn spec_zero_run(data: Seq<u8>, pos: int, limit: int) -> ParseResult<int>
    decreases limit,
{
    if limit <= 0 {
        Err(ParseError::Corrupted)
    } else if !(0 <= pos < 8 * data.len()) {
        Err(ParseError::UnexpectedEof)
    } else if spec_bit(data, pos) {
        Ok(0int)
    } else {
        match spec_zero_run(data, pos + 1, limit - 1) {
            Ok(k) => Ok(k + 1),
            Err(e) => Err(e),
        }
    }
}

/// The Elias gamma value starting at bit `pos`: a run of `k` zeros, then
/// the `k+1`-bit binary number `n` whose leading one ended the run; the
/// value is `n - 1`. A run of 32 zeros cannot open a 32-bit value.
pub open spec fn spec_elias_gamma(data: Seq<u8>, pos: int) -> ParseResult<(u32, int)> {
    match spec_zero_run(data, pos, 32) {
        Ok(k) => match spec_read_bits(data, pos + k, k + 1) {
            Ok(n) => Ok((((n - 1) as u32), pos + 2 * k + 1)),
            Err(e) => Err(e),
        },
        Err(e) => Err(e),
    }
}

/// Elias gamma followed by the zig-zag map.
pub open spec fn spec_elias_gamma_signed(data: Seq<u8>, pos: int) -> ParseResult<(i32, int)> {
    match spec_elias_gamma(data, pos) {
        Ok((v, next)) => Ok((spec_zig_zag_decode(v), next)),
        Err(e) => Err(e),
    }
}

/// The Elias delta value starting at bit `pos`: gamma gives `k`, then `k`
/// further bits give `m`, and the value is `2^k + m - 1`. A `k` past 31
/// cannot open a 32-bit value.
pub open spec fn spec_elias_delta(data: Seq<u8>, pos: int) -> ParseResult<(u32, int)> {
    match spec_elias_gamma(data, pos) {
        Ok((k, mid)) => if k > 31 {
            Err(ParseError::Corrupted)
        } else {
            match spec_read_bits(data, mid, k as int) {
                Ok(m) => Ok(((pow2(k as nat) + m - 1) as u32, mid + k)),
                Err(e) => Err(e),
            }
        },
        Err(e) => Err(e),
    }
}

/// Elias delta followed by the zig-zag map.
pub open spec fn spec_elias_delta_signed(data: Seq<u8>, pos: int) -> ParseResult<(i32, int)> {
    match spec_elias_delta(data, pos) {
        Ok((v, next)) => Ok((spec_zig_zag_decode(v), next)),
        Err(e) => Err(e),
    }
}

/// A bit run reads successfully exactly when it lies inside the data, and
/// its value has as many binary digits as the run has bits.
proof fn lemma_read_bits_bound(data: Seq<u8>, pos: int, n: int)
    requires
        n >= 0,
    ensures
        spec_read_bits(data, pos, n) is Ok <==> (n == 0 || (0 <= pos && pos + n <= 8
            * data.len())),
        spec_read_bits(data, pos, n) matches Ok(v) ==> 0 <= v < pow2(n as nat),
        spec_read_bits(data, pos, n) is Err ==> spec_read_bits(data, pos, n) == Err::<
            int,
            ParseError,
        >(ParseError::UnexpectedEof),
    decreases n,
{
    lemma_pow2_pos(n as nat);
    if n > 0 {
        lemma_read_bits_bound(data, pos, n - 1);
        lemma_pow2_unfold(n as nat);
    }
}

/// Splitting the leading bit off a run: the run's value is that bit's
/// weight plus the value of the rest.
proof fn lemma_read_bits_front(data: Seq<u8>, pos: int, n: int)
    requires
        n >= 1,
        0 <= pos,
        pos + n <= 8 * data.len(),
    ensures
        spec_read_bits(data, pos, n) is Ok,
        spec_read_bits(data, pos + 1, n - 1) is Ok,
        spec_read_bits(data, pos, n)->Ok_0 == (if spec_bit(data, pos) {
            pow2((n - 1) as nat) as int
        } else {
            0int
        }) + spec_read_bits(data, pos + 1, n - 1)->Ok_0,
    decreases n,
{
    lemma2_to64();
    lemma_read_bits_bound(data, pos, n);
    lemma_read_bits_bound(data, pos + 1, n - 1);
    if n == 1 {
    } else {
        lemma_read_bits_bound(data, pos, n - 1);
        lemma_read_bits_bound(data, pos + 1, n - 2);
        lemma_read_bits_front(data, pos, n - 1);
        lemma_pow2_unfold((n - 1) as nat);
        let hi = spec_read_bits(data, pos, n - 1)->Ok_0;
        let r2 = spec_read_bits(data, pos + 1, n - 2)->Ok_0;
        let b = if spec_bit(data, pos + n - 1) {
            1int
        } else {
            0int
        };
        assert(spec_read_bits(data, pos, n)->Ok_0 == 2 * hi + b);
        assert(spec_read_bits(data, pos + 1, n - 1)->Ok_0 == 2 * r2 + b);
        if spec_bit(data, pos) {
            assert(hi == pow2((n - 2) as nat) + r2);
            assert(2 * hi + b == 2 * pow2((n - 2) as nat) + (2 * r2 + b));
        } else {
            assert(hi == r2);
        }
    }
}

/// A zero run that ends (without fault) ends on a set bit inside the data.
proof fn lemma_zero_run_ok(data: Seq<u8>, pos: int, limit: int)
    ensures
        spec_zero_run(data, pos, limit) matches Ok(k) ==> {
            &&& 0 <= k < limit
            &&& 0 <= pos
            &&& pos + k < 8 * data.len()
            &&& spec_bit(data, pos + k)
        },
    decreases limit,
{
    if limit > 0 && 0 <= pos < 8 * data.len() && !spec_bit(data, pos) {
        lemma_zero_run_ok(data, pos + 1, limit - 1);
    }
}

/// Reads `n` bits, most significant first, as one unsigned number.
fn read_bits(data: &mut Reader, n: u32) -> (result: ParseResult<u64>)
    requires
        old(data).wf(),
        n <= 32,
    ensures
        final(data).wf(),
        final(data).spec_data() == old(data).spec_data(),
        final(data).spec_bit_pos() >= old(data).spec_bit_pos(),
        match spec_read_bits(old(data).spec_data(), old(data).spec_bit_pos(), n as int) {
            Ok(v) => result matches Ok(r) && r as int == v && final(data).spec_bit_pos() == old(
                data,
            ).spec_bit_pos() + n,
            Err(e) => result == Err::<u64, _>(e),
        },
{
    let ghost d = old(data).spec_data();
    let ghost bp0 = old(data).spec_bit_pos();
    let mut acc: u64 = 0;
    let mut i: u32 = 0;
    proof {
        lemma2_to64();
    }
    while i < n
        invariant
            data.wf(),
            data.spec_data() == d,
            d == old(data).spec_data(),
            bp0 == old(data).spec_bit_pos(),
            n <= 32,
            0 <= i <= n,
            data.spec_bit_pos() == bp0 + i,
            spec_read_bits(d, bp0, i as int) == Ok::<int, ParseError>(acc as int),
            acc < pow2(i as nat),
        decreases n - i,
    {
        match data.read_bit() {
            None => {
                return Err(ParseError::UnexpectedEof);
            },
            Some(bit) => {
                proof {
                    lemma2_to64();
                    lemma_pow2_unfold((i + 1) as nat);
                    if i < 31 {
                        lemma_pow2_strictly_increases(i as nat, 31nat);
                    }
                }
                acc = 2 * acc + if bit {
                    1
                } else {
                    0
                };
                i = i + 1;
            },
        }
    }
    Ok(acc)
}

/// Decodes one unsigned Elias gamma value from the current bit position.
pub fn elias_gamma(data: &mut Reader) -> (result: ParseResult<u32>)
    requires
        old(data).wf(),
    ensures
        final(data).wf(),
        final(data).spec_data() == old(data).spec_data(),
        final(data).spec_bit_pos() >= old(data).spec_bit_pos(),
        match spec_elias_gamma(old(data).spec_data(), old(data).spec_bit_pos()) {
            Ok((v, next)) => result == Ok::<_, ParseError>(v) && final(data).spec_bit_pos()
                == next,
            Err(e) => result == Err::<u32, _>(e),
        },
{
    let ghost d = old(data).spec_data();
    let ghost bp0 = old(data).spec_bit_pos();
    let mut k: u32 = 0;
    loop
        invariant_except_break
            data.spec_bit_pos() == bp0 + k,
            match spec_zero_run(d, data.spec_bit_pos(), 32 - k as int) {
                Ok(k2) => spec_zero_run(d, bp0, 32) == Ok::<int, ParseError>(k as int + k2),
                Err(e) => spec_zero_run(d, bp0, 32) == Err::<int, ParseError>(e),
            },
        invariant
            data.wf(),
            data.spec_data() == d,
            d == old(data).spec_data(),
            bp0 == old(data).spec_bit_pos(),
            0 <= k <= 31,
        ensures
            data.wf(),
            data.spec_data() == d,
            0 <= k <= 31,
            data.spec_bit_pos() == bp0 + k + 1,
            spec_zero_run(d, bp0, 32) == Ok::<int, ParseError>(k as int),
        decreases 32 - k,
    {
        match data.read_bit() {
            None => {
                return Err(ParseError::UnexpectedEof);
            },
            Some(true) => {
                proof {
                    assert(spec_zero_run(d, bp0 + k, 32 - k as int) == Ok::<int, ParseError>(
                        0,
                    ));
                }
                break ;
            },
            Some(false) => {
                k = k + 1;
                if k == 32 {
                    return Err(ParseError::Corrupted);
                }
            },
        }
    }
    // A run of k zeros ended by a one: the one is the leading digit of the
    // k+1 bits that make the number.
    proof {
        lemma_zero_run_ok(d, bp0, 32);
    }
    let rest = match read_bits(data, k) {
        Ok(r) => r,
        Err(e) => {
            proof {
                lemma_read_bits_bound(d, bp0 + k + 1, k as int);
                lemma_read_bits_bound(d, bp0 + k, k as int + 1);
            }
            return Err(e);
        },
    };
    proof {
        lemma_read_bits_bound(d, bp0 + k + 1, k as int);
        lemma_read_bits_front(d, bp0 + k, k as int + 1);
        lemma_u64_pow2_no_overflow(k as nat);
        lemma2_to64();
        if (k as nat) < 31 {
            lemma_pow2_strictly_increases(k as nat, 31nat);
        }
    }
    let one: u64 = 1u64 << k;
    proof {
        lemma_u64_shl_is_mul(1u64, k as u64);
    }
    let n: u64 = one + rest;
    Ok((n - 1) as u32)
}

/// Decodes one signed Elias gamma value.
pub fn elias_gamma_signed(data: &mut Reader) -> (result: ParseResult<i32>)
    requires
        old(data).wf(),
    ensures
        final(data).wf(),
        final(data).spec_data() == old(data).spec_data(),
        final(data).spec_bit_pos() >= old(data).spec_bit_pos(),
        match spec_elias_gamma_signed(old(data).spec_data(), old(data).spec_bit_pos()) {
            Ok((v, next)) => result == Ok::<_, ParseError>(v) && final(data).spec_bit_pos()
                == next,
            Err(e) => result == Err::<i32, _>(e),
        },
{
    match elias_gamma(data) {
        Ok(v) => Ok(zig_zag_decode(v)),
        Err(e) => Err(e),
    }
}

/// Decodes one unsigned Elias delta value from the current bit position.
pub fn elias_delta(data: &mut Reader) -> (result: ParseResult<u32>)
    requires
        old(data).wf(),
    ensures
        final(data).wf(),
        final(data).spec_data() == old(data).spec_data(),
        final(data).spec_bit_pos() >= old(data).spec_bit_pos(),
        match spec_elias_delta(old(data).spec_data(), old(data).spec_bit_pos()) {
            Ok((v, next)) => result == Ok::<_, ParseError>(v) && final(data).spec_bit_pos()
                == next,
            Err(e) => result == Err::<u32, _>(e),
        },
{
    let ghost d = old(data).spec_data();
    let ghost bp0 = old(data).spec_bit_pos();
    let k = match elias_gamma(data) {
        Ok(k) => k,
        Err(e) => {
            return Err(e);
        },
    };
    if k > 31 {
        return Err(ParseError::Corrupted);
    }
    let ghost mid = data.spec_bit_pos();
    let m = match read_bits(data, k) {
        Ok(m) => m,
        Err(e) => {
            return Err(e);
        },
    };
    proof {
        lemma_read_bits_bound(d, mid, k as int);
        lemma_u64_pow2_no_overflow(k as nat);
        lemma2_to64();
        if (k as nat) < 31 {
            lemma_pow2_strictly_increases(k as nat, 31nat);
        }
    }
    let one: u64 = 1u64 << k;
    proof {
        lemma_u64_shl_is_mul(1u64, k as u64);
    }
    Ok((one + m - 1) as u32)
}

/// Decodes one signed Elias delta value.
pub fn elias_delta_signed(data: &mut Reader) -> (result: ParseResult<i32>)
    requires
        old(data).wf(),
    ensures
        final(data).wf(),
        final(data).spec_data() == old(data).spec_data(),
        final(data).spec_bit_pos() >= old(data).spec_bit_pos(),
        match spec_elias_delta_signed(old(data).spec_data(), old(data).spec_bit_pos()) {
            Ok((v, next)) => result == Ok::<_, ParseError>(v) && final(data).spec_bit_pos()
                == next,
            Err(e) => result == Err::<i32, _>(e),
        },
{
    match elias_delta(data) {
        Ok(v) => Ok(zig_zag_decode(v)),
        Err(e) => Err(e),
    }
}

} // verus!
