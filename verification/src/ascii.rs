//! ASCII byte constants and small byte-slice helpers used by the header
//! parser and the frame dispatcher.

use vstd::prelude::*;

verus! {

/// `'E'`
pub const LETTER_E: u8 = 69;

/// `'I'`
pub const LETTER_I: u8 = 73;

/// `'P'`
pub const LETTER_P: u8 = 80;

/// `'G'`
pub const LETTER_G: u8 = 71;

/// `'H'`
pub const LETTER_H: u8 = 72;

/// `'S'`
pub const LETTER_S: u8 = 83;

/// `' '`
pub const SPACE: u8 = 32;

/// `'\t'`
pub const TAB: u8 = 9;

/// `'\r'`
pub const CARRIAGE_RETURN: u8 = 13;

/// `'\n'`
pub const NEWLINE: u8 = 10;

/// `':'`
pub const COLON: u8 = 58;

/// `','`
pub const COMMA: u8 = 44;

/// `'0'`
pub const DIGIT_ZERO: u8 = 48;

/// True for the blank bytes that surround a trimmed header value: space,
/// tab and carriage return.
pub open spec fn spec_is_blank(b: u8) -> bool {
    b == SPACE || b == TAB || b == CARRIAGE_RETURN
}

/// Checks a byte for being trimmable blank space.
pub fn is_blank(b: u8) -> (result: bool)
    ensures
        result == spec_is_blank(b),
{
    b == SPACE || b == TAB || b == CARRIAGE_RETURN
}

/// `s` without leading or trailing blank bytes: the shortest cut of the two
/// ends that leaves none at either end.
pub open spec fn spec_trimmed(s: Seq<u8>) -> Seq<u8>
    decreases s.len(),
{
    if s.len() == 0 {
        s
    } else if spec_is_blank(s[0]) {
        spec_trimmed(s.subrange(1, s.len() as int))
    } else if spec_is_blank(s[s.len() - 1]) {
        spec_trimmed(s.subrange(0, s.len() - 1))
    } else {
        s
    }
}

/// Copies `s` with surrounding blank bytes removed.
pub fn trim(s: &[u8]) -> (result: Vec<u8>)
    ensures
        result@ == spec_trimmed(s@),
{
    let mut start: usize = 0;
    let mut end: usize = s.len();
    proof {
        assert(s@.subrange(0, s@.len() as int) == s@);
    }
    while start < end && is_blank(*vstd::slice::slice_index_get(s, start))
        invariant
            0 <= start <= end <= s@.len(),
            spec_trimmed(s@) == spec_trimmed(s@.subrange(start as int, end as int)),
        decreases end - start,
    {
        proof {
            lemma_trim_front(s@.subrange(start as int, end as int));
            assert(s@.subrange(start as int, end as int).subrange(
                1,
                (end - start) as int,
            ) == s@.subrange(start + 1, end as int));
        }
        start = start + 1;
    }
    while start < end && is_blank(*vstd::slice::slice_index_get(s, end - 1))
        invariant
            0 <= start <= end <= s@.len(),
            spec_trimmed(s@) == spec_trimmed(s@.subrange(start as int, end as int)),
            start < end ==> !spec_is_blank(s@[start as int]),
        decreases end - start,
    {
        proof {
            lemma_trim_back(s@.subrange(start as int, end as int));
            assert(s@.subrange(start as int, end as int).subrange(
                0,
                (end - start - 1) as int,
            ) == s@.subrange(start as int, end - 1));
        }
        end = end - 1;
    }
    let mut result: Vec<u8> = Vec::new();
    let mut i: usize = start;
    while i < end
        invariant
            start <= i <= end <= s@.len(),
            result@ == s@.subrange(start as int, i as int),
        decreases end - i,
    {
        result.push(*vstd::slice::slice_index_get(s, i));
        proof {
            assert(result@ == s@.subrange(start as int, i + 1));
        }
        i = i + 1;
    }
    proof {
        assert(result@ == s@.subrange(start as int, end as int));
        lemma_trim_fixed(s@.subrange(start as int, end as int));
    }
    result
}

/// A sequence with no blank byte at either end trims to itself.
proof fn lemma_trim_fixed(s: Seq<u8>)
    requires
        s.len() > 0 ==> !spec_is_blank(s[0]) && !spec_is_blank(s[s.len() - 1]),
    ensures
        spec_trimmed(s) == s,
{
}

/// Dropping a leading blank byte does not change the trimmed value.
proof fn lemma_trim_front(s: Seq<u8>)
    requires
        s.len() > 0,
        spec_is_blank(s[0]),
    ensures
        spec_trimmed(s) == spec_trimmed(s.subrange(1, s.len() as int)),
{
}

/// Dropping a trailing blank byte does not change the trimmed value, when
/// the head is not blank.
proof fn lemma_trim_back(s: Seq<u8>)
    requires
        s.len() > 0,
        !spec_is_blank(s[0]) || s.len() == 1,
        spec_is_blank(s[s.len() - 1]),
    ensures
        spec_trimmed(s) == spec_trimmed(s.subrange(0, s.len() - 1)),
{
    if s.len() == 1 {
        assert(s.subrange(1, 1) =~= s.subrange(0, 0));
    }
}

/// Compares two byte slices for equality.
pub fn bytes_eq(a: &[u8], b: &[u8]) -> (result: bool)
    ensures
        result == (a@ == b@),
{
    if a.len() != b.len() {
        proof {
            assert(a@.len() != b@.len());
        }
        return false;
    }
    let mut i: usize = 0;
    while i < a.len()
        invariant
            0 <= i <= a@.len(),
            a@.len() == b@.len(),
            forall|j: int| 0 <= j < i ==> a@[j] == b@[j],
        decreases a@.len() - i,
    {
        if *vstd::slice::slice_index_get(a, i) != *vstd::slice::slice_index_get(b, i) {
            return false;
        }
        i = i + 1;
    }
    proof {
        assert(a@ =~= b@);
    }
    true
}

/// The decimal value of an ASCII digit, or nothing.
pub open spec fn spec_digit(b: u8) -> Option<u32> {
    if DIGIT_ZERO <= b <= DIGIT_ZERO + 9 {
        Some((b - DIGIT_ZERO) as u32)
    } else {
        None
    }
}

/// The unsigned number a digit string stands for, read left to right, or
/// nothing when the string is empty, holds a non-digit, or exceeds `u32`.
pub open spec fn spec_parse_dec(s: Seq<u8>) -> Option<u32>
    decreases s.len(),
{
    if s.len() == 0 {
        None
    } else {
        let last = spec_digit(s[s.len() - 1]);
        if s.len() == 1 {
            last
        } else {
            match (spec_parse_dec(s.subrange(0, s.len() - 1)), last) {
                (Some(hi), Some(lo)) => {
                    if hi * 10 + lo <= u32::MAX {
                        Some((hi * 10 + lo) as u32)
                    } else {
                        None
                    }
                },
                _ => None,
            }
        }
    }
}

/// Reads an unsigned decimal number from a byte string.
pub fn parse_dec(s: &[u8]) -> (result: Option<u32>)
    ensures
        result == spec_parse_dec(s@),
{
    if s.len() == 0 {
        return None;
    }
    let mut value: u32 = 0;
    let mut i: usize = 0;
    while i < s.len()
        invariant
            0 < s@.len(),
            0 <= i <= s@.len(),
            i == 0 ==> value == 0,
            i > 0 ==> Some(value) == spec_parse_dec(s@.subrange(0, i as int)),
        decreases s@.len() - i,
    {
        let b: u8 = *vstd::slice::slice_index_get(s, i);
        if b < DIGIT_ZERO || b > DIGIT_ZERO + 9 {
            proof {
                lemma_parse_dec_bad_digit(s@, i as int);
            }
            return None;
        }
        let d: u32 = (b - DIGIT_ZERO) as u32;
        if i > 0 {
            if value > (u32::MAX - d) / 10 {
                proof {
                    assert(s@.subrange(0, i + 1).subrange(0, i as int) == s@.subrange(0, i as int));
                    assert(value * 10 + d > u32::MAX) by (nonlinear_arith)
                        requires
                            value > (u32::MAX - d) / 10,
                            d <= 9,
                    ;
                    assert(spec_parse_dec(s@.subrange(0, i + 1)) is None);
                    lemma_parse_dec_overflow(s@, i + 1);
                }
                return None;
            }
            value = value * 10 + d;
            proof {
                assert(s@.subrange(0, i + 1).subrange(0, i as int) == s@.subrange(0, i as int));
            }
        } else {
            value = d;
            proof {
                assert(s@.subrange(0, 1) =~= seq![s@[0]]);
            }
        }
        i = i + 1;
    }
    proof {
        assert(s@.subrange(0, s@.len() as int) == s@);
    }
    Some(value)
}

/// A non-digit anywhere makes the whole string unreadable.
proof fn lemma_parse_dec_bad_digit(s: Seq<u8>, i: int)
    requires
        0 <= i < s.len(),
        spec_digit(s[i]) is None,
    ensures
        spec_parse_dec(s) is None,
    decreases s.len(),
{
    if s.len() > 1 && i < s.len() - 1 {
        lemma_parse_dec_bad_digit(s.subrange(0, s.len() - 1), i);
    }
}

/// A prefix that reads as nothing makes the whole string read as nothing.
proof fn lemma_parse_dec_overflow(s: Seq<u8>, i: int)
    requires
        0 < i <= s.len(),
        spec_parse_dec(s.subrange(0, i)) is None,
    ensures
        spec_parse_dec(s) is None,
    decreases s.len() - i,
{
    if i == s.len() {
        assert(s.subrange(0, i) == s);
    } else {
        assert(s.subrange(0, i + 1).subrange(0, i) == s.subrange(0, i));
        lemma_parse_dec_overflow(s, i + 1);
    }
}

/// The position of the first `b` at or after `from`, if any.
pub open spec fn spec_find_byte(s: Seq<u8>, from: int, b: u8) -> Option<int>
    decreases s.len() - from,
{
    if !(0 <= from < s.len()) {
        None
    } else if s[from] == b {
        Some(from)
    } else {
        spec_find_byte(s, from + 1, b)
    }
}

/// What a found position means: it is the first hit in range.
pub proof fn lemma_find_byte(s: Seq<u8>, from: int, b: u8)
    requires
        from >= 0,
    ensures
        match spec_find_byte(s, from, b) {
            Some(i) => from <= i < s.len() && s[i] == b && forall|j: int|
                from <= j < i ==> s[j] != b,
            None => forall|j: int| 0 <= j < s.len() && from <= j ==> s[j] != b,
        },
    decreases s.len() - from,
{
    if 0 <= from < s.len() && s[from] != b {
        lemma_find_byte(s, from + 1, b);
    }
}

/// Finds the first `b` at or after `from`.
pub fn find_byte(s: &[u8], from: usize, b: u8) -> (result: Option<usize>)
    ensures
        match spec_find_byte(s@, from as int, b) {
            Some(i) => result matches Some(r) && r as int == i,
            None => result is None,
        },
{
    let n: usize = s.len();
    let mut i: usize = from;
    if i >= n {
        return None;
    }
    loop
        invariant
            from <= i <= n,
            n == s@.len(),
            spec_find_byte(s@, from as int, b) == spec_find_byte(s@, i as int, b),
        decreases n - i,
    {
        if i >= n {
            return None;
        }
        if *vstd::slice::slice_index_get(s, i) == b {
            return Some(i);
        }
        i = i + 1;
    }
}

/// Copies `s[start..end]` into a fresh vector.
pub fn copy_range(s: &[u8], start: usize, end: usize) -> (result: Vec<u8>)
    requires
        start <= end <= s@.len(),
    ensures
        result@ == s@.subrange(start as int, end as int),
{
    let mut result: Vec<u8> = Vec::new();
    let mut i: usize = start;
    while i < end
        invariant
            start <= i <= end <= s@.len(),
            result@ == s@.subrange(start as int, i as int),
        decreases end - i,
    {
        result.push(*vstd::slice::slice_index_get(s, i));
        proof {
            assert(result@ =~= s@.subrange(start as int, i + 1));
        }
        i = i + 1;
    }
    result
}

/// The comma-separated pieces of `s` from position `from` on, separators
/// removed, empty pieces kept.
pub open spec fn spec_split_from(s: Seq<u8>, from: int) -> Seq<Seq<u8>>
    decreases s.len() - from,
{
    match spec_find_byte(s, from, COMMA) {
        Some(i) => if from <= i < s.len() {
            seq![s.subrange(from, i)] + spec_split_from(s, i + 1)
        } else {
            seq![s.subrange(from, s.len() as int)]
        },
        None => seq![s.subrange(from, s.len() as int)],
    }
}

/// Splits `s` at commas. The pieces are not trimmed.
pub fn split_commas(s: &[u8]) -> (result: Vec<Vec<u8>>)
    ensures
        result@.len() == spec_split_from(s@, 0).len(),
        forall|j: int|
            0 <= j < result@.len() ==> result@[j]@ == spec_split_from(s@, 0)[j],
{
    let n: usize = s.len();
    let mut result: Vec<Vec<u8>> = Vec::new();
    let mut cur: usize = 0;
    loop
        invariant
            0 <= cur <= n,
            n == s@.len(),
            spec_split_from(s@, 0).len() == result@.len() + spec_split_from(
                s@,
                cur as int,
            ).len(),
            forall|j: int|
                0 <= j < result@.len() ==> result@[j]@ == spec_split_from(s@, 0)[j],
            forall|j: int|
                0 <= j < spec_split_from(s@, cur as int).len() ==> spec_split_from(
                    s@,
                    cur as int,
                )[j] == spec_split_from(s@, 0)[result@.len() + j],
        decreases n - cur,
    {
        proof {
            lemma_find_byte(s@, cur as int, COMMA);
        }
        let ghost whole = spec_split_from(s@, 0);
        let ghost cur0 = cur as int;
        let ghost len0 = result@.len() as int;
        match find_byte(s, cur, COMMA) {
            Some(i) => {
                result.push(copy_range(s, cur, i));
                cur = i + 1;
                proof {
                    let at_cur0 = spec_split_from(s@, cur0);
                    let at_cur = spec_split_from(s@, cur as int);
                    assert(at_cur0 == seq![s@.subrange(cur0, i as int)] + at_cur);
                    assert forall|j: int| 0 <= j < result@.len() implies result@[j]@ == whole[j] by {
                        if j == len0 {
                            assert(at_cur0[0] == s@.subrange(cur0, i as int));
                            assert(whole[len0] == at_cur0[0]);
                        }
                    }
                    assert forall|j: int| 0 <= j < at_cur.len() implies at_cur[j] == whole[
                        result@.len() + j
                    ] by {
                        assert(at_cur0[j + 1] == at_cur[j]);
                        assert(whole[len0 + (j + 1)] == at_cur0[j + 1]);
                    }
                }
            },
            None => {
                result.push(copy_range(s, cur, n));
                proof {
                    let at_cur0 = spec_split_from(s@, cur0);
                    assert(at_cur0 == seq![s@.subrange(cur0, n as int)]);
                    assert forall|j: int| 0 <= j < result@.len() implies result@[j]@ == whole[j] by {
                        if j == len0 {
                            assert(whole[len0] == at_cur0[0]);
                        }
                    }
                }
                return result;
            },
        }
    }
}

/// An upper-case ASCII letter folded to lower case; any other byte kept.
pub open spec fn spec_to_lower(b: u8) -> u8 {
    if 65 <= b <= 90 {
        (b + 32) as u8
    } else {
        b
    }
}

/// True when `s` begins with `prefix`, comparing ASCII letters without
/// regard to case.
pub open spec fn spec_starts_with_ci(s: Seq<u8>, prefix: Seq<u8>) -> bool {
    prefix.len() <= s.len() && forall|j: int|
        0 <= j < prefix.len() ==> spec_to_lower(s[j]) == spec_to_lower(prefix[j])
}

/// Checks an ASCII-case-insensitive prefix.
pub fn starts_with_ci(s: &[u8], prefix: &[u8]) -> (result: bool)
    ensures
        result == spec_starts_with_ci(s@, prefix@),
{
    if prefix.len() > s.len() {
        return false;
    }
    let mut j: usize = 0;
    while j < prefix.len()
        invariant
            0 <= j <= prefix@.len() <= s@.len(),
            forall|k: int| 0 <= k < j ==> spec_to_lower(s@[k]) == spec_to_lower(prefix@[k]),
        decreases prefix@.len() - j,
    {
        let a: u8 = *vstd::slice::slice_index_get(s, j);
        let b: u8 = *vstd::slice::slice_index_get(prefix, j);
        let la: u8 = if 65 <= a && a <= 90 {
            a + 32
        } else {
            a
        };
        let lb: u8 = if 65 <= b && b <= 90 {
            b + 32
        } else {
            b
        };
        if la != lb {
            return false;
        }
        j = j + 1;
    }
    true
}

/// The hexadecimal value of an ASCII digit or letter, or nothing.
pub open spec fn spec_hex_digit(b: u8) -> Option<u32> {
    if DIGIT_ZERO <= b <= DIGIT_ZERO + 9 {
        Some((b - DIGIT_ZERO) as u32)
    } else if 97 <= b <= 102 {
        Some((b - 97 + 10) as u32)
    } else if 65 <= b <= 70 {
        Some((b - 65 + 10) as u32)
    } else {
        None
    }
}

/// The unsigned number a hexadecimal digit string stands for, or nothing
/// when it is empty, holds a non-digit, or exceeds `u32`.
pub open spec fn spec_parse_hex(s: Seq<u8>) -> Option<u32>
    decreases s.len(),
{
    if s.len() == 0 {
        None
    } else {
        let last = spec_hex_digit(s[s.len() - 1]);
        if s.len() == 1 {
            last
        } else {
            match (spec_parse_hex(s.subrange(0, s.len() - 1)), last) {
                (Some(hi), Some(lo)) => {
                    if hi * 16 + lo <= u32::MAX {
                        Some((hi * 16 + lo) as u32)
                    } else {
                        None
                    }
                },
                _ => None,
            }
        }
    }
}

/// Reads an unsigned hexadecimal number from a byte string.
pub fn parse_hex(s: &[u8]) -> (result: Option<u32>)
    ensures
        result == spec_parse_hex(s@),
{
    if s.len() == 0 {
        return None;
    }
    let mut value: u32 = 0;
    let mut i: usize = 0;
    while i < s.len()
        invariant
            0 < s@.len(),
            0 <= i <= s@.len(),
            i == 0 ==> value == 0,
            i > 0 ==> Some(value) == spec_parse_hex(s@.subrange(0, i as int)),
        decreases s@.len() - i,
    {
        let b: u8 = *vstd::slice::slice_index_get(s, i);
        let d: u32 = if b >= DIGIT_ZERO && b <= DIGIT_ZERO + 9 {
            (b - DIGIT_ZERO) as u32
        } else if b >= 97 && b <= 102 {
            (b - 97 + 10) as u32
        } else if b >= 65 && b <= 70 {
            (b - 65 + 10) as u32
        } else {
            proof {
                lemma_parse_hex_bad_digit(s@, i as int);
            }
            return None;
        };
        if i > 0 {
            if value > (u32::MAX - d) / 16 {
                proof {
                    assert(s@.subrange(0, i + 1).subrange(0, i as int) == s@.subrange(0, i as int));
                    assert(value * 16 + d > u32::MAX) by (nonlinear_arith)
                        requires
                            value > (u32::MAX - d) / 16,
                            d <= 15,
                    ;
                    assert(spec_parse_hex(s@.subrange(0, i + 1)) is None);
                    lemma_parse_hex_overflow(s@, i + 1);
                }
                return None;
            }
            value = value * 16 + d;
            proof {
                assert(s@.subrange(0, i + 1).subrange(0, i as int) == s@.subrange(0, i as int));
            }
        } else {
            value = d;
            proof {
                assert(s@.subrange(0, 1) =~= seq![s@[0]]);
            }
        }
        i = i + 1;
    }
    proof {
        assert(s@.subrange(0, s@.len() as int) == s@);
    }
    Some(value)
}

/// A non-digit anywhere makes the whole string unreadable as hex.
proof fn lemma_parse_hex_bad_digit(s: Seq<u8>, i: int)
    requires
        0 <= i < s.len(),
        spec_hex_digit(s[i]) is None,
    ensures
        spec_parse_hex(s) is None,
    decreases s.len(),
{
    if s.len() > 1 && i < s.len() - 1 {
        lemma_parse_hex_bad_digit(s.subrange(0, s.len() - 1), i);
    }
}

/// A hex prefix that reads as nothing makes the whole string read as
/// nothing.
proof fn lemma_parse_hex_overflow(s: Seq<u8>, i: int)
    requires
        0 < i <= s.len(),
        spec_parse_hex(s.subrange(0, i)) is None,
    ensures
        spec_parse_hex(s) is None,
    decreases s.len() - i,
{
    if i == s.len() {
        assert(s.subrange(0, i) == s);
    } else {
        assert(s.subrange(0, i + 1).subrange(0, i) == s.subrange(0, i));
        lemma_parse_hex_overflow(s, i + 1);
    }
}

} // verus!
