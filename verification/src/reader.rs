//! Cursor over an immutable byte slice with byte-aligned reads and the
//! bit-level reads used by the Elias encodings.
//!
//! The cursor is a pair: a byte index and the number of bits of that byte
//! already consumed (most significant bit first). Byte-aligned reads first
//! flush a partially consumed byte, moving to the next byte boundary.

use vstd::prelude::*;

verus! {

/// True when bit `pos` (counted from the start of `data`, most significant
/// bit of each byte first) is set.
pub open spec fn spec_bit(data: Seq<u8>, pos: int) -> bool
    recommends
        0 <= pos < 8 * data.len(),
{
    (data[pos / 8] >> ((7 - pos % 8) as u8)) & 1u8 == 1u8
}

/// The next byte boundary at or after bit position `pos`.
pub open spec fn spec_align8(pos: int) -> int {
    ((pos + 7) / 8) * 8
}

/// A reading cursor over a byte slice. The fields are public for the sake
/// of the specifications; every method requires `wf`, which callers get
/// from `new` and keep through every call.
pub struct Reader<'a> {
    /// The underlying bytes.
    pub data: &'a [u8],
    /// Index of the byte under the cursor.
    pub byte_pos: usize,
    /// Bits of `data[byte_pos]` already consumed, most significant first.
    pub bit_off: u8,
}

impl<'a> Reader<'a> {
    /// The bytes this reader walks over.
    pub open spec fn spec_data(self) -> Seq<u8> {
        self.data@
    }

    /// The cursor in bits from the start of the data.
    pub open spec fn spec_bit_pos(self) -> int {
        8 * self.byte_pos + self.bit_off
    }

    /// The reader's internal consistency: the cursor never leaves the data,
    /// and a partially consumed byte exists.
    pub open spec fn wf(self) -> bool {
        &&& self.byte_pos <= self.data@.len()
        &&& self.bit_off < 8
        &&& self.bit_off != 0 ==> self.byte_pos < self.data@.len()
    }

    /// True when the cursor sits on a byte boundary.
    pub open spec fn spec_aligned(self) -> bool {
        self.bit_off == 0
    }

    /// The index of the byte a byte-aligned read would consume next.
    pub open spec fn spec_byte_pos(self) -> int {
        spec_align8(self.spec_bit_pos()) / 8
    }

    /// Starts a reader at the beginning of `data`.
    pub fn new(data: &'a [u8]) -> (result: Self)
        ensures
            result.wf(),
            result.spec_data() == data@,
            result.spec_bit_pos() == 0,
    {
        Reader { data, byte_pos: 0, bit_off: 0 }
    }

    /// How many whole bytes remain from the next byte boundary on.
    pub fn remaining_bytes(&self) -> (result: usize)
        requires
            self.wf(),
        ensures
            result == self.spec_data().len() - self.spec_byte_pos(),
    {
        proof {
            self.lemma_byte_pos();
        }
        if self.bit_off == 0 {
            self.data.len() - self.byte_pos
        } else {
            self.data.len() - self.byte_pos - 1
        }
    }

    /// Relates the aligned byte index to the raw fields.
    proof fn lemma_byte_pos(self)
        requires
            self.bit_off < 8,
        ensures
            self.spec_byte_pos() == if self.bit_off == 0 {
                self.byte_pos as int
            } else {
                self.byte_pos + 1
            },
    {
    }

    /// The byte offset a byte-aligned read would continue at.
    pub fn tell(&self) -> (result: usize)
        requires
            self.wf(),
        ensures
            result == self.spec_byte_pos(),
    {
        let n: usize = self.data.len();
        proof {
            self.lemma_byte_pos();
        }
        if self.bit_off == 0 {
            self.byte_pos
        } else {
            proof {
                assert(self.byte_pos < n);
            }
            self.byte_pos + 1
        }
    }

    /// Reads the byte under the cursor without advancing, flushing none of
    /// the bit state: the byte looked at is the one a byte-aligned read
    /// would return.
    pub fn peek_byte(&self) -> (result: Option<u8>)
        requires
            self.wf(),
        ensures
            result == if self.spec_byte_pos() < self.spec_data().len() {
                Some(self.spec_data()[self.spec_byte_pos()])
            } else {
                None::<u8>
            },
    {
        let n: usize = self.data.len();
        proof {
            self.lemma_byte_pos();
        }
        let at: usize = if self.bit_off == 0 {
            self.byte_pos
        } else {
            self.byte_pos + 1
        };
        if at < n {
            Some(*vstd::slice::slice_index_get(self.data, at))
        } else {
            None
        }
    }

    /// Moves the cursor to the next byte boundary, dropping the rest of a
    /// partially consumed byte.
    pub fn align_to_byte(&mut self)
        requires
            old(self).wf(),
        ensures
            final(self).wf(),
            final(self).spec_data() == old(self).spec_data(),
            final(self).spec_bit_pos() == spec_align8(old(self).spec_bit_pos()),
            final(self).spec_bit_pos() >= old(self).spec_bit_pos(),
            final(self).spec_aligned(),
    {
        let n: usize = self.data.len();
        if self.bit_off != 0 {
            proof {
                assert(self.byte_pos < n);
            }
            self.byte_pos = self.byte_pos + 1;
            self.bit_off = 0;
        }
    }

    /// Reads one byte, first flushing any partially consumed byte. Returns
    /// `None`, leaving only the flush done, when no byte remains.
    pub fn read_byte(&mut self) -> (result: Option<u8>)
        requires
            old(self).wf(),
        ensures
            final(self).wf(),
            final(self).spec_data() == old(self).spec_data(),
            final(self).spec_aligned(),
            final(self).spec_bit_pos() >= old(self).spec_bit_pos(),
            ({
                let at = old(self).spec_byte_pos();
                if at < old(self).spec_data().len() {
                    result == Some(old(self).spec_data()[at]) && final(self).spec_bit_pos() == 8
                        * (at + 1)
                } else {
                    result == None::<u8> && final(self).spec_bit_pos() == 8 * at
                }
            }),
    {
        proof {
            self.lemma_byte_pos();
        }
        self.align_to_byte();
        if self.byte_pos < self.data.len() {
            let b: u8 = *vstd::slice::slice_index_get(self.data, self.byte_pos);
            self.byte_pos = self.byte_pos + 1;
            Some(b)
        } else {
            None
        }
    }

    /// Reads one bit, most significant first within each byte. Returns
    /// `None`, changing nothing, at the end of the data.
    pub fn read_bit(&mut self) -> (result: Option<bool>)
        requires
            old(self).wf(),
        ensures
            final(self).wf(),
            final(self).spec_data() == old(self).spec_data(),
            final(self).spec_bit_pos() >= old(self).spec_bit_pos(),
            ({
                let at = old(self).spec_bit_pos();
                if at < 8 * old(self).spec_data().len() {
                    result == Some(spec_bit(old(self).spec_data(), at))
                        && final(self).spec_bit_pos() == at + 1
                } else {
                    result == None::<bool> && *final(self) == *old(self)
                }
            }),
    {
        if self.byte_pos < self.data.len() {
            let b: u8 = *vstd::slice::slice_index_get(self.data, self.byte_pos);
            let shift: u8 = 7 - self.bit_off;
            let bit = (b >> shift) & 1 == 1;
            proof {
                assert(8 * self.byte_pos + self.bit_off < 8 * self.data@.len());
                assert((8 * self.byte_pos + self.bit_off) / 8 == self.byte_pos as int);
                assert((8 * self.byte_pos + self.bit_off) % 8 == self.bit_off as int);
            }
            if self.bit_off == 7 {
                self.bit_off = 0;
                self.byte_pos = self.byte_pos + 1;
            } else {
                self.bit_off = self.bit_off + 1;
            }
            Some(bit)
        } else {
            None
        }
    }
}

} // verus!
