use crate::bits::{bit_at, field_value, lemma_bit_at_le_one};
use crate::params::frame_fits;
use crate::tables::PERIOD;
use vstd::arithmetic::power2::{lemma2_to64, lemma_pow2_unfold, pow2};
use vstd::prelude::*;

verus! {

/// A cursor over a buffer of encoded speech frames.
pub struct BitStream<'a> {
    buf: &'a [u8],
    bit_addr: usize,
}

impl<'a> BitStream<'a> {
    /// The bytes being read.
    pub closed spec fn bytes(&self) -> Seq<u8> {
        self.buf@
    }

    /// The number of bits read so far.
    pub closed spec fn pos(&self) -> nat {
        self.bit_addr as nat
    }

    /// A stream positioned on the first bit of `buf`.
    pub fn new(buf: &'a [u8]) -> (r: Self)
        ensures
            r.bytes() == buf@,
            r.pos() == 0,
    {
        let bit_addr: usize = 0;
        BitStream { buf, bit_addr }
    }

    /// Whether a whole frame lies between the cursor and the end of the buffer.
    pub fn has_frame(&self) -> (r: bool)
        requires
            self.bytes().len() * 8 <= usize::MAX,
        ensures
            r == frame_fits(self.bytes(), self.pos() as int),
    {
        let total = self.buf.len() * 8;
        let pos = self.bit_addr;
        if pos > total || total - pos < 4 {
            return false;
        }
        let mut peek = BitStream { buf: self.buf, bit_addr: pos };
        proof {
            lemma2_to64();
        }
        let energy = peek.get_bits(4);
        if energy == 0 || energy == 15 {
            return true;
        }
        if total - pos < 11 {
            return false;
        }
        let repeat = peek.get_bits(1);
        let period_code = peek.get_bits(6);
        let width: usize = if repeat == 1 {
            11
        } else if PERIOD[period_code] == 0 {
            29
        } else {
            50
        };
        total - pos >= width
    }

    /// Reads the next `len` bits as an unsigned number, its first bit the most
    /// significant one, and moves past them.
    pub fn get_bits(&mut self, len: usize) -> (r: usize)
        requires
            1 <= len <= 8,
            old(self).pos() + len <= old(self).bytes().len() * 8,
            old(self).bytes().len() * 8 <= usize::MAX,
        ensures
            final(self).bytes() == old(self).bytes(),
            final(self).pos() == old(self).pos() + len,
            r == field_value(old(self).bytes(), old(self).pos() as int, len as nat),
            r < pow2(len as nat),
    {
        let start = self.bit_addr;
        let mut r: usize = 0;
        let mut j: usize = 0;
        proof {
            lemma2_to64();
        }
        while j < len
            invariant
                j <= len <= 8,
                start + len <= self.buf@.len() * 8,
                self.buf@.len() * 8 <= usize::MAX,
                r == field_value(self.buf@, start as int, j as nat),
                r < pow2(j as nat),
                pow2(8) == 256,
            decreases len - j,
        {
            let p = start + j;
            let byte = self.buf[p / 8];
            let b = (byte >> ((p % 8) as u32)) & 1u8;
            proof {
                assert(b == bit_at(self.buf@, p as int));
                lemma_bit_at_le_one(self.buf@, p as int);
                lemma_pow2_unfold((j + 1) as nat);
                vstd::arithmetic::power2::lemma_pow2_strictly_increases(j as nat, 8);
            }
            r = r * 2 + b as usize;
            j = j + 1;
        }
        self.bit_addr = start + len;
        r
    }
}

} // verus!
