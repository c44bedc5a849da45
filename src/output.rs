use crate::bits::{bit_at, field_value, lemma_bit_at_le_one, lemma_read_field};
use crate::params::{
    energy_code, frame_fits, frame_k, frame_period, frame_repeats, frame_width, is_speech_frame,
};
use crate::tables::{ENERGY, K1, K10, K2, K3, K4, K5, K6, K7, K8, K9, PERIOD};
use vstd::arithmetic::power2::{lemma_pow2_unfold, pow2};
use vstd::bits::lemma_u8_shr_is_div;
use vstd::prelude::*;

verus! {

/// The `len` bits of `v` taken below bit `len`, most significant first.
pub open spec fn field_bits(v: nat, len: nat) -> Seq<bool> {
    Seq::new(len, |i: int| (v / pow2((len - 1 - i) as nat)) % 2 == 1)
}

/// The distance between a codebook entry and a value.
pub open spec fn dist(a: int, b: int) -> int {
    if a >= b {
        a - b
    } else {
        b - a
    }
}

/// Index of the entry among the first `n` of `t` nearest to `x`; the lowest
/// such index on a tie.
pub open spec fn nearest_in(t: Seq<i16>, x: int, n: nat) -> nat
    decreases n,
{
    if n <= 1 {
        0
    } else {
        let b = nearest_in(t, x, (n - 1) as nat);
        if dist(t[n - 1] as int, x) < dist(t[b as int] as int, x) {
            (n - 1) as nat
        } else {
            b
        }
    }
}

/// Index of the entry of `t` nearest to `x`, the lowest on a tie.
pub open spec fn nearest(t: Seq<i16>, x: int) -> nat {
    nearest_in(t, x, t.len())
}

/// Number of bits that index a codebook of `n` entries.
pub open spec fn index_bits(n: nat) -> nat
    decreases n,
{
    if n <= 1 {
        0
    } else {
        1 + index_bits(n / 2)
    }
}

/// The bits of a codebook index for `x`.
pub open spec fn code_bits(t: Seq<i16>, x: int) -> Seq<bool> {
    field_bits(nearest(t, x), index_bits(t.len()))
}

/// The energy code for an excitation energy, which is capped at 5514.
pub open spec fn energy_index(energy: u16) -> nat {
    nearest(ENERGY@, if energy > 5514 { 5514 } else { energy as int })
}

/// The bits after the energy code of a non-repeat speech frame: the repeat
/// flag, the period code and the first four coefficient codes.
pub open spec fn speech_bits(pitch: u8, ks: Seq<i16>) -> Seq<bool> {
    field_bits(0, 1) + field_bits(nearest(PERIOD@, pitch as int), 6) + code_bits(
        K1@,
        ks[0] as int,
    ) + code_bits(K2@, ks[1] as int) + code_bits(K3@, ks[2] as int) + code_bits(K4@, ks[3] as int)
}

/// The codes of the last six coefficients of a voiced frame.
pub open spec fn voiced_bits(ks: Seq<i16>) -> Seq<bool> {
    code_bits(K5@, ks[4] as int) + code_bits(K6@, ks[5] as int) + code_bits(K7@, ks[6] as int)
        + code_bits(K8@, ks[7] as int) + code_bits(K9@, ks[8] as int) + code_bits(
        K10@,
        ks[9] as int,
    )
}

/// The bits of one frame with the given energy, pitch period and Q9
/// reflection coefficients.
pub open spec fn frame_bits(energy: u16, pitch: u8, ks: Seq<i16>) -> Seq<bool> {
    let e = energy_index(energy);
    if e == 0 {
        field_bits(e, 4)
    } else if PERIOD@[nearest(PERIOD@, pitch as int) as int] == 0 {
        field_bits(e, 4) + speech_bits(pitch, ks)
    } else {
        field_bits(e, 4) + speech_bits(pitch, ks) + voiced_bits(ks)
    }
}

/// The codebook entry nearest to `x`.
pub open spec fn coded(t: Seq<i16>, x: i16) -> i16 {
    t[nearest(t, x as int) as int]
}

/// The coefficients that a frame of the given pitch and Q9 coefficients
/// carries once coded: the nearest codebook entries, the last six zero when
/// the coded period is unvoiced.
pub open spec fn coded_k(pitch: u8, ks: Seq<i16>) -> Seq<i16> {
    let head = seq![coded(K1@, ks[0]), coded(K2@, ks[1]), coded(K3@, ks[2]), coded(K4@, ks[3])];
    if coded(PERIOD@, pitch as i16) == 0 {
        head + seq![0i16, 0i16, 0i16, 0i16, 0i16, 0i16]
    } else {
        head + seq![
            coded(K5@, ks[4]),
            coded(K6@, ks[5]),
            coded(K7@, ks[6]),
            coded(K8@, ks[7]),
            coded(K9@, ks[8]),
            coded(K10@, ks[9]),
        ]
    }
}

/// The bits that end a stream: the end-of-stream energy code and padding.
pub open spec fn end_bits() -> Seq<bool> {
    field_bits(15, 4) + field_bits(0, 7)
}

/// Finds the codebook entry nearest to `x`, the lowest index on a tie.
pub fn quantize(table: &[i16], x: i16) -> (r: u8)
    requires
        1 <= table@.len() <= 256,
    ensures
        r == nearest(table@, x as int),
        r < table@.len(),
        forall|j: int|
            0 <= j < table@.len() ==> dist(table@[r as int] as int, x as int) <= dist(
                #[trigger] table@[j] as int,
                x as int,
            ),
        forall|j: int|
            0 <= j < r ==> dist(table@[r as int] as int, x as int) < dist(
                #[trigger] table@[j] as int,
                x as int,
            ),
{
    let mut best: usize = 0;
    let mut best_err: i32 = i32::MAX;
    let mut i: usize = 0;
    while i < table.len()
        invariant
            1 <= table@.len() <= 256,
            i <= table@.len(),
            i == 0 ==> best == 0 && best_err == i32::MAX,
            i > 0 ==> best == nearest_in(table@, x as int, i as nat),
            i > 0 ==> best < i,
            i > 0 ==> best_err == dist(table@[best as int] as int, x as int),
            forall|j: int|
                0 <= j < i ==> best_err <= dist(#[trigger] table@[j] as int, x as int),
            forall|j: int|
                0 <= j < best ==> best_err < dist(#[trigger] table@[j] as int, x as int),
        decreases table@.len() - i,
    {
        let d = table[i] as i32 - x as i32;
        let err = if d >= 0 { d } else { -d };
        if err < best_err {
            best = i;
            best_err = err;
        }
        i = i + 1;
    }
    best as u8
}

/// An encoded bit stream under construction. Bits fill each byte from its
/// least significant bit up.
pub struct Output {
    buf: Vec<u8>,
    bit_pos: usize,
}

impl Output {
    /// The bytes written so far, the last one possibly partly filled.
    pub closed spec fn bytes(&self) -> Seq<u8> {
        self.buf@
    }

    /// The number of bits written so far.
    pub closed spec fn len_bits(&self) -> nat {
        if self.bit_pos == 0 {
            (self.buf@.len() * 8) as nat
        } else {
            ((self.buf@.len() - 1) * 8 + self.bit_pos) as nat
        }
    }

    /// The bits written so far, in order.
    pub closed spec fn written(&self) -> Seq<bool> {
        Seq::new(self.len_bits(), |n: int| bit_at(self.buf@, n) == 1)
    }

    /// The unwritten bits of the last byte are zero.
    pub closed spec fn wf(&self) -> bool {
        &&& self.bit_pos < 8
        &&& self.bit_pos != 0 ==> self.buf@.len() > 0 && self.buf@.last() >> (self.bit_pos as u32)
            == 0
    }

    /// An empty stream.
    pub fn new() -> (r: Self)
        ensures
            r.wf(),
            r.written() == Seq::<bool>::empty(),
            r.bytes() == Seq::<u8>::empty(),
    {
        let r = Output { buf: Vec::new(), bit_pos: 0 };
        assert(r.written() =~= Seq::<bool>::empty());
        r
    }

    /// Appends one bit.
    fn bit(&mut self, bit: u8)
        requires
            old(self).wf(),
            bit <= 1,
        ensures
            final(self).wf(),
            final(self).written() == old(self).written().push(bit == 1),
    {
        let ghost w0 = self.written();
        let ghost b0 = self.buf@;
        if self.bit_pos == 0 {
            self.buf.push(bit);
            proof {
                assert((bit >> 0u32) & 1u8 == bit) by (bit_vector)
                    requires bit <= 1u8;
                assert(bit >> 1u32 == 0u8) by (bit_vector)
                    requires bit <= 1u8;
                assert forall|n: int| 0 <= n < b0.len() * 8 implies bit_at(self.buf@, n) == bit_at(b0, n) by {
                    assert(n / 8 < b0.len());
                }
            }
            self.bit_pos = 1;
            assert(self.written() =~= w0.push(bit == 1));
        } else {
            let last = self.buf.len() - 1;
            let p = self.bit_pos as u32;
            let l = self.buf[last];
            let v = l | (bit << p);
            self.buf.set(last, v);
            proof {
                lemma_or_bit(l, bit, p);
                assert forall|n: int| 0 <= n < w0.len() implies bit_at(self.buf@, n) == bit_at(b0, n) by {
                    if n / 8 == last {
                        let j = (n % 8) as u32;
                        assert(j < p);
                        assert(((l | (bit << p)) >> j) & 1u8 == (l >> j) & 1u8) by (bit_vector)
                            requires j < p, p < 8u32, bit <= 1u8;
                    }
                }
                assert(bit_at(self.buf@, w0.len() as int) == bit);
                lemma_bit_at_le_one(self.buf@, w0.len() as int);
            }
            self.bit_pos = (self.bit_pos + 1) % 8;
            assert(self.written() =~= w0.push(bit == 1));
        }
    }

    /// Appends the `len` low bits of `val`, most significant first.
    pub fn pack(&mut self, val: u8, len: u32)
        requires
            old(self).wf(),
            len <= 8,
        ensures
            final(self).wf(),
            final(self).written() == old(self).written() + field_bits(val as nat, len as nat),
    {
        let ghost w0 = self.written();
        let mut i: u32 = 0;
        while i < len
            invariant
                self.wf(),
                i <= len <= 8,
                self.written() == w0 + field_bits(val as nat, len as nat).take(i as int),
            decreases len - i,
        {
            let s = len - 1 - i;
            let b = (val >> s) & 1;
            proof {
                lemma_u8_shr_is_div(val, s as u8);
                assert((val >> s) & 1u8 == (val >> s) % 2u8) by (bit_vector);
                assert((val >> s) & 1u8 <= 1u8) by (bit_vector);
            }
            self.bit(b);
            assert(field_bits(val as nat, len as nat).take(i + 1) =~= field_bits(val as nat, len as nat).take(i as int).push(b == 1));
            assert(self.written() =~= w0 + field_bits(val as nat, len as nat).take(i + 1));
            i = i + 1;
        }
        assert(field_bits(val as nat, len as nat).take(len as int) =~= field_bits(val as nat, len as nat));
    }

    /// The finished bytes.
    pub fn reap(self) -> (r: Vec<u8>)
        ensures
            r@ == self.bytes(),
    {
        self.buf
    }

    /// Appends the index of the codebook entry nearest to `x`, in as many bits
    /// as index the codebook.
    pub fn quantized(&mut self, table: &[i16], x: i16)
        requires
            old(self).wf(),
            1 <= table@.len() <= 256,
        ensures
            final(self).wf(),
            final(self).written() == old(self).written() + code_bits(table@, x as int),
    {
        let code = quantize(table, x);
        proof {
            vstd::arithmetic::power2::lemma2_to64();
            lemma_index_bits_bound(table@.len() as nat, 8);
        }
        let mut bits: u32 = 0;
        let mut m: usize = table.len();
        while m > 1
            invariant
                1 <= m <= 256,
                index_bits(table@.len() as nat) == bits + index_bits(m as nat),
                bits + index_bits(m as nat) <= 8,
            decreases m,
        {
            m = m / 2;
            bits = bits + 1;
        }
        self.pack(code, bits);
    }
}

impl Default for Output {
    /// An empty stream.
    fn default() -> (r: Self)
        ensures
            r.wf(),
            r.written() == Seq::<bool>::empty(),
            r.bytes() == Seq::<u8>::empty(),
    {
        Output::new()
    }
}

impl Output {
    /// Appends one frame: the energy code, and for speech a repeat flag of 0,
    /// the period code and the coefficient codes (ten when the coded period
    /// is voiced, four otherwise). `energy` is capped at 5514, `pitch` is in
    /// samples and `ks` are reflection coefficients in Q9.
    pub fn frame(&mut self, energy: u16, pitch: u8, ks: &[i16; 10])
        requires
            old(self).wf(),
        ensures
            final(self).wf(),
            final(self).written() == old(self).written() + frame_bits(energy, pitch, ks@),
    {
        let ghost w0 = self.written();
        let capped: u16 = if energy > 5514 { 5514 } else { energy };
        let e = quantize(&ENERGY, capped as i16);
        self.pack(e, 4);
        if e > 0 {
            let p = self.speech(pitch, ks);
            assert(self.written() =~= w0 + (field_bits(e as nat, 4) + speech_bits(pitch, ks@)));
            if PERIOD[p as usize] != 0 {
                self.voiced(ks);
                assert(self.written() =~= w0 + (field_bits(e as nat, 4) + speech_bits(pitch, ks@)
                    + voiced_bits(ks@)));
            }
        }
    }

    /// Appends the repeat flag, the period code and the first four coefficient
    /// codes; returns the period code.
    fn speech(&mut self, pitch: u8, ks: &[i16; 10]) -> (p: u8)
        requires
            old(self).wf(),
        ensures
            final(self).wf(),
            final(self).written() == old(self).written() + speech_bits(pitch, ks@),
            p == nearest(PERIOD@, pitch as int),
            p < 64,
    {
        let ghost w0 = self.written();
        proof {
            reveal_with_fuel(index_bits, 8);
            assert(index_bits(64) == 6);
        }
        self.pack(0, 1);
        let p = quantize(&PERIOD, pitch as i16);
        self.pack(p, 6);
        self.quantized(&K1, ks[0]);
        self.quantized(&K2, ks[1]);
        self.quantized(&K3, ks[2]);
        self.quantized(&K4, ks[3]);
        assert(self.written() =~= w0 + speech_bits(pitch, ks@));
        p
    }

    /// Appends the codes of the last six coefficients.
    fn voiced(&mut self, ks: &[i16; 10])
        requires
            old(self).wf(),
        ensures
            final(self).wf(),
            final(self).written() == old(self).written() + voiced_bits(ks@),
    {
        let ghost w0 = self.written();
        self.quantized(&K5, ks[4]);
        self.quantized(&K6, ks[5]);
        self.quantized(&K7, ks[6]);
        self.quantized(&K8, ks[7]);
        self.quantized(&K9, ks[8]);
        self.quantized(&K10, ks[9]);
        assert(self.written() =~= w0 + voiced_bits(ks@));
    }

    /// Appends the end-of-stream code and pads the last byte.
    pub fn end_stream(&mut self)
        requires
            old(self).wf(),
        ensures
            final(self).wf(),
            final(self).written() == old(self).written() + end_bits(),
    {
        let ghost w0 = self.written();
        self.pack(15, 4);
        self.pack(0, 7);
        assert(self.written() =~= w0 + end_bits());
    }
}

/// The bits that an output holds are the bits of its bytes.
pub proof fn lemma_written_bits(o: Output)
    requires
        o.wf(),
    ensures
        o.written().len() == o.len_bits(),
        o.len_bits() <= o.bytes().len() * 8,
        forall|n: int| 0 <= n < o.len_bits() ==> #[trigger] o.written()[n] == (bit_at(o.bytes(), n) == 1),
{
}

/// A field that an output holds at bit `pos` reads back as its value.
pub proof fn lemma_field_read_back(o: Output, pos: int, v: nat, len: nat)
    requires
        o.wf(),
        0 <= pos,
        pos + len <= o.len_bits(),
        v < pow2(len),
        o.written().subrange(pos, pos + len) == field_bits(v, len),
    ensures
        field_value(o.bytes(), pos, len) == v,
{
    lemma_written_bits(o);
    assert forall|i: int| 0 <= i < len implies (#[trigger] bit_at(o.bytes(), pos + i) == 1) == ((v / pow2(
        (len - 1 - i) as nat,
    )) % 2 == 1) by {
        assert(o.written().subrange(pos, pos + len)[i] == o.written()[pos + i]);
    }
    lemma_read_field(o.bytes(), pos, v, len, len);
    vstd::arithmetic::power2::lemma2_to64();
    assert((len - len) as nat == 0);
    assert(v / 1 == v);
}

/// Packing a value of `len` bits and reading `len` bits at the same offset
/// gives the value back.
pub proof fn lemma_pack_round_trip(before: Output, after: Output, val: u8, len: u32)
    requires
        before.wf(),
        after.wf(),
        1 <= len <= 8,
        val < pow2(len as nat),
        after.written() == before.written() + field_bits(val as nat, len as nat),
    ensures
        before.len_bits() + len <= after.bytes().len() * 8,
        field_value(after.bytes(), before.len_bits() as int, len as nat) == val,
{
    lemma_written_bits(before);
    lemma_written_bits(after);
    let pos = before.len_bits() as int;
    assert(after.written().subrange(pos, pos + len) =~= field_bits(val as nat, len as nat));
    lemma_field_read_back(after, pos, val as nat, len as nat);
}

/// The nearest entry among the first `n` is one of them, no farther than any
/// of them, and strictly nearer than those before it.
pub proof fn lemma_nearest_in(t: Seq<i16>, x: int, n: nat)
    requires
        1 <= n <= t.len(),
    ensures
        nearest_in(t, x, n) < n,
        forall|j: int| 0 <= j < n ==> dist(t[nearest_in(t, x, n) as int] as int, x) <= dist(#[trigger] t[j] as int, x),
        forall|j: int| 0 <= j < nearest_in(t, x, n) ==> dist(t[nearest_in(t, x, n) as int] as int, x) < dist(#[trigger] t[j] as int, x),
    decreases n,
{
    if n > 1 {
        lemma_nearest_in(t, x, (n - 1) as nat);
    }
}

/// A capped energy never takes the end-of-stream code.
pub proof fn lemma_energy_index_not_stop(energy: u16)
    ensures
        energy_index(energy) < 15,
{
    let x = if energy > 5514 { 5514 } else { energy as int };
    lemma_nearest_in(ENERGY@, x, 15);
    assert(ENERGY@[14] == 5514 && ENERGY@[15] == 7789);
    reveal_with_fuel(nearest_in, 2);
}

proof fn lemma_code_fits(t: Seq<i16>, x: int, bits: nat)
    requires
        t.len() == pow2(bits),
        index_bits(t.len()) == bits,
    ensures
        nearest(t, x) < pow2(bits),
        code_bits(t, x) == field_bits(nearest(t, x), bits),
{
    vstd::arithmetic::power2::lemma_pow2_pos(bits);
    lemma_nearest_in(t, x, t.len());
}

/// A frame that the packer writes is read back as a frame of the same width,
/// with its energy code, which is never the end-of-stream code, and, for
/// speech, no repeat flag and the period of its period code.
pub proof fn lemma_frame_closure(before: Output, after: Output, energy: u16, pitch: u8, ks: Seq<i16>)
    requires
        before.wf(),
        after.wf(),
        ks.len() == 10,
        after.written() == before.written() + frame_bits(energy, pitch, ks),
    ensures
        frame_fits(after.bytes(), before.len_bits() as int),
        frame_width(after.bytes(), before.len_bits() as int) == frame_bits(energy, pitch, ks).len(),
        energy_code(after.bytes(), before.len_bits() as int) == energy_index(energy),
        energy_code(after.bytes(), before.len_bits() as int) != 15,
        is_speech_frame(after.bytes(), before.len_bits() as int) ==> {
            &&& !frame_repeats(after.bytes(), before.len_bits() as int)
            &&& frame_period(after.bytes(), before.len_bits() as int) == coded(PERIOD@, pitch as i16)
            &&& frame_k(after.bytes(), before.len_bits() as int) == coded_k(pitch, ks)
        },
{
    lemma_written_bits(before);
    lemma_written_bits(after);
    vstd::arithmetic::power2::lemma2_to64();
    reveal_with_fuel(index_bits, 8);
    let w = after.written();
    let pos = before.len_bits() as int;
    let e = energy_index(energy);
    lemma_energy_index_not_stop(energy);
    lemma_code_fits(K1@, ks[0] as int, 5);
    lemma_code_fits(K2@, ks[1] as int, 5);
    lemma_code_fits(K3@, ks[2] as int, 4);
    lemma_code_fits(K4@, ks[3] as int, 4);
    lemma_code_fits(K5@, ks[4] as int, 4);
    lemma_code_fits(K6@, ks[5] as int, 4);
    lemma_code_fits(K7@, ks[6] as int, 4);
    lemma_code_fits(K8@, ks[7] as int, 3);
    lemma_code_fits(K9@, ks[8] as int, 3);
    lemma_code_fits(K10@, ks[9] as int, 3);
    lemma_code_fits(PERIOD@, pitch as int, 6);
    assert(w.subrange(pos, pos + 4) =~= field_bits(e, 4));
    lemma_field_read_back(after, pos, e, 4);
    if e != 0 {
        let p = nearest(PERIOD@, pitch as int);
        assert(w.subrange(pos + 4, pos + 5) =~= field_bits(0, 1));
        lemma_field_read_back(after, pos + 4, 0, 1);
        assert(w.subrange(pos + 5, pos + 11) =~= field_bits(p, 6));
        lemma_field_read_back(after, pos + 5, p, 6);
        lemma_read_coeffs(before, after, energy, pitch, ks);
        lemma_frame_k(after.bytes(), pos, pitch, ks);
    }
}

proof fn lemma_frame_k(buf: Seq<u8>, pos: int, pitch: u8, ks: Seq<i16>)
    requires
        ks.len() == 10,
        frame_period(buf, pos) == coded(PERIOD@, pitch as i16),
        ({
            let q = pos + 11;
            &&& field_value(buf, q, 5) == nearest(K1@, ks[0] as int)
            &&& field_value(buf, q + 5, 5) == nearest(K2@, ks[1] as int)
            &&& field_value(buf, q + 10, 4) == nearest(K3@, ks[2] as int)
            &&& field_value(buf, q + 14, 4) == nearest(K4@, ks[3] as int)
            &&& coded(PERIOD@, pitch as i16) != 0 ==> {
                &&& field_value(buf, q + 18, 4) == nearest(K5@, ks[4] as int)
                &&& field_value(buf, q + 22, 4) == nearest(K6@, ks[5] as int)
                &&& field_value(buf, q + 26, 4) == nearest(K7@, ks[6] as int)
                &&& field_value(buf, q + 30, 3) == nearest(K8@, ks[7] as int)
                &&& field_value(buf, q + 33, 3) == nearest(K9@, ks[8] as int)
                &&& field_value(buf, q + 36, 3) == nearest(K10@, ks[9] as int)
            }
        }),
    ensures
        frame_k(buf, pos) == coded_k(pitch, ks),
{
    assert(frame_k(buf, pos) =~= coded_k(pitch, ks));
}

proof fn lemma_read_coeffs(before: Output, after: Output, energy: u16, pitch: u8, ks: Seq<i16>)
    requires
        before.wf(),
        after.wf(),
        ks.len() == 10,
        after.written() == before.written() + frame_bits(energy, pitch, ks),
        energy_index(energy) != 0,
    ensures
        ({
            let buf = after.bytes();
            let q = before.len_bits() as int + 11;
            &&& field_value(buf, q, 5) == nearest(K1@, ks[0] as int)
            &&& field_value(buf, q + 5, 5) == nearest(K2@, ks[1] as int)
            &&& field_value(buf, q + 10, 4) == nearest(K3@, ks[2] as int)
            &&& field_value(buf, q + 14, 4) == nearest(K4@, ks[3] as int)
            &&& coded(PERIOD@, pitch as i16) != 0 ==> {
                &&& field_value(buf, q + 18, 4) == nearest(K5@, ks[4] as int)
                &&& field_value(buf, q + 22, 4) == nearest(K6@, ks[5] as int)
                &&& field_value(buf, q + 26, 4) == nearest(K7@, ks[6] as int)
                &&& field_value(buf, q + 30, 3) == nearest(K8@, ks[7] as int)
                &&& field_value(buf, q + 33, 3) == nearest(K9@, ks[8] as int)
                &&& field_value(buf, q + 36, 3) == nearest(K10@, ks[9] as int)
            }
        }),
{
    lemma_written_bits(before);
    lemma_written_bits(after);
    vstd::arithmetic::power2::lemma2_to64();
    reveal_with_fuel(index_bits, 8);
    let w = after.written();
    let q = before.len_bits() as int + 11;
    lemma_code_fits(K1@, ks[0] as int, 5);
    lemma_code_fits(K2@, ks[1] as int, 5);
    lemma_code_fits(K3@, ks[2] as int, 4);
    lemma_code_fits(K4@, ks[3] as int, 4);
    lemma_code_fits(PERIOD@, pitch as int, 6);
    assert(w.subrange(q, q + 5) =~= code_bits(K1@, ks[0] as int));
    lemma_field_read_back(after, q, nearest(K1@, ks[0] as int), 5);
    assert(w.subrange(q + 5, q + 10) =~= code_bits(K2@, ks[1] as int));
    lemma_field_read_back(after, q + 5, nearest(K2@, ks[1] as int), 5);
    assert(w.subrange(q + 10, q + 14) =~= code_bits(K3@, ks[2] as int));
    lemma_field_read_back(after, q + 10, nearest(K3@, ks[2] as int), 4);
    assert(w.subrange(q + 14, q + 18) =~= code_bits(K4@, ks[3] as int));
    lemma_field_read_back(after, q + 14, nearest(K4@, ks[3] as int), 4);
    if coded(PERIOD@, pitch as i16) != 0 {
        lemma_read_voiced_coeffs(before, after, energy, pitch, ks);
    }
}

/// The end of a stream is read back as the end-of-stream frame.
pub proof fn lemma_end_closure(before: Output, after: Output)
    requires
        before.wf(),
        after.wf(),
        after.written() == before.written() + end_bits(),
    ensures
        frame_fits(after.bytes(), before.len_bits() as int),
        energy_code(after.bytes(), before.len_bits() as int) == 15,
        frame_width(after.bytes(), before.len_bits() as int) == 4,
{
    lemma_written_bits(before);
    lemma_written_bits(after);
    vstd::arithmetic::power2::lemma2_to64();
    let w = after.written();
    let pos = before.len_bits() as int;
    assert(w.subrange(pos, pos + 4) =~= field_bits(15, 4));
    lemma_field_read_back(after, pos, 15, 4);
}

proof fn lemma_read_voiced_coeffs(
    before: Output,
    after: Output,
    energy: u16,
    pitch: u8,
    ks: Seq<i16>,
)
    requires
        before.wf(),
        after.wf(),
        ks.len() == 10,
        after.written() == before.written() + frame_bits(energy, pitch, ks),
        energy_index(energy) != 0,
        coded(PERIOD@, pitch as i16) != 0,
    ensures
        ({
            let buf = after.bytes();
            let q = before.len_bits() as int + 11;
            &&& field_value(buf, q + 18, 4) == nearest(K5@, ks[4] as int)
            &&& field_value(buf, q + 22, 4) == nearest(K6@, ks[5] as int)
            &&& field_value(buf, q + 26, 4) == nearest(K7@, ks[6] as int)
            &&& field_value(buf, q + 30, 3) == nearest(K8@, ks[7] as int)
            &&& field_value(buf, q + 33, 3) == nearest(K9@, ks[8] as int)
            &&& field_value(buf, q + 36, 3) == nearest(K10@, ks[9] as int)
        }),
{
    lemma_written_bits(before);
    lemma_written_bits(after);
    vstd::arithmetic::power2::lemma2_to64();
    reveal_with_fuel(index_bits, 8);
    let w = after.written();
    let q = before.len_bits() as int + 11;
    lemma_code_fits(K1@, ks[0] as int, 5);
    lemma_code_fits(K2@, ks[1] as int, 5);
    lemma_code_fits(K3@, ks[2] as int, 4);
    lemma_code_fits(K4@, ks[3] as int, 4);
    lemma_code_fits(K5@, ks[4] as int, 4);
    lemma_code_fits(K6@, ks[5] as int, 4);
    lemma_code_fits(K7@, ks[6] as int, 4);
    lemma_code_fits(K8@, ks[7] as int, 3);
    lemma_code_fits(K9@, ks[8] as int, 3);
    lemma_code_fits(K10@, ks[9] as int, 3);
    lemma_code_fits(PERIOD@, pitch as int, 6);
    assert(w.subrange(q + 18, q + 22) =~= code_bits(K5@, ks[4] as int));
    lemma_field_read_back(after, q + 18, nearest(K5@, ks[4] as int), 4);
    assert(w.subrange(q + 22, q + 26) =~= code_bits(K6@, ks[5] as int));
    lemma_field_read_back(after, q + 22, nearest(K6@, ks[5] as int), 4);
    assert(w.subrange(q + 26, q + 30) =~= code_bits(K7@, ks[6] as int));
    lemma_field_read_back(after, q + 26, nearest(K7@, ks[6] as int), 4);
    assert(w.subrange(q + 30, q + 33) =~= code_bits(K8@, ks[7] as int));
    lemma_field_read_back(after, q + 30, nearest(K8@, ks[7] as int), 3);
    assert(w.subrange(q + 33, q + 36) =~= code_bits(K9@, ks[8] as int));
    lemma_field_read_back(after, q + 33, nearest(K9@, ks[8] as int), 3);
    assert(w.subrange(q + 36, q + 39) =~= code_bits(K10@, ks[9] as int));
    lemma_field_read_back(after, q + 36, nearest(K10@, ks[9] as int), 3);
}

/// A bit set into the free part of a partly filled byte lands where it is
/// read back, and leaves the bits above it free.
proof fn lemma_or_bit(l: u8, b: u8, p: u32)
    requires
        b <= 1,
        0 < p < 8,
        l >> p == 0,
    ensures
        ((l | (b << p)) >> p) & 1u8 == b,
        p + 1 < 8 ==> (l | (b << p)) >> ((p + 1) as u32) == 0,
{
    assert(((l | (b << p)) >> p) & 1u8 == b) by (bit_vector)
        requires b <= 1u8, p < 8u32, l >> p == 0u8;
    let q = (p + 1) as u32;
    assert(q < 8u32 ==> (l | (b << p)) >> q == 0u8) by (bit_vector)
        requires b <= 1u8, p < 8u32, l >> p == 0u8, q == p + 1u32;
}

/// A codebook of at most `pow2(b)` entries is indexed by at most `b` bits.
proof fn lemma_index_bits_bound(n: nat, b: nat)
    requires
        n <= pow2(b),
    ensures
        index_bits(n) <= b,
    decreases b,
{
    vstd::arithmetic::power2::lemma2_to64();
    if n > 1 {
        lemma_pow2_unfold(b);
        lemma_index_bits_bound(n / 2, (b - 1) as nat);
    }
}

} // verus!
