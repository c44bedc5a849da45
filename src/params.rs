use crate::bits::field_value;
use crate::bitstream::BitStream;
use crate::tables::{lemma_table_ranges, ENERGY, K1, K10, K2, K3, K4, K5, K6, K7, K8, K9, PERIOD};
use vstd::prelude::*;

verus! {

/// One frame's worth of decoded synthesis parameters.
#[derive(Clone, Copy)]
pub struct Params {
    /// Excitation amplitude; 0 is silence.
    pub energy: u16,
    /// Pitch period in samples; 0 is unvoiced.
    pub period: u8,
    /// Reflection coefficients in Q9.
    pub k: [i16; 10],
    /// Set once the end-of-stream frame has been read.
    pub is_stop: bool,
}

/// Every value the codebooks can produce, or a blend of such values.
pub open spec fn params_valid(p: Params) -> bool {
    &&& p.energy <= 7789
    &&& p.period <= 159
    &&& forall|i: int| 0 <= i < 10 ==> -512 < #[trigger] p.k[i] < 512
}

/// Integer division by 8 rounding toward zero.
pub open spec fn div8_toward_zero(n: int) -> int {
    if n >= 0 {
        n / 8
    } else {
        -((-n) / 8)
    }
}

/// The blend of `x0` and `x1` after `t` of 8 steps, rounded as the hardware does.
pub open spec fn lerp(x0: int, x1: int, t: int) -> int {
    div8_toward_zero(x0 * 8 + (x1 - x0) * t)
}

/// `p` is the blend of `last` and `next` after `t` of 8 steps.
pub open spec fn is_interpolation(last: Params, next: Params, t: int, p: Params) -> bool {
    &&& p.energy == lerp(last.energy as int, next.energy as int, t)
    &&& p.period == lerp(last.period as int, next.period as int, t)
    &&& forall|i: int| 0 <= i < 10 ==> #[trigger] p.k[i] == lerp(last.k[i] as int, next.k[i] as int, t)
    &&& !p.is_stop
}

/// The energy code at the start of the frame at bit `pos`.
pub open spec fn energy_code(buf: Seq<u8>, pos: int) -> nat {
    field_value(buf, pos, 4)
}

/// Whether the frame at `pos` carries a repeat flag and a period.
pub open spec fn is_speech_frame(buf: Seq<u8>, pos: int) -> bool {
    energy_code(buf, pos) != 0 && energy_code(buf, pos) != 15
}

/// The pitch period that the speech frame at `pos` carries.
pub open spec fn frame_period(buf: Seq<u8>, pos: int) -> i16 {
    PERIOD@[field_value(buf, pos + 5, 6) as int]
}

/// Whether the speech frame at `pos` reuses the previous coefficients.
pub open spec fn frame_repeats(buf: Seq<u8>, pos: int) -> bool {
    field_value(buf, pos + 4, 1) == 1
}

/// The number of bits the frame at `pos` occupies.
pub open spec fn frame_width(buf: Seq<u8>, pos: int) -> nat {
    if !is_speech_frame(buf, pos) {
        4
    } else if frame_repeats(buf, pos) {
        11
    } else if frame_period(buf, pos) == 0 {
        29
    } else {
        50
    }
}

/// The whole frame at `pos` lies inside the buffer.
pub open spec fn frame_fits(buf: Seq<u8>, pos: int) -> bool {
    pos + frame_width(buf, pos) <= buf.len() * 8
}

/// The coefficients whose codes start at bit `q`: four for unvoiced speech,
/// the rest then zero, ten for voiced speech.
pub open spec fn coeffs_at(buf: Seq<u8>, q: int, is_voiced: bool) -> Seq<i16> {
    let head = seq![
        K1@[field_value(buf, q, 5) as int],
        K2@[field_value(buf, q + 5, 5) as int],
        K3@[field_value(buf, q + 10, 4) as int],
        K4@[field_value(buf, q + 14, 4) as int],
    ];
    if !is_voiced {
        head + seq![0i16, 0i16, 0i16, 0i16, 0i16, 0i16]
    } else {
        head + seq![
            K5@[field_value(buf, q + 18, 4) as int],
            K6@[field_value(buf, q + 22, 4) as int],
            K7@[field_value(buf, q + 26, 4) as int],
            K8@[field_value(buf, q + 30, 3) as int],
            K9@[field_value(buf, q + 33, 3) as int],
            K10@[field_value(buf, q + 36, 3) as int],
        ]
    }
}

/// The coefficients that a non-repeat speech frame at `pos` carries.
pub open spec fn frame_k(buf: Seq<u8>, pos: int) -> Seq<i16> {
    coeffs_at(buf, pos + 11, frame_period(buf, pos) != 0)
}

/// `after` is what reading the frame at `pos` makes of the parameters `before`.
pub open spec fn reads_frame(before: Params, buf: Seq<u8>, pos: int, after: Params) -> bool {
    let e = energy_code(buf, pos);
    if e == 0 {
        after == Params { energy: 0, ..before }
    } else if e == 15 {
        after == Params { energy: 0, is_stop: true, ..before }
    } else {
        &&& after.energy == ENERGY@[e as int]
        &&& after.period == frame_period(buf, pos)
        &&& after.is_stop == before.is_stop
        &&& frame_repeats(buf, pos) ==> after.k == before.k
        &&& !frame_repeats(buf, pos) ==> after.k@ == frame_k(buf, pos)
    }
}

/// Voicing of a parameter set: a nonzero period.
pub open spec fn voiced(p: Params) -> bool {
    p.period != 0
}

/// Interpolation is skipped at a change of voicing, at the onset of speech,
/// and when unvoiced speech falls silent.
pub open spec fn inhibits(last: Params, next: Params) -> bool {
    ||| voiced(last) != voiced(next)
    ||| (last.energy == 0 && next.energy != 0)
    ||| (!voiced(last) && next.energy == 0)
}

/// Blends two integers after `t` of 8 steps.
fn lerp_exec(x0: i32, x1: i32, t: i32) -> (r: i32)
    requires
        -65536 <= x0 <= 65536,
        -65536 <= x1 <= 65536,
        0 <= t <= 8,
    ensures
        r == lerp(x0 as int, x1 as int, t as int),
        x0 <= x1 ==> x0 <= r <= x1,
        x1 <= x0 ==> x1 <= r <= x0,
{
    proof {
        lemma_lerp_between(x0 as int, x1 as int, t as int);
    }
    let n = x0 * 8 + (x1 - x0) * t;
    if n >= 0 {
        n / 8
    } else {
        -((-n) / 8)
    }
}

/// The blend lies between its two ends.
pub proof fn lemma_lerp_between(x0: int, x1: int, t: int)
    requires
        0 <= t <= 8,
    ensures
        x0 <= x1 ==> x0 <= lerp(x0, x1, t) <= x1,
        x1 <= x0 ==> x1 <= lerp(x0, x1, t) <= x0,
{
    let n = x0 * 8 + (x1 - x0) * t;
    if x0 <= x1 {
        assert(8 * x0 <= n <= 8 * x1) by (nonlinear_arith)
            requires n == x0 * 8 + (x1 - x0) * t, 0 <= t <= 8, x0 <= x1;
    } else {
        assert(8 * x1 <= n <= 8 * x0) by (nonlinear_arith)
            requires n == x0 * 8 + (x1 - x0) * t, 0 <= t <= 8, x1 <= x0;
    }
}

/// Reads the coefficient codes of a non-repeat speech frame.
fn read_coeffs(bs: &mut BitStream, is_voiced: bool) -> (r: [i16; 10])
    requires
        old(bs).pos() + (if is_voiced { 39int } else { 18int }) <= old(bs).bytes().len() * 8,
        old(bs).bytes().len() * 8 <= usize::MAX,
    ensures
        r@ == coeffs_at(old(bs).bytes(), old(bs).pos() as int, is_voiced),
        forall|i: int| 0 <= i < 10 ==> -512 < #[trigger] r[i] < 512,
        final(bs).bytes() == old(bs).bytes(),
        final(bs).pos() == old(bs).pos() + (if is_voiced { 39int } else { 18int }),
{
    let ghost buf = bs.bytes();
    let ghost q = bs.pos() as int;
    proof {
        vstd::arithmetic::power2::lemma2_to64();
        lemma_table_ranges();
    }
    let c0 = bs.get_bits(5);
    let c1 = bs.get_bits(5);
    let c2 = bs.get_bits(4);
    let c3 = bs.get_bits(4);
    let k0 = K1[c0];
    let k1 = K2[c1];
    let k2 = K3[c2];
    let k3 = K4[c3];
    if is_voiced {
        let c4 = bs.get_bits(4);
        let c5 = bs.get_bits(4);
        let c6 = bs.get_bits(4);
        let c7 = bs.get_bits(3);
        let c8 = bs.get_bits(3);
        let c9 = bs.get_bits(3);
        let k = [k0, k1, k2, k3, K5[c4], K6[c5], K7[c6], K8[c7], K9[c8], K10[c9]];
        assert(k@ =~= coeffs_at(buf, q, is_voiced));
        k
    } else {
        let k = [k0, k1, k2, k3, 0, 0, 0, 0, 0, 0];
        assert(k@ =~= coeffs_at(buf, q, is_voiced));
        k
    }
}

/// The blend starts at the first value and ends at the second.
pub proof fn lemma_lerp_ends(x0: int, x1: int)
    ensures
        lerp(x0, x1, 0) == x0,
        lerp(x0, x1, 8) == x1,
{
    assert(x0 * 8 + (x1 - x0) * 0 == x0 * 8);
    assert(x0 * 8 + (x1 - x0) * 8 == x1 * 8);
}

/// Rounding toward zero keeps the order of its arguments.
proof fn lemma_div8_monotone(a: int, b: int)
    requires
        a <= b,
    ensures
        div8_toward_zero(a) <= div8_toward_zero(b),
{
    if a < 0 && b >= 0 {
    } else if a < 0 {
        vstd::arithmetic::div_mod::lemma_div_is_ordered(-b, -a, 8);
    } else {
        vstd::arithmetic::div_mod::lemma_div_is_ordered(a, b, 8);
    }
}

/// Between two values the blend moves in one direction only: it never
/// decreases over the 8 steps when the second value is the larger, and never
/// increases when it is the smaller.
pub proof fn lemma_lerp_monotone(x0: int, x1: int, t1: int, t2: int)
    requires
        0 <= t1 <= t2 <= 8,
    ensures
        x0 <= x1 ==> lerp(x0, x1, t1) <= lerp(x0, x1, t2),
        x1 <= x0 ==> lerp(x0, x1, t2) <= lerp(x0, x1, t1),
{
    let d = x1 - x0;
    if x0 == x1 {
        assert(d * t1 == 0 && d * t2 == 0);
    } else if x0 < x1 {
        assert(d * t1 <= d * t2) by (nonlinear_arith)
            requires d >= 0, t1 <= t2;
        lemma_div8_monotone(x0 * 8 + d * t1, x0 * 8 + d * t2);
    } else {
        assert(d * t2 <= d * t1) by (nonlinear_arith)
            requires d <= 0, t1 <= t2;
        lemma_div8_monotone(x0 * 8 + d * t2, x0 * 8 + d * t1);
    }
}

/// Interpolated parameters equal the previous frame's at step 0 and the new
/// frame's at step 8, but for the end-of-stream flag.
pub proof fn lemma_interpolation_ends(last: Params, next: Params, at_start: Params, at_end: Params)
    requires
        is_interpolation(last, next, 0, at_start),
        is_interpolation(last, next, 8, at_end),
    ensures
        at_start.energy == last.energy && at_start.period == last.period && at_start.k@ == last.k@,
        at_end.energy == next.energy && at_end.period == next.period && at_end.k@ == next.k@,
{
    lemma_lerp_ends(last.energy as int, next.energy as int);
    lemma_lerp_ends(last.period as int, next.period as int);
    assert forall|i: int| 0 <= i < 10 implies at_start.k[i] == last.k[i] && at_end.k[i] == next.k[i] by {
        lemma_lerp_ends(last.k[i] as int, next.k[i] as int);
    }
    assert(at_start.k@ =~= last.k@);
    assert(at_end.k@ =~= next.k@);
}

impl Params {
    /// Silence with no coefficients, before any end-of-stream frame.
    pub open spec fn is_zero(&self) -> bool {
        &&& self.energy == 0
        &&& self.period == 0
        &&& forall|i: int| 0 <= i < 10 ==> #[trigger] self.k[i] == 0
        &&& !self.is_stop
    }

    /// Silence with no coefficients.
    pub fn zero() -> (r: Params)
        ensures
            r.is_zero(),
            params_valid(r),
    {
        Params { energy: 0, period: 0, k: [0i16; 10], is_stop: false }
    }

    /// Reads one frame from `bs` into these parameters.
    pub fn read(&mut self, bs: &mut BitStream)
        requires
            params_valid(*old(self)),
            frame_fits(old(bs).bytes(), old(bs).pos() as int),
            old(bs).bytes().len() * 8 <= usize::MAX,
        ensures
            reads_frame(*old(self), old(bs).bytes(), old(bs).pos() as int, *final(self)),
            params_valid(*final(self)),
            final(bs).bytes() == old(bs).bytes(),
            final(bs).pos() == old(bs).pos() + frame_width(old(bs).bytes(), old(bs).pos() as int),
    {
        proof {
            vstd::arithmetic::power2::lemma2_to64();
            lemma_table_ranges();
        }
        let energy = bs.get_bits(4);
        if energy == 0 {
            self.energy = 0;
        } else if energy == 15 {
            self.energy = 0;
            self.is_stop = true;
        } else {
            self.energy = ENERGY[energy] as u16;
            let repeat = bs.get_bits(1);
            let period_code = bs.get_bits(6);
            self.period = PERIOD[period_code] as u8;
            if repeat == 0 {
                let is_voiced = self.period != 0;
                self.k = read_coeffs(bs, is_voiced);
            }
        }
    }

    /// The blend of `self` and `next_params` after `t` of 8 subframes.
    pub fn interpolate(&self, next_params: &Self, t: i32) -> (r: Self)
        requires
            params_valid(*self),
            params_valid(*next_params),
            0 <= t <= 8,
        ensures
            is_interpolation(*self, *next_params, t as int, r),
            params_valid(r),
    {
        let energy = lerp_exec(self.energy as i32, next_params.energy as i32, t) as u16;
        let period = lerp_exec(self.period as i32, next_params.period as i32, t) as u8;
        let mut k = [0i16; 10];
        let mut i: usize = 0;
        while i < 10
            invariant
                params_valid(*self),
                params_valid(*next_params),
                0 <= t <= 8,
                i <= 10,
                forall|j: int|
                    0 <= j < i ==> #[trigger] k[j] == lerp(self.k[j] as int, next_params.k[j] as int, t as int),
                forall|j: int| 0 <= j < i ==> -512 < #[trigger] k[j] < 512,
            decreases 10 - i,
        {
            let v = lerp_exec(self.k[i] as i32, next_params.k[i] as i32, t);
            k[i] = v as i16;
            i = i + 1;
        }
        Params { energy, period, k, is_stop: false }
    }

    /// A nonzero period means voiced speech.
    pub fn is_voiced(&self) -> (r: bool)
        ensures
            r == voiced(*self),
    {
        self.period != 0
    }

    /// Whether the step from `self` to `next_params` skips interpolation.
    pub fn inhibit_interp(&self, next_params: &Self) -> (r: bool)
        ensures
            r == inhibits(*self, *next_params),
    {
        self.is_voiced() != next_params.is_voiced()
            || (self.energy == 0 && next_params.energy != 0)
            || (!self.is_voiced() && next_params.energy == 0)
    }
}

} // verus!
