use crate::bitstream::BitStream;
use crate::params::{
    frame_fits, frame_width, inhibits, is_interpolation, params_valid, reads_frame, voiced, Params,
};
use crate::tables::CHIRP;
use vstd::prelude::*;

verus! {

/// One step of the 16-bit Galois shift register that drives unvoiced excitation.
pub open spec fn lfsr_next(r: u16) -> u16 {
    (r >> 1u16) ^ (if r & 1u16 != 0 { 0xb800u16 } else { 0u16 })
}

/// Advances the noise register by one step.
pub fn lfsr_step(r: u16) -> (n: u16)
    ensures
        n == lfsr_next(r),
{
    (r >> 1u16) ^ (if r & 1u16 != 0 { 0xb800u16 } else { 0u16 })
}

/// `k * v` in Q9: the product of a coefficient and a sample, shifted down
/// arithmetically by 9 bits and narrowed to 16 bits.
pub open spec fn q9_mul(k: i16, v: i16) -> i16 {
    (((k as i32) * (v as i32)) as i32 >> 9u32) as i16
}

/// The lattice's running value once stages 9 down to `i` have acted on the
/// excitation `u10`, with coefficients `k` and delay line `x`.
pub open spec fn lattice_u(k: Seq<i16>, x: Seq<i16>, u10: i16, i: int) -> i16
    decreases 10 - i,
{
    if i >= 10 {
        u10
    } else {
        lattice_u(k, x, u10, i + 1).wrapping_sub(q9_mul(k[i], x[i]))
    }
}

/// Clamps a sample to the range the synthesis filter keeps.
pub open spec fn clamp_sample(u: i16) -> i16 {
    if u < -16384i16 {
        -16384i16
    } else if u > 16383i16 {
        16383i16
    } else {
        u
    }
}

/// The filter's output sample for excitation `u10`.
pub open spec fn lattice_out(k: Seq<i16>, x: Seq<i16>, u10: i16) -> i16 {
    clamp_sample(lattice_u(k, x, u10, 0))
}

/// The delay line after the filter has taken excitation `u10`.
pub open spec fn lattice_state(k: Seq<i16>, x: Seq<i16>, u10: i16) -> Seq<i16> {
    Seq::new(
        11,
        |j: int|
            if j == 0 {
                lattice_out(k, x, u10)
            } else {
                x[j - 1].wrapping_add(q9_mul(k[j - 1], lattice_u(k, x, u10, j - 1)))
            },
    )
}

/// The chirp entry at phase `c`; zero past the end of the pulse.
pub open spec fn chirp_at(c: u8) -> i8 {
    if c < 52 {
        CHIRP@[c as int] as i8
    } else {
        0
    }
}

/// Voiced excitation: the chirp at phase `c` scaled by `energy / 64`.
pub open spec fn voiced_excitation(c: u8, energy: u16) -> i16 {
    (((chirp_at(c) as i32) * (energy as i32)) as i32 >> 6u32) as i16
}

/// Unvoiced excitation: plus or minus `energy`, as the register's low bit says.
pub open spec fn noise_excitation(r: u16, energy: u16) -> i16 {
    if r & 1u16 != 0 {
        energy as i16
    } else {
        (0 - energy as int) as i16
    }
}

/// The chirp phase after `c`, restarting at `period`.
pub open spec fn next_phase(c: u8, period: u8) -> u8 {
    if c + 1 >= period {
        0
    } else {
        (c + 1) as u8
    }
}

/// The subframe index in force after the sample at counters `major`, `minor`.
pub open spec fn next_major(major: i32, minor: usize) -> i32 {
    if minor != 0 {
        major
    } else if major + 1 > 8 {
        8
    } else {
        (major + 1) as i32
    }
}

/// The decoder: frame parameters, interpolation counters, excitation state
/// and the synthesis filter's delay line.
pub struct Speakie {
    last_params: Params,
    new_params: Params,
    params: Params,
    interp_minor: usize,
    interp_major: i32,
    period_counter: u8,
    rand: u16,
    x: [i16; 11],
}

impl Speakie {
    /// The parameters of the previous frame.
    pub closed spec fn last_params(&self) -> Params {
        self.last_params
    }

    /// The parameters of the current frame.
    pub closed spec fn new_params(&self) -> Params {
        self.new_params
    }

    /// The interpolated parameters in force for the current subframe.
    pub closed spec fn params(&self) -> Params {
        self.params
    }

    /// The sample index within the current subframe.
    pub closed spec fn interp_minor(&self) -> usize {
        self.interp_minor
    }

    /// The subframe index within the current frame, at most 8.
    pub closed spec fn interp_major(&self) -> i32 {
        self.interp_major
    }

    /// The phase within the current pitch period.
    pub closed spec fn period_counter(&self) -> u8 {
        self.period_counter
    }

    /// The noise register.
    pub closed spec fn rand(&self) -> u16 {
        self.rand
    }

    /// The synthesis filter's delay line.
    pub closed spec fn x(&self) -> Seq<i16> {
        self.x@
    }

    /// The decoder's invariant.
    pub open spec fn wf(&self) -> bool {
        &&& params_valid(self.last_params())
        &&& params_valid(self.new_params())
        &&& params_valid(self.params())
        &&& self.interp_minor() < 25
        &&& 0 <= self.interp_major() <= 8
        &&& self.period_counter() <= 159
        &&& self.rand() != 0
        &&& self.x().len() == 11
    }

    /// A decoder in silence, with the noise register seeded to 1.
    pub fn new() -> (r: Self)
        ensures
            r.wf(),
            r.rand() == 1,
            r.interp_major() == 0,
            r.interp_minor() == 0,
            r.period_counter() == 0,
            r.x() == Seq::new(11, |j: int| 0i16),
            r.new_params().is_zero(),
            r.last_params().is_zero(),
            r.params().is_zero(),
    {
        let r = Speakie {
            last_params: Params::zero(),
            new_params: Params::zero(),
            params: Params::zero(),
            interp_major: 0,
            interp_minor: 0,
            period_counter: 0,
            rand: 1,
            x: [0i16; 11],
        };
        assert(r.x@ =~= Seq::new(11, |j: int| 0i16));
        r
    }

    /// Reads the next frame; call once every 200 samples. Returns whether the
    /// end-of-stream frame has been read.
    pub fn process_frame(&mut self, bs: &mut BitStream) -> (r: bool)
        requires
            old(self).wf(),
            frame_fits(old(bs).bytes(), old(bs).pos() as int),
            old(bs).bytes().len() * 8 <= usize::MAX,
        ensures
            final(self).wf(),
            reads_frame(
                old(self).new_params(),
                old(bs).bytes(),
                old(bs).pos() as int,
                final(self).new_params(),
            ),
            final(self).last_params() == (if inhibits(old(self).new_params(), final(self).new_params()) {
                final(self).new_params()
            } else {
                old(self).new_params()
            }),
            final(self).interp_major() == 0,
            final(self).interp_minor() == 0,
            final(self).params() == old(self).params(),
            final(self).period_counter() == old(self).period_counter(),
            final(self).rand() == old(self).rand(),
            final(self).x() == old(self).x(),
            r == final(self).new_params().is_stop,
            final(bs).bytes() == old(bs).bytes(),
            final(bs).pos() == old(bs).pos() + frame_width(old(bs).bytes(), old(bs).pos() as int),
    {
        self.last_params = self.new_params;
        self.new_params.read(bs);
        if self.last_params.inhibit_interp(&self.new_params) {
            self.last_params = self.new_params;
        }
        self.interp_major = 0;
        self.interp_minor = 0;
        self.new_params.is_stop
    }

    /// Produces the next output sample.
    pub fn get_sample(&mut self) -> (r: i16)
        requires
            old(self).wf(),
        ensures
            final(self).wf(),
            -16384 <= r <= 16383,
            final(self).x()[0] == r,
            final(self).interp_major() == next_major(old(self).interp_major(), old(self).interp_minor()),
            final(self).interp_minor() == (old(self).interp_minor() + 1) % 25,
            final(self).last_params() == old(self).last_params(),
            final(self).new_params() == old(self).new_params(),
            old(self).interp_minor() == 0 ==> is_interpolation(
                old(self).last_params(),
                old(self).new_params(),
                final(self).interp_major() as int,
                final(self).params(),
            ),
            old(self).interp_minor() != 0 ==> final(self).params() == old(self).params(),
            voiced(final(self).params()) ==> {
                &&& final(self).rand() == old(self).rand()
                &&& final(self).period_counter() == next_phase(
                    old(self).period_counter(),
                    final(self).params().period,
                )
                &&& r == lattice_out(
                    final(self).params().k@,
                    old(self).x(),
                    voiced_excitation(old(self).period_counter(), final(self).params().energy),
                )
                &&& final(self).x() == lattice_state(
                    final(self).params().k@,
                    old(self).x(),
                    voiced_excitation(old(self).period_counter(), final(self).params().energy),
                )
            },
            !voiced(final(self).params()) ==> {
                &&& final(self).rand() == lfsr_next(old(self).rand())
                &&& final(self).period_counter() == old(self).period_counter()
                &&& r == lattice_out(
                    final(self).params().k@,
                    old(self).x(),
                    noise_excitation(final(self).rand(), final(self).params().energy),
                )
                &&& final(self).x() == lattice_state(
                    final(self).params().k@,
                    old(self).x(),
                    noise_excitation(final(self).rand(), final(self).params().energy),
                )
            },
    {
        if self.interp_minor == 0 {
            self.interp_major = if self.interp_major + 1 > 8 { 8 } else { self.interp_major + 1 };
            self.params = self.last_params.interpolate(&self.new_params, self.interp_major);
        }
        self.interp_minor = self.interp_minor + 1;
        if self.interp_minor == 25 {
            self.interp_minor = 0;
        }
        synthesize(&self.params, &mut self.period_counter, &mut self.rand, &mut self.x)
    }
}

/// Produces one sample from parameters `p`: the excitation for the chirp
/// phase or the noise register, then the synthesis filter.
pub(crate) fn synthesize(p: &Params, period_counter: &mut u8, rand: &mut u16, x: &mut [i16; 11]) -> (r: i16)
    requires
        params_valid(*p),
        *old(period_counter) <= 159,
        *old(rand) != 0,
    ensures
        *final(period_counter) <= 159,
        *final(rand) != 0,
        -16384 <= r <= 16383,
        final(x)@[0] == r,
        voiced(*p) ==> {
            &&& *final(rand) == *old(rand)
            &&& *final(period_counter) == next_phase(*old(period_counter), p.period)
            &&& r == lattice_out(p.k@, old(x)@, voiced_excitation(*old(period_counter), p.energy))
            &&& final(x)@ == lattice_state(p.k@, old(x)@, voiced_excitation(*old(period_counter), p.energy))
        },
        !voiced(*p) ==> {
            &&& *final(rand) == lfsr_next(*old(rand))
            &&& *final(period_counter) == *old(period_counter)
            &&& r == lattice_out(p.k@, old(x)@, noise_excitation(*final(rand), p.energy))
            &&& final(x)@ == lattice_state(p.k@, old(x)@, noise_excitation(*final(rand), p.energy))
        },
{
    let u10: i16;
    if p.is_voiced() {
        let chirp: i8 = if (*period_counter as usize) < 52 {
            #[verifier::truncate] (CHIRP[*period_counter as usize] as i8)
        } else {
            0
        };
        let c = chirp as i32;
        let e = p.energy as i32;
        assert(-1048576 <= c * e <= 1048576) by (nonlinear_arith)
            requires -128 <= c <= 127, 0 <= e <= 7789;
        u10 = #[verifier::truncate] (((c * e) >> 6u32) as i16);
        *period_counter = *period_counter + 1;
        if *period_counter >= p.period {
            *period_counter = 0;
        }
    } else {
        proof {
            lemma_lfsr_nonzero(*rand);
        }
        *rand = lfsr_step(*rand);
        u10 = if *rand & 1u16 != 0 {
            p.energy as i16
        } else {
            -(p.energy as i16)
        };
    }
    lattice(&p.k, x, u10)
}

/// A coefficient times a sample in Q9.
fn q9_mul_exec(k: i16, v: i16) -> (r: i16)
    ensures
        r == q9_mul(k, v),
{
    let a = k as i32;
    let b = v as i32;
    assert(-1073741824 <= a * b <= 1073741824) by (nonlinear_arith)
        requires -32768 <= a <= 32767, -32768 <= b <= 32767;
    #[verifier::truncate] (((a * b) >> 9u32) as i16)
}

/// Runs the synthesis filter for one sample.
fn lattice(k: &[i16; 10], x: &mut [i16; 11], u10: i16) -> (r: i16)
    ensures
        r == lattice_out(k@, old(x)@, u10),
        final(x)@ == lattice_state(k@, old(x)@, u10),
{
    let ghost x0 = x@;
    let mut u = u10;
    let mut i: usize = 10;
    while i > 0
        invariant
            i <= 10,
            x@.len() == 11,
            u == lattice_u(k@, x0, u10, i as int),
            x0.len() == 11,
            forall|j: int| 0 <= j <= i ==> #[trigger] x@[j] == x0[j],
            forall|j: int|
                i < j <= 10 ==> #[trigger] x@[j] == x0[j - 1].wrapping_add(
                    q9_mul(k@[j - 1], lattice_u(k@, x0, u10, j - 1)),
                ),
        decreases i,
    {
        i = i - 1;
        u = u.wrapping_sub(q9_mul_exec(k[i], x[i]));
        x[i + 1] = x[i].wrapping_add(q9_mul_exec(k[i], u));
    }
    let r = if u < -16384 {
        -16384
    } else if u > 16383 {
        16383
    } else {
        u
    };
    x[0] = r;
    assert(x@ =~= lattice_state(k@, x0, u10));
    r
}

/// The noise register after `n` steps from `seed`.
pub open spec fn lfsr_iterate(seed: u16, n: nat) -> u16
    decreases n,
{
    if n == 0 {
        seed
    } else {
        lfsr_next(lfsr_iterate(seed, (n - 1) as nat))
    }
}

/// Seeded with 1, the noise register is nonzero after any number of steps.
pub proof fn lemma_lfsr_never_zero(n: nat)
    ensures
        lfsr_iterate(1, n) != 0,
    decreases n,
{
    if n > 0 {
        lemma_lfsr_never_zero((n - 1) as nat);
        lemma_lfsr_nonzero(lfsr_iterate(1, (n - 1) as nat));
    }
}

/// The noise register never reaches zero from a nonzero state.
pub proof fn lemma_lfsr_nonzero(r: u16)
    requires
        r != 0,
    ensures
        lfsr_next(r) != 0,
{
    assert(r != 0u16 ==> ((r >> 1u16) ^ (if r & 1u16 != 0 { 0xb800u16 } else { 0u16 })) != 0u16)
        by (bit_vector);
}

} // verus!
