use crate::bitstream::BitStream;
use crate::decoder::{
    lattice_out, lattice_state, lfsr_next, next_phase, noise_excitation, synthesize,
    voiced_excitation,
};
use crate::params::{energy_code, frame_fits, frame_width, params_valid, reads_frame, voiced, Params};
use vstd::prelude::*;

verus! {

/// A decoder that applies each frame's parameters as they are read, with no
/// interpolation between frames.
pub struct Speakie {
    params: Params,
    period_counter: u8,
    rand: u16,
    x: [i16; 11],
}

impl Speakie {
    /// The parameters in force.
    pub closed spec fn params(&self) -> Params {
        self.params
    }

    /// The phase within the current pitch period.
    pub closed spec fn period_counter(&self) -> u8 {
        self.period_counter
    }

    /// The noise register.
    pub closed spec fn rand(&self) -> u16 {
        self.rand
    }

    /// The synthesis filter's delay line.
    pub closed spec fn x(&self) -> Seq<i16> {
        self.x@
    }

    /// The decoder's invariant.
    pub open spec fn wf(&self) -> bool {
        &&& params_valid(self.params())
        &&& !self.params().is_stop
        &&& self.period_counter() <= 159
        &&& self.rand() != 0
        &&& self.x().len() == 11
    }

    /// A decoder in silence, with the noise register seeded to 1.
    pub fn new() -> (r: Self)
        ensures
            r.wf(),
            r.params().is_zero(),
            r.rand() == 1,
            r.period_counter() == 0,
            r.x() == Seq::new(11, |j: int| 0i16),
    {
        let r = Speakie { params: Params::zero(), period_counter: 0, rand: 1, x: [0i16; 11] };
        assert(r.x@ =~= Seq::new(11, |j: int| 0i16));
        r
    }

    /// Reads the next frame; call once every 200 samples. Returns whether it
    /// is the end-of-stream frame, which also clears the coefficients.
    pub fn process_frame(&mut self, bs: &mut BitStream) -> (r: bool)
        requires
            old(self).wf(),
            frame_fits(old(bs).bytes(), old(bs).pos() as int),
            old(bs).bytes().len() * 8 <= usize::MAX,
        ensures
            final(self).wf(),
            r == (energy_code(old(bs).bytes(), old(bs).pos() as int) == 15),
            !r ==> reads_frame(old(self).params(), old(bs).bytes(), old(bs).pos() as int, final(self).params()),
            r ==> {
                &&& final(self).params().energy == 0
                &&& final(self).params().period == old(self).params().period
                &&& forall|i: int| 0 <= i < 10 ==> #[trigger] final(self).params().k[i] == 0
            },
            final(self).period_counter() == old(self).period_counter(),
            final(self).rand() == old(self).rand(),
            final(self).x() == old(self).x(),
            final(bs).bytes() == old(bs).bytes(),
            final(bs).pos() == old(bs).pos() + frame_width(old(bs).bytes(), old(bs).pos() as int),
    {
        self.params.read(bs);
        let stop = self.params.is_stop;
        if stop {
            self.params.k = [0i16; 10];
            self.params.is_stop = false;
        }
        stop
    }

    /// Produces the next output sample.
    pub fn get_sample(&mut self) -> (r: i16)
        requires
            old(self).wf(),
        ensures
            final(self).wf(),
            final(self).params() == old(self).params(),
            -16384 <= r <= 16383,
            final(self).x()[0] == r,
            voiced(old(self).params()) ==> {
                &&& final(self).rand() == old(self).rand()
                &&& final(self).period_counter() == next_phase(
                    old(self).period_counter(),
                    old(self).params().period,
                )
                &&& r == lattice_out(
                    old(self).params().k@,
                    old(self).x(),
                    voiced_excitation(old(self).period_counter(), old(self).params().energy),
                )
                &&& final(self).x() == lattice_state(
                    old(self).params().k@,
                    old(self).x(),
                    voiced_excitation(old(self).period_counter(), old(self).params().energy),
                )
            },
            !voiced(old(self).params()) ==> {
                &&& final(self).rand() == lfsr_next(old(self).rand())
                &&& final(self).period_counter() == old(self).period_counter()
                &&& r == lattice_out(
                    old(self).params().k@,
                    old(self).x(),
                    noise_excitation(final(self).rand(), old(self).params().energy),
                )
                &&& final(self).x() == lattice_state(
                    old(self).params().k@,
                    old(self).x(),
                    noise_excitation(final(self).rand(), old(self).params().energy),
                )
            },
    {
        synthesize(&self.params, &mut self.period_counter, &mut self.rand, &mut self.x)
    }
}

} // verus!
