use speakie::tables::{CHIRP, ENERGY, K1, K10, K2, K3, K4, K5, K6, K7, K8, K9, PERIOD};
use speakie::{BitStream, Output, Speakie};

/// An independent model of the decoder's integer arithmetic, reading fields
/// bit by bit, to hold the library's output against.
#[derive(Clone, Copy, Default)]
struct P {
    energy: i32,
    period: i32,
    k: [i32; 10],
    stop: bool,
}

struct Model<'a> {
    buf: &'a [u8],
    pos: usize,
    last: P,
    new: P,
    cur: P,
    major: i32,
    minor: usize,
    counter: i32,
    rand: u16,
    x: [i16; 11],
}

impl<'a> Model<'a> {
    fn bits(&mut self, len: usize) -> usize {
        let mut v = 0;
        for _ in 0..len {
            v = v * 2 + ((self.buf[self.pos / 8] >> (self.pos % 8)) & 1) as usize;
            self.pos += 1;
        }
        v
    }

    fn frame(&mut self) -> bool {
        self.last = self.new;
        let e = self.bits(4);
        if e == 0 {
            self.new.energy = 0;
        } else if e == 15 {
            self.new.energy = 0;
            self.new.stop = true;
        } else {
            self.new.energy = ENERGY[e] as i32;
            let repeat = self.bits(1);
            self.new.period = PERIOD[self.bits(6)] as i32;
            if repeat == 0 {
                let mut k = [0i32; 10];
                k[0] = K1[self.bits(5)] as i32;
                k[1] = K2[self.bits(5)] as i32;
                k[2] = K3[self.bits(4)] as i32;
                k[3] = K4[self.bits(4)] as i32;
                if self.new.period != 0 {
                    k[4] = K5[self.bits(4)] as i32;
                    k[5] = K6[self.bits(4)] as i32;
                    k[6] = K7[self.bits(4)] as i32;
                    k[7] = K8[self.bits(3)] as i32;
                    k[8] = K9[self.bits(3)] as i32;
                    k[9] = K10[self.bits(3)] as i32;
                }
                self.new.k = k;
            }
        }
        let (l, n) = (self.last, self.new);
        let lv = l.period != 0;
        let nv = n.period != 0;
        if lv != nv || (l.energy == 0 && n.energy != 0) || (!lv && n.energy == 0) {
            self.last = self.new;
        }
        self.major = 0;
        self.minor = 0;
        self.new.stop
    }

    fn sample(&mut self) -> i16 {
        let lerp = |a: i32, b: i32, t: i32| (a * 8 + (b - a) * t) / 8;
        if self.minor == 0 {
            self.major = (self.major + 1).min(8);
            let t = self.major;
            let mut k = [0; 10];
            for i in 0..10 {
                k[i] = lerp(self.last.k[i], self.new.k[i], t);
            }
            self.cur = P {
                energy: lerp(self.last.energy, self.new.energy, t),
                period: lerp(self.last.period, self.new.period, t),
                k,
                stop: false,
            };
        }
        self.minor = (self.minor + 1) % 25;
        let u10: i16;
        if self.cur.period != 0 {
            let c = if self.counter < 52 { CHIRP[self.counter as usize] as i8 as i32 } else { 0 };
            u10 = ((c * self.cur.energy) >> 6) as i16;
            self.counter += 1;
            if self.counter >= self.cur.period {
                self.counter = 0;
            }
        } else {
            self.rand = (self.rand >> 1) ^ if self.rand & 1 != 0 { 0xb800 } else { 0 };
            u10 = if self.rand & 1 != 0 { self.cur.energy as i16 } else { -(self.cur.energy as i16) };
        }
        let mut u = u10;
        for i in (0..10).rev() {
            u = u.wrapping_sub(((self.cur.k[i] * self.x[i] as i32) >> 9) as i16);
            self.x[i + 1] = self.x[i].wrapping_add(((self.cur.k[i] * u as i32) >> 9) as i16);
        }
        u = u.clamp(-16384, 16383);
        self.x[0] = u;
        u
    }
}

fn stream() -> Vec<u8> {
    let mut out = Output::new();
    out.frame(800, 40, &[-300, 200, -100, 50, 20, -10, 5, 100, -50, 30]);
    out.frame(2000, 60, &[-450, 300, 150, -200, 100, 50, -50, 200, 100, -100]);
    // A repeat frame: energy 12, period code 30, previous coefficients.
    out.pack(12, 4);
    out.pack(1, 1);
    out.pack(30, 6);
    out.frame(300, 0, &[100, -200, 300, -300, 0, 0, 0, 0, 0, 0]);
    out.frame(0, 0, &[0; 10]);
    out.frame(5000, 0, &[-480, 400, -300, 250, 0, 0, 0, 0, 0, 0]);
    out.frame(7000, 120, &[-490, 470, -400, 450, 350, 380, 380, 380, 300, 300]);
    out.end_stream();
    out.reap()
}

#[test]
fn decoder_matches_integer_model() {
    let bytes = stream();
    let mut bs = BitStream::new(&bytes);
    let mut dec = Speakie::new();
    let mut model = Model {
        buf: &bytes,
        pos: 0,
        last: P::default(),
        new: P::default(),
        cur: P::default(),
        major: 0,
        minor: 0,
        counter: 0,
        rand: 1,
        x: [0; 11],
    };
    let mut frames = 0;
    loop {
        let stop = dec.process_frame(&mut bs);
        assert_eq!(stop, model.frame());
        if stop {
            break;
        }
        frames += 1;
        for n in 0..200 {
            assert_eq!(dec.get_sample(), model.sample(), "frame {frames} sample {n}");
        }
    }
    assert_eq!(frames, 7);
    // Frame widths 50 + 50 + 11 + 29 + 4 + 29 + 50, then the 4-bit stop code.
    assert_eq!(model.pos, 227);
}
