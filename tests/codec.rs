use speakie::decoder::lfsr_step;
use speakie::output::quantize;
use speakie::tables::{CHIRP, ENERGY, K1, K2, K3, K4, K8, PERIOD};
use speakie::{BitStream, Output, Params, Speakie};

fn decode(bytes: &[u8], frames: usize) -> (Vec<i16>, Vec<bool>) {
    let mut bs = BitStream::new(bytes);
    let mut dec = Speakie::new();
    let mut samples = Vec::new();
    let mut stops = Vec::new();
    for _ in 0..frames {
        let stop = dec.process_frame(&mut bs);
        stops.push(stop);
        if stop {
            break;
        }
        for _ in 0..200 {
            samples.push(dec.get_sample());
        }
    }
    (samples, stops)
}

#[test]
fn get_bits_reads_fields_from_low_bit_up() {
    let buf = [0b1010_0110u8, 0b0000_0001u8];
    let mut bs = BitStream::new(&buf);
    // Bits of 0xA6 from bit 0: 0,1,1,0,0,1,0,1.
    assert_eq!(bs.get_bits(3), 0b011);
    assert_eq!(bs.get_bits(4), 0b0010);
    // Crosses into the next byte: bit 7 of the first (1), then bit 0 of the second (1).
    assert_eq!(bs.get_bits(2), 0b11);
}

#[test]
fn pack_then_read_round_trip() {
    for len in 1u32..=8 {
        for val in 0u16..(1u16 << len) {
            let mut out = Output::new();
            out.pack(0b101, 3);
            out.pack(val as u8, len);
            out.pack(0, 8);
            let bytes = out.reap();
            let mut bs = BitStream::new(&bytes);
            assert_eq!(bs.get_bits(3), 0b101);
            assert_eq!(bs.get_bits(len as usize), val as usize);
        }
    }
}

#[test]
fn end_stream_bytes() {
    let mut out = Output::new();
    out.end_stream();
    assert_eq!(out.reap(), vec![0x0f, 0x00]);
}

#[test]
fn pack_fills_bytes_from_low_bit() {
    let mut out = Output::new();
    out.pack(1, 1);
    out.pack(0b10, 2);
    assert_eq!(out.reap(), vec![0b0000_0011]);
}

#[test]
fn quantize_nearest_and_ties() {
    let t = [0i16, 10, 20, 30];
    assert_eq!(quantize(&t, 4), 0);
    assert_eq!(quantize(&t, 5), 0);
    assert_eq!(quantize(&t, 6), 1);
    assert_eq!(quantize(&t, -100), 0);
    assert_eq!(quantize(&t, 100), 3);
    assert_eq!(quantize(&ENERGY, 500), 7);
    assert_eq!(quantize(&PERIOD, 34), 20);
    assert_eq!(quantize(&K1, -1000), 0);
}

#[test]
fn quantized_uses_index_width() {
    let mut out = Output::new();
    out.quantized(&K8, 124);
    out.quantized(&K1, 436);
    let bytes = out.reap();
    let mut bs = BitStream::new(&bytes);
    assert_eq!(bs.get_bits(3), 4);
    assert_eq!(bs.get_bits(5), 31);
}

#[test]
fn lfsr_never_zero_and_returns_to_seed() {
    let mut r: u16 = 1;
    let mut steps: u32 = 0;
    loop {
        r = lfsr_step(r);
        steps += 1;
        assert_ne!(r, 0);
        if r == 1 {
            break;
        }
        assert!(steps < 70000);
    }
    // The tap mask 0xb800 gives a cycle of 19685 states through the seed.
    assert_eq!(steps, 19685);
}

#[test]
fn lfsr_first_steps() {
    assert_eq!(lfsr_step(1), 0xb800);
    assert_eq!(lfsr_step(0xb800), 0x5c00);
}

#[test]
fn silence_frame_gives_zero_samples() {
    let (samples, stops) = decode(&[0x00], 1);
    assert_eq!(stops, vec![false]);
    assert_eq!(samples.len(), 200);
    assert!(samples.iter().all(|&s| s == 0));
}

#[test]
fn stop_frame_reports_stop() {
    // The stop code 15 as the encoder writes it.
    let (samples, stops) = decode(&[0x0f], 1);
    assert_eq!(stops, vec![true]);
    assert!(samples.is_empty());
}

fn speech_frame(out: &mut Output, energy: u8, period: u8, codes: &[(u8, u32)]) {
    out.pack(energy, 4);
    out.pack(0, 1);
    out.pack(period, 6);
    for &(c, len) in codes {
        out.pack(c, len);
    }
}

#[test]
fn unvoiced_frame_starts_with_noise_of_its_energy() {
    let mut out = Output::new();
    speech_frame(&mut out, 7, 0, &[(15, 5), (15, 5), (7, 4), (7, 4)]);
    out.end_stream();
    let bytes = out.reap();
    let (samples, stops) = decode(&bytes, 2);
    assert_eq!(stops, vec![false, true]);
    assert_eq!(samples.len(), 200);
    // The register leaves 1 for 0xb800, whose low bit is clear: minus the energy.
    assert_eq!(samples[0], -491);
    assert!(samples.iter().all(|&s| s.abs() <= 16384));
    assert!(samples.iter().any(|&s| s != 0));
}

#[test]
fn voiced_frame_starts_with_scaled_chirp() {
    let mut out = Output::new();
    let mid = [(16, 5), (16, 5), (8, 4), (8, 4), (8, 4), (8, 4), (8, 4), (4, 3), (4, 3), (4, 3)];
    speech_frame(&mut out, 10, 20, &mid);
    out.end_stream();
    let bytes = out.reap();
    let (samples, stops) = decode(&bytes, 2);
    assert_eq!(stops, vec![false, true]);
    assert_eq!(PERIOD[20], 34);
    assert_eq!(samples[0], 0);
    assert_eq!(samples[1], ((CHIRP[1] as i8 as i32 * 1385) >> 6) as i16);
    assert_eq!(samples[1], 64);
}

#[test]
fn interpolation_steps_between_frames() {
    let last = Params { energy: 694, period: 34, k: [100; 10], is_stop: false };
    let next = Params { energy: 1385, period: 34, k: [100; 10], is_stop: true };
    let got: Vec<u16> = (0..=8).map(|t| last.interpolate(&next, t).energy).collect();
    assert_eq!(got, vec![694, 780, 866, 953, 1039, 1125, 1212, 1298, 1385]);
    assert!(!last.interpolate(&next, 8).is_stop);
    assert_eq!(last.interpolate(&next, 3).k, [100; 10]);
}

#[test]
fn interpolation_rounds_toward_zero() {
    let last = Params { energy: 0, period: 0, k: [-100, 100, 0, 0, 0, 0, 0, 0, 0, 0], is_stop: false };
    let next = Params { energy: 0, period: 0, k: [0; 10], is_stop: false };
    let p = last.interpolate(&next, 1);
    // -100 * 7 / 8 = -87.5 and 100 * 7 / 8 = 87.5 both round toward zero.
    assert_eq!(p.k[0], -87);
    assert_eq!(p.k[1], 87);
}

#[test]
fn inhibit_rules() {
    let z = Params { energy: 0, period: 0, k: [0; 10], is_stop: false };
    let voiced = Params { energy: 500, period: 40, k: [0; 10], is_stop: false };
    let unvoiced = Params { energy: 500, period: 0, k: [0; 10], is_stop: false };
    assert!(z.inhibit_interp(&unvoiced));
    assert!(voiced.inhibit_interp(&unvoiced));
    assert!(unvoiced.inhibit_interp(&z));
    assert!(!voiced.inhibit_interp(&Params { energy: 0, ..voiced }));
    assert!(!voiced.inhibit_interp(&voiced));
    assert!(voiced.is_voiced());
    assert!(!unvoiced.is_voiced());
}

#[test]
fn encoded_frames_decode_to_their_codes() {
    let mut out = Output::new();
    let ks = [-412, -59, -9, 116, 43, 98, 75, 124, 65, 87];
    out.frame(1385, 34, &ks);
    out.frame(0, 0, &[0; 10]);
    out.frame(491, 0, &ks);
    out.end_stream();
    let bytes = out.reap();
    // 50 + 4 + 29 + 11 bits.
    assert_eq!(bytes.len(), 12);
    let mut bs = BitStream::new(&bytes);
    let mut dec = Speakie::new();
    assert!(!dec.process_frame(&mut bs));
    assert_eq!(dec.get_sample(), 0);
    assert_eq!(dec.get_sample(), 64);
    assert!(!dec.process_frame(&mut bs));
    assert!(!dec.process_frame(&mut bs));
    assert!(dec.process_frame(&mut bs));
}

#[test]
fn frame_widths() {
    let ks = [K1[3], K2[4], K3[5], K4[6], 0, 0, 0, 0, 0, 0];
    let mut out = Output::new();
    out.frame(0, 50, &ks);
    assert_eq!(out.reap().len(), 1);
    let mut out = Output::new();
    out.frame(9000, 0, &ks);
    let bytes = out.reap();
    assert_eq!(bytes.len(), 4);
    let mut bs = BitStream::new(&bytes);
    // Energy above the cap takes the code of 5514.
    assert_eq!(bs.get_bits(4), 14);
    assert_eq!(bs.get_bits(1), 0);
    assert_eq!(bs.get_bits(6), 0);
    assert_eq!(bs.get_bits(5), 3);
    assert_eq!(bs.get_bits(5), 4);
    assert_eq!(bs.get_bits(4), 5);
    assert_eq!(bs.get_bits(4), 6);
}

#[test]
fn low_pitch_codes_as_unvoiced() {
    // A pitch of 5 samples is nearest to the unvoiced period code, so only four
    // coefficients follow.
    let mut out = Output::new();
    out.frame(1000, 5, &[0; 10]);
    out.end_stream();
    let bytes = out.reap();
    let mut bs = BitStream::new(&bytes);
    let mut dec = Speakie::new();
    assert!(!dec.process_frame(&mut bs));
    assert!(dec.process_frame(&mut bs));
}

#[test]
fn has_frame_checks_whole_frames() {
    assert!(!BitStream::new(&[]).has_frame());
    assert!(BitStream::new(&[0x00]).has_frame());
    assert!(BitStream::new(&[0x0f]).has_frame());
    // Energy 7, no repeat: the rest of the frame is missing.
    let mut out = Output::new();
    out.pack(7, 4);
    out.pack(0, 1);
    out.pack(0, 6);
    let bytes = out.reap();
    assert!(!BitStream::new(&bytes).has_frame());
    // A repeat frame is complete after 11 bits.
    let mut out = Output::new();
    out.pack(7, 4);
    out.pack(1, 1);
    out.pack(20, 6);
    let bytes = out.reap();
    let mut bs = BitStream::new(&bytes);
    assert!(bs.has_frame());
    let mut dec = Speakie::new();
    assert!(!dec.process_frame(&mut bs));
    // Five zero bits of padding remain: a whole silence frame, then one bit.
    assert!(bs.has_frame());
    assert!(!dec.process_frame(&mut bs));
    assert!(!bs.has_frame());
}

#[test]
fn repeat_frame_keeps_coefficients() {
    let mut out = Output::new();
    let ks = [K1[20], K2[5], K3[3], K4[9], 0, 0, 0, 0, 0, 0];
    out.frame(491, 0, &ks);
    out.pack(9, 4);
    out.pack(1, 1);
    out.pack(0, 6);
    let bytes = out.reap();
    let mut bs = BitStream::new(&bytes);
    let mut p = Params { energy: 0, period: 0, k: [0; 10], is_stop: false };
    p.read(&mut bs);
    assert_eq!(p.energy, 491);
    assert_eq!(p.k, ks);
    p.read(&mut bs);
    assert_eq!(p.energy, ENERGY[9] as u16);
    assert_eq!(p.period, 0);
    assert_eq!(p.k, ks);
    assert!(!p.is_stop);
}

#[test]
fn default_output_is_empty() {
    let out = Output::default();
    assert!(out.reap().is_empty());
}
