use speakie::direct::Speakie as DirectSpeakie;
use speakie::{BitStream, Output, Speakie};

#[test]
fn direct_silence_and_stop() {
    let bytes = [0x00u8];
    let mut bs = BitStream::new(&bytes);
    let mut dec = DirectSpeakie::new();
    assert!(!dec.process_frame(&mut bs));
    for _ in 0..200 {
        assert_eq!(dec.get_sample(), 0);
    }
    let bytes = [0x0fu8];
    let mut bs = BitStream::new(&bytes);
    let mut dec = DirectSpeakie::new();
    assert!(dec.process_frame(&mut bs));
}

#[test]
fn direct_first_frame_matches_interpolating_decoder() {
    // Speech after silence skips interpolation, so the first frame of both
    // decoders is the same.
    let mut out = Output::new();
    out.frame(1385, 34, &[-412, 248, -9, 116, 43, 98, 75, 124, 65, 87]);
    out.end_stream();
    let bytes = out.reap();
    let mut bs1 = BitStream::new(&bytes);
    let mut bs2 = BitStream::new(&bytes);
    let mut a = DirectSpeakie::new();
    let mut b = Speakie::new();
    assert!(!a.process_frame(&mut bs1));
    assert!(!b.process_frame(&mut bs2));
    for _ in 0..200 {
        assert_eq!(a.get_sample(), b.get_sample());
    }
    assert!(a.process_frame(&mut bs1));
    assert!(b.process_frame(&mut bs2));
}

#[test]
fn direct_applies_new_energy_at_once() {
    // Two unvoiced frames; the second one's energy applies from its first sample.
    let mut out = Output::new();
    out.frame(52, 0, &[0; 10]);
    out.frame(5514, 0, &[0; 10]);
    out.end_stream();
    let bytes = out.reap();
    let mut bs = BitStream::new(&bytes);
    let mut dec = DirectSpeakie::new();
    assert!(!dec.process_frame(&mut bs));
    let first: Vec<i16> = (0..200).map(|_| dec.get_sample()).collect();
    assert!(!dec.process_frame(&mut bs));
    let second: Vec<i16> = (0..200).map(|_| dec.get_sample()).collect();
    assert_eq!(first[0], -52);
    assert!(first.iter().all(|s| s.abs() <= 60));
    assert!(second.iter().all(|s| s.abs() > 1000));
    assert!(dec.process_frame(&mut bs));
}
