use phonolyze::{
    debug_wav_samples, decimate, packet_action, split_planar, wants_packet, DecodeStatus, MonoDump,
    PacketAction, DEBUG_WAV_STEP,
};

#[test]
fn packets_of_other_tracks_are_skipped() {
    assert!(wants_packet(3, 3));
    assert!(!wants_packet(2, 3));
    assert_eq!(packet_action(2, 3, DecodeStatus::Decoded), PacketAction::Skip);
    assert_eq!(packet_action(2, 3, DecodeStatus::Failed), PacketAction::Skip);
    assert_eq!(packet_action(3, 3, DecodeStatus::Decoded), PacketAction::Frame);
    assert_eq!(packet_action(3, 3, DecodeStatus::Malformed), PacketAction::Skip);
    assert_eq!(packet_action(3, 3, DecodeStatus::Failed), PacketAction::Fail);
}

#[test]
fn mono_dump_keeps_first_channel() {
    let mut d = MonoDump::new(None);
    assert!(d.append_planar(&vec![1, 2, 3, 10, 20, 30], 3));
    assert!(d.append_planar(&vec![4, 40], 1));
    assert_eq!(d.samples(), &vec![1, 2, 3, 4]);
    assert_eq!(d.into_samples(), vec![1, 2, 3, 4]);
}

#[test]
fn mono_dump_stops_past_limit() {
    let mut d = MonoDump::new(Some(4));
    assert!(d.append_planar(&vec![1, 2, 3], 3));
    assert!(d.append_planar(&vec![4], 1));
    assert!(!d.append_planar(&vec![5, 6], 2));
    assert_eq!(d.into_samples(), vec![1, 2, 3, 4, 5, 6]);
}

#[test]
fn decimation_keeps_every_step() {
    let s: Vec<u32> = (0..10).collect();
    assert_eq!(decimate(&s, 3), vec![0, 3, 6, 9]);
    assert_eq!(decimate(&s, 5), vec![0, 5]);
    assert_eq!(decimate(&s, 20), vec![0]);
    assert_eq!(decimate(&Vec::<u32>::new(), 4), Vec::<u32>::new());
    let s: Vec<u32> = (0..33).collect();
    assert_eq!(DEBUG_WAV_STEP, 16);
    assert_eq!(debug_wav_samples(&s), vec![0, 16, 32]);
}

#[test]
fn debug_wav_round_trip() {
    let rate = 44100u32;
    let signal: Vec<f32> = (0..rate)
        .map(|i| 0.8 * (2.0 * std::f32::consts::PI * 441.0 * i as f32 / rate as f32).sin())
        .collect();
    let kept = debug_wav_samples(&signal);
    let spec = hound::WavSpec {
        channels: 1,
        sample_rate: rate,
        bits_per_sample: 16,
        sample_format: hound::SampleFormat::Int,
    };
    let mut bytes = std::io::Cursor::new(Vec::new());
    {
        let mut w = hound::WavWriter::new(&mut bytes, spec).unwrap();
        for x in &kept {
            w.write_sample((x * i16::MAX as f32) as i16).unwrap();
        }
        w.finalize().unwrap();
    }
    bytes.set_position(0);
    let mut r = hound::WavReader::new(bytes).unwrap();
    let read: Vec<f32> = r
        .samples::<i16>()
        .map(|s| s.unwrap() as f32 / i16::MAX as f32)
        .collect();
    let mut dump = MonoDump::new(None);
    dump.append_planar(&read, read.len());
    let back = dump.into_samples();
    assert_eq!(back.len(), (signal.len() + 15) / 16);
    let peak_in = signal.iter().fold(0.0f32, |a, x| a.max(x.abs()));
    let peak_out = back.iter().fold(0.0f32, |a, x| a.max(x.abs()));
    assert!((peak_in - peak_out).abs() < 0.01);
}

#[test]
fn planar_halves() {
    assert_eq!(split_planar(&vec![1, 2, 3, 4]), (vec![1, 2], vec![3, 4]));
    assert_eq!(split_planar(&vec![1, 2, 3]), (vec![1], vec![2, 3]));
    assert_eq!(split_planar(&Vec::<u8>::new()), (vec![], vec![]));
}
