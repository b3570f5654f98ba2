use phonolyze::PlaybackPosition;

#[test]
fn position_from_frames() {
    let mut p = PlaybackPosition::new(44100);
    assert_eq!(p.music_position_us(), 0);
    p.update(44100, 5_000_000);
    assert_eq!(p.music_position_us(), 1_000_000);
    p.update(22050, 5_000_000);
    assert_eq!(p.music_position_us(), 500_000);
    p.set_length(441000);
    assert_eq!(p.music_length_us(), 10_000_000);
    assert_eq!(p.frames, 22050);
}

#[test]
fn extrapolation_adds_elapsed_time() {
    let mut p = PlaybackPosition::new(1000);
    p.update(1000, 2_000_000);
    assert_eq!(p.extrapolated_us(1_000_000), 1_000_000);
    assert_eq!(p.extrapolated_us(2_000_000), 1_000_000);
    assert_eq!(p.extrapolated_us(2_250_000), 1_250_000);
}

#[test]
fn extrapolated_position_never_goes_back() {
    let mut p = PlaybackPosition::new(48000);
    let mut last = 0u128;
    let mut frames = 0u64;
    for k in 0..50u64 {
        frames += 480;
        p.update(frames, 10_000 * (k + 1) + 3_000);
        for t in 0..3u64 {
            let now = 10_000 * (k + 1) + 5_000 * t;
            let x = p.extrapolated_us(now);
            assert!(x >= p.music_position_us());
            if t > 0 {
                assert!(x >= last);
            }
            last = x;
        }
    }
}
