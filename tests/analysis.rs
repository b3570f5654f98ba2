use phonolyze::{bin_count, center_rotate, frame_count, frames, positive_bins};

#[test]
fn frame_count_formula() {
    assert_eq!(frame_count(44100, 2048, 2048), 21);
    assert_eq!(frame_count(10, 4, 3), 3);
    assert_eq!(frame_count(3, 4, 1), 0);
    assert_eq!(frame_count(4, 4, 100), 1);
}

#[test]
fn frames_overlap_and_skip() {
    let signal: Vec<u32> = (0..10).collect();
    let f = frames(&signal, 4, 3);
    assert_eq!(f, vec![vec![0, 1, 2, 3], vec![3, 4, 5, 6], vec![6, 7, 8, 9]]);
    let f = frames(&signal, 2, 5);
    assert_eq!(f, vec![vec![0, 1], vec![5, 6]]);
    let f = frames(&signal, 11, 1);
    assert!(f.is_empty());
}

#[test]
fn rotation_even_and_odd() {
    assert_eq!(center_rotate(&vec![1, 2, 3, 4]), vec![3, 4, 1, 2]);
    assert_eq!(center_rotate(&vec![1, 2, 3, 4, 5]), vec![3, 4, 5, 1, 2]);
    assert_eq!(center_rotate(&Vec::<u8>::new()), Vec::<u8>::new());
}

#[test]
fn positive_half_of_spectrum() {
    assert_eq!(bin_count(2048), 1025);
    assert_eq!(bin_count(5), 3);
    let spectrum: Vec<u16> = (0..8).collect();
    assert_eq!(positive_bins(&spectrum), vec![0, 1, 2, 3, 4]);
}

#[test]
fn one_second_sine_shape() {
    let rate = 44100usize;
    let signal: Vec<f32> = (0..rate)
        .map(|i| (2.0 * std::f32::consts::PI * 440.0 * i as f32 / rate as f32).sin())
        .collect();
    let f = frames(&signal, 2048, 2048);
    assert_eq!(f.len(), 21);
    for frame in &f {
        assert_eq!(frame.len(), 2048);
        let rotated = center_rotate(frame);
        assert_eq!(rotated.len(), 2048);
        assert_eq!(rotated[0], frame[1024]);
        assert_eq!(positive_bins(&rotated).len(), 1025);
    }
    assert_eq!(f[1][0], signal[2048]);
}

#[test]
fn one_second_sine_peak_bin() {
    let rate = 44100usize;
    let freq = 440.0f32;
    let signal: Vec<f32> = (0..rate)
        .map(|i| (2.0 * std::f32::consts::PI * freq * i as f32 / rate as f32).sin())
        .collect();
    let size = 2048usize;
    let window: Vec<f32> = (0..size)
        .map(|i| 0.54 - 0.46 * (2.0 * std::f32::consts::PI * i as f32 / size as f32).cos())
        .collect();
    let mut planner = rustfft::FftPlanner::<f32>::new();
    let fft = planner.plan_fft_forward(size);
    let expected = (freq * size as f32 / rate as f32).round() as usize;
    let f = frames(&signal, size, size);
    assert_eq!(f.len(), 21);
    for frame in &f {
        let windowed: Vec<f32> = frame.iter().zip(&window).map(|(x, w)| x * w).collect();
        let mut buf: Vec<rustfft::num_complex::Complex<f32>> = center_rotate(&windowed)
            .into_iter()
            .map(|x| rustfft::num_complex::Complex { re: x, im: 0.0 })
            .collect();
        fft.process(&mut buf);
        let bins = positive_bins(&buf);
        assert_eq!(bins.len(), 1025);
        let db: Vec<f32> = bins
            .iter()
            .map(|c| 20.0 * (c.norm() * 2.0 / size as f32).log10())
            .collect();
        let peak = (0..db.len()).max_by(|a, b| db[*a].total_cmp(&db[*b])).unwrap();
        assert_eq!(peak, expected);
    }
}
