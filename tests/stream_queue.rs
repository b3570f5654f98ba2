use phonolyze::{open_stream, prime, push_signals, ControlledSample, Mixer, StreamError, StreamSettings};

fn queue<T>(capacity: usize) -> (rtrb::Producer<ControlledSample<T>>, rtrb::Consumer<ControlledSample<T>>) {
    rtrb::RingBuffer::new(capacity)
}

#[test]
fn fifo_silence_then_stereo_signal() {
    let (mut p, mut c) = queue(8);
    p.push(ControlledSample::Silence).unwrap();
    p.push(ControlledSample::SetChannelCount(2)).unwrap();
    p.push(ControlledSample::Signal(0.5)).unwrap();
    p.push(ControlledSample::Signal(-0.5)).unwrap();
    let mut m = Mixer::new(2, 0.0f32);
    let behind = m.render_frame(&mut c, 16);
    assert!(!behind);
    assert_eq!(m.frame(), &vec![0.0, 0.0]);
    let behind = m.render_frame(&mut c, 16);
    assert!(!behind);
    assert_eq!(m.frame(), &vec![0.5, -0.5]);
    assert_eq!(m.frames_played(), 1);
}

#[test]
fn underrun_gives_silent_frame() {
    let (_p, mut c) = queue::<f32>(4);
    let mut m = Mixer::new(2, 0.0f32);
    for _ in 0..3 {
        let behind = m.render_frame(&mut c, 16);
        assert!(behind);
        assert_eq!(m.frame(), &vec![0.0, 0.0]);
    }
    assert_eq!(m.frames_played(), 0);
}

#[test]
fn underrun_mid_frame_fills_silence() {
    let (mut p, mut c) = queue(4);
    p.push(ControlledSample::Signal(0.25)).unwrap();
    let mut m = Mixer::new(2, 0.0f32);
    assert!(m.render_frame(&mut c, 16));
    assert_eq!(m.frame(), &vec![0.25, 0.0]);
}

#[test]
fn channel_hot_swap() {
    let (mut p, mut c) = queue(16);
    p.push(ControlledSample::SetChannelCount(1)).unwrap();
    p.push(ControlledSample::Signal(0.1)).unwrap();
    p.push(ControlledSample::Signal(0.2)).unwrap();
    p.push(ControlledSample::SetChannelCount(2)).unwrap();
    p.push(ControlledSample::Signal(0.3)).unwrap();
    p.push(ControlledSample::Signal(0.4)).unwrap();
    let mut m = Mixer::new(2, 0.0f32);
    m.render_frame(&mut c, 16);
    assert_eq!(m.frame(), &vec![0.1, 0.1]);
    m.render_frame(&mut c, 16);
    assert_eq!(m.frame(), &vec![0.2, 0.2]);
    m.render_frame(&mut c, 16);
    assert_eq!(m.frame(), &vec![0.3, 0.4]);
    assert_eq!(m.source_channels(), 2);
    assert_eq!(m.frames_played(), 3);
}

#[test]
fn extra_source_channels_are_dropped() {
    let (mut p, mut c) = queue(16);
    p.push(ControlledSample::SetChannelCount(3)).unwrap();
    for v in [1i8, 2, 3, 4, 5, 6] {
        p.push(ControlledSample::Signal(v)).unwrap();
    }
    let mut m = Mixer::new(2, 0i8);
    m.render_frame(&mut c, 16);
    assert_eq!(m.frame(), &vec![1, 2]);
    m.render_frame(&mut c, 16);
    assert_eq!(m.frame(), &vec![4, 5]);
}

#[test]
fn missing_output_channels_are_silent() {
    let (mut p, mut c) = queue(16);
    p.push(ControlledSample::Signal(7i8)).unwrap();
    p.push(ControlledSample::Signal(8i8)).unwrap();
    let mut m = Mixer::new(4, 0i8);
    m.start_frame();
    m.accept(Some(ControlledSample::SetChannelCount(2)));
    m.accept(c.pop().ok());
    m.accept(c.pop().ok());
    assert_eq!(m.frame(), &vec![7, 8, 0, 0]);
}

#[test]
fn budget_limits_control_items() {
    let (mut p, mut c) = queue(16);
    for _ in 0..6 {
        p.push(ControlledSample::SetChannelCount(2)).unwrap();
    }
    p.push(ControlledSample::Signal(0.5)).unwrap();
    let mut m = Mixer::new(2, 0.0f32);
    assert!(m.render_frame(&mut c, 3));
    assert_eq!(m.frame(), &vec![0.0, 0.0]);
    assert_eq!(c.slots(), 4);
}

#[test]
fn open_stream_primes_latency() {
    let s = StreamSettings { sample_rate: 1000, channels: 2, latency_ms: 5 };
    assert_eq!(s.latency_frames(), 5);
    let mut parts = open_stream(&s, 0.0f32).unwrap();
    assert_eq!(parts.primed, 10);
    assert_eq!(parts.pull_budget, 22);
    assert_eq!(parts.consumer.slots(), 10);
    assert_eq!(parts.producer.slots(), 10);
    for _ in 0..10 {
        assert!(!parts.mixer.render_frame(&mut parts.consumer, 8));
        assert_eq!(parts.mixer.frame(), &vec![0.0, 0.0]);
    }
    assert!(parts.mixer.render_frame(&mut parts.consumer, 8));
}

#[test]
fn latency_frames_rounds_to_nearest() {
    let s = StreamSettings { sample_rate: 44100, channels: 2, latency_ms: 2048 };
    assert_eq!(s.latency_frames(), 90317);
    let s = StreamSettings { sample_rate: 44100, channels: 1, latency_ms: 1 };
    assert_eq!(s.latency_frames(), 44);
    let s = StreamSettings { sample_rate: 500, channels: 1, latency_ms: 1 };
    assert_eq!(s.latency_frames(), 1);
}

#[test]
fn open_stream_errors() {
    let s = StreamSettings { sample_rate: 48000, channels: 0, latency_ms: 10 };
    assert_eq!(open_stream(&s, 0i8).err(), Some(StreamError::NoChannels));
    let s = StreamSettings { sample_rate: u32::MAX, channels: u16::MAX, latency_ms: u32::MAX };
    assert_eq!(open_stream(&s, 0i8).err(), Some(StreamError::QueueTooLarge));
}

#[test]
fn prime_stops_when_full() {
    let (mut p, _c) = queue::<u8>(3);
    assert_eq!(prime(&mut p, 5), 3);
}

#[test]
fn push_signals_resumes_where_full() {
    let (mut p, mut c) = queue(2);
    let samples = vec![0.1f32, 0.2, 0.3];
    let next = push_signals(&mut p, &samples, 0);
    assert_eq!(next, 2);
    assert_eq!(c.pop().unwrap(), ControlledSample::Signal(0.1));
    assert_eq!(push_signals(&mut p, &samples, next), 3);
    assert_eq!(c.pop().unwrap(), ControlledSample::Signal(0.2));
    assert_eq!(c.pop().unwrap(), ControlledSample::Signal(0.3));
}

#[test]
fn fill_output_interleaves_frames() {
    let (mut p, mut c) = queue(16);
    p.push(ControlledSample::Silence).unwrap();
    p.push(ControlledSample::SetChannelCount(2)).unwrap();
    for v in [1i8, 2, 3, 4] {
        p.push(ControlledSample::Signal(v)).unwrap();
    }
    let mut m = Mixer::new(2, 0i8);
    let mut data = [9i8; 5];
    assert!(!m.fill_output(&mut c, &mut data, 16));
    assert_eq!(data, [0, 0, 1, 2, 3]);
    assert_eq!(m.frame(), &vec![3, 4]);
    let mut data = [9i8; 4];
    assert!(m.fill_output(&mut c, &mut data, 16));
    assert_eq!(data, [0, 0, 0, 0]);
    let mut empty: [i8; 0] = [];
    assert!(!m.fill_output(&mut c, &mut empty, 16));
}
