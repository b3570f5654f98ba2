//! Setting up the streaming queue between the loader and the output
//! callback.
use crate::mixer::{silent_frame, MixView, Mixer};
use crate::queue::{prime, ControlledSample};
use vstd::prelude::*;

verus! {

/// What the output stream was opened with.
#[derive(Clone, Copy, Debug, PartialEq, Eq, Structural)]
pub struct StreamSettings {
    /// Frames per second of the output device.
    pub sample_rate: u32,
    /// Channels of the output device.
    pub channels: u16,
    /// The latency to aim for, in milliseconds.
    pub latency_ms: u32,
}

/// Why the streaming queue could not be set up.
#[derive(Clone, Copy, Debug, PartialEq, Eq, Structural)]
pub enum StreamError {
    /// The output has no channels.
    NoChannels,
    /// The queue for this latency would not fit in memory.
    QueueTooLarge,
}

/// `ms` milliseconds at `rate` frames per second, in frames, rounded to the
/// nearest frame (halves up).
pub open spec fn latency_frames_spec(ms: nat, rate: nat) -> nat {
    (ms * rate + 500) / 1000
}

/// Items of silence that prime the queue: the latency, in samples.
pub open spec fn priming_len_spec(s: StreamSettings) -> nat {
    latency_frames_spec(s.latency_ms as nat, s.sample_rate as nat) * s.channels as nat
}

/// Slots of the queue: twice the priming.
pub open spec fn queue_capacity_spec(s: StreamSettings) -> nat {
    2 * priming_len_spec(s)
}

/// The queue of these settings fits in memory, with items of `item_size`
/// bytes.
pub open spec fn queue_fits(s: StreamSettings, item_size: nat) -> bool {
    &&& queue_capacity_spec(s) <= isize::MAX
    &&& queue_capacity_spec(s) * item_size <= isize::MAX
}

impl StreamSettings {
    /// The latency in whole frames.
    pub fn latency_frames(&self) -> (r: u64)
        ensures
            r as nat == latency_frames_spec(self.latency_ms as nat, self.sample_rate as nat),
    {
        let ms = self.latency_ms as u64;
        let rate = self.sample_rate as u64;
        assert(ms * rate <= 0xffff_fffe_0000_0001u64) by (nonlinear_arith)
            requires
                ms <= 0xffff_ffffu64,
                rate <= 0xffff_ffffu64,
        ;
        (ms * rate + 500) / 1000
    }
}

/// The two ends of a primed streaming queue, and the mixer of the output
/// callback.
#[verifier::reject_recursive_types(S)]
pub struct StreamParts<S> {
    pub producer: rtrb::Producer<ControlledSample<S>>,
    pub consumer: rtrb::Consumer<ControlledSample<S>>,
    pub mixer: Mixer<S>,
    /// Silence items pushed when the queue was primed.
    pub primed: usize,
    /// Pops the callback may spend on one frame: the queue's capacity and
    /// one more frame of the output. Beyond that the queue counts as empty.
    pub pull_budget: usize,
}

/// Makes the streaming queue for `settings`, with room for twice the
/// latency, and primes it with the latency's worth of silence. The mixer
/// plays `zero` for silence.
pub fn open_stream<S: Copy>(settings: &StreamSettings, zero: S) -> (r: Result<
    StreamParts<S>,
    StreamError,
>)
    ensures
        settings.channels == 0 ==> r == Err::<StreamParts<S>, StreamError>(StreamError::NoChannels),
        settings.channels > 0 && !queue_fits(
            *settings,
            vstd::layout::size_of::<ControlledSample<S>>(),
        ) ==> r == Err::<StreamParts<S>, StreamError>(StreamError::QueueTooLarge),
        settings.channels > 0 && queue_fits(
            *settings,
            vstd::layout::size_of::<ControlledSample<S>>(),
        ) ==> r is Ok,
        r matches Ok(parts) ==> {
            &&& parts.mixer.wf()
            &&& parts.mixer@ == (MixView {
                out: settings.channels as nat,
                zero,
                channels: settings.channels as nat,
                frames_played: 0,
                started: false,
                taken: Seq::empty(),
                width: 0,
                done: true,
                frame: silent_frame(settings.channels as nat, zero),
                fell_behind: false,
            })
            &&& parts.primed <= priming_len_spec(*settings)
            &&& parts.pull_budget == queue_capacity_spec(*settings) + settings.channels
        },
{
    if settings.channels == 0 {
        return Err(StreamError::NoChannels);
    }
    let frames = settings.latency_frames();
    let channels = settings.channels as u64;
    let item_size = core::mem::size_of::<ControlledSample<S>>();
    let limit: u128 = isize::MAX as u128;
    let frames_wide = frames as u128;
    assert(frames_wide * channels <= 0xffff_ffff_ffff_ffffu128 * 0xffffu128) by (nonlinear_arith)
        requires
            frames_wide <= 0xffff_ffff_ffff_ffffu128,
            channels <= 0xffffu128,
    ;
    let priming = frames_wide * (channels as u128);
    let capacity = 2 * priming;
    if capacity > limit {
        return Err(StreamError::QueueTooLarge);
    }
    if item_size > 0 && capacity > limit / (item_size as u128) {
        assert(capacity * item_size > limit) by (nonlinear_arith)
            requires
                item_size > 0,
                capacity > limit / (item_size as u128),
        ;
        return Err(StreamError::QueueTooLarge);
    }
    assert(capacity * item_size <= limit) by (nonlinear_arith)
        requires
            item_size == 0 || capacity <= limit / (item_size as u128),
    ;
    let (mut producer, consumer) = rtrb::RingBuffer::<ControlledSample<S>>::new(capacity as usize);
    let primed = prime(&mut producer, priming as usize);
    let mixer = Mixer::new(settings.channels as usize, zero);
    let pull_budget = capacity as usize + settings.channels as usize;
    Ok(StreamParts { producer, consumer, mixer, primed, pull_budget })
}

} // verus!
