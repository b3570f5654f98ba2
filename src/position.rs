//! The playback position that the output callback publishes and the
//! renderer reads once per frame.
//!
//! Times are whole microseconds on one monotonic clock chosen by the caller.
//! The callback does not run in lockstep with that clock, so a reader
//! extrapolates: the position at `now` is the published position plus the
//! time elapsed since the instant it was published for.
use vstd::prelude::*;

verus! {

/// Microseconds taken by `frames` frames at `rate` frames per second,
/// rounded down.
pub open spec fn frames_to_us(frames: nat, rate: nat) -> nat
    recommends
        rate > 0,
{
    frames * 1_000_000 / rate
}

/// Position of `p` at time `now`, extrapolated from the last update.
pub open spec fn extrapolated_spec(p: PlaybackPosition, now_us: nat) -> nat {
    frames_to_us(p.frames as nat, p.sample_rate as nat) + if now_us > p.instant_us {
        (now_us - p.instant_us) as nat
    } else {
        0
    }
}

/// A snapshot of the playback position.
#[derive(Clone, Copy, Debug, PartialEq, Eq, Structural)]
pub struct PlaybackPosition {
    /// When the frame at `frames` reaches the speaker.
    pub instant_us: u64,
    /// Frames of music played before that instant.
    pub frames: u64,
    /// Frames per second of the music.
    pub sample_rate: u32,
    /// Length of the music, in frames.
    pub length_frames: u64,
}

impl PlaybackPosition {
    /// Nothing played yet, at time zero, with no known length.
    pub fn new(sample_rate: u32) -> (r: Self)
        ensures
            r == (PlaybackPosition { instant_us: 0, frames: 0, sample_rate, length_frames: 0 }),
    {
        PlaybackPosition { instant_us: 0, frames: 0, sample_rate, length_frames: 0 }
    }

    /// Publishes that `frames` frames will have been played at `instant_us`.
    pub fn update(&mut self, frames: u64, instant_us: u64)
        ensures
            *final(self) == (PlaybackPosition { frames, instant_us, ..*old(self) }),
    {
        self.frames = frames;
        self.instant_us = instant_us;
    }

    /// Sets the length of the music, once the whole file has been decoded.
    pub fn set_length(&mut self, length_frames: u64)
        ensures
            *final(self) == (PlaybackPosition { length_frames, ..*old(self) }),
    {
        self.length_frames = length_frames;
    }

    /// The published position, in microseconds.
    pub fn music_position_us(&self) -> (r: u128)
        requires
            self.sample_rate > 0,
        ensures
            r as nat == frames_to_us(self.frames as nat, self.sample_rate as nat),
    {
        assert((self.frames as u128) * 1_000_000u128 <= 0xffff_ffff_ffff_ffffu128 * 1_000_000u128)
            by (nonlinear_arith);
        (self.frames as u128) * 1_000_000 / (self.sample_rate as u128)
    }

    /// The length of the music, in microseconds.
    pub fn music_length_us(&self) -> (r: u128)
        requires
            self.sample_rate > 0,
        ensures
            r as nat == frames_to_us(self.length_frames as nat, self.sample_rate as nat),
    {
        assert((self.length_frames as u128) * 1_000_000u128 <= 0xffff_ffff_ffff_ffffu128
            * 1_000_000u128) by (nonlinear_arith);
        (self.length_frames as u128) * 1_000_000 / (self.sample_rate as u128)
    }

    /// The position at `now_us`: the published position plus the time
    /// elapsed since its instant (none if that instant is still ahead).
    pub fn extrapolated_us(&self, now_us: u64) -> (r: u128)
        requires
            self.sample_rate > 0,
        ensures
            r as nat == extrapolated_spec(*self, now_us as nat),
    {
        let base = self.music_position_us();
        assert(base <= 0xffff_ffff_ffff_ffffu128 * 1_000_000u128) by (nonlinear_arith)
            requires
                base as int == (self.frames as int) * 1_000_000 / (self.sample_rate as int),
                self.sample_rate >= 1,
                self.frames <= 0xffff_ffff_ffff_ffffu64,
        ;
        if now_us > self.instant_us {
            base + ((now_us - self.instant_us) as u128)
        } else {
            base
        }
    }
}

/// Without a new session, the position read from the published snapshots
/// never goes back: it grows with the frames played, and for one snapshot
/// it grows with the time of reading.
pub proof fn lemma_position_monotone(
    p: PlaybackPosition,
    frames: u64,
    instant_us: u64,
    now1: nat,
    now2: nat,
)
    requires
        p.sample_rate > 0,
        p.frames <= frames,
        now1 <= now2,
    ensures
        frames_to_us(p.frames as nat, p.sample_rate as nat) <= frames_to_us(
            frames as nat,
            p.sample_rate as nat,
        ),
        extrapolated_spec(p, now1) <= extrapolated_spec(p, now2),
        extrapolated_spec(PlaybackPosition { frames, instant_us, ..p }, now1)
            >= frames_to_us(p.frames as nat, p.sample_rate as nat),
{
    let rate = p.sample_rate as int;
    let a = p.frames as int * 1_000_000;
    let b = frames as int * 1_000_000;
    assert(a <= b) by (nonlinear_arith)
        requires
            p.frames <= frames,
            a == p.frames as int * 1_000_000,
            b == frames as int * 1_000_000,
    ;
    vstd::arithmetic::div_mod::lemma_div_is_ordered(a, b, rate);
}

} // verus!
