//! The decisions of the decoder that do not depend on the codec: which
//! packets become frames, how the mono analysis buffer is gathered, and which
//! samples the debug WAV keeps.
use vstd::prelude::*;

verus! {

/// Layout of a decoded multi-channel buffer.
#[derive(Clone, Copy, Debug, PartialEq, Eq, Structural)]
pub enum CopyMethod {
    /// Sample by sample, the channels of a frame side by side.
    Interleaved,
    /// Channel by channel, each channel's samples together.
    Planar,
}

/// Why a file could not be opened for decoding.
#[derive(Clone, Copy, Debug, PartialEq, Eq, Structural)]
pub enum OpenError {
    /// The path could not be read or its container not recognised.
    Unreadable,
    /// The container has no default track.
    NoDefaultTrack,
    /// No decoder is known for the default track's codec.
    UnsupportedCodec,
}

/// What the codec made of a packet of the selected track.
#[derive(Clone, Copy, Debug, PartialEq, Eq, Structural)]
pub enum DecodeStatus {
    /// The packet decoded into a buffer of samples.
    Decoded,
    /// The packet was malformed; the stream can go on after it.
    Malformed,
    /// Any other failure.
    Failed,
}

/// What the decoder does with a packet.
#[derive(Clone, Copy, Debug, PartialEq, Eq, Structural)]
pub enum PacketAction {
    /// Hand the decoded buffer out.
    Frame,
    /// Produce nothing for this packet; the caller pulls the next one.
    Skip,
    /// Stop decoding this file.
    Fail,
}

/// Whether a packet of track `packet_track` is decoded when `selected` is
/// the track chosen at open time.
pub fn wants_packet(packet_track: u32, selected: u32) -> (r: bool)
    ensures
        r == (packet_track == selected),
{
    packet_track == selected
}

/// What becomes of a packet of track `packet_track`, when the codec
/// reported `status` for it: packets of other tracks and malformed packets
/// are skipped, any other failure stops the file.
pub fn packet_action(packet_track: u32, selected: u32, status: DecodeStatus) -> (r: PacketAction)
    ensures
        packet_track != selected ==> r == PacketAction::Skip,
        packet_track == selected ==> r == match status {
            DecodeStatus::Decoded => PacketAction::Frame,
            DecodeStatus::Malformed => PacketAction::Skip,
            DecodeStatus::Failed => PacketAction::Fail,
        },
{
    if !wants_packet(packet_track, selected) {
        return PacketAction::Skip;
    }
    match status {
        DecodeStatus::Decoded => PacketAction::Frame,
        DecodeStatus::Malformed => PacketAction::Skip,
        DecodeStatus::Failed => PacketAction::Fail,
    }
}

/// The first channel of a whole file, gathered buffer by buffer, for the
/// spectral analysis.
pub struct MonoDump<T> {
    samples: Vec<T>,
    limit: Option<u64>,
    frames: u64,
}

/// The gathering should stop once `frames` frames were taken.
pub open spec fn over_limit(limit: Option<u64>, frames: nat) -> bool {
    match limit {
        Some(l) => frames > l,
        None => false,
    }
}

/// `n` more frames on the counter, which stops at the largest `u64`.
pub open spec fn add_frames(count: nat, n: nat) -> nat {
    if count + n <= u64::MAX {
        count + n
    } else {
        u64::MAX as nat
    }
}

impl<T: Copy> MonoDump<T> {
    pub closed spec fn samples_spec(&self) -> Seq<T> {
        self.samples@
    }

    pub closed spec fn limit_spec(&self) -> Option<u64> {
        self.limit
    }

    pub closed spec fn frames_spec(&self) -> nat {
        self.frames as nat
    }

    /// Nothing gathered yet. With a `limit`, the gathering stops after the
    /// buffer that takes it past `limit` frames.
    pub fn new(limit: Option<u64>) -> (r: Self)
        ensures
            r.samples_spec() == Seq::<T>::empty(),
            r.limit_spec() == limit,
            r.frames_spec() == 0,
    {
        MonoDump { samples: Vec::new(), limit, frames: 0 }
    }

    /// Takes a planar buffer of `frames` frames: its first `frames` samples
    /// are the first channel. Returns whether more should be gathered.
    pub fn append_planar(&mut self, planar: &Vec<T>, frames: usize) -> (more: bool)
        requires
            frames <= planar@.len(),
        ensures
            final(self).samples_spec() == old(self).samples_spec() + planar@.take(frames as int),
            final(self).limit_spec() == old(self).limit_spec(),
            final(self).frames_spec() == add_frames(old(self).frames_spec(), frames as nat),
            more == !over_limit(final(self).limit_spec(), final(self).frames_spec()),
    {
        let mut i: usize = 0;
        let ghost before = self.samples@;
        while i < frames
            invariant
                frames <= planar@.len(),
                i <= frames,
                self.samples@ == before + planar@.take(i as int),
                self.limit == old(self).limit,
                self.frames == old(self).frames,
            decreases frames - i,
        {
            self.samples.push(planar[i]);
            i = i + 1;
            assert(self.samples@ =~= before + planar@.take(i as int));
        }
        let n = frames as u64;
        self.frames = if self.frames <= u64::MAX - n {
            self.frames + n
        } else {
            u64::MAX
        };
        match self.limit {
            Some(l) => self.frames <= l,
            None => true,
        }
    }

    /// The samples gathered so far.
    pub fn samples(&self) -> (r: &Vec<T>)
        ensures
            r@ == self.samples_spec(),
    {
        &self.samples
    }

    /// The gathered samples.
    pub fn into_samples(self) -> (r: Vec<T>)
        ensures
            r@ == self.samples_spec(),
    {
        self.samples
    }
}

/// The two channels of a planar stereo buffer: its first half and its
/// second half (the larger one when the length is odd).
pub fn split_planar<T: Copy>(planar: &Vec<T>) -> (r: (Vec<T>, Vec<T>))
    ensures
        r.0@ == planar@.take((planar@.len() / 2) as int),
        r.1@ == planar@.skip((planar@.len() / 2) as int),
{
    let len = planar.len();
    let half = len / 2;
    let mut left: Vec<T> = Vec::with_capacity(half);
    let mut right: Vec<T> = Vec::with_capacity(len - half);
    let mut i: usize = 0;
    while i < len
        invariant
            len == planar@.len(),
            half == len / 2,
            i <= len,
            i <= half ==> left@ == planar@.take(i as int) && right@.len() == 0,
            i > half ==> left@ == planar@.take(half as int) && right@ == planar@.subrange(
                half as int,
                i as int,
            ),
        decreases len - i,
    {
        if i < half {
            left.push(planar[i]);
            assert(left@ =~= planar@.take(i + 1));
        } else {
            right.push(planar[i]);
            assert(right@ =~= planar@.subrange(half as int, i + 1));
        }
        i = i + 1;
    }
    assert(left@ =~= planar@.take(half as int));
    assert(right@ =~= planar@.skip(half as int));
    (left, right)
}

/// One sample in this many is written to the debug WAV file.
pub const DEBUG_WAV_STEP: usize = 16;

/// Samples of `signal` at `0, step, 2 * step, ...`.
pub open spec fn decimated<T>(signal: Seq<T>, step: nat) -> Seq<T>
    recommends
        step > 0,
{
    Seq::new(
        ((signal.len() + step - 1) / step as int) as nat,
        |k: int| signal[k * step],
    )
}

/// Every `step`-th sample of `signal`, starting with the first.
pub fn decimate<T: Copy>(signal: &Vec<T>, step: usize) -> (r: Vec<T>)
    requires
        step > 0,
    ensures
        r@ == decimated(signal@, step as nat),
{
    let len = signal.len();
    let mut r: Vec<T> = Vec::new();
    let mut i: usize = 0;
    assert(r@.len() * step == 0) by (nonlinear_arith)
        requires
            r@.len() == 0,
    ;
    while i < len
        invariant
            len == signal@.len(),
            step > 0,
            r@.len() > 0 ==> i < len,
            i == r@.len() * step,
            r@.len() * step < len + step,
            forall|k: int| 0 <= k < r@.len() ==> #[trigger] r@[k] == signal@[k * step],
        decreases len - i,
    {
        r.push(signal[i]);
        proof {
            assert((r@.len() - 1) * step + step == r@.len() * step) by (nonlinear_arith);
        }
        if len - i <= step {
            i = len;
            proof {
                assert(r@.len() * step >= len) by (nonlinear_arith)
                    requires
                        r@.len() * step == (r@.len() - 1) * step + step,
                        (r@.len() - 1) * step + step >= len,
                ;
            }
            assert(r@.len() == ((len + step - 1) / step as int)) by (nonlinear_arith)
                requires
                    r@.len() * step >= len,
                    (r@.len() - 1) * step < len,
                    step > 0,
            ;
            assert(r@ =~= decimated(signal@, step as nat));
            return r;
        }
        i = i + step;
    }
    proof {
        vstd::arithmetic::div_mod::lemma_fundamental_div_mod_converse(
            step - 1,
            step as int,
            0,
            step - 1,
        );
    }
    assert(r@ =~= decimated(signal@, step as nat));
    r
}

/// The samples that the debug WAV file holds: one in `DEBUG_WAV_STEP`.
pub fn debug_wav_samples<T: Copy>(signal: &Vec<T>) -> (r: Vec<T>)
    ensures
        r@ == decimated(signal@, DEBUG_WAV_STEP as nat),
{
    decimate(signal, DEBUG_WAV_STEP)
}

} // verus!
