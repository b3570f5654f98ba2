//! The decisions of the real-time output callback: how the items popped from
//! the streaming queue become output frames.
//!
//! A frame of the source holds as many samples as the last
//! `SetChannelCount` said. Output channel `i` plays source channel `i`; a mono
//! source is also played on channel 1, so that it sits in the centre of a
//! stereo output; output channels the source does not have stay silent, and
//! source channels the output does not have are dropped. A `Silence` item at
//! the start of a frame is a whole silent frame. An empty queue never makes
//! the callback wait: the missing samples are silent and the frame is marked
//! as fallen behind.
use crate::queue::ControlledSample;
use vstd::arithmetic::div_mod::lemma_fundamental_div_mod_converse;
use vstd::prelude::*;

verus! {

/// The state of the mixer, as the contracts see it.
pub struct MixView<S> {
    /// Channels of the output device.
    pub out: nat,
    /// What the output plays for silence.
    pub zero: S,
    /// Channel count of the source, as the last `SetChannelCount` said.
    pub channels: nat,
    /// Frames that started with a decoded sample, since the mixer was made.
    pub frames_played: nat,
    /// The frame in progress has taken its first source sample.
    pub started: bool,
    /// Source samples of the frame in progress.
    pub taken: Seq<S>,
    /// Source samples the frame in progress needs.
    pub width: nat,
    /// The frame is complete.
    pub done: bool,
    /// The completed frame (empty while the frame is in progress).
    pub frame: Seq<S>,
    /// The queue was found empty during this frame.
    pub fell_behind: bool,
}

/// A frame of silence.
pub open spec fn silent_frame<S>(out: nat, zero: S) -> Seq<S> {
    Seq::new(out, |i: int| zero)
}

/// The output frame made of the source samples `taken`.
pub open spec fn output_frame<S>(taken: Seq<S>, out: nat, zero: S) -> Seq<S> {
    Seq::new(
        out,
        |i: int|
            if i < taken.len() {
                taken[i]
            } else if i == 1 && taken.len() == 1 {
                taken[0]
            } else {
                zero
            },
    )
}

/// Source samples a frame needs when the source has `channels` channels.
pub open spec fn frame_width(channels: nat) -> nat {
    if channels == 0 {
        1
    } else {
        channels
    }
}

/// The counter of played frames, which stops at the largest `u64`.
pub open spec fn count_frame(n: nat) -> nat {
    if n < u64::MAX {
        n + 1
    } else {
        n
    }
}

/// The mixer after it has taken one pop result, `None` for an empty queue.
pub open spec fn step<S>(m: MixView<S>, item: Option<ControlledSample<S>>) -> MixView<S> {
    match item {
        Some(ControlledSample::SetChannelCount(n)) => MixView { channels: n as nat, ..m },
        _ => if !m.started {
            match item {
                Some(ControlledSample::Signal(v)) => {
                    let w = frame_width(m.channels);
                    MixView {
                        started: true,
                        taken: seq![v],
                        width: w,
                        frames_played: count_frame(m.frames_played),
                        done: w == 1,
                        frame: if w == 1 {
                            output_frame(seq![v], m.out, m.zero)
                        } else {
                            Seq::empty()
                        },
                        ..m
                    }
                },
                _ => MixView {
                    done: true,
                    frame: silent_frame(m.out, m.zero),
                    fell_behind: m.fell_behind || item is None,
                    ..m
                },
            }
        } else {
            let v = match item {
                Some(ControlledSample::Signal(v)) => v,
                _ => m.zero,
            };
            let t = m.taken.push(v);
            MixView {
                taken: t,
                done: t.len() == m.width,
                frame: if t.len() == m.width {
                    output_frame(t, m.out, m.zero)
                } else {
                    Seq::empty()
                },
                fell_behind: m.fell_behind || item is None,
                ..m
            }
        },
    }
}

/// The mixer after it has taken the pop results `items`, in order.
pub open spec fn run<S>(m: MixView<S>, items: Seq<Option<ControlledSample<S>>>) -> MixView<S>
    decreases items.len(),
{
    if items.len() == 0 {
        m
    } else {
        step(run(m, items.drop_last()), items.last())
    }
}

/// The mixer ready to build the next frame.
pub open spec fn restart<S>(m: MixView<S>) -> MixView<S> {
    MixView {
        started: false,
        taken: Seq::empty(),
        width: 0,
        done: false,
        frame: Seq::empty(),
        fell_behind: false,
        ..m
    }
}

/// The pop results `items` make a whole frame from `m`: the last one
/// completes it and none before does.
pub open spec fn completes_frame<S>(m: MixView<S>, items: Seq<Option<ControlledSample<S>>>) -> bool {
    &&& items.len() >= 1
    &&& run(m, items).done
    &&& forall|k: int| 0 <= k < items.len() ==> !(#[trigger] run(m, items.take(k))).done
}

/// Sets `frame[from..]` to `zero`, but channel 1 to a copy of channel 0
/// when `dup` holds.
fn fill_rest<S: Copy>(frame: &mut Vec<S>, from: usize, dup: bool, zero: S)
    requires
        from <= old(frame)@.len(),
        dup ==> from == 1,
    ensures
        final(frame)@.len() == old(frame)@.len(),
        forall|j: int|
            0 <= j < final(frame)@.len() ==> #[trigger] final(frame)@[j] == if j < from {
                old(frame)@[j]
            } else if dup && j == 1 {
                old(frame)@[0]
            } else {
                zero
            },
{
    let mut i: usize = from;
    while i < frame.len()
        invariant
            frame@.len() == old(frame)@.len(),
            from <= i <= frame@.len(),
            dup ==> from == 1,
            forall|j: int|
                0 <= j < frame@.len() ==> #[trigger] frame@[j] == if j < from || j >= i {
                    old(frame)@[j]
                } else if dup && j == 1 {
                    old(frame)@[0]
                } else {
                    zero
                },
        decreases frame@.len() - i,
    {
        if dup && i == 1 {
            let first = frame[0];
            frame.set(i, first);
        } else {
            frame.set(i, zero);
        }
        i = i + 1;
    }
}

/// `result` is the frame that the pop results `items` make from `start`,
/// where every pop after the first `budget` counts as an empty queue.
pub open spec fn frame_from<S>(
    start: MixView<S>,
    items: Seq<Option<ControlledSample<S>>>,
    budget: nat,
    result: MixView<S>,
) -> bool {
    &&& completes_frame(start, items)
    &&& run(start, items) == result
    &&& forall|k: int| budget <= k < items.len() ==> items[k] is None
}

proof fn lemma_run_push<S>(
    m: MixView<S>,
    items: Seq<Option<ControlledSample<S>>>,
    x: Option<ControlledSample<S>>,
)
    ensures
        run(m, items.push(x)) == step(run(m, items), x),
{
    assert(items.push(x).drop_last() =~= items);
}

proof fn lemma_prefixes_not_done<S>(
    m: MixView<S>,
    items: Seq<Option<ControlledSample<S>>>,
    x: Option<ControlledSample<S>>,
)
    requires
        forall|k: int| 0 <= k < items.len() ==> !(#[trigger] run(m, items.take(k))).done,
        !run(m, items).done,
    ensures
        forall|k: int|
            0 <= k < items.push(x).len() ==> !(#[trigger] run(m, items.push(x).take(k))).done,
{
    assert forall|k: int| 0 <= k < items.push(x).len() implies !(#[trigger] run(
        m,
        items.push(x).take(k),
    )).done by {
        if k < items.len() {
            assert(items.push(x).take(k) =~= items.take(k));
        } else {
            assert(items.push(x).take(k) =~= items);
        }
    }
}

/// The run `items` may have taken the mixer from the completed frame of
/// `prev` to the completed frame of `next`.
pub open spec fn follows<S>(prev: MixView<S>, next: MixView<S>, budget: nat) -> bool {
    exists|items: Seq<Option<ControlledSample<S>>>| frame_from(restart(prev), items, budget, next)
}

/// `views` are the states after each of a sequence of frames rendered from
/// `start`.
pub open spec fn rendered_from<S>(start: MixView<S>, views: Seq<MixView<S>>, budget: nat) -> bool {
    forall|j: int|
        0 <= j < views.len() ==> follows(
            if j == 0 {
                start
            } else {
                views[j - 1]
            },
            #[trigger] views[j],
            budget,
        )
}

/// The state after the frames `views`, or `start` if there are none.
pub open spec fn last_view<S>(start: MixView<S>, views: Seq<MixView<S>>) -> MixView<S> {
    if views.len() == 0 {
        start
    } else {
        views.last()
    }
}

/// One of the frames ran the queue dry.
pub open spec fn any_fell_behind<S>(views: Seq<MixView<S>>) -> bool {
    exists|j: int| 0 <= j < views.len() && (#[trigger] views[j]).fell_behind
}

/// Frames, the last one possibly partial, in a buffer of `len` samples of
/// `out` channels.
pub open spec fn frames_in(len: nat, out: nat) -> nat
    recommends
        out > 0,
{
    ((len + out - 1) / out as int) as nat
}

proof fn lemma_run_keeps_output<S>(m: MixView<S>, items: Seq<Option<ControlledSample<S>>>)
    ensures
        run(m, items).out == m.out,
        run(m, items).zero == m.zero,
    decreases items.len(),
{
    if items.len() > 0 {
        lemma_run_keeps_output(m, items.drop_last());
    }
}

proof fn lemma_any_push<S>(views: Seq<MixView<S>>, v: MixView<S>)
    ensures
        any_fell_behind(views.push(v)) == (any_fell_behind(views) || v.fell_behind),
{
    if any_fell_behind(views) {
        let j = choose|j: int| 0 <= j < views.len() && (#[trigger] views[j]).fell_behind;
        assert(views.push(v)[j] == views[j]);
    }
    if v.fell_behind {
        assert(views.push(v)[views.len() as int] == v);
    }
    if any_fell_behind(views.push(v)) {
        let j = choose|j: int| 0 <= j < views.push(v).len() && (#[trigger] views.push(v)[j]).fell_behind;
        if j < views.len() {
            assert(views.push(v)[j] == views[j]);
        }
    }
}

proof fn lemma_same_frame_index(p: int, k: int, out: int)
    requires
        0 <= p < k * out,
        out > 0,
    ensures
        0 <= p / out < k,
{
    vstd::arithmetic::div_mod::lemma_div_pos_is_pos(p, out);
    vstd::arithmetic::div_mod::lemma_div_is_ordered(p, k * out, out);
    vstd::arithmetic::div_mod::lemma_div_multiples_vanish(k, out);
    if p / out == k {
        vstd::arithmetic::div_mod::lemma_fundamental_div_mod(p, out);
        assert(p >= k * out) by (nonlinear_arith)
            requires
                p == out * (p / out) + p % out,
                p % out >= 0,
                p / out == k,
        ;
    }
}

proof fn lemma_frames_in(len: int, out: int, k: int)
    requires
        out > 0,
        k >= 1,
        (k - 1) * out < len <= k * out,
    ensures
        frames_in(len as nat, out as nat) == k,
{
    assert((k - 1) * out == k * out - out) by (nonlinear_arith);
    lemma_fundamental_div_mod_converse(len + out - 1, out, k, len + out - 1 - k * out);
}

/// `data` is what a buffer fill from `start` wrote: one frame for each of
/// `views`, interleaved, and `result` is the mixer afterwards.
pub open spec fn output_of<S>(
    start: MixView<S>,
    views: Seq<MixView<S>>,
    budget: nat,
    data: Seq<S>,
    fell_behind: bool,
    result: MixView<S>,
) -> bool {
    &&& rendered_from(start, views, budget)
    &&& views.len() == frames_in(data.len(), start.out)
    &&& result == last_view(start, views)
    &&& fell_behind == any_fell_behind(views)
    &&& forall|p: int|
        0 <= p < data.len() ==> #[trigger] data[p] == views[p / (start.out as int)].frame[p % (
        start.out as int)]
}

fn copy_frame<S: Copy>(data: &mut [S], pos: usize, frame: &Vec<S>)
    requires
        pos < old(data)@.len(),
    ensures
        final(data)@.len() == old(data)@.len(),
        forall|q: int|
            0 <= q < final(data)@.len() ==> #[trigger] final(data)@[q] == if pos <= q < pos
                + frame@.len() {
                frame@[q - pos]
            } else {
                old(data)@[q]
            },
{
    let len = data.len();
    let mut c: usize = 0;
    while c < frame.len() && c < len - pos
        invariant
            pos < len,
            len == data@.len(),
            data@.len() == old(data)@.len(),
            c <= frame@.len(),
            forall|q: int|
                0 <= q < data@.len() ==> #[trigger] data@[q] == if pos <= q < pos + c {
                    frame@[q - pos]
                } else {
                    old(data)@[q]
                },
        decreases frame@.len() - c,
    {
        data[pos + c] = frame[c];
        c = c + 1;
    }
}

proof fn lemma_chain_push<S>(start: MixView<S>, views: Seq<MixView<S>>, v: MixView<S>, budget: nat)
    requires
        rendered_from(start, views, budget),
        follows(last_view(start, views), v, budget),
    ensures
        rendered_from(start, views.push(v), budget),
{
    let w = views.push(v);
    assert forall|j: int| 0 <= j < w.len() implies follows(
        if j == 0 {
            start
        } else {
            w[j - 1]
        },
        #[trigger] w[j],
        budget,
    ) by {
        if j < views.len() {
            assert(w[j] == views[j]);
            if j > 0 {
                assert(w[j - 1] == views[j - 1]);
            }
        } else if j > 0 {
            assert(w[j - 1] == views.last());
        }
    }
}

proof fn lemma_data_extends<S>(
    d0: Seq<S>,
    d1: Seq<S>,
    views: Seq<MixView<S>>,
    v: MixView<S>,
    pos: int,
    out: int,
)
    requires
        out > 0,
        pos == views.len() * out,
        0 <= pos < d0.len(),
        d1.len() == d0.len(),
        v.frame.len() == out,
        forall|p: int|
            0 <= p < pos && p < d0.len() ==> #[trigger] d0[p] == views[p / out].frame[p % out],
        forall|q: int|
            0 <= q < d1.len() ==> #[trigger] d1[q] == if pos <= q < pos + v.frame.len() {
                v.frame[q - pos]
            } else {
                d0[q]
            },
    ensures
        forall|p: int|
            0 <= p < pos + out && p < d1.len() ==> #[trigger] d1[p] == views.push(v)[p / out].frame[p
                % out],
{
    assert forall|p: int| 0 <= p < pos + out && p < d1.len() implies #[trigger] d1[p] == views.push(
        v,
    )[p / out].frame[p % out] by {
        if p < pos {
            lemma_same_frame_index(p, views.len() as int, out);
            assert(d1[p] == d0[p]);
            assert(views.push(v)[p / out] == views[p / out]);
        } else {
            lemma_fundamental_div_mod_converse(p, out, views.len() as int, p - pos);
            assert(d1[p] == v.frame[p - pos]);
        }
    }
}

/// The consumer side of the stream: turns queue items into output frames.
pub struct Mixer<S> {
    zero: S,
    out: usize,
    channels: usize,
    frames_played: u64,
    started: bool,
    width: usize,
    taken: usize,
    taken_seq: Ghost<Seq<S>>,
    done: bool,
    fell_behind: bool,
    frame: Vec<S>,
}

impl<S: Copy> Mixer<S> {
    /// What the mixer holds, as the contracts see it.
    pub closed spec fn view(&self) -> MixView<S> {
        MixView {
            out: self.out as nat,
            zero: self.zero,
            channels: self.channels as nat,
            frames_played: self.frames_played as nat,
            started: self.started,
            taken: self.taken_seq@,
            width: self.width as nat,
            done: self.done,
            frame: if self.done {
                self.frame@
            } else {
                Seq::empty()
            },
            fell_behind: self.fell_behind,
        }
    }

    /// The internal invariant of the mixer.
    pub closed spec fn wf(&self) -> bool {
        &&& self.wf_frame()
        &&& self.started && !self.done ==> self.taken < self.width
    }

    closed spec fn wf_frame(&self) -> bool {
        &&& self.out >= 1
        &&& self.frame@.len() == self.out
        &&& self.taken == self.taken_seq@.len()
        &&& self.started ==> 1 <= self.taken <= self.width
        &&& !self.started ==> self.taken == 0
        &&& forall|i: int|
            0 <= i < self.taken && i < self.out ==> self.frame@[i] == self.taken_seq@[i]
        &&& self.done ==> self.frame@ == (if self.started {
            output_frame(self.taken_seq@, self.out as nat, self.zero)
        } else {
            silent_frame(self.out as nat, self.zero)
        })
    }

    /// A mixer for an output of `output_channels` channels that plays `zero`
    /// for silence. It takes the source to have as many channels as the
    /// output until told otherwise, and starts with a completed silent frame.
    pub fn new(output_channels: usize, zero: S) -> (r: Self)
        requires
            output_channels >= 1,
        ensures
            r.wf(),
            r@ == (MixView {
                out: output_channels as nat,
                zero,
                channels: output_channels as nat,
                frames_played: 0,
                started: false,
                taken: Seq::empty(),
                width: 0,
                done: true,
                frame: silent_frame(output_channels as nat, zero),
                fell_behind: false,
            }),
    {
        let mut frame: Vec<S> = Vec::with_capacity(output_channels);
        while frame.len() < output_channels
            invariant
                frame@.len() <= output_channels,
                forall|j: int| 0 <= j < frame@.len() ==> frame@[j] == zero,
            decreases output_channels - frame@.len(),
        {
            frame.push(zero);
        }
        assert(frame@ =~= silent_frame(output_channels as nat, zero));
        Mixer {
            zero,
            out: output_channels,
            channels: output_channels,
            frames_played: 0,
            started: false,
            width: 0,
            taken: 0,
            taken_seq: Ghost(Seq::empty()),
            done: true,
            fell_behind: false,
            frame,
        }
    }

    /// The last completed frame, one sample per output channel.
    pub fn frame(&self) -> (r: &Vec<S>)
        requires
            self.wf(),
            self@.done,
        ensures
            r@ == self@.frame,
    {
        &self.frame
    }

    /// Frames that started with a decoded sample so far.
    pub fn frames_played(&self) -> (r: u64)
        ensures
            r as nat == self@.frames_played,
    {
        self.frames_played
    }

    /// Channel count of the source, as the last `SetChannelCount` said.
    pub fn source_channels(&self) -> (r: usize)
        ensures
            r as nat == self@.channels,
    {
        self.channels
    }

    /// Forgets the completed frame and gets ready to build the next one.
    pub fn start_frame(&mut self)
        requires
            old(self).wf(),
            old(self)@.done,
        ensures
            final(self).wf(),
            final(self)@ == restart(old(self)@),
    {
        self.started = false;
        self.width = 0;
        self.taken = 0;
        self.taken_seq = Ghost(Seq::empty());
        self.done = false;
        self.fell_behind = false;
    }

    /// Fills the channels the source samples did not, and marks the frame
    /// complete.
    fn finish(&mut self)
        requires
            old(self).wf_frame(),
            old(self).started,
            !old(self).done,
            old(self).taken == old(self).width,
        ensures
            final(self).wf(),
            final(self)@ == (MixView {
                done: true,
                frame: output_frame(old(self)@.taken, old(self)@.out, old(self)@.zero),
                ..old(self)@
            }),
    {
        let from = if self.taken < self.out {
            self.taken
        } else {
            self.out
        };
        fill_rest(&mut self.frame, from, self.taken == 1, self.zero);
        assert(self.frame@ =~= output_frame(self.taken_seq@, self.out as nat, self.zero));
        self.done = true;
    }

    /// Takes one pop result (`None` when the queue was empty).
    pub fn accept(&mut self, item: Option<ControlledSample<S>>)
        requires
            old(self).wf(),
            !old(self)@.done,
        ensures
            final(self).wf(),
            final(self)@ == step(old(self)@, item),
    {
        if let Some(ControlledSample::SetChannelCount(n)) = item {
            self.channels = n;
            return ;
        }
        if !self.started {
            match item {
                Some(ControlledSample::Signal(v)) => {
                    self.started = true;
                    self.width = if self.channels == 0 {
                        1
                    } else {
                        self.channels
                    };
                    if self.frames_played < u64::MAX {
                        self.frames_played = self.frames_played + 1;
                    }
                    self.frame.set(0, v);
                    self.taken = 1;
                    let ghost first = seq![v];
                    self.taken_seq = Ghost(first);
                    if self.width == 1 {
                        self.finish();
                    }
                },
                _ => {
                    fill_rest(&mut self.frame, 0, false, self.zero);
                    assert(self.frame@ =~= silent_frame(self.out as nat, self.zero));
                    if item.is_none() {
                        self.fell_behind = true;
                    }
                    self.done = true;
                },
            }
        } else {
            let v = match item {
                Some(ControlledSample::Signal(v)) => v,
                _ => self.zero,
            };
            if item.is_none() {
                self.fell_behind = true;
            }
            if self.taken < self.out {
                self.frame.set(self.taken, v);
            }
            self.taken = self.taken + 1;
            self.taken_seq = Ghost(self.taken_seq@.push(v));
            if self.taken == self.width {
                self.finish();
            }
        }
    }

    /// Builds the next output frame from the queue, without ever waiting
    /// for it. After `budget` pops the queue is treated as empty, so a run of
    /// channel-count changes cannot hold the callback up.
    pub fn render_frame(
        &mut self,
        queue: &mut rtrb::Consumer<ControlledSample<S>>,
        budget: usize,
    ) -> (fell_behind: bool)
        requires
            old(self).wf(),
            old(self)@.done,
        ensures
            final(self).wf(),
            final(self)@.done,
            final(self)@.out == old(self)@.out,
            final(self)@.zero == old(self)@.zero,
            final(self)@.frame.len() == final(self)@.out,
            final(self)@.frames_played >= old(self)@.frames_played,
            fell_behind == final(self)@.fell_behind,
            exists|items: Seq<Option<ControlledSample<S>>>|
                frame_from(restart(old(self)@), items, budget as nat, final(self)@),
    {
        self.start_frame();
        let ghost start = self@;
        let ghost mut items: Seq<Option<ControlledSample<S>>> = Seq::empty();
        let mut pulls: usize = 0;
        while !self.done && pulls < budget
            invariant
                self.wf(),
                pulls <= budget,
                items.len() == pulls,
                self@ == run(start, items),
                forall|k: int| 0 <= k < items.len() ==> !(#[trigger] run(start, items.take(k))).done,
                forall|k: int| budget <= k < items.len() ==> items[k] is None,
            decreases budget - pulls,
        {
            let item = match queue.pop() {
                Ok(v) => Some(v),
                Err(_) => None,
            };
            self.accept(item);
            proof {
                lemma_run_push(start, items, item);
                lemma_prefixes_not_done(start, items, item);
                items = items.push(item);
            }
            pulls = pulls + 1;
        }
        while !self.done
            invariant
                self.wf(),
                items.len() >= pulls,
                pulls == budget || self@.done,
                self@ == run(start, items),
                forall|k: int| 0 <= k < items.len() ==> !(#[trigger] run(start, items.take(k))).done,
                forall|k: int| budget <= k < items.len() ==> items[k] is None,
            decreases (if self@.done {
                0int
            } else if self@.started {
                self@.width - self@.taken.len() + 1int
            } else {
                self@.width + 2int
            }),
        {
            self.accept(None);
            proof {
                lemma_run_push(start, items, None);
                lemma_prefixes_not_done(start, items, None);
                items = items.push(None);
            }
        }
        proof {
            if items.len() == 0 {
                assert(run(start, items) == start);
            }
            assert(items.take(items.len() as int) =~= items);
            assert(frame_from(start, items, budget as nat, self@));
            lemma_run_keeps_output(start, items);
            lemma_frames_never_decrease(start, items);
        }
        self.fell_behind
    }


    /// Fills an output buffer of interleaved frames from the queue: frame
    /// `k` of the buffer is the `k`-th frame rendered, and a last partial
    /// frame holds the first channels of a whole rendered frame. Returns
    /// whether the queue ran dry during any of them.
    pub fn fill_output(
        &mut self,
        queue: &mut rtrb::Consumer<ControlledSample<S>>,
        data: &mut [S],
        budget: usize,
    ) -> (fell_behind: bool)
        requires
            old(self).wf(),
            old(self)@.done,
        ensures
            final(self).wf(),
            final(self)@.done,
            final(data)@.len() == old(data)@.len(),
            final(self)@.frames_played >= old(self)@.frames_played,
            exists|views: Seq<MixView<S>>|
                output_of(old(self)@, views, budget as nat, final(data)@, fell_behind, final(self)@),
    {
        let len = data.len();
        let out = self.out;
        let ghost start = self@;
        let ghost mut views: Seq<MixView<S>> = Seq::empty();
        let mut behind = false;
        let mut pos: usize = 0;
        assert(views.len() * out == 0) by (nonlinear_arith)
            requires
                views.len() == 0,
        ;
        while pos < len
            invariant
                self.wf(),
                self@.done,
                self@.out == out,
                start == old(self)@,
                self@.frames_played >= start.frames_played,
                start.out == out,
                out >= 1,
                len == data@.len(),
                data@.len() == old(data)@.len(),
                pos == views.len() * out,
                views.len() > 0 ==> pos < len,
                rendered_from(start, views, budget as nat),
                self@ == last_view(start, views),
                behind == any_fell_behind(views),
                forall|j: int| 0 <= j < views.len() ==> (#[trigger] views[j]).frame.len() == out,
                forall|p: int|
                    0 <= p < pos && p < len ==> #[trigger] data@[p] == views[p / (out as int)].frame[p
                        % (out as int)],
            decreases len - pos,
        {
            let ghost old_views = views;
            let ghost old_data = data@;
            let b = self.render_frame(queue, budget);
            behind = behind || b;
            proof {
                lemma_chain_push(start, old_views, self@, budget as nat);
                lemma_any_push(old_views, self@);
                views = old_views.push(self@);
            }
            copy_frame(data, pos, self.frame());
            proof {
                lemma_data_extends(old_data, data@, old_views, self@, pos as int, out as int);
                assert(views.len() * out == pos + out) by (nonlinear_arith)
                    requires
                        views.len() == old_views.len() + 1,
                        pos == old_views.len() * out,
                ;
            }
            if len - pos <= out {
                proof {
                    lemma_frames_in(len as int, out as int, views.len() as int);
                    assert(output_of(start, views, budget as nat, data@, behind, self@));
                }
                return behind;
            }
            pos = pos + out;
        }
        proof {
            lemma_fundamental_div_mod_converse(out - 1, out as int, 0, out - 1);
            assert(output_of(start, views, budget as nat, data@, behind, self@));
        }
        behind
    }
}

/// The frames-played counter of the mixer never goes back, whatever the
/// queue hands out.
pub proof fn lemma_frames_never_decrease<S>(m: MixView<S>, items: Seq<Option<ControlledSample<S>>>)
    ensures
        run(m, items).frames_played >= m.frames_played,
    decreases items.len(),
{
    if items.len() > 0 {
        lemma_frames_never_decrease(m, items.drop_last());
    }
}

/// An empty queue at the start of a frame gives a silent frame, marked as
/// fallen behind, after a single pop.
pub proof fn lemma_underrun_is_silent<S>(m: MixView<S>)
    requires
        !m.started,
        !m.done,
    ensures
        completes_frame(m, seq![None]),
        run(m, seq![None]).frame == silent_frame(m.out, m.zero),
        run(m, seq![None]).fell_behind,
{
    let items: Seq<Option<ControlledSample<S>>> = seq![None];
    assert(items.drop_last() =~= Seq::empty());
    assert(items.take(0) =~= Seq::empty());
    assert(run(m, items.take(0)) == m);
    assert(run(m, items) == step(m, None));
}

/// A channel-count change takes effect from the next frame on: after
/// `SetChannelCount(1)` a sample is played on the first two output channels,
/// and after `SetChannelCount(2)` two samples are played side by side.
pub proof fn lemma_channel_hot_swap<S>(m: MixView<S>, a: S, b: S, c: S)
    requires
        !m.started,
        !m.done,
        m.out >= 2,
    ensures
        ({
            let mono = seq![
                Some(ControlledSample::SetChannelCount(1)),
                Some(ControlledSample::Signal(a)),
            ];
            let m1 = run(m, mono);
            let stereo = seq![
                Some(ControlledSample::SetChannelCount(2)),
                Some(ControlledSample::Signal(b)),
                Some(ControlledSample::Signal(c)),
            ];
            let m2 = run(restart(m1), stereo);
            &&& completes_frame(m, mono)
            &&& m1.frame[0] == a
            &&& m1.frame[1] == a
            &&& forall|i: int| 2 <= i < m.out ==> m1.frame[i] == m.zero
            &&& completes_frame(restart(m1), stereo)
            &&& m2.frame[0] == b
            &&& m2.frame[1] == c
            &&& forall|i: int| 2 <= i < m.out ==> m2.frame[i] == m.zero
        }),
{
    let mono = seq![
        Some(ControlledSample::SetChannelCount(1)),
        Some(ControlledSample::Signal(a)),
    ];
    assert(mono.drop_last() =~= seq![Some(ControlledSample::SetChannelCount(1))]);
    assert(mono.drop_last().drop_last() =~= Seq::empty());
    assert(mono.take(0) =~= Seq::empty());
    assert(mono.take(1) =~= mono.drop_last());
    reveal_with_fuel(run, 4);
    let m1 = run(m, mono);
    let stereo = seq![
        Some(ControlledSample::SetChannelCount(2)),
        Some(ControlledSample::Signal(b)),
        Some(ControlledSample::Signal(c)),
    ];
    let r = restart(m1);
    assert(stereo.drop_last() =~= seq![
        Some(ControlledSample::SetChannelCount(2)),
        Some(ControlledSample::Signal(b)),
    ]);
    assert(stereo.drop_last().drop_last() =~= seq![Some(ControlledSample::SetChannelCount(2))]);
    assert(stereo.drop_last().drop_last().drop_last() =~= Seq::empty());
    assert(stereo.take(0) =~= Seq::empty());
    assert(stereo.take(1) =~= stereo.drop_last().drop_last());
    assert(stereo.take(2) =~= stereo.drop_last());
    assert(seq![b].push(c) =~= seq![b, c]);
}

} // verus!
