//! How the short-time analysis cuts a signal into frames and lays a frame
//! out for the Fourier transform. These are the parts of the analysis that
//! do not depend on what a sample is, so they are generic over it.
use vstd::arithmetic::div_mod::lemma_fundamental_div_mod_converse;
use vstd::prelude::*;

verus! {

/// Frames of `window` samples, `hop` samples apart, that fit in a signal of
/// `len` samples.
pub open spec fn frame_count_spec(len: nat, window: nat, hop: nat) -> nat
    recommends
        hop > 0,
{
    if len < window {
        0
    } else {
        ((len - window) as nat / hop) + 1
    }
}

/// Non-redundant bins of the spectrum of `size` real samples.
pub open spec fn bin_count_spec(size: nat) -> nat {
    size / 2 + 1
}

/// Sample `i` of `frame` after a half-turn rotation: the second half of the
/// frame (its larger half when the size is odd) comes first.
pub open spec fn rotated<T>(frame: Seq<T>) -> Seq<T> {
    Seq::new(frame.len(), |i: int| frame[(i + frame.len() / 2) % (frame.len() as int)])
}

proof fn lemma_start_fits(k: nat, count: nat, room: nat, hop: nat)
    requires
        hop > 0,
        count == room / hop + 1,
        k < count,
    ensures
        k * hop <= room,
{
    assert(k <= room / hop);
    assert(k * hop <= (room / hop) * hop) by (nonlinear_arith)
        requires
            k <= room / hop,
            hop > 0,
    ;
    assert((room / hop) * hop <= room) by (nonlinear_arith)
        requires
            hop > 0,
    ;
}

/// Number of analysis frames of `window_size` samples, `hop_size` apart,
/// in a signal of `len` samples.
pub fn frame_count(len: usize, window_size: usize, hop_size: usize) -> (r: usize)
    requires
        window_size > 0,
        hop_size > 0,
    ensures
        r as nat == frame_count_spec(len as nat, window_size as nat, hop_size as nat),
{
    if len < window_size {
        0
    } else {
        let room = len - window_size;
        assert(room / hop_size <= room) by (nonlinear_arith)
            requires
                hop_size > 0,
        ;
        room / hop_size + 1
    }
}

/// Number of bins that the analysis keeps of the spectrum of a frame of
/// `size` samples.
pub fn bin_count(size: usize) -> (r: usize)
    ensures
        r as nat == bin_count_spec(size as nat),
{
    size / 2 + 1
}

fn copy_range<T: Copy>(v: &Vec<T>, start: usize, len: usize) -> (r: Vec<T>)
    requires
        start + len <= v@.len(),
    ensures
        r@ == v@.subrange(start as int, start + len),
{
    let total = v.len();
    let mut r: Vec<T> = Vec::with_capacity(len);
    let mut i: usize = 0;
    while i < len
        invariant
            total == v@.len(),
            start + len <= v@.len(),
            i <= len,
            r@ == v@.subrange(start as int, start + i),
        decreases len - i,
    {
        r.push(v[start + i]);
        i = i + 1;
        assert(r@ =~= v@.subrange(start as int, start + i));
    }
    r
}

/// The analysis frames of `signal`: frame `k` is the `window_size` samples
/// that start at `k * hop_size`. Frames overlap when the hop is shorter than
/// the window, and samples are skipped when it is longer.
pub fn frames<T: Copy>(signal: &Vec<T>, window_size: usize, hop_size: usize) -> (r: Vec<Vec<T>>)
    requires
        window_size > 0,
        hop_size > 0,
    ensures
        r@.len() == frame_count_spec(signal@.len(), window_size as nat, hop_size as nat),
        forall|k: int|
            0 <= k < r@.len() ==> #[trigger] r@[k]@ == signal@.subrange(
                k * hop_size,
                k * hop_size + window_size,
            ),
{
    let len = signal.len();
    let count = frame_count(len, window_size, hop_size);
    let mut r: Vec<Vec<T>> = Vec::with_capacity(count);
    let mut k: usize = 0;
    while k < count
        invariant
            len == signal@.len(),
            window_size > 0,
            hop_size > 0,
            count as nat == frame_count_spec(signal@.len(), window_size as nat, hop_size as nat),
            k <= count,
            r@.len() == k,
            forall|j: int|
                0 <= j < k ==> #[trigger] r@[j]@ == signal@.subrange(
                    j * hop_size,
                    j * hop_size + window_size,
                ),
        decreases count - k,
    {
        proof {
            lemma_start_fits(
                k as nat,
                count as nat,
                (signal@.len() - window_size) as nat,
                hop_size as nat,
            );
        }
        assert(k * hop_size <= signal@.len() - window_size);
        let start = k * hop_size;
        r.push(copy_range(signal, start, window_size));
        k = k + 1;
    }
    r
}

/// The frame rotated by half its length, so that the transform is centred
/// on the middle of the frame: the buffer starts with the frame's second
/// half (`ceil(n / 2)` samples) and ends with its first half.
pub fn center_rotate<T: Copy>(frame: &Vec<T>) -> (r: Vec<T>)
    ensures
        r@ == rotated(frame@),
{
    let n = frame.len();
    let half = n / 2;
    let mut r: Vec<T> = Vec::with_capacity(n);
    let mut i: usize = half;
    while i < n
        invariant
            n == frame@.len(),
            half == n / 2,
            half <= i <= n,
            r@.len() == i - half,
            forall|j: int| 0 <= j < r@.len() ==> #[trigger] r@[j] == frame@[j + half],
        decreases n - i,
    {
        r.push(frame[i]);
        i = i + 1;
    }
    let mut j: usize = 0;
    while j < half
        invariant
            n == frame@.len(),
            half == n / 2,
            j <= half,
            r@.len() == n - half + j,
            forall|m: int| 0 <= m < n - half ==> #[trigger] r@[m] == frame@[m + half],
            forall|m: int| n - half <= m < r@.len() ==> #[trigger] r@[m] == frame@[m - (n - half)],
        decreases half - j,
    {
        r.push(frame[j]);
        j = j + 1;
    }
    proof {
        assert forall|m: int| 0 <= m < n implies #[trigger] r@[m] == rotated(frame@)[m] by {
            if m < n - half {
                lemma_fundamental_div_mod_converse(m + half, n as int, 0, m + half);
            } else {
                lemma_fundamental_div_mod_converse(m + half, n as int, 1, m - (n - half));
            }
        }
    }
    assert(r@ =~= rotated(frame@));
    r
}

/// The non-redundant half of the spectrum of a real frame: its first
/// `n / 2 + 1` bins.
pub fn positive_bins<T: Copy>(spectrum: &Vec<T>) -> (r: Vec<T>)
    requires
        spectrum@.len() >= 1,
    ensures
        r@.len() == bin_count_spec(spectrum@.len()),
        r@ == spectrum@.take(bin_count_spec(spectrum@.len()) as int),
{
    let keep = bin_count(spectrum.len());
    copy_range(spectrum, 0, keep)
}

/// The shape of the analysis: a signal of `len` samples gives
/// `floor((len - window) / hop) + 1` frames when it holds at least one
/// window, and every frame of `window` samples gives `window / 2 + 1` bins.
pub proof fn lemma_analysis_shape(len: nat, window: nat, hop: nat)
    requires
        window > 0,
        hop > 0,
        len >= window,
    ensures
        frame_count_spec(len, window, hop) == (len - window) as nat / hop + 1,
        bin_count_spec(window) == window / 2 + 1,
        bin_count_spec(window) <= window,
{
}

} // verus!
