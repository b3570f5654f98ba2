//! The lock-free single-producer/single-consumer queue between the loader
//! and the output callback, and the items that travel through it.
//!
//! The two ends of the queue live on different threads, so what one end
//! sees can change between two of its calls. Nothing below claims to know
//! what the queue holds: a push may find it full and a pop may find it
//! empty at any time, and the code is verified for either outcome.
use vstd::prelude::*;

verus! {

#[verifier::external_type_specification]
#[verifier::external_body]
#[verifier::reject_recursive_types(T)]
pub struct ExProducer<T>(rtrb::Producer<T>);

#[verifier::external_type_specification]
#[verifier::external_body]
#[verifier::reject_recursive_types(T)]
pub struct ExConsumer<T>(rtrb::Consumer<T>);

#[verifier::external_type_specification]
#[verifier::reject_recursive_types(T)]
pub struct ExPushError<T>(rtrb::PushError<T>);

#[verifier::external_type_specification]
pub struct ExPopError(rtrb::PopError);

/// Relies on rtrb::RingBuffer::new, which allocates the slots with
/// `Vec::with_capacity` (that call panics when the slots would take more
/// than `isize::MAX` bytes).
pub assume_specification<T>[ rtrb::RingBuffer::<T>::new ](capacity: usize) -> (
    rtrb::Producer<T>,
    rtrb::Consumer<T>,
)
    requires
        capacity * vstd::layout::size_of::<T>() <= isize::MAX,
;

/// Relies on rtrb::Producer::push: when the queue is full the value comes
/// back inside the error.
pub assume_specification<T>[ rtrb::Producer::<T>::push ](
    producer: &mut rtrb::Producer<T>,
    value: T,
) -> (r: Result<(), rtrb::PushError<T>>)
    ensures
        r matches Err(rtrb::PushError::Full(v)) ==> v == value,
;

/// Relies on rtrb::Consumer::pop: the oldest queued item, or an error when
/// the queue is empty.
pub assume_specification<T>[ rtrb::Consumer::<T>::pop ](consumer: &mut rtrb::Consumer<T>) -> (r:
    Result<T, rtrb::PopError>)
;

/// One item of the streaming queue.
///
/// Audio samples and channel-layout changes share one queue, so a layout
/// change takes effect exactly between the samples it was pushed between.
#[derive(Clone, Copy, Debug, PartialEq, Eq)]
pub enum ControlledSample<S> {
    /// A whole output frame of silence.
    Silence,
    /// One decoded sample.
    Signal(S),
    /// The samples that follow are frames of this many channels.
    SetChannelCount(usize),
}

/// Pushes `count` silence items, the priming buffer that absorbs jitter
/// between the loader and the output callback. Stops early if the queue is
/// full; returns how many were pushed.
pub fn prime<S>(producer: &mut rtrb::Producer<ControlledSample<S>>, count: usize) -> (r: usize)
    ensures
        r <= count,
{
    let mut pushed: usize = 0;
    while pushed < count
        invariant
            pushed <= count,
        decreases count - pushed,
    {
        match producer.push(ControlledSample::Silence) {
            Ok(()) => {
                pushed = pushed + 1;
            },
            Err(_) => {
                return pushed;
            },
        }
    }
    pushed
}

/// Pushes `samples[from..]` as `Signal` items, in order, until the queue is
/// full. Returns the index of the first sample that was not pushed: the
/// loader waits and calls again from there.
pub fn push_signals<S: Copy>(
    producer: &mut rtrb::Producer<ControlledSample<S>>,
    samples: &Vec<S>,
    from: usize,
) -> (r: usize)
    requires
        from <= samples@.len(),
    ensures
        from <= r <= samples@.len(),
{
    let mut i: usize = from;
    while i < samples.len()
        invariant
            from <= i <= samples@.len(),
        decreases samples@.len() - i,
    {
        match producer.push(ControlledSample::Signal(samples[i])) {
            Ok(()) => {
                i = i + 1;
            },
            Err(_) => {
                return i;
            },
        }
    }
    i
}

} // verus!
