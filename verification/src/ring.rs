//! The bounded queue of samples between capture and playback.
//!
//! A sample is carried as the bit pattern of a 32-bit float: this library
//! moves samples and never computes with them. Silence is the pattern 0.
//!
//! A `LatencyBuffer` is the whole queue, owned by one caller: what it holds is
//! known exactly. For the two audio callbacks it is split into a `CaptureEnd`
//! and a `PlaybackEnd`, which work on the same queue from two threads.
//!
//! Each end keeps its own account of the queue and looks at what the other end
//! has done only when that account is used up. So an end knows part of the
//! queue for certain: the playback end the samples that it has seen and not
//! taken yet, the capture end the room that it has seen and not filled yet.
//! The other end can only add to either. What lies beyond that account
//! depends on the other thread, and nothing is stated of it.

use ringbuf::traits::{Consumer, Producer, Split};
use ringbuf::{HeapCons, HeapProd, HeapRb};
use vstd::prelude::*;

verus! {

/// A `ringbuf::HeapRb` of samples that has not been split. Nothing of it is
/// visible to the verifier but what the functions below state.
#[verifier::external_body]
pub struct SampleRing {
    inner: HeapRb<u32>,
}

/// The producer of a `ringbuf::HeapRb` of samples that has been split.
#[verifier::external_body]
pub struct CaptureEnd {
    inner: HeapProd<u32>,
}

/// The consumer of a `ringbuf::HeapRb` of samples that has been split.
#[verifier::external_body]
pub struct PlaybackEnd {
    inner: HeapCons<u32>,
}

/// The samples that a ring buffer holds, the oldest first.
pub uninterp spec fn ring_items(rb: SampleRing) -> Seq<u32>;

/// The samples that the consumer of a split buffer has seen in the queue and
/// not taken yet, the oldest first: those between its read index and the
/// write index as it last fetched it. The producer never touches them.
pub uninterp spec fn seen_items(end: PlaybackEnd) -> Seq<u32>;

/// The room that the producer of a split buffer has seen in the queue and not
/// filled yet: the vacant slots between its write index and the read index as
/// it last fetched it. The consumer never takes room away.
pub uninterp spec fn seen_room(end: CaptureEnd) -> nat;

/// The number of samples that a ring buffer has room for.
pub uninterp spec fn ring_capacity(rb: SampleRing) -> nat;

/// `ringbuf::HeapRb::new`: an empty ring buffer with room for `capacity`
/// samples. The call panics on a capacity of zero and on one whose bytes
/// exceed `isize::MAX`, so both are ruled out.
#[verifier::external_body]
fn ring_new(capacity: usize) -> (rb: SampleRing)
    requires
        0 < capacity <= usize::MAX / 8,
    ensures
        ring_items(rb) == Seq::<u32>::empty(),
        ring_capacity(rb) == capacity,
{
    SampleRing { inner: HeapRb::<u32>::new(capacity) }
}

/// `ringbuf::traits::Producer::try_push` on a buffer that has not been split:
/// where there is room, the sample is appended behind the others; where the
/// buffer is full, nothing changes and the sample comes back in `Err`. The
/// call does not panic.
#[verifier::external_body]
fn ring_try_push(rb: &mut SampleRing, sample: u32) -> (r: Result<(), u32>)
    ensures
        ring_capacity(*final(rb)) == ring_capacity(*old(rb)),
        match r {
            Ok(_) => ring_items(*old(rb)).len() < ring_capacity(*old(rb)) && ring_items(*final(rb))
                == ring_items(*old(rb)).push(sample),
            Err(back) => ring_items(*old(rb)).len() >= ring_capacity(*old(rb)) && back == sample
                && ring_items(*final(rb)) == ring_items(*old(rb)),
        },
    no_unwind
{
    rb.inner.try_push(sample)
}

/// `ringbuf::traits::Consumer::try_pop` on a buffer that has not been split:
/// the oldest sample leaves the buffer and is returned; an empty buffer stays
/// empty and gives `None`. The call does not panic.
#[verifier::external_body]
fn ring_try_pop(rb: &mut SampleRing) -> (r: Option<u32>)
    ensures
        ring_capacity(*final(rb)) == ring_capacity(*old(rb)),
        match r {
            Some(sample) => ring_items(*old(rb)).len() > 0 && sample == ring_items(*old(rb))[0]
                && ring_items(*final(rb)) == ring_items(*old(rb)).drop_first(),
            None => ring_items(*old(rb)).len() == 0 && ring_items(*final(rb)) == ring_items(*old(rb)),
        },
    no_unwind
{
    rb.inner.try_pop()
}

/// `ringbuf::traits::Observer::occupied_len` on a buffer that has not been
/// split: the number of samples in it.
#[verifier::external_body]
fn ring_len(rb: &SampleRing) -> (r: usize)
    ensures
        r == ring_items(*rb).len(),
{
    ringbuf::traits::Observer::occupied_len(&rb.inner)
}

/// `ringbuf::traits::Split::split`: the producer and the consumer of the
/// buffer. Each starts from the read and the write index of the buffer as it
/// is: the consumer has seen all the samples in it, the producer all the room
/// that they leave.
#[verifier::external_body]
fn ring_split(rb: SampleRing) -> (ends: (CaptureEnd, PlaybackEnd))
    requires
        ring_items(rb).len() <= ring_capacity(rb),
    ensures
        seen_room(ends.0) + ring_items(rb).len() == ring_capacity(rb),
        seen_items(ends.1) == ring_items(rb),
{
    let (producer, consumer) = rb.inner.split();
    (CaptureEnd { inner: producer }, PlaybackEnd { inner: consumer })
}

/// `ringbuf::traits::Producer::try_push` on the producer of a split buffer.
/// While the producer has seen room, the sample is taken and that room is one
/// less. Only when it has seen none does it fetch the read index of the
/// consumer, which may run at the same time: the sample is then taken if the
/// consumer has made room, and else comes back in `Err`, with no room seen.
#[verifier::external_body]
fn producer_try_push(end: &mut CaptureEnd, sample: u32) -> (r: Result<(), u32>)
    ensures
        match r {
            Ok(_) => seen_room(*old(end)) > 0 ==> seen_room(*final(end)) == seen_room(*old(end)) - 1,
            Err(back) => back == sample && seen_room(*old(end)) == 0 && seen_room(*final(end)) == 0,
        },
{
    end.inner.try_push(sample)
}

/// `ringbuf::traits::Consumer::try_pop` on the consumer of a split buffer.
/// While the consumer has seen samples, the oldest of them is returned and
/// the others stay seen. Only when it has seen none does it fetch the write
/// index of the producer, which may run at the same time: the oldest sample
/// that the producer has added is then returned, or `None` if it has added
/// none, with no sample seen.
#[verifier::external_body]
fn consumer_try_pop(end: &mut PlaybackEnd) -> (r: Option<u32>)
    ensures
        match r {
            Some(sample) => seen_items(*old(end)).len() > 0 ==> sample == seen_items(*old(end))[0]
                && seen_items(*final(end)) == seen_items(*old(end)).drop_first(),
            None => seen_items(*old(end)).len() == 0 && seen_items(*final(end)).len() == 0,
        },
{
    end.inner.try_pop()
}

/// What playback does with one slot of an output buffer.
#[derive(Debug, Clone, Copy, PartialEq, Eq)]
pub enum Playback {
    /// Run the sample through the equalizer and write the result.
    Process(u32),
    /// Write the sample as it is.
    Bypass(u32),
    /// Write silence: the queue was empty.
    Silence,
}

/// What playback does with a slot for which `popped` came out of the queue.
pub open spec fn slot_of(popped: Option<u32>, process: bool) -> Playback {
    match popped {
        Some(sample) => if process {
            Playback::Process(sample)
        } else {
            Playback::Bypass(sample)
        },
        None => Playback::Silence,
    }
}

/// What playback does with a slot for which `popped` came out of the queue:
/// silence where nothing came, else the sample, through the equalizer if
/// `process` is set and as it is if not.
pub fn slot_action(popped: Option<u32>, process: bool) -> (r: Playback)
    ensures
        r == slot_of(popped, process),
{
    match popped {
        Some(sample) => if process {
            Playback::Process(sample)
        } else {
            Playback::Bypass(sample)
        },
        None => Playback::Silence,
    }
}

/// `n` samples of silence.
pub open spec fn silence(n: nat) -> Seq<u32> {
    Seq::new(n, |i: int| 0u32)
}

/// The number of frames that `latency_ms` milliseconds hold at `sample_rate`
/// frames per second, rounded down.
pub open spec fn latency_frames(sample_rate: u32, latency_ms: u32) -> nat {
    ((sample_rate as nat) * (latency_ms as nat)) / 1000
}

/// The room of the queue for a latency of `frames` frames: two channels, and
/// twice the latency.
pub open spec fn ring_size(frames: nat) -> nat {
    frames * 2 * 2
}

/// How many of `offered` samples a queue of `len` samples with room for
/// `capacity` takes.
pub open spec fn accepted(len: nat, capacity: nat, offered: nat) -> nat {
    if len + offered <= capacity {
        offered
    } else if len <= capacity {
        (capacity - len) as nat
    } else {
        0
    }
}

/// The queue after capture has offered it `data`: the samples that found room
/// are behind the others, in their order; the rest is dropped.
pub open spec fn after_capture(queue: Seq<u32>, capacity: nat, data: Seq<u32>) -> Seq<u32> {
    queue + data.take(accepted(queue.len(), capacity, data.len()) as int)
}

/// What playback does with `slots` slots on the queue `queue`: the samples of
/// the queue from the oldest on, and silence once it is empty.
pub open spec fn played(queue: Seq<u32>, slots: nat, process: bool) -> Seq<Playback> {
    Seq::new(
        slots,
        |i: int|
            if i < queue.len() {
                slot_of(Some(queue[i]), process)
            } else {
                Playback::Silence
            },
    )
}

/// The queue after playback has filled `slots` slots from it.
pub open spec fn after_playback(queue: Seq<u32>, slots: nat) -> Seq<u32> {
    if slots <= queue.len() {
        queue.skip(slots as int)
    } else {
        Seq::empty()
    }
}

/// The queue of samples between capture and playback, before it is split.
pub struct LatencyBuffer {
    ring: SampleRing,
}

impl LatencyBuffer {
    #[verifier::type_invariant]
    spec fn within_capacity(&self) -> bool {
        ring_items(self.ring).len() <= ring_capacity(self.ring)
    }

    /// The samples in the queue, the oldest first.
    pub closed spec fn queued(&self) -> Seq<u32> {
        ring_items(self.ring)
    }

    /// The number of samples that the queue has room for.
    pub closed spec fn capacity(&self) -> nat {
        ring_capacity(self.ring)
    }

    /// The queue for a latency of `latency_ms` milliseconds at `sample_rate`
    /// frames per second, holding that latency of silence.
    ///
    /// `None` where the latency is less than one frame, and where the queue
    /// would be too large to allocate.
    pub fn new(sample_rate: u32, latency_ms: u32) -> (r: Option<LatencyBuffer>)
        ensures
            match r {
                Some(buffer) => {
                    &&& 0 < latency_frames(sample_rate, latency_ms)
                    &&& buffer.capacity() == ring_size(latency_frames(sample_rate, latency_ms))
                    &&& buffer.queued() == silence(latency_frames(sample_rate, latency_ms))
                },
                None => {
                    ||| latency_frames(sample_rate, latency_ms) == 0
                    ||| ring_size(latency_frames(sample_rate, latency_ms)) > usize::MAX / 8
                },
            },
    {
        assert((sample_rate as u64) * (latency_ms as u64) <= 0xffff_ffff * 0xffff_ffff)
            by (nonlinear_arith)
            requires
                sample_rate <= 0xffff_ffff,
                latency_ms <= 0xffff_ffff,
        ;
        let product: u64 = (sample_rate as u64) * (latency_ms as u64);
        let frames: u64 = product / 1000;
        let size: u64 = frames * 2 * 2;
        if frames == 0 || size > (usize::MAX / 8) as u64 {
            return None;
        }
        let mut buffer = LatencyBuffer { ring: ring_new(size as usize) };
        let mut i: u64 = 0;
        while i < frames
            invariant
                i <= frames,
                frames * 4 == size,
                buffer.capacity() == size,
                buffer.queued() == silence(i as nat),
            decreases frames - i,
        {
            let _ = ring_try_push(&mut buffer.ring, 0);
            assert(buffer.queued() =~= silence((i + 1) as nat));
            i += 1;
        }
        Some(buffer)
    }

    /// The number of samples in the queue.
    pub fn len(&self) -> (r: usize)
        ensures
            r == self.queued().len(),
            self.queued().len() <= self.capacity(),
    {
        proof {
            use_type_invariant(self);
        }
        ring_len(&self.ring)
    }

    /// Appends one sample, if there is room. Tells whether it was appended; a
    /// full queue stays as it is.
    pub fn push(&mut self, sample: u32) -> (r: bool)
        ensures
            final(self).capacity() == old(self).capacity(),
            r == (old(self).queued().len() < old(self).capacity()),
            r ==> final(self).queued() == old(self).queued().push(sample),
            !r ==> final(self).queued() == old(self).queued(),
    {
        proof {
            use_type_invariant(&*self);
        }
        match ring_try_push(&mut self.ring, sample) {
            Ok(_) => true,
            Err(_) => false,
        }
    }

    /// Takes the oldest sample out, if there is one. An empty queue gives
    /// `None` and stays empty.
    pub fn pop(&mut self) -> (r: Option<u32>)
        ensures
            final(self).capacity() == old(self).capacity(),
            r is Some == (old(self).queued().len() > 0),
            r matches Some(sample) ==> sample == old(self).queued()[0] && final(self).queued() == old(
                self,
            ).queued().drop_first(),
            r is None ==> final(self).queued() == old(self).queued(),
    {
        proof {
            use_type_invariant(&*self);
        }
        ring_try_pop(&mut self.ring)
    }

    /// The capture path: offers each sample of `data` to the queue, in order,
    /// and drops those that find no room. Returns how many were taken.
    pub fn capture(&mut self, data: &[u32]) -> (taken: usize)
        ensures
            final(self).capacity() == old(self).capacity(),
            taken == accepted(old(self).queued().len(), old(self).capacity(), data@.len()),
            final(self).queued() == after_capture(old(self).queued(), old(self).capacity(), data@),
    {
        proof {
            use_type_invariant(&*self);
        }
        let mut taken: usize = 0;
        let mut i: usize = 0;
        while i < data.len()
            invariant
                i <= data.len(),
                taken <= i,
                self.capacity() == old(self).capacity(),
                old(self).queued().len() <= old(self).capacity(),
                taken == accepted(old(self).queued().len(), old(self).capacity(), i as nat),
                self.queued() == old(self).queued() + data@.take(taken as int),
            decreases data.len() - i,
        {
            match ring_try_push(&mut self.ring, data[i]) {
                Ok(_) => {
                    assert(taken == i);
                    assert(self.queued() =~= old(self).queued() + data@.take(taken + 1));
                    taken += 1;
                },
                Err(_) => {},
            }
            i += 1;
        }
        taken
    }

    /// One step of the playback path: takes the oldest sample out of the
    /// queue and says what to write into one slot: the sample, by way of the
    /// equalizer if `process` is set, or silence where the queue is empty.
    pub fn next_slot(&mut self, process: bool) -> (slot: Playback)
        ensures
            final(self).capacity() == old(self).capacity(),
            slot == played(old(self).queued(), 1, process)[0],
            final(self).queued() == after_playback(old(self).queued(), 1),
    {
        proof {
            use_type_invariant(&*self);
        }
        let popped = ring_try_pop(&mut self.ring);
        assert(self.queued() =~= after_playback(old(self).queued(), 1));
        slot_action(popped, process)
    }

    /// The playback path: takes one sample out of the queue for each of
    /// `slots` slots, and says for each slot what to write: the sample, by way
    /// of the equalizer if `process` is set, or silence where the queue had run
    /// empty.
    pub fn playback(&mut self, slots: usize, process: bool) -> (out: Vec<Playback>)
        ensures
            final(self).capacity() == old(self).capacity(),
            out@ == played(old(self).queued(), slots as nat, process),
            final(self).queued() == after_playback(old(self).queued(), slots as nat),
    {
        proof {
            use_type_invariant(&*self);
        }
        let mut out: Vec<Playback> = Vec::new();
        let mut i: usize = 0;
        while i < slots
            invariant
                i <= slots,
                self.capacity() == old(self).capacity(),
                old(self).queued().len() <= old(self).capacity(),
                out@ == played(old(self).queued(), i as nat, process),
                self.queued() == after_playback(old(self).queued(), i as nat),
            decreases slots - i,
        {
            let popped = ring_try_pop(&mut self.ring);
            out.push(slot_action(popped, process));
            i += 1;
            assert(out@ =~= played(old(self).queued(), i as nat, process));
            assert(self.queued() =~= after_playback(old(self).queued(), i as nat));
        }
        out
    }

    /// Splits the queue into its two ends, for the capture and the playback
    /// callback. The playback end has seen every sample of the queue, in
    /// order, and the capture end all the room that they leave.
    pub fn split(self) -> (ends: (CaptureEnd, PlaybackEnd))
        ensures
            ends.0.room() + self.queued().len() == self.capacity(),
            ends.1.seen() == self.queued(),
    {
        proof {
            use_type_invariant(&self);
        }
        ring_split(self.ring)
    }
}

impl CaptureEnd {
    /// The room that this end has seen in the queue and not filled yet. The
    /// queue has that much room at least: the playback end only adds to it.
    pub closed spec fn room(&self) -> nat {
        seen_room(*self)
    }

    /// One step of the capture path: offers one sample to the queue and tells
    /// whether it was taken; a sample that finds no room is dropped.
    ///
    /// While this end has seen room, the sample is taken for certain. Whether
    /// it is taken otherwise depends on the playback end, which may run at the
    /// same time; where it is not, this end has seen no room.
    pub fn offer(&mut self, sample: u32) -> (taken: bool)
        ensures
            old(self).room() > 0 ==> taken && final(self).room() == old(self).room() - 1,
            !taken ==> old(self).room() == 0 && final(self).room() == 0,
    {
        match producer_try_push(self, sample) {
            Ok(_) => true,
            Err(_) => false,
        }
    }

    /// The capture path: offers each sample of `data` to the queue, in order,
    /// and drops those that find no room. Returns how many were taken.
    ///
    /// As many samples as there is room that this end has seen are taken for
    /// certain, from the first on. Whether a sample beyond them is taken
    /// depends on the playback end, which may run at the same time.
    pub fn capture(&mut self, data: &[u32]) -> (taken: usize)
        ensures
            taken <= data@.len(),
            data@.len() <= old(self).room() ==> taken == data@.len() && final(self).room() == old(
                self,
            ).room() - data@.len(),
            old(self).room() <= data@.len() ==> taken >= old(self).room(),
    {
        let mut taken: usize = 0;
        let mut i: usize = 0;
        while i < data.len()
            invariant
                i <= data.len(),
                taken <= i,
                i <= old(self).room() ==> taken == i && self.room() == old(self).room() - i,
                old(self).room() <= i ==> taken >= old(self).room(),
            decreases data.len() - i,
        {
            if self.offer(data[i]) {
                taken += 1;
            }
            i += 1;
        }
        taken
    }
}

/// Whether `action` is what playback does with a slot for which something, or
/// nothing, came out of the queue.
pub open spec fn is_slot_action(action: Playback, process: bool) -> bool {
    exists|popped: Option<u32>| action == slot_of(popped, process)
}

impl PlaybackEnd {
    /// The samples that this end has seen in the queue and not taken yet, the
    /// oldest first. They are the oldest samples of the queue: the capture end
    /// only adds behind them.
    pub closed spec fn seen(&self) -> Seq<u32> {
        seen_items(*self)
    }

    /// One step of the playback path: takes one sample out of the queue and
    /// says what to write into one slot: the sample, by way of the equalizer
    /// if `process` is set, or silence where the queue was empty.
    ///
    /// While this end has seen samples, the oldest of them is taken for
    /// certain. What is taken otherwise depends on the capture end, which may
    /// run at the same time; where the slot is silence, this end has seen no
    /// sample.
    pub fn next_slot(&mut self, process: bool) -> (slot: Playback)
        ensures
            is_slot_action(slot, process),
            old(self).seen().len() > 0 ==> slot == slot_of(Some(old(self).seen()[0]), process)
                && final(self).seen() == old(self).seen().drop_first(),
            slot is Silence ==> old(self).seen().len() == 0 && final(self).seen().len() == 0,
    {
        let popped = consumer_try_pop(self);
        slot_action(popped, process)
    }

    /// The playback path: takes one sample out of the queue for each of
    /// `slots` slots, and says for each slot what to write: the sample, by way
    /// of the equalizer if `process` is set, or silence where the queue was
    /// empty.
    ///
    /// The samples that this end has seen come first, in their order. What
    /// comes in the slots behind them depends on the capture end, which may
    /// run at the same time.
    pub fn playback(&mut self, slots: usize, process: bool) -> (out: Vec<Playback>)
        ensures
            out@.len() == slots,
            forall|i: int| 0 <= i < slots ==> is_slot_action(#[trigger] out@[i], process),
            forall|i: int|
                0 <= i < slots && i < old(self).seen().len() ==> #[trigger] out@[i] == slot_of(
                    Some(old(self).seen()[i]),
                    process,
                ),
            slots <= old(self).seen().len() ==> final(self).seen() == old(self).seen().skip(
                slots as int,
            ),
    {
        let mut out: Vec<Playback> = Vec::new();
        let mut i: usize = 0;
        assert(self.seen().skip(0) =~= self.seen());
        while i < slots
            invariant
                i <= slots,
                out@.len() == i,
                forall|k: int| 0 <= k < i ==> is_slot_action(#[trigger] out@[k], process),
                forall|k: int|
                    0 <= k < i && k < old(self).seen().len() ==> #[trigger] out@[k] == slot_of(
                        Some(old(self).seen()[k]),
                        process,
                    ),
                i <= old(self).seen().len() ==> self.seen() == old(self).seen().skip(i as int),
            decreases slots - i,
        {
            let ghost before = self.seen();
            let slot = self.next_slot(process);
            proof {
                if i < old(self).seen().len() {
                    assert(before[0] == old(self).seen()[i as int]);
                    assert(before.drop_first() =~= old(self).seen().skip(i + 1));
                }
            }
            out.push(slot);
            i += 1;
        }
        out
    }
}

/// The latency of silence comes first: when a queue that holds `frames`
/// samples of silence is offered `data` and then played, the first `frames`
/// slots are silence, the sample number `i` of `data` that found room is in
/// the slot `frames + i`, and the slots behind the last sample are silence
/// again.
pub proof fn lemma_silence_is_played_first(
    frames: nat,
    capacity: nat,
    data: Seq<u32>,
    slots: nat,
    process: bool,
)
    requires
        frames <= capacity,
    ensures
        ({
            let taken = accepted(frames, capacity, data.len());
            let out = played(after_capture(silence(frames), capacity, data), slots, process);
            &&& out.len() == slots
            &&& forall|i: int| 0 <= i < slots && i < frames ==> out[i] == slot_of(Some(0u32), process)
            &&& forall|i: int|
                0 <= i < taken && frames + i < slots ==> out[frames + i] == slot_of(
                    Some(data[i]),
                    process,
                )
            &&& forall|i: int| frames + taken <= i < slots ==> out[i] == Playback::Silence
        }),
{
}

/// A full queue takes nothing: whatever capture offers is dropped, and the
/// queue stays as it is.
pub proof fn lemma_full_queue_drops(queue: Seq<u32>, capacity: nat, data: Seq<u32>)
    requires
        queue.len() >= capacity,
    ensures
        accepted(queue.len(), capacity, data.len()) == 0,
        after_capture(queue, capacity, data) == queue,
{
    assert(queue + data.take(0) =~= queue);
}

/// An empty queue plays silence: every slot is silence, and the queue stays
/// empty.
pub proof fn lemma_empty_queue_is_silent(slots: nat, process: bool)
    ensures
        played(Seq::empty(), slots, process) == Seq::new(slots, |i: int| Playback::Silence),
        after_playback(Seq::empty(), slots) == Seq::<u32>::empty(),
{
    assert(played(Seq::empty(), slots, process) =~= Seq::new(slots, |i: int| Playback::Silence));
    assert(after_playback(Seq::empty(), slots) =~= Seq::<u32>::empty());
}

} // verus!
