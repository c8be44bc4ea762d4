//! Decoded sound on its way to the output device: samples are interleaved, wait
//! in a ring buffer, and leave it as stereo frames. A sample is the bits of an
//! `f32`.

use crate::shared::{Shared, SharedModel};
use ringbuf::traits::{Consumer, Producer};
use vstd::prelude::*;
use vstd::slice::slice_subrange;

verus! {

/// Sample rate assumed where the output device names none.
pub const DEFAULT_RATE: u32 = 48_000;

/// Number of channels assumed where the output device names none.
pub const DEFAULT_CHANNELS: usize = 2;

/// How long samples are offered to a full ring before the rest is dropped.
pub const PUSH_DEADLINE_MS: u128 = 4;

/// The bits of the `f32` value 0.0.
pub const SILENCE: u32 = 0;

/// A `ringbuf::HeapRb` of samples, of which nothing is assumed but what the
/// functions that reach into it state.
#[verifier::external_body]
pub struct SampleRing {
    ring: ringbuf::HeapRb<u32>,
}

/// What is in a ring buffer, the oldest first.
pub uninterp spec fn ring_items(ring: SampleRing) -> Seq<u32>;

/// How much a ring buffer can hold.
pub uninterp spec fn ring_capacity(ring: SampleRing) -> nat;

/// `ringbuf::HeapRb::new`: an empty ring buffer of the given capacity. It
/// panics if the capacity is zero or too large for an allocation.
#[verifier::external_body]
fn new_ring(capacity: usize) -> (ring: SampleRing)
    requires
        0 < capacity,
        capacity * 4 <= isize::MAX,
    ensures
        ring_items(ring) == Seq::<u32>::empty(),
        ring_capacity(ring) == capacity,
{
    SampleRing { ring: ringbuf::HeapRb::<u32>::new(capacity) }
}

/// `ringbuf::traits::Producer::push_slice`: appends items in their order as
/// far as there is room, and returns how many it appended.
#[verifier::external_body]
fn push_slice(ring: &mut SampleRing, items: &[u32]) -> (count: usize)
    requires
        ring_items(*old(ring)).len() <= ring_capacity(*old(ring)),
    ensures
        count == (if items@.len() <= ring_capacity(*old(ring)) - ring_items(*old(ring)).len() {
            items@.len() as int
        } else {
            ring_capacity(*old(ring)) - ring_items(*old(ring)).len()
        }),
        ring_items(*final(ring)) == ring_items(*old(ring)) + items@.take(count as int),
        ring_capacity(*final(ring)) == ring_capacity(*old(ring)),
{
    ring.ring.push_slice(items)
}

/// `ringbuf::traits::Consumer::try_pop`: takes the oldest item, if there is
/// one.
#[verifier::external_body]
fn try_pop(ring: &mut SampleRing) -> (item: Option<u32>)
    ensures
        item == (if ring_items(*old(ring)).len() == 0 {
            None
        } else {
            Some(ring_items(*old(ring))[0])
        }),
        ring_items(*final(ring)) == (if ring_items(*old(ring)).len() == 0 {
            ring_items(*old(ring))
        } else {
            ring_items(*old(ring)).skip(1)
        }),
        ring_capacity(*final(ring)) == ring_capacity(*old(ring)),
{
    ring.ring.try_pop()
}

/// Sample `i` of a plane, silence past its end.
pub open spec fn sample_at(plane: Seq<u32>, i: int) -> u32 {
    if i < plane.len() {
        plane[i]
    } else {
        SILENCE
    }
}

/// The first `count` samples of two planes, by turns.
pub open spec fn interleaved(left: Seq<u32>, right: Seq<u32>, count: nat) -> Seq<u32> {
    Seq::new(
        2 * count,
        |i: int|
            if i % 2 == 0 {
                sample_at(left, i / 2)
            } else {
                sample_at(right, i / 2)
            },
    )
}

/// The samples of a stereo frame, left and right by turns; of a frame with one
/// plane, that plane on both sides. What a plane lacks is silence.
pub fn interleave(left: &[u32], right: Option<&[u32]>, count: usize) -> (r: Vec<u32>)
    requires
        2 * count <= usize::MAX,
    ensures
        r@ == interleaved(
            left@,
            match right {
                Some(plane) => plane@,
                None => left@,
            },
            count as nat,
        ),
{
    let right: &[u32] = match right {
        Some(plane) => plane,
        None => left,
    };
    let left_len: usize = left.len();
    let right_len: usize = right.len();
    let mut out: Vec<u32> = Vec::with_capacity(2 * count);
    let mut i: usize = 0;
    while i < count
        invariant
            i <= count,
            left_len == left@.len(),
            right_len == right@.len(),
            out@ == interleaved(left@, right@, i as nat),
        decreases count - i,
    {
        out.push(
            if i < left_len {
                left[i]
            } else {
                SILENCE
            },
        );
        out.push(
            if i < right_len {
                right[i]
            } else {
                SILENCE
            },
        );
        i = i + 1;
        assert(out@ =~= interleaved(left@, right@, i as nat));
    }
    out
}

/// The left and right sample of frame `i` of what is in the ring: silence on
/// the left where the ring has run out, and the left sample on the right.
pub open spec fn frame_of(items: Seq<u32>, i: int) -> (u32, u32) {
    let left = sample_at(items, 2 * i);
    (
        left,
        if 2 * i + 1 < items.len() {
            items[2 * i + 1]
        } else {
            left
        },
    )
}

/// How many stereo frames fill a buffer of `len` samples.
pub open spec fn frames_in(len: usize, channels: usize) -> nat {
    if channels == 0 {
        len as nat
    } else {
        (len / channels) as nat
    }
}

/// What is left after `frames` stereo frames have left the ring.
pub open spec fn after_frames(items: Seq<u32>, frames: nat) -> Seq<u32> {
    if 2 * frames <= items.len() {
        items.skip(2 * frames as int)
    } else {
        Seq::empty()
    }
}

/// Where the sample for a channel of the output comes from.
#[derive(Clone, Copy, PartialEq, Eq, Debug, Structural)]
pub enum ChannelSource {
    Left,
    Right,
    /// The mean of the two.
    Mean,
}

/// Where the sample for a channel of the output comes from.
pub fn channel_source(channel: usize) -> (r: ChannelSource)
    ensures
        r == (if channel == 0 {
            ChannelSource::Left
        } else if channel == 1 {
            ChannelSource::Right
        } else {
            ChannelSource::Mean
        }),
{
    if channel == 0 {
        ChannelSource::Left
    } else if channel == 1 {
        ChannelSource::Right
    } else {
        ChannelSource::Mean
    }
}

/// Samples that wait to be played.
pub struct AudioRing {
    ring: SampleRing,
}

impl AudioRing {
    /// The samples, the oldest first.
    pub closed spec fn items(self) -> Seq<u32> {
        ring_items(self.ring)
    }

    pub closed spec fn capacity(self) -> nat {
        ring_capacity(self.ring)
    }

    pub open spec fn wf(self) -> bool {
        self.items().len() <= self.capacity()
    }

    /// Room for four seconds of stereo at the given rate.
    pub fn new(rate: u32) -> (r: AudioRing)
        requires
            rate > 0,
            rate * 32 <= isize::MAX,
        ensures
            r.items() == Seq::<u32>::empty(),
            r.capacity() == rate * 8,
            r.wf(),
    {
        AudioRing { ring: new_ring(rate as usize * 2 * 4) }
    }

    /// Offers the samples from `offset` on, and returns the offset of the
    /// first that found no room.
    pub fn push_from(&mut self, samples: &Vec<u32>, offset: usize) -> (r: usize)
        requires
            old(self).wf(),
            offset <= samples@.len(),
        ensures
            offset <= r <= samples@.len(),
            r < samples@.len() ==> final(self).items().len() == final(self).capacity(),
            final(self).items() == old(self).items() + samples@.subrange(offset as int, r as int),
            final(self).capacity() == old(self).capacity(),
            final(self).wf(),
    {
        let len: usize = samples.len();
        let rest = slice_subrange(samples.as_slice(), offset, len);
        let count: usize = push_slice(&mut self.ring, rest);
        assert(rest@.take(count as int) =~= samples@.subrange(offset as int, offset + count));
        offset + count
    }

    /// Throws away what is waiting, if that was asked for, and takes out the
    /// frames for an output buffer of `len` samples, `channels` to a frame.
    pub fn output(&mut self, shared: &mut Shared, len: usize, channels: usize) -> (r: Vec<
        (u32, u32),
    >)
        requires
            old(self).wf(),
        ensures
            ({
                let items = if old(shared)@.audio_drain_flag {
                    Seq::empty()
                } else {
                    old(self).items()
                };
                &&& r@ == Seq::new(frames_in(len, channels), |i: int| frame_of(items, i))
                &&& final(self).items() == after_frames(items, frames_in(len, channels))
            }),
            final(shared)@ == (SharedModel { audio_drain_flag: false, ..old(shared)@ }),
            final(self).capacity() == old(self).capacity(),
            final(self).wf(),
    {
        if shared.audio_drain_flag {
            shared.audio_drain_flag = false;
            self.drain();
        }
        let frames: usize = if channels == 0 {
            len
        } else {
            len / channels
        };
        let ghost items = self.items();
        let ghost capacity = self.capacity();
        let mut out: Vec<(u32, u32)> = Vec::new();
        let mut i: usize = 0;
        proof {
            assert(items.skip(0) =~= items);
        }
        while i < frames
            invariant
                i <= frames,
                self.items() == after_frames(items, i as nat),
                self.capacity() == capacity,
                out@ == Seq::new(i as nat, |j: int| frame_of(items, j)),
            decreases frames - i,
        {
            let left: u32 = match try_pop(&mut self.ring) {
                Some(sample) => sample,
                None => SILENCE,
            };
            let right: u32 = match try_pop(&mut self.ring) {
                Some(sample) => sample,
                None => left,
            };
            assert(left == sample_at(items, 2 * i as int));
            out.push((left, right));
            i = i + 1;
            assert(self.items() =~= after_frames(items, i as nat));
            assert(out@ =~= Seq::new(i as nat, |j: int| frame_of(items, j)));
        }
        out
    }

    /// Throws away what is waiting.
    fn drain(&mut self)
        ensures
            final(self).items() == Seq::<u32>::empty(),
            final(self).capacity() == old(self).capacity(),
    {
        let ghost capacity = self.capacity();
        let mut more = true;
        while more
            invariant
                self.capacity() == capacity,
                !more ==> self.items().len() == 0,
            decreases self.items().len() + (if more {
                1int
            } else {
                0int
            }),
        {
            more = try_pop(&mut self.ring).is_some();
        }
        assert(self.items() =~= Seq::empty());
    }
}

/// Whether to go on offering samples, of which `offset` of `len` have found
/// room after `elapsed_ms`.
pub fn push_again(offset: usize, len: usize, elapsed_ms: u128) -> (r: bool)
    ensures
        r == (offset < len && elapsed_ms <= PUSH_DEADLINE_MS),
{
    offset < len && elapsed_ms <= PUSH_DEADLINE_MS
}

/// Sound for `advance_us` was played in `frames` frames: the clock goes on,
/// unless it stands still.
pub fn sound_played(shared: &mut Shared, frames: usize, advance_us: i64)
    ensures
        final(shared)@ == (if !old(shared)@.clock_frozen && frames > 0 {
            SharedModel {
                audio_clock_us: old(shared)@.audio_clock_us.wrapping_add(advance_us),
                ..old(shared)@
            }
        } else {
            old(shared)@
        }),
{
    if !shared.clock_frozen && frames > 0 {
        shared.audio_clock_us = shared.audio_clock_us.wrapping_add(advance_us);
    }
}

/// Samples that were pushed come out as the frames they were: what `interleave`
/// puts into an empty ring, `output` gives back.
pub proof fn frames_come_out_as_they_went_in(
    left: Seq<u32>,
    right: Seq<u32>,
    count: nat,
    i: int,
)
    requires
        0 <= i < count,
    ensures
        frame_of(interleaved(left, right, count), i) == (sample_at(left, i), sample_at(right, i)),
{
}

/// Taking frames in two portions takes the same frames as taking them at once.
pub proof fn frames_in_portions(items: Seq<u32>, first: nat, i: nat)
    ensures
        frame_of(after_frames(items, first), i as int) == frame_of(items, (first + i) as int),
        after_frames(after_frames(items, first), i) == after_frames(items, first + i),
{
    assert(after_frames(after_frames(items, first), i) =~= after_frames(items, first + i));
}

/// Interleaving puts the samples of the two planes by turns, left first, with
/// silence where a plane has run out.
pub proof fn samples_come_by_turns(left: Seq<u32>, right: Seq<u32>, count: nat, i: int)
    requires
        0 <= i < count,
    ensures
        interleaved(left, right, count).len() == 2 * count,
        i < left.len() ==> interleaved(left, right, count)[2 * i] == left[i],
        i >= left.len() ==> interleaved(left, right, count)[2 * i] == 0,
        i < right.len() ==> interleaved(left, right, count)[2 * i + 1] == right[i],
        i >= right.len() ==> interleaved(left, right, count)[2 * i + 1] == 0,
{
}

/// The frames that leave the ring are the samples in it two by two, the oldest
/// first; past its end there is silence, and a last sample without a partner is on
/// both sides.
pub proof fn frames_are_pairs_of_samples(items: Seq<u32>, i: int)
    requires
        0 <= i,
    ensures
        2 * i + 1 < items.len() ==> frame_of(items, i) == (items[2 * i], items[2 * i + 1]),
        2 * i + 1 == items.len() ==> frame_of(items, i) == (items[2 * i], items[2 * i]),
        2 * i >= items.len() ==> frame_of(items, i) == (0u32, 0u32),
{
}

/// An output buffer is filled with as many whole frames as it has room for, and each
/// takes two samples from the ring, as long as there are any; those behind them stay
/// in their order.
pub proof fn each_frame_takes_two_samples(items: Seq<u32>, len: usize, channels: usize)
    ensures
        channels > 0 ==> frames_in(len, channels) * channels <= len < (frames_in(len, channels) + 1)
            * channels,
        channels == 0 ==> frames_in(len, channels) == len,
        ({
            let frames = frames_in(len, channels);
            let left = after_frames(items, frames);
            &&& 2 * frames <= items.len() ==> left.len() == items.len() - 2 * frames && forall|j: int|
                0 <= j < left.len() ==> #[trigger] left[j] == items[2 * frames + j]
            &&& 2 * frames > items.len() ==> left.len() == 0
        }),
{
    if channels > 0 {
        let (l, c) = (len as int, channels as int);
        vstd::arithmetic::div_mod::lemma_fundamental_div_mod(l, c);
        vstd::arithmetic::div_mod::lemma_mod_bound(l, c);
        let q = l / c;
        assert(q * c == c * q && (q + 1) * c == c * q + c) by (nonlinear_arith);
    }
}

/// What is assumed of an output device that does not say, how long samples are
/// offered, and the sample for silence.
pub proof fn sound_without_a_word()
    ensures
        DEFAULT_RATE == 48_000,
        DEFAULT_CHANNELS == 2,
        PUSH_DEADLINE_MS == 4,
        SILENCE == 0,
{
}

} // verus!
