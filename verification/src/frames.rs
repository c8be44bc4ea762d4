//! Decoded video frames and the queue in which they wait to be shown.

use std::collections::VecDeque;
use vstd::prelude::*;

verus! {

/// With so many decoded frames waiting to be shown, the decoder waits for room.
pub const WORKER_QUEUE_CAP: usize = 16;

/// The pixels of one decoded frame, in the layout that its upload needs.
pub enum VideoFramePayload {
    /// Four bytes per pixel: red, green, blue, alpha, in sRGB.
    Rgba8Srgb { width: u32, height: u32, pixels: Vec<u8> },
    /// Eight bytes per pixel: four little-endian 16-bit channels.
    Rgba16Unorm { width: u32, height: u32, bytes: Vec<u8> },
    /// A full-size luma plane and a half-size plane of interleaved chroma.
    Nv12 { width: u32, height: u32, y_plane: Vec<u8>, uv_plane: Vec<u8> },
}

impl VideoFramePayload {
    pub open spec fn spec_size(self) -> (u32, u32) {
        match self {
            VideoFramePayload::Rgba8Srgb { width, height, .. } => (width, height),
            VideoFramePayload::Rgba16Unorm { width, height, .. } => (width, height),
            VideoFramePayload::Nv12 { width, height, .. } => (width, height),
        }
    }

    /// The size is one for which the length of a row in bytes, and the height
    /// rounded up to even, are `u32` values.
    pub open spec fn fits_texture(self) -> bool {
        &&& self.spec_size().0 * 8 <= u32::MAX
        &&& self.spec_size().1 < u32::MAX
    }

    /// Width and height in pixels.
    pub fn size(&self) -> (r: (u32, u32))
        ensures
            r == self.spec_size(),
    {
        match self {
            VideoFramePayload::Rgba8Srgb { width, height, .. } => (*width, *height),
            VideoFramePayload::Rgba16Unorm { width, height, .. } => (*width, *height),
            VideoFramePayload::Nv12 { width, height, .. } => (*width, *height),
        }
    }
}

/// A decoded frame with its presentation time in microseconds.
pub struct VideoFrame {
    pub pts_us: i64,
    pub payload: VideoFramePayload,
}

/// How many frames at the front of `q` have a time below `bound`, up to the
/// first that has not.
pub open spec fn leading_below(q: Seq<VideoFrame>, bound: int) -> nat
    decreases q.len(),
{
    if q.len() == 0 || q[0].pts_us >= bound {
        0
    } else {
        1 + leading_below(q.skip(1), bound)
    }
}

/// The last frame of `q` whose time is at least `min_pts`.
pub open spec fn last_from(q: Seq<VideoFrame>, min_pts: int) -> Option<VideoFrame>
    decreases q.len(),
{
    if q.len() == 0 {
        None
    } else if q.last().pts_us >= min_pts {
        Some(q.last())
    } else {
        last_from(q.drop_last(), min_pts)
    }
}

/// `leading_below` counts frames that are all below the bound, and stops only
/// at the end or at a frame that is not.
pub proof fn leading_below_is_the_longest(q: Seq<VideoFrame>, bound: int)
    ensures
        leading_below(q, bound) <= q.len(),
        forall|i: int|
            0 <= i < leading_below(q, bound) ==> (#[trigger] q[i]).pts_us < bound,
        leading_below(q, bound) < q.len() ==> q[leading_below(q, bound) as int].pts_us >= bound,
    decreases q.len(),
{
    if q.len() > 0 && q[0].pts_us < bound {
        leading_below_is_the_longest(q.skip(1), bound);
        let n = leading_below(q.skip(1), bound);
        assert forall|i: int| 0 <= i < 1 + n implies (#[trigger] q[i]).pts_us < bound by {
            if i > 0 {
                assert(q.skip(1)[i - 1] == q[i]);
            }
        }
        if 1 + n < q.len() {
            assert(q.skip(1)[n as int] == q[1 + n as int]);
        }
    }
}

/// A count with the two properties of `leading_below` is `leading_below`.
pub proof fn leading_below_unique(q: Seq<VideoFrame>, bound: int, n: nat)
    requires
        n <= q.len(),
        forall|i: int| 0 <= i < n ==> (#[trigger] q[i]).pts_us < bound,
        n < q.len() ==> q[n as int].pts_us >= bound,
    ensures
        leading_below(q, bound) == n,
{
    leading_below_is_the_longest(q, bound);
    let m = leading_below(q, bound);
    if m < n {
        assert(q[m as int].pts_us < bound);
    } else if n < m {
        assert(q[n as int].pts_us < bound);
    }
}

/// Takes off the front every frame below `bound`, and gives back the last one
/// taken.
pub fn pop_below(queue: &mut VecDeque<VideoFrame>, bound: i64) -> (last: Option<VideoFrame>)
    ensures
        final(queue)@ == old(queue)@.skip(leading_below(old(queue)@, bound as int) as int),
        last == (if leading_below(old(queue)@, bound as int) == 0 {
            None
        } else {
            Some(old(queue)@[leading_below(old(queue)@, bound as int) - 1])
        }),
{
    let mut last: Option<VideoFrame> = None;
    let ghost q = queue@;
    let ghost mut n: nat = 0;
    proof {
        assert(q.skip(0) =~= q);
    }
    while queue.len() > 0 && queue[0].pts_us < bound
        invariant
            n <= q.len(),
            queue@ == q.skip(n as int),
            forall|i: int| 0 <= i < n ==> (#[trigger] q[i]).pts_us < bound,
            last == (if n == 0 {
                None
            } else {
                Some(q[n - 1])
            }),
        decreases queue@.len(),
    {
        assert(queue@[0] == q[n as int]);
        last = queue.pop_front();
        proof {
            n = n + 1;
            assert(queue@ =~= q.skip(n as int));
        }
    }
    proof {
        if n < q.len() {
            assert(queue@[0] == q[n as int]);
        }
        leading_below_unique(q, bound as int, n);
    }
    last
}

/// Takes `count` frames off the front.
pub fn drop_front(queue: &mut VecDeque<VideoFrame>, count: usize)
    requires
        count <= old(queue)@.len(),
    ensures
        final(queue)@ == old(queue)@.skip(count as int),
{
    let ghost q = queue@;
    let mut n: usize = 0;
    assert(q.skip(0) =~= q);
    while n < count
        invariant
            n <= count <= q.len(),
            queue@ == q.skip(n as int),
        decreases count - n,
    {
        let _ = queue.pop_front();
        n = n + 1;
        assert(queue@ =~= q.skip(n as int));
    }
}

/// How many frames at the front are below `bound`.
pub fn count_below(queue: &VecDeque<VideoFrame>, bound: i64) -> (n: usize)
    ensures
        n == leading_below(queue@, bound as int),
{
    let mut n: usize = 0;
    while n < queue.len() && queue[n].pts_us < bound
        invariant
            n <= queue@.len(),
            forall|i: int| 0 <= i < n ==> (#[trigger] queue@[i]).pts_us < bound,
        decreases queue@.len() - n,
    {
        n = n + 1;
    }
    proof {
        leading_below_unique(queue@, bound as int, n as nat);
    }
    n
}

/// The least time that is neither before `min_pts` nor at or before `last_due`.
pub open spec fn first_kept(min_pts: i64, last_due: i64) -> int {
    if min_pts > last_due {
        min_pts as int
    } else {
        last_due + 1
    }
}

/// Takes off the front every frame that is before `min_pts` or at or before
/// `last_due`, and gives back the last one taken that is not before `min_pts`.
pub fn pop_due(queue: &mut VecDeque<VideoFrame>, min_pts: i64, last_due: i64) -> (best: Option<
    VideoFrame,
>)
    ensures
        final(queue)@ == old(queue)@.skip(
            leading_below(old(queue)@, first_kept(min_pts, last_due)) as int,
        ),
        best == last_from(
            old(queue)@.take(leading_below(old(queue)@, first_kept(min_pts, last_due)) as int),
            min_pts as int,
        ),
{
    let mut best: Option<VideoFrame> = None;
    let ghost bound = first_kept(min_pts, last_due);
    let ghost q = queue@;
    let ghost mut n: nat = 0;
    proof {
        assert(q.skip(0) =~= q);
    }
    while queue.len() > 0 && (queue[0].pts_us < min_pts || queue[0].pts_us <= last_due)
        invariant
            bound == first_kept(min_pts, last_due),
            n <= q.len(),
            queue@ == q.skip(n as int),
            forall|i: int| 0 <= i < n ==> (#[trigger] q[i]).pts_us < bound,
            best == last_from(q.take(n as int), min_pts as int),
        decreases queue@.len(),
    {
        assert(queue@[0] == q[n as int]);
        let front = queue.pop_front();
        proof {
            assert(q.take(n as int + 1).drop_last() =~= q.take(n as int));
            n = n + 1;
            assert(queue@ =~= q.skip(n as int));
        }
        if let Some(frame) = front {
            if frame.pts_us >= min_pts {
                best = Some(frame);
            }
        }
    }
    proof {
        if n < q.len() {
            assert(queue@[0] == q[n as int]);
        }
        leading_below_unique(q, bound, n);
    }
    best
}

/// What `last_from` finds is a frame of the queue at or past the bound.
pub proof fn last_from_is_in_range(q: Seq<VideoFrame>, min_pts: int)
    ensures
        match last_from(q, min_pts) {
            Some(f) => q.contains(f) && f.pts_us >= min_pts,
            None => forall|i: int| 0 <= i < q.len() ==> (#[trigger] q[i]).pts_us < min_pts,
        },
    decreases q.len(),
{
    if q.len() > 0 {
        if q.last().pts_us >= min_pts {
            assert(q.contains(q[q.len() - 1]));
        } else {
            let rest = q.drop_last();
            last_from_is_in_range(rest, min_pts);
            match last_from(rest, min_pts) {
                Some(f) => {
                    let i = choose|i: int| 0 <= i < rest.len() && rest[i] == f;
                    assert(q[i] == f);
                },
                None => {
                    assert forall|i: int| 0 <= i < q.len() implies (#[trigger] q[i]).pts_us
                        < min_pts by {
                        if i < rest.len() {
                            assert(rest[i] == q[i]);
                        }
                    }
                },
            }
        }
    }
}

/// The last frame at or past the bound is the one that `last_from` finds.
pub proof fn last_from_is_the_last(q: Seq<VideoFrame>, min_pts: int, i: int)
    requires
        0 <= i < q.len(),
        q[i].pts_us >= min_pts,
        forall|j: int| i < j < q.len() ==> (#[trigger] q[j]).pts_us < min_pts,
    ensures
        last_from(q, min_pts) == Some(q[i]),
    decreases q.len(),
{
    if i < q.len() - 1 {
        let rest = q.drop_last();
        assert(q[q.len() - 1].pts_us < min_pts);
        assert forall|j: int| i < j < rest.len() implies (#[trigger] rest[j]).pts_us < min_pts by {
            assert(rest[j] == q[j]);
        }
        assert(rest[i] == q[i]);
        last_from_is_the_last(rest, min_pts, i);
    }
}

/// The size of a frame is that of its payload, whatever its layout.
pub proof fn a_frame_has_the_size_of_its_payload(payload: VideoFramePayload)
    ensures
        match payload {
            VideoFramePayload::Rgba8Srgb { width, height, .. } => payload.spec_size() == (
                width,
                height,
            ),
            VideoFramePayload::Rgba16Unorm { width, height, .. } => payload.spec_size() == (
                width,
                height,
            ),
            VideoFramePayload::Nv12 { width, height, .. } => payload.spec_size() == (
                width,
                height,
            ),
        },
{
}

/// What is kept is what is neither before the one time nor at or before the other.
pub proof fn what_is_kept_is_neither(min_pts: i64, last_due: i64, pts_us: int)
    ensures
        pts_us >= first_kept(min_pts, last_due) <==> pts_us >= min_pts && pts_us > last_due,
{
}

/// A frame can be uploaded where eight bytes per pixel make a row that a `u32` can
/// measure, and where one more row can be counted.
pub proof fn most_frames_can_be_uploaded(payload: VideoFramePayload)
    ensures
        payload.fits_texture() <==> payload.spec_size().0 * 8 <= u32::MAX && payload.spec_size().1
            < u32::MAX,
        WORKER_QUEUE_CAP == 16,
{
}

} // verus!
