//! What holds of playback as a whole: across the side that shows frames, the
//! one that reads the file and the one that decodes.

use crate::demuxer::{seek_begun, Demuxer};
use crate::frames::{first_kept, last_from, last_from_is_in_range, last_from_is_the_last,
    leading_below, leading_below_is_the_longest, leading_below_unique, VideoFrame};
use crate::player::{div_toward_zero, fresh_player, Player, PlayerModel, Step, BACK_STEP_DEADLINE_MS,
    BACK_STEP_FACTOR, MIN_BACK_INTERVAL_US, MIN_FRAME_INTERVAL_US, OPEN_DEADLINE_MS,
    SEEK_HANDOFF_MS, TICK_TOLERANCE_US};
use crate::shared::{Command, SharedModel};
use crate::texture::{cache_after, upload_of, Upload};
use crate::worker::{flushed, frame_queued};
use vstd::prelude::*;

verus! {

/// The waiting frames are in the order of their times.
pub open spec fn ascending(q: Seq<VideoFrame>) -> bool {
    forall|i: int, j: int|
        0 <= i < j < q.len() ==> (#[trigger] q[i]).pts_us < (#[trigger] q[j]).pts_us
}

/// All waiting frames are after a time.
pub open spec fn all_after(q: Seq<VideoFrame>, pts_us: i64) -> bool {
    forall|i: int| 0 <= i < q.len() ==> (#[trigger] q[i]).pts_us > pts_us
}

impl PlayerModel {
    /// With the shared state brought along by the other side.
    pub open spec fn with_shared(self, shared: SharedModel) -> PlayerModel {
        PlayerModel { shared, ..self }
    }
}

/// A tick never picks a frame from before the target of the latest seek, and
/// only one that was waiting.
pub proof fn ticks_respect_the_target(p: PlayerModel)
    ensures
        p.tick_picks() matches Some(frame) ==> {
            &&& frame.pts_us >= p.shared.min_display_pts_us
            &&& p.shared.queue.contains(frame)
        },
{
    let q = p.shared.queue;
    let min = p.shared.min_display_pts_us;
    leading_below_is_the_longest(q, min as int);
    let bound = first_kept(min, (p.shared.audio_clock_us + TICK_TOLERANCE_US) as i64);
    leading_below_is_the_longest(q, bound);
    let taken = q.take(leading_below(q, bound) as int);
    last_from_is_in_range(taken, min as int);
    match last_from(taken, min as int) {
        Some(frame) => {
            let i = choose|i: int| 0 <= i < taken.len() && taken[i] == frame;
            assert(q[i] == frame);
        },
        None => {},
    }
}

/// While playing, a tick picks no frame that is not due yet.
pub proof fn ticks_wait_for_the_clock(p: PlayerModel)
    requires
        !p.shared.clock_frozen,
        p.shared.audio_clock_us + TICK_TOLERANCE_US <= i64::MAX,
    ensures
        p.tick_picks() matches Some(frame) ==> frame.pts_us <= p.shared.audio_clock_us
            + TICK_TOLERANCE_US,
{
    let q = p.shared.queue;
    let min = p.shared.min_display_pts_us;
    let last_due = (p.shared.audio_clock_us + TICK_TOLERANCE_US) as i64;
    let bound = first_kept(min, last_due);
    leading_below_is_the_longest(q, bound);
    let taken = q.take(leading_below(q, bound) as int);
    last_from_is_in_range(taken, min as int);
    match last_from(taken, min as int) {
        Some(frame) => {
            let i = choose|i: int| 0 <= i < taken.len() && taken[i] == frame;
            assert(q[i].pts_us < bound);
        },
        None => {},
    }
}

/// While paused, with no seek under way, a tick changes nothing and shows
/// nothing: the frames that wait are kept for single steps.
pub proof fn paused_ticks_change_nothing(p: PlayerModel, now_us: i64)
    requires
        !p.playing_cached,
        !p.shared.clock_frozen,
    ensures
        p.ticked(now_us) == p,
        p.tick_upload(now_us) is Nothing,
{
    assert(p.shared.queue.skip(0) =~= p.shared.queue);
}

/// From the moment a seek is asked for until its target is set, nothing is
/// shown, whatever frames turn up in the queue.
pub proof fn a_seek_shuts_the_display(
    p: PlayerModel,
    fraction_bits: u32,
    leaked: Seq<VideoFrame>,
    now_us: i64,
)
    requires
        forall|i: int| 0 <= i < leaked.len() ==> (#[trigger] leaked[i]).pts_us < i64::MAX,
    ensures
        p.seeking(fraction_bits).with_queue(leaked).tick_upload(now_us) is Nothing,
        p.seeking(fraction_bits).with_queue(leaked).ticked(now_us).last_uploaded_pts_us
            == p.last_uploaded_pts_us,
        p.seeking(fraction_bits).with_queue(leaked).ticked(now_us).shared.clock_frozen,
{
    leading_below_is_the_longest(leaked, i64::MAX as int);
    let n = leading_below(leaked, i64::MAX as int);
    if n < leaked.len() {
        assert(leaked[n as int].pts_us >= i64::MAX);
    }
}

/// The first frame that is decoded at or past the target of a seek is the one
/// that is on display after the next tick, playing or paused, and the clock goes
/// on from it. Where it was on display before, nothing is uploaded.
pub proof fn a_seek_ends_at_its_first_frame(
    p: PlayerModel,
    target_us: i64,
    frame: VideoFrame,
    now_us: i64,
)
    requires
        frame.pts_us >= target_us,
    ensures
        ({
            let landed = p.with_shared(
                frame_queued(flushed(seek_begun(p.shared, target_us)), frame),
            );
            &&& landed.tick_upload(now_us) == (if frame.pts_us == p.last_uploaded_pts_us {
                Upload::Nothing
            } else {
                p.upload_for(frame)
            })
            &&& landed.ticked(now_us).last_uploaded_pts_us == frame.pts_us
            &&& landed.ticked(now_us).shared.audio_clock_us == frame.pts_us
            &&& !landed.ticked(now_us).shared.clock_frozen
            &&& landed.ticked(now_us).shared.queue.len() == 0
        }),
{
    let landed = p.with_shared(frame_queued(flushed(seek_begun(p.shared, target_us)), frame));
    let q = landed.shared.queue;
    assert(q.len() == 1 && q[0] == frame);
    assert(leading_below(q, target_us as int) == 0);
    assert(landed.advanced(now_us).shared.queue == q);
}

/// A freeze lasts exactly until a tick finds a frame at or past the target.
pub proof fn a_freeze_ends_with_a_frame(p: PlayerModel, now_us: i64)
    requires
        p.shared.clock_frozen,
    ensures
        p.ticked(now_us).shared.clock_frozen <==> forall|i: int|
            0 <= i < p.shared.queue.len() ==> (#[trigger] p.shared.queue[i]).pts_us
                < p.shared.min_display_pts_us,
{
    let q = p.shared.queue;
    leading_below_is_the_longest(q, p.shared.min_display_pts_us as int);
}

/// The latest of several seeks is the one that is served.
pub proof fn the_latest_seek_is_served(p: PlayerModel, fraction_bits: u32, d: Demuxer)
    ensures
        d.absorbed(p.seeking(fraction_bits).commands).pending_seek == Some(fraction_bits),
{
    assert(p.seeking(fraction_bits).commands.last() == Command::Seek(fraction_bits));
}

/// A seek that found its first frame ends the reading ahead; until then it goes
/// on, up to its cap.
pub proof fn a_landed_frame_ends_priming(
    d: Demuxer,
    s: SharedModel,
    target_us: i64,
    frame: VideoFrame,
)
    requires
        d.priming_after_seek,
        d.prime_packets_read < crate::demuxer::MAX_PRIME_PACKETS,
    ensures
        d.priming_checked(seek_begun(s, target_us).post_seek_frames_pushed).priming_after_seek,
        !d.priming_checked(
            frame_queued(flushed(seek_begun(s, target_us)), frame).post_seek_frames_pushed,
        ).priming_after_seek,
{
}

/// Where so many frames wait after the one on display, a step forward by
/// `delta` frames ends at the one that is `delta` after it, and the clock stands
/// at it; those behind it stay.
pub proof fn steps_forward_go_forward(p: PlayerModel, delta: i32)
    requires
        p.shared.state.duration_us > 0,
        p.step_is_buffered(delta),
        ascending(p.shared.queue),
    ensures
        p.stepped(delta).last_uploaded_pts_us == p.shared.queue[p.shown_already() + delta
            - 1].pts_us,
        p.stepped(delta).last_uploaded_pts_us > p.last_uploaded_pts_us,
        p.stepped(delta).shared.audio_clock_us == p.stepped(delta).last_uploaded_pts_us,
        p.stepped(delta).waiting() == p.waiting() - delta,
        forall|i: int|
            0 <= i < p.shown_already() ==> (#[trigger] p.shared.queue[i]).pts_us
                <= p.last_uploaded_pts_us,
{
    let q = p.shared.queue;
    let n = p.shown_already() as int;
    leading_below_is_the_longest(q, p.last_uploaded_pts_us + 1);
    assert(q[n].pts_us > p.last_uploaded_pts_us);
    assert(n + delta - 1 == n || q[n].pts_us < q[n + delta - 1].pts_us);
    let s = p.stepped(delta);
    if n + delta < q.len() {
        assert(s.shared.queue[0] == q[n + delta]);
        assert(q[n + delta - 1].pts_us < q[n + delta].pts_us);
    }
}

/// Two steps forward are one step by both together.
pub proof fn steps_forward_add_up(p: PlayerModel, a: i32, b: i32)
    requires
        p.shared.state.duration_us > 0,
        a > 0,
        b > 0,
        a + b <= i32::MAX,
        p.step_is_buffered((a + b) as i32),
        ascending(p.shared.queue),
    ensures
        p.stepped(a).step_is_buffered(b),
        p.stepped(a).stepped(b).shared == p.stepped((a + b) as i32).shared,
        p.stepped(a).stepped(b).last_uploaded_pts_us == p.stepped(
            (a + b) as i32,
        ).last_uploaded_pts_us,
        p.stepped(a).stepped(b).intrinsic_size == p.stepped((a + b) as i32).intrinsic_size,
{
    let q = p.shared.queue;
    let n = p.shown_already() as int;
    leading_below_is_the_longest(q, p.last_uploaded_pts_us + 1);
    let s = p.stepped(a);
    assert(s.shared.queue =~= q.skip(n + a));
    assert(s.shared.queue[0] == q[n + a]);
    assert(q[n + a - 1].pts_us < q[n + a].pts_us);
    assert(s.shown_already() == 0);
    assert(s.shared.queue[b - 1] == q[n + a + b - 1]);
    assert(s.shared.queue.skip(b as int) =~= q.skip(n + a + b));
}

/// A step forward past what is waiting seeks to a time after the last frame that
/// is, or after the clock where none is; or else to the last frame of the file.
pub proof fn steps_past_the_queue_seek_ahead(p: PlayerModel, delta: i32)
    requires
        p.shared.state.duration_us > 0,
        delta > p.waiting(),
        p.step_in_range(delta),
    ensures
        p.step(delta) matches Step::SeekForward { target_us } && 0 <= target_us
            <= p.shared.state.duration_us - p.step_interval() && (target_us
            == p.shared.state.duration_us - p.step_interval() || target_us > (if p.waiting() > 0 {
            p.shared.queue.last().pts_us
        } else {
            p.shared.audio_clock_us
        })),
{
    let interval = p.step_interval();
    let rest = delta - p.waiting();
    leading_below_is_the_longest(p.shared.queue, p.last_uploaded_pts_us + 1);
    assert(interval * rest > 0) by (nonlinear_arith)
        requires
            interval > 0,
            rest > 0,
    ;
}

/// A step back ends at a frame from before the time that it started from.
pub proof fn steps_back_go_back(p: PlayerModel, before_us: i64)
    requires
        p.back_frame(before_us) is Some,
    ensures
        p.stepped_back(before_us).last_uploaded_pts_us < before_us,
        p.stepped_back(before_us).shared.audio_clock_us == p.stepped_back(
            before_us,
        ).last_uploaded_pts_us,
{
    leading_below_is_the_longest(p.shared.queue, before_us as int);
}

/// A step back seeks to a time before the one it starts from, or to the start
/// of the file.
pub proof fn steps_back_seek_back(p: PlayerModel, delta: i32)
    requires
        p.shared.state.duration_us > 0,
        i32::MIN < delta < 0,
        p.step_in_range(delta),
    ensures
        p.step(delta) matches Step::SeekBackward { target_us, before_us } && before_us
            == p.shared.audio_clock_us && (target_us < before_us || target_us == 0),
{
    let interval = if p.step_interval() < crate::player::MIN_BACK_INTERVAL_US {
        crate::player::MIN_BACK_INTERVAL_US as int
    } else {
        p.step_interval()
    };
    assert(interval * -delta * crate::player::BACK_STEP_FACTOR > 0) by (nonlinear_arith)
        requires
            interval > 0,
            -delta > 0,
            crate::player::BACK_STEP_FACTOR == 4,
    ;
}

/// With the frames in order, what waits after a tick is later than what it
/// shows; so ticks show one frame after another, never an earlier one.
pub proof fn playback_goes_forward(p: PlayerModel, now_us: i64)
    requires
        ascending(p.shared.queue),
    ensures
        ascending(p.ticked(now_us).shared.queue),
        p.advanced(now_us).tick_picks() matches Some(frame) ==> all_after(
            p.ticked(now_us).shared.queue,
            frame.pts_us,
        ),
        p.advanced(now_us).tick_picks() matches Some(frame) ==> (all_after(
            p.shared.queue,
            p.last_uploaded_pts_us,
        ) ==> frame.pts_us > p.last_uploaded_pts_us),
{
    let a = p.advanced(now_us);
    let q = a.shared.queue;
    let min = a.shared.min_display_pts_us;
    ticks_respect_the_target(a);
    leading_below_is_the_longest(q, min as int);
    let bound = first_kept(min, (a.shared.audio_clock_us + TICK_TOLERANCE_US) as i64);
    leading_below_is_the_longest(q, bound);
    let rest = q.skip(a.tick_takes());
    assert(p.ticked(now_us).shared.queue == rest);
    assert forall|i: int, j: int| 0 <= i < j < rest.len() implies (#[trigger] rest[i]).pts_us < (
    #[trigger] rest[j]).pts_us by {
        assert(rest[i] == q[i + a.tick_takes()] && rest[j] == q[j + a.tick_takes()]);
    }
    match a.tick_picks() {
        Some(frame) => {
            let taken = q.take(a.tick_takes());
            if !a.shared.clock_frozen {
                last_from_is_in_range(taken, min as int);
            } else {
                assert(taken[a.tick_takes() - 1] == frame);
            }
            let k = choose|k: int| 0 <= k < taken.len() && taken[k] == frame;
            assert(q[k] == frame);
            assert forall|i: int| 0 <= i < rest.len() implies (#[trigger] rest[i]).pts_us
                > frame.pts_us by {
                assert(rest[i] == q[i + a.tick_takes()]);
            }
        },
        None => {},
    }
}

/// A frame that is later than those waiting leaves the queue in order.
pub proof fn later_frames_keep_the_order(s: SharedModel, frame: VideoFrame)
    requires
        ascending(s.queue),
        forall|i: int| 0 <= i < s.queue.len() ==> (#[trigger] s.queue[i]).pts_us < frame.pts_us,
    ensures
        ascending(frame_queued(s, frame).queue),
{
}

/// Without audio, the clock has advanced after a pause by as long as playback
/// lasted, and stands still from then on.
pub proof fn the_clock_follows_real_time(p: PlayerModel, from_us: i64, to_us: i64, now_us: i64)
    requires
        !p.shared.state.has_audio,
        from_us <= to_us,
        p.playing_from(from_us).time_in_range(to_us),
    ensures
        p.playing_from(from_us).paused_at(to_us).shared.audio_clock_us == p.shared.audio_clock_us
            + (to_us - from_us),
        p.playing_from(from_us).paused_at(to_us).advanced(now_us) == p.playing_from(
            from_us,
        ).paused_at(to_us),
{
}

/// A tick brings the clock forward to now before it looks at the frames.
pub proof fn ticks_read_the_clock(p: PlayerModel, now_us: i64)
    requires
        p.follows_wall_clock(),
        p.playing_cached,
        !p.shared.clock_frozen,
        p.time_in_range(now_us),
    ensures
        p.ticked(now_us).shared.audio_clock_us == p.wall_clock_us(now_us),
{
}

/// While playing, with no seek under way, a tick takes the frames at the front
/// that are before the seek target or due by the clock, all of them and no other;
/// what it leaves begins with a frame that is neither. Of those taken, the last
/// that is not before the target is on display afterwards; where there is none,
/// what was on display stays. The clock is the one that the tick leaves behind.
#[verifier::rlimit(40)]
pub proof fn a_tick_takes_every_due_frame(p: PlayerModel, now_us: i64, n: int)
    requires
        p.playing_cached,
        !p.shared.clock_frozen,
        p.ticked(now_us).shared.audio_clock_us + TICK_TOLERANCE_US <= i64::MAX,
        0 <= n <= p.shared.queue.len(),
        forall|i: int|
            0 <= i < n ==> (#[trigger] p.shared.queue[i]).pts_us < p.shared.min_display_pts_us
                || p.shared.queue[i].pts_us <= p.ticked(now_us).shared.audio_clock_us
                + TICK_TOLERANCE_US,
        n < p.shared.queue.len() ==> p.shared.queue[n].pts_us >= p.shared.min_display_pts_us
            && p.shared.queue[n].pts_us > p.ticked(now_us).shared.audio_clock_us
            + TICK_TOLERANCE_US,
    ensures
        p.ticked(now_us).shared.queue == p.shared.queue.skip(n),
        !p.ticked(now_us).shared.clock_frozen,
        forall|i: int|
            0 <= i < n && (#[trigger] p.shared.queue[i]).pts_us >= p.shared.min_display_pts_us && (
            forall|j: int|
                i < j < n ==> (#[trigger] p.shared.queue[j]).pts_us
                    < p.shared.min_display_pts_us) ==> p.ticked(now_us).last_uploaded_pts_us
                == p.shared.queue[i].pts_us && p.tick_upload(now_us) == (if p.shared.queue[i].pts_us
                == p.last_uploaded_pts_us {
                Upload::Nothing
            } else {
                upload_of(p.texture, p.gpu, p.shared.queue[i].payload)
            }),
        (forall|i: int|
            0 <= i < n ==> (#[trigger] p.shared.queue[i]).pts_us < p.shared.min_display_pts_us)
            ==> p.ticked(now_us).last_uploaded_pts_us == p.last_uploaded_pts_us
            && p.tick_upload(now_us) is Nothing,
{
    let q = p.shared.queue;
    let min = p.shared.min_display_pts_us;
    let a = p.advanced(now_us);
    assert(a.shared.queue == q && a.shared.min_display_pts_us == min);
    assert(p.ticked(now_us).shared.audio_clock_us == a.shared.audio_clock_us);
    let last_due = (a.shared.audio_clock_us + TICK_TOLERANCE_US) as i64;
    let bound = first_kept(min, last_due);
    leading_below_unique(q, bound, n as nat);
    assert(a.tick_takes() == n);
    let taken = q.take(n);
    assert forall|i: int|
        0 <= i < n && (#[trigger] q[i]).pts_us >= min && (forall|j: int|
            i < j < n ==> (#[trigger] q[j]).pts_us < min) implies last_from(taken, min as int)
        == Some(q[i]) by {
        assert forall|j: int| i < j < taken.len() implies (#[trigger] taken[j]).pts_us < min by {
            assert(taken[j] == q[j]);
        }
        assert(taken[i] == q[i]);
        last_from_is_the_last(taken, min as int, i);
    }
    last_from_is_in_range(taken, min as int);
    if forall|i: int| 0 <= i < n ==> (#[trigger] q[i]).pts_us < min {
        match last_from(taken, min as int) {
            Some(frame) => {
                let i = choose|i: int| 0 <= i < taken.len() && taken[i] == frame;
                assert(q[i].pts_us < min);
            },
            None => {},
        }
    }
}

/// While playing, with no seek under way, the size on display after a tick is that of
/// the frame which the tick shows: the last of those taken that is not before the
/// seek target.
pub proof fn a_tick_shows_the_size_of_its_frame(p: PlayerModel, now_us: i64, n: int, i: int)
    requires
        p.playing_cached,
        !p.shared.clock_frozen,
        p.ticked(now_us).shared.audio_clock_us + TICK_TOLERANCE_US <= i64::MAX,
        0 <= i < n <= p.shared.queue.len(),
        forall|k: int|
            0 <= k < n ==> (#[trigger] p.shared.queue[k]).pts_us < p.shared.min_display_pts_us
                || p.shared.queue[k].pts_us <= p.ticked(now_us).shared.audio_clock_us
                + TICK_TOLERANCE_US,
        n < p.shared.queue.len() ==> p.shared.queue[n].pts_us >= p.shared.min_display_pts_us
            && p.shared.queue[n].pts_us > p.ticked(now_us).shared.audio_clock_us
            + TICK_TOLERANCE_US,
        p.shared.queue[i].pts_us >= p.shared.min_display_pts_us,
        forall|j: int|
            i < j < n ==> (#[trigger] p.shared.queue[j]).pts_us < p.shared.min_display_pts_us,
        p.shared.queue[i].pts_us != p.last_uploaded_pts_us,
    ensures
        p.ticked(now_us).intrinsic_size == p.shared.queue[i].payload.spec_size(),
{
    let q = p.shared.queue;
    let min = p.shared.min_display_pts_us;
    let a = p.advanced(now_us);
    let last_due = (a.shared.audio_clock_us + TICK_TOLERANCE_US) as i64;
    leading_below_unique(q, first_kept(min, last_due), n as nat);
    let taken = q.take(n);
    assert forall|j: int| i < j < taken.len() implies (#[trigger] taken[j]).pts_us < min by {
        assert(taken[j] == q[j]);
    }
    assert(taken[i] == q[i]);
    last_from_is_the_last(taken, min as int, i);
}

/// While playing, with no seek under way, the frame that is first after a tick is
/// neither before the seek target nor due; what a tick leaves is the end of what was
/// waiting, and every frame that it took was before the target or due.
#[verifier::rlimit(40)]
pub proof fn a_tick_leaves_nothing_due_in_front(p: PlayerModel, now_us: i64)
    requires
        p.playing_cached,
        !p.shared.clock_frozen,
        p.ticked(now_us).shared.audio_clock_us + TICK_TOLERANCE_US <= i64::MAX,
    ensures
        ({
            let q = p.shared.queue;
            let t = p.ticked(now_us);
            let n = q.len() - t.shared.queue.len();
            &&& n >= 0
            &&& t.shared.queue == q.skip(n)
            &&& t.shared.queue.len() > 0 ==> t.shared.queue[0].pts_us
                >= p.shared.min_display_pts_us && t.shared.queue[0].pts_us
                > t.shared.audio_clock_us + TICK_TOLERANCE_US
            &&& forall|i: int|
                0 <= i < n ==> (#[trigger] q[i]).pts_us < p.shared.min_display_pts_us || q[i].pts_us
                    <= t.shared.audio_clock_us + TICK_TOLERANCE_US
        }),
{
    let q = p.shared.queue;
    let min = p.shared.min_display_pts_us;
    let clock = p.ticked(now_us).shared.audio_clock_us;
    let bound = first_kept(min, (clock + TICK_TOLERANCE_US) as i64);
    let n = leading_below(q, bound) as int;
    leading_below_is_the_longest(q, bound);
    a_tick_takes_every_due_frame(p, now_us, n);
    if n < q.len() {
        assert(q.skip(n)[0] == q[n]);
    }
}

/// While playing, with no seek under way and the waiting frames in order, every
/// frame that is due and not before the seek target is at or before the one on
/// display after a tick; what is late is dropped, and nothing due stays waiting.
#[verifier::rlimit(40)]
pub proof fn a_tick_leaves_no_due_frame_behind(p: PlayerModel, now_us: i64, i: int)
    requires
        p.playing_cached,
        !p.shared.clock_frozen,
        p.ticked(now_us).shared.audio_clock_us + TICK_TOLERANCE_US <= i64::MAX,
        forall|a: int, b: int|
            0 <= a < b < p.shared.queue.len() ==> (#[trigger] p.shared.queue[a]).pts_us < (
            #[trigger] p.shared.queue[b]).pts_us,
        0 <= i < p.shared.queue.len(),
        p.shared.queue[i].pts_us >= p.shared.min_display_pts_us,
        p.shared.queue[i].pts_us <= p.ticked(now_us).shared.audio_clock_us + TICK_TOLERANCE_US,
    ensures
        p.shared.queue[i].pts_us <= p.ticked(now_us).last_uploaded_pts_us,
        p.ticked(now_us).last_uploaded_pts_us <= p.ticked(now_us).shared.audio_clock_us
            + TICK_TOLERANCE_US,
        forall|j: int|
            0 <= j < p.ticked(now_us).shared.queue.len() ==> (#[trigger] p.ticked(
                now_us,
            ).shared.queue[j]).pts_us > p.ticked(now_us).shared.audio_clock_us + TICK_TOLERANCE_US,
{
    let q = p.shared.queue;
    let min = p.shared.min_display_pts_us;
    let clock = p.ticked(now_us).shared.audio_clock_us;
    let rest = p.ticked(now_us).shared.queue;
    a_tick_leaves_nothing_due_in_front(p, now_us);
    let n = q.len() - rest.len();
    if i >= n {
        assert(rest[0] == q[n]);
        assert(q[n].pts_us <= q[i].pts_us);
    }
    assert(q[i].pts_us <= q[n - 1].pts_us);
    a_tick_ends_at_the_last_taken(p, now_us, n);
    assert forall|j: int| 0 <= j < rest.len() implies (#[trigger] rest[j]).pts_us > clock
        + TICK_TOLERANCE_US by {
        assert(rest[0] == q[n] && rest[j] == q[n + j]);
        assert(q[n].pts_us <= q[n + j].pts_us);
    }
}

/// Where the last frame that a tick takes is not before the seek target, it is on
/// display afterwards.
proof fn a_tick_ends_at_the_last_taken(p: PlayerModel, now_us: i64, n: int)
    requires
        p.playing_cached,
        !p.shared.clock_frozen,
        p.ticked(now_us).shared.audio_clock_us + TICK_TOLERANCE_US <= i64::MAX,
        0 < n <= p.shared.queue.len(),
        forall|k: int|
            0 <= k < n ==> (#[trigger] p.shared.queue[k]).pts_us < p.shared.min_display_pts_us
                || p.shared.queue[k].pts_us <= p.ticked(now_us).shared.audio_clock_us
                + TICK_TOLERANCE_US,
        n < p.shared.queue.len() ==> p.shared.queue[n].pts_us >= p.shared.min_display_pts_us
            && p.shared.queue[n].pts_us > p.ticked(now_us).shared.audio_clock_us
            + TICK_TOLERANCE_US,
        p.shared.queue[n - 1].pts_us >= p.shared.min_display_pts_us,
    ensures
        p.ticked(now_us).last_uploaded_pts_us == p.shared.queue[n - 1].pts_us,
{
    let q = p.shared.queue;
    let min = p.shared.min_display_pts_us;
    let a = p.advanced(now_us);
    let last_due = (a.shared.audio_clock_us + TICK_TOLERANCE_US) as i64;
    leading_below_unique(q, first_kept(min, last_due), n as nat);
    let taken = q.take(n);
    assert(taken[n - 1] == q[n - 1]);
    last_from_is_the_last(taken, min as int, n - 1);
}

/// While a seek waits for its first frame, playing or paused, a tick drops what is
/// before the target. The first frame that is not is on display afterwards and
/// sets the clock, which goes on from there; what is behind it stays. Without such
/// a frame the freeze lasts.
pub proof fn a_tick_ends_a_seek_at_its_first_frame(p: PlayerModel, now_us: i64, n: int)
    requires
        p.shared.clock_frozen,
        0 <= n <= p.shared.queue.len(),
        forall|i: int|
            0 <= i < n ==> (#[trigger] p.shared.queue[i]).pts_us < p.shared.min_display_pts_us,
        n < p.shared.queue.len() ==> p.shared.queue[n].pts_us >= p.shared.min_display_pts_us,
    ensures
        ({
            let t = p.ticked(now_us);
            if n < p.shared.queue.len() {
                let frame = p.shared.queue[n];
                &&& t.shared.queue == p.shared.queue.skip(n + 1)
                &&& t.last_uploaded_pts_us == frame.pts_us
                &&& t.shared.audio_clock_us == frame.pts_us
                &&& !t.shared.clock_frozen
                &&& !p.shared.state.has_audio && p.playing_cached ==> {
                    &&& t.no_audio_clock_origin == Some(now_us)
                    &&& t.no_audio_clock_base_us == frame.pts_us
                }
                &&& p.shared.state.has_audio || !p.playing_cached ==> {
                    &&& t.no_audio_clock_origin == p.no_audio_clock_origin
                    &&& t.no_audio_clock_base_us == p.no_audio_clock_base_us
                }
                &&& frame.pts_us != p.last_uploaded_pts_us ==> t.intrinsic_size
                    == frame.payload.spec_size()
                &&& p.tick_upload(now_us) == (if frame.pts_us == p.last_uploaded_pts_us {
                    Upload::Nothing
                } else {
                    upload_of(p.texture, p.gpu, frame.payload)
                })
            } else {
                &&& t.shared.queue.len() == 0
                &&& t.last_uploaded_pts_us == p.last_uploaded_pts_us
                &&& t.shared.clock_frozen
                &&& t.no_audio_clock_origin == p.no_audio_clock_origin
                &&& t.no_audio_clock_base_us == p.no_audio_clock_base_us
                &&& p.tick_upload(now_us) is Nothing
            }
        }),
{
    leading_below_unique(p.shared.queue, p.shared.min_display_pts_us as int, n as nat);
}

/// A tick changes what is on display, what waits and the clock, and nothing else;
/// the clock only where it follows real time, or where a seek ends. What it shows
/// has the size of the frame shown.
pub proof fn a_tick_changes_nothing_else(p: PlayerModel, now_us: i64)
    ensures
        ({
            let t = p.ticked(now_us);
            &&& t.commands == p.commands
            &&& t.gpu == p.gpu
            &&& t.playing_cached == p.playing_cached
            &&& t.shared.state == p.shared.state
            &&& t.shared.volume_bits == p.shared.volume_bits
            &&& t.shared.audio_drain_flag == p.shared.audio_drain_flag
            &&& t.shared.flush_pending == p.shared.flush_pending
            &&& t.shared.min_display_pts_us == p.shared.min_display_pts_us
            &&& t.shared.post_seek_frames_pushed == p.shared.post_seek_frames_pushed
            &&& t.shared.stopping == p.shared.stopping
            &&& t.shared.flush_seq == p.shared.flush_seq
            &&& !p.shared.clock_frozen ==> t.no_audio_clock_origin == p.no_audio_clock_origin
                && t.no_audio_clock_base_us == p.no_audio_clock_base_us
            &&& p.tick_upload(now_us) is Nothing ==> t.texture == cache_after(
                p.texture,
                Upload::Nothing,
            ) && t.texture == p.texture
            &&& t.texture == cache_after(p.texture, p.tick_upload(now_us))
            &&& t.last_uploaded_pts_us == p.last_uploaded_pts_us ==> t.intrinsic_size
                == p.intrinsic_size
            &&& t.last_uploaded_pts_us != p.last_uploaded_pts_us ==> exists|i: int|
                0 <= i < p.shared.queue.len() && (#[trigger] p.shared.queue[i]).pts_us
                    == t.last_uploaded_pts_us && t.intrinsic_size
                    == p.shared.queue[i].payload.spec_size()
        }),
{
    let a = p.advanced(now_us);
    ticks_respect_the_target(a);
    match a.tick_picks() {
        Some(frame) => {
            let q = p.shared.queue;
            let i = choose|i: int| 0 <= i < q.len() && q[i] == frame;
            assert(q[i].pts_us == frame.pts_us);
        },
        None => {},
    }
}

/// Without audio and while playing, a tick sets the clock to where it stood when
/// playback began, and as far on as time has passed since; with audio, and while
/// paused, it leaves the clock alone. While a seek waits for its first frame, this
/// holds of a tick that finds none.
pub proof fn a_tick_sets_the_clock(p: PlayerModel, now_us: i64)
    requires
        p.no_audio_clock_origin matches Some(origin) ==> 0 <= now_us - origin <= i64::MAX
            && p.no_audio_clock_base_us + (now_us - origin) <= i64::MAX,
        p.ticked(now_us).shared.clock_frozen == p.shared.clock_frozen,
    ensures
        p.shared.state.has_audio || !p.playing_cached || p.no_audio_clock_origin is None
            ==> p.ticked(now_us).shared.audio_clock_us == p.shared.audio_clock_us,
        !p.shared.state.has_audio && p.playing_cached ==> (p.no_audio_clock_origin matches Some(
            origin,
        ) ==> p.ticked(now_us).shared.audio_clock_us == p.no_audio_clock_base_us + (now_us
            - origin)),
{
}

/// To play and to pause is asked of the decoding side, and noted. Without audio
/// the clock starts to follow real time where it stands, and stops where it has
/// come to. What waits and what is on display is left alone.
pub proof fn play_and_pause_do_what_they_say(p: PlayerModel, now_us: i64)
    requires
        p.no_audio_clock_origin matches Some(origin) ==> 0 <= now_us - origin <= i64::MAX
            && p.no_audio_clock_base_us + (now_us - origin) <= i64::MAX,
    ensures
        ({
            let played = p.playing_from(now_us);
            let paused = p.paused_at(now_us);
            &&& played.commands == p.commands.push(Command::Play)
            &&& paused.commands == p.commands.push(Command::Pause)
            &&& played.playing_cached && !paused.playing_cached
            &&& played.shared == p.shared
            &&& paused.shared.queue == p.shared.queue
            &&& paused.shared.clock_frozen == p.shared.clock_frozen
            &&& paused.shared.min_display_pts_us == p.shared.min_display_pts_us
            &&& paused.shared.state == p.shared.state
            &&& played.last_uploaded_pts_us == p.last_uploaded_pts_us
            &&& paused.last_uploaded_pts_us == p.last_uploaded_pts_us
            &&& played.texture == p.texture && paused.texture == p.texture
            &&& played.intrinsic_size == p.intrinsic_size
            &&& paused.intrinsic_size == p.intrinsic_size
            &&& played.gpu == p.gpu && paused.gpu == p.gpu
            &&& paused.no_audio_clock_base_us == p.no_audio_clock_base_us
            &&& paused.shared.volume_bits == p.shared.volume_bits
            &&& paused.shared.audio_drain_flag == p.shared.audio_drain_flag
            &&& paused.shared.flush_pending == p.shared.flush_pending
            &&& paused.shared.post_seek_frames_pushed == p.shared.post_seek_frames_pushed
            &&& paused.shared.stopping == p.shared.stopping
            &&& paused.shared.flush_seq == p.shared.flush_seq
            &&& p.shared.state.has_audio ==> {
                &&& played.no_audio_clock_origin == p.no_audio_clock_origin
                &&& played.no_audio_clock_base_us == p.no_audio_clock_base_us
                &&& paused.shared == p.shared
                &&& paused.no_audio_clock_origin == p.no_audio_clock_origin
            }
            &&& !p.shared.state.has_audio ==> {
                &&& played.no_audio_clock_origin == Some(now_us)
                &&& played.no_audio_clock_base_us == p.shared.audio_clock_us
                &&& paused.no_audio_clock_origin is None
                &&& paused.shared.audio_clock_us == (match p.no_audio_clock_origin {
                    Some(origin) => p.no_audio_clock_base_us + (now_us - origin),
                    None => p.shared.audio_clock_us as int,
                })
            }
        }),
{
}

/// A seek is asked of the decoding side with its fraction, behind what was asked
/// before. What waits is gone, the clock stands, and no time is one that may be
/// shown. What is on display stays.
pub proof fn a_seek_shuts_everything(p: PlayerModel, fraction_bits: u32)
    ensures
        ({
            let s = p.seeking(fraction_bits);
            &&& s.commands == p.commands.push(Command::Seek(fraction_bits))
            &&& s.shared.queue.len() == 0
            &&& s.shared.clock_frozen
            &&& s.shared.min_display_pts_us == i64::MAX
            &&& s.shared.audio_clock_us == p.shared.audio_clock_us
            &&& s.shared.state == p.shared.state
            &&& s.shared.flush_seq == p.shared.flush_seq
            &&& s.shared.flush_pending == p.shared.flush_pending
            &&& s.shared.post_seek_frames_pushed == p.shared.post_seek_frames_pushed
            &&& s.shared.volume_bits == p.shared.volume_bits
            &&& s.shared.stopping == p.shared.stopping
            &&& s.shared.audio_drain_flag == p.shared.audio_drain_flag
            &&& s.last_uploaded_pts_us == p.last_uploaded_pts_us
            &&& s.texture == p.texture
            &&& s.intrinsic_size == p.intrinsic_size
            &&& s.playing_cached == p.playing_cached
            &&& s.no_audio_clock_origin == p.no_audio_clock_origin
            &&& s.no_audio_clock_base_us == p.no_audio_clock_base_us
            &&& s.gpu == p.gpu
        }),
{
}

/// A step forward by `delta` frames, with `n` frames at the front that are not
/// after the one on display. Where so many wait behind those, the one that is
/// `delta` after the one on display is shown, the clock stands at it, and what is
/// behind it stays. Where not, the step is a seek: for each frame that does not
/// wait, one frame interval past the last that does, or past the clock where none
/// does, within the video.
#[verifier::rlimit(40)]
pub proof fn a_step_forward_goes_delta_frames(p: PlayerModel, delta: i32, n: int)
    requires
        p.shared.state.duration_us > 0,
        delta > 0,
        p.step_in_range(delta),
        0 <= n <= p.shared.queue.len(),
        forall|i: int| 0 <= i < n ==> (#[trigger] p.shared.queue[i]).pts_us <= p.last_uploaded_pts_us,
        n < p.shared.queue.len() ==> p.shared.queue[n].pts_us > p.last_uploaded_pts_us,
    ensures
        ({
            let q = p.shared.queue;
            let s = p.stepped(delta);
            let waiting = q.len() - n;
            let interval = if p.shared.state.frame_interval_us < 1_000 {
                1_000
            } else {
                p.shared.state.frame_interval_us as int
            };
            let start = if waiting > 0 {
                q.last().pts_us
            } else {
                p.shared.audio_clock_us
            };
            let far = start + interval * (delta - waiting);
            if delta <= waiting {
                let frame = q[n + delta - 1];
                &&& p.step(delta) == Step::Show(upload_of(p.texture, p.gpu, frame.payload))
                &&& s.shared.queue == q.skip(n + delta)
                &&& s.last_uploaded_pts_us == frame.pts_us
                &&& s.shared.audio_clock_us == frame.pts_us
                &&& !s.shared.clock_frozen
                &&& s.intrinsic_size == frame.payload.spec_size()
                &&& s.texture == cache_after(
                    p.texture,
                    upload_of(p.texture, p.gpu, frame.payload),
                )
            } else {
                &&& s.shared.queue == q.skip(n)
                &&& s.last_uploaded_pts_us == p.last_uploaded_pts_us
                &&& s.shared.audio_clock_us == p.shared.audio_clock_us
                &&& s.shared.clock_frozen == p.shared.clock_frozen
                &&& s.intrinsic_size == p.intrinsic_size && s.texture == p.texture
                &&& p.step(delta) matches Step::SeekForward { target_us } && {
                    &&& 0 <= target_us <= p.shared.state.duration_us - interval
                    &&& 0 <= far <= p.shared.state.duration_us - interval ==> target_us == far
                    &&& far < 0 ==> target_us == 0
                    &&& far > p.shared.state.duration_us - interval ==> target_us
                        == p.shared.state.duration_us - interval
                }
            }
        }),
{
    leading_below_unique(p.shared.queue, p.last_uploaded_pts_us + 1, n as nat);
    let rest = delta - p.waiting();
    assert(p.step_interval() * rest >= 0 || rest < 0) by (nonlinear_arith)
        requires
            p.step_interval() >= 0,
    ;
}

/// A step back by so many frames is a seek to four times as many frame intervals
/// before the clock, none shorter than 16 milliseconds, or to the start of the
/// video; it changes nothing by itself, and the frame to end at is sought before
/// the clock. Nothing is stepped through in a video without a length.
pub proof fn a_step_back_seeks_four_times_as_far(p: PlayerModel, delta: i32)
    requires
        p.step_in_range(delta),
    ensures
        p.shared.state.duration_us <= 0 ==> p.step(delta) is Nothing,
        p.shared.state.duration_us <= 0 || delta <= 0 ==> p.stepped(delta) == p,
        p.shared.state.duration_us > 0 && delta < 0 ==> ({
            let interval = if p.shared.state.frame_interval_us < 16_000 {
                16_000
            } else {
                p.shared.state.frame_interval_us as int
            };
            let far = p.shared.audio_clock_us - interval * (-delta) * 4;
            p.step(delta) matches Step::SeekBackward { target_us, before_us } && before_us
                == p.shared.audio_clock_us && target_us >= 0 && (far >= 0 ==> target_us == far) && (
            far < 0 ==> target_us == 0)
        }),
{
}

/// A step back ends at the frame that is last of those at the front before the
/// given time, if there is one: it is on display, the clock stands at it, and what
/// is behind it stays. If there is none, nothing changes.
pub proof fn a_step_back_ends_at_the_frame_before(p: PlayerModel, before_us: i64, n: int)
    requires
        0 <= n <= p.shared.queue.len(),
        forall|i: int| 0 <= i < n ==> (#[trigger] p.shared.queue[i]).pts_us < before_us,
        n < p.shared.queue.len() ==> p.shared.queue[n].pts_us >= before_us,
    ensures
        n == 0 ==> p.back_frame(before_us) is None && p.stepped_back(before_us) == p,
        n > 0 ==> {
            let s = p.stepped_back(before_us);
            let frame = p.shared.queue[n - 1];
            &&& p.back_frame(before_us) == Some(frame)
            &&& p.upload_for(frame) == upload_of(p.texture, p.gpu, frame.payload)
            &&& s.shared.queue == p.shared.queue.skip(n)
            &&& s.last_uploaded_pts_us == frame.pts_us
            &&& s.shared.audio_clock_us == frame.pts_us
            &&& !s.shared.clock_frozen
            &&& s.intrinsic_size == frame.payload.spec_size()
            &&& s.texture == cache_after(p.texture, upload_of(p.texture, p.gpu, frame.payload))
        },
{
    leading_below_unique(p.shared.queue, before_us as int, n as nat);
}

/// A step changes what is on display, what waits and the clock, and nothing else.
pub proof fn a_step_changes_nothing_else(p: PlayerModel, delta: i32, before_us: i64)
    ensures
        forall|s: PlayerModel|
            #![trigger s.commands]
            s == p.stepped(delta) || s == p.stepped_back(before_us) ==> {
                &&& s.commands == p.commands
                &&& s.gpu == p.gpu
                &&& s.playing_cached == p.playing_cached
                &&& s.no_audio_clock_origin == p.no_audio_clock_origin
                &&& s.no_audio_clock_base_us == p.no_audio_clock_base_us
                &&& s.shared.state == p.shared.state
                &&& s.shared.volume_bits == p.shared.volume_bits
                &&& s.shared.audio_drain_flag == p.shared.audio_drain_flag
                &&& s.shared.flush_pending == p.shared.flush_pending
                &&& s.shared.min_display_pts_us == p.shared.min_display_pts_us
                &&& s.shared.post_seek_frames_pushed == p.shared.post_seek_frames_pushed
                &&& s.shared.stopping == p.shared.stopping
                &&& s.shared.flush_seq == p.shared.flush_seq
            },
{
}

/// Times in milliseconds are those in microseconds without the rest, on either
/// side of zero.
pub proof fn milliseconds_leave_out_the_rest(us: int)
    ensures
        us >= 0 ==> 0 <= us - 1000 * div_toward_zero(us, 1000) < 1000,
        us <= 0 ==> -1000 < us - 1000 * div_toward_zero(us, 1000) <= 0,
{
}

/// The time between frames is that of the stream, and no less than a millisecond.
pub proof fn the_frame_interval_has_a_floor(p: PlayerModel)
    ensures
        p.step_interval() >= 1_000,
        p.step_interval() >= p.shared.state.frame_interval_us,
        p.step_interval() == 1_000 || p.step_interval() == p.shared.state.frame_interval_us,
{
}

/// A player whose file is still being opened shows nothing, has nothing waiting
/// and nothing asked of it; its clock stands at zero, and it is paused, at full
/// volume.
pub proof fn a_fresh_player_is_idle(gpu: bool)
    ensures
        ({
            let p = fresh_player(gpu);
            &&& p.gpu == gpu
            &&& p.commands.len() == 0
            &&& p.shared.queue.len() == 0
            &&& p.shared.audio_clock_us == 0
            &&& !p.playing_cached && !p.shared.clock_frozen && !p.shared.stopping
            &&& !p.shared.flush_pending && !p.shared.audio_drain_flag
            &&& p.shared.state.player_state is Loading
            &&& p.shared.state.error is None
            &&& p.shared.state.duration_us == 0
            &&& p.shared.state.frame_interval_us == 33_333
            &&& !p.shared.state.has_audio
            &&& p.shared.volume_bits == 0x3f80_0000
            &&& p.shared.min_display_pts_us == i64::MIN
            &&& p.shared.flush_seq == 0
            &&& p.shared.post_seek_frames_pushed == 0
            &&& p.last_uploaded_pts_us == i64::MIN
            &&& p.no_audio_clock_origin is None
            &&& p.intrinsic_size == (0u32, 0u32)
            &&& p.texture.managed is None && p.texture.flat is None && p.texture.planes is None
            &&& !p.texture.last_upload_was_nv12
        }),
{
}

/// A player is seen with every one of its parts as it is.
pub proof fn a_player_is_seen_as_it_is(p: Player)
    ensures
        p@.shared == p.shared@,
        p@.commands == p.commands@,
        p@.texture == p.texture,
        p@.gpu == p.gpu,
        p@.intrinsic_size == p.intrinsic_size,
        p@.last_uploaded_pts_us == p.last_uploaded_pts_us,
        p@.no_audio_clock_origin == p.no_audio_clock_origin,
        p@.no_audio_clock_base_us == p.no_audio_clock_base_us,
        p@.playing_cached == p.playing_cached,
        p.shared@.state == p.shared.state,
        p.shared@.queue == p.shared.video_queue@,
        p.shared@.audio_clock_us == p.shared.audio_clock_us,
        p.shared@.volume_bits == p.shared.volume_bits,
        p.shared@.clock_frozen == p.shared.clock_frozen,
        p.shared@.audio_drain_flag == p.shared.audio_drain_flag,
        p.shared@.flush_pending == p.shared.flush_pending,
        p.shared@.min_display_pts_us == p.shared.min_display_pts_us,
        p.shared@.post_seek_frames_pushed == p.shared.post_seek_frames_pushed,
        p.shared@.stopping == p.shared.stopping,
        p.shared@.flush_seq == p.shared.flush_seq,
{
}

/// A step by no frame is a seek to the clock, within the video.
pub proof fn a_step_by_nothing_seeks_to_the_clock(p: PlayerModel)
    requires
        p.shared.state.duration_us > 0,
        p.step_in_range(0),
    ensures
        ({
            let clock = p.shared.audio_clock_us;
            let latest = p.shared.state.duration_us - (if p.shared.state.frame_interval_us < 1_000 {
                1_000
            } else {
                p.shared.state.frame_interval_us as int
            });
            &&& p.step(0) matches Step::SeekForward { target_us } && {
                &&& 0 <= clock <= latest ==> target_us == clock
                &&& clock < 0 ==> target_us == 0
                &&& clock > latest ==> target_us == latest
            }
        }),
{
    assert(p.step_interval() * 0 == 0) by (nonlinear_arith);
}

/// Which steps can be computed, with `n` frames at the front that are not after the
/// one on display: all in a video without a length, all to a frame that waits, and
/// those others whose times an `i64` holds, forward only where the video has room
/// for one frame.
pub proof fn most_steps_can_be_computed(p: PlayerModel, delta: i32, n: int)
    requires
        0 <= n <= p.shared.queue.len(),
        forall|i: int|
            0 <= i < n ==> (#[trigger] p.shared.queue[i]).pts_us <= p.last_uploaded_pts_us,
        n < p.shared.queue.len() ==> p.shared.queue[n].pts_us > p.last_uploaded_pts_us,
    ensures
        p.step_in_range(delta) <==> {
            let q = p.shared.queue;
            let clock = p.shared.audio_clock_us;
            let interval = if p.shared.state.frame_interval_us < 1_000 {
                1_000
            } else {
                p.shared.state.frame_interval_us as int
            };
            let wide = if interval < 16_000 {
                16_000
            } else {
                interval
            };
            let back = wide * (-delta) * 4;
            let waiting = q.len() - n;
            let ahead = interval * (delta - waiting);
            ||| p.shared.state.duration_us <= 0
            ||| delta < 0 && delta > i32::MIN && back <= i64::MAX && clock - back >= i64::MIN
            ||| 0 < delta <= waiting
            ||| delta == 0 && interval <= p.shared.state.duration_us
            ||| delta > 0 && interval <= p.shared.state.duration_us && ahead <= i64::MAX && ahead
                + (if waiting > 0 {
                q.last().pts_us
            } else {
                clock
            }) <= i64::MAX
        },
{
    leading_below_unique(p.shared.queue, p.last_uploaded_pts_us + 1, n as nat);
    assert(p.step_interval() * 0 == 0) by (nonlinear_arith);
}

/// Which readings of the clock are in range: all, where the clock does not follow
/// real time; else those that are not before its origin, and not so far behind it
/// that the time does not fit.
pub proof fn most_times_are_in_range(p: PlayerModel, now_us: i64)
    ensures
        p.shared.state.has_audio || p.no_audio_clock_origin is None ==> p.time_in_range(now_us),
        !p.shared.state.has_audio ==> (p.no_audio_clock_origin matches Some(origin) ==> (
        p.time_in_range(now_us) <==> 0 <= now_us - origin <= i64::MAX && p.no_audio_clock_base_us + (
        now_us - origin) <= i64::MAX)),
{
}

/// A player is well formed exactly if each frame that waits can be uploaded.
pub proof fn waiting_frames_can_be_uploaded(p: PlayerModel)
    ensures
        p.wf() <==> forall|i: int|
            0 <= i < p.shared.queue.len() ==> (
            #[trigger] p.shared.queue[i]).payload.fits_texture(),
{
}

/// The tolerances and the deadlines of the display side.
pub proof fn deadlines_of_the_display()
    ensures
        TICK_TOLERANCE_US == 15_000,
        MIN_FRAME_INTERVAL_US == 1_000,
        MIN_BACK_INTERVAL_US == 16_000,
        BACK_STEP_FACTOR == 4,
        SEEK_HANDOFF_MS == 30,
        BACK_STEP_DEADLINE_MS == 800,
        OPEN_DEADLINE_MS == 5_000,
{
}

} // verus!
