//! The display side of the video player: which decoded frame is shown when,
//! and what play, pause, seek and single steps change.
//!
//! Times are microseconds. `now_us` is a reading of one monotonic clock, taken
//! by the caller.

use crate::frames::{count_below, drop_front, first_kept, last_from, last_from_is_in_range,
    leading_below, leading_below_is_the_longest, leading_below_unique, pop_below, pop_due,
    VideoFrame};
use crate::shared::{loading, Command, PlayerState, Shared, SharedModel};
use crate::texture::{cache_after, upload_of, TextureCache, Upload};
use std::collections::VecDeque;
use vstd::prelude::*;

verus! {

/// A frame this much ahead of the clock counts as due.
pub const TICK_TOLERANCE_US: i64 = 15_000;

/// No frame interval is taken to be shorter than this.
pub const MIN_FRAME_INTERVAL_US: i64 = 1_000;

/// A step back assumes frames at least this far apart.
pub const MIN_BACK_INTERVAL_US: i64 = 16_000;

/// A step back seeks this many frames back per frame asked for.
pub const BACK_STEP_FACTOR: i64 = 4;

/// How long `seek` may wait for the decoding side to take the request.
pub const SEEK_HANDOFF_MS: u64 = 30;

/// How long a step back may wait for an earlier frame.
pub const BACK_STEP_DEADLINE_MS: u64 = 800;

/// How long opening a file may take.
pub const OPEN_DEADLINE_MS: u64 = 5_000;

pub struct Player {
    pub shared: Shared,
    /// Requests that the decoding side has not taken yet, oldest first.
    pub commands: VecDeque<Command>,
    pub texture: TextureCache,
    /// The player has a GPU of its own to upload to.
    pub gpu: bool,
    pub intrinsic_size: (u32, u32),
    pub last_uploaded_pts_us: i64,
    /// Without audio the clock follows real time: since this moment...
    pub no_audio_clock_origin: Option<i64>,
    /// ...at which it stood here.
    pub no_audio_clock_base_us: i64,
    pub playing_cached: bool,
}

/// `Player` with its queues as sequences.
#[verifier::ext_equal]
pub struct PlayerModel {
    pub shared: SharedModel,
    pub commands: Seq<Command>,
    pub texture: TextureCache,
    pub gpu: bool,
    pub intrinsic_size: (u32, u32),
    pub last_uploaded_pts_us: i64,
    pub no_audio_clock_origin: Option<i64>,
    pub no_audio_clock_base_us: i64,
    pub playing_cached: bool,
}

impl View for Player {
    type V = PlayerModel;

    open spec fn view(&self) -> PlayerModel {
        PlayerModel {
            shared: self.shared@,
            commands: self.commands@,
            texture: self.texture,
            gpu: self.gpu,
            intrinsic_size: self.intrinsic_size,
            last_uploaded_pts_us: self.last_uploaded_pts_us,
            no_audio_clock_origin: self.no_audio_clock_origin,
            no_audio_clock_base_us: self.no_audio_clock_base_us,
            playing_cached: self.playing_cached,
        }
    }
}

/// Whether opening the file is over, and how it went.
pub enum OpenStatus {
    Ready,
    Failed(String),
    TimedOut,
    Waiting,
}

/// What a request to step by some frames comes to.
pub enum Step {
    Nothing,
    /// The frame was buffered: upload it.
    Show(Upload),
    /// Seek to this time.
    SeekForward { target_us: i64 },
    /// Seek to this time, then show the last frame before `before_us` that
    /// gets decoded.
    SeekBackward { target_us: i64, before_us: i64 },
}

/// Division that rounds toward zero.
pub open spec fn div_toward_zero(a: int, b: int) -> int {
    if a >= 0 {
        a / b
    } else {
        -((-a) / b)
    }
}

/// `v` brought into the range from `lo` to `hi`.
pub open spec fn clamped(v: int, lo: int, hi: int) -> int {
    if v < lo {
        lo
    } else if v > hi {
        hi
    } else {
        v
    }
}

impl PlayerModel {
    pub open spec fn wf(self) -> bool {
        self.shared.wf()
    }

    /// The clock follows real time at present.
    pub open spec fn follows_wall_clock(self) -> bool {
        !self.shared.state.has_audio && self.no_audio_clock_origin is Some
    }

    /// Where the clock stands at `now_us` if it follows real time.
    pub open spec fn wall_clock_us(self, now_us: i64) -> int {
        self.no_audio_clock_base_us + (now_us - self.no_audio_clock_origin->0)
    }

    /// The reading is not before the origin of the clock, and time has not run
    /// past what an `i64` holds.
    pub open spec fn time_in_range(self, now_us: i64) -> bool {
        self.follows_wall_clock() ==> {
            &&& self.no_audio_clock_origin->0 <= now_us
            &&& now_us - self.no_audio_clock_origin->0 <= i64::MAX
            &&& self.wall_clock_us(now_us) <= i64::MAX
        }
    }

    /// With the clock brought forward to `now_us`, where it follows real time.
    pub open spec fn advanced(self, now_us: i64) -> PlayerModel {
        if self.follows_wall_clock() && self.playing_cached {
            PlayerModel {
                shared: SharedModel {
                    audio_clock_us: self.wall_clock_us(now_us) as i64,
                    ..self.shared
                },
                ..self
            }
        } else {
            self
        }
    }

    /// The player after `play` at `now_us`.
    pub open spec fn playing_from(self, now_us: i64) -> PlayerModel {
        PlayerModel {
            commands: self.commands.push(Command::Play),
            playing_cached: true,
            no_audio_clock_origin: if self.shared.state.has_audio {
                self.no_audio_clock_origin
            } else {
                Some(now_us)
            },
            no_audio_clock_base_us: if self.shared.state.has_audio {
                self.no_audio_clock_base_us
            } else {
                self.shared.audio_clock_us
            },
            ..self
        }
    }

    /// The player after `pause` at `now_us`.
    pub open spec fn paused_at(self, now_us: i64) -> PlayerModel {
        let stopped = PlayerModel {
            commands: self.commands.push(Command::Pause),
            playing_cached: false,
            ..self
        };
        if self.follows_wall_clock() {
            PlayerModel {
                shared: SharedModel {
                    audio_clock_us: self.wall_clock_us(now_us) as i64,
                    ..self.shared
                },
                no_audio_clock_origin: None,
                ..stopped
            }
        } else {
            stopped
        }
    }

    /// With other frames waiting.
    pub open spec fn with_queue(self, queue: Seq<VideoFrame>) -> PlayerModel {
        PlayerModel { shared: SharedModel { queue, ..self.shared }, ..self }
    }

    /// How many waiting frames a tick takes off the queue, the one that it
    /// shows included.
    pub open spec fn tick_takes(self) -> int {
        let q = self.shared.queue;
        let min = self.shared.min_display_pts_us;
        if !self.playing_cached && !self.shared.clock_frozen {
            0
        } else if self.shared.clock_frozen {
            let n = leading_below(q, min as int);
            if n < q.len() {
                n as int + 1
            } else {
                n as int
            }
        } else {
            leading_below(
                q,
                first_kept(min, (self.shared.audio_clock_us + TICK_TOLERANCE_US) as i64),
            ) as int
        }
    }

    /// The frame that a tick picks. While the clock is frozen: the first that
    /// is not before the seek target. While playing: the newest that is due,
    /// and not before the seek target.
    pub open spec fn tick_picks(self) -> Option<VideoFrame> {
        let q = self.shared.queue;
        let min = self.shared.min_display_pts_us;
        if !self.playing_cached && !self.shared.clock_frozen {
            None
        } else if self.shared.clock_frozen {
            let n = leading_below(q, min as int);
            if n < q.len() {
                Some(q[n as int])
            } else {
                None
            }
        } else {
            last_from(q.take(self.tick_takes()), min as int)
        }
    }

    /// With the clock set to the frame that ends a freeze.
    pub open spec fn thawed(self, pts_us: i64, now_us: i64) -> PlayerModel {
        if self.shared.clock_frozen {
            let resume = !self.shared.state.has_audio && self.playing_cached;
            PlayerModel {
                shared: SharedModel {
                    audio_clock_us: pts_us,
                    clock_frozen: false,
                    ..self.shared
                },
                no_audio_clock_origin: if resume {
                    Some(now_us)
                } else {
                    self.no_audio_clock_origin
                },
                no_audio_clock_base_us: if resume {
                    pts_us
                } else {
                    self.no_audio_clock_base_us
                },
                ..self
            }
        } else {
            self
        }
    }

    /// The upload that shows `frame`.
    pub open spec fn upload_for(self, frame: VideoFrame) -> Upload {
        upload_of(self.texture, self.gpu, frame.payload)
    }

    /// With `frame` on display.
    pub open spec fn showing(self, frame: VideoFrame) -> PlayerModel {
        PlayerModel {
            intrinsic_size: frame.payload.spec_size(),
            texture: cache_after(self.texture, self.upload_for(frame)),
            last_uploaded_pts_us: frame.pts_us,
            ..self
        }
    }

    /// The player after a tick at `now_us`. A frame that is on display already
    /// is not shown again, but ends a freeze like any other.
    pub open spec fn ticked(self, now_us: i64) -> PlayerModel {
        let a = self.advanced(now_us);
        let b = a.with_queue(a.shared.queue.skip(a.tick_takes()));
        match a.tick_picks() {
            Some(frame) => {
                let landed = b.thawed(frame.pts_us, now_us);
                if frame.pts_us == self.last_uploaded_pts_us {
                    landed
                } else {
                    landed.showing(frame)
                }
            },
            None => b,
        }
    }

    /// The upload that a tick at `now_us` asks for.
    pub open spec fn tick_upload(self, now_us: i64) -> Upload {
        match self.advanced(now_us).tick_picks() {
            Some(frame) if frame.pts_us != self.last_uploaded_pts_us => self.upload_for(frame),
            _ => Upload::Nothing,
        }
    }

    /// The player right after a seek was asked for.
    pub open spec fn seeking(self, fraction_bits: u32) -> PlayerModel {
        PlayerModel {
            shared: SharedModel {
                min_display_pts_us: i64::MAX,
                queue: Seq::empty(),
                clock_frozen: true,
                ..self.shared
            },
            commands: self.commands.push(Command::Seek(fraction_bits)),
            ..self
        }
    }

    /// The time between frames that steps go by.
    pub open spec fn step_interval(self) -> int {
        if self.shared.state.frame_interval_us < MIN_FRAME_INTERVAL_US {
            MIN_FRAME_INTERVAL_US as int
        } else {
            self.shared.state.frame_interval_us as int
        }
    }

    /// How many waiting frames are not after the one on display.
    pub open spec fn shown_already(self) -> nat {
        leading_below(self.shared.queue, self.last_uploaded_pts_us + 1)
    }

    /// How many waiting frames are left for steps forward.
    pub open spec fn waiting(self) -> int {
        self.shared.queue.len() - self.shown_already()
    }

    /// A step forward by `delta` frames ends at a frame that is waiting.
    pub open spec fn step_is_buffered(self, delta: i32) -> bool {
        0 < delta <= self.waiting()
    }

    /// How far ahead a step forward that needs a seek goes beyond the frames
    /// that are waiting.
    pub open spec fn forward_distance(self, delta: i32) -> int {
        self.step_interval() * (if delta > 0 {
            delta - self.waiting()
        } else {
            delta as int
        })
    }

    /// Where a step forward that needs a seek ends: past the last frame that is
    /// waiting, or past the clock where none is.
    pub open spec fn forward_target(self, delta: i32) -> int {
        self.forward_distance(delta) + (if delta > 0 && self.waiting() > 0 {
            self.shared.queue.last().pts_us
        } else {
            self.shared.audio_clock_us
        })
    }

    /// How far back a step by `delta < 0` frames seeks.
    pub open spec fn back_distance(self, delta: i32) -> int {
        let interval = if self.step_interval() < MIN_BACK_INTERVAL_US {
            MIN_BACK_INTERVAL_US as int
        } else {
            self.step_interval()
        };
        interval * -delta * BACK_STEP_FACTOR
    }

    /// The step can be computed: its times are `i64` values, and a step that
    /// seeks forward finds room for one frame in the file.
    pub open spec fn step_in_range(self, delta: i32) -> bool {
        self.shared.state.duration_us > 0 ==> {
            &&& delta < 0 ==> {
                &&& delta > i32::MIN
                &&& self.back_distance(delta) <= i64::MAX
                &&& self.shared.audio_clock_us - self.back_distance(delta) >= i64::MIN
            }
            &&& delta >= 0 && !self.step_is_buffered(delta) ==> {
                &&& self.step_interval() <= self.shared.state.duration_us
                &&& self.forward_distance(delta) <= i64::MAX
                &&& self.forward_target(delta) <= i64::MAX
            }
        }
    }

    /// What stepping by `delta` frames comes to.
    pub open spec fn step(self, delta: i32) -> Step {
        if self.shared.state.duration_us <= 0 {
            Step::Nothing
        } else if self.step_is_buffered(delta) {
            Step::Show(self.upload_for(self.shared.queue[self.shown_already() + delta - 1]))
        } else if delta < 0 {
            let target = self.shared.audio_clock_us - self.back_distance(delta);
            Step::SeekBackward {
                target_us: (if target < 0 {
                    0
                } else {
                    target
                }) as i64,
                before_us: self.shared.audio_clock_us,
            }
        } else {
            Step::SeekForward {
                target_us: clamped(
                    self.forward_target(delta),
                    0,
                    self.shared.state.duration_us - self.step_interval(),
                ) as i64,
            }
        }
    }

    /// With `frame` on display outside of playback: the clock stands at it.
    pub open spec fn displayed(self, frame: VideoFrame) -> PlayerModel {
        let s = self.showing(frame);
        PlayerModel {
            shared: SharedModel {
                audio_clock_us: frame.pts_us,
                clock_frozen: false,
                ..s.shared
            },
            ..s
        }
    }

    /// The player after a step by `delta` frames.
    pub open spec fn stepped(self, delta: i32) -> PlayerModel {
        if self.shared.state.duration_us <= 0 || delta <= 0 {
            self
        } else {
            let n = self.shown_already() as int;
            if self.step_is_buffered(delta) {
                self.with_queue(self.shared.queue.skip(n + delta)).displayed(
                    self.shared.queue[n + delta - 1],
                )
            } else {
                self.with_queue(self.shared.queue.skip(n))
            }
        }
    }

    /// The frame that ends a step back past `before_us`, if it is there: the
    /// last of the frames at the front that are before that time.
    pub open spec fn back_frame(self, before_us: i64) -> Option<VideoFrame> {
        let n = leading_below(self.shared.queue, before_us as int);
        if n == 0 {
            None
        } else {
            Some(self.shared.queue[n - 1])
        }
    }

    /// The player after looking for the frame that ends a step back.
    pub open spec fn stepped_back(self, before_us: i64) -> PlayerModel {
        let n = leading_below(self.shared.queue, before_us as int) as int;
        match self.back_frame(before_us) {
            Some(frame) => self.with_queue(self.shared.queue.skip(n)).displayed(frame),
            None => self,
        }
    }
}

/// A player whose file is still being opened.
pub open spec fn fresh_player(gpu: bool) -> PlayerModel {
    PlayerModel {
        shared: loading(),
        commands: Seq::empty(),
        texture: TextureCache {
            managed: None,
            flat: None,
            planes: None,
            last_upload_was_nv12: false,
        },
        gpu,
        intrinsic_size: (0, 0),
        last_uploaded_pts_us: i64::MIN,
        no_audio_clock_origin: None,
        no_audio_clock_base_us: 0,
        playing_cached: false,
    }
}

fn millis(us: i64) -> (r: i64)
    ensures
        r == div_toward_zero(us as int, 1000),
{
    us / 1000
}

impl Player {
    /// A player whose file is still being opened.
    pub fn new(gpu: bool) -> (r: Player)
        ensures
            r@ == fresh_player(gpu),
            r@.wf(),
    {
        Player {
            shared: Shared::new(),
            commands: VecDeque::new(),
            texture: TextureCache::new(),
            gpu,
            intrinsic_size: (0, 0),
            last_uploaded_pts_us: i64::MIN,
            no_audio_clock_origin: None,
            no_audio_clock_base_us: 0,
            playing_cached: false,
        }
    }

    /// Whether opening is over, `waited_ms` after it began: it is once the
    /// state is no longer `Loading`, and has failed if an error was noted.
    pub fn open_status(&self, waited_ms: u64) -> (r: OpenStatus)
        ensures
            match r {
                OpenStatus::Ready => self@.shared.state.player_state != PlayerState::Loading
                    && self@.shared.state.error is None,
                OpenStatus::Failed(e) => self@.shared.state.player_state != PlayerState::Loading
                    && self@.shared.state.error == Some(e),
                OpenStatus::TimedOut => self@.shared.state.player_state == PlayerState::Loading
                    && waited_ms > OPEN_DEADLINE_MS,
                OpenStatus::Waiting => self@.shared.state.player_state == PlayerState::Loading
                    && waited_ms <= OPEN_DEADLINE_MS,
            },
    {
        if self.shared.state.player_state != PlayerState::Loading {
            match &self.shared.state.error {
                Some(e) => OpenStatus::Failed(e.clone()),
                None => OpenStatus::Ready,
            }
        } else if waited_ms > OPEN_DEADLINE_MS {
            OpenStatus::TimedOut
        } else {
            OpenStatus::Waiting
        }
    }

    /// Where there is no audio, the clock follows real time from `now_us` on.
    pub fn play(&mut self, now_us: i64)
        ensures
            final(self)@ == old(self)@.playing_from(now_us),
    {
        self.commands.push_back(Command::Play);
        self.playing_cached = true;
        if !self.shared.state.has_audio {
            self.no_audio_clock_origin = Some(now_us);
            self.no_audio_clock_base_us = self.shared.audio_clock_us;
        }
    }

    /// Where the clock follows real time, it stops where it stands at `now_us`.
    pub fn pause(&mut self, now_us: i64)
        requires
            old(self)@.time_in_range(now_us),
        ensures
            final(self)@ == old(self)@.paused_at(now_us),
    {
        self.commands.push_back(Command::Pause);
        self.playing_cached = false;
        if !self.shared.state.has_audio {
            if let Some(origin) = self.no_audio_clock_origin {
                self.no_audio_clock_origin = None;
                self.shared.audio_clock_us = self.no_audio_clock_base_us + (now_us - origin);
            }
        }
    }

    /// Asks for a seek to a fraction of the duration, given by the bits of an
    /// `f32` from 0.0 to 1.0, and shuts the display until it is under way: what
    /// was buffered is gone, and nothing may be shown before the decoding side
    /// has set the target.
    pub fn seek(&mut self, fraction_bits: u32)
        ensures
            final(self)@ == old(self)@.seeking(fraction_bits),
    {
        self.shared.min_display_pts_us = i64::MAX;
        self.shared.video_queue.clear();
        self.shared.clock_frozen = true;
        self.commands.push_back(Command::Seek(fraction_bits));
    }

    /// The decoding side has taken the latest seek.
    pub fn seek_taken(&self) -> (r: bool)
        ensures
            r == (self@.shared.min_display_pts_us != i64::MAX),
    {
        self.shared.min_display_pts_us != i64::MAX
    }

    /// After a seek without audio the clock goes on from the target.
    pub fn finish_seek(&mut self, target_us: i64, now_us: i64)
        ensures
            final(self)@ == (if old(self)@.shared.state.has_audio {
                old(self)@
            } else {
                PlayerModel {
                    shared: SharedModel { audio_clock_us: target_us, ..old(self)@.shared },
                    no_audio_clock_origin: if old(self)@.playing_cached {
                        Some(now_us)
                    } else {
                        None
                    },
                    no_audio_clock_base_us: target_us,
                    ..old(self)@
                }
            }),
    {
        if !self.shared.state.has_audio {
            self.shared.audio_clock_us = target_us;
            self.no_audio_clock_origin = if self.playing_cached {
                Some(now_us)
            } else {
                None
            };
            self.no_audio_clock_base_us = target_us;
        }
    }

    /// Sets the volume: the bits of an `f32` from 0.0 to 1.0.
    pub fn set_volume(&mut self, volume_bits: u32)
        ensures
            final(self)@ == (PlayerModel {
                shared: SharedModel { volume_bits, ..old(self)@.shared },
                ..old(self)@
            }),
    {
        self.shared.volume_bits = volume_bits;
    }

    pub fn set_looping(&mut self, looping: bool)
        ensures
            final(self)@ == (PlayerModel {
                commands: old(self)@.commands.push(Command::SetLooping(looping)),
                ..old(self)@
            }),
    {
        self.commands.push_back(Command::SetLooping(looping));
    }

    /// The player goes away: asks the decoding side to end.
    pub fn stop(&mut self)
        ensures
            final(self)@ == (PlayerModel {
                shared: SharedModel { stopping: true, ..old(self)@.shared },
                commands: old(self)@.commands.push(Command::Stop),
                ..old(self)@
            }),
    {
        self.shared.stopping = true;
        self.commands.push_back(Command::Stop);
    }

    pub fn state(&self) -> (r: PlayerState)
        ensures
            r == self@.shared.state.player_state,
    {
        self.shared.state.player_state
    }

    pub fn duration_ms(&self) -> (r: i64)
        ensures
            r == div_toward_zero(self@.shared.state.duration_us as int, 1000),
    {
        millis(self.shared.state.duration_us)
    }

    pub fn elapsed_ms(&self) -> (r: i64)
        ensures
            r == div_toward_zero(self@.shared.audio_clock_us as int, 1000),
    {
        millis(self.shared.audio_clock_us)
    }

    /// Average time between two frames, at least a millisecond.
    pub fn frame_interval_us(&self) -> (r: i64)
        ensures
            r == self@.step_interval(),
    {
        if self.shared.state.frame_interval_us < MIN_FRAME_INTERVAL_US {
            MIN_FRAME_INTERVAL_US
        } else {
            self.shared.state.frame_interval_us
        }
    }

    /// Width and height of the video, as the decoder reported them.
    pub fn size(&self) -> (r: (u32, u32))
        ensures
            r == (self@.shared.state.width, self@.shared.state.height),
    {
        (self.shared.state.width, self.shared.state.height)
    }

    pub fn has_audio(&self) -> (r: bool)
        ensures
            r == self@.shared.state.has_audio,
    {
        self.shared.state.has_audio
    }

    /// A seek is under way and its first frame has not been shown yet.
    pub fn is_seeking(&self) -> (r: bool)
        ensures
            r == self@.shared.clock_frozen,
    {
        self.shared.clock_frozen
    }

    pub fn error(&self) -> (r: Option<String>)
        ensures
            r == self@.shared.state.error,
    {
        match &self.shared.state.error {
            Some(e) => Some(e.clone()),
            None => None,
        }
    }

    /// Time of the frame on display; `i64::MIN` before the first.
    pub fn uploaded_pts_us_for_test(&self) -> (r: i64)
        ensures
            r == self@.last_uploaded_pts_us,
    {
        self.last_uploaded_pts_us
    }

    /// The frame on display is in the luma and chroma textures.
    pub fn is_nv12_path(&self) -> (r: bool)
        ensures
            r == self@.texture.last_upload_was_nv12,
    {
        self.texture.last_upload_was_nv12
    }

    /// Width and height of the frame on display.
    pub fn intrinsic_size(&self) -> (r: (u32, u32))
        ensures
            r == self@.intrinsic_size,
    {
        self.intrinsic_size
    }

    fn show(&mut self, frame: VideoFrame) -> (r: Upload)
        requires
            frame.payload.fits_texture(),
        ensures
            r == old(self)@.upload_for(frame),
            final(self)@ == old(self)@.showing(frame),
    {
        self.intrinsic_size = frame.payload.size();
        self.last_uploaded_pts_us = frame.pts_us;
        self.texture.upload(self.gpu, frame.payload)
    }

    /// Puts a frame on display outside of playback; the clock then stands at
    /// it.
    fn display_frame(&mut self, frame: VideoFrame) -> (r: Upload)
        requires
            frame.payload.fits_texture(),
        ensures
            r == old(self)@.upload_for(frame),
            final(self)@ == old(self)@.displayed(frame),
    {
        let pts_us: i64 = frame.pts_us;
        let upload = self.show(frame);
        self.shared.audio_clock_us = pts_us;
        self.shared.clock_frozen = false;
        upload
    }

    /// Called once per pass of the GUI. Brings the clock forward where it
    /// follows real time, and shows the frame that is due, if there is one.
    pub fn tick(&mut self, now_us: i64) -> (r: Upload)
        requires
            old(self)@.wf(),
            old(self)@.time_in_range(now_us),
            old(self)@.advanced(now_us).shared.audio_clock_us + TICK_TOLERANCE_US <= i64::MAX,
        ensures
            final(self)@ == old(self)@.ticked(now_us),
            r == old(self)@.tick_upload(now_us),
            final(self)@.wf(),
    {
        if !self.shared.state.has_audio && self.playing_cached {
            if let Some(origin) = self.no_audio_clock_origin {
                self.shared.audio_clock_us = self.no_audio_clock_base_us + (now_us - origin);
            }
        }
        let ghost a = self@;
        let frozen = self.shared.clock_frozen;
        let min_pts: i64 = self.shared.min_display_pts_us;
        if !self.playing_cached && !frozen {
            proof {
                assert(a.shared.queue.skip(0) =~= a.shared.queue);
            }
            return Upload::Nothing;
        }
        let ghost q = a.shared.queue;
        let best: Option<VideoFrame> = if frozen {
            let _ = pop_below(&mut self.shared.video_queue, min_pts);
            let picked = self.shared.video_queue.pop_front();
            proof {
                leading_below_is_the_longest(q, min_pts as int);
                let n = leading_below(q, min_pts as int) as int;
                if n < q.len() {
                    assert(q.skip(n)[0] == q[n]);
                    assert(self.shared.video_queue@ =~= q.skip(n + 1));
                } else {
                    assert(q.skip(n).len() == 0);
                }
            }
            picked
        } else {
            let last_due: i64 = self.shared.audio_clock_us + TICK_TOLERANCE_US;
            proof {
                leading_below_is_the_longest(q, first_kept(min_pts, last_due));
                last_from_is_in_range(
                    q.take(leading_below(q, first_kept(min_pts, last_due)) as int),
                    min_pts as int,
                );
            }
            pop_due(&mut self.shared.video_queue, min_pts, last_due)
        };
        assert(self@ == a.with_queue(q.skip(a.tick_takes())));
        assert(best == a.tick_picks());
        match best {
            Some(frame) => {
                assert(q.contains(frame));
                if frozen {
                    self.shared.audio_clock_us = frame.pts_us;
                    self.shared.clock_frozen = false;
                    if !self.shared.state.has_audio && self.playing_cached {
                        self.no_audio_clock_origin = Some(now_us);
                        self.no_audio_clock_base_us = frame.pts_us;
                    }
                }
                if frame.pts_us == self.last_uploaded_pts_us {
                    return Upload::Nothing;
                }
                self.show(frame)
            },
            None => Upload::Nothing,
        }
    }

    /// Whether a step by `delta` frames can be computed.
    pub fn can_step(&self, delta: i32) -> (r: bool)
        ensures
            r == self@.step_in_range(delta),
    {
        let duration_us: i64 = self.shared.state.duration_us;
        if duration_us <= 0 {
            return true;
        }
        let interval: i64 = self.frame_interval_us();
        let clock_us: i64 = self.shared.audio_clock_us;
        if delta < 0 {
            if delta == i32::MIN {
                return false;
            }
            let wide: i64 = if interval < MIN_BACK_INTERVAL_US {
                MIN_BACK_INTERVAL_US
            } else {
                interval
            };
            let frames: i128 = -(delta as i128);
            assert(0 <= wide * frames <= wide * frames * BACK_STEP_FACTOR <= 0x7fff_ffff_ffff_ffff
                * 0x8000_0000 * 4) by (nonlinear_arith)
                requires
                    0 <= wide <= 0x7fff_ffff_ffff_ffff,
                    0 <= frames <= 0x8000_0000,
                    BACK_STEP_FACTOR == 4,
            ;
            assert(wide * frames == wide * -delta);
            let back: i128 = wide as i128 * frames * BACK_STEP_FACTOR as i128;
            return back <= i64::MAX as i128 && clock_us as i128 - back >= i64::MIN as i128;
        }
        let shown: usize = self.shown_count();
        let waiting: usize = self.shared.video_queue.len() - shown;
        if delta > 0 && delta as usize <= waiting {
            return true;
        }
        let (base_us, frames): (i64, i128) = if delta > 0 && waiting > 0 {
            let last: usize = self.shared.video_queue.len() - 1;
            (self.shared.video_queue[last].pts_us, delta as i128 - waiting as i128)
        } else {
            (clock_us, delta as i128)
        };
        assert(0 <= interval * frames <= 0x7fff_ffff_ffff_ffff * 0x8000_0000) by (nonlinear_arith)
            requires
                0 <= interval <= 0x7fff_ffff_ffff_ffff,
                0 <= frames <= 0x8000_0000,
        ;
        let ahead: i128 = interval as i128 * frames;
        interval <= duration_us && ahead <= i64::MAX as i128 && base_us as i128 + ahead
            <= i64::MAX as i128
    }

    /// How many waiting frames are not after the one on display.
    fn shown_count(&self) -> (n: usize)
        ensures
            n == self@.shown_already(),
            n <= self@.shared.queue.len(),
    {
        let cutoff: i64 = self.last_uploaded_pts_us;
        proof {
            leading_below_is_the_longest(self@.shared.queue, cutoff + 1);
        }
        if cutoff < i64::MAX {
            return count_below(&self.shared.video_queue, cutoff + 1);
        }
        proof {
            leading_below_unique(
                self@.shared.queue,
                cutoff + 1,
                self@.shared.queue.len(),
            );
        }
        self.shared.video_queue.len()
    }

    /// Steps by `delta` frames. A step forward shows the frame that is so many
    /// after the one on display, where it is waiting; where it is not, and for a
    /// step back, it names the seek that leads there.
    pub fn step_frames(&mut self, delta: i32) -> (r: Step)
        requires
            old(self)@.wf(),
            old(self)@.step_in_range(delta),
        ensures
            r == old(self)@.step(delta),
            final(self)@ == old(self)@.stepped(delta),
            final(self)@.wf(),
    {
        let duration_us: i64 = self.shared.state.duration_us;
        if duration_us <= 0 {
            return Step::Nothing;
        }
        let ghost q = self@.shared.queue;
        let mut base_us: i64 = self.shared.audio_clock_us;
        let mut frames: i64 = delta as i64;
        if delta > 0 {
            let shown: usize = self.shown_count();
            let waiting: usize = self.shared.video_queue.len() - shown;
            if delta as usize <= waiting {
                let taken: usize = shown + (delta as usize - 1);
                drop_front(&mut self.shared.video_queue, taken);
                assert(self.shared.video_queue@[0] == q[taken as int]);
                if let Some(frame) = self.shared.video_queue.pop_front() {
                    assert(self.shared.video_queue@ =~= q.skip(shown + delta));
                    return Step::Show(self.display_frame(frame));
                }
            }
            if waiting > 0 {
                base_us = self.shared.video_queue[self.shared.video_queue.len() - 1].pts_us;
                frames = delta as i64 - waiting as i64;
            }
            drop_front(&mut self.shared.video_queue, shown);
        }
        let interval: i64 = self.frame_interval_us();
        let current_us: i64 = self.shared.audio_clock_us;
        if delta < 0 {
            let wide: i64 = if interval < MIN_BACK_INTERVAL_US {
                MIN_BACK_INTERVAL_US
            } else {
                interval
            };
            let frames: i64 = -(delta as i64);
            assert(0 <= wide * frames <= wide * frames * BACK_STEP_FACTOR) by (nonlinear_arith)
                requires
                    wide >= 0,
                    frames >= 0,
                    BACK_STEP_FACTOR == 4,
            ;
            assert(wide * frames == wide * -delta);
            let back: i64 = wide * frames * BACK_STEP_FACTOR;
            let target: i64 = current_us - back;
            return Step::SeekBackward {
                target_us: if target < 0 {
                    0
                } else {
                    target
                },
                before_us: current_us,
            };
        }
        assert(0 <= interval * frames) by (nonlinear_arith)
            requires
                interval >= 0,
                frames >= 0,
        ;
        let target: i64 = base_us + interval * frames;
        let latest: i64 = duration_us - interval;
        Step::SeekForward {
            target_us: if target < 0 {
                0
            } else if target > latest {
                latest
            } else {
                target
            },
        }
    }

    /// Looks, after the seek of a step back, for the frame to show: the last
    /// one waiting that is before `before_us`.
    pub fn finish_step_back(&mut self, before_us: i64) -> (r: Option<Upload>)
        requires
            old(self)@.wf(),
        ensures
            r == (match old(self)@.back_frame(before_us) {
                Some(frame) => Some(old(self)@.upload_for(frame)),
                None => None,
            }),
            final(self)@ == old(self)@.stepped_back(before_us),
            final(self)@.wf(),
    {
        let ghost q = self@.shared.queue;
        proof {
            leading_below_is_the_longest(q, before_us as int);
            assert(q.skip(0) =~= q);
        }
        match pop_below(&mut self.shared.video_queue, before_us) {
            Some(frame) => Some(self.display_frame(frame)),
            None => None,
        }
    }
}

} // verus!
