//! The state that the display side of a player and its decoding side share.

use crate::frames::VideoFrame;
use std::collections::VecDeque;
use vstd::prelude::*;

verus! {

/// Frame interval assumed while the true one is not known.
pub const DEFAULT_FRAME_INTERVAL_US: i64 = 33_333;

/// The bits of the `f32` value 1.0.
pub const FULL_VOLUME_BITS: u32 = 0x3f80_0000;

#[derive(Clone, Copy, PartialEq, Eq, Debug, Structural)]
pub enum PlayerState {
    Loading,
    Playing,
    Paused,
    EndOfFile,
    Error,
}

/// What the display side asks of the decoding side.
#[derive(Clone, Copy, PartialEq, Eq, Debug, Structural)]
pub enum Command {
    Play,
    Pause,
    /// Seek to a fraction of the duration, given by the bits of an `f32`.
    Seek(u32),
    SetLooping(bool),
    Stop,
}

/// What is known of the open file, and what the player is doing with it.
pub struct SharedState {
    pub player_state: PlayerState,
    pub duration_us: i64,
    pub width: u32,
    pub height: u32,
    pub has_audio: bool,
    /// Average time between two frames, from the stream's frame rate.
    pub frame_interval_us: i64,
    pub error: Option<String>,
}

pub struct Shared {
    pub state: SharedState,
    pub video_queue: VecDeque<VideoFrame>,
    /// Master playback clock in microseconds.
    pub audio_clock_us: i64,
    /// Volume as the bits of an `f32` from 0.0 to 1.0.
    pub volume_bits: u32,
    /// The clock stands still until the first frame after a seek is shown.
    pub clock_frozen: bool,
    /// The audio output is to throw away what is buffered.
    pub audio_drain_flag: bool,
    /// A seek was begun and the video worker has not flushed its decoder yet.
    pub flush_pending: bool,
    /// No frame before this time may be shown.
    pub min_display_pts_us: i64,
    /// Frames queued since the last seek.
    pub post_seek_frames_pushed: u32,
    /// The player is going away.
    pub stopping: bool,
    /// Counts the flushes: a packet read before the latest one is stale.
    pub flush_seq: u64,
}

/// `Shared` with its queue as a sequence.
#[verifier::ext_equal]
pub struct SharedModel {
    pub state: SharedState,
    pub queue: Seq<VideoFrame>,
    pub audio_clock_us: i64,
    pub volume_bits: u32,
    pub clock_frozen: bool,
    pub audio_drain_flag: bool,
    pub flush_pending: bool,
    pub min_display_pts_us: i64,
    pub post_seek_frames_pushed: u32,
    pub stopping: bool,
    pub flush_seq: u64,
}

impl View for Shared {
    type V = SharedModel;

    open spec fn view(&self) -> SharedModel {
        SharedModel {
            state: self.state,
            queue: self.video_queue@,
            audio_clock_us: self.audio_clock_us,
            volume_bits: self.volume_bits,
            clock_frozen: self.clock_frozen,
            audio_drain_flag: self.audio_drain_flag,
            flush_pending: self.flush_pending,
            min_display_pts_us: self.min_display_pts_us,
            post_seek_frames_pushed: self.post_seek_frames_pushed,
            stopping: self.stopping,
            flush_seq: self.flush_seq,
        }
    }
}

impl SharedModel {
    /// Each waiting frame can be uploaded.
    pub open spec fn wf(self) -> bool {
        forall|i: int|
            0 <= i < self.queue.len() ==> (#[trigger] self.queue[i]).payload.fits_texture()
    }
}

/// The state before anything is known of the file.
pub open spec fn loading() -> SharedModel {
    SharedModel {
        state: SharedState {
            player_state: PlayerState::Loading,
            duration_us: 0,
            width: 0,
            height: 0,
            has_audio: false,
            frame_interval_us: DEFAULT_FRAME_INTERVAL_US,
            error: None,
        },
        queue: Seq::empty(),
        audio_clock_us: 0,
        volume_bits: FULL_VOLUME_BITS,
        clock_frozen: false,
        audio_drain_flag: false,
        flush_pending: false,
        min_display_pts_us: i64::MIN,
        post_seek_frames_pushed: 0,
        stopping: false,
        flush_seq: 0,
    }
}

/// The time between two frames at a frame rate of `numerator / denominator`
/// frames per second; the default where the rate is not positive.
pub open spec fn frame_interval_of(numerator: i32, denominator: i32) -> int {
    if denominator > 0 && numerator > 0 {
        1_000_000 * denominator / (numerator as int)
    } else {
        DEFAULT_FRAME_INTERVAL_US as int
    }
}

/// Microseconds from one frame to the next, for a frame rate given as a
/// fraction.
pub fn frame_interval_us(numerator: i32, denominator: i32) -> (r: i64)
    ensures
        r == frame_interval_of(numerator, denominator),
{
    if denominator > 0 && numerator > 0 {
        1_000_000i64 * denominator as i64 / numerator as i64
    } else {
        DEFAULT_FRAME_INTERVAL_US
    }
}

/// Why a video could not be opened.
#[derive(Clone, Copy, PartialEq, Eq, Debug, Structural)]
pub enum OpenFailure {
    Open,
    NoVideo,
    StreamGone,
    VideoCodec,
    VideoDecoder,
    AudioCodec,
    AudioDecoder,
    Resampler,
    Timeout,
}

/// The message for a video that could not be opened.
pub open spec fn open_error_text(failure: OpenFailure, cause: Seq<char>) -> Seq<char> {
    match failure {
        OpenFailure::Open => "open: "@ + cause,
        OpenFailure::NoVideo => "no video stream"@,
        OpenFailure::StreamGone => "stream disappeared"@,
        OpenFailure::VideoCodec => "video codec ctx: "@ + cause,
        OpenFailure::VideoDecoder => "video decoder: "@ + cause,
        OpenFailure::AudioCodec => "audio codec ctx: "@ + cause,
        OpenFailure::AudioDecoder => "audio decoder: "@ + cause,
        OpenFailure::Resampler => "resampler: "@ + cause,
        OpenFailure::Timeout => "timeout waiting for decoder initialization"@,
    }
}

/// The message for a video that could not be opened. A cause is part of it
/// where something else reported one.
pub fn open_error(failure: OpenFailure, cause: &str) -> (r: String)
    ensures
        r@ == open_error_text(failure, cause@),
{
    match failure {
        OpenFailure::Open => "open: ".to_owned().concat(cause),
        OpenFailure::NoVideo => "no video stream".to_owned(),
        OpenFailure::StreamGone => "stream disappeared".to_owned(),
        OpenFailure::VideoCodec => "video codec ctx: ".to_owned().concat(cause),
        OpenFailure::VideoDecoder => "video decoder: ".to_owned().concat(cause),
        OpenFailure::AudioCodec => "audio codec ctx: ".to_owned().concat(cause),
        OpenFailure::AudioDecoder => "audio decoder: ".to_owned().concat(cause),
        OpenFailure::Resampler => "resampler: ".to_owned().concat(cause),
        OpenFailure::Timeout => "timeout waiting for decoder initialization".to_owned(),
    }
}

impl Shared {
    /// The state of a player whose file is still being opened.
    pub fn new() -> (r: Shared)
        ensures
            r@ == loading(),
            r@.wf(),
    {
        Shared {
            state: SharedState {
                player_state: PlayerState::Loading,
                duration_us: 0,
                width: 0,
                height: 0,
                has_audio: false,
                frame_interval_us: DEFAULT_FRAME_INTERVAL_US,
                error: None,
            },
            video_queue: VecDeque::new(),
            audio_clock_us: 0,
            volume_bits: FULL_VOLUME_BITS,
            clock_frozen: false,
            audio_drain_flag: false,
            flush_pending: false,
            min_display_pts_us: i64::MIN,
            post_seek_frames_pushed: 0,
            stopping: false,
            flush_seq: 0,
        }
    }

    /// The file is open: notes what was found and waits, paused.
    pub fn opened(
        &mut self,
        duration_us: i64,
        width: u32,
        height: u32,
        has_audio: bool,
        frame_interval_us: i64,
    )
        ensures
            final(self)@ == (SharedModel {
                state: SharedState {
                    player_state: PlayerState::Paused,
                    duration_us,
                    width,
                    height,
                    has_audio,
                    frame_interval_us,
                    error: old(self)@.state.error,
                },
                ..old(self)@
            }),
    {
        self.state.duration_us = duration_us;
        self.state.width = width;
        self.state.height = height;
        self.state.has_audio = has_audio;
        self.state.frame_interval_us = frame_interval_us;
        self.state.player_state = PlayerState::Paused;
    }

    /// The decoding side has given up.
    pub fn failed(&mut self, error: String)
        ensures
            final(self)@ == (SharedModel {
                state: SharedState {
                    player_state: PlayerState::Error,
                    error: Some(error),
                    ..old(self)@.state
                },
                ..old(self)@
            }),
    {
        self.state.player_state = PlayerState::Error;
        self.state.error = Some(error);
    }
}

/// The time between two frames is the longest whole number of microseconds that so
/// many frames per second leave; where the rate says nothing it is taken to be
/// 33333.
pub proof fn the_interval_fits_the_rate(numerator: i32, denominator: i32)
    ensures
        numerator > 0 && denominator > 0 ==> frame_interval_of(numerator, denominator) * numerator
            <= 1_000_000 * denominator < (frame_interval_of(numerator, denominator) + 1)
            * numerator,
        numerator <= 0 || denominator <= 0 ==> frame_interval_of(numerator, denominator) == 33_333,
{
    if numerator > 0 && denominator > 0 {
        let a = 1_000_000 * denominator;
        let n = numerator as int;
        vstd::arithmetic::div_mod::lemma_fundamental_div_mod(a, n);
        vstd::arithmetic::div_mod::lemma_mod_bound(a, n);
        let q = a / n;
        assert((q + 1) * n == n * q + n && q * n == n * q) by (nonlinear_arith);
    }
}

/// Each message for a video that could not be opened tells what failed, and ends
/// with the cause where something else reported one.
pub proof fn open_errors_name_their_cause(cause: Seq<char>)
    ensures
        open_error_text(OpenFailure::Open, cause) == "open: "@ + cause,
        open_error_text(OpenFailure::NoVideo, cause) == "no video stream"@,
        open_error_text(OpenFailure::StreamGone, cause) == "stream disappeared"@,
        open_error_text(OpenFailure::VideoCodec, cause) == "video codec ctx: "@ + cause,
        open_error_text(OpenFailure::VideoDecoder, cause) == "video decoder: "@ + cause,
        open_error_text(OpenFailure::AudioCodec, cause) == "audio codec ctx: "@ + cause,
        open_error_text(OpenFailure::AudioDecoder, cause) == "audio decoder: "@ + cause,
        open_error_text(OpenFailure::Resampler, cause) == "resampler: "@ + cause,
        open_error_text(OpenFailure::Timeout, cause)
            == "timeout waiting for decoder initialization"@,
{
}

/// Before anything is known of a file, nothing waits, nothing was asked and the
/// clock stands at zero, at full volume.
pub proof fn nothing_is_known_at_first()
    ensures
        ({
            let s = loading();
            &&& s.state.player_state is Loading && s.state.error is None
            &&& s.state.duration_us == 0 && s.state.width == 0 && s.state.height == 0
            &&& !s.state.has_audio && s.state.frame_interval_us == 33_333
            &&& s.queue.len() == 0 && s.audio_clock_us == 0 && s.volume_bits == 0x3f80_0000
            &&& !s.clock_frozen && !s.audio_drain_flag && !s.flush_pending && !s.stopping
            &&& s.min_display_pts_us == i64::MIN
            &&& s.post_seek_frames_pushed == 0 && s.flush_seq == 0
        }),
{
}

} // verus!
