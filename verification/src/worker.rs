//! The decisions of the threads that decode packets: what is stale after a
//! seek, which frames are dropped, and how a decoded frame becomes one that
//! waits to be shown.

use crate::demuxer::{seek_begun, started_over};
use crate::frames::{VideoFrame, VideoFramePayload, WORKER_QUEUE_CAP};
use crate::pixels::{pack_rows, packed, rows_fit};
use crate::shared::{Shared, SharedModel};
use vstd::prelude::*;

verus! {

/// How often a worker that waits for room in the queue looks before it goes on
/// without.
pub const PARK_LOOKS: u32 = 400;

/// How long to wait between two looks.
pub const PARK_SLEEP_MS: u64 = 5;

/// Frames wider than this are scaled down to it.
pub const MAX_OUT_WIDTH: u32 = 1920;

/// The pixel format of a decoded frame.
#[derive(Clone, Copy, PartialEq, Eq, Debug, Structural)]
pub enum PixelFormat {
    Nv12,
    /// A surface on the graphics card.
    D3d11,
    Yuv420p10Le,
    Yuv420p10Be,
    Yuv422p10Le,
    Yuv422p10Be,
    Yuv444p10Le,
    Yuv444p10Be,
    Yuv420p12Le,
    Yuv420p12Be,
    Yuv422p12Le,
    Yuv422p12Be,
    Yuv444p12Le,
    Yuv444p12Be,
    Yuv420p16Le,
    Yuv420p16Be,
    Yuv422p16Le,
    Yuv422p16Be,
    Yuv444p16Le,
    Yuv444p16Be,
    P010Le,
    P010Be,
    P016Le,
    P016Be,
    /// Any other format, by its number.
    Other(i32),
}

/// The format has more than eight bits per sample.
pub open spec fn high_bit_depth(format: PixelFormat) -> bool {
    !(format is Nv12 || format is D3d11 || format is Other)
}

/// The format has more than eight bits per sample.
pub fn is_high_bit_depth_format(format: PixelFormat) -> (r: bool)
    ensures
        r == high_bit_depth(format),
{
    match format {
        PixelFormat::Nv12 | PixelFormat::D3d11 | PixelFormat::Other(_) => false,
        _ => true,
    }
}

/// The format to decode to, of those that a decoder offers: surfaces on the
/// graphics card if it has them, else the first.
pub fn choose_hw_format(offered: &[PixelFormat]) -> (r: Option<PixelFormat>)
    ensures
        r == (if offered@.contains(PixelFormat::D3d11) {
            Some(PixelFormat::D3d11)
        } else if offered@.len() > 0 {
            Some(offered@[0])
        } else {
            None
        }),
{
    let len: usize = offered.len();
    let mut i: usize = 0;
    while i < len
        invariant
            len == offered@.len(),
            i <= len,
            forall|j: int| 0 <= j < i ==> offered@[j] != PixelFormat::D3d11,
        decreases len - i,
    {
        if offered[i] == PixelFormat::D3d11 {
            assert(offered@[i as int] == PixelFormat::D3d11);
            return Some(PixelFormat::D3d11);
        }
        i = i + 1;
    }
    if len > 0 {
        Some(offered[0])
    } else {
        None
    }
}

/// What reaches a decoding thread.
#[derive(Clone, Copy, PartialEq, Eq, Debug, Structural)]
pub enum Message {
    /// A packet, with the number of flushes there had been when it was read.
    Packet(u64),
    Flush,
}

/// What a decoding thread does about a message.
#[derive(Clone, Copy, PartialEq, Eq, Debug, Structural)]
pub struct Intake {
    /// First flush the decoder.
    pub flush: bool,
    /// Decode the packet.
    pub decode: bool,
}

/// What to do about a message when the flushes seen number `seen` and those
/// there have been number `flush_seq`.
pub open spec fn intake(seen: u64, flush_seq: u64, message: Message) -> Intake {
    Intake {
        flush: seen != flush_seq || message is Flush,
        decode: message == Message::Packet(flush_seq),
    }
}

/// What to do with a frame that the decoder gives out.
#[derive(Clone, Copy, PartialEq, Eq, Debug, Structural)]
pub enum FrameAction {
    /// A seek came: drop the frame and leave the decoder.
    Leave,
    /// The frame is from before a flush: drop it.
    Stale,
    /// The frame is before the seek target: drop it.
    BeforeTarget,
    /// Copy the frame from the graphics card, then convert the copy.
    Download,
    Convert,
}

/// What a scaler was made for.
#[derive(Clone, Copy, PartialEq, Eq, Debug, Structural)]
pub struct ScalerConfig {
    pub format: PixelFormat,
    pub width: u32,
    pub height: u32,
    pub sixteen_bit: bool,
}

/// How a frame is brought into a form that can be shown.
#[derive(Clone, Copy, PartialEq, Eq, Debug, Structural)]
pub enum Conversion {
    /// Its planes are taken as they are.
    Planes,
    /// It goes through a scaler, made anew where `rebuild` says so.
    Scale { config: ScalerConfig, rebuild: bool, bytes_per_pixel: usize, cap_width: bool },
}

/// What came of putting a frame into the queue.
#[derive(Clone, Copy, PartialEq, Eq, Debug, Structural)]
pub enum Push {
    /// The frame is in the queue: ask for one repaint, and `wait` for room
    /// before the next.
    Landed { wait: bool },
    /// The frame is dropped.
    GivenUp,
}

impl FrameAction {
    /// The frame is to be shown, once it was converted.
    pub open spec fn keeps(self) -> bool {
        self is Convert || self is Download
    }
}

/// The shared state with a flush carried out by the video thread.
pub open spec fn flushed(s: SharedModel) -> SharedModel {
    SharedModel { queue: Seq::empty(), flush_pending: false, ..s }
}

/// The shared state with a frame put into the queue.
pub open spec fn frame_queued(s: SharedModel, frame: VideoFrame) -> SharedModel {
    SharedModel {
        queue: s.queue.push(frame),
        post_seek_frames_pushed: s.post_seek_frames_pushed.wrapping_add(1),
        ..s
    }
}

/// The shared state once a frame has landed, or was given up.
pub open spec fn after_push(s: SharedModel, push: Push, frame: VideoFrame) -> SharedModel {
    if push is Landed {
        frame_queued(s, frame)
    } else {
        s
    }
}

/// The decoding thread for video.
#[derive(Clone, Copy, PartialEq, Eq, Debug, Structural)]
pub struct VideoWorker {
    /// The number of flushes carried out.
    pub last_flush_seq: u64,
    pub scaler: Option<ScalerConfig>,
}

impl VideoWorker {
    pub fn new() -> (r: VideoWorker)
        ensures
            r == (VideoWorker { last_flush_seq: 0, scaler: None }),
    {
        VideoWorker { last_flush_seq: 0, scaler: None }
    }

    /// With the flushes that there have been carried out.
    pub open spec fn received(self, s: SharedModel) -> VideoWorker {
        VideoWorker { last_flush_seq: s.flush_seq, ..self }
    }

    /// Takes in a message. After a flush, and for a message that asks for one,
    /// frames that are waiting are dropped; a packet is decoded only if no
    /// flush came since it was read.
    pub fn receive(&mut self, shared: &mut Shared, message: Message) -> (r: Intake)
        ensures
            r == intake(old(self).last_flush_seq, old(shared)@.flush_seq, message),
            *final(self) == old(self).received(old(shared)@),
            final(shared)@ == (if r.flush {
                flushed(old(shared)@)
            } else {
                old(shared)@
            }),
            old(shared)@.wf() ==> final(shared)@.wf(),
    {
        let mut flush = false;
        if shared.flush_seq != self.last_flush_seq {
            self.last_flush_seq = shared.flush_seq;
            flush = true;
        }
        let decode = match message {
            Message::Flush => {
                flush = true;
                false
            },
            Message::Packet(tag) => tag == self.last_flush_seq,
        };
        if flush {
            shared.video_queue.clear();
            shared.flush_pending = false;
        }
        Intake { flush, decode }
    }

    /// What to do with a decoded frame of the given format and time.
    pub open spec fn action_for(
        self,
        s: SharedModel,
        format: PixelFormat,
        pts_us: i64,
    ) -> FrameAction {
        if s.flush_seq != self.last_flush_seq {
            FrameAction::Leave
        } else if s.flush_pending {
            FrameAction::Stale
        } else if pts_us < s.min_display_pts_us {
            FrameAction::BeforeTarget
        } else if format == PixelFormat::D3d11 {
            FrameAction::Download
        } else {
            FrameAction::Convert
        }
    }

    /// What to do with a decoded frame of the given format and time.
    pub fn frame_action(&self, shared: &Shared, format: PixelFormat, pts_us: i64) -> (r:
        FrameAction)
        ensures
            r == self.action_for(shared@, format, pts_us),
    {
        if shared.flush_seq != self.last_flush_seq {
            FrameAction::Leave
        } else if shared.flush_pending {
            FrameAction::Stale
        } else if pts_us < shared.min_display_pts_us {
            FrameAction::BeforeTarget
        } else if format == PixelFormat::D3d11 {
            FrameAction::Download
        } else {
            FrameAction::Convert
        }
    }

    /// How a frame of this format and size is converted; `deep_color` says
    /// that sixteen bits per channel can be shown.
    pub open spec fn conversion_for(
        self,
        format: PixelFormat,
        width: u32,
        height: u32,
        deep_color: bool,
    ) -> Conversion {
        if format == PixelFormat::Nv12 {
            Conversion::Planes
        } else {
            let sixteen_bit = deep_color && high_bit_depth(format);
            let config = ScalerConfig { format, width, height, sixteen_bit };
            Conversion::Scale {
                config,
                rebuild: self.scaler != Some(config),
                bytes_per_pixel: pixel_bytes(sixteen_bit) as usize,
                cap_width: width > MAX_OUT_WIDTH,
            }
        }
    }

    /// How a frame of this format and size is converted.
    pub fn conversion(
        &self,
        format: PixelFormat,
        width: u32,
        height: u32,
        deep_color: bool,
    ) -> (r: Conversion)
        ensures
            r == self.conversion_for(format, width, height, deep_color),
    {
        if format == PixelFormat::Nv12 {
            return Conversion::Planes;
        }
        let sixteen_bit = deep_color && is_high_bit_depth_format(format);
        let config = ScalerConfig { format, width, height, sixteen_bit };
        let rebuild = match self.scaler {
            Some(had) => had != config,
            None => true,
        };
        Conversion::Scale {
            config,
            rebuild,
            bytes_per_pixel: if sixteen_bit {
                8
            } else {
                4
            },
            cap_width: width > MAX_OUT_WIDTH,
        }
    }

    /// A scaler was made.
    pub fn scaler_built(&mut self, config: ScalerConfig)
        ensures
            *final(self) == (VideoWorker { scaler: Some(config), ..*old(self) }),
    {
        self.scaler = Some(config);
    }

    /// What comes of putting a frame into the queue.
    pub open spec fn push_for(self, s: SharedModel) -> Push {
        if s.stopping || s.flush_seq != self.last_flush_seq {
            Push::GivenUp
        } else {
            Push::Landed { wait: s.queue.len() + 1 >= WORKER_QUEUE_CAP }
        }
    }

    /// Puts a frame into the queue, however many are waiting, so that after a
    /// seek there always is one to show; only then it says whether to wait for
    /// room. The frame is dropped when the player stops and when a seek came.
    pub fn push_with_cap(&self, shared: &mut Shared, frame: VideoFrame) -> (r: Push)
        requires
            old(shared)@.wf(),
            frame.payload.fits_texture(),
        ensures
            r == self.push_for(old(shared)@),
            final(shared)@ == after_push(old(shared)@, r, frame),
            final(shared)@.wf(),
    {
        if shared.stopping {
            return Push::GivenUp;
        }
        if shared.flush_seq != self.last_flush_seq {
            return Push::GivenUp;
        }
        shared.video_queue.push_back(frame);
        shared.post_seek_frames_pushed = shared.post_seek_frames_pushed.wrapping_add(1);
        Push::Landed { wait: shared.video_queue.len() >= WORKER_QUEUE_CAP }
    }

    /// What comes of a frame, given what was said of its packet and of itself.
    pub open spec fn land_for(self, s: SharedModel, intake: Intake, action: FrameAction) -> Push {
        if intake.decode && action.keeps() {
            self.push_for(s)
        } else {
            Push::GivenUp
        }
    }

    /// Puts a decoded frame into the queue, if its packet was to be decoded and
    /// the frame was to be shown.
    pub fn land(
        &self,
        shared: &mut Shared,
        intake: Intake,
        action: FrameAction,
        frame: VideoFrame,
    ) -> (r: Push)
        requires
            old(shared)@.wf(),
            frame.payload.fits_texture(),
        ensures
            r == self.land_for(old(shared)@, intake, action),
            final(shared)@ == after_push(old(shared)@, r, frame),
            final(shared)@.wf(),
    {
        let keep = match action {
            FrameAction::Convert | FrameAction::Download => true,
            _ => false,
        };
        if intake.decode && keep {
            self.push_with_cap(shared, frame)
        } else {
            Push::GivenUp
        }
    }

    /// The shared state after the frames of one packet, each with what was said
    /// of it.
    pub open spec fn after_frames(
        self,
        s: SharedModel,
        intake: Intake,
        frames: Seq<(FrameAction, VideoFrame)>,
    ) -> SharedModel
        decreases frames.len(),
    {
        if frames.len() == 0 {
            s
        } else {
            let before = self.after_frames(s, intake, frames.drop_last());
            let (action, frame) = frames.last();
            after_push(before, self.land_for(before, intake, action), frame)
        }
    }

    /// Those of the frames of one packet that land.
    pub open spec fn landed(
        self,
        s: SharedModel,
        intake: Intake,
        frames: Seq<(FrameAction, VideoFrame)>,
    ) -> Seq<VideoFrame>
        decreases frames.len(),
    {
        if frames.len() == 0 {
            Seq::empty()
        } else {
            let before = self.after_frames(s, intake, frames.drop_last());
            let (action, frame) = frames.last();
            if self.land_for(before, intake, action) is Landed {
                self.landed(s, intake, frames.drop_last()).push(frame)
            } else {
                self.landed(s, intake, frames.drop_last())
            }
        }
    }

    /// After a frame has landed and `looks` looks: the worker still has to wait
    /// for room. It goes on at once when the player stops or a seek came.
    pub open spec fn parked_at(self, s: SharedModel, looks: u32) -> bool {
        &&& looks < PARK_LOOKS
        &&& !s.stopping
        &&& s.flush_seq == self.last_flush_seq
        &&& s.queue.len() >= WORKER_QUEUE_CAP
    }

    /// Whether to go on waiting for room, after so many looks.
    pub fn still_parked(&self, shared: &Shared, looks: u32) -> (r: bool)
        ensures
            r == self.parked_at(shared@, looks),
    {
        looks < PARK_LOOKS && !shared.stopping && shared.flush_seq == self.last_flush_seq
            && shared.video_queue.len() >= WORKER_QUEUE_CAP
    }
}

/// The frame made of the two planes of a decoded one: as many rows of luma as
/// the frame has, and half as many, rounded up, of chroma; each row `width`
/// bytes long.
pub fn frame_of_planes(
    pts_us: i64,
    width: u32,
    height: u32,
    y: &[u8],
    y_stride: usize,
    uv: &[u8],
    uv_stride: usize,
) -> (r: VideoFrame)
    requires
        width * height <= usize::MAX,
        rows_fit(y@.len(), y_stride as nat, width as nat, height as nat),
        rows_fit(uv@.len(), uv_stride as nat, width as nat, ((height + 1) / 2) as nat),
    ensures
        r.pts_us == pts_us,
        match r.payload {
            VideoFramePayload::Nv12 { width: w, height: h, y_plane, uv_plane } => {
                &&& w == width
                &&& h == height
                &&& y_plane@ == packed(y@, y_stride as nat, width as nat, height as nat)
                &&& uv_plane@ == packed(
                    uv@,
                    uv_stride as nat,
                    width as nat,
                    ((height + 1) / 2) as nat,
                )
            },
            _ => false,
        },
{
    let uv_height: u32 = height / 2 + height % 2;
    assert(width * uv_height <= width * height) by (nonlinear_arith)
        requires
            uv_height <= height,
    ;
    let y_plane = pack_rows(y, y_stride, width as usize, height as usize);
    let uv_plane = pack_rows(uv, uv_stride, width as usize, uv_height as usize);
    VideoFrame { pts_us, payload: VideoFramePayload::Nv12 { width, height, y_plane, uv_plane } }
}

/// Bytes per pixel with sixteen or eight bits per channel.
pub open spec fn pixel_bytes(sixteen_bit: bool) -> int {
    if sixteen_bit {
        8
    } else {
        4
    }
}

/// The frame made of the rows that a scaler gave out.
pub fn frame_of_pixels(
    pts_us: i64,
    width: u32,
    height: u32,
    sixteen_bit: bool,
    src: &[u8],
    stride: usize,
) -> (r: VideoFrame)
    requires
        width * pixel_bytes(sixteen_bit) <= usize::MAX,
        (width * pixel_bytes(sixteen_bit)) * height <= usize::MAX,
        rows_fit(
            src@.len(),
            stride as nat,
            (width * pixel_bytes(sixteen_bit)) as nat,
            height as nat,
        ),
    ensures
        r.pts_us == pts_us,
        match r.payload {
            VideoFramePayload::Rgba16Unorm { width: w, height: h, bytes } => {
                &&& sixteen_bit
                &&& w == width
                &&& h == height
                &&& bytes@ == packed(src@, stride as nat, (width * 8) as nat, height as nat)
            },
            VideoFramePayload::Rgba8Srgb { width: w, height: h, pixels } => {
                &&& !sixteen_bit
                &&& w == width
                &&& h == height
                &&& pixels@ == packed(src@, stride as nat, (width * 4) as nat, height as nat)
            },
            _ => false,
        },
{
    let row: usize = if sixteen_bit {
        width as usize * 8
    } else {
        width as usize * 4
    };
    let bytes = pack_rows(src, stride, row, height as usize);
    let payload = if sixteen_bit {
        VideoFramePayload::Rgba16Unorm { width, height, bytes }
    } else {
        VideoFramePayload::Rgba8Srgb { width, height, pixels: bytes }
    };
    VideoFrame { pts_us, payload }
}

/// The decoding thread for audio.
#[derive(Clone, Copy, PartialEq, Eq, Debug, Structural)]
pub struct AudioWorker {
    /// The number of flushes carried out.
    pub last_flush_seq: u64,
}

impl AudioWorker {
    pub fn new() -> (r: AudioWorker)
        ensures
            r == (AudioWorker { last_flush_seq: 0 }),
    {
        AudioWorker { last_flush_seq: 0 }
    }

    /// Takes in a message: a packet is decoded only if no flush came since it
    /// was read.
    pub fn receive(&mut self, shared: &Shared, message: Message) -> (r: Intake)
        ensures
            r == intake(old(self).last_flush_seq, shared@.flush_seq, message),
            *final(self) == (AudioWorker { last_flush_seq: shared@.flush_seq }),
    {
        let mut flush = false;
        if shared.flush_seq != self.last_flush_seq {
            self.last_flush_seq = shared.flush_seq;
            flush = true;
        }
        match message {
            Message::Flush => Intake { flush: true, decode: false },
            Message::Packet(tag) => Intake { flush, decode: tag == self.last_flush_seq },
        }
    }
}

/// A packet read before a seek, or before a looping video started over, is not
/// decoded after it, and the decoder is flushed before anything else is.
pub proof fn packets_from_before_a_flush_are_stale(s: SharedModel, target_us: i64)
    ensures
        intake(s.flush_seq, seek_begun(s, target_us).flush_seq, Message::Packet(s.flush_seq)) == (
        Intake { flush: true, decode: false }),
        intake(s.flush_seq, started_over(s).flush_seq, Message::Packet(s.flush_seq)) == (Intake {
            flush: true,
            decode: false,
        }),
{
}

/// Once a flush was carried out, packets read since are decoded without another.
pub proof fn packets_from_after_a_flush_are_decoded(s: SharedModel)
    ensures
        intake(s.flush_seq, s.flush_seq, Message::Packet(s.flush_seq)) == (Intake {
            flush: false,
            decode: true,
        }),
{
}

/// A frame enters the queue only if no flush came since its packet was read and,
/// when the decoder gave it out, no flush was pending and it was not before the
/// seek target; and then it does, unless the player stops or a seek came since.
/// It is then the last one waiting and one more that was pushed; any other frame
/// changes nothing. The shared state may be another at each of the three steps.
pub proof fn frames_land_only_if_all_agree(
    w: VideoWorker,
    at_receipt: SharedModel,
    message: Message,
    at_check: SharedModel,
    format: PixelFormat,
    frame: VideoFrame,
    at_push: SharedModel,
)
    ensures
        ({
            let worker = w.received(at_receipt);
            let taken = intake(w.last_flush_seq, at_receipt.flush_seq, message);
            let action = worker.action_for(at_check, format, frame.pts_us);
            let push = worker.land_for(at_push, taken, action);
            let after = after_push(at_push, push, frame);
            &&& push is Landed <==> {
                &&& message == Message::Packet(at_push.flush_seq)
                &&& at_receipt.flush_seq == at_push.flush_seq
                &&& at_check.flush_seq == at_push.flush_seq
                &&& !at_check.flush_pending
                &&& frame.pts_us >= at_check.min_display_pts_us
                &&& !at_push.stopping
            }
            &&& push is Landed ==> {
                &&& after.queue == at_push.queue.push(frame)
                &&& after.post_seek_frames_pushed == (if at_push.post_seek_frames_pushed
                    < u32::MAX {
                    at_push.post_seek_frames_pushed + 1
                } else {
                    0
                })
            }
            &&& !(push is Landed) ==> after == at_push
        }),
{
}

/// The frames of one packet that land are those that are added to the queue, in
/// their order, and the count of frames pushed grows by how many they are, up to
/// where it starts again at zero.
pub proof fn every_landed_frame_is_counted(
    w: VideoWorker,
    s: SharedModel,
    intake: Intake,
    frames: Seq<(FrameAction, VideoFrame)>,
)
    ensures
        w.after_frames(s, intake, frames).queue == s.queue + w.landed(s, intake, frames),
        w.after_frames(s, intake, frames).post_seek_frames_pushed == (s.post_seek_frames_pushed
            + w.landed(s, intake, frames).len()) % 0x1_0000_0000,
        w.landed(s, intake, frames).len() <= frames.len(),
        !intake.decode ==> w.landed(s, intake, frames).len() == 0,
    decreases frames.len(),
{
    if frames.len() > 0 {
        every_landed_frame_is_counted(w, s, intake, frames.drop_last());
    } else {
        assert(s.queue + Seq::empty() =~= s.queue);
    }
}

/// Where a look finds that there is no need to wait for room, the next frame
/// leaves the queue within its cap.
pub proof fn waiting_for_room_keeps_the_cap(
    w: VideoWorker,
    s: SharedModel,
    looks: u32,
    frame: VideoFrame,
)
    requires
        looks < PARK_LOOKS,
        !s.stopping,
        s.flush_seq == w.last_flush_seq,
        !w.parked_at(s, looks),
    ensures
        frame_queued(s, frame).queue.len() <= WORKER_QUEUE_CAP,
{
}

/// After a seek, and however full the queue, a frame that lands is the last one
/// waiting and counts as pushed.
pub proof fn a_landed_frame_is_there(s: SharedModel, frame: VideoFrame)
    ensures
        frame_queued(s, frame).queue.last() == frame,
        frame_queued(s, frame).queue.drop_last() == s.queue,
        s.post_seek_frames_pushed == 0 ==> frame_queued(s, frame).post_seek_frames_pushed == 1,
{
    assert(s.queue.push(frame).drop_last() =~= s.queue);
}

/// Between a seek and the flush that follows it no frame is converted, and
/// never one from before the target.
pub proof fn no_frame_slips_past_a_seek(
    w: VideoWorker,
    s: SharedModel,
    target_us: i64,
    format: PixelFormat,
    pts_us: i64,
)
    ensures
        w.action_for(seek_begun(s, target_us), format, pts_us) is Leave || w.action_for(
            seek_begun(s, target_us),
            format,
            pts_us,
        ) is Stale,
        pts_us < target_us ==> {
            let action = w.action_for(flushed(seek_begun(s, target_us)), format, pts_us);
            action is Leave || action is BeforeTarget
        },
{
}

/// A packet is decoded exactly if no flush came since it was read. The decoder is
/// flushed first where a flush came since the last message, and for a message that
/// asks for it.
pub proof fn stale_packets_are_not_decoded(seen: u64, flush_seq: u64, tag: u64)
    ensures
        intake(seen, flush_seq, Message::Packet(tag)).decode <==> tag == flush_seq,
        intake(seen, flush_seq, Message::Packet(tag)).flush <==> seen != flush_seq,
        !intake(seen, flush_seq, Message::Flush).decode,
        intake(seen, flush_seq, Message::Flush).flush,
{
}

/// A worker that took in a message has carried out all flushes, and its scaler is
/// as it was. A flush it carries out drops the waiting frames and is then no longer
/// pending; nothing else changes.
pub proof fn flushes_drop_what_waits(w: VideoWorker, s: SharedModel)
    ensures
        w.received(s).last_flush_seq == s.flush_seq,
        w.received(s).scaler == w.scaler,
        flushed(s).queue.len() == 0,
        !flushed(s).flush_pending,
        flushed(s).flush_seq == s.flush_seq,
        flushed(s).min_display_pts_us == s.min_display_pts_us,
        flushed(s).post_seek_frames_pushed == s.post_seek_frames_pushed,
        flushed(s).audio_clock_us == s.audio_clock_us,
        flushed(s).clock_frozen == s.clock_frozen,
        flushed(s).state == s.state,
        flushed(s).audio_drain_flag == s.audio_drain_flag,
        flushed(s).volume_bits == s.volume_bits,
        flushed(s).stopping == s.stopping,
{
}

/// A frame is left with its decoder where a seek came, dropped while a flush is
/// pending, and dropped if it is before the seek target; any other is shown, and
/// copied from the graphics card first where it lies there.
pub proof fn frames_are_dropped_for_a_reason(
    w: VideoWorker,
    s: SharedModel,
    format: PixelFormat,
    pts_us: i64,
)
    ensures
        ({
            let action = w.action_for(s, format, pts_us);
            let current = s.flush_seq == w.last_flush_seq;
            let shown = current && !s.flush_pending && pts_us >= s.min_display_pts_us;
            &&& action is Leave <==> !current
            &&& action is Stale <==> current && s.flush_pending
            &&& action is BeforeTarget <==> current && !s.flush_pending && pts_us
                < s.min_display_pts_us
            &&& action is Download <==> shown && format is D3d11
            &&& action is Convert <==> shown && !(format is D3d11)
            &&& action.keeps() <==> shown
        }),
{
}

/// A frame that lands is behind those that wait, and counted; nothing else changes.
pub proof fn landing_adds_one_frame(s: SharedModel, frame: VideoFrame, push: Push)
    ensures
        ({
            let l = frame_queued(s, frame);
            &&& l.queue == s.queue.push(frame)
            &&& s.post_seek_frames_pushed < u32::MAX ==> l.post_seek_frames_pushed
                == s.post_seek_frames_pushed + 1
            &&& l.state == s.state
            &&& l.audio_clock_us == s.audio_clock_us
            &&& l.clock_frozen == s.clock_frozen
            &&& l.min_display_pts_us == s.min_display_pts_us
            &&& l.flush_pending == s.flush_pending
            &&& l.flush_seq == s.flush_seq
            &&& l.audio_drain_flag == s.audio_drain_flag
            &&& l.volume_bits == s.volume_bits
            &&& l.stopping == s.stopping
            &&& push is Landed ==> after_push(s, push, frame) == l
            &&& push is GivenUp ==> after_push(s, push, frame) == s
        }),
{
}

/// A frame lands unless the player stops or a seek came, however many frames wait;
/// the worker is to wait once sixteen do. It then waits as long as so many do, for
/// four hundred looks at most, and no longer when the player stops or a seek comes.
pub proof fn a_full_queue_parks_the_worker(w: VideoWorker, s: SharedModel, looks: u32)
    ensures
        w.push_for(s) is Landed <==> !s.stopping && s.flush_seq == w.last_flush_seq,
        w.push_for(s) matches Push::Landed { wait } ==> (wait <==> s.queue.len() + 1 >= 16),
        w.parked_at(s, looks) <==> looks < 400 && !s.stopping && s.flush_seq == w.last_flush_seq
            && s.queue.len() >= 16,
{
}

/// Luma and chroma are taken as they are; every other format goes through a scaler.
/// That is made anew exactly where the one there was made for another format, size
/// or depth. Sixteen bits per channel are kept exactly where the format has more
/// than eight and they can be shown, with twice the bytes per pixel. A frame wider
/// than 1920 is scaled down.
pub proof fn frames_are_converted_for_their_format(
    w: VideoWorker,
    format: PixelFormat,
    width: u32,
    height: u32,
    deep_color: bool,
)
    ensures
        w.conversion_for(format, width, height, deep_color) is Planes <==> format is Nv12,
        w.conversion_for(format, width, height, deep_color) matches Conversion::Scale {
            config,
            rebuild,
            bytes_per_pixel,
            cap_width,
        } ==> {
            &&& config.format == format && config.width == width && config.height == height
            &&& config.sixteen_bit <==> deep_color && !(format is D3d11) && !(format is Other)
            &&& config.sixteen_bit ==> bytes_per_pixel == 8 && pixel_bytes(config.sixteen_bit) == 8
            &&& !config.sixteen_bit ==> bytes_per_pixel == 4 && pixel_bytes(config.sixteen_bit)
                == 4
            &&& rebuild <==> !(w.scaler matches Some(had) && had.format == format && had.width
                == width && had.height == height && had.sixteen_bit == config.sixteen_bit)
            &&& cap_width <==> width > 1920
        },
{
}

/// A format has more than eight bits per sample unless it is luma and chroma of
/// eight, a surface on the graphics card, or one that is not known.
pub proof fn deep_formats_are_those_known(format: PixelFormat)
    ensures
        high_bit_depth(format) <==> !(format is Nv12) && !(format is D3d11) && !(format is Other),
{
}

/// A frame whose packet was not to be decoded, or which was not to be shown, is given
/// up; any other is put into the queue like one that nothing was said of, and says
/// in the same way whether to wait.
pub proof fn landing_asks_what_was_said(
    w: VideoWorker,
    s: SharedModel,
    intake: Intake,
    action: FrameAction,
)
    ensures
        !intake.decode ==> w.land_for(s, intake, action) is GivenUp,
        action is Leave || action is Stale || action is BeforeTarget ==> w.land_for(
            s,
            intake,
            action,
        ) is GivenUp,
        intake.decode && (action is Download || action is Convert) ==> w.land_for(
            s,
            intake,
            action,
        ) == w.push_for(s),
{
}

/// The limits and the waits of the decoding side.
pub proof fn limits_of_the_worker()
    ensures
        PARK_LOOKS == 400,
        PARK_SLEEP_MS == 5,
        MAX_OUT_WIDTH == 1920,
{
}

} // verus!
