//! The decisions of the thread that reads a video file: which requests it
//! serves, when it reads the next packet and when it waits, where a packet
//! goes, and what happens at the end of the file.

use crate::frames::WORKER_QUEUE_CAP;
use crate::shared::{Command, PlayerState, Shared, SharedModel, SharedState};
use std::collections::VecDeque;
use vstd::prelude::*;

verus! {

/// After a seek, how many packets are read at most before the first frame
/// shows up.
pub const MAX_PRIME_PACKETS: u32 = 600;

/// While paused, reading goes on until this many frames are waiting.
pub const PAUSED_FILL_TARGET: usize = 12;

/// With the clock running, reading stops above this many waiting frames.
pub const QUEUE_HIGH_WATER: usize = 48;

/// Reading stops above this many waiting frames, whatever the clock says.
pub const QUEUE_HARD_CAP: usize = 240;

/// A looping video starts over once the clock is this close to the end.
pub const LOOP_MARGIN_US: i64 = 250_000;

pub const PAUSED_SLEEP_MS: u64 = 10;

pub const EOF_SLEEP_MS: u64 = 30;

pub const BACK_PRESSURE_SLEEP_MS: u64 = 3;

/// How long to wait after a failed read, and between two looks at the clock
/// before starting over.
pub const RETRY_SLEEP_MS: u64 = 10;

/// How long to wait for room in a decoder's channel.
pub const CHANNEL_SLEEP_MS: u64 = 2;

/// Packets that fit in the channel to the video decoder.
pub const VIDEO_CHANNEL_CAP: usize = 8;

/// Packets that fit in the channel to the audio decoder.
pub const AUDIO_CHANNEL_CAP: usize = 16;

#[derive(Clone, Copy, PartialEq, Eq, Debug, Structural)]
pub struct Demuxer {
    pub paused: bool,
    pub looping: bool,
    pub eof: bool,
    /// A seek is under way: packets are read, paused or not, until a frame
    /// from behind the seek is waiting.
    pub priming_after_seek: bool,
    pub prime_packets_read: u32,
    /// The latest seek not served yet, by the bits of its fraction.
    pub pending_seek: Option<u32>,
    /// The latest request to play (`true`) or pause not served yet.
    pub pending_play: Option<bool>,
}

/// What the reading thread does next.
#[derive(Clone, Copy, PartialEq, Eq, Debug, Structural)]
pub enum DemuxStep {
    /// Wait, then look again.
    Sleep(u64),
    ReadPacket,
}

/// What a turn of the reading thread begins with.
#[derive(Clone, Copy, PartialEq, Eq, Debug, Structural)]
pub enum Turn {
    /// End the thread.
    End,
    /// Position the file for a seek, by the bits of its fraction, begin it and
    /// then look what to do.
    Seek(u32),
    Step(DemuxStep),
}

/// What the end of the file leads to.
#[derive(Clone, Copy, PartialEq, Eq, Debug, Structural)]
pub enum EndOfInput {
    /// Wait for playback to catch up, then start over.
    StartOver,
    Ended,
}

/// What the wait before a looping video starts over comes to.
#[derive(Clone, Copy, PartialEq, Eq, Debug, Structural)]
pub enum LoopWait {
    /// Playback has caught up.
    StartOver,
    /// Wait, then look again.
    Wait,
    /// A request came: leave the wait and serve it.
    Serve,
    /// End the thread.
    End,
}

/// Where a packet goes.
#[derive(Clone, Copy, PartialEq, Eq, Debug, Structural)]
pub enum Route {
    Video,
    Audio,
    Nowhere,
}

/// What to do when a decoder's channel is full.
#[derive(Clone, Copy, PartialEq, Eq, Debug, Structural)]
pub enum FullChannel {
    /// Wait, then offer the packet again.
    Retry,
    /// A seek came: the packet is stale.
    DropPacket,
    /// End the thread.
    End,
}

/// The latest seek among `commands`, or `prior` where there is none.
pub open spec fn latest_seek(prior: Option<u32>, commands: Seq<Command>) -> Option<u32>
    decreases commands.len(),
{
    if commands.len() == 0 {
        prior
    } else {
        match commands.last() {
            Command::Seek(f) => Some(f),
            _ => latest_seek(prior, commands.drop_last()),
        }
    }
}

/// The latest request to play or pause among `commands`, or `prior`.
pub open spec fn latest_play(prior: Option<bool>, commands: Seq<Command>) -> Option<bool>
    decreases commands.len(),
{
    if commands.len() == 0 {
        prior
    } else {
        match commands.last() {
            Command::Play => Some(true),
            Command::Pause => Some(false),
            _ => latest_play(prior, commands.drop_last()),
        }
    }
}

/// The latest choice whether to loop among `commands`, or `prior`.
pub open spec fn latest_looping(prior: bool, commands: Seq<Command>) -> bool
    decreases commands.len(),
{
    if commands.len() == 0 {
        prior
    } else {
        match commands.last() {
            Command::SetLooping(l) => l,
            _ => latest_looping(prior, commands.drop_last()),
        }
    }
}

/// How many commands come before the first `Stop`.
pub open spec fn before_stop(commands: Seq<Command>) -> nat
    decreases commands.len(),
{
    if commands.len() == 0 || commands[0] == Command::Stop {
        0
    } else {
        1 + before_stop(commands.skip(1))
    }
}

proof fn before_stop_unique(commands: Seq<Command>, n: nat)
    requires
        n <= commands.len(),
        forall|i: int| 0 <= i < n ==> #[trigger] commands[i] != Command::Stop,
        n < commands.len() ==> commands[n as int] == Command::Stop,
    ensures
        before_stop(commands) == n,
    decreases commands.len(),
{
    if commands.len() > 0 && n > 0 {
        let rest = commands.skip(1);
        assert(commands[0] != Command::Stop);
        assert forall|i: int| 0 <= i < n - 1 implies #[trigger] rest[i] != Command::Stop by {
            assert(rest[i] == commands[i + 1]);
        }
        before_stop_unique(rest, (n - 1) as nat);
    }
}

impl Demuxer {
    /// The counter of packets read after a seek is within its cap.
    pub open spec fn wf(self) -> bool {
        self.prime_packets_read <= MAX_PRIME_PACKETS
    }

    /// A packet may be read now: while priming, the cap is not reached.
    pub open spec fn may_read(self) -> bool {
        self.priming_after_seek ==> self.prime_packets_read < MAX_PRIME_PACKETS
    }

    /// With `commands` taken in: of each kind, the latest counts.
    pub open spec fn absorbed(self, commands: Seq<Command>) -> Demuxer {
        Demuxer {
            pending_seek: latest_seek(self.pending_seek, commands),
            pending_play: latest_play(self.pending_play, commands),
            looping: latest_looping(self.looping, commands),
            ..self
        }
    }

    /// With the pending request to play or pause served.
    pub open spec fn play_served(self) -> Demuxer {
        match self.pending_play {
            Some(play) => Demuxer { paused: !play, eof: false, pending_play: None, ..self },
            None => self,
        }
    }

    /// With priming ended if a frame came, or too many packets were read.
    pub open spec fn priming_checked(self, frames_pushed: u32) -> Demuxer {
        Demuxer {
            priming_after_seek: self.priming_after_seek && frames_pushed == 0
                && self.prime_packets_read < MAX_PRIME_PACKETS,
            ..self
        }
    }

    /// What to do, once requests are served and priming was looked at.
    pub open spec fn step_for(self, queue_len: nat, clock_us: i64) -> DemuxStep {
        if self.paused && !self.priming_after_seek && queue_len >= PAUSED_FILL_TARGET {
            DemuxStep::Sleep(PAUSED_SLEEP_MS)
        } else if self.eof {
            DemuxStep::Sleep(EOF_SLEEP_MS)
        } else if queue_len > QUEUE_HARD_CAP || (queue_len > QUEUE_HIGH_WATER && clock_us > 0) {
            DemuxStep::Sleep(BACK_PRESSURE_SLEEP_MS)
        } else {
            DemuxStep::ReadPacket
        }
    }
}

/// The shared state once a request to play or pause was served.
pub open spec fn play_shown(s: SharedModel, pending_play: Option<bool>) -> SharedModel {
    match pending_play {
        Some(play) if s.state.player_state != PlayerState::Error => SharedModel {
            state: SharedState {
                player_state: if play {
                    PlayerState::Playing
                } else {
                    PlayerState::Paused
                },
                ..s.state
            },
            ..s
        },
        _ => s,
    }
}

/// The shared state once a seek to `target_us` is under way.
pub open spec fn seek_begun(s: SharedModel, target_us: i64) -> SharedModel {
    SharedModel {
        min_display_pts_us: target_us,
        post_seek_frames_pushed: 0,
        flush_pending: true,
        audio_clock_us: target_us,
        clock_frozen: true,
        audio_drain_flag: true,
        flush_seq: s.flush_seq.wrapping_add(1),
        queue: Seq::empty(),
        ..s
    }
}

/// The shared state with the end of the file reached.
pub open spec fn ended(s: SharedModel) -> SharedModel {
    SharedModel {
        state: SharedState { player_state: PlayerState::EndOfFile, ..s.state },
        ..s
    }
}

/// The shared state with a looping video back at its start.
pub open spec fn started_over(s: SharedModel) -> SharedModel {
    SharedModel {
        flush_seq: s.flush_seq.wrapping_add(1),
        queue: Seq::empty(),
        audio_drain_flag: true,
        audio_clock_us: 0,
        min_display_pts_us: 0,
        ..s
    }
}

/// Playback has caught up with the end of the file.
pub open spec fn caught_up(s: SharedModel) -> bool {
    ||| s.state.duration_us <= 0
    ||| s.audio_clock_us >= s.state.duration_us - LOOP_MARGIN_US && s.queue.len() == 0
}

/// What one look comes to, in the wait before a looping video starts over.
pub open spec fn loop_wait_for(s: SharedModel, commands: Seq<Command>) -> LoopWait {
    if caught_up(s) {
        LoopWait::StartOver
    } else if commands.len() == 0 {
        LoopWait::Wait
    } else if commands[0] == Command::Stop {
        LoopWait::End
    } else {
        LoopWait::Serve
    }
}

impl Demuxer {
    /// Paused at the start of the file.
    pub fn new() -> (r: Demuxer)
        ensures
            r == (Demuxer {
                paused: true,
                looping: false,
                eof: false,
                priming_after_seek: false,
                prime_packets_read: 0,
                pending_seek: None,
                pending_play: None,
            }),
            r.wf(),
    {
        Demuxer {
            paused: true,
            looping: false,
            eof: false,
            priming_after_seek: false,
            prime_packets_read: 0,
            pending_seek: None,
            pending_play: None,
        }
    }

    fn absorb(&mut self, command: Command)
        requires
            command != Command::Stop,
        ensures
            *final(self) == old(self).absorbed(seq![command]),
    {
        reveal_with_fuel(latest_seek, 2);
        reveal_with_fuel(latest_play, 2);
        reveal_with_fuel(latest_looping, 2);
        match command {
            Command::Play => {
                self.pending_play = Some(true);
            },
            Command::Pause => {
                self.pending_play = Some(false);
            },
            Command::Seek(f) => {
                self.pending_seek = Some(f);
            },
            Command::SetLooping(l) => {
                self.looping = l;
            },
            Command::Stop => {},
        }
    }

    /// Takes in every request that is waiting, up to a `Stop`; of each kind the
    /// latest counts. The thread is to end at a `Stop`, and when no request is
    /// left and none can come any more.
    pub fn drain_commands(&mut self, commands: &mut VecDeque<Command>, connected: bool) -> (end:
        bool)
        ensures
            *final(self) == old(self).absorbed(
                old(commands)@.take(before_stop(old(commands)@) as int),
            ),
            end == (before_stop(old(commands)@) < old(commands)@.len() || !connected),
            final(commands)@ == (if before_stop(old(commands)@) < old(commands)@.len() {
                old(commands)@.skip(before_stop(old(commands)@) as int + 1)
            } else {
                Seq::empty()
            }),
    {
        let ghost all = commands@;
        let ghost mut n: nat = 0;
        proof {
            assert(all.skip(0) =~= all);
        }
        while commands.len() > 0
            invariant
                all == old(commands)@,
                n <= all.len(),
                commands@ == all.skip(n as int),
                forall|i: int| 0 <= i < n ==> #[trigger] all[i] != Command::Stop,
                *self == old(self).absorbed(all.take(n as int)),
            decreases commands@.len(),
        {
            assert(commands@[0] == all[n as int]);
            if let Some(command) = commands.pop_front() {
                assert(commands@ =~= all.skip(n as int + 1));
                if command == Command::Stop {
                    proof {
                        before_stop_unique(all, n);
                    }
                    return true;
                }
                proof {
                    let taken = all.take(n as int + 1);
                    assert(taken.drop_last() =~= all.take(n as int));
                    reveal_with_fuel(latest_seek, 2);
                    reveal_with_fuel(latest_play, 2);
                    reveal_with_fuel(latest_looping, 2);
                    assert(seq![command].drop_last() =~= Seq::empty());
                    n = n + 1;
                }
                self.absorb(command);
            }
        }
        proof {
            before_stop_unique(all, n);
            assert(commands@ =~= Seq::empty());
        }
        !connected
    }

    /// Serves the pending request to play or pause.
    pub fn serve_play(&mut self, shared: &mut Shared)
        ensures
            *final(self) == old(self).play_served(),
            final(shared)@ == play_shown(old(shared)@, old(self).pending_play),
    {
        if let Some(play) = self.pending_play {
            self.pending_play = None;
            self.paused = !play;
            self.eof = false;
            if shared.state.player_state != PlayerState::Error {
                shared.state.player_state = if play {
                    PlayerState::Playing
                } else {
                    PlayerState::Paused
                };
            }
        }
    }

    /// Takes the pending seek, to be served now.
    pub fn take_seek(&mut self) -> (r: Option<u32>)
        ensures
            r == old(self).pending_seek,
            *final(self) == (Demuxer { pending_seek: None, ..*old(self) }),
    {
        let seek = self.pending_seek;
        self.pending_seek = None;
        seek
    }

    /// The file was positioned at or before `target_us`: sets every gate for
    /// the seek and begins to prime.
    pub fn begin_seek(&mut self, shared: &mut Shared, target_us: i64)
        ensures
            *final(self) == (Demuxer {
                eof: false,
                priming_after_seek: true,
                prime_packets_read: 0,
                ..*old(self)
            }),
            final(self).wf(),
            final(shared)@ == seek_begun(old(shared)@, target_us),
            final(shared)@.wf(),
    {
        shared.min_display_pts_us = target_us;
        shared.post_seek_frames_pushed = 0;
        shared.flush_pending = true;
        shared.audio_clock_us = target_us;
        shared.clock_frozen = true;
        shared.audio_drain_flag = true;
        shared.flush_seq = shared.flush_seq.wrapping_add(1);
        shared.video_queue.clear();
        self.eof = false;
        self.priming_after_seek = true;
        self.prime_packets_read = 0;
    }

    /// Decides whether to read a packet now or to wait.
    pub fn next_step(&mut self, shared: &Shared) -> (r: DemuxStep)
        requires
            old(self).wf(),
        ensures
            *final(self) == old(self).priming_checked(shared@.post_seek_frames_pushed),
            final(self).wf(),
            final(self).may_read(),
            r == final(self).step_for(shared@.queue.len(), shared@.audio_clock_us),
    {
        if self.priming_after_seek {
            if shared.post_seek_frames_pushed > 0 || self.prime_packets_read >= MAX_PRIME_PACKETS {
                self.priming_after_seek = false;
            }
        }
        let waiting: usize = shared.video_queue.len();
        if self.paused && !self.priming_after_seek {
            if waiting >= PAUSED_FILL_TARGET {
                return DemuxStep::Sleep(PAUSED_SLEEP_MS);
            }
        }
        if self.eof {
            return DemuxStep::Sleep(EOF_SLEEP_MS);
        }
        if waiting > QUEUE_HIGH_WATER && shared.audio_clock_us > 0 {
            return DemuxStep::Sleep(BACK_PRESSURE_SLEEP_MS);
        }
        if waiting > QUEUE_HARD_CAP {
            return DemuxStep::Sleep(BACK_PRESSURE_SLEEP_MS);
        }
        DemuxStep::ReadPacket
    }

    /// Begins a turn: takes in what was asked, serves play and pause, and says
    /// whether a seek comes first.
    pub fn turn(
        &mut self,
        shared: &mut Shared,
        commands: &mut VecDeque<Command>,
        connected: bool,
    ) -> (r: Turn)
        requires
            old(self).wf(),
        ensures
            ({
                let taken = old(commands)@.take(before_stop(old(commands)@) as int);
                let asked = old(self).absorbed(taken);
                let served = asked.play_served();
                if before_stop(old(commands)@) < old(commands)@.len() || !connected {
                    &&& r == Turn::End
                    &&& *final(self) == asked
                    &&& final(shared)@ == old(shared)@
                } else {
                    &&& final(shared)@ == play_shown(old(shared)@, asked.pending_play)
                    &&& match served.pending_seek {
                        Some(fraction) => {
                            &&& r == Turn::Seek(fraction)
                            &&& *final(self) == (Demuxer { pending_seek: None, ..served })
                        },
                        None => {
                            &&& *final(self) == served.priming_checked(
                                old(shared)@.post_seek_frames_pushed,
                            )
                            &&& r == Turn::Step(
                                final(self).step_for(
                                    old(shared)@.queue.len(),
                                    old(shared)@.audio_clock_us,
                                ),
                            )
                            &&& final(self).may_read()
                        },
                    }
                }
            }),
            final(commands)@ == (if before_stop(old(commands)@) < old(commands)@.len() {
                old(commands)@.skip(before_stop(old(commands)@) as int + 1)
            } else {
                Seq::empty()
            }),
            final(self).wf(),
    {
        if self.drain_commands(commands, connected) {
            return Turn::End;
        }
        self.serve_play(shared);
        match self.take_seek() {
            Some(fraction) => Turn::Seek(fraction),
            None => Turn::Step(self.next_step(shared)),
        }
    }

    /// The file has no more packets.
    pub fn end_of_input(&mut self, shared: &mut Shared) -> (r: EndOfInput)
        ensures
            r == (if old(self).looping {
                EndOfInput::StartOver
            } else {
                EndOfInput::Ended
            }),
            *final(self) == (Demuxer { eof: old(self).eof || !old(self).looping, ..*old(self) }),
            final(shared)@ == (if old(self).looping {
                old(shared)@
            } else {
                ended(old(shared)@)
            }),
    {
        if self.looping {
            return EndOfInput::StartOver;
        }
        self.eof = true;
        shared.state.player_state = PlayerState::EndOfFile;
        EndOfInput::Ended
    }

    /// Before a looping video starts over: one look at whether playback has
    /// caught up. If not, the oldest request is taken in. A `Stop` ends the
    /// thread; any other is kept for the next turn, and the wait is left for it
    /// without starting over. If the file is still at its end after that turn,
    /// the wait begins again.
    pub fn loop_wait(&mut self, shared: &Shared, commands: &mut VecDeque<Command>) -> (r: LoopWait)
        ensures
            r == loop_wait_for(shared@, old(commands)@),
            *final(self) == (if r is Serve {
                old(self).absorbed(seq![old(commands)@[0]])
            } else {
                *old(self)
            }),
            final(commands)@ == (if r is Serve || r is End {
                old(commands)@.skip(1)
            } else {
                old(commands)@
            }),
    {
        let duration_us: i64 = shared.state.duration_us;
        if duration_us <= 0 {
            return LoopWait::StartOver;
        }
        if shared.audio_clock_us >= duration_us - LOOP_MARGIN_US && shared.video_queue.len() == 0 {
            return LoopWait::StartOver;
        }
        let ghost all = commands@;
        if let Some(command) = commands.pop_front() {
            assert(commands@ =~= all.skip(1));
            if command == Command::Stop {
                return LoopWait::End;
            }
            self.absorb(command);
            return LoopWait::Serve;
        }
        LoopWait::Wait
    }

    /// The file was positioned at its start again, and a packet read to see
    /// whether that worked. If not, the video ends here.
    pub fn start_over(&mut self, shared: &mut Shared, seek_ok: bool, read_eof: bool) -> (resumed:
        bool)
        ensures
            resumed == (seek_ok && !read_eof),
            *final(self) == (if resumed {
                *old(self)
            } else {
                Demuxer { looping: false, eof: true, ..*old(self) }
            }),
            final(shared)@ == (if resumed {
                started_over(old(shared)@)
            } else {
                ended(old(shared)@)
            }),
            old(shared)@.wf() ==> final(shared)@.wf(),
    {
        if read_eof || !seek_ok {
            self.looping = false;
            self.eof = true;
            shared.state.player_state = PlayerState::EndOfFile;
            return false;
        }
        shared.flush_seq = shared.flush_seq.wrapping_add(1);
        shared.video_queue.clear();
        shared.audio_drain_flag = true;
        shared.audio_clock_us = 0;
        shared.min_display_pts_us = 0;
        true
    }

    /// A decoder's channel has no room for the packet in hand. One request may
    /// be taken; a seek makes the packet stale.
    pub fn channel_full(&mut self, stopping: bool, commands: &mut VecDeque<Command>) -> (r:
        FullChannel)
        ensures
            final(commands)@ == (if stopping || old(commands)@.len() == 0 {
                old(commands)@
            } else {
                old(commands)@.skip(1)
            }),
            r == (if stopping {
                FullChannel::End
            } else if old(commands)@.len() == 0 {
                FullChannel::Retry
            } else {
                match old(commands)@[0] {
                    Command::Stop => FullChannel::End,
                    Command::Seek(_) => FullChannel::DropPacket,
                    _ => FullChannel::Retry,
                }
            }),
            *final(self) == (if stopping || old(commands)@.len() == 0 || old(commands)@[0]
                == Command::Stop {
                *old(self)
            } else {
                old(self).absorbed(seq![old(commands)@[0]])
            }),
    {
        if stopping {
            return FullChannel::End;
        }
        let ghost all = commands@;
        if let Some(command) = commands.pop_front() {
            assert(commands@ =~= all.skip(1));
            if command == Command::Stop {
                return FullChannel::End;
            }
            self.absorb(command);
            if let Command::Seek(_) = command {
                return FullChannel::DropPacket;
            }
        }
        FullChannel::Retry
    }

    /// A packet was routed or dropped.
    pub fn packet_handled(&mut self)
        requires
            old(self).wf(),
            old(self).may_read(),
        ensures
            *final(self) == (if old(self).priming_after_seek {
                Demuxer {
                    prime_packets_read: (old(self).prime_packets_read + 1) as u32,
                    ..*old(self)
                }
            } else {
                *old(self)
            }),
            final(self).wf(),
    {
        if self.priming_after_seek {
            self.prime_packets_read = self.prime_packets_read + 1;
        }
    }
}

/// Which decoder a packet of the given stream goes to.
pub fn route(stream: usize, video_stream: usize, audio_stream: Option<usize>) -> (r: Route)
    ensures
        r == (if stream == video_stream {
            Route::Video
        } else if audio_stream == Some(stream) {
            Route::Audio
        } else {
            Route::Nowhere
        }),
{
    if stream == video_stream {
        return Route::Video;
    }
    match audio_stream {
        Some(audio) if audio == stream => Route::Audio,
        _ => Route::Nowhere,
    }
}

/// Several seeks in a row come to the last of them, whatever else was asked in
/// between.
pub proof fn last_seek_wins(d: Demuxer, before: Seq<Command>, fraction: u32, after: Seq<Command>)
    requires
        forall|i: int| 0 <= i < after.len() ==> !(#[trigger] after[i] is Seek),
    ensures
        d.absorbed(before.push(Command::Seek(fraction)) + after).pending_seek == Some(fraction),
    decreases after.len(),
{
    let all = before.push(Command::Seek(fraction)) + after;
    if after.len() == 0 {
        assert(all =~= before.push(Command::Seek(fraction)));
    } else {
        assert(all.drop_last() =~= before.push(Command::Seek(fraction)) + after.drop_last());
        last_seek_wins(d, before, fraction, after.drop_last());
        assert(all.last() == after[after.len() - 1]);
    }
}

/// To play, pause or change looping any number of times loses no seek.
pub proof fn other_commands_keep_the_seek(d: Demuxer, commands: Seq<Command>)
    requires
        forall|i: int| 0 <= i < commands.len() ==> !(#[trigger] commands[i] is Seek),
    ensures
        d.absorbed(commands).pending_seek == d.pending_seek,
    decreases commands.len(),
{
    if commands.len() > 0 {
        assert(!(commands[commands.len() - 1] is Seek));
        other_commands_keep_the_seek(d, commands.drop_last());
    }
}

/// Taking requests in two portions is the same as taking them at once.
pub proof fn absorbing_in_portions(d: Demuxer, a: Seq<Command>, b: Seq<Command>)
    ensures
        d.absorbed(a).absorbed(b) == d.absorbed(a + b),
    decreases b.len(),
{
    if b.len() == 0 {
        assert(a + b =~= a);
    } else {
        assert((a + b).drop_last() =~= a + b.drop_last());
        assert((a + b).last() == b.last());
        absorbing_in_portions(d, a, b.drop_last());
    }
}

/// A request that comes while a looping video waits to start over is not lost:
/// the turn that follows serves it together with those that came after it, as
/// if they had all been waiting for that turn.
pub proof fn the_loop_wait_loses_nothing(d: Demuxer, s: SharedModel, commands: Seq<Command>)
    requires
        loop_wait_for(s, commands) is Serve,
    ensures
        d.absorbed(seq![commands[0]]).absorbed(
            commands.skip(1).take(before_stop(commands.skip(1)) as int),
        ) == d.absorbed(commands.take(before_stop(commands) as int)),
        before_stop(commands.skip(1)) < commands.skip(1).len() <==> before_stop(commands)
            < commands.len(),
{
    let rest = commands.skip(1).take(before_stop(commands.skip(1)) as int);
    absorbing_in_portions(d, seq![commands[0]], rest);
    before_stop_in_range(commands.skip(1));
    assert(before_stop(commands) == 1 + before_stop(commands.skip(1)));
    assert(seq![commands[0]] + rest =~= commands.take(before_stop(commands) as int));
}

/// A seek that comes while a looping video waits to start over is carried out:
/// it is the next thing that the reading thread does, unless a later seek takes
/// its place, and the clock and the earliest time shown then take its target.
pub proof fn a_seek_ends_the_loop_wait(
    d: Demuxer,
    s: SharedModel,
    fraction: u32,
    after: Seq<Command>,
    target_us: i64,
)
    requires
        !caught_up(s),
        forall|i: int| 0 <= i < after.len() ==> !(#[trigger] after[i] is Seek),
    ensures
        loop_wait_for(s, seq![Command::Seek(fraction)] + after) is Serve,
        d.absorbed(seq![Command::Seek(fraction)]).absorbed(after).play_served().pending_seek
            == Some(fraction),
        seek_begun(s, target_us).min_display_pts_us == target_us,
        seek_begun(s, target_us).audio_clock_us == target_us,
{
    let before = Seq::<Command>::empty();
    last_seek_wins(d, before, fraction, after);
    assert(before.push(Command::Seek(fraction)) =~= seq![Command::Seek(fraction)]);
    absorbing_in_portions(d, seq![Command::Seek(fraction)], after);
}

proof fn before_stop_in_range(commands: Seq<Command>)
    ensures
        before_stop(commands) <= commands.len(),
    decreases commands.len(),
{
    if commands.len() > 0 && commands[0] != Command::Stop {
        before_stop_in_range(commands.skip(1));
    }
}

/// However many requests came before it, a `Stop` is seen.
pub proof fn a_stop_is_seen(commands: Seq<Command>)
    ensures
        before_stop(commands.push(Command::Stop)) < commands.push(Command::Stop).len(),
    decreases commands.len(),
{
    let all = commands.push(Command::Stop);
    if commands.len() > 0 && all[0] != Command::Stop {
        a_stop_is_seen(commands.skip(1));
        assert(all.skip(1) =~= commands.skip(1).push(Command::Stop));
    }
}

/// With the queue within its cap, reading never stops for back-pressure.
pub proof fn queue_cap_is_below_high_water(d: Demuxer, s: SharedModel)
    requires
        s.queue.len() <= WORKER_QUEUE_CAP,
    ensures
        d.step_for(s.queue.len(), s.audio_clock_us) != DemuxStep::Sleep(BACK_PRESSURE_SLEEP_MS),
{
}

/// With no more frames waiting than reading goes on with, a paused reader still
/// reads while a seek waits for its first frame.
pub proof fn priming_reads_while_paused(d: Demuxer, s: SharedModel)
    requires
        s.queue.len() <= QUEUE_HIGH_WATER,
        d.priming_after_seek,
        !d.eof,
    ensures
        d.step_for(s.queue.len(), s.audio_clock_us) == DemuxStep::ReadPacket,
{
}

/// The latest request to play or pause counts, whatever else was asked after it.
pub proof fn last_play_wins(d: Demuxer, before: Seq<Command>, play: bool, after: Seq<Command>)
    requires
        forall|i: int|
            0 <= i < after.len() ==> !(#[trigger] after[i] is Play) && !(after[i] is Pause),
    ensures
        d.absorbed(
            before.push(
                if play {
                    Command::Play
                } else {
                    Command::Pause
                },
            ) + after,
        ).pending_play == Some(play),
    decreases after.len(),
{
    let asked = if play {
        Command::Play
    } else {
        Command::Pause
    };
    let all = before.push(asked) + after;
    if after.len() == 0 {
        assert(all =~= before.push(asked));
    } else {
        assert(all.drop_last() =~= before.push(asked) + after.drop_last());
        last_play_wins(d, before, play, after.drop_last());
        assert(all.last() == after[after.len() - 1]);
    }
}

/// The latest choice whether to loop counts, whatever else was asked after it.
pub proof fn last_looping_wins(
    d: Demuxer,
    before: Seq<Command>,
    looping: bool,
    after: Seq<Command>,
)
    requires
        forall|i: int| 0 <= i < after.len() ==> !(#[trigger] after[i] is SetLooping),
    ensures
        d.absorbed(before.push(Command::SetLooping(looping)) + after).looping == looping,
    decreases after.len(),
{
    let all = before.push(Command::SetLooping(looping)) + after;
    if after.len() == 0 {
        assert(all =~= before.push(Command::SetLooping(looping)));
    } else {
        assert(all.drop_last() =~= before.push(Command::SetLooping(looping)) + after.drop_last());
        last_looping_wins(d, before, looping, after.drop_last());
        assert(all.last() == after[after.len() - 1]);
    }
}

/// Requests of one kind leave what was asked of the others as it was, and none of
/// them does anything before it is served.
pub proof fn requests_are_kept_apart(d: Demuxer, commands: Seq<Command>)
    ensures
        d.absorbed(commands).paused == d.paused,
        d.absorbed(commands).eof == d.eof,
        d.absorbed(commands).priming_after_seek == d.priming_after_seek,
        d.absorbed(commands).prime_packets_read == d.prime_packets_read,
        (forall|i: int| 0 <= i < commands.len() ==> !(#[trigger] commands[i] is Seek))
            ==> d.absorbed(commands).pending_seek == d.pending_seek,
        (forall|i: int|
            0 <= i < commands.len() ==> !(#[trigger] commands[i] is Play) && !(
            commands[i] is Pause)) ==> d.absorbed(commands).pending_play == d.pending_play,
        (forall|i: int| 0 <= i < commands.len() ==> !(#[trigger] commands[i] is SetLooping))
            ==> d.absorbed(commands).looping == d.looping,
    decreases commands.len(),
{
    if commands.len() > 0 {
        requests_are_kept_apart(d, commands.drop_last());
        let last = commands[commands.len() - 1];
        assert(last == commands.last());
        assert(forall|i: int|
            0 <= i < commands.drop_last().len() ==> commands.drop_last()[i] == commands[i]);
    }
}

/// Requests are taken up to the first `Stop`, and not past it; without one, all.
pub proof fn requests_are_taken_up_to_a_stop(commands: Seq<Command>)
    ensures
        before_stop(commands) <= commands.len(),
        forall|i: int| 0 <= i < before_stop(commands) ==> !(#[trigger] commands[i] is Stop),
        before_stop(commands) < commands.len() ==> commands[before_stop(commands) as int] is Stop,
    decreases commands.len(),
{
    if commands.len() > 0 && commands[0] != Command::Stop {
        let rest = commands.skip(1);
        requests_are_taken_up_to_a_stop(rest);
        assert forall|i: int| 0 <= i < before_stop(commands) implies !(
        #[trigger] commands[i] is Stop) by {
            if i > 0 {
                assert(rest[i - 1] == commands[i]);
            }
        }
        if before_stop(commands) < commands.len() {
            assert(rest[before_stop(rest) as int] == commands[before_stop(commands) as int]);
        }
    }
}

/// A request to play or pause that is served decides whether reading is paused,
/// takes the file up again where it had ended, and is shown as the state of the
/// player, unless that has failed. Without a request nothing changes.
pub proof fn play_and_pause_are_served(d: Demuxer, s: SharedModel)
    ensures
        d.pending_play is None ==> d.play_served() == d && play_shown(s, d.pending_play) == s,
        d.pending_play matches Some(play) ==> {
            let served = d.play_served();
            let shown = play_shown(s, d.pending_play);
            &&& served.paused == !play
            &&& !served.eof
            &&& served.pending_play is None
            &&& served.pending_seek == d.pending_seek
            &&& served.looping == d.looping
            &&& served.priming_after_seek == d.priming_after_seek
            &&& served.prime_packets_read == d.prime_packets_read
            &&& s.state.player_state is Error ==> shown == s
            &&& !(s.state.player_state is Error) ==> {
                &&& play ==> shown.state.player_state is Playing
                &&& !play ==> shown.state.player_state is Paused
            }
            &&& shown.state.duration_us == s.state.duration_us
            &&& shown.state.has_audio == s.state.has_audio
            &&& shown.state.error == s.state.error
            &&& shown.state.frame_interval_us == s.state.frame_interval_us
            &&& shown.state.width == s.state.width && shown.state.height == s.state.height
            &&& shown.queue == s.queue
            &&& shown.audio_clock_us == s.audio_clock_us
            &&& shown.clock_frozen == s.clock_frozen
            &&& shown.min_display_pts_us == s.min_display_pts_us
            &&& shown.flush_seq == s.flush_seq
            &&& shown.flush_pending == s.flush_pending
            &&& shown.post_seek_frames_pushed == s.post_seek_frames_pushed
            &&& shown.audio_drain_flag == s.audio_drain_flag
            &&& shown.volume_bits == s.volume_bits
            &&& shown.stopping == s.stopping
        },
{
}

/// Reading ahead after a seek ends with the first frame that was pushed, or when
/// six hundred packets were read, and not before; nothing else changes by that.
pub proof fn priming_ends_in_time(d: Demuxer, frames_pushed: u32)
    ensures
        d.priming_checked(frames_pushed).priming_after_seek <==> d.priming_after_seek
            && frames_pushed == 0 && d.prime_packets_read < 600,
        d.priming_checked(frames_pushed).paused == d.paused,
        d.priming_checked(frames_pushed).looping == d.looping,
        d.priming_checked(frames_pushed).eof == d.eof,
        d.priming_checked(frames_pushed).prime_packets_read == d.prime_packets_read,
        d.priming_checked(frames_pushed).pending_seek == d.pending_seek,
        d.priming_checked(frames_pushed).pending_play == d.pending_play,
{
}

/// A packet is read unless the reader is paused with enough frames waiting and no
/// seek to prime, the file has ended, or too many frames wait: more than 48 with
/// the clock running, and more than 240 in any case. While it is not read, the
/// reader waits: ten milliseconds while paused, thirty at the end of the file, three
/// for too many frames.
pub proof fn packets_are_read_when_they_are_wanted(d: Demuxer, queue_len: nat, clock_us: i64)
    ensures
        d.step_for(queue_len, clock_us) is ReadPacket <==> {
            &&& !(d.paused && !d.priming_after_seek && queue_len >= 12)
            &&& !d.eof
            &&& queue_len <= 240
            &&& queue_len > 48 ==> clock_us <= 0
        },
        d.step_for(queue_len, clock_us) matches DemuxStep::Sleep(ms) ==> {
            let paused = d.paused && !d.priming_after_seek && queue_len >= 12;
            &&& paused ==> ms == 10
            &&& !paused && d.eof ==> ms == 30
            &&& !paused && !d.eof ==> ms == 3
        },
{
}

/// A seek that is begun sets the clock and the earliest time shown to its target
/// and freezes the clock; what waits is dropped, what sound waits is to be
/// dropped, the decoder is to be flushed, and packets read before are stale.
pub proof fn a_seek_resets_everything(s: SharedModel, target_us: i64)
    ensures
        ({
            let b = seek_begun(s, target_us);
            &&& b.min_display_pts_us == target_us
            &&& b.audio_clock_us == target_us
            &&& b.clock_frozen
            &&& b.queue.len() == 0
            &&& b.audio_drain_flag
            &&& b.flush_pending
            &&& b.post_seek_frames_pushed == 0
            &&& b.flush_seq != s.flush_seq
            &&& s.flush_seq < u64::MAX ==> b.flush_seq == s.flush_seq + 1
            &&& s.flush_seq == u64::MAX ==> b.flush_seq == 0
            &&& b.state == s.state
            &&& b.volume_bits == s.volume_bits
            &&& b.stopping == s.stopping
        }),
{
}

/// A looping video that starts over is back at time zero with nothing waiting;
/// packets read before are stale, and what sound waits is to be dropped. It goes
/// on as it was playing.
pub proof fn starting_over_resets_the_clock(s: SharedModel)
    ensures
        ({
            let b = started_over(s);
            &&& b.audio_clock_us == 0
            &&& b.min_display_pts_us == 0
            &&& b.queue.len() == 0
            &&& b.audio_drain_flag
            &&& b.flush_seq != s.flush_seq
            &&& s.flush_seq < u64::MAX ==> b.flush_seq == s.flush_seq + 1
            &&& s.flush_seq == u64::MAX ==> b.flush_seq == 0
            &&& b.state == s.state
            &&& b.clock_frozen == s.clock_frozen
            &&& b.flush_pending == s.flush_pending
            &&& b.post_seek_frames_pushed == s.post_seek_frames_pushed
            &&& b.volume_bits == s.volume_bits
            &&& b.stopping == s.stopping
        }),
{
}

/// A video that has ended says so, and keeps what waits to be shown.
pub proof fn an_ended_video_says_so(s: SharedModel)
    ensures
        ({
            let e = ended(s);
            &&& e.state.player_state is EndOfFile
            &&& e.state.duration_us == s.state.duration_us
            &&& e.state.has_audio == s.state.has_audio
            &&& e.state.error == s.state.error
            &&& e.state.width == s.state.width && e.state.height == s.state.height
            &&& e.state.frame_interval_us == s.state.frame_interval_us
            &&& e.queue == s.queue
            &&& e.audio_clock_us == s.audio_clock_us
            &&& e.clock_frozen == s.clock_frozen
            &&& e.min_display_pts_us == s.min_display_pts_us
            &&& e.flush_seq == s.flush_seq
            &&& e.flush_pending == s.flush_pending
            &&& e.post_seek_frames_pushed == s.post_seek_frames_pushed
            &&& e.audio_drain_flag == s.audio_drain_flag
            &&& e.volume_bits == s.volume_bits
            &&& e.stopping == s.stopping
        }),
{
}

/// A looping video starts over once its clock is within a quarter of a second of
/// its end with no frame left to show, or at once if it has no length. Before that
/// it waits, as long as nothing is asked; a `Stop` ends the thread, and any other
/// request is served first.
pub proof fn a_loop_starts_over_when_playback_is_through(s: SharedModel, commands: Seq<Command>)
    ensures
        ({
            let through = s.state.duration_us <= 0 || (s.audio_clock_us >= s.state.duration_us
                - 250_000 && s.queue.len() == 0);
            &&& loop_wait_for(s, commands) is StartOver <==> through
            &&& loop_wait_for(s, commands) is Wait <==> !through && commands.len() == 0
            &&& loop_wait_for(s, commands) is End <==> !through && commands.len() > 0
                && commands[0] is Stop
            &&& loop_wait_for(s, commands) is Serve <==> !through && commands.len() > 0 && !(
            commands[0] is Stop)
        }),
{
}

/// While reading ahead after a seek, a packet may be read as long as fewer than six
/// hundred were, and that is counted; otherwise it always may.
pub proof fn six_hundred_packets_are_read_ahead(d: Demuxer)
    ensures
        d.wf() <==> d.prime_packets_read <= 600,
        d.may_read() <==> !d.priming_after_seek || d.prime_packets_read < 600,
{
}

/// The limits and the waits of the reading side.
pub proof fn limits_of_the_reader()
    ensures
        MAX_PRIME_PACKETS == 600,
        PAUSED_FILL_TARGET == 12,
        QUEUE_HIGH_WATER == 48,
        QUEUE_HARD_CAP == 240,
        LOOP_MARGIN_US == 250_000,
        PAUSED_SLEEP_MS == 10,
        EOF_SLEEP_MS == 30,
        BACK_PRESSURE_SLEEP_MS == 3,
        RETRY_SLEEP_MS == 10,
        CHANNEL_SLEEP_MS == 2,
        VIDEO_CHANNEL_CAP == 8,
        AUDIO_CHANNEL_CAP == 16,
{
}

} // verus!
