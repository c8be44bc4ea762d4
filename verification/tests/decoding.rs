use fast_photo_viewer::demuxer::{
    route, Demuxer, DemuxStep, EndOfInput, FullChannel, LoopWait, Route, Turn,
    BACK_PRESSURE_SLEEP_MS, EOF_SLEEP_MS, MAX_PRIME_PACKETS, PAUSED_SLEEP_MS,
};
use fast_photo_viewer::frames::{VideoFrame, VideoFramePayload};
use fast_photo_viewer::player::Player;
use fast_photo_viewer::shared::{Command, PlayerState, Shared};
use fast_photo_viewer::texture::Upload;
use fast_photo_viewer::worker::{
    choose_hw_format, frame_of_pixels, frame_of_planes, is_high_bit_depth_format, AudioWorker,
    Conversion, FrameAction, Intake, Message, PixelFormat, Push, VideoWorker,
};
use std::collections::VecDeque;

fn frame(pts_us: i64) -> VideoFrame {
    VideoFrame {
        pts_us,
        payload: VideoFramePayload::Rgba8Srgb { width: 1, height: 1, pixels: vec![0; 4] },
    }
}

fn commands(list: &[Command]) -> VecDeque<Command> {
    list.iter().copied().collect()
}

fn with_frames(n: usize) -> Shared {
    let mut shared = Shared::new();
    for i in 0..n {
        shared.video_queue.push_back(frame(i as i64));
    }
    shared
}

#[test]
fn the_latest_request_of_each_kind_counts() {
    let mut d = Demuxer::new();
    assert!(d.paused && !d.looping && !d.eof);
    let mut list = commands(&[
        Command::Seek(1),
        Command::Play,
        Command::Seek(2),
        Command::SetLooping(true),
        Command::Pause,
        Command::Seek(3),
        Command::SetLooping(false),
    ]);
    assert!(!d.drain_commands(&mut list, true));
    assert!(list.is_empty());
    assert_eq!(d.pending_seek, Some(3));
    assert_eq!(d.pending_play, Some(false));
    assert!(!d.looping);
}

#[test]
fn a_stop_ends_the_thread() {
    let mut d = Demuxer::new();
    let mut list = commands(&[Command::Seek(1), Command::Stop, Command::Seek(2)]);
    assert!(d.drain_commands(&mut list, true));
    assert_eq!(d.pending_seek, Some(1));
    assert_eq!(list, vec![Command::Seek(2)]);
    assert!(Demuxer::new().drain_commands(&mut VecDeque::new(), false));
}

#[test]
fn play_and_pause_are_served() {
    let mut d = Demuxer::new();
    let mut shared = Shared::new();
    d.eof = true;
    d.pending_play = Some(true);
    d.serve_play(&mut shared);
    assert!(!d.paused && !d.eof);
    assert_eq!(shared.state.player_state, PlayerState::Playing);
    d.serve_play(&mut shared);
    assert!(!d.paused);
    d.pending_play = Some(false);
    d.serve_play(&mut shared);
    assert!(d.paused);
    assert_eq!(shared.state.player_state, PlayerState::Paused);
    shared.state.player_state = PlayerState::Error;
    d.pending_play = Some(true);
    d.serve_play(&mut shared);
    assert_eq!(shared.state.player_state, PlayerState::Error);
}

#[test]
fn a_seek_sets_every_gate() {
    let mut d = Demuxer::new();
    d.pending_seek = Some(7);
    d.eof = true;
    assert_eq!(d.take_seek(), Some(7));
    assert_eq!(d.take_seek(), None);
    let mut shared = with_frames(3);
    shared.post_seek_frames_pushed = 4;
    d.begin_seek(&mut shared, 500);
    assert!(d.priming_after_seek && !d.eof);
    assert_eq!(d.prime_packets_read, 0);
    assert_eq!((shared.min_display_pts_us, shared.audio_clock_us), (500, 500));
    assert_eq!((shared.post_seek_frames_pushed, shared.flush_seq), (0, 1));
    assert!(shared.flush_pending && shared.clock_frozen && shared.audio_drain_flag);
    assert!(shared.video_queue.is_empty());
    shared.flush_seq = u64::MAX;
    d.begin_seek(&mut shared, 500);
    assert_eq!(shared.flush_seq, 0);
}

#[test]
fn reading_waits_while_paused_with_enough_frames() {
    let mut d = Demuxer::new();
    assert_eq!(d.next_step(&with_frames(11)), DemuxStep::ReadPacket);
    assert_eq!(d.next_step(&with_frames(12)), DemuxStep::Sleep(PAUSED_SLEEP_MS));
    d.priming_after_seek = true;
    assert_eq!(d.next_step(&with_frames(12)), DemuxStep::ReadPacket);
    d.paused = false;
    d.priming_after_seek = false;
    assert_eq!(d.next_step(&with_frames(16)), DemuxStep::ReadPacket);
}

#[test]
fn reading_waits_at_the_end_and_when_too_much_waits() {
    let mut d = Demuxer::new();
    d.paused = false;
    d.eof = true;
    assert_eq!(d.next_step(&Shared::new()), DemuxStep::Sleep(EOF_SLEEP_MS));
    d.eof = false;
    let mut shared = with_frames(49);
    assert_eq!(d.next_step(&shared), DemuxStep::ReadPacket);
    shared.audio_clock_us = 1;
    assert_eq!(d.next_step(&shared), DemuxStep::Sleep(BACK_PRESSURE_SLEEP_MS));
    assert_eq!(d.next_step(&with_frames(241)), DemuxStep::Sleep(BACK_PRESSURE_SLEEP_MS));
}

#[test]
fn priming_ends_with_a_frame_or_at_its_cap() {
    let mut d = Demuxer::new();
    let mut shared = Shared::new();
    d.begin_seek(&mut shared, 0);
    for _ in 0..MAX_PRIME_PACKETS {
        assert_eq!(d.next_step(&shared), DemuxStep::ReadPacket);
        assert!(d.priming_after_seek);
        d.packet_handled();
    }
    d.next_step(&shared);
    assert!(!d.priming_after_seek);
    d.packet_handled();
    assert_eq!(d.prime_packets_read, MAX_PRIME_PACKETS);
    d.begin_seek(&mut shared, 0);
    shared.post_seek_frames_pushed = 1;
    d.next_step(&shared);
    assert!(!d.priming_after_seek);
}

#[test]
fn the_end_of_the_file_ends_or_loops() {
    let mut d = Demuxer::new();
    let mut shared = Shared::new();
    assert_eq!(d.end_of_input(&mut shared), EndOfInput::Ended);
    assert!(d.eof);
    assert_eq!(shared.state.player_state, PlayerState::EndOfFile);
    let mut d = Demuxer::new();
    d.looping = true;
    let mut shared = Shared::new();
    assert_eq!(d.end_of_input(&mut shared), EndOfInput::StartOver);
    assert!(!d.eof);
    assert_eq!(shared.state.player_state, PlayerState::Loading);
}

#[test]
fn a_loop_waits_for_playback() {
    let mut d = Demuxer::new();
    let before = d;
    let mut shared = Shared::new();
    let mut none = VecDeque::new();
    assert_eq!(d.loop_wait(&shared, &mut none), LoopWait::StartOver);
    shared.state.duration_us = 1_000_000;
    shared.audio_clock_us = 749_999;
    assert_eq!(d.loop_wait(&shared, &mut none), LoopWait::Wait);
    shared.audio_clock_us = 750_000;
    assert_eq!(d.loop_wait(&shared, &mut none), LoopWait::StartOver);
    shared.video_queue.push_back(frame(0));
    assert_eq!(d.loop_wait(&shared, &mut none), LoopWait::Wait);
    assert_eq!(d, before);
    shared.video_queue.clear();
    let mut list = commands(&[Command::Seek(1)]);
    assert_eq!(d.loop_wait(&shared, &mut list), LoopWait::StartOver);
    assert_eq!((d, list.len()), (before, 1));
}

fn waiting_to_loop() -> (Demuxer, Shared) {
    let mut d = Demuxer::new();
    d.paused = false;
    d.looping = true;
    let mut shared = Shared::new();
    shared.state.duration_us = 10_000_000;
    shared.audio_clock_us = 1_000_000;
    assert_eq!(d.end_of_input(&mut shared), EndOfInput::StartOver);
    (d, shared)
}

#[test]
fn a_seek_ends_the_loop_wait() {
    let (mut d, mut shared) = waiting_to_loop();
    let mut list = commands(&[Command::Seek(0.25f32.to_bits()), Command::Pause]);
    assert_eq!(d.loop_wait(&shared, &mut list), LoopWait::Serve);
    assert_eq!(list, vec![Command::Pause]);
    let fraction = match d.turn(&mut shared, &mut list, true) {
        Turn::Seek(fraction) => f32::from_bits(fraction),
        _ => panic!("the seek was lost"),
    };
    assert_eq!(fraction, 0.25);
    assert!(d.paused);
    let target = (shared.state.duration_us as f32 * fraction) as i64;
    d.begin_seek(&mut shared, target);
    assert_eq!((shared.min_display_pts_us, shared.audio_clock_us), (2_500_000, 2_500_000));
}

#[test]
fn a_paused_loop_can_be_resumed() {
    let (mut d, mut shared) = waiting_to_loop();
    d.paused = true;
    shared.state.player_state = PlayerState::Paused;
    let mut list = commands(&[Command::Play]);
    assert_eq!(d.loop_wait(&shared, &mut list), LoopWait::Serve);
    assert!(list.is_empty());
    assert_eq!(d.turn(&mut shared, &mut list, true), Turn::Step(DemuxStep::ReadPacket));
    assert!(!d.paused);
    assert_eq!(shared.state.player_state, PlayerState::Playing);
    assert_eq!(d.end_of_input(&mut shared), EndOfInput::StartOver);
}

#[test]
fn a_loop_can_be_ended_while_it_waits() {
    let (mut d, mut shared) = waiting_to_loop();
    let mut list = commands(&[Command::SetLooping(false)]);
    assert_eq!(d.loop_wait(&shared, &mut list), LoopWait::Serve);
    assert_eq!(d.turn(&mut shared, &mut list, true), Turn::Step(DemuxStep::ReadPacket));
    assert_eq!(d.end_of_input(&mut shared), EndOfInput::Ended);
    let (mut d, shared) = waiting_to_loop();
    let before = d;
    let mut list = commands(&[Command::Stop, Command::Play]);
    assert_eq!(d.loop_wait(&shared, &mut list), LoopWait::End);
    assert_eq!((d, list), (before, commands(&[Command::Play])));
}

#[test]
fn a_loop_starts_over_if_the_file_can_be_read_again() {
    let mut d = Demuxer::new();
    d.looping = true;
    let mut shared = with_frames(2);
    shared.audio_clock_us = 99;
    assert!(d.start_over(&mut shared, true, false));
    assert!(shared.video_queue.is_empty() && shared.audio_drain_flag);
    assert_eq!((shared.audio_clock_us, shared.min_display_pts_us, shared.flush_seq), (0, 0, 1));
    for (seek_ok, read_eof) in [(false, false), (true, true), (false, true)] {
        let mut d = Demuxer::new();
        d.looping = true;
        let mut shared = with_frames(2);
        assert!(!d.start_over(&mut shared, seek_ok, read_eof));
        assert!(!d.looping && d.eof);
        assert_eq!(shared.state.player_state, PlayerState::EndOfFile);
        assert_eq!(shared.video_queue.len(), 2);
    }
}

#[test]
fn a_full_channel_lets_requests_through() {
    let mut d = Demuxer::new();
    let mut list = commands(&[Command::Play, Command::SetLooping(true), Command::Seek(4), Command::Stop]);
    assert_eq!(d.channel_full(true, &mut list), FullChannel::End);
    assert_eq!(list.len(), 4);
    assert_eq!(d.channel_full(false, &mut list), FullChannel::Retry);
    assert_eq!(d.pending_play, Some(true));
    assert_eq!(d.channel_full(false, &mut list), FullChannel::Retry);
    assert!(d.looping);
    assert_eq!(d.channel_full(false, &mut list), FullChannel::DropPacket);
    assert_eq!(d.pending_seek, Some(4));
    assert_eq!(d.channel_full(false, &mut list), FullChannel::End);
    assert_eq!(d.channel_full(false, &mut list), FullChannel::Retry);
}

#[test]
fn packets_go_to_their_decoder() {
    assert_eq!(route(0, 0, Some(1)), Route::Video);
    assert_eq!(route(1, 0, Some(1)), Route::Audio);
    assert_eq!(route(2, 0, Some(1)), Route::Nowhere);
    assert_eq!(route(1, 0, None), Route::Nowhere);
}

#[test]
fn a_worker_drops_what_is_stale() {
    let mut worker = VideoWorker::new();
    let mut shared = with_frames(2);
    let intake = worker.receive(&mut shared, Message::Packet(0));
    assert!(!intake.flush && intake.decode);
    assert_eq!(shared.video_queue.len(), 2);
    shared.flush_seq = 1;
    shared.flush_pending = true;
    let intake = worker.receive(&mut shared, Message::Packet(0));
    assert!(intake.flush && !intake.decode);
    assert!(shared.video_queue.is_empty() && !shared.flush_pending);
    assert_eq!(worker.last_flush_seq, 1);
    let intake = worker.receive(&mut shared, Message::Packet(1));
    assert!(!intake.flush && intake.decode);
    shared.flush_pending = true;
    let intake = worker.receive(&mut shared, Message::Flush);
    assert!(intake.flush && !intake.decode);
    assert!(!shared.flush_pending);
}

#[test]
fn the_audio_worker_leaves_frames_alone() {
    let mut worker = AudioWorker::new();
    let mut shared = with_frames(1);
    shared.flush_seq = 3;
    shared.flush_pending = true;
    let intake = worker.receive(&shared, Message::Packet(3));
    assert!(intake.flush && intake.decode);
    let intake = worker.receive(&shared, Message::Packet(2));
    assert!(!intake.flush && !intake.decode);
    let intake = worker.receive(&shared, Message::Flush);
    assert!(intake.flush && !intake.decode);
    assert!(shared.flush_pending && shared.video_queue.len() == 1);
}

#[test]
fn decoded_frames_pass_the_gates() {
    let worker = VideoWorker::new();
    let mut shared = Shared::new();
    let other = PixelFormat::Other(5);
    assert_eq!(worker.frame_action(&shared, other, i64::MIN), FrameAction::Convert);
    assert_eq!(worker.frame_action(&shared, PixelFormat::D3d11, 0), FrameAction::Download);
    shared.min_display_pts_us = 10;
    assert_eq!(worker.frame_action(&shared, other, 9), FrameAction::BeforeTarget);
    assert_eq!(worker.frame_action(&shared, other, 10), FrameAction::Convert);
    shared.flush_pending = true;
    assert_eq!(worker.frame_action(&shared, other, 10), FrameAction::Stale);
    shared.flush_seq = 1;
    assert_eq!(worker.frame_action(&shared, other, 10), FrameAction::Leave);
}

#[test]
fn conversions_follow_the_format() {
    let mut worker = VideoWorker::new();
    assert_eq!(worker.conversion(PixelFormat::Nv12, 4000, 10, true), Conversion::Planes);
    let config = match worker.conversion(PixelFormat::P010Le, 1920, 1080, true) {
        Conversion::Scale { config, rebuild, bytes_per_pixel, cap_width } => {
            assert!(rebuild && !cap_width && config.sixteen_bit);
            assert_eq!(bytes_per_pixel, 8);
            config
        }
        _ => panic!("planes"),
    };
    worker.scaler_built(config);
    assert!(matches!(
        worker.conversion(PixelFormat::P010Le, 1920, 1080, true),
        Conversion::Scale { rebuild: false, .. }
    ));
    assert!(matches!(
        worker.conversion(PixelFormat::P010Le, 1920, 1080, false),
        Conversion::Scale { rebuild: true, bytes_per_pixel: 4, .. }
    ));
    assert!(matches!(
        worker.conversion(PixelFormat::Other(0), 1921, 1080, true),
        Conversion::Scale { rebuild: true, bytes_per_pixel: 4, cap_width: true, .. }
    ));
}

#[test]
fn deep_formats_are_known() {
    assert!(is_high_bit_depth_format(PixelFormat::Yuv420p10Le));
    assert!(is_high_bit_depth_format(PixelFormat::P016Be));
    assert!(!is_high_bit_depth_format(PixelFormat::Nv12));
    assert!(!is_high_bit_depth_format(PixelFormat::D3d11));
    assert!(!is_high_bit_depth_format(PixelFormat::Other(62)));
}

#[test]
fn surfaces_on_the_card_are_preferred() {
    let a = PixelFormat::Other(1);
    assert_eq!(choose_hw_format(&[a, PixelFormat::D3d11]), Some(PixelFormat::D3d11));
    assert_eq!(choose_hw_format(&[a, PixelFormat::Nv12]), Some(a));
    assert_eq!(choose_hw_format(&[]), None);
}

#[test]
fn a_full_queue_takes_a_frame_and_then_the_worker_waits() {
    let worker = VideoWorker::new();
    let mut shared = with_frames(14);
    assert_eq!(worker.push_with_cap(&mut shared, frame(98)), Push::Landed { wait: false });
    assert_eq!(worker.push_with_cap(&mut shared, frame(99)), Push::Landed { wait: true });
    assert_eq!((shared.video_queue.len(), shared.post_seek_frames_pushed), (16, 2));
    assert_eq!(worker.push_with_cap(&mut shared, frame(100)), Push::Landed { wait: true });
    assert_eq!((shared.video_queue.len(), shared.post_seek_frames_pushed), (17, 3));
    assert_eq!(shared.video_queue.back().unwrap().pts_us, 100);
}

#[test]
fn a_frame_lands_only_if_all_agree() {
    let decoded = Intake { flush: false, decode: true };
    let skipped = Intake { flush: true, decode: false };
    let worker = VideoWorker::new();
    let mut shared = Shared::new();
    for action in [FrameAction::Leave, FrameAction::Stale, FrameAction::BeforeTarget] {
        assert_eq!(worker.land(&mut shared, decoded, action, frame(1)), Push::GivenUp);
    }
    for action in [FrameAction::Convert, FrameAction::Download] {
        assert_eq!(worker.land(&mut shared, skipped, action, frame(1)), Push::GivenUp);
    }
    assert_eq!((shared.video_queue.len(), shared.post_seek_frames_pushed), (0, 0));
    for action in [FrameAction::Convert, FrameAction::Download] {
        assert_eq!(worker.land(&mut shared, decoded, action, frame(2)), Push::Landed { wait: false });
    }
    assert_eq!((shared.video_queue.len(), shared.post_seek_frames_pushed), (2, 2));
}

#[test]
fn a_packet_goes_through_every_gate() {
    let mut worker = VideoWorker::new();
    let mut shared = Shared::new();
    Demuxer::new().begin_seek(&mut shared, 5_000);
    let stale = worker.receive(&mut shared, Message::Packet(0));
    assert!(!stale.decode && stale.flush);
    let tag = shared.flush_seq;
    let fresh = worker.receive(&mut shared, Message::Packet(tag));
    assert!(fresh.decode && !fresh.flush);
    let before = worker.frame_action(&shared, PixelFormat::Nv12, 4_999);
    assert_eq!(worker.land(&mut shared, fresh, before, frame(4_999)), Push::GivenUp);
    let at = worker.frame_action(&shared, PixelFormat::Nv12, 5_000);
    assert_eq!(worker.land(&mut shared, stale, at, frame(5_000)), Push::GivenUp);
    assert_eq!(worker.land(&mut shared, fresh, at, frame(5_000)), Push::Landed { wait: false });
    assert_eq!((shared.video_queue.len(), shared.post_seek_frames_pushed), (1, 1));
    Demuxer::new().begin_seek(&mut shared, 9_000);
    assert_eq!(worker.land(&mut shared, fresh, at, frame(5_040)), Push::GivenUp);
    assert_eq!((shared.video_queue.len(), shared.post_seek_frames_pushed), (0, 0));
}

#[test]
fn a_worker_waits_until_there_is_room() {
    let worker = VideoWorker::new();
    let mut shared = with_frames(16);
    assert!(worker.still_parked(&shared, 0) && worker.still_parked(&shared, 399));
    assert!(!worker.still_parked(&shared, 400));
    assert!(!worker.still_parked(&with_frames(15), 0));
    shared.stopping = true;
    assert!(!worker.still_parked(&shared, 0));
    shared.stopping = false;
    shared.flush_seq = 1;
    assert!(!worker.still_parked(&shared, 0));
}

#[test]
fn a_frame_is_given_up_after_a_seek_or_a_stop() {
    let worker = VideoWorker::new();
    let mut shared = Shared::new();
    shared.flush_seq = 1;
    assert_eq!(worker.push_with_cap(&mut shared, frame(0)), Push::GivenUp);
    assert_eq!((shared.video_queue.len(), shared.post_seek_frames_pushed), (0, 0));
    let mut shared = Shared::new();
    shared.stopping = true;
    assert_eq!(worker.push_with_cap(&mut shared, frame(0)), Push::GivenUp);
    assert!(shared.video_queue.is_empty());
}

#[test]
fn planes_are_packed_into_a_frame() {
    let y = [1, 2, 0, 3, 4, 0, 5, 6, 0];
    let uv = [7, 8, 9, 10];
    let made = frame_of_planes(77, 2, 3, &y, 3, &uv, 2);
    assert_eq!(made.pts_us, 77);
    match made.payload {
        VideoFramePayload::Nv12 { width, height, y_plane, uv_plane } => {
            assert_eq!((width, height), (2, 3));
            assert_eq!(y_plane, vec![1, 2, 3, 4, 5, 6]);
            assert_eq!(uv_plane, vec![7, 8, 9, 10]);
        }
        _ => panic!("no planes"),
    }
}

#[test]
fn pixels_are_packed_into_a_frame() {
    let src = [1, 2, 3, 4, 0, 5, 6, 7, 8, 0];
    match frame_of_pixels(5, 1, 2, false, &src, 5).payload {
        VideoFramePayload::Rgba8Srgb { width, height, pixels } => {
            assert_eq!((width, height), (1, 2));
            assert_eq!(pixels, vec![1, 2, 3, 4, 5, 6, 7, 8]);
        }
        _ => panic!("wrong payload"),
    }
    match frame_of_pixels(5, 1, 1, true, &[1, 2, 3, 4, 5, 6, 7, 8, 9], 9).payload {
        VideoFramePayload::Rgba16Unorm { width, height, bytes } => {
            assert_eq!((width, height), (1, 1));
            assert_eq!(bytes, vec![1, 2, 3, 4, 5, 6, 7, 8]);
        }
        _ => panic!("wrong payload"),
    }
}

#[test]
fn a_seek_lands_on_its_first_frame() {
    let mut player = Player::new(true);
    player.shared.opened(10_000_000, 640, 360, true, 40_000);
    let mut demuxer = Demuxer::new();
    let mut worker = VideoWorker::new();
    let stale_tag = player.shared.flush_seq;
    player.shared.video_queue.push_back(frame(1));
    for fraction in [0.1f32, 0.7, 0.5] {
        player.seek(fraction.to_bits());
    }
    assert!(!demuxer.drain_commands(&mut player.commands, true));
    let target = demuxer.take_seek().unwrap();
    assert_eq!(f32::from_bits(target), 0.5);
    demuxer.begin_seek(&mut player.shared, 5_000_000);
    assert_eq!(
        worker.frame_action(&player.shared, PixelFormat::Other(0), 6_000_000),
        FrameAction::Leave
    );
    assert!(!worker.receive(&mut player.shared, Message::Packet(stale_tag)).decode);
    assert_eq!(demuxer.next_step(&player.shared), DemuxStep::ReadPacket);
    let tag = player.shared.flush_seq;
    assert!(worker.receive(&mut player.shared, Message::Packet(tag)).decode);
    assert_eq!(
        worker.frame_action(&player.shared, PixelFormat::Other(0), 4_999_999),
        FrameAction::BeforeTarget
    );
    assert!(matches!(player.tick(0), Upload::Nothing));
    assert_eq!(
        worker.frame_action(&player.shared, PixelFormat::Other(0), 5_020_000),
        FrameAction::Convert
    );
    assert_eq!(worker.push_with_cap(&mut player.shared, frame(5_020_000)), Push::Landed { wait: false });
    demuxer.next_step(&player.shared);
    assert!(!demuxer.priming_after_seek);
    assert!(!matches!(player.tick(0), Upload::Nothing));
    assert_eq!(player.uploaded_pts_us_for_test(), 5_020_000);
    assert_eq!(player.shared.audio_clock_us, 5_020_000);
}

#[test]
fn a_turn_serves_requests_first() {
    let mut d = Demuxer::new();
    let mut shared = Shared::new();
    let mut list = commands(&[Command::Play, Command::Seek(9)]);
    assert_eq!(d.turn(&mut shared, &mut list, true), Turn::Seek(9));
    assert!(!d.paused && list.is_empty());
    assert_eq!(shared.state.player_state, PlayerState::Playing);
    assert_eq!(d.turn(&mut shared, &mut list, true), Turn::Step(DemuxStep::ReadPacket));
    d.eof = true;
    assert_eq!(d.turn(&mut shared, &mut list, true), Turn::Step(DemuxStep::Sleep(EOF_SLEEP_MS)));
    let mut list = commands(&[Command::Pause, Command::Stop]);
    assert_eq!(d.turn(&mut shared, &mut list, true), Turn::End);
    assert_eq!(shared.state.player_state, PlayerState::Playing);
    assert_eq!(Demuxer::new().turn(&mut shared, &mut VecDeque::new(), false), Turn::End);
}

#[test]
fn a_stop_behind_other_requests_is_seen() {
    let mut list = commands(&[Command::Seek(1), Command::Play, Command::Stop]);
    assert_eq!(Demuxer::new().turn(&mut Shared::new(), &mut list, true), Turn::End);
}

#[test]
fn packets_from_before_a_restart_are_stale() {
    let mut demuxer = Demuxer::new();
    demuxer.looping = true;
    let mut shared = Shared::new();
    let mut worker = VideoWorker::new();
    assert!(demuxer.start_over(&mut shared, true, false));
    let intake = worker.receive(&mut shared, Message::Packet(0));
    assert!(intake.flush && !intake.decode);
    let intake = worker.receive(&mut shared, Message::Packet(1));
    assert!(!intake.flush && intake.decode);
}
