use fast_photo_viewer::frames::{pop_below, pop_due, VideoFrame, VideoFramePayload, WORKER_QUEUE_CAP};
use fast_photo_viewer::player::{OpenStatus, Player, Step};
use fast_photo_viewer::shared::{frame_interval_us, Command, PlayerState, Shared};
use fast_photo_viewer::texture::{
    fragment_return, is_srgb_target, TargetFormat, TextureCache, TextureFormat, Upload,
};
use std::collections::VecDeque;

fn frame(pts_us: i64) -> VideoFrame {
    VideoFrame {
        pts_us,
        payload: VideoFramePayload::Rgba8Srgb { width: 2, height: 1, pixels: vec![pts_us as u8; 8] },
    }
}

fn queue(times: &[i64]) -> VecDeque<VideoFrame> {
    times.iter().map(|t| frame(*t)).collect()
}

fn times(queue: &VecDeque<VideoFrame>) -> Vec<i64> {
    queue.iter().map(|f| f.pts_us).collect()
}

fn opened(has_audio: bool) -> Player {
    let mut player = Player::new(true);
    player.shared.opened(10_000_000, 640, 360, has_audio, 40_000);
    player
}

fn first_byte(upload: &Upload) -> u8 {
    match upload {
        Upload::Flat { bytes, .. } => bytes[0],
        _ => panic!("no upload"),
    }
}

#[test]
fn the_cap_is_sixteen_frames() {
    assert_eq!(WORKER_QUEUE_CAP, 16);
}

#[test]
fn frames_below_a_bound_are_taken() {
    let mut q = queue(&[1, 2, 5, 3]);
    assert_eq!(pop_below(&mut q, 5).unwrap().pts_us, 2);
    assert_eq!(times(&q), vec![5, 3]);
    assert!(pop_below(&mut q, 5).is_none());
    assert!(pop_below(&mut VecDeque::new(), 5).is_none());
}

#[test]
fn due_frames_are_taken_and_the_last_is_kept() {
    let mut q = queue(&[1, 4, 6, 9]);
    assert_eq!(pop_due(&mut q, 3, 6).unwrap().pts_us, 6);
    assert_eq!(times(&q), vec![9]);
    let mut q = queue(&[1, 2, 9]);
    assert!(pop_due(&mut q, 5, 3).is_none());
    assert_eq!(times(&q), vec![9]);
    let mut q = queue(&[6, 1, 9]);
    assert_eq!(pop_due(&mut q, 3, 7).unwrap().pts_us, 6);
    assert_eq!(times(&q), vec![9]);
}

#[test]
fn the_frame_interval_comes_from_the_rate() {
    assert_eq!(frame_interval_us(25, 1), 40_000);
    assert_eq!(frame_interval_us(30000, 1001), 33_366);
    assert_eq!(frame_interval_us(0, 1), 33_333);
    assert_eq!(frame_interval_us(25, 0), 33_333);
    assert_eq!(frame_interval_us(-25, 1), 33_333);
}

#[test]
fn a_new_player_is_loading() {
    let player = Player::new(false);
    assert_eq!(player.state(), PlayerState::Loading);
    assert_eq!(player.uploaded_pts_us_for_test(), i64::MIN);
    assert_eq!((player.duration_ms(), player.elapsed_ms()), (0, 0));
    assert_eq!(player.size(), (0, 0));
    assert!(!player.has_audio() && !player.is_seeking() && !player.is_nv12_path());
    assert_eq!(player.error(), None);
    assert_eq!(player.shared.volume_bits, 1.0f32.to_bits());
    assert_eq!(player.frame_interval_us(), 33_333);
}

#[test]
fn opening_ends_in_one_of_three_ways() {
    let player = Player::new(false);
    assert!(matches!(player.open_status(5_000), OpenStatus::Waiting));
    assert!(matches!(player.open_status(5_001), OpenStatus::TimedOut));
    assert!(matches!(opened(true).open_status(0), OpenStatus::Ready));
    let mut player = Player::new(false);
    player.shared.failed("open: no such file".to_string());
    assert_eq!(player.state(), PlayerState::Error);
    match player.open_status(9_999) {
        OpenStatus::Failed(error) => assert_eq!(error, "open: no such file"),
        _ => panic!("not failed"),
    }
}

#[test]
fn an_opened_player_is_paused() {
    let player = opened(true);
    assert_eq!(player.state(), PlayerState::Paused);
    assert_eq!(player.duration_ms(), 10_000);
    assert_eq!(player.size(), (640, 360));
    assert!(player.has_audio());
    assert_eq!(player.frame_interval_us(), 40_000);
}

#[test]
fn short_intervals_are_lengthened() {
    let mut player = opened(true);
    player.shared.state.frame_interval_us = 10;
    assert_eq!(player.frame_interval_us(), 1_000);
}

#[test]
fn requests_are_queued_in_order() {
    let mut player = opened(true);
    player.set_looping(true);
    player.play(0);
    player.seek(0.5f32.to_bits());
    player.pause(0);
    player.stop();
    assert_eq!(
        player.commands,
        vec![
            Command::SetLooping(true),
            Command::Play,
            Command::Seek(0.5f32.to_bits()),
            Command::Pause,
            Command::Stop
        ]
    );
    assert!(player.shared.stopping);
    player.set_volume(0.25f32.to_bits());
    assert_eq!(f32::from_bits(player.shared.volume_bits), 0.25);
}

#[test]
fn without_audio_the_clock_follows_real_time() {
    let mut player = opened(false);
    player.play(1_000);
    player.tick(51_000);
    assert_eq!(player.elapsed_ms(), 50);
    player.pause(101_000);
    assert_eq!(player.shared.audio_clock_us, 100_000);
    player.tick(900_000);
    assert_eq!(player.shared.audio_clock_us, 100_000);
    player.play(1_000_000);
    player.tick(1_010_000);
    assert_eq!(player.shared.audio_clock_us, 110_000);
}

#[test]
fn with_audio_the_clock_is_left_alone() {
    let mut player = opened(true);
    player.play(1_000);
    player.tick(51_000);
    assert_eq!(player.shared.audio_clock_us, 0);
    assert_eq!(player.no_audio_clock_origin, None);
}

#[test]
fn playing_shows_the_newest_frame_that_is_due() {
    let mut player = opened(true);
    player.play(0);
    player.shared.video_queue = queue(&[0, 40_000, 80_000]);
    player.shared.audio_clock_us = 30_000;
    let upload = player.tick(0);
    assert_eq!(first_byte(&upload), 40_000i64 as u8);
    assert_eq!(player.uploaded_pts_us_for_test(), 40_000);
    assert_eq!(times(&player.shared.video_queue), vec![80_000]);
    assert!(matches!(player.tick(0), Upload::Nothing));
    assert_eq!(player.intrinsic_size(), (2, 1));
}

#[test]
fn frames_are_due_a_little_early() {
    let mut player = opened(true);
    player.play(0);
    player.shared.video_queue = queue(&[15_000]);
    assert!(!matches!(player.tick(0), Upload::Nothing));
    player.shared.video_queue = queue(&[15_002]);
    player.shared.audio_clock_us = 1;
    assert!(matches!(player.tick(0), Upload::Nothing));
    assert_eq!(times(&player.shared.video_queue), vec![15_002]);
}

#[test]
fn a_paused_tick_keeps_what_waits() {
    let mut player = opened(true);
    player.shared.video_queue = queue(&[0, 1, 2]);
    assert!(matches!(player.tick(0), Upload::Nothing));
    assert_eq!(times(&player.shared.video_queue), vec![0, 1, 2]);
}

#[test]
fn nothing_is_shown_until_a_seek_is_taken() {
    let mut player = opened(true);
    player.play(0);
    player.shared.video_queue = queue(&[1, 2]);
    player.seek(0.5f32.to_bits());
    assert!(player.is_seeking() && !player.seek_taken());
    assert!(player.shared.video_queue.is_empty());
    player.shared.video_queue = queue(&[3, 4]);
    assert!(matches!(player.tick(0), Upload::Nothing));
    assert!(player.is_seeking());
    assert!(player.shared.video_queue.is_empty());
    player.shared.min_display_pts_us = 5;
    assert!(player.seek_taken());
}

#[test]
fn a_frozen_clock_goes_on_from_the_first_frame() {
    let mut player = opened(false);
    player.play(0);
    player.seek(0.5f32.to_bits());
    player.shared.min_display_pts_us = 5_000_000;
    player.finish_seek(5_000_000, 70);
    assert_eq!(player.shared.audio_clock_us, 5_000_000);
    player.shared.video_queue = queue(&[4_999_999, 5_010_000, 5_050_000]);
    assert!(!matches!(player.tick(100), Upload::Nothing));
    assert_eq!(player.uploaded_pts_us_for_test(), 5_010_000);
    assert_eq!(player.shared.audio_clock_us, 5_010_000);
    assert!(!player.is_seeking());
    assert_eq!(times(&player.shared.video_queue), vec![5_050_000]);
    player.tick(1_100);
    assert_eq!(player.shared.audio_clock_us, 5_011_000);
}

#[test]
fn a_paused_seek_shows_its_frame() {
    let mut player = opened(true);
    player.seek(0.3f32.to_bits());
    player.shared.min_display_pts_us = 3_000_000;
    player.shared.video_queue = queue(&[3_000_000]);
    assert!(!matches!(player.tick(0), Upload::Nothing));
    assert_eq!(player.uploaded_pts_us_for_test(), 3_000_000);
}

#[test]
fn a_paused_seek_without_audio_stops_the_clock() {
    let mut player = opened(false);
    player.play(0);
    player.pause(10);
    player.seek(0.1f32.to_bits());
    player.finish_seek(1_000_000, 20);
    assert_eq!(player.no_audio_clock_origin, None);
    assert_eq!(player.shared.audio_clock_us, 1_000_000);
    let mut player = opened(true);
    player.finish_seek(1_000_000, 20);
    assert_eq!(player.shared.audio_clock_us, 0);
}

#[test]
fn the_frame_on_display_is_not_shown_again() {
    let mut player = opened(true);
    player.last_uploaded_pts_us = 7;
    player.shared.clock_frozen = true;
    player.shared.video_queue = queue(&[7, 8]);
    assert!(matches!(player.tick(0), Upload::Nothing));
    assert!(!player.is_seeking());
    assert_eq!(player.shared.audio_clock_us, 7);
    assert_eq!(player.uploaded_pts_us_for_test(), 7);
    assert_eq!(times(&player.shared.video_queue), vec![8]);
}

#[test]
fn a_seek_to_the_frame_on_display_goes_on_from_it() {
    let mut player = opened(false);
    player.play(0);
    player.last_uploaded_pts_us = 3_000_000;
    player.seek(0.3f32.to_bits());
    player.shared.min_display_pts_us = 3_000_000;
    player.finish_seek(3_000_000, 10);
    player.shared.video_queue = queue(&[3_000_000, 3_040_000]);
    assert!(matches!(player.tick(500), Upload::Nothing));
    assert!(!player.is_seeking());
    assert_eq!(player.shared.audio_clock_us, 3_000_000);
    assert_eq!(player.uploaded_pts_us_for_test(), 3_000_000);
    assert!(!matches!(player.tick(40_500), Upload::Nothing));
    assert_eq!(player.shared.audio_clock_us, 3_040_000);
    assert_eq!(player.uploaded_pts_us_for_test(), 3_040_000);
}

#[test]
fn a_step_forward_shows_the_next_frame_waiting() {
    let mut player = opened(true);
    player.last_uploaded_pts_us = 40;
    player.shared.video_queue = queue(&[20, 40, 80, 120]);
    assert!(matches!(player.step_frames(1), Step::Show(_)));
    assert_eq!(player.uploaded_pts_us_for_test(), 80);
    assert_eq!(player.shared.audio_clock_us, 80);
    assert_eq!(times(&player.shared.video_queue), vec![120]);
}

#[test]
fn a_step_forward_goes_by_as_many_frames_as_asked() {
    let mut player = opened(true);
    player.last_uploaded_pts_us = 0;
    player.shared.video_queue = queue(&[33_333, 66_666, 100_000, 133_333]);
    match player.step_frames(3) {
        Step::Show(upload) => assert_eq!(first_byte(&upload), 100_000i64 as u8),
        _ => panic!("not shown"),
    }
    assert_eq!(player.uploaded_pts_us_for_test(), 100_000);
    assert_eq!(player.shared.audio_clock_us, 100_000);
    assert_eq!(times(&player.shared.video_queue), vec![133_333]);
}

#[test]
fn single_steps_add_up() {
    let waiting = [0, 40_000, 80_000, 120_000, 160_000];
    let mut by_one = opened(true);
    by_one.last_uploaded_pts_us = 0;
    by_one.shared.video_queue = queue(&waiting);
    let mut at_once = opened(true);
    at_once.last_uploaded_pts_us = 0;
    at_once.shared.video_queue = queue(&waiting);
    by_one.step_frames(1);
    by_one.step_frames(2);
    at_once.step_frames(3);
    assert_eq!(by_one.uploaded_pts_us_for_test(), 120_000);
    assert_eq!(at_once.uploaded_pts_us_for_test(), 120_000);
    assert_eq!(times(&by_one.shared.video_queue), times(&at_once.shared.video_queue));
}

#[test]
fn a_step_past_what_waits_seeks_for_the_rest() {
    let mut player = opened(true);
    player.shared.audio_clock_us = 1_000_000;
    player.last_uploaded_pts_us = 1_000_000;
    player.shared.video_queue = queue(&[1_000_000, 1_040_000, 1_080_000]);
    match player.step_frames(5) {
        Step::SeekForward { target_us } => assert_eq!(target_us, 1_080_000 + 3 * 40_000),
        _ => panic!("no seek"),
    }
    assert_eq!(player.uploaded_pts_us_for_test(), 1_000_000);
    assert_eq!(times(&player.shared.video_queue), vec![1_040_000, 1_080_000]);
}

#[test]
fn steps_that_cannot_be_computed_are_known() {
    let mut player = opened(true);
    assert!(player.can_step(1) && player.can_step(-1) && player.can_step(0));
    assert!(!player.can_step(i32::MIN));
    player.shared.audio_clock_us = i64::MAX;
    assert!(!player.can_step(1) && player.can_step(0));
    player.shared.video_queue = queue(&[1, 2]);
    assert!(player.can_step(2) && player.can_step(3));
    player.shared.audio_clock_us = i64::MIN;
    assert!(!player.can_step(-1));
    // No room for a frame in the file: only what waits can be stepped to.
    player.shared.state.duration_us = 39_999;
    assert!(player.can_step(2) && !player.can_step(3) && !player.can_step(0));
    player.last_uploaded_pts_us = i64::MAX;
    assert!(!player.can_step(1));
    player.shared.state.duration_us = 0;
    assert!(player.can_step(i32::MIN));
}

#[test]
fn a_step_forward_without_a_frame_seeks() {
    let mut player = opened(true);
    player.shared.audio_clock_us = 1_000_000;
    player.last_uploaded_pts_us = 1_000_000;
    player.shared.video_queue = queue(&[999_000]);
    match player.step_frames(2) {
        Step::SeekForward { target_us } => assert_eq!(target_us, 1_080_000),
        _ => panic!("no seek"),
    }
    assert!(player.shared.video_queue.is_empty());
    player.shared.audio_clock_us = 9_999_000;
    match player.step_frames(1) {
        Step::SeekForward { target_us } => assert_eq!(target_us, 9_960_000),
        _ => panic!("no seek"),
    }
}

#[test]
fn a_step_back_seeks_well_back() {
    let mut player = opened(true);
    player.shared.audio_clock_us = 1_000_000;
    match player.step_frames(-1) {
        Step::SeekBackward { target_us, before_us } => {
            assert_eq!((target_us, before_us), (840_000, 1_000_000))
        }
        _ => panic!("no seek"),
    }
    player.shared.state.frame_interval_us = 1_000;
    match player.step_frames(-2) {
        Step::SeekBackward { target_us, .. } => assert_eq!(target_us, 1_000_000 - 16_000 * 8),
        _ => panic!("no seek"),
    }
    player.shared.audio_clock_us = 10;
    match player.step_frames(-1) {
        Step::SeekBackward { target_us, .. } => assert_eq!(target_us, 0),
        _ => panic!("no seek"),
    }
}

#[test]
fn a_step_back_ends_at_the_last_frame_before() {
    let mut player = opened(true);
    assert!(player.finish_step_back(100).is_none());
    player.shared.clock_frozen = true;
    player.shared.video_queue = queue(&[60, 80, 100, 120]);
    assert!(player.finish_step_back(100).is_some());
    assert_eq!(player.uploaded_pts_us_for_test(), 80);
    assert_eq!(player.shared.audio_clock_us, 80);
    assert!(!player.is_seeking());
    assert_eq!(times(&player.shared.video_queue), vec![100, 120]);
}

#[test]
fn a_video_without_length_is_not_stepped_through() {
    let mut player = opened(true);
    player.shared.state.duration_us = 0;
    player.shared.video_queue = queue(&[1]);
    assert!(matches!(player.step_frames(1), Step::Nothing));
    assert!(matches!(player.step_frames(-1), Step::Nothing));
    assert_eq!(times(&player.shared.video_queue), vec![1]);
}

fn planes(width: u32, height: u32) -> VideoFramePayload {
    VideoFramePayload::Nv12 { width, height, y_plane: vec![1], uv_plane: vec![2] }
}

#[test]
fn textures_are_made_once_per_layout() {
    let mut cache = TextureCache::new();
    let pixels = |w: u32| VideoFramePayload::Rgba8Srgb { width: w, height: 2, pixels: vec![9] };
    match cache.upload(true, pixels(3)) {
        Upload::Flat { create, width, height, format, bytes_per_row, bytes } => {
            assert!(create);
            assert_eq!((width, height, bytes_per_row), (3, 2, 12));
            assert_eq!(format, TextureFormat::Rgba8UnormSrgb);
            assert_eq!(bytes, vec![9]);
        }
        _ => panic!("wrong upload"),
    }
    assert!(matches!(cache.upload(true, pixels(3)), Upload::Flat { create: false, .. }));
    assert!(matches!(cache.upload(true, pixels(4)), Upload::Flat { create: true, .. }));
    let deep = VideoFramePayload::Rgba16Unorm { width: 4, height: 2, bytes: vec![] };
    match cache.upload(true, deep) {
        Upload::Flat { create, format, bytes_per_row, .. } => {
            assert!(create);
            assert_eq!(format, TextureFormat::Rgba16Unorm);
            assert_eq!(bytes_per_row, 32);
        }
        _ => panic!("wrong upload"),
    }
}

#[test]
fn planes_have_textures_of_their_own() {
    let mut cache = TextureCache::new();
    match cache.upload(true, planes(5, 3)) {
        Upload::Planes { create, width, height, uv_width, uv_height, y_plane, uv_plane } => {
            assert!(create);
            assert_eq!((width, height, uv_width, uv_height), (5, 3, 2, 2));
            assert_eq!((y_plane, uv_plane), (vec![1], vec![2]));
        }
        _ => panic!("wrong upload"),
    }
    assert!(cache.last_upload_was_nv12);
    assert!(matches!(cache.upload(true, planes(5, 3)), Upload::Planes { create: false, .. }));
    let flat = VideoFramePayload::Rgba8Srgb { width: 5, height: 3, pixels: vec![] };
    cache.upload(true, flat);
    assert!(!cache.last_upload_was_nv12);
    assert!(matches!(cache.upload(true, planes(5, 3)), Upload::Planes { create: true, .. }));
}

#[test]
fn without_a_gpu_only_plain_pixels_are_shown() {
    let mut cache = TextureCache::new();
    assert!(matches!(cache.upload(false, planes(5, 3)), Upload::Nothing));
    let deep = VideoFramePayload::Rgba16Unorm { width: 4, height: 2, bytes: vec![] };
    assert!(matches!(cache.upload(false, deep), Upload::Nothing));
    let flat = || VideoFramePayload::Rgba8Srgb { width: 5, height: 3, pixels: vec![] };
    assert!(matches!(cache.upload(false, flat()), Upload::Managed { reuse: false, .. }));
    assert!(matches!(cache.upload(false, flat()), Upload::Managed { reuse: true, .. }));
}

#[test]
fn the_shader_ends_as_the_target_needs() {
    assert!(is_srgb_target(TargetFormat::Bgra8UnormSrgb));
    assert!(is_srgb_target(TargetFormat::Bc7RgbaUnormSrgb));
    assert!(!is_srgb_target(TargetFormat::Other));
    assert_eq!(fragment_return(TargetFormat::Other), "return vec4<f32>(r_g, g_g, b_g, 1.0);");
    assert!(fragment_return(TargetFormat::Rgba8UnormSrgb).contains("srgb_to_linear(g_g)"));
}

#[test]
fn shared_state_starts_out_loading() {
    let shared = Shared::new();
    assert_eq!(shared.min_display_pts_us, i64::MIN);
    assert_eq!(shared.flush_seq, 0);
    assert!(!shared.stopping && !shared.flush_pending && !shared.audio_drain_flag);
}
