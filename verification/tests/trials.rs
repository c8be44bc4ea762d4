use fast_photo_viewer::scenario::{
    count_kinds, has_landed, is_new_pts, is_trial_file, max_repeat, op_passes, random_ops,
    random_seeks_pass, steps_pass, tally, Lcg, Op, PtsLog, ScenarioResult,
};
use fast_photo_viewer::shared::PlayerState;

#[test]
fn results_are_made_and_counted() {
    let ok = ScenarioResult::ok("a", "fine".to_string());
    assert!(ok.pass && ok.name == "a" && ok.details == "fine");
    let fail = ScenarioResult::fail("b", "bad".to_string());
    assert!(!fail.pass && fail.name == "b" && fail.details == "bad");
    let third = ScenarioResult::of("c", true, String::new());
    assert!(third.pass);
    assert!(!ScenarioResult::of("d", false, String::new()).pass);
    assert_eq!(tally(&vec![ok, fail, third]), (2, 1));
    assert_eq!(tally(&vec![]), (0, 0));
}

#[test]
fn the_generator_is_the_usual_one() {
    assert_eq!(Lcg::new(4).0, 5);
    assert_eq!(Lcg::new(5).0, 5);
    assert_eq!(Lcg::new(u64::MAX).0, u64::MAX);
    let mut rng = Lcg::new(0xCAFEBABE);
    let mut state: u64 = 0xCAFEBABE | 1;
    for _ in 0..100 {
        state = state.wrapping_mul(6364136223846793005).wrapping_add(1442695040888963407);
        assert_eq!(rng.next_u32(), (state >> 33) as u32);
        assert_eq!(rng.0, state);
    }
}

#[test]
fn trial_files_are_videos() {
    for name in ["a.mp4", "a.MOV", "a.mkv", "a.webm", "a.m4v"] {
        assert!(is_trial_file(name));
    }
    assert!(!is_trial_file("a.avi") && !is_trial_file("a"));
}

#[test]
fn seeks_land_within_a_tolerance() {
    assert!(has_landed(1_150_000, 1_000_000));
    assert!(has_landed(850_000, 1_000_000));
    assert!(!has_landed(1_150_001, 1_000_000));
    assert!(!has_landed(849_999, 1_000_000));
    assert!(!has_landed(i64::MIN, i64::MIN));
    assert!(!has_landed(i64::MIN, i64::MAX));
}

#[test]
fn a_log_notes_changes() {
    let mut log = PtsLog::new();
    assert_eq!((log.first(), log.last()), (i64::MIN, i64::MIN));
    for pts in [i64::MIN, 1, 1, 2, i64::MIN, 2, 1] {
        log.observe(pts);
    }
    assert_eq!(log.seen, vec![1, 2, 1]);
    assert_eq!((log.first(), log.last()), (1, 1));
    assert!(is_new_pts(2, 1) && !is_new_pts(1, 1) && !is_new_pts(i64::MIN, 1));
}

#[test]
fn a_log_is_searched_near_a_target() {
    let log = PtsLog { seen: vec![10, 480, 505, 500] };
    assert_eq!(log.first_near(500, 20), Some(505));
    assert_eq!(log.first_near(500, 21), Some(480));
    assert_eq!(log.first_near(500, 5), Some(500));
    assert_eq!(log.first_near(500, 0), None);
    let log = PtsLog { seen: vec![0, 5_100_000] };
    assert!(log.seek_landed(5_000_000, 10_000_000, 3));
    let log = PtsLog { seen: vec![5_200_000, 5_000_000] };
    assert!(!log.seek_landed(5_000_000, 10_000_000, 3));
    assert!(!PtsLog::new().seek_landed(5_000_000, 10_000_000, 3));
}

#[test]
fn playback_has_to_make_progress() {
    let steps = |step: i64, n: i64| PtsLog { seen: (1..=n).map(|i| i * step).collect() };
    assert!(steps(50_000, 30).played());
    assert!(!steps(50_000, 29).played());
    assert!(!steps(49_999, 30).played());
    assert!(steps(40_000, 30).not_stuck());
    assert!(!steps(30_000, 30).not_stuck());
    assert!(!PtsLog::new().not_stuck());
    assert!(steps(100_000, 10).resumed(799_999, PlayerState::Playing));
    assert!(!steps(100_000, 10).resumed(800_000, PlayerState::Playing));
    assert!(!steps(100_000, 9).resumed(0, PlayerState::Playing));
    assert!(!steps(100_000, 10).resumed(0, PlayerState::Paused));
}

#[test]
fn steps_have_to_move() {
    assert!(steps_pass(&vec![1, 2, 5], true));
    assert!(!steps_pass(&vec![1, 2, 2], true));
    assert!(!steps_pass(&vec![1, 3, 2], true));
    assert!(steps_pass(&vec![5, 2, 1], false));
    assert!(!steps_pass(&vec![5, 5], false));
    assert!(!steps_pass(&vec![5, 6], false));
    assert!(steps_pass(&vec![], true) && steps_pass(&vec![7], false));
}

#[test]
fn repeats_are_counted() {
    let pts = vec![3, 1, 3, 2, 3, 1];
    assert_eq!(count_kinds(&pts), 3);
    assert_eq!(max_repeat(&pts), 3);
    assert_eq!(count_kinds(&vec![]), 0);
    assert_eq!(max_repeat(&vec![]), 0);
    assert!(random_seeks_pass(0, &pts));
    assert!(!random_seeks_pass(1, &pts));
    assert!(!random_seeks_pass(0, &vec![4, 4, 4, 4]));
}

#[test]
fn random_operations_can_be_repeated() {
    let mut drawn = Lcg::new(0xF00D_FACE_CAFE_0001);
    let ops = random_ops(&mut drawn, 25);
    assert_eq!(ops, random_ops(&mut Lcg::new(0xF00D_FACE_CAFE_0001), 25));
    let mut rng = Lcg::new(0xF00D_FACE_CAFE_0001);
    for op in &ops {
        let expected = match rng.next_u32() % 3 {
            0 => Op::Seek(rng.next_u32()),
            1 => Op::StepF(1 + (rng.next_u32() % 3) as i32),
            _ => Op::StepB(1 + (rng.next_u32() % 3) as i32),
        };
        assert_eq!(*op, expected);
    }
    assert_eq!(ops.len(), 25);
    assert_eq!(drawn.0, rng.0);
}

#[test]
fn operations_are_judged() {
    assert!(op_passes(Op::Seek(0), 1_000_000, 0, 1_100_000));
    assert!(!op_passes(Op::Seek(0), 1_000_000, 0, 1_200_000));
    assert!(op_passes(Op::StepF(2), 0, 5, 6) && !op_passes(Op::StepF(2), 0, 5, 5));
    assert!(op_passes(Op::StepB(2), 0, 5, 4) && !op_passes(Op::StepB(2), 0, 5, 5));
}
