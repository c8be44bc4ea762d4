use fast_photo_viewer::media::MediaFilter;
use fast_photo_viewer::picture::Picture;
use fast_photo_viewer::shared::PlayerState;
use fast_photo_viewer::viewer::{
    can_seek, key_actions, play_button, texture_corners, toggle_play, turned_size, zoom_keys,
    BarInput, KeyAction, Keys, PlayAction, StatusLine, Viewer,
};

fn no_keys() -> Keys {
    Keys {
        ctrl: false,
        right: false,
        left: false,
        up: false,
        down: false,
        space: false,
        o: false,
        f: false,
        f11: false,
        escape: false,
        m: false,
        r: false,
        zero: false,
        plus: false,
        equals: false,
        minus: false,
    }
}

fn all_keys() -> Keys {
    Keys {
        ctrl: false,
        right: true,
        left: true,
        up: true,
        down: true,
        space: true,
        o: true,
        f: true,
        f11: true,
        escape: true,
        m: true,
        r: true,
        zero: true,
        plus: true,
        equals: true,
        minus: true,
    }
}

fn common() -> Vec<KeyAction> {
    vec![
        KeyAction::OpenFolder,
        KeyAction::OpenFile,
        KeyAction::ToggleFullscreen,
        KeyAction::Escape,
        KeyAction::CycleFilter,
        KeyAction::ToggleOrder,
        KeyAction::ResetZoom,
    ]
}

#[test]
fn keys_of_a_picture() {
    assert!(key_actions(false, no_keys()).is_empty());
    let mut expected = vec![KeyAction::Next, KeyAction::Previous];
    expected.extend(common());
    assert_eq!(key_actions(false, all_keys()), expected);
    assert_eq!(
        key_actions(false, Keys { space: true, ..no_keys() }),
        vec![KeyAction::Next]
    );
    assert!(key_actions(false, Keys { up: true, down: true, ..no_keys() }).is_empty());
}

#[test]
fn keys_of_a_video() {
    assert!(key_actions(true, no_keys()).is_empty());
    let mut expected = vec![
        KeyAction::SeekForward,
        KeyAction::SeekBack,
        KeyAction::Louder,
        KeyAction::Quieter,
        KeyAction::TogglePlay,
    ];
    expected.extend(common());
    assert_eq!(key_actions(true, all_keys()), expected);
    assert_eq!(
        key_actions(true, Keys { ctrl: true, left: true, right: true, ..no_keys() }),
        vec![KeyAction::Next, KeyAction::Previous]
    );
}

#[test]
fn keys_that_zoom() {
    assert!(zoom_keys(no_keys()).is_empty());
    assert_eq!(zoom_keys(Keys { plus: true, ..no_keys() }), vec![KeyAction::ZoomIn]);
    assert_eq!(zoom_keys(Keys { equals: true, ..no_keys() }), vec![KeyAction::ZoomIn]);
    assert_eq!(zoom_keys(all_keys()), vec![KeyAction::ZoomIn, KeyAction::ZoomOut]);
}

#[test]
fn play_and_pause_by_state() {
    assert_eq!(toggle_play(PlayerState::Playing), PlayAction::Pause);
    assert_eq!(toggle_play(PlayerState::Paused), PlayAction::Play);
    assert_eq!(toggle_play(PlayerState::EndOfFile), PlayAction::Restart);
    assert_eq!(toggle_play(PlayerState::Loading), PlayAction::Nothing);
    assert_eq!(toggle_play(PlayerState::Error), PlayAction::Nothing);
    assert_eq!(play_button(PlayerState::Playing), PlayAction::Pause);
    assert_eq!(play_button(PlayerState::EndOfFile), PlayAction::Restart);
    assert_eq!(play_button(PlayerState::Loading), PlayAction::Play);
    assert_eq!(play_button(PlayerState::Error), PlayAction::Play);
    assert!(can_seek(1) && !can_seek(0) && !can_seek(-1));
}

#[test]
fn two_taps_close_the_window() {
    let mut viewer = Viewer::new();
    assert!(!viewer.escape(1_000_000));
    assert!(!viewer.escape(1_500_000));
    assert!(viewer.escape(1_999_999));
    assert_eq!(viewer.last_escape_us, Some(1_999_999));
}

#[test]
fn a_new_viewer_shows_nothing() {
    let viewer = Viewer::new();
    assert!(!viewer.is_video && !viewer.has_player && !viewer.has_texture);
    assert!(viewer.video_looping && viewer.video_has_audio);
    assert_eq!(viewer.video_rotation, 0);
    assert!(viewer.picture.is_none() && viewer.error.is_none());
    assert!(viewer.status().is_none());
}

#[test]
fn a_video_comes_and_goes() {
    let mut viewer = Viewer::new();
    viewer.picture_loaded("p.png", Ok(Picture { width: 1, height: 1, rgba: vec![0; 4] }));
    assert!(viewer.has_texture);
    viewer.scrubbing = Some(1);
    viewer.begin_video();
    assert!(viewer.picture.is_none() && !viewer.has_texture && viewer.scrubbing.is_none());
    viewer.video_opened(false);
    assert!(viewer.is_video && viewer.has_player && !viewer.video_has_audio);
    viewer.video_failed("v.mp4", "no video stream");
    assert!(!viewer.is_video && !viewer.has_player);
    assert_eq!(viewer.error, Some("Error loading video v.mp4: no video stream".to_string()));
    viewer.video_opened(true);
    assert_eq!(viewer.error, None);
    viewer.begin_picture();
    assert!(!viewer.is_video && !viewer.has_player);
    viewer.picture_loaded("p.png", Err("bad".to_string()));
    assert_eq!(viewer.error, Some("Error loading p.png: bad".to_string()));
    assert!(!viewer.has_texture);
}

#[test]
fn a_scan_clears_the_display() {
    let mut viewer = Viewer::new();
    viewer.video_opened(true);
    viewer.rotate(true);
    viewer.start_scan();
    assert!(!viewer.is_video && !viewer.has_player);
    assert_eq!(viewer.video_rotation, 0);
    assert!(viewer.nav.scanning);
}

#[test]
fn videos_are_turned_by_quarters() {
    let mut viewer = Viewer::new();
    viewer.video_opened(true);
    for expected in [90, 180, 270, 0] {
        viewer.rotate(true);
        assert_eq!(viewer.video_rotation, expected);
    }
    viewer.rotate(false);
    assert_eq!(viewer.video_rotation, 270);
    viewer.rotate(true);
    assert_eq!(viewer.video_rotation, 0);
}

#[test]
fn pictures_are_turned_too() {
    let mut viewer = Viewer::new();
    viewer.rotate(true);
    assert!(viewer.picture.is_none());
    let rgba = vec![1, 1, 1, 1, 2, 2, 2, 2];
    viewer.picture_loaded("p.png", Ok(Picture { width: 2, height: 1, rgba: rgba.clone() }));
    viewer.rotate(true);
    assert_eq!(viewer.picture.as_ref().unwrap().height, 2);
    assert_eq!(viewer.video_rotation, 0);
    viewer.rotate(false);
    assert_eq!(viewer.picture.as_ref().unwrap().rgba, rgba);
}

#[test]
fn turned_videos_swap_their_sides() {
    assert_eq!(turned_size(0, 4, 3), (4, 3));
    assert_eq!(turned_size(90, 4, 3), (3, 4));
    assert_eq!(turned_size(180, 4, 3), (4, 3));
    assert_eq!(turned_size(270, 4, 3), (3, 4));
}

#[test]
fn corners_of_a_turned_video() {
    assert_eq!(texture_corners(0), [(0, 0), (1, 0), (1, 1), (0, 1)]);
    assert_eq!(texture_corners(90), [(0, 1), (0, 0), (1, 0), (1, 1)]);
    assert_eq!(texture_corners(180), [(1, 1), (0, 1), (0, 0), (1, 0)]);
    assert_eq!(texture_corners(270), [(1, 0), (1, 1), (0, 1), (0, 0)]);
    for (i, degrees) in [0u16, 90, 180].iter().enumerate() {
        let before = texture_corners(*degrees);
        let after = texture_corners(degrees + 90);
        assert_eq!(after[1], before[0], "{}", i);
        assert_eq!(after[0], before[3], "{}", i);
    }
}

fn bar() -> BarInput {
    BarInput {
        drag_started: false,
        dragged: false,
        drag_stopped: false,
        clicked: false,
        hovered: false,
        pointer: None,
    }
}

#[test]
fn dragging_seeks_when_let_go() {
    let mut viewer = Viewer::new();
    let out = viewer.seek_bar(BarInput { drag_started: true, pointer: Some(1), ..bar() }, 100);
    assert_eq!((out.release, out.click, out.preview), (None, None, None));
    assert_eq!(viewer.scrubbing, Some(1));
    let out = viewer.seek_bar(BarInput { dragged: true, pointer: Some(2), ..bar() }, 100);
    assert_eq!(out.preview, Some(2));
    viewer.seek_bar(BarInput { dragged: true, ..bar() }, 100);
    assert_eq!(viewer.scrubbing, Some(2));
    let out = viewer.seek_bar(BarInput { drag_stopped: true, ..bar() }, 100);
    assert_eq!(out.release, Some(2));
    assert_eq!(viewer.scrubbing, None);
    let out = viewer.seek_bar(BarInput { drag_stopped: true, ..bar() }, 100);
    assert_eq!(out.release, None);
}

#[test]
fn clicking_seeks_at_once() {
    let mut viewer = Viewer::new();
    let click = BarInput { clicked: true, hovered: true, pointer: Some(5), ..bar() };
    let out = viewer.seek_bar(click, 100);
    assert_eq!((out.release, out.click, out.preview), (None, Some(5), Some(5)));
    let out = viewer.seek_bar(click, 0);
    assert_eq!((out.release, out.click, out.preview), (None, None, None));
    viewer.scrubbing = Some(3);
    let out = viewer.seek_bar(BarInput { drag_stopped: true, ..bar() }, 0);
    assert_eq!(out.release, None);
    assert_eq!(viewer.scrubbing, None);
}

#[test]
fn looping_is_toggled() {
    let mut viewer = Viewer::new();
    assert!(!viewer.toggle_looping());
    assert!(viewer.toggle_looping());
}

fn plain(line: &StatusLine) -> (&'static str, String) {
    match line {
        StatusLine::Scanning(text) => ("scanning", text.clone()),
        StatusLine::Plain(text) => ("plain", text.clone()),
        StatusLine::Accent(text) => ("accent", text.clone()),
        StatusLine::Error(text) => ("error", text.clone()),
    }
}

fn lines(viewer: &Viewer) -> Vec<(&'static str, String)> {
    viewer.status().unwrap().iter().map(plain).collect()
}

#[test]
fn the_status_while_scanning() {
    let mut viewer = Viewer::new();
    viewer.start_scan();
    viewer.nav.scan_found("/m/a.png".to_string());
    assert_eq!(
        lines(&viewer),
        vec![
            ("scanning", "Scanning... Found 1 media files".to_string()),
            ("accent", "Order: Random".to_string())
        ]
    );
}

#[test]
fn the_status_of_a_file() {
    let mut viewer = Viewer::new();
    viewer.start_scan();
    viewer.nav.scan_found("/m/a.mp4".to_string());
    viewer.nav.scan_finished();
    assert_eq!(viewer.go_next(), Some("/m/a.mp4".to_string()));
    viewer.video_opened(true);
    viewer.nav.cycle_filter();
    viewer.nav.toggle_order();
    viewer.error = Some("oops".to_string());
    assert_eq!(viewer.nav.filter, MediaFilter::ImagesOnly);
    assert_eq!(
        lines(&viewer),
        vec![
            ("plain", "Total: 1 media files".to_string()),
            ("plain", "a.mp4".to_string()),
            ("plain", "(Video)".to_string()),
            ("plain", "History: 1/1".to_string()),
            ("accent", "Filter: Images Only".to_string()),
            ("accent", "Order: Ordered".to_string()),
            ("error", "oops".to_string())
        ]
    );
}

#[test]
fn another_file_is_not_turned() {
    let mut viewer = Viewer::new();
    viewer.start_scan();
    viewer.nav.scan_found("/m/a.mp4".to_string());
    viewer.nav.scan_found("/m/b.mp4".to_string());
    viewer.nav.scan_finished();
    viewer.go_next();
    viewer.video_opened(true);
    viewer.rotate(true);
    assert_eq!(viewer.go_next().is_some(), true);
    assert_eq!(viewer.video_rotation, 0);
    viewer.rotate(true);
    assert!(viewer.go_prev().is_some());
    assert_eq!(viewer.video_rotation, 0);
    viewer.rotate(true);
    assert!(viewer.go_prev().is_none());
    assert_eq!(viewer.video_rotation, 90);
}
