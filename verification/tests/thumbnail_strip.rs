use fast_photo_viewer::thumbnails::{
    nearest, segment, thumb_height, thumb_pixels, to_upload, ThumbAction, ThumbSearch, THUMB_COUNT,
    THUMB_WIDTH,
};

#[test]
fn thumbnails_keep_their_proportions() {
    assert_eq!((THUMB_COUNT, THUMB_WIDTH), (20, 192));
    assert_eq!(thumb_height(1920, 1080), 108);
    assert_eq!(thumb_height(1080, 1920), 341);
    assert_eq!(thumb_height(0, 1080), 108);
    assert_eq!(thumb_height(10_000, 1), 1);
    assert_eq!(thumb_height(1, u32::MAX), (192u64 * u32::MAX as u64) as u32);
}

#[test]
fn thumbnails_are_taken_a_quarter_into_their_stretch() {
    let first = segment(20_000_000, 20, 0).unwrap();
    assert_eq!((first.target_us, first.end_us), (250_000, 1_250_000));
    let last = segment(20_000_000, 20, 19).unwrap();
    assert_eq!((last.target_us, last.end_us), (19_250_000, 20_250_000));
    let odd = segment(100, 7, 3).unwrap();
    assert_eq!((odd.target_us, odd.end_us), (42 + 3, 42 + 3 + 14));
    assert!(segment(0, 20, 0).is_none());
    assert!(segment(-1, 20, 0).is_none());
}

#[test]
fn targets_stay_in_the_video() {
    for duration in [1i64, 19, 20, 1_000_003] {
        for i in 0..THUMB_COUNT {
            let s = segment(duration, THUMB_COUNT, i).unwrap();
            assert!(0 <= s.target_us && s.target_us <= duration);
        }
    }
}

#[test]
fn a_search_reads_so_many_packets() {
    let mut search = ThumbSearch::new(1);
    assert_eq!(search.packet(Some(0)), ThumbAction::Skip);
    assert_eq!(search.packet(Some(1)), ThumbAction::Decode);
    for _ in 2..200 {
        assert_eq!(search.packet(Some(1)), ThumbAction::Decode);
    }
    assert_eq!(search.packet(Some(1)), ThumbAction::GiveUp);
    let mut search = ThumbSearch::new(1);
    assert_eq!(search.packet(None), ThumbAction::GiveUp);
}

#[test]
fn thumbnails_are_uploaded_once() {
    let ready = vec![true, false, true, true];
    assert_eq!(to_upload(&ready, &vec![false, false, true, false]), vec![0, 3]);
    assert_eq!(to_upload(&ready, &vec![true]), vec![2, 3]);
    assert_eq!(to_upload(&vec![], &vec![true]), Vec::<usize>::new());
}

#[test]
fn the_nearest_thumbnail_is_shown() {
    assert_eq!(nearest(&vec![false, true, false, true], 1), Some(1));
    assert_eq!(nearest(&vec![false, true, false, true], 2), Some(1));
    assert_eq!(nearest(&vec![false, false, false, true], 0), Some(3));
    assert_eq!(nearest(&vec![true, false, false, false], 3), Some(0));
    assert_eq!(nearest(&vec![true, false, false, true], 2), Some(3));
    assert_eq!(nearest(&vec![true, false], 100), Some(0));
    assert_eq!(nearest(&vec![false, false], 0), None);
    assert_eq!(nearest(&vec![], 0), None);
}

#[test]
fn rows_of_thumbnails_are_packed() {
    assert_eq!(
        thumb_pixels(1, 2, &[1, 2, 3, 4, 0, 5, 6, 7, 8], 5),
        vec![1, 2, 3, 4, 5, 6, 7, 8]
    );
}
