use fast_photo_viewer::media::{MediaFilter, ViewOrder};
use fast_photo_viewer::navigation::{is_same_path, Navigator};

fn scanned(names: &[&str]) -> Navigator {
    let mut nav = Navigator::new();
    nav.start_scan();
    for name in names {
        nav.scan_found(name.to_string());
    }
    nav.scan_finished();
    nav
}

#[test]
fn a_new_navigator_is_empty() {
    let nav = Navigator::new();
    assert!(nav.media_paths.is_empty() && nav.history.is_empty());
    assert_eq!(nav.history_index, None);
    assert_eq!(nav.current, None);
    assert_eq!(nav.filter, MediaFilter::All);
    assert_eq!(nav.order, ViewOrder::Random);
    assert!(!nav.scanning);
    assert_eq!(nav.scan_count, 0);
}

#[test]
fn a_scan_lists_media_in_order() {
    let mut nav = Navigator::new();
    nav.start_scan();
    assert!(nav.scanning);
    nav.scan_found("/m/c.png".to_string());
    nav.scan_found("/m/readme.txt".to_string());
    nav.scan_found("/m/a.mp4".to_string());
    nav.scan_found("/m/b/z.jpg".to_string());
    assert_eq!(nav.scan_count, 3);
    assert_eq!(nav.media_paths[0], "/m/c.png");
    nav.scan_finished();
    assert!(!nav.scanning);
    assert_eq!(nav.media_paths, vec!["/m/a.mp4", "/m/b/z.jpg", "/m/c.png"]);
}

#[test]
fn paths_are_sorted_part_by_part() {
    let nav = scanned(&["/m/a.b/x.png", "/m/a/y.png"]);
    assert_eq!(nav.media_paths, vec!["/m/a/y.png", "/m/a.b/x.png"]);
}

#[test]
fn a_new_scan_forgets_the_old() {
    let mut nav = scanned(&["/m/a.png"]);
    nav.open_file("/m/a.png".to_string());
    nav.cycle_filter();
    nav.toggle_order();
    nav.start_scan();
    assert!(nav.media_paths.is_empty() && nav.history.is_empty());
    assert_eq!(nav.current, None);
    assert_eq!(nav.history_index, None);
    assert_eq!(nav.scan_count, 0);
    assert_eq!(nav.filter, MediaFilter::ImagesOnly);
    assert_eq!(nav.order, ViewOrder::Ordered);
}

#[test]
fn an_opened_file_starts_the_history() {
    let mut nav = Navigator::new();
    nav.start_scan();
    nav.open_file("/m/b.png".to_string());
    assert_eq!(nav.history, vec!["/m/b.png"]);
    assert_eq!(nav.history_index, Some(0));
    assert_eq!(nav.current, Some("/m/b.png".to_string()));
}

#[test]
fn ordered_steps_wrap_around() {
    let mut nav = scanned(&["/m/a.png", "/m/b.png", "/m/c.png"]);
    nav.toggle_order();
    assert_eq!(nav.go_next(), Some("/m/a.png".to_string()));
    assert_eq!(nav.go_next(), Some("/m/b.png".to_string()));
    assert_eq!(nav.go_next(), Some("/m/c.png".to_string()));
    assert_eq!(nav.go_next(), Some("/m/a.png".to_string()));
    assert_eq!(nav.go_prev(), Some("/m/c.png".to_string()));
    assert!(nav.history.is_empty());
}

#[test]
fn an_ordered_step_back_starts_at_the_end() {
    let mut nav = scanned(&["/m/a.png", "/m/b.png"]);
    nav.toggle_order();
    assert_eq!(nav.ordered_step(false), Some("/m/b.png".to_string()));
}

#[test]
fn ordered_steps_skip_what_the_filter_keeps_out() {
    let mut nav = scanned(&["/m/a.png", "/m/b.mp4", "/m/c.png", "/m/d.mp4"]);
    nav.toggle_order();
    nav.cycle_filter();
    nav.cycle_filter();
    assert_eq!(nav.filter, MediaFilter::VideosOnly);
    assert_eq!(nav.go_next(), Some("/m/b.mp4".to_string()));
    assert_eq!(nav.go_next(), Some("/m/d.mp4".to_string()));
    assert_eq!(nav.go_next(), Some("/m/b.mp4".to_string()));
}

#[test]
fn ordered_steps_may_come_back_to_the_same_file() {
    let mut nav = scanned(&["/m/a.png", "/m/b.mp4"]);
    nav.toggle_order();
    nav.cycle_filter();
    assert_eq!(nav.go_next(), Some("/m/a.png".to_string()));
    assert_eq!(nav.go_next(), Some("/m/a.png".to_string()));
}

#[test]
fn there_may_be_nothing_to_step_to() {
    let mut nav = Navigator::new();
    assert_eq!(nav.go_next(), None);
    assert_eq!(nav.go_prev(), None);
    nav.toggle_order();
    assert_eq!(nav.go_next(), None);
    assert_eq!(nav.go_prev(), None);
    let mut nav = scanned(&["/m/a.png"]);
    nav.toggle_order();
    nav.cycle_filter();
    nav.cycle_filter();
    assert_eq!(nav.go_next(), None);
    assert_eq!(nav.current, None);
}

#[test]
fn a_step_forward_and_one_back_cancel() {
    let mut nav = scanned(&["/m/a.png", "/m/b.png", "/m/c.png"]);
    nav.toggle_order();
    nav.go_next();
    nav.go_next();
    nav.go_next();
    assert_eq!(nav.go_prev(), Some("/m/b.png".to_string()));
    assert_eq!(nav.go_next(), Some("/m/c.png".to_string()));
}

#[test]
fn a_path_is_known_however_it_is_written() {
    let same = |a: &str, b: &str| is_same_path(&a.to_string(), &b.to_string());
    assert!(same("dir/a.jpg", "dir//a.jpg") && same("dir/./a.jpg", "dir/a.jpg"));
    assert!(same("dir/a.jpg", "dir/a.jpg") && same("", ""));
    assert!(!same("dir/a.jpg", "dir/b.jpg") && !same("dir/b.jpg", "dir/a.jpg"));
    assert!(!same("dir/a.jpg", "/dir/a.jpg") && !same("dir/a.jpg", "dir/A.jpg"));
}

#[test]
fn a_file_opened_by_another_text_is_found_in_the_list() {
    let mut nav = scanned(&["dir/a.jpg", "dir/b.jpg", "dir/c.jpg"]);
    nav.open_file("dir//b.jpg".to_string());
    // Seen already, so no random step leads there.
    assert_eq!(nav.random_candidates(), vec![0, 2]);
    nav.visit_random(Some(0));
    nav.visit_random(Some(2));
    nav.current = Some("dir/./c.jpg".to_string());
    // All were seen: any but the one on display.
    assert_eq!(nav.random_candidates(), vec![0, 1]);
    nav.toggle_order();
    nav.current = Some("dir//a.jpg".to_string());
    assert_eq!(nav.go_next(), Some("dir/b.jpg".to_string()));
    assert_eq!(nav.go_prev(), Some("dir/a.jpg".to_string()));
    nav.current = Some("dir//a.jpg".to_string());
    assert_eq!(nav.go_prev(), Some("dir/c.jpg".to_string()));
}

#[test]
fn filtered_steps_cancel_too() {
    let mut nav = scanned(&["/m/a.mp4", "/m/b.png", "/m/c.mp4", "/m/d.png", "/m/e.png"]);
    nav.toggle_order();
    nav.cycle_filter();
    for start in ["/m/b.png", "/m/d.png", "/m/e.png"] {
        nav.current = Some(start.to_string());
        nav.go_next();
        assert_eq!(nav.go_prev(), Some(start.to_string()));
        nav.go_prev();
        assert_eq!(nav.go_next(), Some(start.to_string()));
    }
}

#[test]
fn the_count_is_that_of_the_files_listed() {
    let mut nav = scanned(&["/m/b.png", "/m/notes.txt", "/m/a.png", "/m/a.png"]);
    assert_eq!((nav.scan_count, nav.media_paths.len()), (3, 3));
    nav.go_next();
    nav.open_file("/m/c.png".to_string());
    nav.cycle_filter();
    assert_eq!((nav.scan_count, nav.media_paths.len()), (3, 3));
    nav.start_scan();
    assert_eq!((nav.scan_count, nav.media_paths.len()), (0, 0));
}

#[test]
fn random_steps_show_every_file_before_any_twice() {
    let names = ["/m/a.png", "/m/b.png", "/m/c.png", "/m/d.png", "/m/e.png"];
    let mut nav = scanned(&names);
    let mut seen: Vec<String> = Vec::new();
    for _ in 0..names.len() {
        seen.push(nav.go_next().unwrap());
    }
    seen.sort();
    assert_eq!(seen, names.to_vec());
    assert_eq!(nav.history.len(), 5);
    assert_eq!(nav.history_index, Some(4));
}

#[test]
fn random_candidates_leave_out_what_was_seen() {
    let mut nav = scanned(&["/m/a.png", "/m/b.png", "/m/c.mp4"]);
    assert_eq!(nav.random_candidates(), vec![0, 1, 2]);
    nav.open_file("/m/b.png".to_string());
    assert_eq!(nav.random_candidates(), vec![0, 2]);
    nav.cycle_filter();
    assert_eq!(nav.random_candidates(), vec![0]);
    nav.open_file("/m/a.png".to_string());
    // All pictures were seen: any but the one on display.
    assert_eq!(nav.random_candidates(), vec![1]);
    nav.cycle_filter();
    nav.open_file("/m/c.mp4".to_string());
    // The only video, which is on display.
    assert_eq!(nav.random_candidates(), vec![2]);
}

#[test]
fn a_random_choice_joins_the_history() {
    let mut nav = scanned(&["/m/a.png", "/m/b.png"]);
    assert_eq!(nav.visit_random(Some(1)), Some("/m/b.png".to_string()));
    assert_eq!(nav.history, vec!["/m/b.png"]);
    assert_eq!(nav.history_index, Some(0));
    assert_eq!(nav.visit_random(None), None);
    assert_eq!(nav.history.len(), 1);
}

#[test]
fn going_back_leads_through_the_history() {
    let mut nav = scanned(&["/m/a.png", "/m/b.png", "/m/c.png"]);
    let first = nav.go_next().unwrap();
    let second = nav.go_next().unwrap();
    let third = nav.go_next().unwrap();
    assert_eq!(nav.go_prev(), Some(second.clone()));
    assert_eq!(nav.go_prev(), Some(first.clone()));
    assert_eq!(nav.go_prev(), None);
    assert_eq!(nav.current, Some(first));
    assert_eq!(nav.go_next(), Some(second));
    assert_eq!(nav.go_next(), Some(third));
    assert_eq!(nav.history.len(), 3);
}

#[test]
fn the_history_is_filtered() {
    let mut nav = scanned(&["/m/a.png", "/m/b.mp4", "/m/c.png"]);
    nav.visit_random(Some(0));
    nav.visit_random(Some(1));
    nav.visit_random(Some(2));
    nav.cycle_filter();
    assert_eq!(nav.go_prev(), Some("/m/a.png".to_string()));
    assert_eq!(nav.history_index, Some(0));
    assert_eq!(nav.go_next(), Some("/m/c.png".to_string()));
    assert_eq!(nav.history_index, Some(2));
}

#[test]
fn when_all_was_seen_random_steps_go_elsewhere() {
    let mut nav = scanned(&["/m/a.png", "/m/b.png"]);
    nav.go_next();
    nav.go_next();
    for _ in 0..10 {
        let before = nav.current.clone();
        let after = nav.next_random_media();
        assert!(after.is_some());
        assert_ne!(before, after);
    }
}
