use fast_photo_viewer::media::{
    all_extensions, display_name, extension, has_ext, heif_extensions, image_extensions,
    is_heif_file, is_image_file, is_raw_file, is_supported_file, is_svg_file, is_video_file, loader_for,
    matches_filter, name_has_ext, raw_extensions, video_extensions, Loader, MediaFilter, ViewOrder,
};

#[test]
fn extensions_are_told_from_names() {
    assert_eq!(extension("photo.jpg"), Some("jpg".to_string()));
    assert_eq!(extension("archive.tar.gz"), Some("gz".to_string()));
    assert_eq!(extension("photo."), Some("".to_string()));
    assert_eq!(extension("photo"), None);
    assert_eq!(extension(".hidden"), None);
    assert_eq!(extension("..jpg"), Some("jpg".to_string()));
    assert_eq!(extension("наброски.PNG"), Some("PNG".to_string()));
}

#[test]
fn extensions_agree_with_the_standard_library() {
    for name in ["a.jpg", "a", ".a", "a.", "a.b.c", "..a", "a..", "x.JPeG", "é.ü"] {
        let expected = std::path::Path::new(name)
            .extension()
            .map(|e| e.to_str().unwrap().to_string());
        assert_eq!(extension(name), expected, "{}", name);
    }
}

#[test]
fn the_case_of_an_extension_does_not_matter() {
    assert!(has_ext("/pictures/IMG_1.JPG", &["png", "jpg"]));
    assert!(has_ext("IMG_1.jPg", &["jpg"]));
    assert!(!has_ext("IMG_1.jpg", &["JPG"]));
    assert!(!has_ext("IMG_1.jpeg", &["jpg"]));
    assert!(!has_ext("IMG_1", &["jpg"]));
    assert!(!has_ext("IMG_1.jpg", &[]));
}

#[test]
fn only_the_last_part_of_a_path_counts() {
    assert!(!has_ext("/videos.mp4/readme", &["mp4"]));
    assert!(has_ext("/videos/clip.mp4/", &["mp4"]));
    assert!(!has_ext("/videos.mp4/..", &["mp4"]));
    assert!(!has_ext("", &["mp4"]));
    assert!(!has_ext("/", &["mp4"]));
}

#[test]
fn names_without_a_path_are_looked_up() {
    assert!(name_has_ext(Some("clip.MKV"), &["mp4", "mkv"]));
    assert!(!name_has_ext(Some("clip"), &["mp4", "mkv"]));
    assert!(!name_has_ext(None, &["mp4", "mkv"]));
}

#[test]
fn capitals_outside_ascii_are_made_small() {
    assert!(has_ext("photo.ÄÖ", &["äö"]));
    assert!(!has_ext("photo.ÄÖ", &["ÄÖ"]));
}

#[test]
fn names_are_shown_without_their_folder() {
    assert_eq!(display_name("/photos/2020/beach.jpg"), "beach.jpg");
    assert_eq!(display_name("beach.jpg"), "beach.jpg");
    assert_eq!(display_name("/"), "");
}

#[test]
fn kinds_of_files_are_told_apart() {
    assert!(is_image_file("a.jpg") && is_image_file("a.svg") && is_image_file("a.heic"));
    assert!(is_image_file("a.NEF") && is_image_file("a.ico") && is_image_file("a.tiff"));
    assert!(!is_image_file("a.mp4") && !is_image_file("a.tif") && !is_image_file("a.txt"));
    assert!(is_video_file("a.mp4") && is_video_file("a.TS") && is_video_file("a.vob"));
    assert!(!is_video_file("a.jpg") && !is_video_file("a.mp3"));
    assert!(is_raw_file("a.cr2") && is_raw_file("a.mos") && !is_raw_file("a.jpg"));
    assert!(is_heif_file("a.avif") && is_heif_file("a.HEIF") && !is_heif_file("a.nef"));
    assert!(is_supported_file("a.png") && is_supported_file("a.webm"));
    assert!(!is_supported_file("a.txt") && !is_supported_file("a"));
}

#[test]
fn extension_lists_are_complete() {
    assert_eq!(raw_extensions().len(), 21);
    assert_eq!(heif_extensions(), vec!["heic", "heif", "avif"]);
    assert_eq!(image_extensions().len(), 9 + 3 + 21);
    assert_eq!(
        video_extensions(),
        vec![
            "mp4", "mkv", "avi", "mov", "wmv", "flv", "webm", "m4v", "mpg", "mpeg", "3gp", "ogv",
            "ts", "vob"
        ]
    );
    assert_eq!(all_extensions().len(), 33 + 14);
    assert_eq!(all_extensions()[0], "jpg");
    assert_eq!(all_extensions()[33], "mp4");
}

#[test]
fn raw_and_heif_files_are_images() {
    for ext in raw_extensions().into_iter().chain(heif_extensions()) {
        assert!(is_image_file(&format!("x.{}", ext)));
        assert!(!is_video_file(&format!("x.{}", ext)));
    }
}

#[test]
fn filters_admit_their_kind() {
    assert!(matches_filter("a.txt", MediaFilter::All));
    assert!(matches_filter("a.jpg", MediaFilter::ImagesOnly));
    assert!(!matches_filter("a.mp4", MediaFilter::ImagesOnly));
    assert!(matches_filter("a.mp4", MediaFilter::VideosOnly));
    assert!(!matches_filter("a.jpg", MediaFilter::VideosOnly));
}

#[test]
fn filters_come_round_after_three() {
    assert_eq!(MediaFilter::All.cycle(), MediaFilter::ImagesOnly);
    assert_eq!(MediaFilter::ImagesOnly.cycle(), MediaFilter::VideosOnly);
    assert_eq!(MediaFilter::VideosOnly.cycle(), MediaFilter::All);
    assert_eq!(MediaFilter::All.label(), "All Media");
    assert_eq!(MediaFilter::ImagesOnly.label(), "Images Only");
    assert_eq!(MediaFilter::VideosOnly.label(), "Videos Only");
}

#[test]
fn the_order_toggles() {
    assert_eq!(ViewOrder::Random.toggle(), ViewOrder::Ordered);
    assert_eq!(ViewOrder::Ordered.toggle(), ViewOrder::Random);
    assert_eq!(ViewOrder::Random.label(), "Random");
    assert_eq!(ViewOrder::Ordered.label(), "Ordered");
}

#[test]
fn each_file_has_its_loader() {
    assert!(matches!(loader_for("a.mp4"), Loader::Video));
    assert!(matches!(loader_for("a.nef"), Loader::Raw));
    assert!(matches!(loader_for("a.heic"), Loader::Heif));
    assert!(matches!(loader_for("a.svg"), Loader::Still));
    assert!(is_svg_file("a.svg") && is_svg_file("/m/A.SVG") && !is_svg_file("svg"));
    assert!(matches!(loader_for("a.png"), Loader::Still));
    assert!(matches!(loader_for("a.txt"), Loader::Still));
}

#[test]
fn no_extension_is_of_a_picture_and_a_video() {
    for ext in image_extensions() {
        assert!(!video_extensions().contains(&ext), "{}", ext);
    }
    for ext in all_extensions() {
        let path = format!("x.{}", ext);
        assert_ne!(
            matches_filter(&path, MediaFilter::ImagesOnly),
            matches_filter(&path, MediaFilter::VideosOnly)
        );
    }
}
