use fast_photo_viewer::decode::{
    decode_raw_image, developed, heif_error, heif_picture, load_image, load_still,
    raw_breakdown, raw_error, settle, settle_svg, HeifAction, HeifEvent, HeifFailure, HeifSearch, RawFailure,
};
use fast_photo_viewer::jpeg::{find_largest_embedded_jpeg, raw_preview, repair_truncated_jpeg};
use fast_photo_viewer::picture::Picture;
use fast_photo_viewer::pixels::pack_rows;

fn pattern(width: u32, height: u32) -> image::RgbImage {
    image::RgbImage::from_fn(width, height, |x, y| {
        image::Rgb([(x * 40 + y) as u8, (y * 50) as u8, (x * y) as u8])
    })
}

fn encoded(image: &image::RgbImage, format: image::ImageFormat) -> Vec<u8> {
    let mut out = std::io::Cursor::new(Vec::new());
    image::DynamicImage::ImageRgb8(image.clone())
        .write_to(&mut out, format)
        .unwrap();
    out.into_inner()
}

fn noisy(width: u32, height: u32) -> image::RgbImage {
    let mut state: u32 = 12345;
    image::RgbImage::from_fn(width, height, |_, _| {
        state = state.wrapping_mul(1664525).wrapping_add(1013904223);
        image::Rgb([(state >> 24) as u8, (state >> 16) as u8, (state >> 8) as u8])
    })
}

#[test]
fn a_picture_is_decoded() {
    let source = pattern(5, 3);
    let picture = load_image(&encoded(&source, image::ImageFormat::Png)).unwrap();
    assert_eq!((picture.width, picture.height), (5, 3));
    assert_eq!(picture.rgba.len(), 5 * 3 * 4);
    for (i, pixel) in source.pixels().enumerate() {
        assert_eq!(&picture.rgba[i * 4..i * 4 + 3], &pixel.0);
        assert_eq!(picture.rgba[i * 4 + 3], 255);
    }
}

#[test]
fn the_format_is_told_from_the_bytes() {
    let source = pattern(4, 4);
    for format in [image::ImageFormat::Bmp, image::ImageFormat::Png, image::ImageFormat::Tiff] {
        let picture = load_image(&encoded(&source, format)).unwrap();
        assert_eq!((picture.width, picture.height), (4, 4));
        assert_eq!(&picture.rgba[..3], &source.get_pixel(0, 0).0);
    }
}

#[test]
fn a_truncated_jpeg_is_mended() {
    let whole = encoded(&noisy(64, 64), image::ImageFormat::Jpeg);
    let cut = &whole[..whole.len() - 40];
    let picture = load_image(cut).unwrap();
    assert_eq!((picture.width, picture.height), (64, 64));
}

#[test]
fn bytes_that_are_no_image_are_an_error() {
    let expected = image::load_from_memory(b"not an image at all").unwrap_err().to_string();
    match load_image(b"not an image at all") {
        Err(error) => assert_eq!(error, expected),
        Ok(_) => panic!("decoded"),
    }
}

#[test]
fn a_failed_retry_names_both_errors() {
    let bytes = [0xFFu8, 0xD8, 0x00];
    let first = image::load_from_memory(&bytes).unwrap_err().to_string();
    let mended = repair_truncated_jpeg(&bytes).unwrap();
    let second = image::load_from_memory(&mended).unwrap_err().to_string();
    match load_image(&bytes) {
        Err(error) => assert_eq!(error, format!("Original: {}, Retry: {}", first, second)),
        Ok(_) => panic!("decoded"),
    }
}

#[test]
fn attempts_are_settled() {
    let picture = |n: u8| Picture { width: 1, height: 1, rgba: vec![n; 4] };
    let first: Result<Picture, String> = settle(Ok(picture(1)), None);
    assert_eq!(first.ok().unwrap().rgba, vec![1; 4]);
    let second = settle(Err("a".to_string()), Some(Ok(picture(2))));
    assert_eq!(second.ok().unwrap().rgba, vec![2; 4]);
    assert_eq!(settle(Err("a".to_string()), None).err().unwrap(), "a");
    assert_eq!(
        settle(Err("a".to_string()), Some(Err("b".to_string()))).err().unwrap(),
        "Original: a, Retry: b"
    );
}

fn drawing(width: u32, height: u32, fill: &str) -> Vec<u8> {
    format!(
        "<svg xmlns=\"http://www.w3.org/2000/svg\" width=\"{}\" height=\"{}\">\
         <rect width=\"{}\" height=\"{}\" fill=\"{}\"/></svg>",
        width, height, width, height, fill
    )
    .into_bytes()
}

fn drawn(bytes: &[u8]) -> Result<Picture, String> {
    let image = egui_extras::image::load_svg_bytes(bytes)?;
    Ok(Picture {
        width: image.size[0] as u32,
        height: image.size[1] as u32,
        rgba: image.pixels.iter().flat_map(|p| p.to_srgba_unmultiplied()).collect(),
    })
}

#[test]
fn files_named_as_svg_show_their_drawing() {
    let bytes = drawing(3, 2, "#0a64c8");
    let picture = load_still("/m/logo.SVG", &bytes, Some(drawn(&bytes))).unwrap();
    assert_eq!((picture.width, picture.height), (3, 2));
    assert_eq!(picture.rgba, [10, 100, 200, 255].repeat(6));
    assert_eq!(load_still("/m/logo.svg", &bytes, None).err(), load_image(&bytes).err());
    assert!(load_image(&bytes).is_err());
}

#[test]
fn only_files_named_as_svg_show_a_drawing() {
    let png = encoded(&pattern(5, 3), image::ImageFormat::Png);
    let other = || Some(Ok(Picture { width: 1, height: 1, rgba: vec![7; 4] }));
    assert_eq!(load_still("/m/a.png", &png, other()).unwrap().rgba, load_image(&png).unwrap().rgba);
    assert_eq!(load_still("/m/a.png", &png, None).unwrap().rgba, load_image(&png).unwrap().rgba);
    assert_eq!(load_still("/m/a.svg", &png, other()).unwrap().rgba, vec![7; 4]);
}

#[test]
fn what_could_not_be_drawn_is_decoded() {
    let png = encoded(&pattern(5, 3), image::ImageFormat::Png);
    let shown = load_still("/m/a.svg", &png, Some(drawn(&png))).unwrap();
    assert_eq!(shown.rgba, load_image(&png).unwrap().rgba);
    for bytes in [&b"<svg"[..], b"", b"\xff\xfe"] {
        let broken = Some(Err("svg renderer panicked".to_string()));
        assert_eq!(load_still("/m/a.svg", bytes, broken).err(), load_image(bytes).err());
        assert_eq!(load_still("/m/a.svg", bytes, Some(drawn(bytes))).err(), load_image(bytes).err());
    }
}

#[test]
fn a_drawing_without_room_says_so() {
    let bytes = drawing(4_000_000_000, 1, "red");
    let error = load_still("/m/a.svg", &bytes, Some(drawn(&bytes))).err().unwrap();
    assert!(error.starts_with("Failed to create SVG Pixmap of size "), "{}", error);
}

#[test]
fn drawings_are_settled() {
    let png = encoded(&pattern(2, 1), image::ImageFormat::Png);
    let drawn = Picture { width: 1, height: 1, rgba: vec![7; 4] };
    assert_eq!(settle_svg(Ok(drawn), &png).unwrap().rgba, vec![7; 4]);
    let refused = "Failed to create SVG Pixmap of size 9x9";
    assert_eq!(settle_svg(Err(refused.to_string()), &png).err().unwrap(), refused);
    assert_eq!(settle_svg(Err("no".to_string()), &png).unwrap().width, 2);
}

#[test]
fn the_largest_embedded_jpeg_is_found() {
    let small = [0xFF, 0xD8, 0xFF, 1, 0xFF, 0xD9];
    let large = [0xFF, 0xD8, 0xFF, 1, 2, 3, 4, 0xFF, 0xD9];
    let mut data = vec![9, 9];
    data.extend_from_slice(&small);
    data.push(0xFF);
    data.extend_from_slice(&large);
    data.extend_from_slice(&small);
    assert_eq!(find_largest_embedded_jpeg(&data), Some(&large[..]));
}

#[test]
fn of_two_equal_jpegs_the_first_is_found() {
    let a = [0xFF, 0xD8, 0xFF, 1, 0xFF, 0xD9];
    let b = [0xFF, 0xD8, 0xFF, 2, 0xFF, 0xD9];
    let data = [a, b].concat();
    assert_eq!(find_largest_embedded_jpeg(&data), Some(&a[..]));
}

#[test]
fn a_jpeg_without_an_end_is_not_found() {
    assert_eq!(find_largest_embedded_jpeg(&[0xFF, 0xD8, 0xFF, 1, 2, 3]), None);
    assert_eq!(find_largest_embedded_jpeg(&[]), None);
    assert_eq!(find_largest_embedded_jpeg(&[0xFF, 0xD8, 0xFF]), None);
    assert_eq!(find_largest_embedded_jpeg(&[0xFF, 0xD8, 0xFF, 0xD9]), Some(&[0xFF, 0xD8, 0xFF, 0xD9][..]));
    let nested = [0xFF, 0xD8, 0xFF, 0xFF, 0xD8, 0xFF, 7, 0xFF, 0xD9];
    assert_eq!(find_largest_embedded_jpeg(&nested), Some(&nested[..]));
}

#[test]
fn a_preview_has_to_be_large() {
    let mut data = vec![0xFF, 0xD8, 0xFF];
    data.resize(65_536 - 2, 1);
    data.extend_from_slice(&[0xFF, 0xD9]);
    assert_eq!(data.len(), 65_536);
    assert_eq!(raw_preview(&data), Some(&data[..]));
    let mut short = vec![0xFF, 0xD8, 0xFF];
    short.resize(65_535 - 2, 1);
    short.extend_from_slice(&[0xFF, 0xD9]);
    assert_eq!(raw_preview(&short), None);
}

#[test]
fn a_raw_file_is_shown_by_its_preview() {
    let preview = encoded(&noisy(400, 300), image::ImageFormat::Jpeg);
    assert!(preview.len() >= 65_536);
    let mut file = vec![0x49, 0x49, 0x2A, 0x00];
    file.extend_from_slice(&preview);
    file.extend_from_slice(&[1, 2, 3]);
    let picture = decode_raw_image(Some(&file)).unwrap();
    assert_eq!((picture.width, picture.height), (400, 300));
    assert_eq!(picture.rgba, load_image(&preview).unwrap().rgba);
}

#[test]
fn a_raw_file_without_a_preview_has_to_be_developed() {
    assert!(decode_raw_image(None).is_none());
    assert!(decode_raw_image(Some(&[1, 2, 3])).is_none());
    let mut broken = vec![0xFF, 0xD8, 0xFF];
    broken.resize(70_000, 1);
    broken.extend_from_slice(&[0xFF, 0xD9]);
    assert!(decode_raw_image(Some(&broken)).is_none());
}

#[test]
fn a_developed_raw_file_needs_all_its_bytes() {
    let picture = developed(2, 1, &vec![1, 2, 3, 4, 5, 6]).unwrap();
    assert_eq!(picture.rgba, vec![1, 2, 3, 255, 4, 5, 6, 255]);
    assert!(developed(2, 1, &vec![1, 2, 3, 4, 5, 6, 7]).is_ok());
    assert_eq!(
        developed(2, 1, &vec![1, 2, 3, 4, 5]).err().unwrap(),
        "raw: buffer size mismatch"
    );
}

#[test]
fn messages_name_the_step_that_failed() {
    assert_eq!(raw_error(RawFailure::Open, "x"), "raw open: x");
    assert_eq!(raw_error(RawFailure::Pipeline, "x"), "raw pipeline: x");
    assert_eq!(raw_breakdown(), "raw decoder panicked");
    assert_eq!(heif_error(HeifFailure::Open, "x"), "heif open: x");
    assert_eq!(heif_error(HeifFailure::Codec, "x"), "heif codec ctx: x");
    assert_eq!(heif_error(HeifFailure::Decoder, "x"), "heif decoder: x");
    assert_eq!(heif_error(HeifFailure::Scaler, "x"), "heif scaler: x");
    assert_eq!(heif_error(HeifFailure::Scale, "x"), "heif scale: x");
}

#[test]
fn mending_adds_an_end_and_padding() {
    let mended = repair_truncated_jpeg(&[0xFF, 0xD8, 0x11]).unwrap();
    assert_eq!(mended.len(), 3 + 2 + 1024);
    assert_eq!(&mended[..6], &[0xFF, 0xD8, 0x11, 0xFF, 0xD9, 0]);
    assert!(mended[5..].iter().all(|b| *b == 0));
    assert!(repair_truncated_jpeg(&[0xFF, 0xD8]).is_none());
    assert!(repair_truncated_jpeg(&[0x89, 0x50, 0x4E]).is_none());
}

#[test]
fn heif_files_are_searched_for_a_frame() {
    let mut search = HeifSearch::new(Some(2), true).unwrap();
    assert!(matches!(search.next(HeifEvent::Packet(0)), HeifAction::ReadPacket));
    assert!(matches!(search.next(HeifEvent::Packet(2)), HeifAction::SendPacket));
    assert!(matches!(search.next(HeifEvent::Sent), HeifAction::ReceiveFrame));
    assert!(matches!(search.next(HeifEvent::NoFrame), HeifAction::ReadPacket));
    assert!(matches!(search.next(HeifEvent::EndOfFile), HeifAction::SendEndOfFile));
    assert!(matches!(search.next(HeifEvent::Sent), HeifAction::ReceiveFrame));
    assert!(matches!(search.next(HeifEvent::Frame), HeifAction::TakeFrame));
}

fn failure(action: HeifAction) -> String {
    match action {
        HeifAction::Fail(error) => error,
        _ => panic!("no failure"),
    }
}

#[test]
fn heif_failures_are_named() {
    assert_eq!(HeifSearch::new(None, true).err().unwrap(), "heif: no video stream");
    assert_eq!(HeifSearch::new(Some(0), false).err().unwrap(), "heif: missing stream");
    let mut search = HeifSearch::new(Some(0), true).unwrap();
    assert_eq!(failure(search.next(HeifEvent::ReadFailed("x".to_string()))), "heif packet: x");
    assert_eq!(failure(search.next(HeifEvent::SendFailed("x".to_string()))), "heif send: x");
    search.next(HeifEvent::EndOfFile);
    assert_eq!(failure(search.next(HeifEvent::SendFailed("x".to_string()))), "heif eof: x");
    assert_eq!(failure(search.next(HeifEvent::NoFrame)), "heif: no frame decoded");
}

#[test]
fn a_heif_frame_becomes_a_picture() {
    let src = [1, 2, 3, 4, 5, 6, 0, 0, 7, 8, 9, 10, 11, 12];
    let picture = heif_picture(2, 2, &src, 8).unwrap();
    assert_eq!(
        picture.rgba,
        vec![1, 2, 3, 255, 4, 5, 6, 255, 7, 8, 9, 255, 10, 11, 12, 255]
    );
}

#[test]
fn rows_are_packed() {
    assert_eq!(pack_rows(&[1, 2, 0, 3, 4, 0, 5, 6], 3, 2, 3), vec![1, 2, 3, 4, 5, 6]);
    assert_eq!(pack_rows(&[1, 2, 3, 4, 5], 2, 2, 2), vec![1, 2, 3, 4]);
    assert_eq!(pack_rows(&[], 7, 3, 0), Vec::<u8>::new());
}

fn numbered(width: u32, height: u32) -> Picture {
    let rgba = (0..width * height * 4).map(|n| n as u8).collect();
    Picture { width, height, rgba }
}

#[test]
fn turning_agrees_with_the_image_crate() {
    let source = pattern(5, 3);
    let picture = load_image(&encoded(&source, image::ImageFormat::Png)).unwrap();
    let rgba = image::DynamicImage::ImageRgb8(source);
    assert_eq!(picture.rotate_cw().rgba, rgba.rotate90().into_rgba8().into_raw());
    assert_eq!(picture.rotate_ccw().rgba, rgba.rotate270().into_rgba8().into_raw());
}

#[test]
fn turning_moves_pixels() {
    let turned = numbered(2, 1).rotate_cw();
    assert_eq!((turned.width, turned.height), (1, 2));
    assert_eq!(turned.rgba, vec![0, 1, 2, 3, 4, 5, 6, 7]);
    let turned = numbered(2, 1).rotate_ccw();
    assert_eq!(turned.rgba, vec![4, 5, 6, 7, 0, 1, 2, 3]);
}

#[test]
fn turning_back_gives_the_picture_again() {
    let picture = numbered(3, 2);
    assert_eq!(picture.rotate_cw().rotate_ccw().rgba, picture.rgba);
    assert_eq!(picture.rotate_ccw().rotate_cw().rgba, picture.rgba);
    let four = picture.rotate_cw().rotate_cw().rotate_cw().rotate_cw();
    assert_eq!((four.width, four.height), (3, 2));
    assert_eq!(four.rgba, picture.rgba);
}

#[test]
fn an_empty_picture_can_be_turned() {
    let turned = Picture { width: 0, height: 5, rgba: Vec::new() }.rotate_cw();
    assert_eq!((turned.width, turned.height), (5, 0));
    assert!(turned.rgba.is_empty());
}
