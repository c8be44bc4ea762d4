//! Making pictures of the bytes of image files.

use crate::jpeg::{looks_like_jpeg, preview_span, raw_preview, repair_truncated_jpeg, repaired};
use crate::media::{extension_of, is_svg, is_svg_file, lowers_ascii};
use crate::picture::{opaque_raster, Picture, Raster};
use crate::pixels::{pack_rows, packed, rows_fit};
use crate::text::begins_with;
use vstd::prelude::*;

verus! {

/// What `image::load_from_memory` makes of the bytes of a file: width, height
/// and pixels, or the text of its error.
pub uninterp spec fn decoded_image(bytes: Seq<u8>) -> Result<(u32, u32, Seq<u8>), Seq<char>>;

/// `image::load_from_memory`, which guesses the format of an image file and
/// decodes it, and `image::DynamicImage::into_rgba8`, which brings the result
/// to four bytes per pixel. What comes out is a function of the bytes alone,
/// and an image that could be decoded has its four bytes for each pixel. That
/// no bytes make one of the decoders panic is taken on trust.
#[verifier::external_body]
fn load_from_memory(bytes: &[u8]) -> (r: Result<(u32, u32, Vec<u8>), String>)
    ensures
        decoded_image(bytes@) == (match r {
            Ok((width, height, rgba)) => Ok((width, height, rgba@)),
            Err(error) => Err(error@),
        }),
        r matches Ok((width, height, rgba)) ==> rgba@.len() == width * height * 4,
{
    match image::load_from_memory(bytes) {
        Ok(image) => {
            let rgba = image.into_rgba8();
            Ok((rgba.width(), rgba.height(), rgba.into_raw()))
        },
        Err(error) => Err(error.to_string()),
    }
}

/// The message with which `egui_extras::image::load_svg_bytes` says that it could
/// not make room for the picture.
pub open spec fn no_room(error: Seq<char>) -> bool {
    "Failed to create SVG Pixmap of size "@.is_prefix_of(error)
}

/// A decoded image as a picture, or the text of an error.
pub open spec fn raster_of(decoded: Result<(u32, u32, Seq<u8>), Seq<char>>) -> Result<
    Raster,
    Seq<char>,
> {
    match decoded {
        Ok((width, height, rgba)) => Ok(
            Raster { width: width as nat, height: height as nat, rgba },
        ),
        Err(error) => Err(error),
    }
}

/// A result by its views.
pub open spec fn outcome(r: Result<Picture, String>) -> Result<Raster, Seq<char>> {
    match r {
        Ok(picture) => Ok(picture@),
        Err(error) => Err(error@),
    }
}

/// The pictures in a result are well formed.
pub open spec fn sound(r: Result<Picture, String>) -> bool {
    r matches Ok(picture) ==> picture@.wf()
}

/// Decodes the bytes of an image file.
fn decode(bytes: &[u8]) -> (r: Result<Picture, String>)
    ensures
        outcome(r) == raster_of(decoded_image(bytes@)),
        sound(r),
        match decoded_image(bytes@) {
            Ok((w, h, px)) => r matches Ok(p) && p.width == w && p.height == h && p.rgba@ == px,
            Err(error) => r matches Err(text) && text@ == error,
        },
{
    match load_from_memory(bytes) {
        Ok((width, height, rgba)) => {
            assert(width as nat * height as nat * 4 == width * height * 4);
            Ok(Picture { width, height, rgba })
        },
        Err(error) => Err(error),
    }
}

/// What comes of a file that could be decoded or not at first, and where a
/// second attempt was made on a mended copy, could be or not then.
pub open spec fn after_retry(
    first: Result<Raster, Seq<char>>,
    retry: Option<Result<Raster, Seq<char>>>,
) -> Result<Raster, Seq<char>> {
    match (first, retry) {
        (Err(error), Some(Err(again))) => Err("Original: "@ + error + ", Retry: "@ + again),
        (Err(_), Some(Ok(raster))) => Ok(raster),
        _ => first,
    }
}

/// The outcome of a first attempt to decode a file, and of a second, where
/// there was one.
pub fn settle(first: Result<Picture, String>, retry: Option<Result<Picture, String>>) -> (r: Result<
    Picture,
    String,
>)
    requires
        sound(first),
        retry matches Some(second) ==> sound(second),
    ensures
        outcome(r) == after_retry(
            outcome(first),
            match retry {
                Some(second) => Some(outcome(second)),
                None => None,
            },
        ),
        sound(r),
{
    match first {
        Ok(picture) => Ok(picture),
        Err(error) => match retry {
            None => Err(error),
            Some(Ok(picture)) => Ok(picture),
            Some(Err(again)) => {
                let mut text = "Original: ".to_owned();
                text.append(error.as_str());
                text.append(", Retry: ");
                text.append(again.as_str());
                Err(text)
            },
        },
    }
}

/// What comes of the bytes of an ordinary image file: a file that cannot be
/// decoded but looks like a JPEG stream gets a second chance as one that was
/// cut short.
pub open spec fn loaded(bytes: Seq<u8>) -> Result<Raster, Seq<char>> {
    after_retry(
        raster_of(decoded_image(bytes)),
        if raster_of(decoded_image(bytes)) is Err && looks_like_jpeg(bytes) {
            Some(raster_of(decoded_image(repaired(bytes))))
        } else {
            None
        },
    )
}

/// Decodes an ordinary image file.
pub fn load_image(bytes: &[u8]) -> (r: Result<Picture, String>)
    ensures
        outcome(r) == loaded(bytes@),
        sound(r),
        decoded_image(bytes@) matches Ok((w, h, px)) ==> (r matches Ok(p) && p.width == w
            && p.height == h && p.rgba@ == px),
{
    let first = decode(bytes);
    let retry = if first.is_err() {
        match repair_truncated_jpeg(bytes) {
            Some(mended) => Some(decode(mended.as_slice())),
            None => None,
        }
    } else {
        None
    };
    settle(first, retry)
}

/// What comes of a file that is named as an SVG document, once it was drawn or
/// could not be: the drawing, or that there was no room for it; what is no SVG
/// document goes the way of an ordinary image file.
pub open spec fn svg_settled(
    drawn: Result<Raster, Seq<char>>,
    plain: Result<Raster, Seq<char>>,
) -> Result<Raster, Seq<char>> {
    match drawn {
        Ok(raster) => Ok(raster),
        Err(error) => if no_room(error) {
            Err(error)
        } else {
            plain
        },
    }
}

/// The picture of a file that is named as an SVG document, given what came of
/// drawing it.
pub fn settle_svg(drawn: Result<Picture, String>, bytes: &[u8]) -> (r: Result<Picture, String>)
    requires
        sound(drawn),
    ensures
        outcome(r) == svg_settled(outcome(drawn), loaded(bytes@)),
        sound(r),
{
    match drawn {
        Ok(picture) => Ok(picture),
        Err(error) => if begins_with(error.as_str(), "Failed to create SVG Pixmap of size ") {
            Err(error)
        } else {
            load_image(bytes)
        },
    }
}

/// What comes of the bytes of the file at `path`, which is not of a kind that is
/// loaded in a way of its own, where it was drawn as an SVG document and where it
/// was not.
pub open spec fn still_loaded(
    path: Seq<char>,
    bytes: Seq<u8>,
    drawn: Option<Result<Raster, Seq<char>>>,
) -> Result<Raster, Seq<char>> {
    match drawn {
        Some(d) if is_svg(path) => svg_settled(d, loaded(bytes)),
        _ => loaded(bytes),
    }
}

/// Makes a picture of the bytes of the file at `path`. What came of drawing it
/// counts for a file that is named as an SVG document; any other is decoded.
pub fn load_still(path: &str, bytes: &[u8], drawn: Option<Result<Picture, String>>) -> (r: Result<
    Picture,
    String,
>)
    requires
        drawn matches Some(d) ==> sound(d),
    ensures
        outcome(r) == still_loaded(
            path@,
            bytes@,
            match drawn {
                Some(d) => Some(outcome(d)),
                None => None,
            },
        ),
        sound(r),
        lowers_ascii(extension_of(path@)),
{
    let svg = is_svg_file(path);
    match drawn {
        Some(d) => if svg {
            settle_svg(d, bytes)
        } else {
            load_image(bytes)
        },
        None => load_image(bytes),
    }
}

/// The picture that stands for a camera raw file: its preview, where it could
/// be decoded.
pub open spec fn raw_shortcut(bytes: Seq<u8>) -> Option<Raster> {
    match preview_span(bytes) {
        Some(span) => match raster_of(
            decoded_image(bytes.subrange(span.0 as int, span.1 as int)),
        ) {
            Ok(raster) => Some(raster),
            Err(_) => None,
        },
        None => None,
    }
}

/// The picture that stands for a camera raw file, if its preview does; where
/// there is none, or the file could not be read, the sensor data itself has to
/// be developed.
pub fn decode_raw_image(bytes: Option<&[u8]>) -> (r: Option<Picture>)
    ensures
        r is Some <==> (bytes matches Some(data) && raw_shortcut(data@) is Some),
        r matches Some(picture) ==> raw_shortcut(bytes->0@) == Some(picture@) && picture@.wf(),
        bytes matches Some(data) ==> (preview_span(data@) matches Some(span) ==> (decoded_image(
            data@.subrange(span.0 as int, span.1 as int),
        ) matches Ok((w, h, px)) ==> (r matches Some(p) && p.width == w && p.height == h && p.rgba@
            == px))),
{
    match bytes {
        Some(data) => match raw_preview(data) {
            Some(preview) => match decode(preview) {
                Ok(picture) => Some(picture),
                Err(_) => None,
            },
            None => None,
        },
        None => None,
    }
}

/// The picture of a developed camera raw file, of three bytes per pixel.
pub fn developed(width: u32, height: u32, rgb: &Vec<u8>) -> (r: Result<Picture, String>)
    requires
        width * height * 3 <= rgb@.len() ==> width * height * 4 <= usize::MAX,
    ensures
        outcome(r) == (if width * height * 3 <= rgb@.len() {
            Ok(opaque_raster(width as nat, height as nat, rgb@))
        } else {
            Err("raw: buffer size mismatch"@)
        }),
        sound(r),
{
    match Picture::from_rgb(width, height, rgb) {
        Some(picture) => Ok(picture),
        None => Err("raw: buffer size mismatch".to_owned()),
    }
}

/// Where developing a camera raw file failed.
#[derive(Clone, Copy, PartialEq, Eq, Debug, Structural)]
pub enum RawFailure {
    Open,
    Pipeline,
}

/// The message for a camera raw file that could not be developed.
pub fn raw_error(failure: RawFailure, cause: &str) -> (r: String)
    ensures
        r@ == (match failure {
            RawFailure::Open => "raw open: "@,
            RawFailure::Pipeline => "raw pipeline: "@,
        }) + cause@,
{
    let mut text = match failure {
        RawFailure::Open => "raw open: ".to_owned(),
        RawFailure::Pipeline => "raw pipeline: ".to_owned(),
    };
    text.append(cause);
    text
}

/// The message for a camera raw file on which the decoder broke down.
pub fn raw_breakdown() -> (r: String)
    ensures
        r@ == "raw decoder panicked"@,
{
    "raw decoder panicked".to_owned()
}

/// Where decoding a HEIF file failed, in the order of the steps.
#[derive(Clone, Copy, PartialEq, Eq, Debug, Structural)]
pub enum HeifFailure {
    Open,
    Codec,
    Decoder,
    Scaler,
    Scale,
}

/// The message for a HEIF file that could not be decoded.
pub fn heif_error(failure: HeifFailure, cause: &str) -> (r: String)
    ensures
        r@ == (match failure {
            HeifFailure::Open => "heif open: "@,
            HeifFailure::Codec => "heif codec ctx: "@,
            HeifFailure::Decoder => "heif decoder: "@,
            HeifFailure::Scaler => "heif scaler: "@,
            HeifFailure::Scale => "heif scale: "@,
        }) + cause@,
{
    let mut text = match failure {
        HeifFailure::Open => "heif open: ".to_owned(),
        HeifFailure::Codec => "heif codec ctx: ".to_owned(),
        HeifFailure::Decoder => "heif decoder: ".to_owned(),
        HeifFailure::Scaler => "heif scaler: ".to_owned(),
        HeifFailure::Scale => "heif scale: ".to_owned(),
    };
    text.append(cause);
    text
}

/// What happened while the first frame of a HEIF file was sought.
pub enum HeifEvent {
    /// A packet was read, of the stream of this number.
    Packet(usize),
    /// The next packet could not be read.
    ReadFailed(String),
    /// There are no more packets.
    EndOfFile,
    /// The decoder took what it was sent.
    Sent,
    /// The decoder refused what it was sent.
    SendFailed(String),
    /// The decoder gave out a frame.
    Frame,
    /// The decoder had no frame to give.
    NoFrame,
}

/// What to do next about a HEIF file.
pub enum HeifAction {
    ReadPacket,
    SendPacket,
    SendEndOfFile,
    ReceiveFrame,
    TakeFrame,
    Fail(String),
}

/// `HeifAction` with its text as a sequence.
pub enum HeifStep {
    ReadPacket,
    SendPacket,
    SendEndOfFile,
    ReceiveFrame,
    TakeFrame,
    Fail(Seq<char>),
}

impl View for HeifAction {
    type V = HeifStep;

    open spec fn view(&self) -> HeifStep {
        match self {
            HeifAction::ReadPacket => HeifStep::ReadPacket,
            HeifAction::SendPacket => HeifStep::SendPacket,
            HeifAction::SendEndOfFile => HeifStep::SendEndOfFile,
            HeifAction::ReceiveFrame => HeifStep::ReceiveFrame,
            HeifAction::TakeFrame => HeifStep::TakeFrame,
            HeifAction::Fail(error) => HeifStep::Fail(error@),
        }
    }
}

/// The search for the first frame of a HEIF file.
#[derive(Clone, Copy, PartialEq, Eq, Debug, Structural)]
pub struct HeifSearch {
    /// The stream with the picture.
    pub stream: usize,
    /// All packets were sent.
    pub at_end: bool,
}

impl HeifSearch {
    /// A search in the best video stream of a file, if it has one and that
    /// says how it is coded.
    pub fn new(stream: Option<usize>, described: bool) -> (r: Result<HeifSearch, String>)
        ensures
            match stream {
                Some(n) if described => r == Ok::<HeifSearch, String>(
                    HeifSearch { stream: n, at_end: false },
                ),
                Some(_) => r is Err && r->Err_0@ == "heif: missing stream"@,
                None => r is Err && r->Err_0@ == "heif: no video stream"@,
            },
    {
        match stream {
            Some(n) => if described {
                Ok(HeifSearch { stream: n, at_end: false })
            } else {
                Err("heif: missing stream".to_owned())
            },
            None => Err("heif: no video stream".to_owned()),
        }
    }

    /// What to do when `event` happened.
    pub open spec fn step(self, event: HeifEvent) -> HeifStep {
        match event {
            HeifEvent::Packet(stream) => if stream == self.stream {
                HeifStep::SendPacket
            } else {
                HeifStep::ReadPacket
            },
            HeifEvent::ReadFailed(cause) => HeifStep::Fail("heif packet: "@ + cause@),
            HeifEvent::EndOfFile => HeifStep::SendEndOfFile,
            HeifEvent::Sent => HeifStep::ReceiveFrame,
            HeifEvent::SendFailed(cause) => HeifStep::Fail(
                (if self.at_end {
                    "heif eof: "@
                } else {
                    "heif send: "@
                }) + cause@,
            ),
            HeifEvent::Frame => HeifStep::TakeFrame,
            HeifEvent::NoFrame => if self.at_end {
                HeifStep::Fail("heif: no frame decoded"@)
            } else {
                HeifStep::ReadPacket
            },
        }
    }

    /// Takes note of an event and says what to do next.
    pub fn next(&mut self, event: HeifEvent) -> (r: HeifAction)
        ensures
            r@ == old(self).step(event),
            *final(self) == (HeifSearch {
                at_end: old(self).at_end || event is EndOfFile,
                ..*old(self)
            }),
    {
        match event {
            HeifEvent::Packet(stream) => if stream == self.stream {
                HeifAction::SendPacket
            } else {
                HeifAction::ReadPacket
            },
            HeifEvent::ReadFailed(cause) => {
                let mut text = "heif packet: ".to_owned();
                text.append(cause.as_str());
                HeifAction::Fail(text)
            },
            HeifEvent::EndOfFile => {
                self.at_end = true;
                HeifAction::SendEndOfFile
            },
            HeifEvent::Sent => HeifAction::ReceiveFrame,
            HeifEvent::SendFailed(cause) => {
                let mut text = if self.at_end {
                    "heif eof: ".to_owned()
                } else {
                    "heif send: ".to_owned()
                };
                text.append(cause.as_str());
                HeifAction::Fail(text)
            },
            HeifEvent::Frame => HeifAction::TakeFrame,
            HeifEvent::NoFrame => if self.at_end {
                HeifAction::Fail("heif: no frame decoded".to_owned())
            } else {
                HeifAction::ReadPacket
            },
        }
    }
}

/// The picture of a decoded HEIF frame of three bytes per pixel. Its rows are
/// all there, so there is one.
pub fn heif_picture(width: u32, height: u32, src: &[u8], stride: usize) -> (r: Result<
    Picture,
    String,
>)
    requires
        width * 3 <= usize::MAX,
        width * height * 4 <= usize::MAX,
        rows_fit(src@.len(), stride as nat, (width * 3) as nat, height as nat),
    ensures
        outcome(r) == Ok::<Raster, Seq<char>>(
            opaque_raster(
                width as nat,
                height as nat,
                packed(src@, stride as nat, (width * 3) as nat, height as nat),
            ),
        ),
        sound(r),
{
    let row: usize = width as usize * 3;
    assert(row * height == width * height * 3 && width * height * 3 <= width * height * 4)
        by (nonlinear_arith)
        requires
            row == width * 3,
            width >= 0,
            height >= 0,
    ;
    let rgb = pack_rows(src, stride, row, height as usize);
    match Picture::from_rgb(width, height, &rgb) {
        Some(picture) => Ok(picture),
        None => Err("heif: buffer size mismatch".to_owned()),
    }
}

/// A file that can be decoded as it is, is never mended.
pub proof fn sound_files_are_not_mended(bytes: Seq<u8>)
    requires
        decoded_image(bytes) is Ok,
    ensures
        loaded(bytes) == raster_of(decoded_image(bytes)),
{
}

/// What was drawn of a file that is named as an SVG document is what is shown,
/// whatever else its bytes could be taken for.
pub proof fn drawings_are_shown(path: Seq<char>, bytes: Seq<u8>, drawn: Raster)
    requires
        is_svg(path),
    ensures
        still_loaded(path, bytes, Some(Ok(drawn))) == Ok::<Raster, Seq<char>>(drawn),
{
}

/// A file that could not be drawn for another reason than its size, and one that
/// is not named as an SVG document, is loaded from its bytes alone.
pub proof fn other_files_are_decoded(
    path: Seq<char>,
    bytes: Seq<u8>,
    drawn: Option<Result<Raster, Seq<char>>>,
)
    requires
        !is_svg(path) || (drawn matches Some(d) ==> d is Err && !no_room(d->Err_0)),
    ensures
        still_loaded(path, bytes, drawn) == loaded(bytes),
{
}

/// Mending changes nothing about a file that does not look like a JPEG stream.
pub proof fn only_jpeg_is_mended(bytes: Seq<u8>)
    requires
        !looks_like_jpeg(bytes),
    ensures
        loaded(bytes) == raster_of(decoded_image(bytes)),
{
}

/// A file that can be decoded is shown with the pixels that it was decoded to: the
/// same width, the same height, and the same bytes, alpha included.
pub proof fn decoded_pixels_are_shown(bytes: Seq<u8>)
    ensures
        decoded_image(bytes) matches Ok((w, h, px)) ==> (loaded(bytes) matches Ok(raster)
            && raster.width == w && raster.height == h && raster.rgba == px),
{
}

/// A file that cannot be decoded but begins like a JPEG stream is shown with the
/// pixels of its mended copy, where that can be decoded; where it cannot, the error
/// tells of both. A file that does not begin so has the error of its decoder.
pub proof fn mended_pixels_are_shown(bytes: Seq<u8>)
    requires
        decoded_image(bytes) is Err,
    ensures
        ({
            let mended = bytes + seq![0xFFu8, 0xD9u8] + Seq::new(1024, |i: int| 0u8);
            if bytes.len() > 2 && bytes[0] == 0xFF && bytes[1] == 0xD8 {
                match decoded_image(mended) {
                    Ok((w, h, px)) => loaded(bytes) matches Ok(raster) && raster.width == w
                        && raster.height == h && raster.rgba == px,
                    Err(again) => loaded(bytes) == Err::<Raster, Seq<char>>(
                        "Original: "@ + decoded_image(bytes)->Err_0 + ", Retry: "@ + again,
                    ),
                }
            } else {
                loaded(bytes) == Err::<Raster, Seq<char>>(decoded_image(bytes)->Err_0)
            }
        }),
{
    let mended = bytes + seq![0xFFu8, 0xD9u8] + Seq::new(1024, |i: int| 0u8);
    assert(repaired(bytes) =~= mended);
}

/// A raw file is shown with the pixels of its preview, exactly where it has one
/// that can be decoded.
pub proof fn preview_pixels_are_shown(bytes: Seq<u8>)
    ensures
        match preview_span(bytes) {
            Some((a, b)) => match decoded_image(bytes.subrange(a as int, b as int)) {
                Ok((w, h, px)) => raw_shortcut(bytes) matches Some(raster) && raster.width == w
                    && raster.height == h && raster.rgba == px,
                Err(_) => raw_shortcut(bytes) is None,
            },
            None => raw_shortcut(bytes) is None,
        },
{
}

/// The outcome of loading is seen with the picture, or the text of the error, as it
/// is.
pub proof fn outcomes_are_seen_as_they_are(r: Result<Picture, String>)
    ensures
        match r {
            Ok(p) => outcome(r) matches Ok(raster) && raster.width == p.width && raster.height
                == p.height && raster.rgba == p.rgba@,
            Err(error) => outcome(r) == Err::<Raster, Seq<char>>(error@),
        },
        sound(r) <==> (r matches Ok(p) ==> p.rgba@.len() == p.width * p.height * 4),
{
    match r {
        Ok(p) => {
            assert(p.width as nat * p.height as nat * 4 == p.width * p.height * 4);
        },
        Err(_) => {},
    }
}

/// Of two attempts to decode, the first that worked counts; the error tells of both
/// where both were made and failed.
pub proof fn the_first_success_counts(
    first: Result<Raster, Seq<char>>,
    retry: Option<Result<Raster, Seq<char>>>,
)
    ensures
        first is Ok ==> after_retry(first, retry) == first,
        first is Err && retry is None ==> after_retry(first, retry) == first,
        first is Err ==> (retry matches Some(second) ==> {
            &&& second is Ok ==> after_retry(first, retry) == second
            &&& second is Err ==> after_retry(first, retry) == Err::<Raster, Seq<char>>(
                "Original: "@ + first->Err_0 + ", Retry: "@ + second->Err_0,
            )
        }),
{
}

/// A drawing that could not be made for want of room is an error; only a text that
/// begins with the words for that says so.
pub proof fn want_of_room_is_an_error(
    path: Seq<char>,
    bytes: Seq<u8>,
    error: Seq<char>,
)
    requires
        is_svg(path),
    ensures
        "Failed to create SVG Pixmap of size "@.is_prefix_of(error) ==> still_loaded(
            path,
            bytes,
            Some(Err(error)),
        ) == Err::<Raster, Seq<char>>(error),
        !"Failed to create SVG Pixmap of size "@.is_prefix_of(error) ==> still_loaded(
            path,
            bytes,
            Some(Err(error)),
        ) == loaded(bytes),
{
}

/// The search for the first frame of a HEIF file. Packets of its stream are sent to
/// the decoder and others passed over; after each one that was taken a frame is
/// asked for, and the first that comes is the picture. Without one, the next packet
/// is read, and after the last the decoder is told so and asked once more. What
/// goes wrong ends the search with a text that says where.
pub proof fn the_first_frame_is_sought(search: HeifSearch, stream: usize, cause: String)
    ensures
        search.step(HeifEvent::Packet(stream)) is SendPacket <==> stream == search.stream,
        search.step(HeifEvent::Packet(stream)) is ReadPacket <==> stream != search.stream,
        search.step(HeifEvent::Sent) is ReceiveFrame,
        search.step(HeifEvent::Frame) is TakeFrame,
        search.step(HeifEvent::EndOfFile) is SendEndOfFile,
        !search.at_end ==> search.step(HeifEvent::NoFrame) is ReadPacket,
        search.at_end ==> search.step(HeifEvent::NoFrame) == HeifStep::Fail(
            "heif: no frame decoded"@,
        ),
        search.step(HeifEvent::ReadFailed(cause)) == HeifStep::Fail("heif packet: "@ + cause@),
        !search.at_end ==> search.step(HeifEvent::SendFailed(cause)) == HeifStep::Fail(
            "heif send: "@ + cause@,
        ),
        search.at_end ==> search.step(HeifEvent::SendFailed(cause)) == HeifStep::Fail(
            "heif eof: "@ + cause@,
        ),
{
}

/// An action of the search is seen as it is.
pub proof fn heif_actions_are_seen_as_they_are(action: HeifAction)
    ensures
        action is ReadPacket <==> action@ is ReadPacket,
        action is SendPacket <==> action@ is SendPacket,
        action is SendEndOfFile <==> action@ is SendEndOfFile,
        action is ReceiveFrame <==> action@ is ReceiveFrame,
        action is TakeFrame <==> action@ is TakeFrame,
        action matches HeifAction::Fail(text) ==> action@ == HeifStep::Fail(text@),
{
}

/// A drawing that was made counts, and so does the want of room for one; in every
/// other case the file is what an ordinary image file would be.
pub proof fn drawings_come_first(
    drawn: Result<Raster, Seq<char>>,
    plain: Result<Raster, Seq<char>>,
)
    ensures
        drawn is Ok ==> svg_settled(drawn, plain) == drawn,
        drawn matches Err(error) ==> {
            &&& "Failed to create SVG Pixmap of size "@.is_prefix_of(error) ==> svg_settled(
                drawn,
                plain,
            ) == drawn
            &&& !"Failed to create SVG Pixmap of size "@.is_prefix_of(error) ==> svg_settled(
                drawn,
                plain,
            ) == plain
        },
{
}

} // verus!
