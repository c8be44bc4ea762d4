//! Which files are pictures and which are videos, and how the viewer filters
//! and orders them.

use vstd::prelude::*;
use vstd::string::*;

verus! {

/// What `std::path::Path::file_name` gives for a path: its last component, if
/// that is a name. Paths are read as the platform that the crate is built for
/// reads them.
pub uninterp spec fn file_name_of(path: Seq<char>) -> Option<Seq<char>>;

/// What `str::to_lowercase` gives for a text.
pub uninterp spec fn lowercase_of(text: Seq<char>) -> Seq<char>;

/// The ASCII letter in lower case; any other character as it is.
pub open spec fn ascii_lower(c: char) -> char {
    if 'A' <= c <= 'Z' {
        (c as u32 + 32) as char
    } else {
        c
    }
}

pub open spec fn all_ascii(text: Seq<char>) -> bool {
    forall|i: int| 0 <= i < text.len() ==> (#[trigger] text[i] as u32) < 128
}

/// Calls `std::path::Path::file_name`. The result is named by `file_name_of`:
/// it depends on the text of the path alone, read by the rules of the platform
/// that the crate is built for; the file system is not asked.
#[verifier::external_body]
fn path_file_name(path: &str) -> (r: Option<String>)
    ensures
        match r {
            Some(name) => file_name_of(path@) == Some(name@),
            None => file_name_of(path@) is None,
        },
{
    std::path::Path::new(path).file_name().and_then(|n| n.to_str()).map(|n| n.to_string())
}

/// Calls `str::to_lowercase`. The result is named by `lowercase_of`; of ASCII
/// text it is the text with each ASCII capital made small.
#[verifier::external_body]
fn to_lowercase(text: &str) -> (r: String)
    ensures
        r@ == lowercase_of(text@),
        all_ascii(text@) ==> r@ == text@.map_values(|c: char| ascii_lower(c)),
{
    text.to_lowercase()
}

/// Where the last dot of a name stands.
pub open spec fn last_dot(name: Seq<char>) -> Option<nat>
    decreases name.len(),
{
    if name.len() == 0 {
        None
    } else if name.last() == '.' {
        Some((name.len() - 1) as nat)
    } else {
        last_dot(name.drop_last())
    }
}

/// The extension of a file name: what stands behind its last dot, unless that
/// dot is its first character.
pub open spec fn extension_of_name(name: Seq<char>) -> Option<Seq<char>> {
    match last_dot(name) {
        Some(d) if d > 0 => Some(name.skip(d as int + 1)),
        _ => None,
    }
}

/// The extension of the file that a path names.
pub open spec fn extension_of(path: Seq<char>) -> Option<Seq<char>> {
    match file_name_of(path) {
        Some(name) => extension_of_name(name),
        None => None,
    }
}

/// The extension, in lower case, is in the list.
pub open spec fn ext_listed(ext: Option<Seq<char>>, exts: Seq<Seq<char>>) -> bool {
    ext is Some && exts.contains(lowercase_of(ext->0))
}

/// Where the extension is ASCII, lower case means that each capital letter is
/// made small.
pub open spec fn lowers_ascii(ext: Option<Seq<char>>) -> bool {
    ext matches Some(e) ==> all_ascii(e) ==> lowercase_of(e) == e.map_values(
        |c: char| ascii_lower(c),
    )
}

/// The texts of a list of string slices.
pub open spec fn texts(list: Seq<&str>) -> Seq<Seq<char>> {
    list.map_values(|s: &str| s@)
}

/// Extensions of camera raw files.
pub open spec fn raw_exts() -> Seq<Seq<char>> {
    seq![
        "nef"@, "nrw"@, "cr2"@, "arw"@, "srf"@, "sr2"@, "dng"@, "raf"@, "rw2"@, "orf"@, "pef"@,
        "srw"@, "3fr"@, "mrw"@, "iiq"@, "kdc"@, "dcr"@, "rwl"@, "x3f"@, "mef"@, "mos"@,
    ]
}

/// Extensions of the HEIF family.
pub open spec fn heif_exts() -> Seq<Seq<char>> {
    seq!["heic"@, "heif"@, "avif"@]
}

/// Extensions of pictures of any kind.
pub open spec fn image_exts() -> Seq<Seq<char>> {
    seq!["jpg"@, "jpeg"@, "png"@, "bmp"@, "webp"@, "gif"@, "tiff"@, "ico"@, "svg"@] + heif_exts()
        + raw_exts()
}

/// Extensions of videos.
pub open spec fn video_exts() -> Seq<Seq<char>> {
    seq![
        "mp4"@, "mkv"@, "avi"@, "mov"@, "wmv"@, "flv"@, "webm"@, "m4v"@, "mpg"@, "mpeg"@, "3gp"@,
        "ogv"@, "ts"@, "vob"@,
    ]
}

/// Extensions of camera raw files.
pub fn raw_extensions() -> (r: Vec<&'static str>)
    ensures
        texts(r@) == raw_exts(),
{
    let v: Vec<&'static str> = vec![
        "nef", "nrw", "cr2", "arw", "srf", "sr2", "dng", "raf", "rw2", "orf", "pef", "srw", "3fr",
        "mrw", "iiq", "kdc", "dcr", "rwl", "x3f", "mef", "mos",
    ];
    assert(texts(v@) =~= raw_exts());
    v
}

/// Extensions of the HEIF family.
pub fn heif_extensions() -> (r: Vec<&'static str>)
    ensures
        texts(r@) == heif_exts(),
{
    let v: Vec<&'static str> = vec!["heic", "heif", "avif"];
    assert(texts(v@) =~= heif_exts());
    v
}

/// Extensions of pictures of any kind.
pub fn image_extensions() -> (r: Vec<&'static str>)
    ensures
        texts(r@) == image_exts(),
{
    let mut v: Vec<&'static str> = vec![
        "jpg", "jpeg", "png", "bmp", "webp", "gif", "tiff", "ico", "svg",
    ];
    let ghost plain = v@;
    let mut heif = heif_extensions();
    let mut raw = raw_extensions();
    let ghost (h, w) = (heif@, raw@);
    v.append(&mut heif);
    v.append(&mut raw);
    proof {
        assert(texts(plain + h + w) =~= texts(plain) + texts(h) + texts(w));
        assert(texts(plain) =~= seq![
            "jpg"@, "jpeg"@, "png"@, "bmp"@, "webp"@, "gif"@, "tiff"@, "ico"@, "svg"@,
        ]);
    }
    v
}

/// Extensions of videos.
pub fn video_extensions() -> (r: Vec<&'static str>)
    ensures
        texts(r@) == video_exts(),
{
    let v: Vec<&'static str> = vec![
        "mp4", "mkv", "avi", "mov", "wmv", "flv", "webm", "m4v", "mpg", "mpeg", "3gp", "ogv", "ts",
        "vob",
    ];
    assert(texts(v@) =~= video_exts());
    v
}

/// Extensions of everything that can be shown, pictures first.
pub fn all_extensions() -> (r: Vec<&'static str>)
    ensures
        texts(r@) == image_exts() + video_exts(),
{
    let mut v = image_extensions();
    let mut videos = video_extensions();
    let ghost (a, b) = (v@, videos@);
    v.append(&mut videos);
    assert(texts(a + b) =~= texts(a) + texts(b));
    v
}

/// The extension of a file name, if it has one.
pub fn extension(name: &str) -> (r: Option<String>)
    ensures
        match r {
            Some(ext) => extension_of_name(name@) == Some(ext@),
            None => extension_of_name(name@) is None,
        },
{
    let len: usize = name.unicode_len();
    let mut n: usize = len;
    assert(name@.take(len as int) =~= name@);
    while n > 0
        invariant
            len == name@.len(),
            n <= len,
            last_dot(name@) == last_dot(name@.take(n as int)),
        decreases n,
    {
        assert(name@.take(n as int).drop_last() =~= name@.take(n as int - 1));
        if name.get_char(n - 1) == '.' {
            if n == 1 {
                return None;
            }
            let ext = name.substring_char(n, len);
            assert(ext@ =~= name@.skip(n as int));
            return Some(ext.to_owned());
        }
        n = n - 1;
    }
    None
}

/// The extension of the given file name is in the list, whatever its case.
pub fn name_has_ext(name: Option<&str>, exts: &[&str]) -> (r: bool)
    ensures
        r == ext_listed(
            match name {
                Some(n) => extension_of_name(n@),
                None => None,
            },
            texts(exts@),
        ),
        lowers_ascii(
            match name {
                Some(n) => extension_of_name(n@),
                None => None,
            },
        ),
{
    let ghost wanted = match name {
        Some(n) => extension_of_name(n@),
        None => None,
    };
    let ext = match name {
        Some(n) => extension(n),
        None => None,
    };
    match ext {
        Some(e) => {
            let lower = to_lowercase(e.as_str());
            let mut i: usize = 0;
            let len: usize = exts.len();
            while i < len
                invariant
                    wanted == (match name {
                        Some(n) => extension_of_name(n@),
                        None => None,
                    }),
                    wanted is Some,
                    lowers_ascii(wanted),
                    lower@ == lowercase_of(wanted->0),
                    len == exts@.len(),
                    i <= len,
                    forall|j: int| 0 <= j < i ==> texts(exts@)[j] != lower@,
                decreases len - i,
            {
                if exts[i].to_owned() == lower {
                    assert(texts(exts@)[i as int] == lower@);
                    return true;
                }
                assert(texts(exts@)[i as int] != lower@);
                i = i + 1;
            }
            false
        },
        None => false,
    }
}

/// The name under which a file is shown: the last part of its path.
pub fn display_name(path: &str) -> (r: String)
    ensures
        r@ == (match file_name_of(path@) {
            Some(name) => name,
            None => Seq::empty(),
        }),
{
    match path_file_name(path) {
        Some(name) => name,
        None => String::new(),
    }
}

/// The extension of the file at `path` is in the list, whatever its case.
pub fn has_ext(path: &str, exts: &[&str]) -> (r: bool)
    ensures
        r == ext_listed(extension_of(path@), texts(exts@)),
        lowers_ascii(extension_of(path@)),
{
    match path_file_name(path) {
        Some(name) => name_has_ext(Some(name.as_str()), exts),
        None => name_has_ext(None, exts),
    }
}

pub open spec fn is_raw(path: Seq<char>) -> bool {
    ext_listed(extension_of(path), raw_exts())
}

pub open spec fn is_heif(path: Seq<char>) -> bool {
    ext_listed(extension_of(path), heif_exts())
}

pub open spec fn is_svg(path: Seq<char>) -> bool {
    ext_listed(extension_of(path), seq!["svg"@])
}

pub open spec fn is_image(path: Seq<char>) -> bool {
    ext_listed(extension_of(path), image_exts())
}

pub open spec fn is_video(path: Seq<char>) -> bool {
    ext_listed(extension_of(path), video_exts())
}

pub fn is_raw_file(path: &str) -> (r: bool)
    ensures
        r == is_raw(path@),
        lowers_ascii(extension_of(path@)),
{
    has_ext(path, raw_extensions().as_slice())
}

pub fn is_heif_file(path: &str) -> (r: bool)
    ensures
        r == is_heif(path@),
        lowers_ascii(extension_of(path@)),
{
    has_ext(path, heif_extensions().as_slice())
}

pub fn is_svg_file(path: &str) -> (r: bool)
    ensures
        r == is_svg(path@),
        lowers_ascii(extension_of(path@)),
{
    let exts: Vec<&'static str> = vec!["svg"];
    assert(texts(exts@) =~= seq!["svg"@]);
    has_ext(path, exts.as_slice())
}

pub fn is_image_file(path: &str) -> (r: bool)
    ensures
        r == is_image(path@),
        lowers_ascii(extension_of(path@)),
{
    has_ext(path, image_extensions().as_slice())
}

pub fn is_video_file(path: &str) -> (r: bool)
    ensures
        r == is_video(path@),
        lowers_ascii(extension_of(path@)),
{
    has_ext(path, video_extensions().as_slice())
}

/// The file is one that the viewer can show.
pub fn is_supported_file(path: &str) -> (r: bool)
    ensures
        r == (is_image(path@) || is_video(path@)),
        lowers_ascii(extension_of(path@)),
{
    is_image_file(path) || is_video_file(path)
}

/// Which media the viewer steps through.
#[derive(Clone, Copy, PartialEq, Eq, Debug, Structural)]
pub enum MediaFilter {
    All,
    ImagesOnly,
    VideosOnly,
}

impl MediaFilter {
    /// The name under which the filter is shown.
    pub open spec fn text(self) -> Seq<char> {
        match self {
            MediaFilter::All => "All Media"@,
            MediaFilter::ImagesOnly => "Images Only"@,
            MediaFilter::VideosOnly => "Videos Only"@,
        }
    }

    pub fn label(self) -> (r: &'static str)
        ensures
            r@ == self.text(),
    {
        match self {
            MediaFilter::All => "All Media",
            MediaFilter::ImagesOnly => "Images Only",
            MediaFilter::VideosOnly => "Videos Only",
        }
    }

    pub open spec fn next(self) -> MediaFilter {
        match self {
            MediaFilter::All => MediaFilter::ImagesOnly,
            MediaFilter::ImagesOnly => MediaFilter::VideosOnly,
            MediaFilter::VideosOnly => MediaFilter::All,
        }
    }

    /// The filter that comes next in turn.
    pub fn cycle(self) -> (r: MediaFilter)
        ensures
            r == self.next(),
    {
        match self {
            MediaFilter::All => MediaFilter::ImagesOnly,
            MediaFilter::ImagesOnly => MediaFilter::VideosOnly,
            MediaFilter::VideosOnly => MediaFilter::All,
        }
    }

    /// The filter lets the file through.
    pub open spec fn admits(self, path: Seq<char>) -> bool {
        match self {
            MediaFilter::All => true,
            MediaFilter::ImagesOnly => is_image(path),
            MediaFilter::VideosOnly => is_video(path),
        }
    }
}

/// The filter lets the file through.
pub fn matches_filter(path: &str, filter: MediaFilter) -> (r: bool)
    ensures
        r == filter.admits(path@),
        !(filter is All) ==> lowers_ascii(extension_of(path@)),
{
    match filter {
        MediaFilter::All => true,
        MediaFilter::ImagesOnly => is_image_file(path),
        MediaFilter::VideosOnly => is_video_file(path),
    }
}

/// In which order the viewer goes through the media.
#[derive(Clone, Copy, PartialEq, Eq, Debug, Structural)]
pub enum ViewOrder {
    Random,
    Ordered,
}

impl ViewOrder {
    /// The name under which the order is shown.
    pub open spec fn text(self) -> Seq<char> {
        match self {
            ViewOrder::Random => "Random"@,
            ViewOrder::Ordered => "Ordered"@,
        }
    }

    pub fn label(self) -> (r: &'static str)
        ensures
            r@ == self.text(),
    {
        match self {
            ViewOrder::Random => "Random",
            ViewOrder::Ordered => "Ordered",
        }
    }

    pub open spec fn other(self) -> ViewOrder {
        match self {
            ViewOrder::Random => ViewOrder::Ordered,
            ViewOrder::Ordered => ViewOrder::Random,
        }
    }

    pub fn toggle(self) -> (r: ViewOrder)
        ensures
            r == self.other(),
    {
        match self {
            ViewOrder::Random => ViewOrder::Ordered,
            ViewOrder::Ordered => ViewOrder::Random,
        }
    }
}

/// How a file is loaded.
#[derive(Clone, Copy, PartialEq, Eq, Debug, Structural)]
pub enum Loader {
    Video,
    /// Camera raw: the embedded preview, or else a full development.
    Raw,
    /// HEIF family: the first frame of a one-frame video.
    Heif,
    /// Any other still picture, drawings among them.
    Still,
}

/// How the file at `path` is loaded.
pub fn loader_for(path: &str) -> (r: Loader)
    ensures
        r == (if is_video(path@) {
            Loader::Video
        } else if is_raw(path@) {
            Loader::Raw
        } else if is_heif(path@) {
            Loader::Heif
        } else {
            Loader::Still
        }),
        lowers_ascii(extension_of(path@)),
{
    if is_video_file(path) {
        Loader::Video
    } else if is_raw_file(path) {
        Loader::Raw
    } else if is_heif_file(path) {
        Loader::Heif
    } else {
        Loader::Still
    }
}

/// Three turns through the filters lead back to the first.
pub proof fn filters_come_round(filter: MediaFilter)
    ensures
        filter.next().next().next() == filter,
        filter.next() != filter,
        filter.next().next() != filter,
{
}

/// Changing the order twice changes nothing.
pub proof fn order_toggles_back(order: ViewOrder)
    ensures
        order.other().other() == order,
        order.other() != order,
{
}

/// Camera raw files and files of the HEIF family are pictures.
pub proof fn raw_and_heif_are_images(path: Seq<char>)
    ensures
        is_raw(path) ==> is_image(path),
        is_heif(path) ==> is_image(path),
{
    let plain = seq!["jpg"@, "jpeg"@, "png"@, "bmp"@, "webp"@, "gif"@, "tiff"@, "ico"@, "svg"@];
    if is_raw(path) {
        let e = lowercase_of(extension_of(path)->0);
        let i = choose|i: int| 0 <= i < raw_exts().len() && raw_exts()[i] == e;
        assert(image_exts()[plain.len() + heif_exts().len() + i] == e);
    }
    if is_heif(path) {
        let e = lowercase_of(extension_of(path)->0);
        let i = choose|i: int| 0 <= i < heif_exts().len() && heif_exts()[i] == e;
        assert(image_exts()[plain.len() + i] == e);
    }
}

spec fn of_two(word: Seq<char>, a: char, b: char) -> bool {
    word.len() == 2 && word[0] == a && word[1] == b
}

spec fn of_three(word: Seq<char>, a: char, b: char, c: char) -> bool {
    word.len() == 3 && word[0] == a && word[1] == b && word[2] == c
}

spec fn of_four(word: Seq<char>, a: char, b: char, c: char, d: char) -> bool {
    word.len() == 4 && word[0] == a && word[1] == b && word[2] == c && word[3] == d
}

/// The word is the extension of a video, letter by letter.
spec fn spells_video(word: Seq<char>) -> bool {
    ||| of_three(word, 'm', 'p', '4')
    ||| of_three(word, 'm', 'k', 'v')
    ||| of_three(word, 'a', 'v', 'i')
    ||| of_three(word, 'm', 'o', 'v')
    ||| of_three(word, 'w', 'm', 'v')
    ||| of_three(word, 'f', 'l', 'v')
    ||| of_four(word, 'w', 'e', 'b', 'm')
    ||| of_three(word, 'm', '4', 'v')
    ||| of_three(word, 'm', 'p', 'g')
    ||| of_four(word, 'm', 'p', 'e', 'g')
    ||| of_three(word, '3', 'g', 'p')
    ||| of_three(word, 'o', 'g', 'v')
    ||| of_two(word, 't', 's')
    ||| of_three(word, 'v', 'o', 'b')
}

/// The word is the extension of a picture, letter by letter.
spec fn spells_image(word: Seq<char>) -> bool {
    ||| of_three(word, 'j', 'p', 'g')
    ||| of_four(word, 'j', 'p', 'e', 'g')
    ||| of_three(word, 'p', 'n', 'g')
    ||| of_three(word, 'b', 'm', 'p')
    ||| of_four(word, 'w', 'e', 'b', 'p')
    ||| of_three(word, 'g', 'i', 'f')
    ||| of_four(word, 't', 'i', 'f', 'f')
    ||| of_three(word, 'i', 'c', 'o')
    ||| of_three(word, 's', 'v', 'g')
    ||| of_four(word, 'h', 'e', 'i', 'c')
    ||| of_four(word, 'h', 'e', 'i', 'f')
    ||| of_four(word, 'a', 'v', 'i', 'f')
    ||| of_three(word, 'n', 'e', 'f')
    ||| of_three(word, 'n', 'r', 'w')
    ||| of_three(word, 'c', 'r', '2')
    ||| of_three(word, 'a', 'r', 'w')
    ||| of_three(word, 's', 'r', 'f')
    ||| of_three(word, 's', 'r', '2')
    ||| of_three(word, 'd', 'n', 'g')
    ||| of_three(word, 'r', 'a', 'f')
    ||| of_three(word, 'r', 'w', '2')
    ||| of_three(word, 'o', 'r', 'f')
    ||| of_three(word, 'p', 'e', 'f')
    ||| of_three(word, 's', 'r', 'w')
    ||| of_three(word, '3', 'f', 'r')
    ||| of_three(word, 'm', 'r', 'w')
    ||| of_three(word, 'i', 'i', 'q')
    ||| of_three(word, 'k', 'd', 'c')
    ||| of_three(word, 'd', 'c', 'r')
    ||| of_three(word, 'r', 'w', 'l')
    ||| of_three(word, 'x', '3', 'f')
    ||| of_three(word, 'm', 'e', 'f')
    ||| of_three(word, 'm', 'o', 's')
}

proof fn video_words(word: Seq<char>)
    requires
        video_exts().contains(word),
    ensures
        spells_video(word),
{
    let list = video_exts();
    let i = choose|i: int| 0 <= i < list.len() && list[i] == word;
    reveal_strlit("mp4");
    reveal_strlit("mkv");
    reveal_strlit("avi");
    reveal_strlit("mov");
    reveal_strlit("wmv");
    reveal_strlit("flv");
    reveal_strlit("webm");
    reveal_strlit("m4v");
    reveal_strlit("mpg");
    reveal_strlit("mpeg");
    reveal_strlit("3gp");
    reveal_strlit("ogv");
    reveal_strlit("ts");
    reveal_strlit("vob");
    assert(of_three(list[0], 'm', 'p', '4'));
    assert(of_three(list[1], 'm', 'k', 'v'));
    assert(of_three(list[2], 'a', 'v', 'i'));
    assert(of_three(list[3], 'm', 'o', 'v'));
    assert(of_three(list[4], 'w', 'm', 'v'));
    assert(of_three(list[5], 'f', 'l', 'v'));
    assert(of_four(list[6], 'w', 'e', 'b', 'm'));
    assert(of_three(list[7], 'm', '4', 'v'));
    assert(of_three(list[8], 'm', 'p', 'g'));
    assert(of_four(list[9], 'm', 'p', 'e', 'g'));
    assert(of_three(list[10], '3', 'g', 'p'));
    assert(of_three(list[11], 'o', 'g', 'v'));
    assert(of_two(list[12], 't', 's'));
    assert(of_three(list[13], 'v', 'o', 'b'));
}

proof fn image_words(i: int)
    requires
        0 <= i < image_exts().len(),
    ensures
        spells_image(image_exts()[i]),
        image_exts()[i] == "svg"@ <==> i == 8,
{
    let list = image_exts();
    reveal_strlit("jpg");
    reveal_strlit("jpeg");
    reveal_strlit("png");
    reveal_strlit("bmp");
    reveal_strlit("webp");
    reveal_strlit("gif");
    reveal_strlit("tiff");
    reveal_strlit("ico");
    reveal_strlit("svg");
    reveal_strlit("heic");
    reveal_strlit("heif");
    reveal_strlit("avif");
    reveal_strlit("nef");
    reveal_strlit("nrw");
    reveal_strlit("cr2");
    reveal_strlit("arw");
    reveal_strlit("srf");
    reveal_strlit("sr2");
    reveal_strlit("dng");
    reveal_strlit("raf");
    reveal_strlit("rw2");
    reveal_strlit("orf");
    reveal_strlit("pef");
    reveal_strlit("srw");
    reveal_strlit("3fr");
    reveal_strlit("mrw");
    reveal_strlit("iiq");
    reveal_strlit("kdc");
    reveal_strlit("dcr");
    reveal_strlit("rwl");
    reveal_strlit("x3f");
    reveal_strlit("mef");
    reveal_strlit("mos");
    assert(of_three(list[0], 'j', 'p', 'g'));
    assert(of_four(list[1], 'j', 'p', 'e', 'g'));
    assert(of_three(list[2], 'p', 'n', 'g'));
    assert(of_three(list[3], 'b', 'm', 'p'));
    assert(of_four(list[4], 'w', 'e', 'b', 'p'));
    assert(of_three(list[5], 'g', 'i', 'f'));
    assert(of_four(list[6], 't', 'i', 'f', 'f'));
    assert(of_three(list[7], 'i', 'c', 'o'));
    assert(of_three(list[8], 's', 'v', 'g'));
    assert(of_four(list[9], 'h', 'e', 'i', 'c'));
    assert(of_four(list[10], 'h', 'e', 'i', 'f'));
    assert(of_four(list[11], 'a', 'v', 'i', 'f'));
    assert(of_three(list[12], 'n', 'e', 'f'));
    assert(of_three(list[13], 'n', 'r', 'w'));
    assert(of_three(list[14], 'c', 'r', '2'));
    assert(of_three(list[15], 'a', 'r', 'w'));
    assert(of_three(list[16], 's', 'r', 'f'));
    assert(of_three(list[17], 's', 'r', '2'));
    assert(of_three(list[18], 'd', 'n', 'g'));
    assert(of_three(list[19], 'r', 'a', 'f'));
    assert(of_three(list[20], 'r', 'w', '2'));
    assert(of_three(list[21], 'o', 'r', 'f'));
    assert(of_three(list[22], 'p', 'e', 'f'));
    assert(of_three(list[23], 's', 'r', 'w'));
    assert(of_three(list[24], '3', 'f', 'r'));
    assert(of_three(list[25], 'm', 'r', 'w'));
    assert(of_three(list[26], 'i', 'i', 'q'));
    assert(of_three(list[27], 'k', 'd', 'c'));
    assert(of_three(list[28], 'd', 'c', 'r'));
    assert(of_three(list[29], 'r', 'w', 'l'));
    assert(of_three(list[30], 'x', '3', 'f'));
    assert(of_three(list[31], 'm', 'e', 'f'));
    assert(of_three(list[32], 'm', 'o', 's'));
}

/// No file is a picture and a video at once; so of the files that can be shown,
/// each is admitted by one of the two filters and kept out by the other.
pub proof fn images_are_no_videos(path: Seq<char>)
    ensures
        !(is_image(path) && is_video(path)),
        is_image(path) || is_video(path) ==> MediaFilter::ImagesOnly.admits(path)
            != MediaFilter::VideosOnly.admits(path),
{
    if is_image(path) && is_video(path) {
        let word = lowercase_of(extension_of(path)->0);
        let i = choose|i: int| 0 <= i < image_exts().len() && image_exts()[i] == word;
        video_words(word);
        image_words(i);
    }
}

/// A file with the extension of an SVG document is a picture, and of no kind
/// that is loaded in another way.
pub proof fn svg_files_are_drawn(path: Seq<char>)
    requires
        is_svg(path),
    ensures
        is_image(path),
        !is_video(path),
        !is_raw(path),
        !is_heif(path),
{
    let word = lowercase_of(extension_of(path)->0);
    let k = choose|k: int| 0 <= k < 1 && seq!["svg"@][k] == word;
    assert(image_exts()[8] == word);
    images_are_no_videos(path);
    if is_raw(path) {
        let i = choose|i: int| 0 <= i < raw_exts().len() && raw_exts()[i] == word;
        assert(image_exts()[12 + i] == word);
        image_words(12 + i);
    }
    if is_heif(path) {
        let i = choose|i: int| 0 <= i < heif_exts().len() && heif_exts()[i] == word;
        assert(image_exts()[9 + i] == word);
        image_words(9 + i);
    }
}

/// The extension of a name is what stands behind its last dot, whatever stands
/// before it, as long as something does.
pub proof fn the_extension_is_behind_the_last_dot(stem: Seq<char>, ext: Seq<char>)
    requires
        stem.len() > 0,
        forall|i: int| 0 <= i < ext.len() ==> #[trigger] ext[i] != '.',
    ensures
        extension_of_name(stem.push('.') + ext) == Some(ext),
{
    let name = stem.push('.') + ext;
    last_dot_is_behind(stem, ext);
    assert(name.skip(stem.len() as int + 1) =~= ext);
}

proof fn last_dot_is_behind(stem: Seq<char>, ext: Seq<char>)
    requires
        forall|i: int| 0 <= i < ext.len() ==> #[trigger] ext[i] != '.',
    ensures
        last_dot(stem.push('.') + ext) == Some(stem.len()),
    decreases ext.len(),
{
    let name = stem.push('.') + ext;
    if ext.len() == 0 {
        assert(name =~= stem.push('.'));
    } else {
        assert(name.last() == ext[ext.len() - 1]);
        assert(name.drop_last() =~= stem.push('.') + ext.drop_last());
        last_dot_is_behind(stem, ext.drop_last());
    }
}

/// A name without a dot, or with none but at its front, has no extension.
pub proof fn a_name_may_have_no_extension(name: Seq<char>)
    requires
        forall|i: int| 1 <= i < name.len() ==> #[trigger] name[i] != '.',
    ensures
        extension_of_name(name) is None,
{
    no_dot_behind_the_front(name);
}

proof fn no_dot_behind_the_front(name: Seq<char>)
    requires
        forall|i: int| 1 <= i < name.len() ==> #[trigger] name[i] != '.',
    ensures
        last_dot(name) matches Some(d) ==> d == 0,
    decreases name.len(),
{
    if name.len() > 1 {
        assert(name[name.len() - 1] != '.');
        assert forall|i: int| 1 <= i < name.drop_last().len() implies #[trigger] name.drop_last()[i]
            != '.' by {
            assert(name.drop_last()[i] == name[i]);
        }
        no_dot_behind_the_front(name.drop_last());
    } else {
        reveal_with_fuel(last_dot, 2);
    }
}

/// What a file is, is told by the extension of its name alone, in lower case, and by
/// these lists. A path that names no file, and a name without an extension, is of
/// no kind.
pub proof fn files_are_told_by_their_extension(path: Seq<char>, name: Seq<char>, ext: Seq<char>)
    requires
        file_name_of(path) == Some(name),
        extension_of_name(name) == Some(ext),
    ensures
        is_raw(path) <==> {
            let word = lowercase_of(ext);
            ||| word == "nef"@
            ||| word == "nrw"@
            ||| word == "cr2"@
            ||| word == "arw"@
            ||| word == "srf"@
            ||| word == "sr2"@
            ||| word == "dng"@
            ||| word == "raf"@
            ||| word == "rw2"@
            ||| word == "orf"@
            ||| word == "pef"@
            ||| word == "srw"@
            ||| word == "3fr"@
            ||| word == "mrw"@
            ||| word == "iiq"@
            ||| word == "kdc"@
            ||| word == "dcr"@
            ||| word == "rwl"@
            ||| word == "x3f"@
            ||| word == "mef"@
            ||| word == "mos"@
        },
        is_heif(path) <==> {
            let word = lowercase_of(ext);
            ||| word == "heic"@
            ||| word == "heif"@
            ||| word == "avif"@
        },
        is_svg(path) <==> lowercase_of(ext) == "svg"@,
        is_image(path) <==> is_raw(path) || is_heif(path) || {
            let word = lowercase_of(ext);
            ||| word == "jpg"@
            ||| word == "jpeg"@
            ||| word == "png"@
            ||| word == "bmp"@
            ||| word == "webp"@
            ||| word == "gif"@
            ||| word == "tiff"@
            ||| word == "ico"@
            ||| word == "svg"@
        },
        is_video(path) <==> {
            let word = lowercase_of(ext);
            ||| word == "mp4"@
            ||| word == "mkv"@
            ||| word == "avi"@
            ||| word == "mov"@
            ||| word == "wmv"@
            ||| word == "flv"@
            ||| word == "webm"@
            ||| word == "m4v"@
            ||| word == "mpg"@
            ||| word == "mpeg"@
            ||| word == "3gp"@
            ||| word == "ogv"@
            ||| word == "ts"@
            ||| word == "vob"@
        },
{
    let word = lowercase_of(ext);
    let plain = seq!["jpg"@, "jpeg"@, "png"@, "bmp"@, "webp"@, "gif"@, "tiff"@, "ico"@, "svg"@];
    assert(extension_of(path) == Some(ext));
    assert(seq!["svg"@].contains(word) <==> word == "svg"@) by {
        assert(seq!["svg"@][0] == "svg"@);
    }
    assert(raw_exts()[0] == "nef"@);
    assert(raw_exts()[1] == "nrw"@);
    assert(raw_exts()[2] == "cr2"@);
    assert(raw_exts()[3] == "arw"@);
    assert(raw_exts()[4] == "srf"@);
    assert(raw_exts()[5] == "sr2"@);
    assert(raw_exts()[6] == "dng"@);
    assert(raw_exts()[7] == "raf"@);
    assert(raw_exts()[8] == "rw2"@);
    assert(raw_exts()[9] == "orf"@);
    assert(raw_exts()[10] == "pef"@);
    assert(raw_exts()[11] == "srw"@);
    assert(raw_exts()[12] == "3fr"@);
    assert(raw_exts()[13] == "mrw"@);
    assert(raw_exts()[14] == "iiq"@);
    assert(raw_exts()[15] == "kdc"@);
    assert(raw_exts()[16] == "dcr"@);
    assert(raw_exts()[17] == "rwl"@);
    assert(raw_exts()[18] == "x3f"@);
    assert(raw_exts()[19] == "mef"@);
    assert(raw_exts()[20] == "mos"@);
    assert(heif_exts()[0] == "heic"@);
    assert(heif_exts()[1] == "heif"@);
    assert(heif_exts()[2] == "avif"@);
    assert(plain[0] == "jpg"@);
    assert(plain[1] == "jpeg"@);
    assert(plain[2] == "png"@);
    assert(plain[3] == "bmp"@);
    assert(plain[4] == "webp"@);
    assert(plain[5] == "gif"@);
    assert(plain[6] == "tiff"@);
    assert(plain[7] == "ico"@);
    assert(plain[8] == "svg"@);
    assert(video_exts()[0] == "mp4"@);
    assert(video_exts()[1] == "mkv"@);
    assert(video_exts()[2] == "avi"@);
    assert(video_exts()[3] == "mov"@);
    assert(video_exts()[4] == "wmv"@);
    assert(video_exts()[5] == "flv"@);
    assert(video_exts()[6] == "webm"@);
    assert(video_exts()[7] == "m4v"@);
    assert(video_exts()[8] == "mpg"@);
    assert(video_exts()[9] == "mpeg"@);
    assert(video_exts()[10] == "3gp"@);
    assert(video_exts()[11] == "ogv"@);
    assert(video_exts()[12] == "ts"@);
    assert(video_exts()[13] == "vob"@);
    assert(image_exts().contains(word) <==> plain.contains(word) || heif_exts().contains(word)
        || raw_exts().contains(word)) by {
        let all = image_exts();
        if all.contains(word) {
            let i = choose|i: int| 0 <= i < all.len() && all[i] == word;
            if i < 9 {
                assert(plain[i] == word);
            } else if i < 12 {
                assert(heif_exts()[i - 9] == word);
            } else {
                assert(raw_exts()[i - 12] == word);
            }
        }
        if plain.contains(word) {
            let i = choose|i: int| 0 <= i < plain.len() && plain[i] == word;
            assert(all[i] == word);
        }
        if heif_exts().contains(word) {
            let i = choose|i: int| 0 <= i < heif_exts().len() && heif_exts()[i] == word;
            assert(all[9 + i] == word);
        }
        if raw_exts().contains(word) {
            let i = choose|i: int| 0 <= i < raw_exts().len() && raw_exts()[i] == word;
            assert(all[12 + i] == word);
        }
    }
}

/// A path that names no file, and a file without an extension, is of no kind.
pub proof fn files_without_extension_are_of_no_kind(path: Seq<char>)
    requires
        file_name_of(path) matches Some(name) ==> extension_of_name(name) is None,
    ensures
        !is_raw(path) && !is_heif(path) && !is_svg(path) && !is_image(path) && !is_video(path),
        extension_of(path) is None,
{
}

/// The widest filter lets every file through, and each of the others the files of
/// its kind and no other. They come in turn: all, pictures, videos.
pub proof fn filters_admit_their_kind(path: Seq<char>)
    ensures
        MediaFilter::All.admits(path),
        MediaFilter::ImagesOnly.admits(path) <==> is_image(path),
        MediaFilter::VideosOnly.admits(path) <==> is_video(path),
        MediaFilter::All.next() is ImagesOnly,
        MediaFilter::ImagesOnly.next() is VideosOnly,
        MediaFilter::VideosOnly.next() is All,
        MediaFilter::All.text() == "All Media"@,
        MediaFilter::ImagesOnly.text() == "Images Only"@,
        MediaFilter::VideosOnly.text() == "Videos Only"@,
        ViewOrder::Random.other() is Ordered,
        ViewOrder::Ordered.other() is Random,
        ViewOrder::Random.text() == "Random"@,
        ViewOrder::Ordered.text() == "Ordered"@,
{
}

/// Lower case makes small letters of the ASCII capitals and leaves every other
/// character as it is.
pub proof fn capitals_are_made_small(c: char)
    ensures
        'A' <= c <= 'Z' ==> ascii_lower(c) as u32 == c as u32 + 32,
        !('A' <= c <= 'Z') ==> ascii_lower(c) == c,
{
}

/// The extension of a path is that of the file it names.
pub proof fn a_path_has_the_extension_of_its_file(path: Seq<char>)
    ensures
        file_name_of(path) matches Some(name) ==> extension_of(path) == extension_of_name(name),
        file_name_of(path) is None ==> extension_of(path) is None,
{
}

/// An extension is listed exactly if there is one, and the list has it in lower case.
pub proof fn extensions_are_listed_in_lower_case(ext: Seq<char>, exts: Seq<Seq<char>>)
    ensures
        ext_listed(Some(ext), exts) <==> exists|i: int|
            0 <= i < exts.len() && #[trigger] exts[i] == lowercase_of(ext),
        !ext_listed(None, exts),
{
}

/// The texts of a list are those of its members, in their order.
pub proof fn texts_are_seen_as_they_are(list: Seq<&str>)
    ensures
        texts(list).len() == list.len(),
        forall|i: int| 0 <= i < list.len() ==> #[trigger] texts(list)[i] == list[i]@,
{
}

/// The lists of extensions, as they are offered where a file is chosen.
pub proof fn extensions_are_offered_in_this_order()
    ensures
        raw_exts() == seq![
            "nef"@, "nrw"@, "cr2"@, "arw"@, "srf"@, "sr2"@, "dng"@, "raf"@, "rw2"@, "orf"@,
            "pef"@, "srw"@, "3fr"@, "mrw"@, "iiq"@, "kdc"@, "dcr"@, "rwl"@, "x3f"@, "mef"@,
            "mos"@,
        ],
        heif_exts() == seq!["heic"@, "heif"@, "avif"@],
        image_exts().take(9) == seq![
            "jpg"@, "jpeg"@, "png"@, "bmp"@, "webp"@, "gif"@, "tiff"@, "ico"@, "svg"@,
        ],
        image_exts().skip(9) == heif_exts() + raw_exts(),
        video_exts() == seq![
            "mp4"@, "mkv"@, "avi"@, "mov"@, "wmv"@, "flv"@, "webm"@, "m4v"@, "mpg"@, "mpeg"@,
            "3gp"@, "ogv"@, "ts"@, "vob"@,
        ],
{
}

} // verus!
