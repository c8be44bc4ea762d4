//! The strip of small pictures above the seek bar: where in the video they are
//! taken, how large they are, and which one is shown.

use crate::navigation::{numbers_where, numbers_where_holds, numbers_where_in_order};
use crate::pixels::{pack_rows, packed, rows_fit};
use vstd::prelude::*;

verus! {

/// How many thumbnails a video has.
pub const THUMB_COUNT: usize = 20;

/// The width of a thumbnail in pixels.
pub const THUMB_WIDTH: u32 = 192;

/// The height of a thumbnail whose video has no width.
pub const THUMB_HEIGHT: u32 = 108;

/// How many packets are read at most for one thumbnail.
pub const MAX_PACKETS: usize = 200;

/// The height of the thumbnails of a video: in proportion, and at least one.
pub open spec fn height_for(width: u32, height: u32) -> int {
    if width > 0 {
        let scaled = THUMB_WIDTH * height / (width as int);
        if scaled < 1 {
            1
        } else {
            scaled
        }
    } else {
        THUMB_HEIGHT as int
    }
}

/// The height of the thumbnails of a video, the low bits of it where it is
/// larger than a `u32`.
pub fn thumb_height(width: u32, height: u32) -> (r: u32)
    ensures
        r == height_for(width, height) as u32,
        height_for(width, height) <= u32::MAX ==> r == height_for(width, height),
{
    if width > 0 {
        assert(THUMB_WIDTH * height <= 192 * u32::MAX) by (nonlinear_arith)
            requires
                THUMB_WIDTH == 192,
                0 <= height <= u32::MAX,
        ;
        let scaled: u64 = (THUMB_WIDTH as u64 * height as u64) / width as u64;
        let at_least_one: u64 = if scaled < 1 {
            1
        } else {
            scaled
        };
        at_least_one as u32
    } else {
        THUMB_HEIGHT
    }
}

/// A stretch of a video in which a thumbnail is sought.
#[derive(Clone, Copy, PartialEq, Eq, Debug, Structural)]
pub struct Segment {
    /// The time that is aimed at.
    pub target_us: i64,
    /// The time before which a seek has to land.
    pub end_us: i64,
}

/// The time aimed at for thumbnail `i` of `count`: a quarter into the stretch
/// of the video that it stands for.
pub open spec fn target_of(duration_us: i64, count: usize, i: usize) -> int {
    duration_us * i / (count as int) + duration_us as int / (count * 4)
}

/// Where to seek for thumbnail `i` of `count`; nowhere in a video without a
/// length.
pub fn segment(duration_us: i64, count: usize, i: usize) -> (r: Option<Segment>)
    requires
        i < count,
        count * 4 <= i64::MAX,
        duration_us > 0 ==> target_of(duration_us, count, i) + duration_us as int / (count as int)
            <= i64::MAX,
    ensures
        r is None <==> duration_us <= 0,
        r matches Some(s) ==> s.target_us == target_of(duration_us, count, i) && s.end_us
            == target_of(duration_us, count, i) + duration_us as int / (count as int),
{
    if duration_us <= 0 {
        return None;
    }
    proof {
        targets_are_inside(duration_us, count, i);
        assert(0 <= duration_us * i <= i64::MAX * u64::MAX) by (nonlinear_arith)
            requires
                0 <= duration_us <= i64::MAX,
                0 <= i <= u64::MAX,
        ;
    }
    let start: i64 = (duration_us as i128 * i as i128 / count as i128) as i64;
    let target_us: i64 = start + duration_us / (count as i64 * 4);
    Some(Segment { target_us, end_us: target_us + duration_us / count as i64 })
}

/// What to do with the next packet while a thumbnail is sought.
#[derive(Clone, Copy, PartialEq, Eq, Debug, Structural)]
pub enum ThumbAction {
    /// Send it to the decoder: a frame that comes out is the thumbnail.
    Decode,
    /// It is of another stream.
    Skip,
    /// The video goes without this thumbnail.
    GiveUp,
}

/// The search for one thumbnail.
#[derive(Clone, Copy, PartialEq, Eq, Debug, Structural)]
pub struct ThumbSearch {
    /// The stream with the video.
    pub stream: usize,
    /// How many packets were read.
    pub packets: usize,
}

impl ThumbSearch {
    pub fn new(stream: usize) -> (r: ThumbSearch)
        ensures
            r == (ThumbSearch { stream, packets: 0 }),
    {
        ThumbSearch { stream, packets: 0 }
    }

    /// A packet was read, of the stream of this number, or none could be read.
    pub fn packet(&mut self, stream: Option<usize>) -> (r: ThumbAction)
        requires
            old(self).packets <= MAX_PACKETS,
        ensures
            *final(self) == (ThumbSearch {
                packets: (old(self).packets + 1) as usize,
                ..*old(self)
            }),
            r == (if old(self).packets >= MAX_PACKETS || stream is None {
                ThumbAction::GiveUp
            } else if stream == Some(old(self).stream) {
                ThumbAction::Decode
            } else {
                ThumbAction::Skip
            }),
            r is GiveUp || final(self).packets <= MAX_PACKETS,
    {
        self.packets = self.packets + 1;
        if self.packets > MAX_PACKETS {
            return ThumbAction::GiveUp;
        }
        match stream {
            None => ThumbAction::GiveUp,
            Some(n) => if n == self.stream {
                ThumbAction::Decode
            } else {
                ThumbAction::Skip
            },
        }
    }
}

/// The pixels of a thumbnail, of four bytes each, without gaps.
pub fn thumb_pixels(width: u32, height: u32, src: &[u8], stride: usize) -> (r: Vec<u8>)
    requires
        width * 4 <= usize::MAX,
        width * 4 * height <= usize::MAX,
        rows_fit(src@.len(), stride as nat, (width * 4) as nat, height as nat),
    ensures
        r@ == packed(src@, stride as nat, (width * 4) as nat, height as nat),
        r@.len() == width * 4 * height,
{
    pack_rows(src, stride, width as usize * 4, height as usize)
}

/// Thumbnail `i` is there and has no texture yet.
pub open spec fn lacks_texture(ready: Seq<bool>, textured: Seq<bool>, i: int) -> bool {
    ready[i] && !(i < textured.len() && textured[i])
}

/// The thumbnails that are there and have no texture yet.
pub fn to_upload(ready: &Vec<bool>, textured: &Vec<bool>) -> (r: Vec<usize>)
    ensures
        r@ == numbers_where(ready@.len(), |i: int| lacks_texture(ready@, textured@, i)),
{
    let len: usize = ready.len();
    let mut out: Vec<usize> = Vec::new();
    let mut i: usize = 0;
    while i < len
        invariant
            i <= len,
            len == ready@.len(),
            out@ == numbers_where(i as nat, |i: int| lacks_texture(ready@, textured@, i)),
        decreases len - i,
    {
        if ready[i] && !(i < textured.len() && textured[i]) {
            out.push(i);
        }
        i = i + 1;
    }
    out
}

/// How far apart two places are.
pub open spec fn apart(a: int, b: int) -> int {
    if a < b {
        b - a
    } else {
        a - b
    }
}

/// `c` is the place of the thumbnail to show for place `wanted`: none that is
/// there is nearer, and none as near is further to the front.
pub open spec fn is_nearest(there: Seq<bool>, wanted: int, c: int) -> bool {
    &&& 0 <= c < there.len()
    &&& there[c]
    &&& forall|d: int|
        0 <= d < there.len() && #[trigger] there[d] ==> apart(c, wanted) < apart(d, wanted) || (
        apart(c, wanted) == apart(d, wanted) && c <= d)
}

/// The place asked for, or the last where it is past the end.
pub open spec fn within(count: nat, wanted: usize) -> int {
    if wanted < count {
        wanted as int
    } else if count > 0 {
        count - 1
    } else {
        0
    }
}

/// The thumbnail to show for a place on the seek bar: the nearest that is
/// there.
pub fn nearest(there: &Vec<bool>, wanted: usize) -> (r: Option<usize>)
    ensures
        match r {
            Some(c) => is_nearest(there@, within(there@.len(), wanted), c as int),
            None => forall|d: int| 0 <= d < there@.len() ==> !there@[d],
        },
{
    let count: usize = there.len();
    if count == 0 {
        return None;
    }
    let at: usize = if wanted < count {
        wanted
    } else {
        count - 1
    };
    let mut step: usize = 0;
    while step < count
        invariant
            count == there@.len(),
            at == within(there@.len(), wanted),
            at < count,
            step <= count,
            forall|d: int|
                0 <= d < there@.len() && apart(d, at as int) < step ==> !#[trigger] there@[d],
        decreases count - step,
    {
        if step <= at && there[at - step] {
            return Some(at - step);
        }
        if step <= count - 1 - at && there[at + step] {
            return Some(at + step);
        }
        step = step + 1;
    }
    None
}

/// There is one nearest thumbnail at most.
pub proof fn nearest_is_unique(there: Seq<bool>, wanted: int, c: int, d: int)
    requires
        is_nearest(there, wanted, c),
        is_nearest(there, wanted, d),
    ensures
        c == d,
{
    assert(there[c] && there[d]);
}

/// The times aimed at lie in the video, in the stretch of their thumbnail.
pub proof fn targets_are_inside(duration_us: i64, count: usize, i: usize)
    requires
        duration_us > 0,
        i < count,
    ensures
        0 <= duration_us * i / (count as int) <= target_of(duration_us, count, i) <= duration_us,
{
    let d = duration_us as int;
    let n = count as int;
    assert(0 <= d * i / n && 0 <= d / (n * 4) && d * i / n + d / (n * 4) <= d) by (nonlinear_arith)
        requires
            d > 0,
            0 <= i < n,
    {
        assert(d * i <= d * (n - 1));
        let q = d * i / n;
        let p = d / (n * 4);
        assert(q * n <= d * i);
        assert(p * (n * 4) <= d);
        assert(p * n <= d);
        assert((q + p) * n <= d * (n - 1) + d);
        assert((q + p) * n <= d * n);
    }
    assert(count * 4 == n * 4);
}

/// Thumbnails are 192 pixels wide and in proportion: as high as that leaves, to the
/// pixel below, but at least one; 108 for a video without a width.
pub proof fn thumbnails_keep_the_proportion(width: u32, height: u32)
    ensures
        width == 0 ==> height_for(width, height) == 108,
        width > 0 ==> {
            let h = height_for(width, height);
            &&& h >= 1
            &&& 192 * height < (h + 1) * width
            &&& h * width <= 192 * height || (h == 1 && 192 * height < width)
        },
{
    if width > 0 {
        let a = THUMB_WIDTH * height;
        let w = width as int;
        assert(a == 192 * height);
        vstd::arithmetic::div_mod::lemma_fundamental_div_mod(a, w);
        vstd::arithmetic::div_mod::lemma_mod_bound(a, w);
        let q = a / w;
        assert(q * w == w * q && (q + 1) * w == w * q + w) by (nonlinear_arith);
        assert(0 <= a) by (nonlinear_arith)
            requires
                a == 192 * height,
                height >= 0,
        ;
        assert(q >= 0) by (nonlinear_arith)
            requires
                a == w * q + a % w,
                a >= 0,
                a % w < w,
                w > 0,
        ;
        let h = height_for(width, height);
        if q < 1 {
            assert(h == 1 && w * q == 0) by (nonlinear_arith)
                requires
                    h == 1,
                    q == 0,
            ;
            assert((h + 1) * w == w + w) by (nonlinear_arith)
                requires
                    h == 1,
            ;
        } else {
            assert(h == q);
        }
    }
}

/// Thumbnail `i` is sought a quarter into the stretch of the video that it stands
/// for: where stretch `i` of so many equal ones begins, and a quarter of one
/// further, each to the microsecond below.
pub proof fn thumbnails_are_a_quarter_in(
    duration_us: i64,
    count: usize,
    i: usize,
    start: int,
    quarter: int,
)
    requires
        duration_us > 0,
        i < count,
        start * count <= duration_us * i < (start + 1) * count,
        quarter * (4 * count) <= duration_us < (quarter + 1) * (4 * count),
    ensures
        target_of(duration_us, count, i) == start + quarter,
{
    let n = count as int;
    let a = duration_us * i;
    let d = duration_us as int;
    assert(a - start * n < n) by (nonlinear_arith)
        requires
            a < (start + 1) * n,
    ;
    vstd::arithmetic::div_mod::lemma_fundamental_div_mod_converse(a, n, start, a - start * n);
    assert(d - quarter * (4 * n) < 4 * n) by (nonlinear_arith)
        requires
            d < (quarter + 1) * (4 * n),
    ;
    vstd::arithmetic::div_mod::lemma_fundamental_div_mod_converse(
        d,
        4 * n,
        quarter,
        d - quarter * (4 * n),
    );
    assert(count * 4 == 4 * n);
}

/// What is to be uploaded is every thumbnail that is there and has no texture, each
/// once and in order.
pub proof fn thumbnails_without_texture_are_uploaded(ready: Seq<bool>, textured: Seq<bool>)
    requires
        ready.len() <= usize::MAX,
    ensures
        ({
            let list = numbers_where(ready.len(), |i: int| lacks_texture(ready, textured, i));
            &&& forall|i: int|
                0 <= i < ready.len() ==> (#[trigger] list.contains(i as usize) <==> ready[i] && (i
                    >= textured.len() || !textured[i]))
            &&& forall|k: int| 0 <= k < list.len() ==> (#[trigger] list[k]) < ready.len()
            &&& forall|k: int, m: int|
                0 <= k < m < list.len() ==> (#[trigger] list[k]) < (#[trigger] list[m])
        }),
{
    let pred = |i: int| lacks_texture(ready, textured, i);
    let list = numbers_where(ready.len(), pred);
    numbers_where_holds(ready.len(), pred);
    numbers_where_in_order(ready.len(), pred);
    assert forall|i: int| 0 <= i < ready.len() implies (#[trigger] list.contains(i as usize)
        <==> ready[i] && (i >= textured.len() || !textured[i])) by {
        if list.contains(i as usize) {
            let k = choose|k: int| 0 <= k < list.len() && list[k] == i as usize;
            assert(pred(list[k] as int));
        }
        if pred(i) {
            assert(list.contains(i as usize));
        }
    }
}

/// The thumbnail that is shown is there, none that is there is nearer to the place
/// asked for, and none further to the front is as near. A place past the end counts
/// as the last.
pub proof fn the_nearest_thumbnail_is_shown(there: Seq<bool>, wanted: usize, c: int, d: int)
    requires
        there.len() > 0,
        is_nearest(there, within(there.len(), wanted), c),
        0 <= d < there.len(),
        there[d],
    ensures
        0 <= c < there.len(),
        there[c],
        ({
            let at = if wanted < there.len() {
                wanted as int
            } else {
                there.len() - 1
            };
            let to_c = if c < at {
                at - c
            } else {
                c - at
            };
            let to_d = if d < at {
                at - d
            } else {
                d - at
            };
            to_c < to_d || (to_c == to_d && c <= d)
        }),
{
}

/// How many thumbnails there are, how large, and how long one is sought.
pub proof fn measures_of_the_strip()
    ensures
        THUMB_COUNT == 20,
        THUMB_WIDTH == 192,
        THUMB_HEIGHT == 108,
        MAX_PACKETS == 200,
{
}

} // verus!
