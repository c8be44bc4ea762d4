//! A decoded still picture, and turning it.

use vstd::arithmetic::div_mod::{lemma_fundamental_div_mod, lemma_fundamental_div_mod_converse};
use vstd::prelude::*;

verus! {

/// A picture with four bytes per pixel: red, green, blue, alpha.
pub struct Picture {
    pub width: u32,
    pub height: u32,
    pub rgba: Vec<u8>,
}

/// `Picture` with its bytes as a sequence.
#[verifier::ext_equal]
pub struct Raster {
    pub width: nat,
    pub height: nat,
    pub rgba: Seq<u8>,
}

impl View for Picture {
    type V = Raster;

    open spec fn view(&self) -> Raster {
        Raster { width: self.width as nat, height: self.height as nat, rgba: self.rgba@ }
    }
}

impl Raster {
    /// There are four bytes for each pixel.
    pub open spec fn wf(self) -> bool {
        self.rgba.len() == self.width * self.height * 4
    }

    /// Channel `c` of the pixel in column `x` of row `y`.
    pub open spec fn sample(self, x: int, y: int, c: int) -> u8 {
        self.rgba[(y * self.width + x) * 4 + c]
    }

    /// Turned clockwise by a quarter: the column `x` of the result, read
    /// downwards, is row `height - 1 - x` of the picture.
    pub open spec fn turned_cw(self) -> Raster {
        Raster {
            width: self.height,
            height: self.width,
            rgba: Seq::new(
                self.rgba.len(),
                |k: int|
                    self.sample(
                        (k / 4) / (self.height as int),
                        self.height - 1 - (k / 4) % (self.height as int),
                        k % 4,
                    ),
            ),
        }
    }

    /// Turned counter-clockwise by a quarter.
    pub open spec fn turned_ccw(self) -> Raster {
        Raster {
            width: self.height,
            height: self.width,
            rgba: Seq::new(
                self.rgba.len(),
                |k: int|
                    self.sample(
                        self.width - 1 - (k / 4) / (self.height as int),
                        (k / 4) % (self.height as int),
                        k % 4,
                    ),
            ),
        }
    }
}

/// The picture of an image of three bytes per pixel: all of it opaque.
pub open spec fn opaque_raster(width: nat, height: nat, rgb: Seq<u8>) -> Raster {
    Raster {
        width,
        height,
        rgba: Seq::new(
            width * height * 4,
            |k: int|
                if k % 4 == 3 {
                    255u8
                } else {
                    rgb[(k / 4) * 3 + k % 4]
                },
        ),
    }
}

/// The place of a pixel is inside the picture.
proof fn pixel_index_in_range(x: int, y: int, width: int, height: int)
    requires
        0 <= x < width,
        0 <= y < height,
    ensures
        0 <= y * width + x < width * height,
{
    assert(0 <= y * width + x < width * height) by (nonlinear_arith)
        requires
            0 <= x < width,
            0 <= y < height,
    ;
}

/// A pixel number splits into its row and its column.
proof fn pixel_index_splits(n: int, width: int, height: int)
    requires
        0 <= n < width * height,
        width >= 0,
        height >= 0,
    ensures
        width > 0,
        height > 0,
        0 <= n / width < height,
        0 <= n % width < width,
        n == (n / width) * width + n % width,
{
    assert(width > 0 && height > 0) by (nonlinear_arith)
        requires
            0 <= n < width * height,
            width >= 0,
            height >= 0,
    ;
    lemma_fundamental_div_mod(n, width);
    assert(0 <= n / width < height) by (nonlinear_arith)
        requires
            0 <= n < width * height,
            n == width * (n / width) + n % width,
            0 <= n % width < width,
            width > 0,
    ;
    assert((n / width) * width == width * (n / width)) by (nonlinear_arith);
}

/// A row and a column come back out of the pixel number that they make.
proof fn pixel_index_joins(x: int, y: int, width: int)
    requires
        0 <= x < width,
    ensures
        (y * width + x) / width == y,
        (y * width + x) % width == x,
{
    lemma_fundamental_div_mod_converse(y * width + x, width, y, x);
}

/// Turning clockwise moves the pixel at (`x`, `y`) to (`height - 1 - y`, `x`).
pub proof fn cw_moves_pixels(p: Raster, x: int, y: int, c: int)
    requires
        p.wf(),
        0 <= x < p.width,
        0 <= y < p.height,
        0 <= c < 4,
    ensures
        p.turned_cw().sample(p.height - 1 - y, x, c) == p.sample(x, y, c),
{
    let (w, h) = (p.width as int, p.height as int);
    pixel_index_in_range(h - 1 - y, x, h, w);
    pixel_index_joins(h - 1 - y, x, h);
    assert(h * w == w * h) by (nonlinear_arith);
    let k = (x * h + (h - 1 - y)) * 4 + c;
    assert(k / 4 == x * h + (h - 1 - y));
    assert(k % 4 == c);
}

/// Turning counter-clockwise moves the pixel at (`x`, `y`) to
/// (`y`, `width - 1 - x`).
pub proof fn ccw_moves_pixels(p: Raster, x: int, y: int, c: int)
    requires
        p.wf(),
        0 <= x < p.width,
        0 <= y < p.height,
        0 <= c < 4,
    ensures
        p.turned_ccw().sample(y, p.width - 1 - x, c) == p.sample(x, y, c),
{
    let (w, h) = (p.width as int, p.height as int);
    pixel_index_in_range(y, w - 1 - x, h, w);
    pixel_index_joins(y, w - 1 - x, h);
    assert(h * w == w * h) by (nonlinear_arith);
    let k = ((w - 1 - x) * h + y) * 4 + c;
    assert(k / 4 == (w - 1 - x) * h + y);
    assert(k % 4 == c);
}

/// A turned picture is a picture with width and height exchanged.
pub proof fn turning_keeps_form(p: Raster)
    requires
        p.wf(),
    ensures
        p.turned_cw().wf(),
        p.turned_ccw().wf(),
{
    assert(p.height * p.width * 4 == p.width * p.height * 4) by (nonlinear_arith);
}

/// Turning one way and back gives the picture again.
pub proof fn turning_back(p: Raster)
    requires
        p.wf(),
    ensures
        p.turned_cw().turned_ccw() == p,
        p.turned_ccw().turned_cw() == p,
{
    turning_keeps_form(p);
    let (w, h) = (p.width as int, p.height as int);
    let a = p.turned_cw().turned_ccw();
    let b = p.turned_ccw().turned_cw();
    assert forall|k: int| 0 <= k < p.rgba.len() implies a.rgba[k] == p.rgba[k] && b.rgba[k]
        == p.rgba[k] by {
        pixel_index_splits(k / 4, w, h);
        let (x, y, c) = ((k / 4) % w, (k / 4) / w, k % 4);
        assert((y * w + x) * 4 + c == k);
        cw_moves_pixels(p, x, y, c);
        ccw_moves_pixels(p.turned_cw(), h - 1 - y, x, c);
        ccw_moves_pixels(p, x, y, c);
        cw_moves_pixels(p.turned_ccw(), y, w - 1 - x, c);
    }
    assert(a.rgba =~= p.rgba);
    assert(b.rgba =~= p.rgba);
}

/// Four quarter turns clockwise give the picture again.
pub proof fn four_turns(p: Raster)
    requires
        p.wf(),
    ensures
        p.turned_cw().turned_cw().turned_cw().turned_cw() == p,
        p.turned_cw().turned_cw().turned_cw() == p.turned_ccw(),
{
    turning_keeps_form(p);
    let p1 = p.turned_cw();
    turning_keeps_form(p1);
    let p2 = p1.turned_cw();
    turning_keeps_form(p2);
    let p3 = p2.turned_cw();
    turning_keeps_form(p3);
    let p4 = p3.turned_cw();
    let (w, h) = (p.width as int, p.height as int);
    assert forall|k: int| 0 <= k < p.rgba.len() implies p4.rgba[k] == p.rgba[k] by {
        pixel_index_splits(k / 4, w, h);
        let (x, y, c) = ((k / 4) % w, (k / 4) / w, k % 4);
        assert((y * w + x) * 4 + c == k);
        cw_moves_pixels(p, x, y, c);
        cw_moves_pixels(p1, h - 1 - y, x, c);
        cw_moves_pixels(p2, w - 1 - x, h - 1 - y, c);
        cw_moves_pixels(p3, y, w - 1 - x, c);
    }
    assert(p4.rgba =~= p.rgba);
    turning_back(p3);
    assert(p4.turned_ccw() == p3);
}

impl Picture {
    fn turned(&self, clockwise: bool) -> (r: Picture)
        requires
            self@.wf(),
        ensures
            r@ == (if clockwise {
                self@.turned_cw()
            } else {
                self@.turned_ccw()
            }),
            r@.wf(),
    {
        let w: usize = self.width as usize;
        let h: usize = self.height as usize;
        let ghost target = if clockwise {
            self@.turned_cw()
        } else {
            self@.turned_ccw()
        };
        let len: usize = self.rgba.len();
        let count: usize = len / 4;
        let mut out: Vec<u8> = Vec::with_capacity(len);
        let mut n: usize = 0;
        assert(count == w * h);
        while n < count
            invariant
                self@.wf(),
                w == self.width,
                h == self.height,
                len == self.rgba@.len(),
                count == w * h,
                len == count * 4,
                n <= count,
                out@.len() == n * 4,
                target == (if clockwise {
                    self@.turned_cw()
                } else {
                    self@.turned_ccw()
                }),
                forall|k: int| 0 <= k < out@.len() ==> out@[k] == target.rgba[k],
            decreases count - n,
        {
            proof {
                assert(h * w == w * h) by (nonlinear_arith);
                pixel_index_splits(n as int, h as int, w as int);
            }
            let row: usize = n / h;
            let column: usize = n % h;
            let (x, y): (usize, usize) = if clockwise {
                (row, h - 1 - column)
            } else {
                (w - 1 - row, column)
            };
            proof {
                pixel_index_in_range(x as int, y as int, w as int, h as int);
                assert(0 <= y * w <= y * w + x) by (nonlinear_arith)
                    requires
                        y >= 0,
                        w >= 0,
                        x >= 0,
                ;
            }
            let from: usize = (y * w + x) * 4;
            out.push(self.rgba[from]);
            out.push(self.rgba[from + 1]);
            out.push(self.rgba[from + 2]);
            out.push(self.rgba[from + 3]);
            assert forall|k: int| 0 <= k < out@.len() implies out@[k] == target.rgba[k] by {
                if k >= n * 4 {
                    assert(k / 4 == n);
                }
            }
            n = n + 1;
        }
        proof {
            assert(out@ =~= target.rgba);
            turning_keeps_form(self@);
        }
        Picture { width: self.height, height: self.width, rgba: out }
    }

    /// The picture turned clockwise by a quarter.
    pub fn rotate_cw(&self) -> (r: Picture)
        requires
            self@.wf(),
        ensures
            r@ == self@.turned_cw(),
            r@.wf(),
    {
        self.turned(true)
    }

    /// The picture turned counter-clockwise by a quarter.
    pub fn rotate_ccw(&self) -> (r: Picture)
        requires
            self@.wf(),
        ensures
            r@ == self@.turned_ccw(),
            r@.wf(),
    {
        self.turned(false)
    }

    /// The picture of an image of three bytes per pixel, if there are bytes for
    /// all of its pixels; bytes past those are ignored.
    pub fn from_rgb(width: u32, height: u32, rgb: &Vec<u8>) -> (r: Option<Picture>)
        requires
            width * height * 3 <= rgb@.len() ==> width * height * 4 <= usize::MAX,
        ensures
            r is Some <==> width * height * 3 <= rgb@.len(),
            r matches Some(p) ==> p@ == opaque_raster(width as nat, height as nat, rgb@) && p@.wf(),
    {
        assert(0 <= width * height <= u32::MAX * u32::MAX) by (nonlinear_arith)
            requires
                0 <= width <= u32::MAX,
                0 <= height <= u32::MAX,
        ;
        let pixels: u128 = width as u128 * height as u128;
        if pixels * 3 > rgb.len() as u128 {
            return None;
        }
        let count: usize = pixels as usize;
        let ghost target = opaque_raster(width as nat, height as nat, rgb@);
        let mut out: Vec<u8> = Vec::with_capacity(count * 4);
        let mut n: usize = 0;
        while n < count
            invariant
                count == width * height,
                count * 3 <= rgb@.len(),
                count * 4 <= usize::MAX,
                n <= count,
                out@.len() == n * 4,
                target == opaque_raster(width as nat, height as nat, rgb@),
                forall|k: int| 0 <= k < out@.len() ==> out@[k] == target.rgba[k],
            decreases count - n,
        {
            let from: usize = n * 3;
            out.push(rgb[from]);
            out.push(rgb[from + 1]);
            out.push(rgb[from + 2]);
            out.push(255);
            assert forall|k: int| 0 <= k < out@.len() implies out@[k] == target.rgba[k] by {
                if k >= n * 4 {
                    assert(k / 4 == n);
                }
            }
            n = n + 1;
        }
        assert(out@ =~= target.rgba);
        Some(Picture { width, height, rgba: out })
    }
}

/// Turning clockwise exchanges width and height and moves every byte of a pixel: the
/// pixel in column `x` of row `y` comes to column `height - 1 - y` of row `x`.
pub proof fn cw_moves_every_byte(p: Raster, x: int, y: int, c: int)
    requires
        p.rgba.len() == p.width * p.height * 4,
        0 <= x < p.width,
        0 <= y < p.height,
        0 <= c < 4,
    ensures
        p.turned_cw().width == p.height,
        p.turned_cw().height == p.width,
        p.turned_cw().rgba.len() == p.rgba.len(),
        p.turned_cw().rgba[(x * p.height + (p.height - 1 - y)) * 4 + c] == p.rgba[(y * p.width + x)
            * 4 + c],
{
    cw_moves_pixels(p, x, y, c);
}

/// Turning counter-clockwise exchanges width and height and moves every byte of a
/// pixel: the pixel in column `x` of row `y` comes to column `y` of row
/// `width - 1 - x`.
pub proof fn ccw_moves_every_byte(p: Raster, x: int, y: int, c: int)
    requires
        p.rgba.len() == p.width * p.height * 4,
        0 <= x < p.width,
        0 <= y < p.height,
        0 <= c < 4,
    ensures
        p.turned_ccw().width == p.height,
        p.turned_ccw().height == p.width,
        p.turned_ccw().rgba.len() == p.rgba.len(),
        p.turned_ccw().rgba[((p.width - 1 - x) * p.height + y) * 4 + c] == p.rgba[(y * p.width + x)
            * 4 + c],
{
    ccw_moves_pixels(p, x, y, c);
}

/// The picture of an image of three bytes per pixel has those bytes, pixel by pixel,
/// and is opaque.
pub proof fn opaque_pictures_keep_their_colours(
    width: nat,
    height: nat,
    rgb: Seq<u8>,
    n: int,
)
    requires
        0 <= n < width * height,
    ensures
        ({
            let p = opaque_raster(width, height, rgb);
            &&& p.width == width && p.height == height
            &&& p.rgba.len() == width * height * 4
            &&& p.rgba[n * 4] == rgb[n * 3]
            &&& p.rgba[n * 4 + 1] == rgb[n * 3 + 1]
            &&& p.rgba[n * 4 + 2] == rgb[n * 3 + 2]
            &&& p.rgba[n * 4 + 3] == 255
        }),
{
    assert((n * 4) / 4 == n && (n * 4) % 4 == 0);
    assert((n * 4 + 1) / 4 == n && (n * 4 + 1) % 4 == 1);
    assert((n * 4 + 2) / 4 == n && (n * 4 + 2) % 4 == 2);
    assert((n * 4 + 3) / 4 == n && (n * 4 + 3) % 4 == 3);
}

/// A picture is seen as it is, and is whole where it has four bytes for each pixel.
pub proof fn a_picture_is_seen_as_it_is(p: Picture)
    ensures
        p@.width == p.width,
        p@.height == p.height,
        p@.rgba == p.rgba@,
        p@.wf() <==> p.rgba@.len() == p.width * p.height * 4,
{
    assert(p.width as nat * p.height as nat * 4 == p.width * p.height * 4);
}

} // verus!
