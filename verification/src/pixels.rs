//! Rows of pixels, and closing the gaps between them.

use vstd::prelude::*;
use vstd::slice::slice_subrange;

verus! {

/// The first `height` rows of `src`, one after another without a gap: row `y`
/// is the `row` bytes from `y * stride` on.
pub open spec fn packed(src: Seq<u8>, stride: nat, row: nat, height: nat) -> Seq<u8>
    decreases height,
{
    if height == 0 {
        Seq::empty()
    } else {
        let start = (height - 1) * stride;
        packed(src, stride, row, (height - 1) as nat) + src.subrange(start, start + row)
    }
}

/// The first `height` rows are there.
pub open spec fn rows_fit(len: nat, stride: nat, row: nat, height: nat) -> bool {
    height > 0 ==> (height - 1) * stride + row <= len
}

/// `packed` holds `row` bytes per row, and byte `x` of row `y` comes from its
/// place in the source.
pub proof fn packed_places(src: Seq<u8>, stride: nat, row: nat, height: nat)
    requires
        rows_fit(src.len(), stride, row, height),
    ensures
        packed(src, stride, row, height).len() == row * height,
        forall|y: int, x: int|
            0 <= y < height && 0 <= x < row ==> #[trigger] packed(
                src,
                stride,
                row,
                height,
            )[y * row + x] == src[y * stride + x],
    decreases height,
{
    if height > 0 {
        let h = (height - 1) as nat;
        assert(h > 0 ==> (h - 1) * stride + row <= h * stride + row) by (nonlinear_arith);
        packed_places(src, stride, row, h);
        assert(row * height == row * h + row) by (nonlinear_arith)
            requires
                height == h + 1,
        ;
        let before = packed(src, stride, row, h);
        let all = packed(src, stride, row, height);
        assert(0 <= h * stride) by (nonlinear_arith);
        assert forall|y: int, x: int| 0 <= y < height && 0 <= x < row implies #[trigger] all[y
            * row + x] == src[y * stride + x] by {
            if y < h {
                assert(0 <= y * row + x < row * h) by (nonlinear_arith)
                    requires
                        0 <= y < h,
                        0 <= x < row,
                ;
                assert(before[y * row + x] == src[y * stride + x]);
            } else {
                assert(y * row == row * h) by (nonlinear_arith)
                    requires
                        y == h,
                ;
            }
        }
    } else {
        assert(row * height == 0) by (nonlinear_arith)
            requires
                height == 0,
        ;
    }
}

/// Closes the gaps between the rows of a decoded picture.
pub fn pack_rows(src: &[u8], stride: usize, row: usize, height: usize) -> (r: Vec<u8>)
    requires
        rows_fit(src@.len(), stride as nat, row as nat, height as nat),
        row * height <= usize::MAX,
    ensures
        r@ == packed(src@, stride as nat, row as nat, height as nat),
        r@.len() == row * height,
{
    let mut out: Vec<u8> = Vec::with_capacity(row * height);
    let len: usize = src.len();
    let mut y: usize = 0;
    while y < height
        invariant
            y <= height,
            len == src@.len(),
            rows_fit(src@.len(), stride as nat, row as nat, height as nat),
            out@ == packed(src@, stride as nat, row as nat, y as nat),
        decreases height - y,
    {
        assert(0 <= y * stride <= (height - 1) * stride) by (nonlinear_arith)
            requires
                0 <= y <= height - 1,
                0 <= stride,
        ;
        let start: usize = y * stride;
        let ghost before = out@;
        let line = slice_subrange(src, start, start + row);
        out.extend_from_slice(line);
        assert(out@ =~= before + line@);
        y = y + 1;
    }
    proof {
        packed_places(src@, stride as nat, row as nat, height as nat);
    }
    out
}

/// Rows without gaps are packed as they are.
pub proof fn packed_without_gaps(src: Seq<u8>, row: nat, height: nat)
    requires
        row * height <= src.len(),
    ensures
        packed(src, row, row, height) == src.take((row * height) as int),
    decreases height,
{
    if height > 0 {
        let h = (height - 1) as nat;
        assert(row * height == row * h + row) by (nonlinear_arith)
            requires
                height == h + 1,
        ;
        assert(h * row == row * h) by (nonlinear_arith);
        packed_without_gaps(src, row, h);
        assert(src.take((row * h) as int) + src.subrange((row * h) as int, (row * h + row) as int)
            =~= src.take((row * height) as int));
    } else {
        assert(row * height == 0) by (nonlinear_arith)
            requires
                height == 0,
        ;
        assert(src.take(0) =~= Seq::empty());
    }
}

/// So many rows are there if the last of them ends within the bytes.
pub proof fn rows_fit_if_the_last_does(len: nat, stride: nat, row: nat, height: nat)
    ensures
        rows_fit(len, stride, row, 0),
        rows_fit(len, stride, row, height + 1) <==> height * stride + row <= len,
{
}

} // verus!
