//! Text compositing. Shaping and glyph rasterization belong to the
//! external text engine, which reports covered cells relative to a text
//! block's origin; this module translates the cells to buffer
//! coordinates, clips them, and alpha-blends the requested foreground
//! color with the reported coverage.

use vstd::prelude::*;

use crate::canvas::alpha_at;
use crate::canvas::blend_applied;
use crate::canvas::blended_at;
use crate::canvas::pixel_same;
use crate::canvas::Canvas;
use crate::theme::Bgra;

verus! {

/// One covered cell reported by the text engine: an offset from the text
/// block's origin and the coverage of that pixel, used as blend alpha.
#[derive(Clone, Copy, PartialEq, Eq, Structural, Debug)]
pub struct TextCell {
    pub dx: i32,
    pub dy: i32,
    pub coverage: u8,
}

/// A block of text the rasterizer asks the text engine to shape: the
/// text, the origin of its box on the buffer, the font size, the box
/// width the text is centered in, and its foreground color.
pub struct TextItem {
    pub text: String,
    pub x: i64,
    pub y: i64,
    pub font_size: u32,
    pub box_w: u32,
    pub color: Bgra,
}

/// The buffer after blending one reported cell: translated to the block
/// origin at `(x, y)`, clipped against the buffer, and source-over
/// blended with the cell's coverage as alpha. The engine's own glyph
/// color is ignored; only the requested foreground color is used.
pub open spec fn spec_cell_applied(
    data: Seq<u8>,
    side: int,
    x: int,
    y: int,
    cell: TextCell,
    color: Bgra,
) -> Seq<u8> {
    let px = x + cell.dx;
    let py = y + cell.dy;
    if 0 <= px < side && 0 <= py < side {
        blend_applied(data, side, px, py, color, cell.coverage)
    } else {
        data
    }
}

/// The buffer after blending the first `n` reported cells, in order.
pub open spec fn spec_composited(
    data: Seq<u8>,
    side: int,
    x: int,
    y: int,
    cells: Seq<TextCell>,
    color: Bgra,
    n: nat,
) -> Seq<u8>
    decreases n,
{
    if n == 0 {
        data
    } else {
        spec_cell_applied(
            spec_composited(data, side, x, y, cells, color, (n - 1) as nat),
            side,
            x,
            y,
            cells[n - 1],
            color,
        )
    }
}

impl Canvas {
    /// Blends every covered cell of one shaped text block into the
    /// buffer, with the block's origin at `(x, y)`. Cells outside the
    /// buffer are clipped; the buffer keeps its size and every pixel its
    /// alpha byte.
    #[verifier::loop_isolation(false)]
    pub fn composite_text_cells(&mut self, x: i64, y: i64, cells: &Vec<TextCell>, color: Bgra)
        requires
            old(self).wf(),
            -1048576 <= x <= 1048576,
            -1048576 <= y <= 1048576,
        ensures
            final(self).wf(),
            final(self).side == old(self).side,
            final(self).pixel_data.len() == old(self).pixel_data.len(),
            cells.len() == 0 ==> final(self).pixel_data@ == old(self).pixel_data@,
            final(self).pixel_data@ == spec_composited(
                old(self).pixel_data@,
                old(self).side as int,
                x as int,
                y as int,
                cells@,
                color,
                cells@.len(),
            ),
            forall|qx: int, qy: int|
                0 <= qx < old(self).side && 0 <= qy < old(self).side ==> alpha_at(
                    final(self).pixel_data@,
                    old(self).side as int,
                    qx,
                    qy,
                ) == alpha_at(old(self).pixel_data@, old(self).side as int, qx, qy),
    {
        let ghost orig = self.pixel_data@;
        let mut k: usize = 0;
        while k < cells.len()
            invariant
                self.wf(),
                self.side == old(self).side,
                self.pixel_data.len() == old(self).pixel_data.len(),
                k <= cells.len(),
                cells.len() == 0 ==> self.pixel_data@ == old(self).pixel_data@,
                -1048576 <= x <= 1048576,
                -1048576 <= y <= 1048576,
                forall|qx: int, qy: int|
                    0 <= qx < old(self).side && 0 <= qy < old(self).side ==> alpha_at(
                        self.pixel_data@,
                        old(self).side as int,
                        qx,
                        qy,
                    ) == alpha_at(orig, old(self).side as int, qx, qy),
                self.pixel_data@ == spec_composited(
                    orig,
                    old(self).side as int,
                    x as int,
                    y as int,
                    cells@,
                    color,
                    k as nat,
                ),
            decreases cells.len() - k,
        {
            let cell = cells[k];
            let px: i64 = x + cell.dx as i64;
            let py: i64 = y + cell.dy as i64;
            if px >= 0 && px < self.side as i64 && py >= 0 && py < self.side as i64 {
                let ghost prev = self.pixel_data@;
                self.blend_pixel_at(px as usize, py as usize, color, cell.coverage);
                proof {
                    let s = old(self).side as int;
                    assert forall|qx: int, qy: int|
                        0 <= qx < old(self).side && 0 <= qy < old(self).side implies alpha_at(
                        self.pixel_data@,
                        s,
                        qx,
                        qy,
                    ) == alpha_at(orig, s, qx, qy) by {
                        if qx == px && qy == py {
                            assert(blended_at(
                                self.pixel_data@,
                                prev,
                                s,
                                qx,
                                qy,
                                color,
                                cell.coverage,
                            ));
                        } else {
                            assert(pixel_same(self.pixel_data@, prev, s, qx, qy));
                        }
                        assert(alpha_at(prev, s, qx, qy) == alpha_at(orig, s, qx, qy));
                    }
                }
            }
            proof {
                assert(self.pixel_data@ == spec_cell_applied(
                    spec_composited(
                        orig,
                        old(self).side as int,
                        x as int,
                        y as int,
                        cells@,
                        color,
                        k as nat,
                    ),
                    old(self).side as int,
                    x as int,
                    y as int,
                    cells@[k as int],
                    color,
                ));
            }
            k = k + 1;
        }
        proof {
            assert forall|qx: int, qy: int|
                0 <= qx < old(self).side && 0 <= qy < old(self).side implies alpha_at(
                self.pixel_data@,
                old(self).side as int,
                qx,
                qy,
            ) == alpha_at(old(self).pixel_data@, old(self).side as int, qx, qy) by {
                assert(alpha_at(self.pixel_data@, old(self).side as int, qx, qy) == alpha_at(
                    orig,
                    old(self).side as int,
                    qx,
                    qy,
                ));
            }
        }
    }
}

} // verus!
