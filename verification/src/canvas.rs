//! The software rasterizer: one square pixel buffer in packed byte order,
//! with bounds-checked pixel writes, alpha-composited blending, rectangle
//! fill and circle-band fill. Every primitive is total over arbitrary
//! integer coordinates: out-of-range regions are silently clipped.

use vstd::prelude::*;

use crate::theme::Bgra;
use crate::theme::Theme;

verus! {

/// Byte index of pixel `(x, y)` in a square buffer of side `side`.
pub open spec fn idx_of(side: int, x: int, y: int) -> int {
    (y * side + x) * 4
}

/// The four bytes of pixel `(x, y)` hold the color's packed bytes.
pub open spec fn pixel_is(data: Seq<u8>, side: int, x: int, y: int, c: Bgra) -> bool {
    let i = idx_of(side, x, y);
    &&& data[i] == c.blue
    &&& data[i + 1] == c.green
    &&& data[i + 2] == c.red
    &&& data[i + 3] == c.alpha
}

/// The alpha byte of pixel `(x, y)`.
pub open spec fn alpha_at(data: Seq<u8>, side: int, x: int, y: int) -> u8 {
    data[idx_of(side, x, y) + 3]
}

/// Pixel `(x, y)` holds the same four bytes in both buffers.
pub open spec fn pixel_same(a: Seq<u8>, b: Seq<u8>, side: int, x: int, y: int) -> bool {
    let i = idx_of(side, x, y);
    &&& a[i] == b[i]
    &&& a[i + 1] == b[i + 1]
    &&& a[i + 2] == b[i + 2]
    &&& a[i + 3] == b[i + 3]
}

/// One channel of source-over compositing: integer arithmetic,
/// truncating division by 255.
pub open spec fn blend_channel(src: u8, dst: u8, alpha: u8) -> u8 {
    ((src * alpha + dst * (255 - alpha)) / 255) as u8
}

/// `(px, py)` lies inside the (unclipped) rectangle at `(x, y)` of size
/// `w` by `h`.
pub open spec fn in_rect(x: int, y: int, w: int, h: int, px: int, py: int) -> bool {
    &&& x <= px < x + w
    &&& y <= py < y + h
}

/// Squared distance between pixels `(x, y)` and `(cx, cy)`.
pub open spec fn dist_sq(cx: int, cy: int, x: int, y: int) -> int {
    (x - cx) * (x - cx) + (y - cy) * (y - cy)
}

/// A squared distance is never negative.
pub proof fn lemma_dist_sq_nonneg(cx: int, cy: int, x: int, y: int)
    ensures
        dist_sq(cx, cy, x, y) >= 0,
{
    assert((x - cx) * (x - cx) >= 0 && (y - cy) * (y - cy) >= 0) by (nonlinear_arith);
}

pub proof fn lemma_flat_index_injective(side: int, x1: int, y1: int, x2: int, y2: int)
    requires
        0 < side,
        0 <= x1 < side,
        0 <= y1 < side,
        0 <= x2 < side,
        0 <= y2 < side,
        !(x1 == x2 && y1 == y2),
    ensures
        y1 * side + x1 != y2 * side + x2,
{
    assert(y1 * side + x1 != y2 * side + x2) by (nonlinear_arith)
        requires
            0 < side,
            0 <= x1 < side,
            0 <= y1 < side,
            0 <= x2 < side,
            0 <= y2 < side,
            !(x1 == x2 && y1 == y2),
    ;
}

pub proof fn lemma_idx_in_range(side: int, x: int, y: int)
    requires
        0 < side,
        0 <= x < side,
        0 <= y < side,
    ensures
        0 <= idx_of(side, x, y),
        idx_of(side, x, y) + 4 <= side * side * 4,
{
    assert(0 <= y * side + x && y * side + x < side * side) by (nonlinear_arith)
        requires
            0 < side,
            0 <= x < side,
            0 <= y < side,
    ;
}

/// The byte ranges of two distinct pixels do not overlap.
pub proof fn lemma_pixels_disjoint(side: int, x1: int, y1: int, x2: int, y2: int)
    requires
        0 < side,
        0 <= x1 < side,
        0 <= y1 < side,
        0 <= x2 < side,
        0 <= y2 < side,
        !(x1 == x2 && y1 == y2),
    ensures
        idx_of(side, x1, y1) + 4 <= idx_of(side, x2, y2) || idx_of(side, x2, y2) + 4 <= idx_of(
            side,
            x1,
            y1,
        ),
{
    lemma_flat_index_injective(side, x1, y1, x2, y2);
}

/// One square pixel buffer of `side * side` pixels, four bytes each.
pub struct Canvas {
    pub side: usize,
    pub pixel_data: Vec<u8>,
}

impl Canvas {
    /// The structural invariant: a buffer of exactly `side * side * 4`
    /// bytes, with the side large enough that the dial's fixed-radius
    /// center dot nests inside the face and rim bands.
    pub open spec fn wf(self) -> bool {
        &&& 12 <= self.side <= 1024
        &&& self.pixel_data.len() == self.side * self.side * 4
    }

    /// A fresh, fully transparent (all-zero) buffer.
    pub fn new(side: usize) -> (c: Canvas)
        requires
            12 <= side <= 1024,
        ensures
            c.wf(),
            c.side == side,
            forall|i: int| 0 <= i < c.pixel_data.len() ==> c.pixel_data[i] == 0u8,
    {
        proof {
            assert(side * side * 4 <= 1024 * 1024 * 4) by (nonlinear_arith)
                requires
                    4 <= side <= 1024,
            ;
            assert(side * side * 4 >= 0) by (nonlinear_arith)
                requires
                    12 <= side,
            ;
        }
        let n: usize = side * side * 4;
        let mut data: Vec<u8> = Vec::new();
        while data.len() < n
            invariant
                data.len() <= n,
                forall|i: int| 0 <= i < data.len() ==> data[i] == 0u8,
            decreases n - data.len(),
        {
            data.push(0u8);
        }
        Canvas { side, pixel_data: data }
    }

    /// Resets every byte of the buffer to zero.
    pub fn clear(&mut self)
        requires
            old(self).wf(),
        ensures
            final(self).wf(),
            final(self).side == old(self).side,
            final(self).pixel_data.len() == old(self).pixel_data.len(),
            forall|i: int|
                0 <= i < final(self).pixel_data.len() ==> final(self).pixel_data[i] == 0u8,
    {
        let n: usize = self.pixel_data.len();
        let mut i: usize = 0;
        while i < n
            invariant
                n == self.pixel_data.len(),
                i <= n,
                self.side == old(self).side,
                self.pixel_data.len() == old(self).pixel_data.len(),
                forall|j: int| 0 <= j < i ==> self.pixel_data[j] == 0u8,
            decreases n - i,
        {
            self.pixel_data[i] = 0u8;
            i = i + 1;
        }
    }

    /// The raw bytes of the buffer, for handing to the presenter.
    pub fn get_data(&self) -> (r: &[u8])
        ensures
            r@ == self.pixel_data@,
    {
        self.pixel_data.as_slice()
    }

    /// Overwrites the buffer with a previously captured snapshot of the
    /// same size; afterwards the live bytes equal the snapshot exactly.
    pub fn restore_from(&mut self, cache: &Vec<u8>)
        requires
            old(self).wf(),
            cache.len() == old(self).pixel_data.len(),
        ensures
            final(self).wf(),
            final(self).side == old(self).side,
            final(self).pixel_data@ == cache@,
    {
        let n: usize = self.pixel_data.len();
        let mut i: usize = 0;
        while i < n
            invariant
                n == self.pixel_data.len(),
                cache.len() == n,
                i <= n,
                self.side == old(self).side,
                forall|j: int| 0 <= j < i ==> self.pixel_data[j] == cache[j],
            decreases n - i,
        {
            self.pixel_data[i] = cache[i];
            i = i + 1;
        }
        proof {
            assert(self.pixel_data@ =~= cache@);
        }
    }

    /// Returns a snapshot of the buffer's bytes.
    pub fn capture(&self) -> (r: Vec<u8>)
        ensures
            r@ == self.pixel_data@,
    {
        let n: usize = self.pixel_data.len();
        let mut out: Vec<u8> = Vec::new();
        let mut i: usize = 0;
        while i < n
            invariant
                n == self.pixel_data.len(),
                i <= n,
                out.len() == i,
                forall|j: int| 0 <= j < i ==> out[j] == self.pixel_data[j],
            decreases n - i,
        {
            out.push(self.pixel_data[i]);
            i = i + 1;
        }
        proof {
            assert(out@ =~= self.pixel_data@);
        }
        out
    }

    /// Writes `color` into pixel `(x, y)` if it lies inside the buffer;
    /// out-of-range coordinates are ignored. No other pixel changes.
    pub fn set_pixel(&mut self, x: usize, y: usize, color: Bgra)
        requires
            old(self).wf(),
        ensures
            final(self).wf(),
            final(self).side == old(self).side,
            final(self).pixel_data.len() == old(self).pixel_data.len(),
            x < old(self).side && y < old(self).side ==> pixel_is(
                final(self).pixel_data@,
                old(self).side as int,
                x as int,
                y as int,
                color,
            ),
            forall|px: int, py: int|
                0 <= px < old(self).side && 0 <= py < old(self).side && !(px == x && py == y)
                    ==> pixel_same(
                    final(self).pixel_data@,
                    old(self).pixel_data@,
                    old(self).side as int,
                    px,
                    py,
                ),
            !(x < old(self).side && y < old(self).side) ==> final(self).pixel_data@ == old(self).pixel_data@,
    {
        if x >= self.side || y >= self.side {
            return ;
        }
        proof {
            lemma_idx_in_range(self.side as int, x as int, y as int);
        }
        let index: usize = (y * self.side + x) * 4;
        self.pixel_data[index] = color.blue;
        self.pixel_data[index + 1] = color.green;
        self.pixel_data[index + 2] = color.red;
        self.pixel_data[index + 3] = color.alpha;
        proof {
            assert forall|px: int, py: int|
                0 <= px < old(self).side && 0 <= py < old(self).side && !(px == x && py
                    == y) implies pixel_same(
                self.pixel_data@,
                old(self).pixel_data@,
                old(self).side as int,
                px,
                py,
            ) by {
                lemma_pixels_disjoint(old(self).side as int, px, py, x as int, y as int);
                lemma_idx_in_range(old(self).side as int, px, py);
            }
        }
    }

    /// Source-over blends `color` with coverage `alpha` into the three
    /// color channels of the pixel starting at byte `index`; the byte at
    /// `index + 3` and every other byte stay unchanged. A no-op when
    /// fewer than four bytes remain at `index`.
    pub fn blend_pixel(&mut self, index: usize, color: Bgra, alpha: u8)
        requires
            old(self).wf(),
        ensures
            final(self).wf(),
            final(self).side == old(self).side,
            final(self).pixel_data.len() == old(self).pixel_data.len(),
            index + 4 <= old(self).pixel_data.len() ==> {
                &&& final(self).pixel_data[index as int] == blend_channel(
                    color.blue,
                    old(self).pixel_data[index as int],
                    alpha,
                )
                &&& final(self).pixel_data[index + 1] == blend_channel(
                    color.green,
                    old(self).pixel_data[index + 1],
                    alpha,
                )
                &&& final(self).pixel_data[index + 2] == blend_channel(
                    color.red,
                    old(self).pixel_data[index + 2],
                    alpha,
                )
                &&& forall|j: int|
                    0 <= j < old(self).pixel_data.len() && !(index <= j < index + 3) ==> final(self).pixel_data[j] == old(self).pixel_data[j]
            },
            index + 4 > old(self).pixel_data.len() ==> final(self).pixel_data@ == old(self).pixel_data@,
    {
        if self.pixel_data.len() < 4 || index > self.pixel_data.len() - 4 {
            return ;
        }
        let b = blend_channel_exec(color.blue, self.pixel_data[index], alpha);
        let g = blend_channel_exec(color.green, self.pixel_data[index + 1], alpha);
        let r = blend_channel_exec(color.red, self.pixel_data[index + 2], alpha);
        self.pixel_data[index] = b;
        self.pixel_data[index + 1] = g;
        self.pixel_data[index + 2] = r;
    }

    /// Source-over blends `color` with coverage `alpha` into pixel
    /// `(x, y)`; its alpha byte and every other pixel stay unchanged.
    pub fn blend_pixel_at(&mut self, x: usize, y: usize, color: Bgra, alpha: u8)
        requires
            old(self).wf(),
            x < old(self).side,
            y < old(self).side,
        ensures
            final(self).wf(),
            final(self).side == old(self).side,
            final(self).pixel_data.len() == old(self).pixel_data.len(),
            blended_at(
                final(self).pixel_data@,
                old(self).pixel_data@,
                old(self).side as int,
                x as int,
                y as int,
                color,
                alpha,
            ),
            forall|px: int, py: int|
                0 <= px < old(self).side && 0 <= py < old(self).side && !(px == x && py == y)
                    ==> pixel_same(
                    final(self).pixel_data@,
                    old(self).pixel_data@,
                    old(self).side as int,
                    px,
                    py,
                ),
            final(self).pixel_data@ == blend_applied(
                old(self).pixel_data@,
                old(self).side as int,
                x as int,
                y as int,
                color,
                alpha,
            ),
    {
        proof {
            lemma_idx_in_range(self.side as int, x as int, y as int);
        }
        let index: usize = (y * self.side + x) * 4;
        self.blend_pixel(index, color, alpha);
        proof {
            assert(self.pixel_data@ =~= blend_applied(
                old(self).pixel_data@,
                old(self).side as int,
                x as int,
                y as int,
                color,
                alpha,
            ));
        }
        proof {
            assert forall|px: int, py: int|
                0 <= px < old(self).side && 0 <= py < old(self).side && !(px == x && py
                    == y) implies pixel_same(
                self.pixel_data@,
                old(self).pixel_data@,
                old(self).side as int,
                px,
                py,
            ) by {
                lemma_pixels_disjoint(old(self).side as int, px, py, x as int, y as int);
                lemma_idx_in_range(old(self).side as int, px, py);
            }
        }
    }

    /// Writes `color` into every pixel of the rectangle clipped to the
    /// buffer bounds; pixels outside the rectangle stay unchanged.
    /// Out-of-range rectangles are silently clipped, never an error.
    #[verifier::loop_isolation(false)]
    pub fn fill_rect(&mut self, x: i32, y: i32, w: i32, h: i32, color: Bgra)
        requires
            old(self).wf(),
        ensures
            final(self).wf(),
            final(self).side == old(self).side,
            final(self).pixel_data.len() == old(self).pixel_data.len(),
            forall|px: int, py: int|
                0 <= px < old(self).side && 0 <= py < old(self).side && in_rect(
                    x as int,
                    y as int,
                    w as int,
                    h as int,
                    px,
                    py,
                ) ==> pixel_is(
                    final(self).pixel_data@,
                    old(self).side as int,
                    px,
                    py,
                    color,
                ),
            forall|px: int, py: int|
                0 <= px < old(self).side && 0 <= py < old(self).side && !in_rect(
                    x as int,
                    y as int,
                    w as int,
                    h as int,
                    px,
                    py,
                ) ==> pixel_same(
                    final(self).pixel_data@,
                    old(self).pixel_data@,
                    old(self).side as int,
                    px,
                    py,
                ),
    {
        let ghost orig = self.pixel_data@;
        let side_i: i64 = self.side as i64;
        let x0: i64 = if (x as i64) > 0 {
            x as i64
        } else {
            0
        };
        let y0: i64 = if (y as i64) > 0 {
            y as i64
        } else {
            0
        };
        let x1: i64 = if (x as i64) + (w as i64) < side_i {
            (x as i64) + (w as i64)
        } else {
            side_i
        };
        let y1: i64 = if (y as i64) + (h as i64) < side_i {
            (y as i64) + (h as i64)
        } else {
            side_i
        };
        if x0 >= x1 || y0 >= y1 {
            return ;
        }
        let mut py: i64 = y0;
        while py < y1
            invariant
                self.wf(),
                self.side == old(self).side,
                self.pixel_data.len() == old(self).pixel_data.len(),
                0 <= x0 <= x1 <= self.side,
                0 <= y0 <= py <= y1 <= self.side,
                x0 == if x as int > 0 { x as int } else { 0 },
                y0 == if y as int > 0 { y as int } else { 0 },
                x1 == if x + w < self.side { x + w } else { self.side as int },
                y1 == if y + h < self.side { y + h } else { self.side as int },
                forall|qx: int, qy: int|
                    0 <= qx < self.side && 0 <= qy < self.side && in_rect(
                        x as int,
                        y as int,
                        w as int,
                        h as int,
                        qx,
                        qy,
                    ) && qy < py ==> pixel_is(
                        self.pixel_data@,
                        self.side as int,
                        qx,
                        qy,
                        color,
                    ),
                forall|qx: int, qy: int|
                    0 <= qx < self.side && 0 <= qy < self.side && !(in_rect(
                        x as int,
                        y as int,
                        w as int,
                        h as int,
                        qx,
                        qy,
                    ) && qy < py) ==> pixel_same(
                        self.pixel_data@,
                        orig,
                        self.side as int,
                        qx,
                        qy,
                    ),
            decreases y1 - py,
        {
            let mut px: i64 = x0;
            while px < x1
                invariant
                    self.wf(),
                    self.side == old(self).side,
                    self.pixel_data.len() == old(self).pixel_data.len(),
                    0 <= x0 <= px <= x1 <= self.side,
                    0 <= y0 <= py < y1 <= self.side,
                    x0 == if x as int > 0 { x as int } else { 0 },
                    y0 == if y as int > 0 { y as int } else { 0 },
                    x1 == if x + w < self.side { x + w } else { self.side as int },
                    y1 == if y + h < self.side { y + h } else { self.side as int },
                    forall|qx: int, qy: int|
                        0 <= qx < self.side && 0 <= qy < self.side && in_rect(
                            x as int,
                            y as int,
                            w as int,
                            h as int,
                            qx,
                            qy,
                        ) && (qy < py || (qy == py && qx < px)) ==> pixel_is(
                            self.pixel_data@,
                            self.side as int,
                            qx,
                            qy,
                            color,
                        ),
                    forall|qx: int, qy: int|
                        0 <= qx < self.side && 0 <= qy < self.side && !(in_rect(
                            x as int,
                            y as int,
                            w as int,
                            h as int,
                            qx,
                            qy,
                        ) && (qy < py || (qy == py && qx < px))) ==> pixel_same(
                            self.pixel_data@,
                            orig,
                            self.side as int,
                            qx,
                            qy,
                        ),
                decreases x1 - px,
            {
                let ghost prev = self.pixel_data@;
                self.set_pixel(px as usize, py as usize, color);
                proof {
                    assert forall|qx: int, qy: int|
                        0 <= qx < self.side && 0 <= qy < self.side && !(in_rect(
                            x as int,
                            y as int,
                            w as int,
                            h as int,
                            qx,
                            qy,
                        ) && (qy < py || (qy == py && qx < px + 1))) implies pixel_same(
                        self.pixel_data@,
                        orig,
                        self.side as int,
                        qx,
                        qy,
                    ) by {
                        assert(!(qx == px && qy == py));
                        assert(pixel_same(self.pixel_data@, prev, self.side as int, qx, qy));
                        assert(pixel_same(prev, orig, self.side as int, qx, qy));
                    }
                    assert forall|qx: int, qy: int|
                        0 <= qx < self.side && 0 <= qy < self.side && in_rect(
                            x as int,
                            y as int,
                            w as int,
                            h as int,
                            qx,
                            qy,
                        ) && (qy < py || (qy == py && qx < px + 1)) implies pixel_is(
                        self.pixel_data@,
                        self.side as int,
                        qx,
                        qy,
                        color,
                    ) by {
                        if qx == px && qy == py {
                        } else {
                            assert(pixel_is(prev, self.side as int, qx, qy, color));
                            assert(pixel_same(self.pixel_data@, prev, self.side as int, qx, qy));
                        }
                    }
                }
                px = px + 1;
            }
            proof {
                assert forall|qx: int, qy: int|
                    0 <= qx < self.side && 0 <= qy < self.side && in_rect(
                        x as int,
                        y as int,
                        w as int,
                        h as int,
                        qx,
                        qy,
                    ) && qy < py + 1 implies pixel_is(
                    self.pixel_data@,
                    self.side as int,
                    qx,
                    qy,
                    color,
                ) by {
                    if qy == py {
                        assert(qx < x1);
                    }
                }
            }
            py = py + 1;
        }
    }
}

impl Canvas {
    /// Writes `color` into every pixel whose squared distance `d` to the
    /// center `(cx, cy)` satisfies `lo <= d < hi`; every other pixel stays
    /// unchanged.
    #[verifier::loop_isolation(false)]
    pub fn fill_circle_band(&mut self, cx: usize, cy: usize, lo: i64, hi: i64, color: Bgra)
        requires
            old(self).wf(),
            cx <= 4096,
            cy <= 4096,
        ensures
            final(self).wf(),
            final(self).side == old(self).side,
            final(self).pixel_data.len() == old(self).pixel_data.len(),
            forall|px: int, py: int|
                0 <= px < old(self).side && 0 <= py < old(self).side && lo <= dist_sq(
                    cx as int,
                    cy as int,
                    px,
                    py,
                ) < hi ==> pixel_is(
                    final(self).pixel_data@,
                    old(self).side as int,
                    px,
                    py,
                    color,
                ),
            forall|px: int, py: int|
                0 <= px < old(self).side && 0 <= py < old(self).side && !(lo <= dist_sq(
                    cx as int,
                    cy as int,
                    px,
                    py,
                ) < hi) ==> pixel_same(
                    final(self).pixel_data@,
                    old(self).pixel_data@,
                    old(self).side as int,
                    px,
                    py,
                ),
    {
        let ghost orig = self.pixel_data@;
        let side = self.side;
        let mut py: usize = 0;
        while py < side
            invariant
                self.wf(),
                self.side == side,
                self.pixel_data.len() == old(self).pixel_data.len(),
                py <= side,
                forall|qx: int, qy: int|
                    0 <= qx < side && 0 <= qy < side && qy < py && lo <= dist_sq(
                        cx as int,
                        cy as int,
                        qx,
                        qy,
                    ) < hi ==> pixel_is(self.pixel_data@, side as int, qx, qy, color),
                forall|qx: int, qy: int|
                    0 <= qx < side && 0 <= qy < side && !(qy < py && lo <= dist_sq(
                        cx as int,
                        cy as int,
                        qx,
                        qy,
                    ) < hi) ==> pixel_same(self.pixel_data@, orig, side as int, qx, qy),
            decreases side - py,
        {
            let mut px: usize = 0;
            while px < side
                invariant
                    self.wf(),
                    self.side == side,
                    self.pixel_data.len() == old(self).pixel_data.len(),
                    py < side,
                    px <= side,
                    forall|qx: int, qy: int|
                        0 <= qx < side && 0 <= qy < side && (qy < py || (qy == py && qx < px)) && lo
                            <= dist_sq(cx as int, cy as int, qx, qy) < hi ==> pixel_is(
                            self.pixel_data@,
                            side as int,
                            qx,
                            qy,
                            color,
                        ),
                    forall|qx: int, qy: int|
                        0 <= qx < side && 0 <= qy < side && !((qy < py || (qy == py && qx < px))
                            && lo <= dist_sq(cx as int, cy as int, qx, qy) < hi) ==> pixel_same(
                            self.pixel_data@,
                            orig,
                            side as int,
                            qx,
                            qy,
                        ),
                decreases side - px,
            {
                let dx: i64 = px as i64 - cx as i64;
                let dy: i64 = py as i64 - cy as i64;
                proof {
                    assert(dx * dx <= 5120 * 5120 && dx * dx >= 0) by (nonlinear_arith)
                        requires
                            -5120 <= dx <= 5120,
                    ;
                    assert(dy * dy <= 5120 * 5120 && dy * dy >= 0) by (nonlinear_arith)
                        requires
                            -5120 <= dy <= 5120,
                    ;
                }
                let d2: i64 = dx * dx + dy * dy;
                if lo <= d2 && d2 < hi {
                    let ghost prev = self.pixel_data@;
                    self.set_pixel(px, py, color);
                    proof {
                        assert forall|qx: int, qy: int|
                            0 <= qx < side && 0 <= qy < side && !((qy < py || (qy == py && qx < px
                                + 1)) && lo <= dist_sq(cx as int, cy as int, qx, qy)
                                < hi) implies pixel_same(
                            self.pixel_data@,
                            orig,
                            side as int,
                            qx,
                            qy,
                        ) by {
                            assert(!(qx == px && qy == py));
                            assert(pixel_same(self.pixel_data@, prev, side as int, qx, qy));
                            assert(pixel_same(prev, orig, side as int, qx, qy));
                        }
                        assert forall|qx: int, qy: int|
                            0 <= qx < side && 0 <= qy < side && (qy < py || (qy == py && qx < px
                                + 1)) && lo <= dist_sq(cx as int, cy as int, qx, qy)
                                < hi implies pixel_is(
                            self.pixel_data@,
                            side as int,
                            qx,
                            qy,
                            color,
                        ) by {
                            if qx == px && qy == py {
                            } else {
                                assert(!(qx == px as int && qy == py as int));
                                assert(pixel_same(self.pixel_data@, prev, side as int, qx, qy));
                                assert(pixel_is(prev, side as int, qx, qy, color));
                            }
                        }
                    }
                }
                px = px + 1;
            }
            py = py + 1;
        }
    }

    /// Renders the static clock dial: an innermost center dot, the dial
    /// face, and the outer frame ring, classified by squared distance to
    /// the buffer center in that priority order; pixels outside the dial
    /// circle stay untouched.
    pub fn draw_face(&mut self, theme: Theme)
        requires
            old(self).wf(),
        ensures
            final(self).wf(),
            final(self).side == old(self).side,
            final(self).pixel_data.len() == old(self).pixel_data.len(),
            forall|px: int, py: int|
                0 <= px < old(self).side && 0 <= py < old(self).side && face_dist(
                    old(self).side as int,
                    px,
                    py,
                ) < 16 ==> pixel_is(
                    final(self).pixel_data@,
                    old(self).side as int,
                    px,
                    py,
                    theme.primary,
                ),
            forall|px: int, py: int|
                0 <= px < old(self).side && 0 <= py < old(self).side && 16 <= face_dist(
                    old(self).side as int,
                    px,
                    py,
                ) <= face_bg_limit(old(self).side as int) ==> pixel_is(
                    final(self).pixel_data@,
                    old(self).side as int,
                    px,
                    py,
                    theme.background,
                ),
            forall|px: int, py: int|
                0 <= px < old(self).side && 0 <= py < old(self).side && face_bg_limit(
                    old(self).side as int,
                ) < face_dist(old(self).side as int, px, py) <= face_rim_limit(
                    old(self).side as int,
                ) ==> pixel_is(
                    final(self).pixel_data@,
                    old(self).side as int,
                    px,
                    py,
                    theme.frame,
                ),
            forall|px: int, py: int|
                0 <= px < old(self).side && 0 <= py < old(self).side && face_dist(
                    old(self).side as int,
                    px,
                    py,
                ) > face_rim_limit(old(self).side as int) ==> pixel_same(
                    final(self).pixel_data@,
                    old(self).pixel_data@,
                    old(self).side as int,
                    px,
                    py,
                ),
    {
        let r: usize = self.side / 2;
        proof {
            assert(r * r <= 512 * 512) by (nonlinear_arith)
                requires
                    r <= 512,
            ;
            assert((r - 2) * (r - 2) <= r * r) by (nonlinear_arith)
                requires
                    2 <= r,
            ;
            assert((r - 2) * (r - 2) >= 16) by (nonlinear_arith)
                requires
                    6 <= r,
            ;
            assert(r * r >= 36) by (nonlinear_arith)
                requires
                    6 <= r,
            ;
        }
        let bg_limit: i64 = ((r - 2) * (r - 2)) as i64;
        let rim_limit: i64 = (r * r) as i64;
        let ghost s0 = self.pixel_data@;
        self.fill_circle_band(r, r, 0, 16, theme.primary);
        let ghost s1 = self.pixel_data@;
        self.fill_circle_band(r, r, 16, bg_limit + 1, theme.background);
        let ghost s2 = self.pixel_data@;
        self.fill_circle_band(r, r, bg_limit + 1, rim_limit + 1, theme.frame);
        proof {
            let side = old(self).side as int;
            assert forall|px: int, py: int|
                0 <= px < side && 0 <= py < side && face_dist(side, px, py) < 16 implies pixel_is(
                self.pixel_data@,
                side,
                px,
                py,
                theme.primary,
            ) by {
                lemma_dist_sq_nonneg(r as int, r as int, px, py);
                assert(dist_sq(r as int, r as int, px, py) == face_dist(side, px, py));
                assert(pixel_is(s1, side, px, py, theme.primary));
                assert(pixel_same(s2, s1, side, px, py));
                assert(pixel_same(self.pixel_data@, s2, side, px, py));
            }
            assert forall|px: int, py: int|
                0 <= px < side && 0 <= py < side && 16 <= face_dist(side, px, py) <= face_bg_limit(
                    side,
                ) implies pixel_is(self.pixel_data@, side, px, py, theme.background) by {
                assert(dist_sq(r as int, r as int, px, py) == face_dist(side, px, py));
                assert(pixel_is(s2, side, px, py, theme.background));
                assert(pixel_same(self.pixel_data@, s2, side, px, py));
            }
            assert forall|px: int, py: int|
                0 <= px < side && 0 <= py < side && face_bg_limit(side) < face_dist(side, px, py)
                    <= face_rim_limit(side) implies pixel_is(
                self.pixel_data@,
                side,
                px,
                py,
                theme.frame,
            ) by {
                assert(dist_sq(r as int, r as int, px, py) == face_dist(side, px, py));
                assert(pixel_is(self.pixel_data@, side, px, py, theme.frame));
            }
            assert forall|px: int, py: int|
                0 <= px < side && 0 <= py < side && face_dist(side, px, py) > face_rim_limit(
                    side,
                ) implies pixel_same(self.pixel_data@, old(self).pixel_data@, side, px, py) by {
                assert(dist_sq(r as int, r as int, px, py) == face_dist(side, px, py));
                lemma_dist_sq_nonneg(r as int, r as int, px, py);
                assert(pixel_same(s1, s0, side, px, py));
                assert(pixel_same(s2, s1, side, px, py));
                assert(pixel_same(self.pixel_data@, s2, side, px, py));
            }
        }
    }
}

/// Squared distance of pixel `(x, y)` to the dial center of a buffer of
/// the given side.
pub open spec fn face_dist(side: int, x: int, y: int) -> int {
    dist_sq(side / 2, side / 2, x, y)
}

/// Largest squared distance that still belongs to the dial face.
pub open spec fn face_bg_limit(side: int) -> int {
    (side / 2 - 2) * (side / 2 - 2)
}

/// Largest squared distance that still belongs to the dial's outer rim.
pub open spec fn face_rim_limit(side: int) -> int {
    (side / 2) * (side / 2)
}

/// The buffer after source-over blending `c` with coverage `alpha` into
/// the three color channels of pixel `(x, y)`; the pixel's alpha byte and
/// every other byte are untouched.
pub open spec fn blend_applied(
    data: Seq<u8>,
    side: int,
    x: int,
    y: int,
    c: Bgra,
    alpha: u8,
) -> Seq<u8> {
    let i = idx_of(side, x, y);
    data.update(i, blend_channel(c.blue, data[i], alpha)).update(
        i + 1,
        blend_channel(c.green, data[i + 1], alpha),
    ).update(i + 2, blend_channel(c.red, data[i + 2], alpha))
}

/// The three color channels of pixel `(x, y)` in `a` are the source-over
/// blend of `c` into `b`; the pixel's alpha byte is unchanged.
pub open spec fn blended_at(
    a: Seq<u8>,
    b: Seq<u8>,
    side: int,
    x: int,
    y: int,
    c: Bgra,
    alpha: u8,
) -> bool {
    let i = idx_of(side, x, y);
    &&& a[i] == blend_channel(c.blue, b[i], alpha)
    &&& a[i + 1] == blend_channel(c.green, b[i + 1], alpha)
    &&& a[i + 2] == blend_channel(c.red, b[i + 2], alpha)
    &&& a[i + 3] == b[i + 3]
}

/// One source-over channel blend in executable integer arithmetic.
pub fn blend_channel_exec(src: u8, dst: u8, alpha: u8) -> (r: u8)
    ensures
        r == blend_channel(src, dst, alpha),
{
    let s: u32 = src as u32;
    let d: u32 = dst as u32;
    let a: u32 = alpha as u32;
    proof {
        assert(s * a + d * (255 - a) <= 255 * 255) by (nonlinear_arith)
            requires
                s <= 255,
                d <= 255,
                a <= 255,
        ;
    }
    let v: u32 = (s * a + d * (255 - a)) / 255;
    v as u8
}

} // verus!
