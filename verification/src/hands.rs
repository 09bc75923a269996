//! Anti-aliased clock hands, drawn with fixed-point integer arithmetic.
//!
//! A hand is a thick line from the buffer center toward a point on the
//! dial. Directions come from a rational approximation of the sine over a
//! 720-position circle (half-degree steps), scaled by 4096; positions
//! along the line are stepped in fixed-point pixels scaled by 256. Around
//! each step a small square window is scanned and each pixel is blended
//! with full coverage inside the hand's core, a linearly fading coverage
//! across a one-pixel anti-aliasing band, and not at all beyond it. A few
//! initial steps nearest the pivot are skipped so hands do not occlude
//! the center dot.
//!
//! The whole rendering is specified exactly: `spec_radial_line` is the
//! ordered fold of the window-scan stamps, and `draw_radial_line` ensures
//! the buffer equals it, so the drawn frame is a pure function of the
//! buffer it started from and the hand parameters.

use vstd::arithmetic::div_mod::lemma_fundamental_div_mod_converse;
use vstd::prelude::*;

use crate::canvas::alpha_at;
use crate::canvas::blend_applied;
use crate::canvas::blended_at;
use crate::canvas::pixel_same;
use crate::canvas::Canvas;
use crate::theme::Bgra;

verus! {

pub open spec fn spec_abs(v: int) -> int {
    if v >= 0 {
        v
    } else {
        -v
    }
}

/// Sine of an angle of `p` half-degrees over the first half turn, scaled
/// by 4096: a rational approximation, exact at 0, 90 and 180 degrees.
pub open spec fn spec_sin_half_turn(p: int) -> int {
    16384 * (p * (360 - p)) / (162000 - p * (360 - p))
}

/// Sine over the full 720-position circle, scaled by 4096.
pub open spec fn spec_sin_fp(p: int) -> int {
    if p <= 360 {
        spec_sin_half_turn(p)
    } else {
        -spec_sin_half_turn(p - 360)
    }
}

/// Absolute value of a bounded fixed-point quantity.
fn abs_i64(v: i64) -> (r: i64)
    requires
        i64::MIN < v,
    ensures
        r == spec_abs(v as int),
        r >= 0,
{
    if v >= 0 {
        v
    } else {
        -v
    }
}

/// Computes `spec_sin_half_turn`, staying within the unit range.
fn sin_half_turn(p: i64) -> (r: i64)
    requires
        0 <= p <= 360,
    ensures
        r == spec_sin_half_turn(p as int),
        0 <= r <= 4096,
{
    proof {
        assert(0 <= p * (360 - p) <= 32400) by (nonlinear_arith)
            requires
                0 <= p <= 360,
        ;
    }
    let t: i64 = p * (360 - p);
    let num: i64 = 16384 * t;
    let den: i64 = 162000 - t;
    proof {
        assert(num <= 4096 * den) by (nonlinear_arith)
            requires
                num == 16384 * t,
                den == 162000 - t,
                0 <= t <= 32400,
        ;
        assert(num / den <= 4096) by (nonlinear_arith)
            requires
                num <= 4096 * den,
                0 <= num,
                129600 <= den,
        ;
        assert(num / den >= 0) by (nonlinear_arith)
            requires
                0 <= num,
                129600 <= den,
        ;
    }
    num / den
}

/// Computes `spec_sin_fp`.
fn sin_fp(p: u32) -> (r: i64)
    requires
        p < 720,
    ensures
        r == spec_sin_fp(p as int),
        -4096 <= r <= 4096,
{
    if p <= 360 {
        sin_half_turn(p as i64)
    } else {
        -sin_half_turn((p - 360) as i64)
    }
}

/// Unit direction of a hand at angle position `a` (half-degree steps,
/// zero pointing up at twelve o'clock, clockwise), scaled by 4096.
fn hand_dir(a: u32) -> (d: (i64, i64))
    requires
        a < 720,
    ensures
        d.0 == spec_sin_fp(a as int),
        d.1 == -spec_sin_fp((a + 180) % 720 as int),
        -4096 <= d.0 <= 4096,
        -4096 <= d.1 <= 4096,
{
    let dx = sin_fp(a);
    let dy = -sin_fp((a + 180) % 720);
    (dx, dy)
}

/// Everything the hand stepping derives from the side length, the reach
/// (thousandths of the radius), the angle position and the thickness: the
/// fixed-point center, the step count and per-step increments, the
/// squared coverage thresholds, the window radius, and the number of
/// initial steps skipped at the pivot.
pub struct HandPath {
    pub cx_fp: int,
    pub steps: int,
    pub xinc: int,
    pub yinc: int,
    pub inner_sq: int,
    pub outer_sq: int,
    pub sr: int,
    pub skip: int,
}

pub open spec fn spec_hand_path(side: int, dist: int, a: int, thickness: int) -> HandPath {
    let r = side / 2;
    let nx = r * dist * spec_sin_fp(a);
    let ny = r * dist * (-spec_sin_fp((a + 180) % 720));
    let mag_x = spec_abs(nx) / 16000;
    let mag_y = spec_abs(ny) / 16000;
    let steps = if mag_x / 256 >= mag_y / 256 {
        mag_x / 256
    } else {
        mag_y / 256
    };
    let ht = thickness * 128;
    HandPath {
        cx_fp: r * 256,
        steps,
        xinc: if steps >= 1 {
            if nx >= 0 {
                mag_x / steps
            } else {
                -(mag_x / steps)
            }
        } else {
            0
        },
        yinc: if steps >= 1 {
            if ny >= 0 {
                mag_y / steps
            } else {
                -(mag_y / steps)
            }
        } else {
            0
        },
        inner_sq: (ht - 256) * (ht - 256),
        outer_sq: (ht + 256) * (ht + 256),
        sr: (ht + 767) / 256,
        skip: 4 + (ht + 767) / 256,
    }
}

/// The rounded pixel column of the step point at index `i`.
pub open spec fn spec_step_px(p: HandPath, i: int) -> int {
    let x_fp = p.cx_fp + i * p.xinc;
    if x_fp >= -128 {
        (x_fp + 128) / 256
    } else {
        -1
    }
}

/// The rounded pixel row of the step point at index `i`.
pub open spec fn spec_step_py(p: HandPath, i: int) -> int {
    let y_fp = p.cx_fp + i * p.yinc;
    if y_fp >= -128 {
        (y_fp + 128) / 256
    } else {
        -1
    }
}

/// Coverage of pixel `(px, py)` around step `i`, by squared fixed-point
/// distance to the step point: 255 inside the hand's core, fading
/// linearly across the anti-aliasing band, and negative (no write)
/// beyond it.
pub open spec fn spec_coverage(p: HandPath, i: int, px: int, py: int) -> int {
    let ex = px * 256 - (p.cx_fp + i * p.xinc);
    let ey = py * 256 - (p.cx_fp + i * p.yinc);
    let d2 = ex * ex + ey * ey;
    if d2 <= p.inner_sq {
        255
    } else if d2 <= p.outer_sq {
        (p.outer_sq - d2) * 255 / (p.outer_sq - p.inner_sq)
    } else {
        -1
    }
}

/// One stamp attempt of the window scan around step `i`: the window pixel
/// at offset `(dxo, dyo)` is source-over blended with its coverage when
/// it lies on the canvas and inside the coverage band, else nothing
/// changes.
pub open spec fn spec_stamp(
    data: Seq<u8>,
    side: int,
    p: HandPath,
    i: int,
    dyo: int,
    dxo: int,
    color: Bgra,
) -> Seq<u8> {
    let px = spec_step_px(p, i) + dxo;
    let py = spec_step_py(p, i) + dyo;
    if 0 <= px < side && 0 <= py < side && spec_coverage(p, i, px, py) >= 0 {
        blend_applied(data, side, px, py, color, spec_coverage(p, i, px, py) as u8)
    } else {
        data
    }
}

/// The buffer after the first `n` stamp attempts, in scan order: steps
/// outward from the pivot, each window row by row.
pub open spec fn spec_swept(data: Seq<u8>, side: int, p: HandPath, color: Bgra, n: nat) -> Seq<u8>
    decreases n,
{
    if n == 0 {
        data
    } else {
        let m = (n - 1) as int;
        let w = 2 * p.sr + 1;
        spec_stamp(
            spec_swept(data, side, p, color, (n - 1) as nat),
            side,
            p,
            p.skip + m / (w * w),
            (m % (w * w)) / w - p.sr,
            (m % (w * w)) % w - p.sr,
            color,
        )
    }
}

/// The buffer after drawing one radial hand line: every stamp of every
/// step from the center gap to the hand's tip, in order. A hand too short
/// to leave the center gap draws nothing.
pub open spec fn spec_radial_line(
    data: Seq<u8>,
    side: int,
    dist: int,
    a: int,
    thickness: int,
    color: Bgra,
) -> Seq<u8> {
    let p = spec_hand_path(side, dist, a, thickness);
    if p.steps == 0 || p.skip > p.steps {
        data
    } else {
        let w = 2 * p.sr + 1;
        spec_swept(data, side, p, color, ((p.steps - p.skip + 1) * (w * w)) as nat)
    }
}

/// Pixel `(px, py)` lies inside the scan window of some stamped step:
/// only such pixels can change. Pixels near the pivot (the skipped
/// steps) and pixels beyond the hand's tip are never touched.
pub open spec fn spec_hand_covered(
    side: int,
    dist: int,
    a: int,
    thickness: int,
    px: int,
    py: int,
) -> bool {
    let p = spec_hand_path(side, dist, a, thickness);
    exists|i: int|
        p.skip <= i <= p.steps && spec_abs(px - spec_step_px(p, i)) <= p.sr && spec_abs(
            py - spec_step_py(p, i),
        ) <= p.sr
}

impl Canvas {
    /// Draws one anti-aliased hand of the given thickness from the buffer
    /// center toward angle position `a` (half-degree steps, zero at twelve
    /// o'clock), reaching `dist_permille` thousandths of the dial radius.
    /// The result is exactly `spec_radial_line` of the old buffer; pixels
    /// outside every stamped window (in particular the whole buffer when
    /// the hand never leaves the center gap) keep their bytes, and no
    /// pixel's alpha byte changes.
    #[verifier::loop_isolation(false)]
    #[verifier::rlimit(80)]
    pub fn draw_radial_line(&mut self, dist_permille: u32, a: u32, thickness: u32, color: Bgra)
        requires
            old(self).wf(),
            dist_permille <= 1000,
            a < 720,
            1 <= thickness <= 8,
        ensures
            final(self).wf(),
            final(self).side == old(self).side,
            final(self).pixel_data.len() == old(self).pixel_data.len(),
            final(self).pixel_data@ == spec_radial_line(
                old(self).pixel_data@,
                old(self).side as int,
                dist_permille as int,
                a as int,
                thickness as int,
                color,
            ),
            forall|qx: int, qy: int|
                0 <= qx < old(self).side && 0 <= qy < old(self).side && !spec_hand_covered(
                    old(self).side as int,
                    dist_permille as int,
                    a as int,
                    thickness as int,
                    qx,
                    qy,
                ) ==> pixel_same(
                    final(self).pixel_data@,
                    old(self).pixel_data@,
                    old(self).side as int,
                    qx,
                    qy,
                ),
            forall|qx: int, qy: int|
                0 <= qx < old(self).side && 0 <= qy < old(self).side ==> alpha_at(
                    final(self).pixel_data@,
                    old(self).side as int,
                    qx,
                    qy,
                ) == alpha_at(old(self).pixel_data@, old(self).side as int, qx, qy),
    {
        let ghost orig = self.pixel_data@;
        let ghost gside = old(self).side as int;
        let ghost p = spec_hand_path(
            gside,
            dist_permille as int,
            a as int,
            thickness as int,
        );
        let r: i64 = (self.side / 2) as i64;
        let cx_fp: i64 = r * 256;
        let (ux, uy) = hand_dir(a);
        let dist: i64 = dist_permille as i64;

        proof {
            assert(r * dist <= 512000 && r * dist >= 0) by (nonlinear_arith)
                requires
                    0 <= r <= 512,
                    0 <= dist <= 1000,
            ;
        }
        let reach: i64 = r * dist;
        proof {
            assert(-2097152000 <= reach * ux <= 2097152000) by (nonlinear_arith)
                requires
                    0 <= reach <= 512000,
                    -4096 <= ux <= 4096,
            ;
            assert(-2097152000 <= reach * uy <= 2097152000) by (nonlinear_arith)
                requires
                    0 <= reach <= 512000,
                    -4096 <= uy <= 4096,
            ;
        }
        let nx: i64 = reach * ux;
        let ny: i64 = reach * uy;
        // Offsets of the hand tip from the center, in 256ths of a pixel:
        // reach * u / 4096 / 1000 * 256 == (reach * u) / 16000.
        let mag_x: i64 = abs_i64(nx) / 16000;
        let mag_y: i64 = abs_i64(ny) / 16000;
        proof {
            assert(mag_x <= 131072 && mag_y <= 131072);
        }
        let steps: i64 = if mag_x / 256 >= mag_y / 256 {
            mag_x / 256
        } else {
            mag_y / 256
        };

        // Coverage thresholds in squared 256ths of a pixel.
        let ht: i64 = (thickness as i64) * 128;
        let inner: i64 = ht - 256;
        let outer: i64 = ht + 256;
        proof {
            assert(inner * inner < outer * outer) by (nonlinear_arith)
                requires
                    -128 <= inner,
                    inner + 512 == outer,
                    384 <= outer <= 1280,
            ;
            assert(0 <= inner * inner <= 1638400 && 0 < outer * outer <= 1638400) by (
            nonlinear_arith)
                requires
                    -128 <= inner <= 768,
                    384 <= outer <= 1280,
            ;
        }
        let inner_sq: i64 = inner * inner;
        let outer_sq: i64 = outer * outer;

        // Window radius: the half thickness, the anti-aliasing band and
        // one pixel of rounding slack, rounded up to whole pixels.
        let sr: i64 = (ht + 512 + 255) / 256;
        proof {
            assert(2 <= sr <= 7);
            assert(p.cx_fp == cx_fp && p.steps == steps);
            assert(p.inner_sq == inner_sq && p.outer_sq == outer_sq);
            assert(p.sr == sr && p.skip == 4 + sr);
        }
        let skip: i64 = 4 + sr;
        if steps == 0 {
            return ;
        }
        proof {
            assert(1 <= steps <= 512);
            assert(mag_x / 256 <= steps && mag_y / 256 <= steps);
            assert(mag_x <= 256 * steps + 255 && mag_y <= 256 * steps + 255);
            assert(mag_x / steps <= 511) by (nonlinear_arith)
                requires
                    0 <= mag_x <= 256 * steps + 255,
                    1 <= steps <= 512,
            ;
            assert(mag_y / steps <= 511) by (nonlinear_arith)
                requires
                    0 <= mag_y <= 256 * steps + 255,
                    1 <= steps <= 512,
            ;
            assert(mag_x / steps >= 0 && mag_y / steps >= 0) by (nonlinear_arith)
                requires
                    0 <= mag_x,
                    0 <= mag_y,
                    1 <= steps,
            ;
        }
        let xinc: i64 = if nx >= 0 {
            mag_x / steps
        } else {
            -(mag_x / steps)
        };
        let yinc: i64 = if ny >= 0 {
            mag_y / steps
        } else {
            -(mag_y / steps)
        };
        proof {
            assert(p.xinc == xinc && p.yinc == yinc);
        }
        if skip > steps {
            return ;
        }

        let w: i64 = 2 * sr + 1;
        let ghost w2: int = w as int * w as int;
        proof {
            assert(25 <= w2 <= 225) by (nonlinear_arith)
                requires
                    w2 == w * w,
                    5 <= w <= 15,
            ;
        }
        let ghost mut n: int = 0;

        let mut i: i64 = skip;
        proof {
            assert(skip * xinc <= 11 * 512 && skip * xinc >= -(11 * 512)) by (nonlinear_arith)
                requires
                    4 <= skip <= 11,
                    -511 <= xinc <= 511,
            ;
            assert(skip * yinc <= 11 * 512 && skip * yinc >= -(11 * 512)) by (nonlinear_arith)
                requires
                    4 <= skip <= 11,
                    -511 <= yinc <= 511,
            ;
            assert((skip - skip) * w2 == 0) by (nonlinear_arith);
        }
        let mut x_fp: i64 = cx_fp + skip * xinc;
        let mut y_fp: i64 = cx_fp + skip * yinc;
        while i <= steps
            invariant
                self.wf(),
                self.side == old(self).side,
                self.pixel_data.len() == old(self).pixel_data.len(),
                skip <= i <= steps + 1,
                x_fp == cx_fp + i * xinc,
                y_fp == cx_fp + i * yinc,
                n == (i - skip) * w2,
                self.pixel_data@ == spec_swept(orig, gside, p, color, n as nat),
                forall|qx: int, qy: int|
                    0 <= qx < old(self).side && 0 <= qy < old(self).side && !spec_hand_covered(
                        gside,
                        dist_permille as int,
                        a as int,
                        thickness as int,
                        qx,
                        qy,
                    ) ==> pixel_same(self.pixel_data@, orig, gside, qx, qy),
                forall|qx: int, qy: int|
                    0 <= qx < old(self).side && 0 <= qy < old(self).side ==> alpha_at(
                        self.pixel_data@,
                        gside,
                        qx,
                        qy,
                    ) == alpha_at(orig, gside, qx, qy),
            decreases steps + 1 - i,
        {
            proof {
                assert(-513 * 511 <= i * xinc <= 513 * 511) by (nonlinear_arith)
                    requires
                        0 <= i <= 513,
                        -511 <= xinc <= 511,
                ;
                assert(-513 * 511 <= i * yinc <= 513 * 511) by (nonlinear_arith)
                    requires
                        0 <= i <= 513,
                        -511 <= yinc <= 511,
                ;
            }
            let px_c: i64 = if x_fp >= -128 {
                (x_fp + 128) / 256
            } else {
                -1
            };
            let py_c: i64 = if y_fp >= -128 {
                (y_fp + 128) / 256
            } else {
                -1
            };
            proof {
                assert(px_c == spec_step_px(p, i as int));
                assert(py_c == spec_step_py(p, i as int));
                assert(((-sr) + sr) * w == 0) by (nonlinear_arith);
            }
            let mut dyo: i64 = -sr;
            while dyo <= sr
                invariant
                    self.wf(),
                    self.side == old(self).side,
                    self.pixel_data.len() == old(self).pixel_data.len(),
                    -sr <= dyo <= sr + 1,
                    n == (i - skip) * w2 + (dyo + sr) * w,
                    self.pixel_data@ == spec_swept(orig, gside, p, color, n as nat),
                    forall|qx: int, qy: int|
                        0 <= qx < old(self).side && 0 <= qy < old(self).side && !spec_hand_covered(
                            gside,
                            dist_permille as int,
                            a as int,
                            thickness as int,
                            qx,
                            qy,
                        ) ==> pixel_same(self.pixel_data@, orig, gside, qx, qy),
                    forall|qx: int, qy: int|
                        0 <= qx < old(self).side && 0 <= qy < old(self).side ==> alpha_at(
                            self.pixel_data@,
                            gside,
                            qx,
                            qy,
                        ) == alpha_at(orig, gside, qx, qy),
                decreases sr + 1 - dyo,
            {
                let mut dxo: i64 = -sr;
                while dxo <= sr
                    invariant
                        self.wf(),
                        self.side == old(self).side,
                        self.pixel_data.len() == old(self).pixel_data.len(),
                        -sr <= dxo <= sr + 1,
                        n == (i - skip) * w2 + (dyo + sr) * w + (dxo + sr),
                        self.pixel_data@ == spec_swept(orig, gside, p, color, n as nat),
                        forall|qx: int, qy: int|
                            0 <= qx < old(self).side && 0 <= qy < old(self).side
                                && !spec_hand_covered(
                                gside,
                                dist_permille as int,
                                a as int,
                                thickness as int,
                                qx,
                                qy,
                            ) ==> pixel_same(self.pixel_data@, orig, gside, qx, qy),
                        forall|qx: int, qy: int|
                            0 <= qx < old(self).side && 0 <= qy < old(self).side ==> alpha_at(
                                self.pixel_data@,
                                gside,
                                qx,
                                qy,
                            ) == alpha_at(orig, gside, qx, qy),
                    decreases sr + 1 - dxo,
                {
                    let ghost before = self.pixel_data@;
                    let px: i64 = px_c + dxo;
                    let py: i64 = py_c + dyo;
                    if px >= 0 && px < self.side as i64 && py >= 0 && py < self.side as i64 {
                        let ex: i64 = px * 256 - x_fp;
                        let ey: i64 = py * 256 - y_fp;
                        proof {
                            assert(0 <= ex * ex <= 655360 * 655360 && 0 <= ey * ey <= 655360
                                * 655360) by (nonlinear_arith)
                                requires
                                    -655360 <= ex <= 655360,
                                    -655360 <= ey <= 655360,
                            ;
                        }
                        let d2: i64 = ex * ex + ey * ey;
                        let mut cov: i64 = -1;
                        if d2 <= inner_sq {
                            cov = 255;
                        } else if d2 <= outer_sq {
                            proof {
                                assert((outer_sq - d2) * 255 <= (outer_sq - inner_sq) * 255 && 0
                                    <= (outer_sq - d2) * 255) by (nonlinear_arith)
                                    requires
                                        inner_sq < d2 <= outer_sq,
                                ;
                                assert((outer_sq - d2) * 255 / (outer_sq - inner_sq) <= 255) by (
                                nonlinear_arith)
                                    requires
                                        0 <= (outer_sq - d2) * 255 <= (outer_sq - inner_sq) * 255,
                                        0 < outer_sq - inner_sq,
                                ;
                                assert((outer_sq - d2) * 255 / (outer_sq - inner_sq) >= 0) by (
                                nonlinear_arith)
                                    requires
                                        0 <= (outer_sq - d2) * 255,
                                        0 < outer_sq - inner_sq,
                                ;
                            }
                            cov = (outer_sq - d2) * 255 / (outer_sq - inner_sq);
                        }
                        proof {
                            assert(cov == spec_coverage(p, i as int, px as int, py as int));
                        }
                        if cov >= 0 {
                            let ghost prev = self.pixel_data@;
                            self.blend_pixel_at(px as usize, py as usize, color, cov as u8);
                            proof {
                                assert forall|qx: int, qy: int|
                                    0 <= qx < old(self).side && 0 <= qy < old(
                                        self,
                                    ).side implies alpha_at(self.pixel_data@, gside, qx, qy)
                                    == alpha_at(orig, gside, qx, qy) by {
                                    if qx == px && qy == py {
                                        assert(blended_at(
                                            self.pixel_data@,
                                            prev,
                                            gside,
                                            qx,
                                            qy,
                                            color,
                                            cov as u8,
                                        ));
                                    } else {
                                        assert(pixel_same(self.pixel_data@, prev, gside, qx, qy));
                                    }
                                    assert(alpha_at(prev, gside, qx, qy) == alpha_at(
                                        orig,
                                        gside,
                                        qx,
                                        qy,
                                    ));
                                }
                                assert forall|qx: int, qy: int|
                                    0 <= qx < old(self).side && 0 <= qy < old(self).side
                                        && !spec_hand_covered(
                                        gside,
                                        dist_permille as int,
                                        a as int,
                                        thickness as int,
                                        qx,
                                        qy,
                                    ) implies pixel_same(self.pixel_data@, orig, gside, qx, qy) by {
                                    if qx == px && qy == py {
                                        assert(spec_abs(px - spec_step_px(p, i as int)) <= p.sr);
                                        assert(spec_abs(py - spec_step_py(p, i as int)) <= p.sr);
                                        assert(spec_hand_covered(
                                            gside,
                                            dist_permille as int,
                                            a as int,
                                            thickness as int,
                                            qx,
                                            qy,
                                        ));
                                    } else {
                                        assert(pixel_same(self.pixel_data@, prev, gside, qx, qy));
                                        assert(pixel_same(prev, orig, gside, qx, qy));
                                    }
                                }
                            }
                        }
                    }
                    proof {
                        assert(self.pixel_data@ == spec_stamp(
                            before,
                            gside,
                            p,
                            i as int,
                            dyo as int,
                            dxo as int,
                            color,
                        ));
                        assert(0 <= (dyo + sr) * w + (dxo + sr) < w2) by (nonlinear_arith)
                            requires
                                0 <= dyo + sr < w,
                                0 <= dxo + sr < w,
                                w2 == w * w,
                        ;
                        let ghost rem: int = (dyo + sr) * w + (dxo + sr);
                        lemma_fundamental_div_mod_converse(n, w2, i - skip, rem);
                        lemma_fundamental_div_mod_converse(rem, w as int, dyo + sr, dxo + sr);
                        assert(spec_swept(orig, gside, p, color, (n + 1) as nat) == spec_stamp(
                            spec_swept(orig, gside, p, color, n as nat),
                            gside,
                            p,
                            i as int,
                            dyo as int,
                            dxo as int,
                            color,
                        ));
                        n = n + 1;
                    }
                    dxo = dxo + 1;
                }
                proof {
                    assert((dyo + 1 + sr) * w == (dyo + sr) * w + w) by (nonlinear_arith);
                }
                dyo = dyo + 1;
            }
            proof {
                assert((i + 1 - skip) * w2 == (i - skip) * w2 + w2) by (nonlinear_arith);
                assert((i + 1) * xinc == i * xinc + xinc) by (nonlinear_arith);
                assert((i + 1) * yinc == i * yinc + yinc) by (nonlinear_arith);
            }
            x_fp = x_fp + xinc;
            y_fp = y_fp + yinc;
            i = i + 1;
        }
        proof {
            assert(n == (steps + 1 - skip) * w2);
            assert(self.pixel_data@ == spec_radial_line(
                orig,
                gside,
                dist_permille as int,
                a as int,
                thickness as int,
                color,
            ));
        }
    }

    /// Draws the hour hand: half the radius long, three pixels thick. The
    /// hand advances with the minutes within the hour.
    pub fn draw_hour_hand(&mut self, hour: u32, minute: u32, color: Bgra)
        requires
            old(self).wf(),
            minute < 60,
        ensures
            final(self).wf(),
            final(self).side == old(self).side,
            final(self).pixel_data.len() == old(self).pixel_data.len(),
            final(self).pixel_data@ == spec_radial_line(
                old(self).pixel_data@,
                old(self).side as int,
                500,
                60 * ((hour as int) % 12) + minute,
                3,
                color,
            ),
            forall|qx: int, qy: int|
                0 <= qx < old(self).side && 0 <= qy < old(self).side ==> alpha_at(
                    final(self).pixel_data@,
                    old(self).side as int,
                    qx,
                    qy,
                ) == alpha_at(old(self).pixel_data@, old(self).side as int, qx, qy),
    {
        let a: u32 = 60 * (hour % 12) + minute;
        self.draw_radial_line(500, a, 3, color);
    }

    /// Draws the minute hand: eight tenths of the radius, two pixels
    /// thick.
    pub fn draw_minute_hand(&mut self, minute: u32, color: Bgra)
        requires
            old(self).wf(),
            minute < 60,
        ensures
            final(self).wf(),
            final(self).side == old(self).side,
            final(self).pixel_data.len() == old(self).pixel_data.len(),
            final(self).pixel_data@ == spec_radial_line(
                old(self).pixel_data@,
                old(self).side as int,
                800,
                12 * minute,
                2,
                color,
            ),
            forall|qx: int, qy: int|
                0 <= qx < old(self).side && 0 <= qy < old(self).side ==> alpha_at(
                    final(self).pixel_data@,
                    old(self).side as int,
                    qx,
                    qy,
                ) == alpha_at(old(self).pixel_data@, old(self).side as int, qx, qy),
    {
        self.draw_radial_line(800, 12 * minute, 2, color);
    }

    /// Draws the second hand: nine tenths of the radius, one pixel thick.
    pub fn draw_second_hand(&mut self, second: u32, color: Bgra)
        requires
            old(self).wf(),
            second < 60,
        ensures
            final(self).wf(),
            final(self).side == old(self).side,
            final(self).pixel_data.len() == old(self).pixel_data.len(),
            final(self).pixel_data@ == spec_radial_line(
                old(self).pixel_data@,
                old(self).side as int,
                900,
                12 * second,
                1,
                color,
            ),
            forall|qx: int, qy: int|
                0 <= qx < old(self).side && 0 <= qy < old(self).side ==> alpha_at(
                    final(self).pixel_data@,
                    old(self).side as int,
                    qx,
                    qy,
                ) == alpha_at(old(self).pixel_data@, old(self).side as int, qx, qy),
    {
        self.draw_radial_line(900, 12 * second, 1, color);
    }
}

} // verus!
