//! The pan-and-zoom view transform between world coordinates (nanometres)
//! and viewport coordinates (pixels).

use vstd::prelude::*;

verus! {

use crate::num::{
    clamp_spec, div_trunc, DEFAULT_SCALE, PIXEL_LIMIT, POS_LIMIT, SCALE_MAX, SCALE_MIN,
    WORLD_LIMIT, ZOOM_FACTOR_LIMIT,
};
use crate::num::{clamp128, div_trunc128, lemma_div_trunc_abs, lemma_div_trunc_mul_cancel};
use crate::vec2::Vec2;
use vstd::arithmetic::div_mod::lemma_div_is_ordered;
use vstd::arithmetic::div_mod::lemma_div_multiples_vanish;

/// The camera: the world position at the viewport's centre, the number of
/// world nanometres one pixel spans, and the viewport size in pixels.
pub struct Camera {
    pub origin: Vec2,
    pub scale: i128,
    pub width: i128,
    pub height: i128,
}

impl Camera {
    /// The scale sits inside its clamp range, the origin inside the world's
    /// coordinate range, and the viewport size is a sane pixel count.
    pub open spec fn wf(self) -> bool {
        &&& SCALE_MIN <= self.scale <= SCALE_MAX
        &&& self.origin.within(POS_LIMIT as int)
        &&& 0 <= self.width <= PIXEL_LIMIT
        &&& 0 <= self.height <= PIXEL_LIMIT
    }

    /// Horizontal pixel coordinate of the viewport centre.
    pub open spec fn center_x(self) -> int {
        self.width as int / 2
    }

    /// Vertical pixel coordinate of the viewport centre.
    pub open spec fn center_y(self) -> int {
        self.height as int / 2
    }

    /// World coordinate of the pixel column `px`:
    /// `origin + (px - centre) * scale`.
    pub open spec fn view_to_world_x(self, px: int) -> int {
        self.origin.x + (px - self.center_x()) * self.scale
    }

    /// World coordinate of the pixel row `py`.
    pub open spec fn view_to_world_y(self, py: int) -> int {
        self.origin.y + (py - self.center_y()) * self.scale
    }

    /// Pixel column showing the world coordinate `wx`:
    /// `centre + (wx - origin) / scale`, the division truncating toward
    /// zero; the exact inverse of `view_to_world_x` on whole pixels.
    pub open spec fn world_to_view_x(self, wx: int) -> int {
        self.center_x() + div_trunc(wx - self.origin.x, self.scale as int)
    }

    /// Pixel row showing the world coordinate `wy`.
    pub open spec fn world_to_view_y(self, wy: int) -> int {
        self.center_y() + div_trunc(wy - self.origin.y, self.scale as int)
    }

    /// A camera over a viewport of the given pixel size, looking at the
    /// world origin at the default scale.
    pub fn new(width: i128, height: i128) -> (cam: Camera)
        requires
            0 <= width <= PIXEL_LIMIT,
            0 <= height <= PIXEL_LIMIT,
        ensures
            cam.wf(),
            cam.origin.x == 0 && cam.origin.y == 0,
            cam.scale == DEFAULT_SCALE,
            cam.width == width,
            cam.height == height,
    {
        Camera { origin: Vec2::zero(), scale: DEFAULT_SCALE, width, height }
    }

    /// The world point shown at pixel `p`.
    pub fn view_to_world(&self, p: Vec2) -> (w: Vec2)
        requires
            self.wf(),
            p.within(PIXEL_LIMIT as int),
        ensures
            w.x == self.view_to_world_x(p.x as int),
            w.y == self.view_to_world_y(p.y as int),
    {
        let cx: i128 = div_trunc128(self.width, 2);
        let cy: i128 = div_trunc128(self.height, 2);
        let dx: i128 = p.x - cx;
        let dy: i128 = p.y - cy;
        proof {
            assert(dx * self.scale <= 2 * PIXEL_LIMIT * SCALE_MAX && dx * self.scale >= -(2
                * PIXEL_LIMIT * SCALE_MAX) && dy * self.scale <= 2 * PIXEL_LIMIT * SCALE_MAX && dy
                * self.scale >= -(2 * PIXEL_LIMIT * SCALE_MAX)) by (nonlinear_arith)
                requires
                    -2 * PIXEL_LIMIT <= dx <= 2 * PIXEL_LIMIT,
                    -2 * PIXEL_LIMIT <= dy <= 2 * PIXEL_LIMIT,
                    0 < self.scale <= SCALE_MAX;
        }
        Vec2 { x: self.origin.x + dx * self.scale, y: self.origin.y + dy * self.scale }
    }

    /// The pixel showing the world point `p`.
    pub fn world_to_view(&self, p: Vec2) -> (v: Vec2)
        requires
            self.wf(),
            p.within(WORLD_LIMIT as int),
        ensures
            v.x == self.world_to_view_x(p.x as int),
            v.y == self.world_to_view_y(p.y as int),
    {
        let cx: i128 = div_trunc128(self.width, 2);
        let cy: i128 = div_trunc128(self.height, 2);
        let qx: i128 = div_trunc128(p.x - self.origin.x, self.scale);
        let qy: i128 = div_trunc128(p.y - self.origin.y, self.scale);
        proof {
            lemma_div_trunc_abs((p.x - self.origin.x) as int, self.scale as int);
            lemma_div_trunc_abs((p.y - self.origin.y) as int, self.scale as int);
        }
        Vec2 { x: cx + qx, y: cy + qy }
    }

    /// Drag the view by `delta` pixels: the origin moves by `delta` scaled
    /// into world units, pulled back into the world's coordinate range.
    pub fn pan(&mut self, delta: Vec2)
        requires
            old(self).wf(),
            delta.within(PIXEL_LIMIT as int),
        ensures
            final(self).wf(),
            final(self).origin.x == clamp_spec(
                old(self).origin.x + delta.x * old(self).scale,
                -POS_LIMIT as int,
                POS_LIMIT as int,
            ),
            final(self).origin.y == clamp_spec(
                old(self).origin.y + delta.y * old(self).scale,
                -POS_LIMIT as int,
                POS_LIMIT as int,
            ),
            final(self).scale == old(self).scale,
            final(self).width == old(self).width,
            final(self).height == old(self).height,
    {
        proof {
            assert(delta.x * self.scale <= PIXEL_LIMIT * SCALE_MAX && delta.x * self.scale >= -(
            PIXEL_LIMIT * SCALE_MAX) && delta.y * self.scale <= PIXEL_LIMIT * SCALE_MAX && delta.y
                * self.scale >= -(PIXEL_LIMIT * SCALE_MAX)) by (nonlinear_arith)
                requires
                    -PIXEL_LIMIT <= delta.x <= PIXEL_LIMIT,
                    -PIXEL_LIMIT <= delta.y <= PIXEL_LIMIT,
                    0 < self.scale <= SCALE_MAX;
        }
        let nx: i128 = clamp128(self.origin.x + delta.x * self.scale, -POS_LIMIT, POS_LIMIT);
        let ny: i128 = clamp128(self.origin.y + delta.y * self.scale, -POS_LIMIT, POS_LIMIT);
        self.origin = Vec2 { x: nx, y: ny };
    }

    /// Multiply the scale by the rational factor `num / den`, then clamp it
    /// into `[SCALE_MIN, SCALE_MAX]`; `zoom(1, 2)` zooms in by half,
    /// `zoom(2, 1)` zooms out by double.
    pub fn zoom(&mut self, num: i128, den: i128)
        requires
            old(self).wf(),
            1 <= num <= ZOOM_FACTOR_LIMIT,
            1 <= den <= ZOOM_FACTOR_LIMIT,
        ensures
            final(self).wf(),
            final(self).scale == clamp_spec(
                old(self).scale * num / (den as int),
                SCALE_MIN as int,
                SCALE_MAX as int,
            ),
            final(self).origin == old(self).origin,
            final(self).width == old(self).width,
            final(self).height == old(self).height,
    {
        proof {
            assert(0 <= self.scale * num <= SCALE_MAX * ZOOM_FACTOR_LIMIT) by (nonlinear_arith)
                requires
                    0 < self.scale <= SCALE_MAX,
                    1 <= num <= ZOOM_FACTOR_LIMIT;
        }
        let raw: i128 = div_trunc128(self.scale * num, den);
        self.scale = clamp128(raw, SCALE_MIN, SCALE_MAX);
    }

    /// Set the scale outright (as the scale entry field of a menu does),
    /// clamped into `[SCALE_MIN, SCALE_MAX]`.
    pub fn set_scale(&mut self, scale: i128)
        requires
            old(self).wf(),
        ensures
            final(self).wf(),
            final(self).scale == clamp_spec(scale as int, SCALE_MIN as int, SCALE_MAX as int),
            final(self).origin == old(self).origin,
            final(self).width == old(self).width,
            final(self).height == old(self).height,
    {
        self.scale = clamp128(scale, SCALE_MIN, SCALE_MAX);
    }

    /// Take over a new viewport size; the origin and the scale are left
    /// alone (recentering is the caller's policy, not the transform's).
    pub fn resize(&mut self, width: i128, height: i128)
        requires
            old(self).wf(),
            0 <= width <= PIXEL_LIMIT,
            0 <= height <= PIXEL_LIMIT,
        ensures
            final(self).wf(),
            final(self).width == width,
            final(self).height == height,
            final(self).origin == old(self).origin,
            final(self).scale == old(self).scale,
    {
        self.width = width;
        self.height = height;
    }
}

/// Sending a pixel into the world and looking it up again gives the very
/// pixel back: the two transforms are exact inverses on whole pixels, for
/// every valid camera and every in-range pixel.
pub proof fn lemma_view_world_round_trip(cam: Camera, px: int, py: int)
    requires
        cam.wf(),
        -PIXEL_LIMIT <= px <= PIXEL_LIMIT,
        -PIXEL_LIMIT <= py <= PIXEL_LIMIT,
    ensures
        cam.world_to_view_x(cam.view_to_world_x(px)) == px,
        cam.world_to_view_y(cam.view_to_world_y(py)) == py,
{
    lemma_div_trunc_mul_cancel(px - cam.center_x(), cam.scale as int);
    lemma_div_trunc_mul_cancel(py - cam.center_y(), cam.scale as int);
}

/// Zooming out while the scale already sits at its upper bound leaves it
/// pinned there: the factor `num / den` is at least one, so the clamp keeps
/// answering the bound itself, never a value beyond it.
pub proof fn lemma_zoom_pinned_at_max(scale: int, num: int, den: int)
    requires
        scale == SCALE_MAX,
        1 <= den <= num,
    ensures
        clamp_spec(scale * num / den, SCALE_MIN as int, SCALE_MAX as int) == SCALE_MAX,
{
    assert(scale * den <= scale * num) by (nonlinear_arith)
        requires
            den <= num,
            scale >= 0;
    lemma_div_is_ordered(scale * den, scale * num, den);
    lemma_div_multiples_vanish(scale, den);
    assert(scale * den == den * scale) by (nonlinear_arith);
}

/// Zooming in while the scale already sits at its lower bound leaves it
/// pinned there, the mirror image of `lemma_zoom_pinned_at_max`.
pub proof fn lemma_zoom_pinned_at_min(scale: int, num: int, den: int)
    requires
        scale == SCALE_MIN,
        1 <= num <= den,
    ensures
        clamp_spec(scale * num / den, SCALE_MIN as int, SCALE_MAX as int) == SCALE_MIN,
{
    assert(scale * num <= scale * den) by (nonlinear_arith)
        requires
            num <= den,
            scale >= 0;
    lemma_div_is_ordered(scale * num, scale * den, den);
    lemma_div_multiples_vanish(scale, den);
    assert(scale * den == den * scale) by (nonlinear_arith);
}

} // verus!
