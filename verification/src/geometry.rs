//! Axis-aligned rectangles in the tree's window coordinate space, and the
//! viewport-to-tree coordinate transform used before picking.

use vstd::prelude::*;

verus! {

/// An axis-aligned rectangle with integer screen coordinates.
///
/// A node whose accessible object exposes no geometry carries the sentinel
/// rectangle `(0, 0, 0, 0)`; containment is half-open, so a rectangle with
/// zero (or negative) width or height never contains any point.
#[derive(Clone, Copy, Debug, PartialEq, Eq, Structural)]
pub struct Rect {
    pub x: i32,
    pub y: i32,
    pub width: i32,
    pub height: i32,
}

impl Rect {
    /// Half-open containment: a point is inside when it lies at or right of
    /// the left edge, strictly left of the right edge, and likewise
    /// vertically.
    pub open spec fn spec_contains(self, px: int, py: int) -> bool {
        &&& self.x <= px < self.x + self.width
        &&& self.y <= py < self.y + self.height
    }

    pub open spec fn spec_is_sentinel(self) -> bool {
        self == (Rect { x: 0, y: 0, width: 0, height: 0 })
    }

    /// The sentinel rectangle standing for "no usable bounds".
    pub fn sentinel() -> (r: Rect)
        ensures
            r.spec_is_sentinel(),
    {
        Rect { x: 0, y: 0, width: 0, height: 0 }
    }

    pub fn new(x: i32, y: i32, width: i32, height: i32) -> (r: Rect)
        ensures
            r == (Rect { x, y, width, height }),
    {
        Rect { x, y, width, height }
    }

    /// Whether `(px, py)` lies inside this rectangle.
    pub fn contains_point(&self, px: i32, py: i32) -> (r: bool)
        ensures
            r == self.spec_contains(px as int, py as int),
    {
        let x = self.x as i64;
        let y = self.y as i64;
        let px = px as i64;
        let py = py as i64;
        x <= px && px < x + (self.width as i64) && y <= py && py < y + (self.height as i64)
    }
}

/// A rectangle with no area matches no point at all, the origin included.
pub proof fn lemma_zero_area_never_contains(r: Rect, px: int, py: int)
    requires
        r.width <= 0 || r.height <= 0,
    ensures
        !r.spec_contains(px, py),
{
}

/// The product of two values in the `i32` range stays well inside the
/// `i64` range.
proof fn lemma_i32_mul_in_i64(a: int, b: int)
    requires
        -0x8000_0000 <= a <= 0x8000_0000,
        -0x8000_0000 <= b <= 0x8000_0000,
    ensures
        -0x4000_0000_0000_0000 <= a * b <= 0x4000_0000_0000_0000,
{
    assert(-0x4000_0000_0000_0000 <= a * b <= 0x4000_0000_0000_0000) by (nonlinear_arith)
        requires
            -0x8000_0000 <= a <= 0x8000_0000,
            -0x8000_0000 <= b <= 0x8000_0000,
    ;
}

/// The overlay drawing scale as an exact rational `num / den`: the smaller
/// of the two viewport-to-root axis ratios, capped at one so the tree is
/// never drawn above its native size.
#[derive(Clone, Copy, Debug, PartialEq, Eq, Structural)]
pub struct Scale {
    pub num: i32,
    pub den: i32,
}

impl Scale {
    pub open spec fn wf(self) -> bool {
        1 <= self.den && 0 <= self.num <= self.den
    }
}

/// The scale for a viewport of `vw` by `vh` around a root of `rw` by `rh`:
/// `min(vw / rw, vh / rh, 1)`, where ratios are compared exactly by
/// cross-multiplication, and `1` outright when the root extents are
/// degenerate (no positive width or height).
pub open spec fn spec_scale_of(vw: i32, vh: i32, rw: i32, rh: i32) -> Scale {
    if rw <= 0 || rh <= 0 {
        Scale { num: 1, den: 1 }
    } else if (vw as int) * (rh as int) <= (vh as int) * (rw as int) {
        if vw >= rw {
            Scale { num: 1, den: 1 }
        } else {
            Scale { num: vw, den: rw }
        }
    } else {
        if vh >= rh {
            Scale { num: 1, den: 1 }
        } else {
            Scale { num: vh, den: rh }
        }
    }
}

pub fn scale_of(vw: i32, vh: i32, rw: i32, rh: i32) -> (s: Scale)
    requires
        vw >= 0,
        vh >= 0,
    ensures
        s == spec_scale_of(vw, vh, rw, rh),
        s.wf(),
{
    proof {
        lemma_i32_mul_in_i64(vw as int, rh as int);
        lemma_i32_mul_in_i64(vh as int, rw as int);
    }
    if rw <= 0 || rh <= 0 {
        Scale { num: 1, den: 1 }
    } else if (vw as i64) * (rh as i64) <= (vh as i64) * (rw as i64) {
        if vw >= rw {
            Scale { num: 1, den: 1 }
        } else {
            Scale { num: vw, den: rw }
        }
    } else {
        if vh >= rh {
            Scale { num: 1, den: 1 }
        } else {
            Scale { num: vh, den: rh }
        }
    }
}

pub open spec fn clamp_to_i32(v: int) -> i32 {
    if v > i32::MAX {
        i32::MAX
    } else if v < i32::MIN {
        i32::MIN
    } else {
        v as i32
    }
}

/// An overlay coordinate mapped into tree space: the coordinate divided by
/// the scale (so multiplied by `den / num`), truncated toward zero and
/// saturated at the `i32` range. A zero scale (an empty viewport axis)
/// saturates by sign, the way an unbounded magnification would.
pub open spec fn spec_to_tree(p: i32, s: Scale) -> i32 {
    if s.num == 0 {
        if p > 0 {
            i32::MAX
        } else if p < 0 {
            i32::MIN
        } else {
            0
        }
    } else if p >= 0 {
        clamp_to_i32((p as int) * (s.den as int) / (s.num as int))
    } else {
        clamp_to_i32(-((-(p as int)) * (s.den as int) / (s.num as int)))
    }
}

/// Divide an overlay coordinate by the scale, back into tree space.
pub fn to_tree(p: i32, s: Scale) -> (q: i32)
    requires
        s.wf(),
    ensures
        q == spec_to_tree(p, s),
{
    if s.num == 0 {
        if p > 0 {
            i32::MAX
        } else if p < 0 {
            i32::MIN
        } else {
            0
        }
    } else {
        let num = s.num as i64;
        let den = s.den as i64;
        proof {
            lemma_i32_mul_in_i64(p as int, s.den as int);
            lemma_i32_mul_in_i64(-(p as int), s.den as int);
        }
        let q: i64 = if p >= 0 {
            (p as i64) * den / num
        } else {
            -((-(p as i64)) * den / num)
        };
        if q > i32::MAX as i64 {
            i32::MAX
        } else if q < i32::MIN as i64 {
            i32::MIN
        } else {
            q as i32
        }
    }
}

} // verus!

