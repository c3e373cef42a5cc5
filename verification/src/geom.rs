//! Fixed-point plane geometry for the bounding-box engine.
//!
//! Every coordinate is an `i64` holding a 16.16 fixed-point number: the value
//! `v` stands for `v / 65536` document units. Affine transform entries use the
//! same encoding. All arithmetic rounds multiplications toward minus infinity,
//! so a mapped rectangle is computed the same way on every machine.
//!
//! Contracts are stated over [`RectI`], the unbounded-integer model of a
//! rectangle; the executable types prove that every intermediate value stays
//! within `i64`.

use vstd::prelude::*;
use vstd::arithmetic::div_mod::*;
use vstd::arithmetic::mul::*;

verus! {

/// One document unit in fixed-point encoding.
pub const FX_ONE: i64 = 65536;

/// Magnitude bound on every stored coordinate and transform entry.
pub const COORD_MAX: i64 = 0x40_0000_0000;

/// Magnitude bound on a locally expanded coordinate (a stroke can widen a
/// stored rectangle by at most one more `COORD_MAX`).
pub const LOCAL_MAX: i64 = 0x80_0000_0000;

/// Magnitude bound on a mapped coordinate.
pub const MAPPED_MAX: i64 = 0x4800_0000_0000_0000;

/// Fixed-point product, rounded toward minus infinity.
pub open spec fn fx(m: int, v: int) -> int {
    (m * v) / (FX_ONE as int)
}

/// Floor of a fixed-point value, in whole document units.
pub open spec fn fx_floor_s(v: int) -> int {
    v / (FX_ONE as int)
}

/// Ceiling of a fixed-point value, in whole document units.
pub open spec fn fx_ceil_s(v: int) -> int {
    -((-v) / (FX_ONE as int))
}

/// The smaller of two values.
pub open spec fn min2(a: int, b: int) -> int {
    if a <= b {
        a
    } else {
        b
    }
}

/// The larger of two values.
pub open spec fn max2(a: int, b: int) -> int {
    if a >= b {
        a
    } else {
        b
    }
}

/// Floor division of `p` by one unit, computed through unsigned division.
fn floor_div_unit(p: i128) -> (r: i128)
    requires
        -0x4000_0000_0000_0000_0000i128 <= p <= 0x4000_0000_0000_0000_0000i128,
    ensures
        r == p as int / (FX_ONE as int),
        -0x1_0000_0000_0000_0000i128 <= r <= 0x1_0000_0000_0000_0000i128,
{
    let d: u128 = 65536;
    proof {
        lemma_div_is_ordered(p as int, 0x4000_0000_0000_0000_0000, FX_ONE as int);
        lemma_div_is_ordered(-0x4000_0000_0000_0000_0000, p as int, FX_ONE as int);
        lemma_div_multiples_vanish(0x1_0000_0000_0000_0000, FX_ONE as int);
        lemma_div_multiples_vanish(-0x1_0000_0000_0000_0000, FX_ONE as int);
    }
    if p >= 0 {
        let q: u128 = (p as u128) / d;
        proof {
            assert(p as u128 as int == p as int);
        }
        q as i128
    } else {
        let n: u128 = (-p) as u128;
        let q: u128 = (n + 65535) / d;
        proof {
            let ni = n as int;
            let qi = q as int;
            lemma_fundamental_div_mod(ni + 65535, FX_ONE as int);
            assert(ni <= qi * (FX_ONE as int) <= ni + 65535);
            lemma_fundamental_div_mod_converse_div(
                p as int,
                FX_ONE as int,
                -qi,
                qi * (FX_ONE as int) - ni,
            );
        }
        -(q as i128)
    }
}

/// Fixed-point multiplication of a transform entry with a coordinate.
pub fn fx_mul(m: i64, v: i64) -> (r: i64)
    requires
        -COORD_MAX <= m <= COORD_MAX,
        -LOCAL_MAX <= v <= LOCAL_MAX,
    ensures
        r == fx(m as int, v as int),
        -0x2000_0000_0000_0000 <= r <= 0x2000_0000_0000_0000,
{
    proof {
        lemma_mul_upper_and_lower(m as int, v as int);
        lemma_div_is_ordered(m as int * v as int, 0x2000_0000_0000_0000_0000, FX_ONE as int);
        lemma_div_is_ordered(-0x2000_0000_0000_0000_0000, m as int * v as int, FX_ONE as int);
        lemma_div_multiples_vanish(0x2000_0000_0000_0000, FX_ONE as int);
        lemma_div_multiples_vanish(-0x2000_0000_0000_0000, FX_ONE as int);
    }
    let p: i128 = (m as i128) * (v as i128);
    let q = floor_div_unit(p);
    q as i64
}

/// Magnitude bound on a product of a transform entry and a local coordinate.
proof fn lemma_mul_upper_and_lower(m: int, v: int)
    requires
        -COORD_MAX <= m <= COORD_MAX,
        -LOCAL_MAX <= v <= LOCAL_MAX,
    ensures
        -0x2000_0000_0000_0000_0000 <= m * v <= 0x2000_0000_0000_0000_0000,
{
    assert(-0x2000_0000_0000_0000_0000 <= m * v <= 0x2000_0000_0000_0000_0000)
        by (nonlinear_arith)
        requires
            -COORD_MAX <= m <= COORD_MAX,
            -LOCAL_MAX <= v <= LOCAL_MAX,
    ;
}

/// Floor of a fixed-point value, in whole document units.
pub fn fx_floor(v: i64) -> (r: i64)
    requires
        -MAPPED_MAX <= v <= MAPPED_MAX,
    ensures
        r == fx_floor_s(v as int),
        -0x4800_0000_0000 <= r <= 0x4800_0000_0000,
{
    proof {
        lemma_div_is_ordered(v as int, MAPPED_MAX as int, FX_ONE as int);
        lemma_div_is_ordered(-(MAPPED_MAX as int), v as int, FX_ONE as int);
        lemma_div_multiples_vanish(0x4800_0000_0000, FX_ONE as int);
        lemma_div_multiples_vanish(-0x4800_0000_0000, FX_ONE as int);
    }
    let q = floor_div_unit(v as i128);
    q as i64
}

/// Ceiling of a fixed-point value, in whole document units.
pub fn fx_ceil(v: i64) -> (r: i64)
    requires
        -MAPPED_MAX <= v <= MAPPED_MAX,
    ensures
        r == fx_ceil_s(v as int),
        -0x4800_0000_0000 <= r <= 0x4800_0000_0000,
{
    let f = fx_floor(-v);
    -f
}

/// The smaller of two coordinates.
pub fn min_i64(a: i64, b: i64) -> (r: i64)
    ensures
        r == min2(a as int, b as int),
{
    if a <= b {
        a
    } else {
        b
    }
}

/// The larger of two coordinates.
pub fn max_i64(a: i64, b: i64) -> (r: i64)
    ensures
        r == max2(a as int, b as int),
{
    if a >= b {
        a
    } else {
        b
    }
}

/// An affine plane transform. A point `(x, y)` maps to
/// `(sx*x + kx*y + tx, ky*x + sy*y + ty)`, with every product taken in
/// fixed point and rounded toward minus infinity.
#[derive(Debug, Clone, Copy, PartialEq, Eq, Structural)]
pub struct Transform {
    pub sx: i64,
    pub kx: i64,
    pub ky: i64,
    pub sy: i64,
    pub tx: i64,
    pub ty: i64,
}

impl Transform {
    /// Every entry lies within the magnitude bound the engine works under.
    pub open spec fn wf(self) -> bool {
        &&& -COORD_MAX <= self.sx <= COORD_MAX
        &&& -COORD_MAX <= self.kx <= COORD_MAX
        &&& -COORD_MAX <= self.ky <= COORD_MAX
        &&& -COORD_MAX <= self.sy <= COORD_MAX
        &&& -COORD_MAX <= self.tx <= COORD_MAX
        &&& -COORD_MAX <= self.ty <= COORD_MAX
    }

    /// The x coordinate a point maps to.
    pub open spec fn map_x_s(self, x: int, y: int) -> int {
        fx(self.sx as int, x) + fx(self.kx as int, y) + self.tx
    }

    /// The y coordinate a point maps to.
    pub open spec fn map_y_s(self, x: int, y: int) -> int {
        fx(self.ky as int, x) + fx(self.sy as int, y) + self.ty
    }

    /// Whether every entry is within the engine's magnitude bound.
    pub fn check_wf(&self) -> (r: bool)
        ensures
            r == self.wf(),
    {
        -COORD_MAX <= self.sx && self.sx <= COORD_MAX && -COORD_MAX <= self.kx && self.kx
            <= COORD_MAX && -COORD_MAX <= self.ky && self.ky <= COORD_MAX && -COORD_MAX <= self.sy
            && self.sy <= COORD_MAX && -COORD_MAX <= self.tx && self.tx <= COORD_MAX && -COORD_MAX
            <= self.ty && self.ty <= COORD_MAX
    }

    /// The transform that leaves every point in place.
    pub fn identity() -> (r: Transform)
        ensures
            r == (Transform { sx: FX_ONE, kx: 0i64, ky: 0i64, sy: FX_ONE, tx: 0i64, ty: 0i64 }),
            r.wf(),
    {
        Transform { sx: FX_ONE, kx: 0, ky: 0, sy: FX_ONE, tx: 0, ty: 0 }
    }

    /// Map one point.
    pub fn map_point(&self, x: i64, y: i64) -> (r: (i64, i64))
        requires
            self.wf(),
            -LOCAL_MAX <= x <= LOCAL_MAX,
            -LOCAL_MAX <= y <= LOCAL_MAX,
        ensures
            r.0 == self.map_x_s(x as int, y as int),
            r.1 == self.map_y_s(x as int, y as int),
            -MAPPED_MAX <= r.0 <= MAPPED_MAX,
            -MAPPED_MAX <= r.1 <= MAPPED_MAX,
    {
        let mx = fx_mul(self.sx, x) + fx_mul(self.kx, y) + self.tx;
        let my = fx_mul(self.ky, x) + fx_mul(self.sy, y) + self.ty;
        (mx, my)
    }
}

/// The unbounded-integer model of an axis-aligned rectangle, given by its
/// smallest and largest corner. Zero width or height is allowed.
pub struct RectI {
    pub x0: int,
    pub y0: int,
    pub x1: int,
    pub y1: int,
}

impl RectI {
    /// Corners are ordered.
    pub open spec fn ordered(self) -> bool {
        self.x0 <= self.x1 && self.y0 <= self.y1
    }

    /// Every coordinate has magnitude at most `b`.
    pub open spec fn within(self, b: int) -> bool {
        &&& -b <= self.x0 <= b
        &&& -b <= self.x1 <= b
        &&& -b <= self.y0 <= b
        &&& -b <= self.y1 <= b
    }

    /// Whether `self` contains every point of `o`.
    pub open spec fn contains_i(self, o: RectI) -> bool {
        &&& self.x0 <= o.x0
        &&& self.y0 <= o.y0
        &&& o.x1 <= self.x1
        &&& o.y1 <= self.y1
    }

    /// Whether the two rectangles overlap in an area of nonzero size.
    /// Rectangles that merely touch do not count as overlapping.
    pub open spec fn intersects_i(self, o: RectI) -> bool {
        &&& self.x0 < o.x1
        &&& o.x0 < self.x1
        &&& self.y0 < o.y1
        &&& o.y0 < self.y1
    }

    /// The smallest rectangle containing both arguments.
    pub open spec fn union_i(self, o: RectI) -> RectI {
        RectI {
            x0: min2(self.x0, o.x0),
            y0: min2(self.y0, o.y0),
            x1: max2(self.x1, o.x1),
            y1: max2(self.y1, o.y1),
        }
    }

    /// The common area of two overlapping rectangles.
    pub open spec fn intersection_i(self, o: RectI) -> RectI {
        RectI {
            x0: max2(self.x0, o.x0),
            y0: max2(self.y0, o.y0),
            x1: min2(self.x1, o.x1),
            y1: min2(self.y1, o.y1),
        }
    }

    /// The rectangle widened by `w` on every side.
    pub open spec fn expand_i(self, w: int) -> RectI {
        RectI { x0: self.x0 - w, y0: self.y0 - w, x1: self.x1 + w, y1: self.y1 + w }
    }
}

/// An axis-aligned rectangle given by its smallest and largest corner,
/// in fixed-point coordinates. Zero width or height is allowed.
#[derive(Debug, Clone, Copy, PartialEq, Eq, Structural)]
pub struct Rect {
    pub x0: i64,
    pub y0: i64,
    pub x1: i64,
    pub y1: i64,
}

impl Rect {
    /// The integer model of this rectangle.
    pub open spec fn lift(self) -> RectI {
        RectI { x0: self.x0 as int, y0: self.y0 as int, x1: self.x1 as int, y1: self.y1 as int }
    }

    /// Corners are ordered and the coordinates are within the magnitude
    /// bound for values stored on the scene tree.
    pub open spec fn wf(self) -> bool {
        self.lift().ordered() && self.lift().within(COORD_MAX as int)
    }

    /// Ordered corners within the bound for mapped coordinates.
    pub open spec fn bounded(self) -> bool {
        self.lift().ordered() && self.lift().within(MAPPED_MAX as int)
    }

    /// Whether the corners are ordered and within the stored-coordinate
    /// bound.
    pub fn check_wf(&self) -> (r: bool)
        ensures
            r == self.wf(),
    {
        self.x0 <= self.x1 && self.y0 <= self.y1 && -COORD_MAX <= self.x0 && self.x1 <= COORD_MAX
            && -COORD_MAX <= self.y0 && self.y1 <= COORD_MAX
    }

    /// The smallest rectangle containing both arguments.
    pub fn union_rect(&self, o: &Rect) -> (r: Rect)
        ensures
            r.lift() == self.lift().union_i(o.lift()),
    {
        Rect {
            x0: min_i64(self.x0, o.x0),
            y0: min_i64(self.y0, o.y0),
            x1: max_i64(self.x1, o.x1),
            y1: max_i64(self.y1, o.y1),
        }
    }

    /// The common area of two rectangles, or `None` where they do not
    /// overlap in an area of nonzero size.
    pub fn intersection(&self, o: &Rect) -> (r: Option<Rect>)
        ensures
            self.lift().intersects_i(o.lift()) ==> r is Some
                && r->Some_0.lift() == self.lift().intersection_i(o.lift()),
            !self.lift().intersects_i(o.lift()) ==> r is None,
    {
        if self.x0 < o.x1 && o.x0 < self.x1 && self.y0 < o.y1 && o.y0 < self.y1 {
            Some(
                Rect {
                    x0: max_i64(self.x0, o.x0),
                    y0: max_i64(self.y0, o.y0),
                    x1: min_i64(self.x1, o.x1),
                    y1: min_i64(self.y1, o.y1),
                },
            )
        } else {
            None
        }
    }
}

/// Where the axis-aligned hull of a mapped rectangle starts on the x axis:
/// the bound is taken over the images of all four corners.
pub open spec fn mapped_min_x(t: Transform, r: RectI) -> int {
    min2(
        min2(t.map_x_s(r.x0, r.y0), t.map_x_s(r.x1, r.y1)),
        min2(t.map_x_s(r.x0, r.y1), t.map_x_s(r.x1, r.y0)),
    )
}

/// Largest mapped x coordinate over the four corners.
pub open spec fn mapped_max_x(t: Transform, r: RectI) -> int {
    max2(
        max2(t.map_x_s(r.x0, r.y0), t.map_x_s(r.x1, r.y1)),
        max2(t.map_x_s(r.x0, r.y1), t.map_x_s(r.x1, r.y0)),
    )
}

/// Smallest mapped y coordinate over the four corners.
pub open spec fn mapped_min_y(t: Transform, r: RectI) -> int {
    min2(
        min2(t.map_y_s(r.x0, r.y0), t.map_y_s(r.x1, r.y1)),
        min2(t.map_y_s(r.x0, r.y1), t.map_y_s(r.x1, r.y0)),
    )
}

/// Largest mapped y coordinate over the four corners.
pub open spec fn mapped_max_y(t: Transform, r: RectI) -> int {
    max2(
        max2(t.map_y_s(r.x0, r.y0), t.map_y_s(r.x1, r.y1)),
        max2(t.map_y_s(r.x0, r.y1), t.map_y_s(r.x1, r.y0)),
    )
}

/// The axis-aligned bounding rectangle of a rectangle's image: all four
/// corners are mapped and the hull of the four images is taken, which is
/// what correctness under rotation and skew requires.
pub open spec fn map_rect_i(t: Transform, r: RectI) -> RectI {
    RectI {
        x0: mapped_min_x(t, r),
        y0: mapped_min_y(t, r),
        x1: mapped_max_x(t, r),
        y1: mapped_max_y(t, r),
    }
}

/// Map a rectangle through a transform: the hull of the four mapped corners.
pub fn map_rect(t: &Transform, r: &Rect) -> (res: Rect)
    requires
        t.wf(),
        r.lift().ordered(),
        r.lift().within(LOCAL_MAX as int),
    ensures
        res.lift() == map_rect_i(*t, r.lift()),
        res.bounded(),
{
    let (ax, ay) = t.map_point(r.x0, r.y0);
    let (bx, by) = t.map_point(r.x1, r.y1);
    let (cx, cy) = t.map_point(r.x0, r.y1);
    let (dx, dy) = t.map_point(r.x1, r.y0);
    Rect {
        x0: min_i64(min_i64(ax, bx), min_i64(cx, dx)),
        y0: min_i64(min_i64(ay, by), min_i64(cy, dy)),
        x1: max_i64(max_i64(ax, bx), max_i64(cx, dx)),
        y1: max_i64(max_i64(ay, by), max_i64(cy, dy)),
    }
}

/// Fixed-point products with a fixed left factor are monotone in the right
/// factor: nondecreasing for a nonnegative factor, nonincreasing otherwise.
pub proof fn lemma_fx_monotone(m: int, v1: int, v2: int)
    requires
        v1 <= v2,
    ensures
        m >= 0 ==> fx(m, v1) <= fx(m, v2),
        m <= 0 ==> fx(m, v2) <= fx(m, v1),
{
    if m >= 0 {
        lemma_mul_inequality(v1, v2, m);
        lemma_mul_is_commutative(v1, m);
        lemma_mul_is_commutative(v2, m);
        lemma_div_is_ordered(m * v1, m * v2, FX_ONE as int);
    } else {
        lemma_mul_inequality(v1, v2, -m);
        lemma_mul_is_commutative(v1, -m);
        lemma_mul_is_commutative(v2, -m);
        assert(m * v2 <= m * v1) by (nonlinear_arith)
            requires
                (-m) * v1 <= (-m) * v2,
        ;
        lemma_div_is_ordered(m * v2, m * v1, FX_ONE as int);
    }
}

/// Floors of a value and of its negation sum to zero on an exact multiple
/// of one unit and to minus one otherwise.
proof fn lemma_floor_neg_sum(p: int)
    ensures
        p % (FX_ONE as int) == 0 ==> p / (FX_ONE as int) + (-p) / (FX_ONE as int) == 0,
        p % (FX_ONE as int) != 0 ==> p / (FX_ONE as int) + (-p) / (FX_ONE as int) == -1,
{
    let d = FX_ONE as int;
    lemma_fundamental_div_mod(p, d);
    let q = p / d;
    let r = p % d;
    if r == 0 {
        lemma_fundamental_div_mod_converse_div(-p, d, -q, 0);
    } else {
        lemma_fundamental_div_mod_converse_div(-p, d, -q - 1, d - r);
    }
}

/// Under a rotation by forty-five degrees the mapped hull's width and height
/// agree to within one fixed-point step, so a rectangle whose two dimensions
/// differ by at least two steps never keeps both of them: four-corner
/// mapping really turns the rectangle.
pub proof fn lemma_rotation_changes_dims(t: Transform, r: RectI)
    requires
        t.sy == t.sx,
        t.ky == t.sx,
        t.kx == -t.sx,
        t.sx > 0,
        r.ordered(),
        (r.x1 - r.x0) - (r.y1 - r.y0) >= 2 || (r.y1 - r.y0) - (r.x1 - r.x0) >= 2,
    ensures
        !(map_rect_i(t, r).x1 - map_rect_i(t, r).x0 == r.x1 - r.x0 && map_rect_i(t, r).y1
            - map_rect_i(t, r).y0 == r.y1 - r.y0),
{
    let c = t.sx as int;
    lemma_fx_monotone(c, r.x0, r.x1);
    lemma_fx_monotone(-c, r.y0, r.y1);
    lemma_fx_monotone(c, r.y0, r.y1);
    assert(mapped_min_x(t, r) == fx(c, r.x0) + fx(-c, r.y1) + t.tx);
    assert(mapped_max_x(t, r) == fx(c, r.x1) + fx(-c, r.y0) + t.tx);
    assert(mapped_min_y(t, r) == fx(c, r.x0) + fx(c, r.y0) + t.ty);
    assert(mapped_max_y(t, r) == fx(c, r.x1) + fx(c, r.y1) + t.ty);
    lemma_mul_unary_negation(c, r.y0);
    lemma_mul_unary_negation(c, r.y1);
    lemma_floor_neg_sum(c * r.y0);
    lemma_floor_neg_sum(c * r.y1);
    let w = map_rect_i(t, r).x1 - map_rect_i(t, r).x0;
    let h = map_rect_i(t, r).y1 - map_rect_i(t, r).y0;
    assert(w - h == (fx(-c, r.y0) + fx(c, r.y0)) - (fx(-c, r.y1) + fx(c, r.y1)));
    assert(-1 <= w - h <= 1);
}

/// Mapping preserves containment: the hull of the image of a smaller
/// rectangle lies inside the hull of the image of a larger one.
pub proof fn lemma_map_rect_monotone(t: Transform, inner: RectI, outer: RectI)
    requires
        inner.ordered(),
        outer.contains_i(inner),
    ensures
        map_rect_i(t, outer).contains_i(map_rect_i(t, inner)),
{
    let sx = t.sx as int;
    let kx = t.kx as int;
    let ky = t.ky as int;
    let sy = t.sy as int;
    lemma_fx_monotone(sx, outer.x0, inner.x0);
    lemma_fx_monotone(sx, inner.x0, inner.x1);
    lemma_fx_monotone(sx, inner.x1, outer.x1);
    lemma_fx_monotone(kx, outer.y0, inner.y0);
    lemma_fx_monotone(kx, inner.y0, inner.y1);
    lemma_fx_monotone(kx, inner.y1, outer.y1);
    lemma_fx_monotone(ky, outer.x0, inner.x0);
    lemma_fx_monotone(ky, inner.x0, inner.x1);
    lemma_fx_monotone(ky, inner.x1, outer.x1);
    lemma_fx_monotone(sy, outer.y0, inner.y0);
    lemma_fx_monotone(sy, inner.y0, inner.y1);
    lemma_fx_monotone(sy, inner.y1, outer.y1);
}

} // verus!
