//! Loops and polygons with exact rational coordinates.
//!
//! A point holds three integers. A loop holds two positive scales next to
//! its points: the `x` of a point of the loop, in millimetres, is its first
//! integer divided by the scale along `x`, and its `z` is its third integer
//! divided by the scale along `z`. Two loops may have different scales. The
//! only shape is the axis-aligned rectangle in the plane `y = 0`.

use vstd::prelude::*;
use crate::error::GeometryFault;
use crate::numeric::{
    ratio,
    lemma_ratio_less,
    lemma_ratio_difference,
    lemma_ratio_product,
    lemma_ratio_product_exceeds,
};

verus! {

/// Three integer coordinates, to be divided by the scales of the loop that
/// holds the point.
#[derive(Clone, Copy, PartialEq, Eq, Structural, Debug)]
pub struct Point {
    pub x: i64,
    pub y: i64,
    pub z: i64,
}

/// An ordered sequence of points with two scales; once closed, the boundary
/// of a rectangle.
#[derive(Debug)]
pub struct Loop {
    scale_x: u64,
    scale_z: u64,
    points: Vec<Point>,
    closed: bool,
}

/// What a loop is: its scales, its points in order, and whether it is
/// closed.
pub struct LoopView {
    pub scale_x: nat,
    pub scale_z: nat,
    pub points: Seq<Point>,
    pub closed: bool,
}

impl LoopView {
    /// The four points lie in the plane `y = 0` and each side runs along one
    /// axis: along `x`, then `z`, then `x`, then `z` back to the first point.
    pub open spec fn is_axis_aligned_quad(self) -> bool {
        &&& self.points.len() == 4
        &&& self.points[0].y == 0
        &&& self.points[1].y == 0
        &&& self.points[2].y == 0
        &&& self.points[3].y == 0
        &&& self.points[0].z == self.points[1].z
        &&& self.points[1].x == self.points[2].x
        &&& self.points[2].z == self.points[3].z
        &&& self.points[3].x == self.points[0].x
    }

    /// Both sides have a positive length, walking first towards larger `x`
    /// and then towards larger `z`.
    pub open spec fn has_positive_sides(self) -> bool {
        &&& self.points[0].x < self.points[1].x
        &&& self.points[1].z < self.points[2].z
    }

    /// The points walk a rectangle of non-zero area.
    pub open spec fn is_rectangle(self) -> bool {
        self.is_axis_aligned_quad() && self.has_positive_sides()
    }

    /// The scales are positive, and a closed loop is a rectangle.
    pub open spec fn wf(self) -> bool {
        &&& self.scale_x >= 1
        &&& self.scale_z >= 1
        &&& self.closed ==> self.is_rectangle()
    }

    /// The smallest `x` of the rectangle, in millimetres.
    pub open spec fn min_x(self) -> real {
        ratio(self.points[0].x as int, self.scale_x as int)
    }

    /// The largest `x` of the rectangle, in millimetres.
    pub open spec fn max_x(self) -> real {
        ratio(self.points[1].x as int, self.scale_x as int)
    }

    /// The smallest `z` of the rectangle, in millimetres.
    pub open spec fn min_z(self) -> real {
        ratio(self.points[0].z as int, self.scale_z as int)
    }

    /// The largest `z` of the rectangle, in millimetres.
    pub open spec fn max_z(self) -> real {
        ratio(self.points[2].z as int, self.scale_z as int)
    }

    /// The extent of the rectangle along `x`, in millimetres.
    pub open spec fn width(self) -> real {
        self.max_x() - self.min_x()
    }

    /// The extent of the rectangle along `z`, in millimetres.
    pub open spec fn height(self) -> real {
        self.max_z() - self.min_z()
    }

    /// The area of the rectangle, in square millimetres.
    pub open spec fn area(self) -> real {
        self.width() * self.height()
    }

    /// The difference of the numerators along `x`.
    pub open spec fn span_x(self) -> int {
        self.points[1].x - self.points[0].x
    }

    /// The difference of the numerators along `z`.
    pub open spec fn span_z(self) -> int {
        self.points[2].z - self.points[1].z
    }

    /// The product of the two scales: what the product of the two spans is
    /// divided by to give the area.
    pub open spec fn scale_product(self) -> int {
        (self.scale_x * self.scale_z) as int
    }

    /// The rectangle lies inside `outer` and shares no point with its
    /// boundary.
    pub open spec fn strictly_inside(self, outer: LoopView) -> bool {
        &&& outer.min_x() < self.min_x()
        &&& self.max_x() < outer.max_x()
        &&& outer.min_z() < self.min_z()
        &&& self.max_z() < outer.max_z()
    }

    /// The `x` of corner `k`, in millimetres.
    pub open spec fn corner_x(self, k: int) -> real {
        ratio(self.points[k].x as int, self.scale_x as int)
    }

    /// The `z` of corner `k`, in millimetres.
    pub open spec fn corner_z(self, k: int) -> real {
        ratio(self.points[k].z as int, self.scale_z as int)
    }

    /// The point `(x, z)` of the plane `y = 0` lies on the side that runs
    /// from corner `k` to the next corner, the ends included. A side runs
    /// along an axis, so it holds the points between its ends.
    pub open spec fn on_side(self, k: int, x: real, z: real) -> bool {
        let next = (k + 1) % 4;
        &&& self.corner_x(k) <= x <= self.corner_x(next) || self.corner_x(next) <= x
            <= self.corner_x(k)
        &&& self.corner_z(k) <= z <= self.corner_z(next) || self.corner_z(next) <= z
            <= self.corner_z(k)
    }

    /// Why the loop cannot be closed, if it cannot.
    pub open spec fn close_fault(self) -> Option<GeometryFault> {
        if self.closed {
            Some(GeometryFault::LoopClosed { points: self.points.len() as usize })
        } else if !self.is_axis_aligned_quad() {
            Some(GeometryFault::NotRectangular { points: self.points.len() as usize })
        } else if !self.has_positive_sides() {
            Some(GeometryFault::Degenerate { from: self.points[0], to: self.points[2] })
        } else {
            None
        }
    }

    /// The area as a whole number of square millimetres that fits an `i64`,
    /// if it is one.
    pub open spec fn whole_area(self) -> Option<int> {
        if self.closed && self.scale_product() > 0 && (self.span_x() * self.span_z())
            % self.scale_product() == 0 && (self.span_x() * self.span_z()) / self.scale_product()
            <= i64::MAX {
            Some((self.span_x() * self.span_z()) / self.scale_product())
        } else {
            None
        }
    }
}

/// The closed loop that walks the rectangle from `(x0, z0)` to `(x1, z1)`,
/// given as numerators over the two scales.
pub open spec fn rectangle_view(
    scale_x: int,
    scale_z: int,
    x0: int,
    x1: int,
    z0: int,
    z1: int,
) -> LoopView {
    LoopView {
        scale_x: scale_x as nat,
        scale_z: scale_z as nat,
        points: seq![
            Point { x: x0 as i64, y: 0, z: z0 as i64 },
            Point { x: x1 as i64, y: 0, z: z0 as i64 },
            Point { x: x1 as i64, y: 0, z: z1 as i64 },
            Point { x: x0 as i64, y: 0, z: z1 as i64 },
        ],
        closed: true,
    }
}

/// The width and the height of a well-formed closed loop are positive, and
/// so is its area; it has four points.
pub proof fn lemma_closed_loop_has_area(l: LoopView)
    requires
        l.wf(),
        l.closed,
    ensures
        l.points.len() >= 3,
        l.width() > 0real,
        l.height() > 0real,
        l.area() > 0real,
        l.width() == ratio(l.span_x(), l.scale_x as int),
        l.height() == ratio(l.span_z(), l.scale_z as int),
        l.min_x() < l.max_x(),
        l.min_z() < l.max_z(),
        l.scale_product() > 0,
{
    let sx = l.scale_x as int;
    let sz = l.scale_z as int;
    lemma_ratio_difference(l.points[0].x as int, l.points[1].x as int, sx);
    lemma_ratio_difference(l.points[0].z as int, l.points[2].z as int, sz);
    lemma_ratio_less(0, sx, l.span_x(), sx);
    lemma_ratio_less(0, sz, l.span_z(), sz);
    assert(l.span_x() * sx > 0) by (nonlinear_arith)
        requires
            l.span_x() > 0,
            sx > 0,
    ;
    assert(l.span_z() * sz > 0) by (nonlinear_arith)
        requires
            l.span_z() > 0,
            sz > 0,
    ;
    assert(sx * sz > 0) by (nonlinear_arith)
        requires
            sx > 0,
            sz > 0,
    ;
    let w = l.width();
    let h = l.height();
    assert(ratio(0, sx) == 0real) by (nonlinear_arith)
        requires
            sx > 0,
    ;
    assert(ratio(0, sz) == 0real) by (nonlinear_arith)
        requires
            sz > 0,
    ;
    assert(w * h > 0real) by (nonlinear_arith)
        requires
            w > 0real,
            h > 0real,
    ;
}

/// A closed loop does not cross itself: a point that lies on two of its
/// sides is the corner at which one of the two ends and the other begins.
pub proof fn lemma_closed_loop_is_simple(l: LoopView, j: int, k: int, x: real, z: real)
    requires
        l.wf(),
        l.closed,
        0 <= j < 4,
        0 <= k < 4,
        j != k,
        l.on_side(j, x, z),
        l.on_side(k, x, z),
    ensures
        (k == (j + 1) % 4 && x == l.corner_x(k) && z == l.corner_z(k)) || (j == (k + 1) % 4 && x
            == l.corner_x(j) && z == l.corner_z(j)),
{
    lemma_closed_loop_has_area(l);
    assert(l.corner_x(0) == l.corner_x(3));
    assert(l.corner_x(1) == l.corner_x(2));
    assert(l.corner_z(0) == l.corner_z(1));
    assert(l.corner_z(2) == l.corner_z(3));
    assert(l.corner_x(0) < l.corner_x(1));
    assert(l.corner_z(1) < l.corner_z(2));
}

/// Where a closed loop has a whole area, that number is its area; and a
/// whole number that fits an `i64` and is its area is its whole area.
pub proof fn lemma_whole_area(l: LoopView, q: int)
    requires
        l.wf(),
        l.closed,
    ensures
        l.whole_area() == Some(q) ==> l.area() == q as real && 0 < q <= i64::MAX,
        l.area() == q as real && q <= i64::MAX ==> l.whole_area() == Some(q),
{
    let n = l.span_x() * l.span_z();
    let d = l.scale_product();
    lemma_closed_loop_has_area(l);
    lemma_ratio_product(l.span_x(), l.scale_x as int, l.span_z(), l.scale_z as int, q);
    assert(n > 0) by (nonlinear_arith)
        requires
            l.span_x() > 0,
            l.span_z() > 0,
            n == l.span_x() * l.span_z(),
    ;
    vstd::arithmetic::div_mod::lemma_fundamental_div_mod(n, d);
    if n == q * d {
        vstd::arithmetic::div_mod::lemma_fundamental_div_mod_converse(n, d, q, 0);
    }
    if l.whole_area() == Some(q) {
        assert(n == d * q + 0);
        assert(d * q == q * d) by (nonlinear_arith);
        assert(q > 0) by (nonlinear_arith)
            requires
                q * d > 0,
                d > 0,
        ;
    }
}

impl View for Loop {
    type V = LoopView;

    closed spec fn view(&self) -> LoopView {
        LoopView {
            scale_x: self.scale_x as nat,
            scale_z: self.scale_z as nat,
            points: self.points@,
            closed: self.closed,
        }
    }
}

/// Whether `a / s < b / t`, decided exactly.
fn ratio_less(a: i64, s: u64, b: i64, t: u64) -> (r: bool)
    requires
        s >= 1,
        t >= 1,
    ensures
        r == (ratio(a as int, s as int) < ratio(b as int, t as int)),
{
    proof {
        lemma_ratio_less(a as int, s as int, b as int, t as int);
        assert(-0x7fff_ffff_ffff_ffff_ffff_ffff_ffff_ffff <= a * t
            <= 0x7fff_ffff_ffff_ffff_ffff_ffff_ffff_ffff) by (nonlinear_arith)
            requires
                -0x8000_0000_0000_0000 <= a <= 0x7fff_ffff_ffff_ffff,
                0 <= t <= 0xffff_ffff_ffff_ffff,
        ;
        assert(-0x7fff_ffff_ffff_ffff_ffff_ffff_ffff_ffff <= b * s
            <= 0x7fff_ffff_ffff_ffff_ffff_ffff_ffff_ffff) by (nonlinear_arith)
            requires
                -0x8000_0000_0000_0000 <= b <= 0x7fff_ffff_ffff_ffff,
                0 <= s <= 0xffff_ffff_ffff_ffff,
        ;
    }
    let left: i128 = (a as i128) * (t as i128);
    let right: i128 = (b as i128) * (s as i128);
    left < right
}

impl Loop {
    /// What holds of every value of this type.
    #[verifier::type_invariant]
    pub open spec fn inv(self) -> bool {
        self@.wf()
    }

    /// An open loop without points, whose coordinates along `x` will be
    /// divided by `scale_x` and those along `z` by `scale_z`.
    pub fn new(scale_x: u64, scale_z: u64) -> (r: Result<Loop, GeometryFault>)
        ensures
            r is Ok <==> scale_x >= 1 && scale_z >= 1,
            r matches Ok(l) ==> l@ == (LoopView {
                scale_x: scale_x as nat,
                scale_z: scale_z as nat,
                points: Seq::<Point>::empty(),
                closed: false,
            }),
            r matches Err(e) ==> e == (GeometryFault::ZeroScale { scale_x, scale_z }),
    {
        if scale_x == 0 || scale_z == 0 {
            Err(GeometryFault::ZeroScale { scale_x, scale_z })
        } else {
            Ok(Loop { scale_x, scale_z, points: Vec::new(), closed: false })
        }
    }

    /// The number by which the coordinates along `x` are divided.
    pub fn scale_x(&self) -> (r: u64)
        ensures
            r == self@.scale_x,
            r >= 1,
    {
        proof {
            use_type_invariant(self);
        }
        self.scale_x
    }

    /// The number by which the coordinates along `z` are divided.
    pub fn scale_z(&self) -> (r: u64)
        ensures
            r == self@.scale_z,
            r >= 1,
    {
        proof {
            use_type_invariant(self);
        }
        self.scale_z
    }

    /// The points, in order.
    pub fn points(&self) -> (r: &Vec<Point>)
        ensures
            r@ == self@.points,
    {
        &self.points
    }

    /// Whether the loop has been closed.
    pub fn is_closed(&self) -> (r: bool)
        ensures
            r == self@.closed,
    {
        self.closed
    }

    /// Appends a point to an open loop.
    pub fn push(&mut self, point: Point) -> (r: Result<(), GeometryFault>)
        ensures
            r is Ok <==> !old(self)@.closed,
            r is Ok ==> final(self)@ == (LoopView {
                points: old(self)@.points.push(point),
                ..old(self)@
            }),
            r matches Err(e) ==> e == (GeometryFault::LoopClosed {
                points: old(self)@.points.len() as usize,
            }) && final(self)@ == old(self)@,
    {
        proof {
            use_type_invariant(&*self);
        }
        if self.closed {
            Err(GeometryFault::LoopClosed { points: self.points.len() })
        } else {
            let mut points: Vec<Point> = Vec::new();
            core::mem::swap(&mut self.points, &mut points);
            points.push(point);
            core::mem::swap(&mut self.points, &mut points);
            Ok(())
        }
    }

    /// Closes the loop, after checking that its points walk a rectangle of
    /// non-zero area.
    pub fn close(&mut self) -> (r: Result<(), GeometryFault>)
        ensures
            r is Ok <==> old(self)@.close_fault() is None,
            r is Ok ==> final(self)@ == (LoopView { closed: true, ..old(self)@ }),
            r matches Err(e) ==> old(self)@.close_fault() == Some(e) && final(self)@ == old(
                self,
            )@,
    {
        proof {
            use_type_invariant(&*self);
        }
        if self.closed {
            return Err(GeometryFault::LoopClosed { points: self.points.len() });
        }
        if self.points.len() != 4 {
            return Err(GeometryFault::NotRectangular { points: self.points.len() });
        }
        let a = self.points[0];
        let b = self.points[1];
        let c = self.points[2];
        let d = self.points[3];
        if a.y != 0 || b.y != 0 || c.y != 0 || d.y != 0 {
            return Err(GeometryFault::NotRectangular { points: 4 });
        }
        if a.z != b.z || b.x != c.x || c.z != d.z || d.x != a.x {
            return Err(GeometryFault::NotRectangular { points: 4 });
        }
        if a.x >= b.x || b.z >= c.z {
            return Err(GeometryFault::Degenerate { from: a, to: c });
        }
        self.closed = true;
        Ok(())
    }

    /// The closed loop that walks the rectangle from `(x0, z0)` to
    /// `(x1, z1)`, given as numerators over the two scales.
    pub fn rectangle(scale_x: u64, scale_z: u64, x0: i64, x1: i64, z0: i64, z1: i64) -> (r:
        Result<Loop, GeometryFault>)
        ensures
            r is Ok <==> scale_x >= 1 && scale_z >= 1 && x0 < x1 && z0 < z1,
            r matches Ok(l) ==> l@ == rectangle_view(
                scale_x as int,
                scale_z as int,
                x0 as int,
                x1 as int,
                z0 as int,
                z1 as int,
            ),
            r matches Err(e) ==> e == if scale_x == 0 || scale_z == 0 {
                GeometryFault::ZeroScale { scale_x, scale_z }
            } else {
                GeometryFault::Degenerate {
                    from: Point { x: x0, y: 0, z: z0 },
                    to: Point { x: x1, y: 0, z: z1 },
                }
            },
    {
        let mut the_loop = match Loop::new(scale_x, scale_z) {
            Ok(l) => l,
            Err(e) => {
                return Err(e);
            },
        };
        let _ = the_loop.push(Point { x: x0, y: 0, z: z0 });
        let _ = the_loop.push(Point { x: x1, y: 0, z: z0 });
        let _ = the_loop.push(Point { x: x1, y: 0, z: z1 });
        let _ = the_loop.push(Point { x: x0, y: 0, z: z1 });
        match the_loop.close() {
            Ok(()) => {
                assert(the_loop@.points =~= rectangle_view(
                    scale_x as int,
                    scale_z as int,
                    x0 as int,
                    x1 as int,
                    z0 as int,
                    z1 as int,
                ).points);
                Ok(the_loop)
            },
            Err(e) => Err(e),
        }
    }

    /// The product of the two spans and the product of the two scales of a
    /// closed loop: the area is the first divided by the second.
    fn area_fraction(&self) -> (r: (u128, u128))
        requires
            self@.closed,
        ensures
            r.0 == self@.span_x() * self@.span_z(),
            r.1 == self@.scale_product(),
            r.0 > 0,
            r.1 > 0,
    {
        proof {
            use_type_invariant(self);
            lemma_closed_loop_has_area(self@);
        }
        let span_x: u128 = ((self.points[1].x as i128) - (self.points[0].x as i128)) as u128;
        let span_z: u128 = ((self.points[2].z as i128) - (self.points[1].z as i128)) as u128;
        let scale_x: u128 = self.scale_x as u128;
        let scale_z: u128 = self.scale_z as u128;
        proof {
            assert(0 < span_x * span_z <= 0xffff_ffff_ffff_ffff * 0xffff_ffff_ffff_ffff)
                by (nonlinear_arith)
                requires
                    0 < span_x <= 0xffff_ffff_ffff_ffff,
                    0 < span_z <= 0xffff_ffff_ffff_ffff,
            ;
            assert(0 < scale_x * scale_z <= 0xffff_ffff_ffff_ffff * 0xffff_ffff_ffff_ffff)
                by (nonlinear_arith)
                requires
                    1 <= scale_x <= 0xffff_ffff_ffff_ffff,
                    1 <= scale_z <= 0xffff_ffff_ffff_ffff,
            ;
        }
        (span_x * span_z, scale_x * scale_z)
    }

    /// Whether the loop is closed and its area is larger than `area` square
    /// millimetres.
    pub fn area_exceeds(&self, area: i64) -> (r: bool)
        ensures
            r == (self@.closed && (area as real) < self@.area()),
    {
        proof {
            use_type_invariant(self);
        }
        if !self.closed {
            return false;
        }
        proof {
            lemma_closed_loop_has_area(self@);
        }
        if area < 0 {
            return true;
        }
        let (numerator, denominator) = self.area_fraction();
        let quotient: u128 = numerator / denominator;
        let remainder: u128 = numerator % denominator;
        let wanted: u128 = area as u128;
        proof {
            let n = numerator as int;
            let d = denominator as int;
            let a = area as int;
            lemma_ratio_product_exceeds(
                self@.span_x(),
                self@.scale_x as int,
                self@.span_z(),
                self@.scale_z as int,
                a,
            );
            vstd::arithmetic::div_mod::lemma_fundamental_div_mod(n, d);
            let q = n / d;
            let m = n % d;
            assert((a * d < n) <==> (a < q || (a == q && m > 0))) by (nonlinear_arith)
                requires
                    n == d * q + m,
                    0 <= m < d,
            ;
        }
        wanted < quotient || (wanted == quotient && remainder > 0)
    }

    /// The area in whole square millimetres, where the loop is closed and
    /// its area is a whole number that fits.
    pub fn area_units(&self) -> (r: Option<i64>)
        ensures
            r matches Some(q) ==> self@.whole_area() == Some(q as int),
            r is None ==> self@.whole_area() is None,
            r matches Some(q) ==> self@.area() == q as real,
    {
        proof {
            use_type_invariant(self);
            if self@.closed && self@.whole_area() is Some {
                lemma_whole_area(self@, self@.whole_area().unwrap());
            }
        }
        if !self.closed {
            return None;
        }
        let (numerator, denominator) = self.area_fraction();
        if numerator % denominator != 0 {
            return None;
        }
        let quotient: u128 = numerator / denominator;
        if quotient > 0x7fff_ffff_ffff_ffff {
            return None;
        }
        Some(quotient as i64)
    }
}

impl Clone for Loop {
    /// A second loop with the same scales and points, closed where this one
    /// is.
    fn clone(&self) -> (r: Loop)
        ensures
            r@ == self@,
    {
        proof {
            use_type_invariant(self);
        }
        let mut points: Vec<Point> = Vec::new();
        let mut i: usize = 0;
        while i < self.points.len()
            invariant
                i <= self.points.len(),
                points@ == self.points@.take(i as int),
            decreases self.points.len() - i,
        {
            points.push(self.points[i]);
            i = i + 1;
            assert(points@ =~= self.points@.take(i as int));
        }
        assert(points@ =~= self.points@);
        Loop { scale_x: self.scale_x, scale_z: self.scale_z, points, closed: self.closed }
    }
}

/// A closed loop, with at most one closed loop cut out of it as a hole.
#[derive(Debug)]
pub struct Polygon {
    outer: Loop,
    inner: Option<Loop>,
}

/// What a polygon is: its boundary and its hole, if it has one.
pub struct PolygonView {
    pub outer: LoopView,
    pub inner: Option<LoopView>,
}

impl PolygonView {
    /// The boundary is a closed rectangle; the hole, if there is one, is a
    /// closed rectangle that lies strictly inside it.
    pub open spec fn wf(self) -> bool {
        &&& self.outer.wf()
        &&& self.outer.closed
        &&& self.inner matches Some(hole) ==> {
            &&& hole.wf()
            &&& hole.closed
            &&& hole.strictly_inside(self.outer)
        }
    }

    /// The area enclosed by the boundary less the area of the hole, in
    /// square millimetres.
    pub open spec fn area(self) -> real {
        match self.inner {
            Some(hole) => self.outer.area() - hole.area(),
            None => self.outer.area(),
        }
    }

    /// Why `hole` cannot be cut out of the polygon, if it cannot.
    pub open spec fn hole_fault(self, hole: LoopView) -> Option<GeometryFault> {
        if !hole.closed {
            Some(GeometryFault::LoopOpen { points: hole.points.len() as usize })
        } else if self.inner is Some {
            Some(GeometryFault::AlreadyCut { from: hole.points[0], to: hole.points[2] })
        } else if !hole.strictly_inside(self.outer) {
            Some(GeometryFault::HoleNotInside { from: hole.points[0], to: hole.points[2] })
        } else {
            None
        }
    }

    /// The area as a whole number of square millimetres, where the areas of
    /// the boundary and of the hole are whole numbers.
    pub open spec fn whole_area(self) -> Option<int> {
        match self.inner {
            Some(hole) => if self.outer.whole_area() is Some && hole.whole_area() is Some {
                Some(self.outer.whole_area().unwrap() - hole.whole_area().unwrap())
            } else {
                None
            },
            None => self.outer.whole_area(),
        }
    }
}

impl View for Polygon {
    type V = PolygonView;

    closed spec fn view(&self) -> PolygonView {
        PolygonView {
            outer: self.outer@,
            inner: match self.inner {
                Some(hole) => Some(hole@),
                None => None,
            },
        }
    }
}

impl Polygon {
    /// What holds of every value of this type.
    #[verifier::type_invariant]
    pub open spec fn inv(self) -> bool {
        self@.wf()
    }

    /// The polygon bounded by a closed loop, without a hole.
    pub fn new(outer: Loop) -> (r: Result<Polygon, GeometryFault>)
        ensures
            r is Ok <==> outer@.closed,
            r matches Ok(p) ==> p@ == (PolygonView { outer: outer@, inner: None }),
            r matches Err(e) ==> e == (GeometryFault::LoopOpen {
                points: outer@.points.len() as usize,
            }),
    {
        proof {
            use_type_invariant(&outer);
        }
        if !outer.is_closed() {
            Err(GeometryFault::LoopOpen { points: outer.points().len() })
        } else {
            Ok(Polygon { outer, inner: None })
        }
    }

    /// The boundary.
    pub fn outer(&self) -> (r: &Loop)
        ensures
            r@ == self@.outer,
    {
        &self.outer
    }

    /// The hole, if there is one.
    pub fn inner(&self) -> (r: Option<&Loop>)
        ensures
            r is Some <==> self@.inner is Some,
            r matches Some(hole) ==> self@.inner == Some(hole@),
    {
        match &self.inner {
            Some(hole) => Some(hole),
            None => None,
        }
    }

    /// Cuts `hole` out of a polygon that has no hole yet, after checking
    /// that it lies strictly inside the boundary.
    pub fn cut_hole(&mut self, hole: Loop) -> (r: Result<(), GeometryFault>)
        ensures
            r is Ok <==> old(self)@.hole_fault(hole@) is None,
            r is Ok ==> final(self)@ == (PolygonView { inner: Some(hole@), ..old(self)@ }),
            r matches Err(e) ==> old(self)@.hole_fault(hole@) == Some(e) && final(self)@ == old(
                self,
            )@,
    {
        proof {
            use_type_invariant(&*self);
            use_type_invariant(&hole);
            use_type_invariant(&self.outer);
        }
        if !hole.closed {
            return Err(GeometryFault::LoopOpen { points: hole.points.len() });
        }
        let from = hole.points[0];
        let to = hole.points[2];
        if self.inner.is_some() {
            return Err(GeometryFault::AlreadyCut { from, to });
        }
        let inside = ratio_less(
            self.outer.points[0].x,
            self.outer.scale_x,
            hole.points[0].x,
            hole.scale_x,
        ) && ratio_less(
            hole.points[1].x,
            hole.scale_x,
            self.outer.points[1].x,
            self.outer.scale_x,
        ) && ratio_less(
            self.outer.points[0].z,
            self.outer.scale_z,
            hole.points[0].z,
            hole.scale_z,
        ) && ratio_less(
            hole.points[2].z,
            hole.scale_z,
            self.outer.points[2].z,
            self.outer.scale_z,
        );
        if !inside {
            return Err(GeometryFault::HoleNotInside { from, to });
        }
        self.inner = Some(hole);
        Ok(())
    }

    /// The area in whole square millimetres, where the areas of the boundary
    /// and of the hole are whole numbers that fit.
    pub fn area_units(&self) -> (r: Option<i64>)
        ensures
            r matches Some(q) ==> self@.whole_area() == Some(q as int),
            r is None ==> self@.whole_area() is None,
            r matches Some(q) ==> self@.area() == q as real,
    {
        proof {
            use_type_invariant(self);
            if self@.whole_area() is Some {
                lemma_polygon_whole_area(self@, self@.whole_area().unwrap());
            }
        }
        let outer_area = self.outer.area_units();
        match &self.inner {
            None => outer_area,
            Some(hole) => {
                let hole_area = hole.area_units();
                match (outer_area, hole_area) {
                    (Some(whole), Some(cut)) => {
                        proof {
                            lemma_whole_area(self.outer@, whole as int);
                            lemma_whole_area(hole@, cut as int);
                        }
                        Some(whole - cut)
                    },
                    _ => None,
                }
            },
        }
    }
}

/// Where a well-formed polygon has a whole area, that number is its area.
pub proof fn lemma_polygon_whole_area(p: PolygonView, q: int)
    requires
        p.wf(),
        p.whole_area() == Some(q),
    ensures
        p.area() == q as real,
{
    match p.inner {
        Some(hole) => {
            lemma_whole_area(p.outer, p.outer.whole_area().unwrap());
            lemma_whole_area(hole, hole.whole_area().unwrap());
        },
        None => {
            lemma_whole_area(p.outer, q);
        },
    }
}

} // verus!
