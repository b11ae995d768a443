//! The wall and the window that is cut into it.
//!
//! A wall of area `a` square millimetres is `isqrt(a)` millimetres high and
//! `a / isqrt(a)` millimetres wide: as close to a square as a whole height
//! allows, and of area `a` exactly. It stands on the line `z = 0` with the
//! origin in the middle of its foot.
//!
//! A window of area `w` sits in the middle of its wall. Its width is the
//! width of the wall times `(w + a) / (2 a)` and its height is the height of
//! the wall times `2 w / (w + a)`, where `a` is the area of the wall. Both
//! factors are below 1 exactly where `w < a`, and their product is `w / a`:
//! every window that is smaller than its wall lies strictly inside it and
//! has exactly its area. Along each axis the two ends of the window and
//! their scale are divided by their greatest common divisor, so that the
//! window is held in the smallest integers that can hold it.

use vstd::prelude::*;
use crate::error::{BuildError, ConfigFault, GeometryFault};
use crate::geometry::{
    Loop,
    LoopView,
    Polygon,
    PolygonView,
    rectangle_view,
    lemma_closed_loop_has_area,
};
use crate::numeric::{
    gcd,
    greatest_common_divisor,
    isqrt,
    integer_sqrt,
    lemma_gcd_divides,
    lemma_gcd_is_greatest,
    lemma_isqrt_is_floor,
    ratio,
    lemma_ratio_difference,
    lemma_ratio_less,
    lemma_ratio_equal,
    lemma_ratio_product,
    lemma_ratio_product_exceeds,
    lemma_ratio_reduce,
    lemma_ratio_sum,
};

verus! {

/// The height of the wall of the given area, in millimetres.
pub open spec fn wall_height(area: int) -> int {
    isqrt(area as nat) as int
}

/// The boundary of the wall of the given area: its `x` runs from `-area` to
/// `area` over twice its height, its `z` from 0 to its height.
pub open spec fn wall_loop(area: int) -> LoopView {
    rectangle_view(2 * wall_height(area), 1, -area, area, 0, wall_height(area))
}

/// What building the wall of the given area gives.
pub open spec fn wall_outcome(area: int) -> Result<PolygonView, BuildError> {
    if area <= 0 {
        Err(BuildError::InvalidConfiguration(ConfigFault::NonPositiveSurfaceArea { value: area as i64 }))
    } else {
        Ok(PolygonView { outer: wall_loop(area), inner: None })
    }
}

/// Builds the wall of the given area, in square millimetres.
pub fn build_wall_polygon(surface_area: i64) -> (r: Result<Polygon, BuildError>)
    ensures
        r is Ok <==> surface_area > 0,
        r matches Ok(p) ==> wall_outcome(surface_area as int) == Ok::<PolygonView, BuildError>(
            p@,
        ),
        r matches Err(e) ==> wall_outcome(surface_area as int) == Err::<PolygonView, BuildError>(
            e,
        ),
        r matches Ok(p) ==> p@.inner is None && p@.outer.points.len() == 4 && p@.area()
            == surface_area as real,
{
    if surface_area <= 0 {
        return Err(
            BuildError::InvalidConfiguration(
                ConfigFault::NonPositiveSurfaceArea { value: surface_area },
            ),
        );
    }
    let height: u64 = integer_sqrt(surface_area as u64);
    proof {
        lemma_wall_has_its_area(surface_area as int);
    }
    let boundary = match Loop::rectangle(
        2 * height,
        1,
        -surface_area,
        surface_area,
        0,
        height as i64,
    ) {
        Ok(l) => l,
        Err(e) => {
            return Err(BuildError::GeometryError(e));
        },
    };
    match Polygon::new(boundary) {
        Ok(p) => Ok(p),
        Err(e) => Err(BuildError::GeometryError(e)),
    }
}

/// The wall of a positive area is a well-formed rectangle of exactly that
/// area, whose foot lies on `z = 0` with the origin in its middle.
pub proof fn lemma_wall_has_its_area(area: int)
    requires
        0 < area <= i64::MAX,
    ensures
        1 <= wall_height(area) <= 4294967295,
        wall_outcome(area) matches Ok(wall) && wall.wf() && wall.inner is None
            && wall.outer.points.len() == 4 && wall.area() == area as real
            && wall.outer.min_z() == 0real && wall.outer.min_x() == -wall.outer.max_x(),
{
    let h = wall_height(area);
    let l = wall_loop(area);
    let s = 2 * h;
    lemma_isqrt_is_floor(area as nat);
    assert(1 <= h <= 4294967295) by (nonlinear_arith)
        requires
            1 <= area <= 0x7fff_ffff_ffff_ffff,
            h * h <= area < (h + 1) * (h + 1),
            h >= 0,
    ;
    assert(l.is_rectangle());
    lemma_closed_loop_has_area(l);
    assert(l.span_x() == 2 * area);
    assert(l.span_z() == h);
    assert((2 * area) * h == area * (s * 1)) by (nonlinear_arith)
        requires
            s == 2 * h,
    ;
    lemma_ratio_product(l.span_x(), s, l.span_z(), 1, area);
    assert(ratio(0, 1) == 0real);
    assert(ratio(-area, s) == -ratio(area, s)) by (nonlinear_arith)
        requires
            s > 0,
    ;
}

/// The largest magnitude of a number on the way to a window.
pub const BIG: i128 = 0x7fff_ffff_ffff_ffff_ffff_ffff_ffff_ffff;

/// The distance of `v` from 0.
pub open spec fn magnitude(v: int) -> nat {
    if v < 0 {
        (-v) as nat
    } else {
        v as nat
    }
}

/// The greatest common divisor of the two ends of a range and of their
/// scale.
pub open spec fn common_divisor(low: int, high: int, scale: int) -> int {
    gcd(gcd(magnitude(low), magnitude(high)), scale as nat) as int
}

/// The two ends of a range and their scale, divided by their greatest common
/// divisor, fit the machine integers.
pub open spec fn reduced_fits(low: int, high: int, scale: int) -> bool {
    &&& i64::MIN <= low / common_divisor(low, high, scale)
    &&& high / common_divisor(low, high, scale) <= i64::MAX
    &&& scale / common_divisor(low, high, scale) <= u64::MAX
}

/// The greatest common divisor of two ends and their positive scale is
/// positive and divides all three.
pub proof fn lemma_common_divisor(low: int, high: int, scale: int)
    requires
        scale > 0,
    ensures
        common_divisor(low, high, scale) > 0,
        low % common_divisor(low, high, scale) == 0,
        high % common_divisor(low, high, scale) == 0,
        scale % common_divisor(low, high, scale) == 0,
{
    let inner = gcd(magnitude(low), magnitude(high));
    let g = common_divisor(low, high, scale);
    lemma_gcd_divides(inner, scale as nat);
    if magnitude(low) > 0 || magnitude(high) > 0 {
        lemma_gcd_divides(magnitude(low), magnitude(high));
    }
    if inner > 0 {
        lemma_divides_signed(low, inner as int, g);
        lemma_divides_signed(high, inner as int, g);
    } else {
        assert(magnitude(high) == 0);
        assert(magnitude(low) == 0);
        vstd::arithmetic::div_mod::lemma_fundamental_div_mod_converse(0, g, 0, 0);
    }
}

/// No larger number divides the two ends and their scale: every common
/// divisor of the three divides their greatest common divisor. So the ends
/// and the scale, divided by it, are the smallest integers that stand for
/// the range.
pub proof fn lemma_common_divisor_is_greatest(low: int, high: int, scale: int, d: int)
    requires
        scale > 0,
        d > 0,
        low % d == 0,
        high % d == 0,
        scale % d == 0,
    ensures
        common_divisor(low, high, scale) % d == 0,
{
    if low < 0 {
        lemma_exact_quotient_of_negative(low, d);
    }
    if high < 0 {
        lemma_exact_quotient_of_negative(high, d);
    }
    lemma_gcd_is_greatest(magnitude(low), magnitude(high), d as nat);
    lemma_gcd_is_greatest(gcd(magnitude(low), magnitude(high)), scale as nat, d as nat);
}

/// Where `g` divides `d` and `d` divides the magnitude of `v`, `g` divides
/// `v`.
proof fn lemma_divides_signed(v: int, d: int, g: int)
    requires
        d > 0,
        g > 0,
        magnitude(v) % (d as nat) == 0,
        d % g == 0,
    ensures
        v % g == 0,
{
    let m = magnitude(v) as int;
    vstd::arithmetic::div_mod::lemma_fundamental_div_mod(m, d);
    vstd::arithmetic::div_mod::lemma_fundamental_div_mod(d, g);
    let k = m / d;
    let j = d / g;
    if v < 0 {
        assert(v == (-(k * j)) * g + 0) by (nonlinear_arith)
            requires
                -v == d * k,
                d == g * j,
        ;
        vstd::arithmetic::div_mod::lemma_fundamental_div_mod_converse(v, g, -(k * j), 0);
    } else {
        assert(v == (k * j) * g + 0) by (nonlinear_arith)
            requires
                v == d * k,
                d == g * j,
        ;
        vstd::arithmetic::div_mod::lemma_fundamental_div_mod_converse(v, g, k * j, 0);
    }
}

/// Divides the two ends of a range and their scale by their greatest common
/// divisor, and returns them where they then fit the machine integers.
fn reduced_range(low: i128, high: i128, scale: u128) -> (r: Option<(i64, i64, u64)>)
    requires
        -BIG <= low <= high <= BIG,
        0 < scale <= BIG,
    ensures
        r is Some <==> reduced_fits(low as int, high as int, scale as int),
        r matches Some(ends) ==> ends.0 == (low as int) / common_divisor(
            low as int,
            high as int,
            scale as int,
        ) && ends.1 == (high as int) / common_divisor(low as int, high as int, scale as int)
            && ends.2 == (scale as int) / common_divisor(low as int, high as int, scale as int),
{
    let low_size: u128 = if low < 0 {
        (-low) as u128
    } else {
        low as u128
    };
    let high_size: u128 = if high < 0 {
        (-high) as u128
    } else {
        high as u128
    };
    let divisor: u128 = greatest_common_divisor(
        greatest_common_divisor(low_size, high_size),
        scale,
    );
    proof {
        let g = divisor as int;
        lemma_common_divisor(low as int, high as int, scale as int);
        assert(g == common_divisor(low as int, high as int, scale as int));
        lemma_ratio_reduce(low as int, scale as int, g);
        lemma_ratio_reduce(high as int, scale as int, g);
        if low < 0 {
            lemma_exact_quotient_of_negative(low as int, g);
        }
        if high < 0 {
            lemma_exact_quotient_of_negative(high as int, g);
        }
        lemma_ratio_reduce(low_size as int, scale as int, g);
        lemma_ratio_reduce(high_size as int, scale as int, g);
        assert((low as int) / g <= (high as int) / g) by (nonlinear_arith)
            requires
                ((low as int) / g) * g == low,
                ((high as int) / g) * g == high,
                low <= high,
                g > 0,
        ;
    }
    let low_part: u128 = low_size / divisor;
    let high_part: u128 = high_size / divisor;
    let scale_part: u128 = scale / divisor;
    let left: i128 = if low < 0 {
        -(low_part as i128)
    } else {
        low_part as i128
    };
    let right: i128 = if high < 0 {
        -(high_part as i128)
    } else {
        high_part as i128
    };
    if left < -0x8000_0000_0000_0000 || right > 0x7fff_ffff_ffff_ffff || scale_part
        > 0xffff_ffff_ffff_ffff {
        return None;
    }
    Some((left as i64, right as i64, scale_part as u64))
}

/// The quotient of a negative multiple of `g` by `g` is the opposite of the
/// quotient of its magnitude.
proof fn lemma_exact_quotient_of_negative(v: int, g: int)
    requires
        g > 0,
        v < 0,
        v % g == 0,
    ensures
        (-v) % g == 0,
        v / g == -((-v) / g),
{
    vstd::arithmetic::div_mod::lemma_fundamental_div_mod(v, g);
    let k = v / g;
    assert(-v == (-k) * g + 0) by (nonlinear_arith)
        requires
            v == g * k,
    ;
    vstd::arithmetic::div_mod::lemma_fundamental_div_mod_converse(-v, g, -k, 0);
}

/// The area of the window, counted in the units in which `wall_weight`
/// counts the area of the wall.
pub open spec fn window_weight(wall: LoopView, area: int) -> int {
    area * wall.scale_product()
}

/// The area of the wall, counted as the product of its two spans.
pub open spec fn wall_weight(wall: LoopView) -> int {
    wall.span_x() * wall.span_z()
}

/// The sum of the two weights.
pub open spec fn weight_sum(wall: LoopView, area: int) -> int {
    window_weight(wall, area) + wall_weight(wall)
}

/// What the two weights are divided by before they are used along `z`: the
/// product of the scales of the wall where the area of the wall is a whole
/// number, and 1 where it is not.
pub open spec fn weight_unit(wall: LoopView) -> int {
    if wall_weight(wall) % wall.scale_product() == 0 {
        wall.scale_product()
    } else {
        1
    }
}

/// The share of the window: its weight in units.
pub open spec fn window_share(wall: LoopView, area: int) -> int {
    window_weight(wall, area) / weight_unit(wall)
}

/// The sum of the shares of the window and of the wall.
pub open spec fn share_sum(wall: LoopView, area: int) -> int {
    window_share(wall, area) + wall_weight(wall) / weight_unit(wall)
}

/// Twice the numerator of the middle of the wall along `x`, over the scale
/// `raw_scale_x`.
pub open spec fn raw_middle_x(wall: LoopView) -> int {
    2 * (wall.span_z() * (wall.points[0].x + wall.points[1].x))
}

/// The scale of the window along `x`, before it is reduced.
pub open spec fn raw_scale_x(wall: LoopView) -> int {
    4 * (wall.span_z() * wall.scale_x)
}

/// The left end of the window over `raw_scale_x`.
pub open spec fn raw_left(wall: LoopView, area: int) -> int {
    raw_middle_x(wall) - weight_sum(wall, area)
}

/// The right end of the window over `raw_scale_x`.
pub open spec fn raw_right(wall: LoopView, area: int) -> int {
    raw_middle_x(wall) + weight_sum(wall, area)
}

/// The numerator of the middle of the wall along `z`, over `raw_scale_z`.
pub open spec fn raw_middle_z(wall: LoopView, area: int) -> int {
    (wall.points[0].z + wall.points[2].z) * share_sum(wall, area)
}

/// Half the height of the window over `raw_scale_z`.
pub open spec fn raw_reach_z(wall: LoopView, area: int) -> int {
    2 * (window_share(wall, area) * wall.span_z())
}

/// The scale of the window along `z`, before it is reduced.
pub open spec fn raw_scale_z(wall: LoopView, area: int) -> int {
    2 * (wall.scale_z * share_sum(wall, area))
}

/// The lower end of the window over `raw_scale_z`.
pub open spec fn raw_bottom(wall: LoopView, area: int) -> int {
    raw_middle_z(wall, area) - raw_reach_z(wall, area)
}

/// The upper end of the window over `raw_scale_z`.
pub open spec fn raw_top(wall: LoopView, area: int) -> int {
    raw_middle_z(wall, area) + raw_reach_z(wall, area)
}

/// The ends and the scales of the window can be worked out in 128 bits,
/// before they are reduced.
pub open spec fn window_is_computable(wall: LoopView, area: int) -> bool {
    &&& -BIG <= raw_left(wall, area)
    &&& raw_right(wall, area) <= BIG
    &&& raw_scale_x(wall) <= BIG
    &&& -BIG <= raw_bottom(wall, area)
    &&& raw_top(wall, area) <= BIG
    &&& raw_scale_z(wall, area) <= BIG
}

/// The ends and the scales of the window, reduced, fit the machine
/// integers.
pub open spec fn window_is_representable(wall: LoopView, area: int) -> bool {
    &&& window_is_computable(wall, area)
    &&& reduced_fits(raw_left(wall, area), raw_right(wall, area), raw_scale_x(wall))
    &&& reduced_fits(raw_bottom(wall, area), raw_top(wall, area), raw_scale_z(wall, area))
}

/// The greatest common divisor of the ends and the scale along `x`.
pub open spec fn divisor_x(wall: LoopView, area: int) -> int {
    common_divisor(raw_left(wall, area), raw_right(wall, area), raw_scale_x(wall))
}

/// The greatest common divisor of the ends and the scale along `z`.
pub open spec fn divisor_z(wall: LoopView, area: int) -> int {
    common_divisor(raw_bottom(wall, area), raw_top(wall, area), raw_scale_z(wall, area))
}

/// The boundary of the window of the given area in the middle of `wall`.
pub open spec fn window_loop(wall: LoopView, area: int) -> LoopView {
    rectangle_view(
        raw_scale_x(wall) / divisor_x(wall, area),
        raw_scale_z(wall, area) / divisor_z(wall, area),
        raw_left(wall, area) / divisor_x(wall, area),
        raw_right(wall, area) / divisor_x(wall, area),
        raw_bottom(wall, area) / divisor_z(wall, area),
        raw_top(wall, area) / divisor_z(wall, area),
    )
}

/// A window of the given area can be cut into `wall`: the area is positive
/// and smaller than the area that the boundary of the wall encloses, the
/// window fits the machine integers, and the wall has no hole yet.
pub open spec fn window_can_be_cut(wall: PolygonView, area: int) -> bool {
    &&& 0 < area
    &&& (area as real) < wall.outer.area()
    &&& window_is_representable(wall.outer, area)
    &&& wall.inner is None
}

/// What cutting a window of the given area into `wall` gives: the wall with
/// its hole, and the pane that fills the hole.
pub open spec fn window_outcome(wall: PolygonView, area: int) -> Result<
    (PolygonView, PolygonView),
    BuildError,
> {
    if area <= 0 {
        Err(BuildError::InvalidConfiguration(ConfigFault::NonPositiveWindowArea { value: area as i64 }))
    } else if !((area as real) < wall.outer.area()) {
        Err(
            BuildError::InvalidConfiguration(
                ConfigFault::WindowNotSmallerThanSurface { window_area: area as i64 },
            ),
        )
    } else if !window_is_representable(wall.outer, area) {
        Err(BuildError::GeometryError(GeometryFault::Unrepresentable { area: area as i64 }))
    } else if wall.inner is Some {
        Err(
            BuildError::GeometryError(
                GeometryFault::AlreadyCut {
                    from: window_loop(wall.outer, area).points[0],
                    to: window_loop(wall.outer, area).points[2],
                },
            ),
        )
    } else {
        Ok(
            (
                PolygonView { outer: wall.outer, inner: Some(window_loop(wall.outer, area)) },
                PolygonView { outer: window_loop(wall.outer, area), inner: None },
            ),
        )
    }
}

/// What holds of the weights and shares of a window that is smaller than
/// its wall: the unit is positive and divides both weights, and the share
/// of the window is positive and smaller than that of the wall.
pub proof fn lemma_shares(wall: LoopView, area: int)
    requires
        wall.wf(),
        wall.closed,
        0 < area,
        (area as real) < wall.area(),
    ensures
        0 < window_weight(wall, area) < wall_weight(wall),
        weight_unit(wall) > 0,
        window_share(wall, area) * weight_unit(wall) == window_weight(wall, area),
        share_sum(wall, area) * weight_unit(wall) == weight_sum(wall, area),
        0 < window_share(wall, area),
        2 * window_share(wall, area) < share_sum(wall, area),
        share_sum(wall, area) <= weight_sum(wall, area),
        weight_unit(wall) == wall.scale_product() ==> window_share(wall, area) == area,
{
    let u = weight_unit(wall);
    let m = window_weight(wall, area);
    let n = wall_weight(wall);
    let p = wall.scale_product();
    lemma_closed_loop_has_area(wall);
    lemma_ratio_product_exceeds(
        wall.span_x(),
        wall.scale_x as int,
        wall.span_z(),
        wall.scale_z as int,
        area,
    );
    assert(m > 0) by (nonlinear_arith)
        requires
            m == area * p,
            area >= 1,
            p >= 1,
    ;
    if u == p {
        vstd::arithmetic::div_mod::lemma_fundamental_div_mod_converse(m, p, area, 0);
    } else {
        vstd::arithmetic::div_mod::lemma_fundamental_div_mod_converse(m, 1, m, 0);
        vstd::arithmetic::div_mod::lemma_fundamental_div_mod_converse(n, 1, n, 0);
    }
    vstd::arithmetic::div_mod::lemma_fundamental_div_mod(m, u);
    vstd::arithmetic::div_mod::lemma_fundamental_div_mod(n, u);
    let a = m / u;
    let b = n / u;
    assert(a * u == m && b * u == n && (a + b) * u == m + n && 0 < a && 2 * a < a + b && a + b <= m
        + n) by (nonlinear_arith)
        requires
            m == u * a,
            n == u * b,
            u > 0,
            0 < m < n,
    ;
}

/// The window of a positive area that is smaller than that of its wall is a
/// rectangle of exactly that area that lies strictly inside the wall, with
/// its middle in the middle of the wall.
pub proof fn lemma_window_fits(wall: LoopView, area: int)
    requires
        wall.wf(),
        wall.closed,
        0 < area,
        (area as real) < wall.area(),
        window_is_representable(wall, area),
    ensures
        window_loop(wall, area).wf(),
        window_loop(wall, area).strictly_inside(wall),
        window_loop(wall, area).area() == area as real,
        window_loop(wall, area).min_x() + window_loop(wall, area).max_x() == wall.min_x()
            + wall.max_x(),
        window_loop(wall, area).min_z() + window_loop(wall, area).max_z() == wall.min_z()
            + wall.max_z(),
{
    let hole = window_loop(wall, area);
    let sx = wall.scale_x as int;
    let sz = wall.scale_z as int;
    let x0 = wall.points[0].x as int;
    let x1 = wall.points[1].x as int;
    let z0 = wall.points[0].z as int;
    let z1 = wall.points[2].z as int;
    let dz = wall.span_z();
    let u = weight_unit(wall);
    let big_m = window_weight(wall, area);
    let big_n = wall_weight(wall);
    let big_s = weight_sum(wall, area);
    let m = window_share(wall, area);
    let s = share_sum(wall, area);
    let tx = raw_scale_x(wall);
    let tz = raw_scale_z(wall, area);
    let mx = raw_middle_x(wall);
    let mz = raw_middle_z(wall, area);
    let rz = raw_reach_z(wall, area);
    let left = raw_left(wall, area);
    let right = raw_right(wall, area);
    let bottom = raw_bottom(wall, area);
    let top = raw_top(wall, area);
    let gx = divisor_x(wall, area);
    let gz = divisor_z(wall, area);
    lemma_closed_loop_has_area(wall);
    lemma_shares(wall, area);
    assert(tx > 0 && tz > 0 && rz > 0) by (nonlinear_arith)
        requires
            tx == 4 * (dz * sx),
            tz == 2 * (sz * s),
            rz == 2 * (m * dz),
            dz >= 1,
            sx >= 1,
            sz >= 1,
            s >= 1,
            m >= 1,
    ;
    // The reduced ends are the raw ends, as ratios.
    lemma_common_divisor(left, right, tx);
    lemma_common_divisor(bottom, top, tz);
    lemma_ratio_reduce(left, tx, gx);
    lemma_ratio_reduce(right, tx, gx);
    lemma_ratio_reduce(bottom, tz, gz);
    lemma_ratio_reduce(top, tz, gz);
    assert(left / gx < right / gx) by (nonlinear_arith)
        requires
            (left / gx) * gx == left,
            (right / gx) * gx == right,
            left < right,
            gx > 0,
    ;
    assert(bottom / gz < top / gz) by (nonlinear_arith)
        requires
            (bottom / gz) * gz == bottom,
            (top / gz) * gz == top,
            bottom < top,
            gz > 0,
    ;
    assert(hole.is_rectangle());
    assert(hole.min_x() == ratio(left, tx));
    assert(hole.max_x() == ratio(right, tx));
    assert(hole.min_z() == ratio(bottom, tz));
    assert(hole.max_z() == ratio(top, tz));
    // The area.
    lemma_ratio_difference(left, right, tx);
    lemma_ratio_difference(bottom, top, tz);
    let spans = (right - left) * (top - bottom);
    let scales = tx * tz;
    assert(spans == 8 * ((s * dz) * (m * u))) by (nonlinear_arith)
        requires
            spans == (2 * big_s) * (2 * rz),
            big_s == s * u,
            rz == 2 * (m * dz),
    ;
    assert(area * scales == 8 * ((s * dz) * (area * (sx * sz)))) by (nonlinear_arith)
        requires
            scales == (4 * (dz * sx)) * (2 * (sz * s)),
    ;
    assert(spans == area * scales);
    lemma_ratio_product(right - left, tx, top - bottom, tz, area);
    // Strictly inside, along x.
    lemma_ratio_less(x0, sx, left, tx);
    lemma_ratio_less(right, tx, x1, sx);
    assert(x0 * tx < left * sx && right * sx < x1 * tx) by (nonlinear_arith)
        requires
            tx == 4 * (dz * sx),
            left == 2 * (dz * (x0 + x1)) - big_s,
            right == 2 * (dz * (x0 + x1)) + big_s,
            big_s == big_m + big_n,
            big_n == (x1 - x0) * dz,
            big_m < big_n,
            sx >= 1,
    ;
    // Strictly inside, along z.
    lemma_ratio_less(z0, sz, bottom, tz);
    lemma_ratio_less(top, tz, z1, sz);
    assert(z0 * tz < bottom * sz && top * sz < z1 * tz) by (nonlinear_arith)
        requires
            tz == 2 * (sz * s),
            bottom == (z0 + z1) * s - 2 * (m * dz),
            top == (z0 + z1) * s + 2 * (m * dz),
            dz == z1 - z0,
            2 * m < s,
            dz >= 1,
            sz >= 1,
    ;
    // The middle.
    lemma_ratio_sum(left, right, tx);
    lemma_ratio_sum(x0, x1, sx);
    assert((left + right) * sx == (x0 + x1) * tx) by (nonlinear_arith)
        requires
            tx == 4 * (dz * sx),
            left + right == 4 * (dz * (x0 + x1)),
    ;
    lemma_ratio_equal(left + right, tx, x0 + x1, sx);
    lemma_ratio_sum(bottom, top, tz);
    lemma_ratio_sum(z0, z1, sz);
    assert((bottom + top) * sz == (z0 + z1) * tz) by (nonlinear_arith)
        requires
            tz == 2 * (sz * s),
            bottom + top == 2 * ((z0 + z1) * s),
    ;
    lemma_ratio_equal(bottom + top, tz, z0 + z1, sz);
}

/// Cuts a window of the given area, in square millimetres, into the middle
/// of `wall`, and returns the wall with its hole and the pane that fills it.
pub fn cut_window(wall: Polygon, window_area: i64) -> (r: Result<(Polygon, Polygon), BuildError>)
    ensures
        r is Ok <==> window_can_be_cut(wall@, window_area as int),
        r matches Ok(pair) ==> window_outcome(wall@, window_area as int) == Ok::<
            (PolygonView, PolygonView),
            BuildError,
        >((pair.0@, pair.1@)),
        r matches Err(e) ==> window_outcome(wall@, window_area as int) == Err::<
            (PolygonView, PolygonView),
            BuildError,
        >(e),
        r matches Err(BuildError::InvalidConfiguration(_)) <==> !(0 < window_area
            && (window_area as real) < wall@.outer.area()),
        r matches Ok(pair) ==> pair.0@.outer == wall@.outer && pair.0@.inner == Some(pair.1@.outer)
            && pair.1@.inner is None && pair.1@.outer.strictly_inside(wall@.outer)
            && pair.1@.area() == window_area as real && pair.0@.area() + pair.1@.area()
            == wall@.area(),
{
    proof {
        use_type_invariant(&wall);
    }
    if window_area <= 0 {
        return Err(
            BuildError::InvalidConfiguration(
                ConfigFault::NonPositiveWindowArea { value: window_area },
            ),
        );
    }
    if !wall.outer().area_exceeds(window_area) {
        return Err(
            BuildError::InvalidConfiguration(
                ConfigFault::WindowNotSmallerThanSurface { window_area },
            ),
        );
    }
    let unrepresentable = BuildError::GeometryError(
        GeometryFault::Unrepresentable { area: window_area },
    );
    let ghost outer = wall@.outer;
    let ghost area = window_area as int;
    let scale_x: u128 = wall.outer().scale_x() as u128;
    let scale_z: u128 = wall.outer().scale_z() as u128;
    let points = wall.outer().points();
    let x0: i128 = points[0].x as i128;
    let x1: i128 = points[1].x as i128;
    let z0: i128 = points[0].z as i128;
    let z1: i128 = points[2].z as i128;
    let span_x: u128 = (x1 - x0) as u128;
    let span_z: u128 = (z1 - z0) as u128;
    proof {
        lemma_closed_loop_has_area(outer);
        lemma_shares(outer, area);
        assert(0 < span_x * span_z <= 0xffff_ffff_ffff_ffff * 0xffff_ffff_ffff_ffff)
            by (nonlinear_arith)
            requires
                0 < span_x <= 0xffff_ffff_ffff_ffff,
                0 < span_z <= 0xffff_ffff_ffff_ffff,
        ;
        assert(0 < scale_x * scale_z <= 0xffff_ffff_ffff_ffff * 0xffff_ffff_ffff_ffff)
            by (nonlinear_arith)
            requires
                1 <= scale_x <= 0xffff_ffff_ffff_ffff,
                1 <= scale_z <= 0xffff_ffff_ffff_ffff,
        ;
        assert(span_z <= span_z * scale_x <= 0xffff_ffff_ffff_ffff * 0xffff_ffff_ffff_ffff)
            by (nonlinear_arith)
            requires
                0 < span_z <= 0xffff_ffff_ffff_ffff,
                1 <= scale_x <= 0xffff_ffff_ffff_ffff,
        ;
    }
    // Along x.
    let wall_weight: u128 = span_x * span_z;
    let scale_product: u128 = scale_x * scale_z;
    if wall_weight > BIG as u128 {
        return Err(unrepresentable);
    }
    let window_weight: u128 = (window_area as u128) * scale_product;
    let weight_sum: u128 = window_weight + wall_weight;
    let quarter_scale_x: u128 = span_z * scale_x;
    if weight_sum > BIG as u128 || quarter_scale_x > 0x1fff_ffff_ffff_ffff_ffff_ffff_ffff_ffff {
        return Err(unrepresentable);
    }
    let scale_x_raw: u128 = 4 * quarter_scale_x;
    let half_middle_x: i128 = match (span_z as i128).checked_mul(x0 + x1) {
        Some(v) => v,
        None => {
            return Err(unrepresentable);
        },
    };
    if half_middle_x > 0x3fff_ffff_ffff_ffff_ffff_ffff_ffff_ffff || half_middle_x
        < -0x3fff_ffff_ffff_ffff_ffff_ffff_ffff_ffff {
        return Err(unrepresentable);
    }
    let middle_x: i128 = 2 * half_middle_x;
    let left_raw: i128 = match middle_x.checked_sub(weight_sum as i128) {
        Some(v) => v,
        None => {
            return Err(unrepresentable);
        },
    };
    let right_raw: i128 = match middle_x.checked_add(weight_sum as i128) {
        Some(v) => v,
        None => {
            return Err(unrepresentable);
        },
    };
    if left_raw < -BIG {
        return Err(unrepresentable);
    }
    // Along z.
    let unit: u128 = if wall_weight % scale_product == 0 {
        scale_product
    } else {
        1
    };
    let window_share: u128 = window_weight / unit;
    let wall_share: u128 = wall_weight / unit;
    let share_sum: u128 = window_share + wall_share;
    let half_scale_z: u128 = match scale_z.checked_mul(share_sum) {
        Some(v) => v,
        None => {
            return Err(unrepresentable);
        },
    };
    if half_scale_z > 0x3fff_ffff_ffff_ffff_ffff_ffff_ffff_ffff {
        return Err(unrepresentable);
    }
    let scale_z_raw: u128 = 2 * half_scale_z;
    proof {
        assert(share_sum <= half_scale_z) by (nonlinear_arith)
            requires
                half_scale_z == scale_z * share_sum,
                scale_z >= 1,
                share_sum >= 0,
        ;
    }
    let middle_z: i128 = match (z0 + z1).checked_mul(share_sum as i128) {
        Some(v) => v,
        None => {
            return Err(unrepresentable);
        },
    };
    let half_reach_z: u128 = match window_share.checked_mul(span_z) {
        Some(v) => v,
        None => {
            return Err(unrepresentable);
        },
    };
    if half_reach_z > 0x3fff_ffff_ffff_ffff_ffff_ffff_ffff_ffff {
        return Err(unrepresentable);
    }
    let reach_z: i128 = (2 * half_reach_z) as i128;
    let bottom_raw: i128 = match middle_z.checked_sub(reach_z) {
        Some(v) => v,
        None => {
            return Err(unrepresentable);
        },
    };
    let top_raw: i128 = match middle_z.checked_add(reach_z) {
        Some(v) => v,
        None => {
            return Err(unrepresentable);
        },
    };
    if bottom_raw < -BIG {
        return Err(unrepresentable);
    }
    proof {
        assert(window_is_computable(outer, area));
        assert(half_reach_z > 0) by (nonlinear_arith)
            requires
                half_reach_z == window_share * span_z,
                window_share > 0,
                span_z > 0,
        ;
    }
    let (left, right, hole_scale_x) = match reduced_range(left_raw, right_raw, scale_x_raw) {
        Some(ends) => ends,
        None => {
            return Err(unrepresentable);
        },
    };
    let (bottom, top, hole_scale_z) = match reduced_range(bottom_raw, top_raw, scale_z_raw) {
        Some(ends) => ends,
        None => {
            return Err(unrepresentable);
        },
    };
    proof {
        assert(window_is_representable(outer, area));
        lemma_window_fits(outer, area);
    }
    let hole = match Loop::rectangle(hole_scale_x, hole_scale_z, left, right, bottom, top) {
        Ok(l) => l,
        Err(e) => {
            return Err(BuildError::GeometryError(e));
        },
    };
    let pane = match Polygon::new(hole.clone()) {
        Ok(p) => p,
        Err(e) => {
            return Err(BuildError::GeometryError(e));
        },
    };
    let mut wall_with_hole = wall;
    match wall_with_hole.cut_hole(hole) {
        Ok(()) => Ok((wall_with_hole, pane)),
        Err(e) => Err(BuildError::GeometryError(e)),
    }
}

/// Whenever a window is cut into a well-formed wall, the wall keeps its
/// boundary and gets the window as its hole, the pane is that same window
/// without a hole, the pane has exactly the area asked for, its middle is
/// the middle of the wall, and the areas of the wall with its hole and of
/// the pane add up to the area that the boundary of the wall encloses.
pub proof fn lemma_window_conserves_area(wall: PolygonView, area: int)
    requires
        wall.wf(),
        window_outcome(wall, area) is Ok,
    ensures
        window_can_be_cut(wall, area),
        ({
            let (wall_with_hole, pane) = window_outcome(wall, area).unwrap();
            &&& wall_with_hole.wf()
            &&& pane.wf()
            &&& wall_with_hole.outer == wall.outer
            &&& wall_with_hole.inner == Some(pane.outer)
            &&& pane.inner is None
            &&& pane.outer.strictly_inside(wall.outer)
            &&& pane.area() == area as real
            &&& wall_with_hole.area() + pane.area() == wall.area()
            &&& pane.outer.min_x() + pane.outer.max_x() == wall.outer.min_x() + wall.outer.max_x()
            &&& pane.outer.min_z() + pane.outer.max_z() == wall.outer.min_z() + wall.outer.max_z()
        }),
{
    lemma_window_fits(wall.outer, area);
}

/// The window of a wall of up to a square kilometre fits the machine
/// integers, whatever the two areas are.
pub proof fn lemma_moderate_areas_are_representable(surface_area: int, window_area: int)
    requires
        0 < window_area < surface_area <= 1_000_000_000_000,
    ensures
        window_is_representable(wall_loop(surface_area), window_area),
{
    let h = wall_height(surface_area);
    let wall = wall_loop(surface_area);
    lemma_wall_has_its_area(surface_area);
    lemma_isqrt_is_floor(surface_area as nat);
    assert(h <= 1_000_000) by (nonlinear_arith)
        requires
            0 <= h,
            h * h <= 1_000_000_000_000,
    ;
    assert(wall.span_x() == 2 * surface_area);
    assert(wall.span_z() == h);
    let p = wall.scale_product();
    assert(p == 2 * h) by (nonlinear_arith)
        requires
            p == (2 * h) * 1,
    ;
    let n = wall_weight(wall);
    assert(n == surface_area * p + 0) by (nonlinear_arith)
        requires
            n == (2 * surface_area) * h,
            p == 2 * h,
    ;
    vstd::arithmetic::div_mod::lemma_fundamental_div_mod_converse(n, p, surface_area, 0);
    assert(weight_unit(wall) == p);
    lemma_shares(wall, window_area);
    assert(window_share(wall, window_area) == window_area);
    let s = share_sum(wall, window_area);
    assert(s == window_area + surface_area);
    let big_s = weight_sum(wall, window_area);
    assert(0 < big_s <= 4_000_000_000_000_000_000) by (nonlinear_arith)
        requires
            big_s == s * p,
            p == 2 * h,
            1 <= h <= 1_000_000,
            0 < s <= 2_000_000_000_000,
    ;
    assert(raw_middle_x(wall) == 0) by (nonlinear_arith)
        requires
            raw_middle_x(wall) == 2 * (h * (-surface_area + surface_area)),
    ;
    assert(0 < raw_scale_x(wall) <= 8_000_000_000_000) by (nonlinear_arith)
        requires
            raw_scale_x(wall) == 4 * (h * (2 * h)),
            1 <= h,
            h * h <= 1_000_000_000_000,
    ;
    assert(0 <= raw_middle_z(wall, window_area) <= 2_000_000_000_000_000_000)
        by (nonlinear_arith)
        requires
            raw_middle_z(wall, window_area) == (0 + h) * s,
            1 <= h <= 1_000_000,
            0 < s <= 2_000_000_000_000,
    ;
    assert(0 <= raw_reach_z(wall, window_area) <= 2_000_000_000_000_000_000
        && raw_reach_z(wall, window_area) < raw_middle_z(wall, window_area)) by (nonlinear_arith)
        requires
            raw_reach_z(wall, window_area) == 2 * (window_area * h),
            raw_middle_z(wall, window_area) == (0 + h) * s,
            s == window_area + surface_area,
            1 <= h <= 1_000_000,
            0 < window_area < surface_area,
            window_area <= 1_000_000_000_000,
    ;
    assert(0 < raw_scale_z(wall, window_area) <= 4_000_000_000_000) by (nonlinear_arith)
        requires
            raw_scale_z(wall, window_area) == 2 * (1 * s),
            0 < s <= 2_000_000_000_000,
    ;
    let left = raw_left(wall, window_area);
    let right = raw_right(wall, window_area);
    let bottom = raw_bottom(wall, window_area);
    let top = raw_top(wall, window_area);
    let tx = raw_scale_x(wall);
    let tz = raw_scale_z(wall, window_area);
    lemma_common_divisor(left, right, tx);
    lemma_common_divisor(bottom, top, tz);
    lemma_ratio_reduce(left, tx, divisor_x(wall, window_area));
    lemma_ratio_reduce(right, tx, divisor_x(wall, window_area));
    lemma_ratio_reduce(bottom, tz, divisor_z(wall, window_area));
    lemma_ratio_reduce(top, tz, divisor_z(wall, window_area));
}

/// The window of every wall that `build_wall_polygon` builds can be worked
/// out in 128 bits: such a window is refused only where its ends or its
/// scales, in lowest terms, do not fit the machine integers.
pub proof fn lemma_built_walls_are_computable(surface_area: int, window_area: int)
    requires
        0 < window_area < surface_area <= i64::MAX,
    ensures
        window_is_computable(wall_loop(surface_area), window_area),
        window_is_representable(wall_loop(surface_area), window_area) <==> reduced_fits(
            raw_left(wall_loop(surface_area), window_area),
            raw_right(wall_loop(surface_area), window_area),
            raw_scale_x(wall_loop(surface_area)),
        ) && reduced_fits(
            raw_bottom(wall_loop(surface_area), window_area),
            raw_top(wall_loop(surface_area), window_area),
            raw_scale_z(wall_loop(surface_area), window_area),
        ),
{
    let h = wall_height(surface_area);
    let wall = wall_loop(surface_area);
    lemma_wall_has_its_area(surface_area);
    lemma_isqrt_is_floor(surface_area as nat);
    assert(wall.span_x() == 2 * surface_area);
    assert(wall.span_z() == h);
    let p = wall.scale_product();
    assert(p == 2 * h) by (nonlinear_arith)
        requires
            p == (2 * h) * 1,
    ;
    let n = wall_weight(wall);
    assert(n == surface_area * p + 0) by (nonlinear_arith)
        requires
            n == (2 * surface_area) * h,
            p == 2 * h,
    ;
    vstd::arithmetic::div_mod::lemma_fundamental_div_mod_converse(n, p, surface_area, 0);
    assert(weight_unit(wall) == p);
    lemma_shares(wall, window_area);
    let s = share_sum(wall, window_area);
    assert(s == window_area + surface_area);
    let big_s = weight_sum(wall, window_area);
    assert(0 < big_s <= 0x1_0000_0000_0000_0000 * 0x2_0000_0000) by (nonlinear_arith)
        requires
            big_s == s * p,
            p == 2 * h,
            1 <= h <= 4294967295,
            0 < s <= 0x1_0000_0000_0000_0000,
    ;
    assert(raw_middle_x(wall) == 0) by (nonlinear_arith)
        requires
            raw_middle_x(wall) == 2 * (h * (-surface_area + surface_area)),
    ;
    assert(0 < raw_scale_x(wall) <= 8 * 0x7fff_ffff_ffff_ffff) by (nonlinear_arith)
        requires
            raw_scale_x(wall) == 4 * (h * (2 * h)),
            1 <= h,
            h * h <= 0x7fff_ffff_ffff_ffff,
    ;
    assert(0 <= raw_middle_z(wall, window_area) <= 0x1_0000_0000_0000_0000 * 0x1_0000_0000)
        by (nonlinear_arith)
        requires
            raw_middle_z(wall, window_area) == (0 + h) * s,
            1 <= h <= 4294967295,
            0 < s <= 0x1_0000_0000_0000_0000,
    ;
    assert(0 <= raw_reach_z(wall, window_area) <= 0x1_0000_0000_0000_0000 * 0x1_0000_0000)
        by (nonlinear_arith)
        requires
            raw_reach_z(wall, window_area) == 2 * (window_area * h),
            1 <= h <= 4294967295,
            0 < window_area <= 0x7fff_ffff_ffff_ffff,
    ;
    assert(0 < raw_scale_z(wall, window_area) <= 0x2_0000_0000_0000_0000) by (nonlinear_arith)
        requires
            raw_scale_z(wall, window_area) == 2 * (1 * s),
            0 < s <= 0x1_0000_0000_0000_0000,
    ;
}

} // verus!
