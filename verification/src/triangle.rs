//! Edge-function rasterisation of one triangle into fragments.
//!
//! Vertex positions are fixed-point pixel coordinates, so every edge function
//! is evaluated exactly: a pixel is covered if and only if its centre lies in
//! the closed triangle, and the barycentric weights of a covered pixel are
//! non-negative rationals that sum to one.

use vstd::prelude::*;
use vstd::arithmetic::div_mod::lemma_div_is_ordered;
use vstd::arithmetic::div_mod::lemma_div_multiples_vanish;
use crate::fixed::div_floor;
use crate::fixed::lemma_product_bound;
use crate::fixed::lemma_quotient_is_floor;
use crate::fixed::HALF;
use crate::fixed::ONE;
use crate::fragment::Fragment;
use crate::vector::Vector3;
use crate::vertex::Vertex;

verus! {

/// The largest magnitude of a raw coordinate handed to `edge`: `2^32`.
pub const COORD_LIMIT: i64 = 0x1_0000_0000;

/// The largest magnitude of an edge function over such coordinates: `2^67`.
pub const EDGE_LIMIT: i128 = 0x8_0000_0000_0000_0000;

/// The edge function of the directed line from `a` to `b` at the point `p`:
/// twice the signed area of the triangle `a`, `b`, `p`.
pub open spec fn edge_function(ax: int, ay: int, bx: int, by: int, px: int, py: int) -> int {
    (px - ax) * (by - ay) - (py - ay) * (bx - ax)
}

/// The edge function of the first two transformed vertices at the third.
pub open spec fn signed_area(v0: Vertex, v1: Vertex, v2: Vertex) -> int {
    edge_function(
        v0.transformed_position.x as int,
        v0.transformed_position.y as int,
        v1.transformed_position.x as int,
        v1.transformed_position.y as int,
        v2.transformed_position.x as int,
        v2.transformed_position.y as int,
    )
}

/// Whether a triangle of this raw signed area is skipped: it faces away
/// (positive area) or is degenerate (magnitude below `10^-6` square pixels).
pub open spec fn is_culled(area: int) -> bool {
    ||| area > 0
    ||| (if area < 0 { -area } else { area }) * 1_000_000 < (ONE as int) * (ONE as int)
}

pub open spec fn min3(a: int, b: int, c: int) -> int {
    if a <= b && a <= c {
        a
    } else if b <= c {
        b
    } else {
        c
    }
}

pub open spec fn max3(a: int, b: int, c: int) -> int {
    if a >= b && a >= c {
        a
    } else if b >= c {
        b
    } else {
        c
    }
}

/// The pixel that holds a raw coordinate: the coordinate rounded down.
pub open spec fn pixel_floor(raw: int) -> int {
    raw / (ONE as int)
}

/// The coordinate rounded up to a whole pixel.
pub open spec fn pixel_ceil(raw: int) -> int {
    -((-raw) / (ONE as int))
}

/// The raw coordinate of a pixel's centre.
pub open spec fn center(pixel: int) -> int {
    pixel * (ONE as int) + (HALF as int)
}

/// Barycentric weights of a sample, as numerators over a common positive
/// denominator: weight `i` is the rational `n_i / total`.
pub struct Barycentric {
    pub n0: int,
    pub n1: int,
    pub n2: int,
    pub total: int,
}

impl Barycentric {
    /// All three weights are non-negative: the sample is in the closed triangle.
    pub open spec fn inside(self) -> bool {
        self.n0 >= 0 && self.n1 >= 0 && self.n2 >= 0
    }

    /// The weighted mean of three attribute values, rounded down to the grid.
    pub open spec fn blend(self, a0: int, a1: int, a2: int) -> int {
        (a0 * self.n0 + a1 * self.n1 + a2 * self.n2) / self.total
    }
}

/// The weights of the centre of pixel `(x, y)` in a front-facing triangle.
/// The first two come from the edge functions of the opposite edges divided
/// by the area; the third is what is left of one.
pub open spec fn weights_at(v0: Vertex, v1: Vertex, v2: Vertex, x: int, y: int) -> Barycentric {
    let p0 = v0.transformed_position;
    let p1 = v1.transformed_position;
    let p2 = v2.transformed_position;
    let total = -signed_area(v0, v1, v2);
    let n0 = -edge_function(p1.x as int, p1.y as int, p2.x as int, p2.y as int, center(x), center(y));
    let n1 = -edge_function(p2.x as int, p2.y as int, p0.x as int, p0.y as int, center(x), center(y));
    Barycentric { n0, n1, n2: total - n0 - n1, total }
}

/// Whether the centre of pixel `(x, y)` is accepted.
pub open spec fn covers(v0: Vertex, v1: Vertex, v2: Vertex, x: int, y: int) -> bool {
    weights_at(v0, v1, v2, x, y).inside()
}

/// The fragment emitted for a covered pixel.
pub open spec fn fragment_at(v0: Vertex, v1: Vertex, v2: Vertex, x: int, y: int) -> Fragment {
    let w = weights_at(v0, v1, v2, x, y);
    Fragment {
        x: x as i32,
        y: y as i32,
        color: Vector3 {
            x: w.blend(v0.color.x as int, v1.color.x as int, v2.color.x as int) as i32,
            y: w.blend(v0.color.y as int, v1.color.y as int, v2.color.y as int) as i32,
            z: w.blend(v0.color.z as int, v1.color.z as int, v2.color.z as int) as i32,
        },
        depth: w.blend(
            v0.transformed_position.z as int,
            v1.transformed_position.z as int,
            v2.transformed_position.z as int,
        ) as i32,
    }
}

/// The fragments of row `y` over the columns `x_lo <= x < x_end`, left to right.
pub open spec fn row_fragments(
    v0: Vertex,
    v1: Vertex,
    v2: Vertex,
    y: int,
    x_lo: int,
    x_end: int,
) -> Seq<Fragment>
    decreases x_end - x_lo,
{
    if x_end <= x_lo {
        Seq::empty()
    } else if covers(v0, v1, v2, x_end - 1, y) {
        row_fragments(v0, v1, v2, y, x_lo, x_end - 1).push(fragment_at(v0, v1, v2, x_end - 1, y))
    } else {
        row_fragments(v0, v1, v2, y, x_lo, x_end - 1)
    }
}

/// The fragments of the rows `y_lo <= y < y_end`, top to bottom.
pub open spec fn span_fragments(
    v0: Vertex,
    v1: Vertex,
    v2: Vertex,
    y_lo: int,
    y_end: int,
    x_lo: int,
    x_end: int,
) -> Seq<Fragment>
    decreases y_end - y_lo,
{
    if y_end <= y_lo {
        Seq::empty()
    } else {
        span_fragments(v0, v1, v2, y_lo, y_end - 1, x_lo, x_end) + row_fragments(
            v0,
            v1,
            v2,
            y_end - 1,
            x_lo,
            x_end,
        )
    }
}

/// First and last pixel column of the triangle's bounding box.
pub open spec fn box_min_x(v0: Vertex, v1: Vertex, v2: Vertex) -> int {
    pixel_floor(
        min3(
            v0.transformed_position.x as int,
            v1.transformed_position.x as int,
            v2.transformed_position.x as int,
        ),
    )
}

pub open spec fn box_max_x(v0: Vertex, v1: Vertex, v2: Vertex) -> int {
    pixel_ceil(
        max3(
            v0.transformed_position.x as int,
            v1.transformed_position.x as int,
            v2.transformed_position.x as int,
        ),
    )
}

/// First and last pixel row of the triangle's bounding box.
pub open spec fn box_min_y(v0: Vertex, v1: Vertex, v2: Vertex) -> int {
    pixel_floor(
        min3(
            v0.transformed_position.y as int,
            v1.transformed_position.y as int,
            v2.transformed_position.y as int,
        ),
    )
}

pub open spec fn box_max_y(v0: Vertex, v1: Vertex, v2: Vertex) -> int {
    pixel_ceil(
        max3(
            v0.transformed_position.y as int,
            v1.transformed_position.y as int,
            v2.transformed_position.y as int,
        ),
    )
}

/// What rasterising a triangle yields: nothing if it is culled, else the
/// fragments of every covered pixel of its bounding box in scan order.
pub open spec fn triangle_fragments(v0: Vertex, v1: Vertex, v2: Vertex) -> Seq<Fragment> {
    if is_culled(signed_area(v0, v1, v2)) {
        Seq::empty()
    } else {
        span_fragments(
            v0,
            v1,
            v2,
            box_min_y(v0, v1, v2),
            box_max_y(v0, v1, v2) + 1,
            box_min_x(v0, v1, v2),
            box_max_x(v0, v1, v2) + 1,
        )
    }
}

/// Evaluates the edge function exactly.
fn edge(ax: i64, ay: i64, bx: i64, by: i64, px: i64, py: i64) -> (e: i128)
    requires
        -COORD_LIMIT <= ax <= COORD_LIMIT,
        -COORD_LIMIT <= ay <= COORD_LIMIT,
        -COORD_LIMIT <= bx <= COORD_LIMIT,
        -COORD_LIMIT <= by <= COORD_LIMIT,
        -COORD_LIMIT <= px <= COORD_LIMIT,
        -COORD_LIMIT <= py <= COORD_LIMIT,
    ensures
        e as int == edge_function(ax as int, ay as int, bx as int, by as int, px as int, py as int),
        -EDGE_LIMIT <= e <= EDGE_LIMIT,
{
    let dx: i128 = px as i128 - ax as i128;
    let dy: i128 = py as i128 - ay as i128;
    let ex: i128 = bx as i128 - ax as i128;
    let ey: i128 = by as i128 - ay as i128;
    proof {
        lemma_product_bound(dx as int, ey as int, 0x2_0000_0000, 0x2_0000_0000);
        lemma_product_bound(dy as int, ex as int, 0x2_0000_0000, 0x2_0000_0000);
    }
    dx * ey - dy * ex
}

/// A weighted mean with non-negative weights lies between the least and the
/// greatest of the three values, also after rounding down.
pub proof fn lemma_blend_bounds(w: Barycentric, a0: int, a1: int, a2: int)
    requires
        w.inside(),
        w.total > 0,
        w.n0 + w.n1 + w.n2 == w.total,
    ensures
        min3(a0, a1, a2) <= w.blend(a0, a1, a2) <= max3(a0, a1, a2),
{
    let lo = min3(a0, a1, a2);
    let hi = max3(a0, a1, a2);
    let sum = a0 * w.n0 + a1 * w.n1 + a2 * w.n2;
    assert(w.total * lo <= sum <= w.total * hi) by (nonlinear_arith)
        requires
            w.n0 >= 0,
            w.n1 >= 0,
            w.n2 >= 0,
            w.n0 + w.n1 + w.n2 == w.total,
            lo <= a0 <= hi,
            lo <= a1 <= hi,
            lo <= a2 <= hi,
            sum == a0 * w.n0 + a1 * w.n1 + a2 * w.n2,
    ;
    lemma_div_is_ordered(w.total * lo, sum, w.total);
    lemma_div_is_ordered(sum, w.total * hi, w.total);
    lemma_div_multiples_vanish(lo, w.total);
    lemma_div_multiples_vanish(hi, w.total);
}

/// The edge function written out as a sum of products of two coordinates.
proof fn lemma_edge_expanded(ax: int, ay: int, bx: int, by: int, px: int, py: int)
    ensures
        edge_function(ax, ay, bx, by, px, py) == px * by - px * ay - ax * by + ax * ay - py * bx
            + py * ax + ay * bx - ay * ax,
{
    assert((px - ax) * (by - ay) == px * by - px * ay - ax * by + ax * ay) by (nonlinear_arith);
    assert((py - ay) * (bx - ax) == py * bx - py * ax - ay * bx + ay * ax) by (nonlinear_arith);
}

/// The three edge functions of a sample add up to the triangle's area, so
/// the weight that is left of one is the edge function of the third edge.
pub proof fn lemma_third_weight(v0: Vertex, v1: Vertex, v2: Vertex, x: int, y: int)
    ensures
        weights_at(v0, v1, v2, x, y).n2 == -edge_function(
            v0.transformed_position.x as int,
            v0.transformed_position.y as int,
            v1.transformed_position.x as int,
            v1.transformed_position.y as int,
            center(x),
            center(y),
        ),
{
    let x0 = v0.transformed_position.x as int;
    let y0 = v0.transformed_position.y as int;
    let x1 = v1.transformed_position.x as int;
    let y1 = v1.transformed_position.y as int;
    let x2 = v2.transformed_position.x as int;
    let y2 = v2.transformed_position.y as int;
    let cx = center(x);
    let cy = center(y);
    lemma_edge_expanded(x1, y1, x2, y2, cx, cy);
    lemma_edge_expanded(x2, y2, x0, y0, cx, cy);
    lemma_edge_expanded(x0, y0, x1, y1, cx, cy);
    lemma_edge_expanded(x0, y0, x1, y1, x2, y2);
    assert(x0 * y0 == y0 * x0) by (nonlinear_arith);
    assert(x1 * y1 == y1 * x1) by (nonlinear_arith);
    assert(x2 * y2 == y2 * x2) by (nonlinear_arith);
    assert(x0 * y1 == y1 * x0) by (nonlinear_arith);
    assert(x0 * y2 == y2 * x0) by (nonlinear_arith);
    assert(x1 * y0 == y0 * x1) by (nonlinear_arith);
    assert(x1 * y2 == y2 * x1) by (nonlinear_arith);
    assert(x2 * y0 == y0 * x2) by (nonlinear_arith);
    assert(x2 * y1 == y1 * x2) by (nonlinear_arith);
}

/// A triangle that faces away, or whose area is below `10^-6` square pixels
/// in magnitude, yields no fragment.
pub proof fn lemma_culled_triangle_is_empty(v0: Vertex, v1: Vertex, v2: Vertex)
    requires
        signed_area(v0, v1, v2) > 0 || -(ONE as int) * (ONE as int) < signed_area(v0, v1, v2)
            * 1_000_000 < (ONE as int) * (ONE as int),
    ensures
        triangle_fragments(v0, v1, v2).len() == 0,
{
}

/// For a pixel accepted inside a triangle that is not culled, the three
/// barycentric weights are non-negative and sum to one, and the interpolated
/// depth and colour channels lie between the least and the greatest of the
/// three vertices' values.
pub proof fn lemma_partition_of_unity(v0: Vertex, v1: Vertex, v2: Vertex, x: int, y: int)
    requires
        !is_culled(signed_area(v0, v1, v2)),
        covers(v0, v1, v2, x, y),
    ensures
        ({
            let w = weights_at(v0, v1, v2, x, y);
            let f = fragment_at(v0, v1, v2, x, y);
            &&& w.total > 0
            &&& w.n0 >= 0 && w.n1 >= 0 && w.n2 >= 0
            &&& w.n0 + w.n1 + w.n2 == w.total
            &&& min3(
                v0.transformed_position.z as int,
                v1.transformed_position.z as int,
                v2.transformed_position.z as int,
            ) <= f.depth <= max3(
                v0.transformed_position.z as int,
                v1.transformed_position.z as int,
                v2.transformed_position.z as int,
            )
            &&& min3(v0.color.x as int, v1.color.x as int, v2.color.x as int) <= f.color.x <= max3(
                v0.color.x as int,
                v1.color.x as int,
                v2.color.x as int,
            )
            &&& min3(v0.color.y as int, v1.color.y as int, v2.color.y as int) <= f.color.y <= max3(
                v0.color.y as int,
                v1.color.y as int,
                v2.color.y as int,
            )
            &&& min3(v0.color.z as int, v1.color.z as int, v2.color.z as int) <= f.color.z <= max3(
                v0.color.z as int,
                v1.color.z as int,
                v2.color.z as int,
            )
        }),
{
    let w = weights_at(v0, v1, v2, x, y);
    lemma_blend_bounds(
        w,
        v0.transformed_position.z as int,
        v1.transformed_position.z as int,
        v2.transformed_position.z as int,
    );
    lemma_blend_bounds(w, v0.color.x as int, v1.color.x as int, v2.color.x as int);
    lemma_blend_bounds(w, v0.color.y as int, v1.color.y as int, v2.color.y as int);
    lemma_blend_bounds(w, v0.color.z as int, v1.color.z as int, v2.color.z as int);
}

/// Every fragment of a row belongs to a covered pixel of that row. The
/// lemma returns the pixel's column.
pub proof fn lemma_row_fragment_origin(
    v0: Vertex,
    v1: Vertex,
    v2: Vertex,
    y: int,
    x_lo: int,
    x_end: int,
    i: int,
) -> (x: int)
    requires
        0 <= i < row_fragments(v0, v1, v2, y, x_lo, x_end).len(),
    ensures
        x_lo <= x < x_end,
        covers(v0, v1, v2, x, y),
        row_fragments(v0, v1, v2, y, x_lo, x_end)[i] == fragment_at(v0, v1, v2, x, y),
    decreases x_end - x_lo,
{
    let rest = row_fragments(v0, v1, v2, y, x_lo, x_end - 1);
    if x_end <= x_lo {
        x_lo
    } else if covers(v0, v1, v2, x_end - 1, y) && i == rest.len() {
        x_end - 1
    } else {
        lemma_row_fragment_origin(v0, v1, v2, y, x_lo, x_end - 1, i)
    }
}

/// Every covered pixel of a row has its fragment in the row. The lemma
/// returns the fragment's place.
pub proof fn lemma_row_holds_covered_pixel(
    v0: Vertex,
    v1: Vertex,
    v2: Vertex,
    y: int,
    x_lo: int,
    x_end: int,
    x: int,
) -> (i: int)
    requires
        x_lo <= x < x_end,
        covers(v0, v1, v2, x, y),
    ensures
        0 <= i < row_fragments(v0, v1, v2, y, x_lo, x_end).len(),
        row_fragments(v0, v1, v2, y, x_lo, x_end)[i] == fragment_at(v0, v1, v2, x, y),
    decreases x_end - x_lo,
{
    let rest = row_fragments(v0, v1, v2, y, x_lo, x_end - 1);
    if x == x_end - 1 {
        rest.len() as int
    } else {
        lemma_row_holds_covered_pixel(v0, v1, v2, y, x_lo, x_end - 1, x)
    }
}

/// Every fragment of a span of rows belongs to a covered pixel of the span.
/// The lemma returns the pixel's column and row.
pub proof fn lemma_span_fragment_origin(
    v0: Vertex,
    v1: Vertex,
    v2: Vertex,
    y_lo: int,
    y_end: int,
    x_lo: int,
    x_end: int,
    i: int,
) -> (p: (int, int))
    requires
        0 <= i < span_fragments(v0, v1, v2, y_lo, y_end, x_lo, x_end).len(),
    ensures
        x_lo <= p.0 < x_end,
        y_lo <= p.1 < y_end,
        covers(v0, v1, v2, p.0, p.1),
        span_fragments(v0, v1, v2, y_lo, y_end, x_lo, x_end)[i] == fragment_at(
            v0,
            v1,
            v2,
            p.0,
            p.1,
        ),
    decreases y_end - y_lo,
{
    if y_end <= y_lo {
        (x_lo, y_lo)
    } else {
        let above = span_fragments(v0, v1, v2, y_lo, y_end - 1, x_lo, x_end);
        if i < above.len() {
            lemma_span_fragment_origin(v0, v1, v2, y_lo, y_end - 1, x_lo, x_end, i)
        } else {
            let x = lemma_row_fragment_origin(v0, v1, v2, y_end - 1, x_lo, x_end, i - above.len());
            (x, y_end - 1)
        }
    }
}

/// Every covered pixel of a span of rows has its fragment in the span.
pub proof fn lemma_span_holds_covered_pixel(
    v0: Vertex,
    v1: Vertex,
    v2: Vertex,
    y_lo: int,
    y_end: int,
    x_lo: int,
    x_end: int,
    x: int,
    y: int,
) -> (i: int)
    requires
        x_lo <= x < x_end,
        y_lo <= y < y_end,
        covers(v0, v1, v2, x, y),
    ensures
        0 <= i < span_fragments(v0, v1, v2, y_lo, y_end, x_lo, x_end).len(),
        span_fragments(v0, v1, v2, y_lo, y_end, x_lo, x_end)[i] == fragment_at(v0, v1, v2, x, y),
    decreases y_end - y_lo,
{
    let above = span_fragments(v0, v1, v2, y_lo, y_end - 1, x_lo, x_end);
    if y == y_end - 1 {
        let k = lemma_row_holds_covered_pixel(v0, v1, v2, y, x_lo, x_end, x);
        above.len() + k
    } else {
        lemma_span_holds_covered_pixel(v0, v1, v2, y_lo, y_end - 1, x_lo, x_end, x, y)
    }
}

/// A sample with non-negative weights is a weighted mean of the three
/// vertices, so each of its coordinates lies between the least and the
/// greatest of theirs: `total * s == n0 * a0 + n1 * a1 + n2 * a2`.
proof fn lemma_weighted_mean_of_corners(
    a0: int,
    b0: int,
    a1: int,
    b1: int,
    a2: int,
    b2: int,
    sa: int,
    sb: int,
)
    ensures
        ({
            let total = -edge_function(a0, b0, a1, b1, a2, b2);
            let n0 = -edge_function(a1, b1, a2, b2, sa, sb);
            let n1 = -edge_function(a2, b2, a0, b0, sa, sb);
            let n2 = total - n0 - n1;
            &&& total * sa == n0 * a0 + n1 * a1 + n2 * a2
            &&& total * sb == n0 * b0 + n1 * b1 + n2 * b2
        }),
{
    let a = a0 - a2;
    let b = b0 - b2;
    let c = a1 - a2;
    let d = b1 - b2;
    let u = sa - a2;
    let v = sb - b2;
    let total = -edge_function(a0, b0, a1, b1, a2, b2);
    let n0 = -edge_function(a1, b1, a2, b2, sa, sb);
    let n1 = -edge_function(a2, b2, a0, b0, sa, sb);
    let n2 = total - n0 - n1;
    assert(total == a * d - b * c) by (nonlinear_arith)
        requires
            total == -((a2 - a0) * (b1 - b0) - (b2 - b0) * (a1 - a0)),
            a == a0 - a2,
            b == b0 - b2,
            c == a1 - a2,
            d == b1 - b2,
    ;
    assert(n0 == u * d - v * c) by (nonlinear_arith)
        requires
            n0 == -((sa - a1) * (b2 - b1) - (sb - b1) * (a2 - a1)),
            c == a1 - a2,
            d == b1 - b2,
            u == sa - a2,
            v == sb - b2,
    ;
    assert(n1 == v * a - u * b) by (nonlinear_arith)
        requires
            n1 == -((sa - a2) * (b0 - b2) - (sb - b2) * (a0 - a2)),
            a == a0 - a2,
            b == b0 - b2,
            u == sa - a2,
            v == sb - b2,
    ;
    assert((a * d - b * c) * u == (u * d - v * c) * a + (v * a - u * b) * c) by (nonlinear_arith);
    assert((a * d - b * c) * v == (u * d - v * c) * b + (v * a - u * b) * d) by (nonlinear_arith);
    assert(total * u == n0 * a + n1 * c);
    assert(total * v == n0 * b + n1 * d);
    assert(total * sa == n0 * a0 + n1 * a1 + n2 * a2) by (nonlinear_arith)
        requires
            total * u == n0 * a + n1 * c,
            u == sa - a2,
            a == a0 - a2,
            c == a1 - a2,
            n2 == total - n0 - n1,
    ;
    assert(total * sb == n0 * b0 + n1 * b1 + n2 * b2) by (nonlinear_arith)
        requires
            total * v == n0 * b + n1 * d,
            v == sb - b2,
            b == b0 - b2,
            d == b1 - b2,
            n2 == total - n0 - n1,
    ;
}

/// A weighted mean with non-negative weights that is attained exactly lies
/// between the least and the greatest of the three values.
proof fn lemma_mean_within_extremes(
    total: int,
    n0: int,
    n1: int,
    n2: int,
    a0: int,
    a1: int,
    a2: int,
    s: int,
)
    requires
        total > 0,
        n0 >= 0,
        n1 >= 0,
        n2 >= 0,
        n0 + n1 + n2 == total,
        total * s == n0 * a0 + n1 * a1 + n2 * a2,
    ensures
        min3(a0, a1, a2) <= s <= max3(a0, a1, a2),
{
    let lo = min3(a0, a1, a2);
    let hi = max3(a0, a1, a2);
    assert(total * lo <= total * s <= total * hi) by (nonlinear_arith)
        requires
            n0 >= 0,
            n1 >= 0,
            n2 >= 0,
            n0 + n1 + n2 == total,
            lo <= a0 <= hi,
            lo <= a1 <= hi,
            lo <= a2 <= hi,
            total * s == n0 * a0 + n1 * a1 + n2 * a2,
    ;
    assert(lo <= s <= hi) by (nonlinear_arith)
        requires
            total > 0,
            total * lo <= total * s <= total * hi,
    ;
}

/// The bounding box loses nothing: a pixel whose centre is accepted lies
/// within the box of a triangle that is not culled.
pub proof fn lemma_covered_pixel_is_in_box(v0: Vertex, v1: Vertex, v2: Vertex, x: int, y: int)
    requires
        !is_culled(signed_area(v0, v1, v2)),
        covers(v0, v1, v2, x, y),
    ensures
        box_min_x(v0, v1, v2) <= x <= box_max_x(v0, v1, v2),
        box_min_y(v0, v1, v2) <= y <= box_max_y(v0, v1, v2),
        -32768 <= x <= 32768,
        -32768 <= y <= 32768,
{
    let p0 = v0.transformed_position;
    let p1 = v1.transformed_position;
    let p2 = v2.transformed_position;
    let w = weights_at(v0, v1, v2, x, y);
    lemma_weighted_mean_of_corners(
        p0.x as int,
        p0.y as int,
        p1.x as int,
        p1.y as int,
        p2.x as int,
        p2.y as int,
        center(x),
        center(y),
    );
    lemma_mean_within_extremes(
        w.total,
        w.n0,
        w.n1,
        w.n2,
        p0.x as int,
        p1.x as int,
        p2.x as int,
        center(x),
    );
    lemma_mean_within_extremes(
        w.total,
        w.n0,
        w.n1,
        w.n2,
        p0.y as int,
        p1.y as int,
        p2.y as int,
        center(y),
    );
    let min_x = min3(p0.x as int, p1.x as int, p2.x as int);
    let max_x = max3(p0.x as int, p1.x as int, p2.x as int);
    let min_y = min3(p0.y as int, p1.y as int, p2.y as int);
    let max_y = max3(p0.y as int, p1.y as int, p2.y as int);
    lemma_quotient_is_floor(min_x, ONE as int);
    lemma_quotient_is_floor(-max_x, ONE as int);
    lemma_quotient_is_floor(min_y, ONE as int);
    lemma_quotient_is_floor(-max_y, ONE as int);
}

/// Every fragment of a triangle is the fragment of a pixel of its bounding
/// box whose centre is accepted, and it records that pixel's column and row.
/// The lemma returns the pixel.
pub proof fn lemma_fragment_origin(v0: Vertex, v1: Vertex, v2: Vertex, i: int) -> (p: (int, int))
    requires
        0 <= i < triangle_fragments(v0, v1, v2).len(),
    ensures
        !is_culled(signed_area(v0, v1, v2)),
        covers(v0, v1, v2, p.0, p.1),
        box_min_x(v0, v1, v2) <= p.0 <= box_max_x(v0, v1, v2),
        box_min_y(v0, v1, v2) <= p.1 <= box_max_y(v0, v1, v2),
        triangle_fragments(v0, v1, v2)[i] == fragment_at(v0, v1, v2, p.0, p.1),
        triangle_fragments(v0, v1, v2)[i].x == p.0,
        triangle_fragments(v0, v1, v2)[i].y == p.1,
{
    let p = lemma_span_fragment_origin(
        v0,
        v1,
        v2,
        box_min_y(v0, v1, v2),
        box_max_y(v0, v1, v2) + 1,
        box_min_x(v0, v1, v2),
        box_max_x(v0, v1, v2) + 1,
        i,
    );
    lemma_covered_pixel_is_in_box(v0, v1, v2, p.0, p.1);
    p
}

/// Every pixel whose centre lies in the closed triangle has its fragment
/// among those of a triangle that is not culled. The lemma returns the
/// fragment's place.
pub proof fn lemma_covered_pixel_has_fragment(
    v0: Vertex,
    v1: Vertex,
    v2: Vertex,
    x: int,
    y: int,
) -> (i: int)
    requires
        !is_culled(signed_area(v0, v1, v2)),
        covers(v0, v1, v2, x, y),
    ensures
        0 <= i < triangle_fragments(v0, v1, v2).len(),
        triangle_fragments(v0, v1, v2)[i] == fragment_at(v0, v1, v2, x, y),
{
    lemma_covered_pixel_is_in_box(v0, v1, v2, x, y);
    lemma_span_holds_covered_pixel(
        v0,
        v1,
        v2,
        box_min_y(v0, v1, v2),
        box_max_y(v0, v1, v2) + 1,
        box_min_x(v0, v1, v2),
        box_max_x(v0, v1, v2) + 1,
        x,
        y,
    )
}

/// Within a row, fragments stand from left to right. The lemma returns the
/// columns of the two fragments.
pub proof fn lemma_row_is_ordered(
    v0: Vertex,
    v1: Vertex,
    v2: Vertex,
    y: int,
    x_lo: int,
    x_end: int,
    i: int,
    j: int,
) -> (xs: (int, int))
    requires
        0 <= i < j < row_fragments(v0, v1, v2, y, x_lo, x_end).len(),
    ensures
        x_lo <= xs.0 < xs.1 < x_end,
        covers(v0, v1, v2, xs.0, y),
        covers(v0, v1, v2, xs.1, y),
        row_fragments(v0, v1, v2, y, x_lo, x_end)[i] == fragment_at(v0, v1, v2, xs.0, y),
        row_fragments(v0, v1, v2, y, x_lo, x_end)[j] == fragment_at(v0, v1, v2, xs.1, y),
    decreases x_end - x_lo,
{
    let rest = row_fragments(v0, v1, v2, y, x_lo, x_end - 1);
    if x_end <= x_lo {
        (x_lo, x_lo)
    } else if covers(v0, v1, v2, x_end - 1, y) && j == rest.len() {
        let x = lemma_row_fragment_origin(v0, v1, v2, y, x_lo, x_end - 1, i);
        (x, x_end - 1)
    } else {
        lemma_row_is_ordered(v0, v1, v2, y, x_lo, x_end - 1, i, j)
    }
}

/// Within a span of rows, fragments stand row by row and from left to right
/// within a row. The lemma returns the pixels of the two fragments.
pub proof fn lemma_span_is_ordered(
    v0: Vertex,
    v1: Vertex,
    v2: Vertex,
    y_lo: int,
    y_end: int,
    x_lo: int,
    x_end: int,
    i: int,
    j: int,
) -> (ps: ((int, int), (int, int)))
    requires
        0 <= i < j < span_fragments(v0, v1, v2, y_lo, y_end, x_lo, x_end).len(),
    ensures
        x_lo <= ps.0.0 < x_end,
        x_lo <= ps.1.0 < x_end,
        y_lo <= ps.0.1 <= ps.1.1 < y_end,
        ps.0.1 == ps.1.1 ==> ps.0.0 < ps.1.0,
        covers(v0, v1, v2, ps.0.0, ps.0.1),
        covers(v0, v1, v2, ps.1.0, ps.1.1),
        span_fragments(v0, v1, v2, y_lo, y_end, x_lo, x_end)[i] == fragment_at(
            v0,
            v1,
            v2,
            ps.0.0,
            ps.0.1,
        ),
        span_fragments(v0, v1, v2, y_lo, y_end, x_lo, x_end)[j] == fragment_at(
            v0,
            v1,
            v2,
            ps.1.0,
            ps.1.1,
        ),
    decreases y_end - y_lo,
{
    if y_end <= y_lo {
        ((x_lo, y_lo), (x_lo, y_lo))
    } else {
        let above = span_fragments(v0, v1, v2, y_lo, y_end - 1, x_lo, x_end);
        if j < above.len() {
            lemma_span_is_ordered(v0, v1, v2, y_lo, y_end - 1, x_lo, x_end, i, j)
        } else if i < above.len() {
            let first = lemma_span_fragment_origin(v0, v1, v2, y_lo, y_end - 1, x_lo, x_end, i);
            let x = lemma_row_fragment_origin(v0, v1, v2, y_end - 1, x_lo, x_end, j - above.len());
            (first, (x, y_end - 1))
        } else {
            let xs = lemma_row_is_ordered(
                v0,
                v1,
                v2,
                y_end - 1,
                x_lo,
                x_end,
                i - above.len(),
                j - above.len(),
            );
            ((xs.0, y_end - 1), (xs.1, y_end - 1))
        }
    }
}

/// No pixel gets two fragments from one triangle: fragments come in scan
/// order, a later one in a lower row or further right in the same row.
pub proof fn lemma_fragments_in_scan_order(v0: Vertex, v1: Vertex, v2: Vertex, i: int, j: int)
    requires
        0 <= i < j < triangle_fragments(v0, v1, v2).len(),
    ensures
        ({
            let a = triangle_fragments(v0, v1, v2)[i];
            let b = triangle_fragments(v0, v1, v2)[j];
            a.y < b.y || (a.y == b.y && a.x < b.x)
        }),
{
    let ps = lemma_span_is_ordered(
        v0,
        v1,
        v2,
        box_min_y(v0, v1, v2),
        box_max_y(v0, v1, v2) + 1,
        box_min_x(v0, v1, v2),
        box_max_x(v0, v1, v2) + 1,
        i,
        j,
    );
    lemma_covered_pixel_is_in_box(v0, v1, v2, ps.0.0, ps.0.1);
    lemma_covered_pixel_is_in_box(v0, v1, v2, ps.1.0, ps.1.1);
}

/// Blends three attribute values by the weights `n_i / total`.
fn interpolate(a0: i32, a1: i32, a2: i32, n0: i128, n1: i128, n2: i128, total: i128) -> (r: i32)
    requires
        n0 >= 0,
        n1 >= 0,
        n2 >= 0,
        n0 + n1 + n2 == total,
        0 < total <= EDGE_LIMIT,
    ensures
        r as int == (Barycentric {
            n0: n0 as int,
            n1: n1 as int,
            n2: n2 as int,
            total: total as int,
        }).blend(a0 as int, a1 as int, a2 as int),
{
    proof {
        lemma_product_bound(a0 as int, n0 as int, 0x8000_0000, EDGE_LIMIT as int);
        lemma_product_bound(a1 as int, n1 as int, 0x8000_0000, EDGE_LIMIT as int);
        lemma_product_bound(a2 as int, n2 as int, 0x8000_0000, EDGE_LIMIT as int);
        lemma_blend_bounds(
            Barycentric { n0: n0 as int, n1: n1 as int, n2: n2 as int, total: total as int },
            a0 as int,
            a1 as int,
            a2 as int,
        );
    }
    let sum: i128 = a0 as i128 * n0 + a1 as i128 * n1 + a2 as i128 * n2;
    let mean: i128 = div_floor(sum, total);
    mean as i32
}

/// The pixel that holds a raw coordinate.
fn floor_to_pixel(raw: i32) -> (p: i64)
    ensures
        p as int == pixel_floor(raw as int),
        -32768 <= p <= 32767,
        p * ONE <= raw < (p + 1) * ONE,
{
    proof {
        lemma_quotient_is_floor(raw as int, ONE as int);
    }
    div_floor(raw as i128, 65536) as i64
}

/// The raw coordinate rounded up to a whole pixel.
fn ceil_to_pixel(raw: i32) -> (p: i64)
    ensures
        p as int == pixel_ceil(raw as int),
        -32768 <= p <= 32768,
        (p - 1) * ONE < raw <= p * ONE,
{
    proof {
        lemma_quotient_is_floor(-(raw as int), ONE as int);
    }
    (-div_floor(-(raw as i128), 65536)) as i64
}

fn least(a: i32, b: i32, c: i32) -> (m: i32)
    ensures
        m as int == min3(a as int, b as int, c as int),
{
    if a <= b && a <= c {
        a
    } else if b <= c {
        b
    } else {
        c
    }
}

fn greatest(a: i32, b: i32, c: i32) -> (m: i32)
    ensures
        m as int == max3(a as int, b as int, c as int),
{
    if a >= b && a >= c {
        a
    } else if b >= c {
        b
    } else {
        c
    }
}

/// Rasterises one triangle of transformed vertices.
///
/// A triangle that faces away or has no area gives no fragment. Otherwise
/// every pixel of the bounding box whose centre lies in the closed triangle
/// gives one fragment, with depth and colour interpolated at that centre,
/// row by row from the top and from left to right within a row.
pub fn triangle(v0: &Vertex, v1: &Vertex, v2: &Vertex) -> (frags: Vec<Fragment>)
    ensures
        frags@ == triangle_fragments(*v0, *v1, *v2),
        is_culled(signed_area(*v0, *v1, *v2)) ==> frags@.len() == 0,
{
    let mut frags: Vec<Fragment> = Vec::new();
    let p0 = v0.transformed_position;
    let p1 = v1.transformed_position;
    let p2 = v2.transformed_position;

    let area: i128 = edge(p0.x as i64, p0.y as i64, p1.x as i64, p1.y as i64, p2.x as i64, p2.y as i64);
    let magnitude: i128 = if area < 0 { -area } else { area };
    if area > 0 || magnitude * 1_000_000 < 4_294_967_296 {
        return frags;
    }
    let total: i128 = -area;

    let min_x: i64 = floor_to_pixel(least(p0.x, p1.x, p2.x));
    let max_x: i64 = ceil_to_pixel(greatest(p0.x, p1.x, p2.x));
    let min_y: i64 = floor_to_pixel(least(p0.y, p1.y, p2.y));
    let max_y: i64 = ceil_to_pixel(greatest(p0.y, p1.y, p2.y));

    let mut y: i64 = min_y;
    while y <= max_y
        invariant
            -32768 <= min_x <= 32767,
            -32768 <= max_x <= 32768,
            -32768 <= min_y <= 32767,
            -32768 <= max_y <= 32768,
            min_x <= max_x,
            min_y <= y <= max_y + 1,
            p0 == v0.transformed_position,
            p1 == v1.transformed_position,
            p2 == v2.transformed_position,
            total == -signed_area(*v0, *v1, *v2),
            0 < total <= EDGE_LIMIT,
            frags@ == span_fragments(*v0, *v1, *v2, min_y as int, y as int, min_x as int, max_x + 1),
        decreases max_y + 1 - y,
    {
        let ghost above = frags@;
        let cy: i64 = y * 65536 + 32768;
        let mut x: i64 = min_x;
        while x <= max_x
            invariant
                -32768 <= min_x <= 32767,
                -32768 <= max_x <= 32768,
                -32768 <= y <= 32768,
                cy as int == center(y as int),
                min_x <= x <= max_x + 1,
                p0 == v0.transformed_position,
                p1 == v1.transformed_position,
                p2 == v2.transformed_position,
                total == -signed_area(*v0, *v1, *v2),
                0 < total <= EDGE_LIMIT,
                frags@ == above + row_fragments(*v0, *v1, *v2, y as int, min_x as int, x as int),
            decreases max_x + 1 - x,
        {
            let cx: i64 = x * 65536 + 32768;
            let n0: i128 = -edge(p1.x as i64, p1.y as i64, p2.x as i64, p2.y as i64, cx, cy);
            let n1: i128 = -edge(p2.x as i64, p2.y as i64, p0.x as i64, p0.y as i64, cx, cy);
            let n2: i128 = total - n0 - n1;
            let ghost row = row_fragments(*v0, *v1, *v2, y as int, min_x as int, x as int);
            if n0 >= 0 && n1 >= 0 && n2 >= 0 {
                let depth: i32 = interpolate(p0.z, p1.z, p2.z, n0, n1, n2, total);
                let red: i32 = interpolate(v0.color.x, v1.color.x, v2.color.x, n0, n1, n2, total);
                let green: i32 = interpolate(v0.color.y, v1.color.y, v2.color.y, n0, n1, n2, total);
                let blue: i32 = interpolate(v0.color.z, v1.color.z, v2.color.z, n0, n1, n2, total);
                let fragment = Fragment::new(
                    x as i32,
                    y as i32,
                    Vector3 { x: red, y: green, z: blue },
                    depth,
                );
                frags.push(fragment);
                proof {
                    assert(fragment == fragment_at(*v0, *v1, *v2, x as int, y as int));
                    assert(frags@ == above + row.push(fragment));
                }
            }
            x = x + 1;
        }
        assert(frags@ == span_fragments(
            *v0,
            *v1,
            *v2,
            min_y as int,
            y + 1,
            min_x as int,
            max_x + 1,
        ));
        y = y + 1;
    }
    frags
}

} // verus!
