use vstd::prelude::*;

verus! {

/// An axis-aligned rectangle in pixel coordinates: top left corner, width and
/// height.
#[derive(Clone, Copy, PartialEq, Eq, Structural, Debug)]
pub struct Rect {
    pub x: i32,
    pub y: i32,
    pub width: i32,
    pub height: i32,
}

impl Rect {
    pub fn new(x: i32, y: i32, width: i32, height: i32) -> (r: Rect)
        ensures
            r == (Rect { x, y, width, height }),
    {
        Rect { x, y, width, height }
    }
}

pub open spec fn fits_i32(v: int) -> bool {
    i32::MIN <= v <= i32::MAX
}

/// Integer division by two, rounding toward zero as Rust's `/` does.
pub open spec fn half_toward_zero(v: int) -> int {
    if v >= 0 {
        v / 2
    } else {
        -((-v) / 2)
    }
}

/// The point that the bot aims at in a rectangle: its corner plus half its
/// size, each half rounded toward zero.
pub open spec fn center_of(r: Rect) -> (int, int) {
    (r.x + half_toward_zero(r.width as int), r.y + half_toward_zero(r.height as int))
}

/// `(px, py)` lies in `r`; the right and bottom edges are outside.
pub open spec fn contains_point(r: Rect, px: int, py: int) -> bool {
    r.x <= px < r.x + r.width && r.y <= py < r.y + r.height
}

/// A point lies in a rectangle exactly when it is at or right of the left
/// edge, left of the right edge, at or below the top edge and above the bottom
/// edge; so a rectangle with no width or no height holds no point.
pub proof fn lemma_contains_point(r: Rect, px: int, py: int)
    ensures
        contains_point(r, px, py) <==> (r.x <= px && px < r.x + r.width && r.y <= py && py < r.y + r.height),
        contains_point(r, px, py) ==> r.width > 0 && r.height > 0,
        py >= r.y + r.height ==> !contains_point(r, px, py),
        px >= r.x + r.width ==> !contains_point(r, px, py),
{
}

pub open spec fn min_int(a: int, b: int) -> int {
    if a <= b {
        a
    } else {
        b
    }
}

pub open spec fn max_int(a: int, b: int) -> int {
    if a >= b {
        a
    } else {
        b
    }
}

/// Width of the overlap of `[a, a + aw)` and `[b, b + bw)`, zero if none.
pub open spec fn overlap_len(a: int, aw: int, b: int, bw: int) -> int {
    max_int(min_int(a + aw, b + bw) - max_int(a, b), 0)
}

/// The rectangle's corner and far corner fit in `i32`.
pub open spec fn corners_fit(r: Rect) -> bool {
    fits_i32(r.x + r.width) && fits_i32(r.y + r.height)
}

impl Rect {
    /// The center point of the rectangle, as `center_of` states.
    pub fn center(&self) -> (c: (i32, i32))
        requires
            fits_i32(center_of(*self).0),
            fits_i32(center_of(*self).1),
        ensures
            c.0 == center_of(*self).0,
            c.1 == center_of(*self).1,
    {
        (self.x + self.width / 2, self.y + self.height / 2)
    }

    /// Whether the point lies in the rectangle (right and bottom edges excluded).
    pub fn contains(&self, px: i32, py: i32) -> (r: bool)
        requires
            corners_fit(*self),
        ensures
            r == contains_point(*self, px as int, py as int),
            r == (self.x <= px && px < self.x + self.width && self.y <= py && py < self.y + self.height),
    {
        self.x <= px && px < self.x + self.width && self.y <= py && py < self.y + self.height
    }

    /// Width times height.
    pub fn area(&self) -> (a: i32)
        requires
            fits_i32(self.width * self.height),
        ensures
            a == self.width * self.height,
    {
        self.width * self.height
    }
}

/// Whether the rectangle's center point can be computed without overflow.
pub fn fits_center(r: Rect) -> (ok: bool)
    ensures
        ok == (fits_i32(center_of(r).0) && fits_i32(center_of(r).1)),
{
    let cx = r.x as i64 + (r.width / 2) as i64;
    let cy = r.y as i64 + (r.height / 2) as i64;
    -0x8000_0000 <= cx && cx <= 0x7FFF_FFFF && -0x8000_0000 <= cy && cy <= 0x7FFF_FFFF
}

/// Area of the overlap of two rectangles, and of their union.
pub open spec fn intersection_area(a: Rect, b: Rect) -> int {
    overlap_len(a.x as int, a.width as int, b.x as int, b.width as int) * overlap_len(
        a.y as int,
        a.height as int,
        b.y as int,
        b.height as int,
    )
}

pub open spec fn union_area(a: Rect, b: Rect) -> int {
    a.width * a.height + b.width * b.height - intersection_area(a, b)
}

/// Both areas and the sums and differences that lead to them fit in `i32`.
pub open spec fn overlap_fits(a: Rect, b: Rect) -> bool {
    &&& corners_fit(a)
    &&& corners_fit(b)
    &&& fits_i32(min_int(a.x + a.width, b.x + b.width) - max_int(a.x as int, b.x as int))
    &&& fits_i32(min_int(a.y + a.height, b.y + b.height) - max_int(a.y as int, b.y as int))
    &&& fits_i32(intersection_area(a, b))
    &&& fits_i32(a.width * a.height)
    &&& fits_i32(b.width * b.height)
    &&& fits_i32(a.width * a.height + b.width * b.height)
    &&& fits_i32(union_area(a, b))
}

/// The intersection and union areas of two rectangles, from which the
/// evaluation's intersection over union is the quotient (zero when the union
/// is empty).
pub fn overlap_areas(a: Rect, b: Rect) -> (r: (i32, i32))
    requires
        overlap_fits(a, b),
    ensures
        r.0 == intersection_area(a, b),
        r.1 == union_area(a, b),
{
    let right = if a.x + a.width <= b.x + b.width { a.x + a.width } else { b.x + b.width };
    let left = if a.x >= b.x { a.x } else { b.x };
    let bottom = if a.y + a.height <= b.y + b.height { a.y + a.height } else { b.y + b.height };
    let top = if a.y >= b.y { a.y } else { b.y };
    let iw = if right - left >= 0 { right - left } else { 0 };
    let ih = if bottom - top >= 0 { bottom - top } else { 0 };
    let intersection = iw * ih;
    let union = a.area() + b.area() - intersection;
    (intersection, union)
}

proof fn lemma_i32_product_bound(p: int, q: int)
    requires
        fits_i32(p),
        fits_i32(q),
    ensures
        -0x4000_0000_0000_0000 <= p * q <= 0x4000_0000_0000_0000,
{
    assert(-0x4000_0000_0000_0000 <= p * q <= 0x4000_0000_0000_0000) by (nonlinear_arith)
        requires
            -0x8000_0000 <= p <= 0x7FFF_FFFF,
            -0x8000_0000 <= q <= 0x7FFF_FFFF,
    ;
}

fn fits32(v: i128) -> (ok: bool)
    ensures
        ok == fits_i32(v as int),
{
    -0x8000_0000 <= v && v <= 0x7FFF_FFFF
}

/// Whether the rectangle's right and bottom edges fit in `i32`.
pub fn check_corners(r: Rect) -> (ok: bool)
    ensures
        ok == corners_fit(r),
{
    fits32(r.x as i128 + r.width as i128) && fits32(r.y as i128 + r.height as i128)
}

/// Whether `overlap_areas` can compute the areas of these two rectangles.
pub fn check_overlap(a: Rect, b: Rect) -> (ok: bool)
    ensures
        ok == overlap_fits(a, b),
{
    let ar = a.x as i128 + a.width as i128;
    let br = b.x as i128 + b.width as i128;
    let ab = a.y as i128 + a.height as i128;
    let bb = b.y as i128 + b.height as i128;
    let right = if ar <= br { ar } else { br };
    let left = if a.x >= b.x { a.x as i128 } else { b.x as i128 };
    let bottom = if ab <= bb { ab } else { bb };
    let top = if a.y >= b.y { a.y as i128 } else { b.y as i128 };
    let iw = if right - left >= 0 { right - left } else { 0 };
    let ih = if bottom - top >= 0 { bottom - top } else { 0 };
    assert(0 <= iw <= 0x3_0000_0000 && 0 <= ih <= 0x3_0000_0000);
    assert(iw * ih <= 0x3_0000_0000 * 0x3_0000_0000) by (nonlinear_arith)
        requires
            0 <= iw <= 0x3_0000_0000,
            0 <= ih <= 0x3_0000_0000,
    ;
    let inter = iw * ih;
    proof {
        lemma_i32_product_bound(a.width as int, a.height as int);
        lemma_i32_product_bound(b.width as int, b.height as int);
    }
    let a_area = a.width as i128 * a.height as i128;
    let b_area = b.width as i128 * b.height as i128;
    fits32(ar) && fits32(ab) && fits32(br) && fits32(bb) && fits32(right - left) && fits32(bottom - top)
        && fits32(inter) && fits32(a_area) && fits32(b_area) && fits32(a_area + b_area)
        && fits32(a_area + b_area - inter)
}

proof fn lemma_product_monotone(p: int, q: int, pp: int, qq: int)
    requires
        0 <= p <= pp,
        0 <= q <= qq,
    ensures
        0 <= p * q <= pp * qq,
{
    assert(0 <= p * q <= pp * qq) by (nonlinear_arith)
        requires
            0 <= p <= pp,
            0 <= q <= qq,
    ;
}

/// For rectangles of nonnegative size the overlap does not depend on the
/// order of the two, is no larger than either rectangle and no larger than
/// their union, so the intersection over union lies between 0 and 1.
pub proof fn lemma_overlap_bounds(a: Rect, b: Rect)
    requires
        a.width >= 0,
        a.height >= 0,
        b.width >= 0,
        b.height >= 0,
    ensures
        intersection_area(a, b) == intersection_area(b, a),
        union_area(a, b) == union_area(b, a),
        0 <= intersection_area(a, b) <= a.width * a.height,
        intersection_area(a, b) <= b.width * b.height,
        intersection_area(a, b) <= union_area(a, b),
{
    let w = overlap_len(a.x as int, a.width as int, b.x as int, b.width as int);
    let h = overlap_len(a.y as int, a.height as int, b.y as int, b.height as int);
    assert(w == overlap_len(b.x as int, b.width as int, a.x as int, a.width as int));
    assert(h == overlap_len(b.y as int, b.height as int, a.y as int, a.height as int));
    assert(0 <= w <= a.width && w <= b.width);
    assert(0 <= h <= a.height && h <= b.height);
    lemma_product_monotone(w, h, a.width as int, a.height as int);
    lemma_product_monotone(w, h, b.width as int, b.height as int);
    assert(w * h == h * w) by (nonlinear_arith);
}

} // verus!
