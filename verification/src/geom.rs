use vstd::prelude::*;

verus! {

/// Smallest and largest values of an `i32`, as mathematical integers.
pub open spec fn in_i32(v: int) -> bool {
    i32::MIN <= v <= i32::MAX
}

/// `v` read as an unsigned 32-bit value (two's complement reinterpretation).
pub open spec fn as_u32_int(v: i32) -> int {
    if v >= 0 {
        v as int
    } else {
        v + 0x1_0000_0000
    }
}

/// The larger of two integers.
pub open spec fn max_int(a: int, b: int) -> int {
    if a >= b { a } else { b }
}

/// The smaller of two integers.
pub open spec fn min_int(a: int, b: int) -> int {
    if a <= b { a } else { b }
}

/// A point in logical (Wayland) coordinates.
#[derive(Debug, Clone, Copy, PartialEq, Eq, Structural, Default)]
pub struct Point {
    pub x: i32,
    pub y: i32,
}

impl Point {
    pub fn new(x: i32, y: i32) -> (p: Self)
        ensures
            p.x == x,
            p.y == y,
    {
        Self { x, y }
    }
}

impl std::ops::Add<(i32, i32)> for Point {
    type Output = Self;

    fn add(self, rhs: (i32, i32)) -> (r: Self) {
        Self { x: self.x + rhs.0, y: self.y + rhs.1 }
    }
}

impl vstd::std_specs::ops::AddSpecImpl<(i32, i32)> for Point {
    open spec fn obeys_add_spec() -> bool {
        true
    }

    /// The sum is defined where both coordinates stay within `i32`.
    open spec fn add_req(self, rhs: (i32, i32)) -> bool {
        in_i32(self.x + rhs.0) && in_i32(self.y + rhs.1)
    }

    open spec fn add_spec(self, rhs: (i32, i32)) -> Point {
        Point { x: (self.x + rhs.0) as i32, y: (self.y + rhs.1) as i32 }
    }
}

/// A rectangle in logical (Wayland) coordinates.
///
/// Width and height are always non-negative after [`Rect::normalize`].
#[derive(Debug, Clone, Copy, PartialEq, Eq, Structural, Default)]
pub struct Rect {
    pub x: i32,
    pub y: i32,
    pub w: i32,
    pub h: i32,
}

impl Rect {
    /// Exclusive right edge, as an integer.
    pub open spec fn spec_right(self) -> int {
        self.x + self.w
    }

    /// Exclusive bottom edge, as an integer.
    pub open spec fn spec_bottom(self) -> int {
        self.y + self.h
    }

    /// Both far edges are representable as `i32`.
    pub open spec fn edges_fit(self) -> bool {
        in_i32(self.spec_right()) && in_i32(self.spec_bottom())
    }

    /// Half-open membership: left/top edges inclusive, right/bottom exclusive.
    pub open spec fn spec_contains(self, p: Point) -> bool {
        self.x <= p.x < self.spec_right() && self.y <= p.y < self.spec_bottom()
    }

    /// A rect with non-positive width or height holds no point.
    pub open spec fn spec_is_empty(self) -> bool {
        self.w <= 0 || self.h <= 0
    }

    /// Width and height are non-negative.
    pub open spec fn is_normalized(self) -> bool {
        self.w >= 0 && self.h >= 0
    }

    /// The rect built from integer coordinates (all assumed to fit `i32`).
    pub open spec fn from_ints(x: int, y: int, w: int, h: int) -> Rect {
        Rect { x: x as i32, y: y as i32, w: w as i32, h: h as i32 }
    }

    /// Normalizing flips a negative extent so the origin becomes the other corner.
    pub open spec fn normalize_ok(self) -> bool {
        &&& (self.w < 0 ==> in_i32(self.x + self.w) && self.w > i32::MIN)
        &&& (self.h < 0 ==> in_i32(self.y + self.h) && self.h > i32::MIN)
    }

    pub open spec fn spec_normalize(self) -> Rect {
        Rect::from_ints(
            if self.w < 0 { self.x + self.w } else { self.x as int },
            if self.h < 0 { self.y + self.h } else { self.y as int },
            if self.w < 0 { -self.w } else { self.w as int },
            if self.h < 0 { -self.h } else { self.h as int },
        )
    }

    /// The overlap of two rects, if it has positive area.
    pub open spec fn spec_intersect(self, other: Rect) -> Option<Rect> {
        let x = max_int(self.x as int, other.x as int);
        let y = max_int(self.y as int, other.y as int);
        let right = min_int(self.spec_right(), other.spec_right());
        let bottom = min_int(self.spec_bottom(), other.spec_bottom());
        if right <= x || bottom <= y {
            None
        } else {
            Some(Rect::from_ints(x, y, right - x, bottom - y))
        }
    }

    pub open spec fn spec_translate(self, dx: int, dy: int) -> Rect {
        Rect::from_ints(self.x + dx, self.y + dy, self.w as int, self.h as int)
    }

    /// The part of `self` within `bounds`; where they do not overlap, an
    /// empty rect whose corner is moved onto the bounds (the left or top
    /// edge, or the right or bottom edge when `self` lies past it).
    pub open spec fn spec_clamp(self, bounds: Rect) -> Rect {
        let x = min_int(max_int(self.x as int, bounds.x as int), max_int(bounds.x as int, bounds.spec_right()));
        let y = min_int(max_int(self.y as int, bounds.y as int), max_int(bounds.y as int, bounds.spec_bottom()));
        let right = min_int(self.spec_right(), bounds.spec_right());
        let bottom = min_int(self.spec_bottom(), bounds.spec_bottom());
        Rect::from_ints(x, y, max_int(right - x, 0), max_int(bottom - y, 0))
    }

    pub fn new(x: i32, y: i32, w: i32, h: i32) -> (r: Self)
        ensures
            r == (Rect { x, y, w, h }),
    {
        Self { x, y, w, h }
    }

    /// Whether [`Rect::normalize`] can flip this rect within `i32`.
    pub fn can_normalize(&self) -> (b: bool)
        ensures
            b == self.normalize_ok(),
    {
        let okx = self.w >= 0 || (self.w > i32::MIN && fits_i32(self.x as i64 + self.w as i64));
        let oky = self.h >= 0 || (self.h > i32::MIN && fits_i32(self.y as i64 + self.h as i64));
        okx && oky
    }

    /// Ensure width and height are non-negative by flipping the origin.
    pub fn normalize(self) -> (r: Self)
        requires
            self.normalize_ok(),
        ensures
            r == self.spec_normalize(),
            r.is_normalized(),
    {
        let mut r = self;
        if r.w < 0 {
            r.x = r.x + r.w;
            r.w = -r.w;
        }
        if r.h < 0 {
            r.y = r.y + r.h;
            r.h = -r.h;
        }
        r
    }

    pub fn left(&self) -> (v: i32)
        ensures
            v == self.x,
    {
        self.x
    }

    pub fn top(&self) -> (v: i32)
        ensures
            v == self.y,
    {
        self.y
    }

    pub fn right(&self) -> (v: i32)
        requires
            in_i32(self.spec_right()),
        ensures
            v == self.spec_right(),
    {
        self.x + self.w
    }

    pub fn bottom(&self) -> (v: i32)
        requires
            in_i32(self.spec_bottom()),
        ensures
            v == self.spec_bottom(),
    {
        self.y + self.h
    }

    pub fn contains(&self, p: Point) -> (b: bool)
        ensures
            b == self.spec_contains(p),
    {
        let right = self.x as i64 + self.w as i64;
        let bottom = self.y as i64 + self.h as i64;
        p.x >= self.x && (p.x as i64) < right && p.y >= self.y && (p.y as i64) < bottom
    }

    /// Returns the intersection of two rectangles, or None if they don't overlap.
    pub fn intersect(&self, other: &Rect) -> (r: Option<Rect>)
        ensures
            r == self.spec_intersect(*other),
            r matches Some(i) ==> !i.spec_is_empty(),
    {
        let x: i64 = if self.x >= other.x { self.x as i64 } else { other.x as i64 };
        let y: i64 = if self.y >= other.y { self.y as i64 } else { other.y as i64 };
        let sr = self.x as i64 + self.w as i64;
        let orr = other.x as i64 + other.w as i64;
        let sb = self.y as i64 + self.h as i64;
        let ob = other.y as i64 + other.h as i64;
        let right: i64 = if sr <= orr { sr } else { orr };
        let bottom: i64 = if sb <= ob { sb } else { ob };
        if right <= x || bottom <= y {
            return None;
        }
        Some(Rect { x: x as i32, y: y as i32, w: (right - x) as i32, h: (bottom - y) as i32 })
    }

    pub fn translate(&self, dx: i32, dy: i32) -> (r: Rect)
        requires
            in_i32(self.x + dx),
            in_i32(self.y + dy),
        ensures
            r == self.spec_translate(dx as int, dy as int),
    {
        Rect { x: self.x + dx, y: self.y + dy, w: self.w, h: self.h }
    }

    /// Clamp so the rect stays within `bounds`.
    pub fn clamp(&self, bounds: &Rect) -> (r: Rect)
        ensures
            r == self.spec_clamp(*bounds),
            r.is_normalized(),
            bounds.w >= 0 ==> bounds.x <= r.x && r.x + r.w <= bounds.x + bounds.w,
            bounds.h >= 0 ==> bounds.y <= r.y && r.y + r.h <= bounds.y + bounds.h,
    {
        let br = bounds.x as i64 + bounds.w as i64;
        let bb = bounds.y as i64 + bounds.h as i64;
        let x0: i64 = if self.x >= bounds.x { self.x as i64 } else { bounds.x as i64 };
        let y0: i64 = if self.y >= bounds.y { self.y as i64 } else { bounds.y as i64 };
        let xmax: i64 = if br >= bounds.x as i64 { br } else { bounds.x as i64 };
        let ymax: i64 = if bb >= bounds.y as i64 { bb } else { bounds.y as i64 };
        let x: i64 = if x0 <= xmax { x0 } else { xmax };
        let y: i64 = if y0 <= ymax { y0 } else { ymax };
        let sr = self.x as i64 + self.w as i64;
        let sb = self.y as i64 + self.h as i64;
        let right: i64 = if sr <= br { sr } else { br };
        let bottom: i64 = if sb <= bb { sb } else { bb };
        let w: i64 = if right - x >= 0 { right - x } else { 0 };
        let h: i64 = if bottom - y >= 0 { bottom - y } else { 0 };
        Rect { x: x as i32, y: y as i32, w: w as i32, h: h as i32 }
    }

    pub fn is_empty(&self) -> (b: bool)
        ensures
            b == self.spec_is_empty(),
    {
        self.w <= 0 || self.h <= 0
    }
}

/// `v` fits in `i32`.
pub fn fits_i32(v: i64) -> (b: bool)
    ensures
        b == in_i32(v as int),
{
    i32::MIN as i64 <= v && v <= i32::MAX as i64
}

/// Leftmost left edge among the first `n` rects (`n >= 1`).
pub open spec fn span_left(rs: Seq<Rect>, n: nat) -> int
    decreases n,
{
    if n <= 1 {
        rs[0].x as int
    } else {
        min_int(span_left(rs, (n - 1) as nat), rs[n - 1].x as int)
    }
}

/// Topmost top edge among the first `n` rects (`n >= 1`).
pub open spec fn span_top(rs: Seq<Rect>, n: nat) -> int
    decreases n,
{
    if n <= 1 {
        rs[0].y as int
    } else {
        min_int(span_top(rs, (n - 1) as nat), rs[n - 1].y as int)
    }
}

/// Rightmost right edge among the first `n` rects (`n >= 1`).
pub open spec fn span_right(rs: Seq<Rect>, n: nat) -> int
    decreases n,
{
    if n <= 1 {
        rs[0].spec_right()
    } else {
        max_int(span_right(rs, (n - 1) as nat), rs[n - 1].spec_right())
    }
}

/// Lowest bottom edge among the first `n` rects (`n >= 1`).
pub open spec fn span_bottom(rs: Seq<Rect>, n: nat) -> int
    decreases n,
{
    if n <= 1 {
        rs[0].spec_bottom()
    } else {
        max_int(span_bottom(rs, (n - 1) as nat), rs[n - 1].spec_bottom())
    }
}

/// The smallest rect holding all of `rs`, if there is one and its width and
/// height fit `i32`.
pub open spec fn spec_bounding_rect(rs: Seq<Rect>) -> Option<Rect> {
    let n = rs.len();
    let l = span_left(rs, n);
    let t = span_top(rs, n);
    let r = span_right(rs, n);
    let b = span_bottom(rs, n);
    if n == 0 || !in_i32(r - l) || !in_i32(b - t) {
        None
    } else {
        Some(Rect::from_ints(l, t, r - l, b - t))
    }
}

/// Every one of the first `n` rects lies within the span of their edges.
pub proof fn lemma_span_holds_all(rs: Seq<Rect>, n: nat)
    requires
        1 <= n <= rs.len(),
    ensures
        forall|i: int|
            0 <= i < n ==> {
                &&& span_left(rs, n) <= #[trigger] rs[i].x
                &&& span_top(rs, n) <= rs[i].y
                &&& rs[i].spec_right() <= span_right(rs, n)
                &&& rs[i].spec_bottom() <= span_bottom(rs, n)
            },
    decreases n,
{
    if n > 1 {
        lemma_span_holds_all(rs, (n - 1) as nat);
    }
}

/// The union of the output rects: the smallest rect that holds each of
/// them, or `None` when there are none or its size does not fit `i32`.
pub fn bounding_rect(rects: &[Rect]) -> (r: Option<Rect>)
    ensures
        r == spec_bounding_rect(rects@),
        r matches Some(b) ==> forall|i: int|
            0 <= i < rects@.len() ==> {
                &&& b.x <= #[trigger] rects@[i].x
                &&& b.y <= rects@[i].y
                &&& rects@[i].spec_right() <= b.spec_right()
                &&& rects@[i].spec_bottom() <= b.spec_bottom()
            },
{
    if rects.len() == 0 {
        return None;
    }
    let mut l: i32 = rects[0].x;
    let mut t: i32 = rects[0].y;
    let mut r: i64 = rects[0].x as i64 + rects[0].w as i64;
    let mut b: i64 = rects[0].y as i64 + rects[0].h as i64;
    let mut i: usize = 1;
    while i < rects.len()
        invariant
            1 <= i <= rects@.len(),
            l == span_left(rects@, i as nat),
            t == span_top(rects@, i as nat),
            r == span_right(rects@, i as nat),
            b == span_bottom(rects@, i as nat),
            i32::MIN + i32::MIN <= r <= i32::MAX + i32::MAX,
            i32::MIN + i32::MIN <= b <= i32::MAX + i32::MAX,
        decreases rects@.len() - i,
    {
        let q = rects[i];
        if q.x < l {
            l = q.x;
        }
        if q.y < t {
            t = q.y;
        }
        let qr = q.x as i64 + q.w as i64;
        let qb = q.y as i64 + q.h as i64;
        if qr > r {
            r = qr;
        }
        if qb > b {
            b = qb;
        }
        i = i + 1;
    }
    proof {
        lemma_span_holds_all(rects@, rects@.len());
    }
    let w = r - l as i64;
    let h = b - t as i64;
    if !fits_i32(w) || !fits_i32(h) {
        return None;
    }
    Some(Rect::new(l, t, w as i32, h as i32))
}

/// Number of fixed-point steps per logical pixel in pointer positions.
pub const FIXED_STEPS: i32 = 256;

/// Truncation toward zero of a fixed-point value to whole logical pixels.
pub open spec fn trunc_px(v: int) -> int {
    if v >= 0 {
        v / 256
    } else {
        -((-v) / 256)
    }
}

/// A pointer position in Wayland fixed-point units (1/256 logical pixel),
/// exactly as the compositor reports it.
#[derive(Debug, Clone, Copy, PartialEq, Eq, Structural, Default)]
pub struct PointerPos {
    pub x: i32,
    pub y: i32,
}

/// Converts a fixed-point value to whole pixels, truncating toward zero.
pub fn fixed_to_px(v: i64) -> (r: i64)
    requires
        -0x1_0000_0000_0000 <= v <= 0x1_0000_0000_0000,
    ensures
        r == trunc_px(v as int),
{
    if v >= 0 {
        v / 256
    } else {
        -((-v) / 256)
    }
}

impl PointerPos {
    /// The position `(x, y)` given in whole logical pixels.
    pub fn from_pixels(x: i32, y: i32) -> (p: Self)
        requires
            in_i32(x * 256),
            in_i32(y * 256),
        ensures
            p.x == x * 256,
            p.y == y * 256,
    {
        PointerPos { x: x * 256, y: y * 256 }
    }

    /// The pixel this position falls in, truncating each coordinate toward zero.
    pub open spec fn spec_point(self) -> Point {
        Point { x: trunc_px(self.x as int) as i32, y: trunc_px(self.y as int) as i32 }
    }

    pub fn to_point(&self) -> (p: Point)
        ensures
            p == self.spec_point(),
            p.x == trunc_px(self.x as int),
            p.y == trunc_px(self.y as int),
    {
        let x = fixed_to_px(self.x as i64);
        let y = fixed_to_px(self.y as i64);
        Point { x: x as i32, y: y as i32 }
    }
}

/// Whole-pixel distance from `from` to `to`, truncated toward zero.
pub fn px_delta(from: i32, to: i32) -> (d: i32)
    ensures
        d == trunc_px(to - from),
{
    let d = fixed_to_px(to as i64 - from as i64);
    d as i32
}

/// Intersection does not depend on the order of its operands.
pub proof fn lemma_intersect_commutes(a: Rect, b: Rect)
    ensures
        a.spec_intersect(b) == b.spec_intersect(a),
{
}

/// A point lies in the intersection of two rects exactly when it lies in both.
pub proof fn lemma_intersect_membership(a: Rect, b: Rect, p: Point)
    ensures
        (a.spec_contains(p) && b.spec_contains(p)) <==> (a.spec_intersect(b) is Some
            && a.spec_intersect(b)->0.spec_contains(p)),
{
    let x = max_int(a.x as int, b.x as int);
    let y = max_int(a.y as int, b.y as int);
    let right = min_int(a.spec_right(), b.spec_right());
    let bottom = min_int(a.spec_bottom(), b.spec_bottom());
    if right > x && bottom > y {
        assert(right - x <= a.w);
        assert(bottom - y <= a.h);
        let r = a.spec_intersect(b)->0;
        assert(r.x == x && r.y == y && r.w == right - x && r.h == bottom - y);
    }
}

/// Normalizing twice is the same as normalizing once.
pub proof fn lemma_normalize_idempotent(r: Rect)
    requires
        r.normalize_ok(),
    ensures
        r.spec_normalize().normalize_ok(),
        r.spec_normalize().spec_normalize() == r.spec_normalize(),
{
}

/// Normalizing keeps the two vertical and the two horizontal edge lines:
/// the normalized rect runs from the smaller to the larger of them.
pub proof fn lemma_normalize_keeps_edges(r: Rect)
    requires
        r.normalize_ok(),
    ensures
        r.spec_normalize().x == min_int(r.x as int, r.spec_right()),
        r.spec_normalize().spec_right() == max_int(r.x as int, r.spec_right()),
        r.spec_normalize().y == min_int(r.y as int, r.spec_bottom()),
        r.spec_normalize().spec_bottom() == max_int(r.y as int, r.spec_bottom()),
{
}

/// Clamping agrees with intersection: it is the intersection when the two
/// rects overlap, and an empty rect otherwise; the clamp result (empty or
/// not) lies within bounds of non-negative size.
pub proof fn lemma_clamp_is_intersection(r: Rect, bounds: Rect)
    ensures
        r.spec_intersect(bounds) matches Some(i) ==> r.spec_clamp(bounds) == i,
        r.spec_intersect(bounds) is None ==> r.spec_clamp(bounds).spec_is_empty(),
        bounds.w >= 0 ==> {
            let c = r.spec_clamp(bounds);
            bounds.x <= c.x && c.spec_right() <= bounds.spec_right()
        },
        bounds.h >= 0 ==> {
            let c = r.spec_clamp(bounds);
            bounds.y <= c.y && c.spec_bottom() <= bounds.spec_bottom()
        },
{
    let x = min_int(max_int(r.x as int, bounds.x as int), max_int(bounds.x as int, bounds.spec_right()));
    let y = min_int(max_int(r.y as int, bounds.y as int), max_int(bounds.y as int, bounds.spec_bottom()));
    let right = min_int(r.spec_right(), bounds.spec_right());
    let bottom = min_int(r.spec_bottom(), bounds.spec_bottom());
    if right - x > 0 {
        assert(right - x <= r.w);
    }
    if bottom - y > 0 {
        assert(bottom - y <= r.h);
    }
}

/// Translating a rect translates the set of points it contains.
pub proof fn lemma_translate_membership(r: Rect, dx: int, dy: int, p: Point)
    requires
        in_i32(r.x + dx),
        in_i32(r.y + dy),
        in_i32(p.x + dx),
        in_i32(p.y + dy),
    ensures
        r.spec_contains(p) <==> r.spec_translate(dx, dy).spec_contains(
            Point { x: (p.x + dx) as i32, y: (p.y + dy) as i32 },
        ),
{
}

} // verus!
