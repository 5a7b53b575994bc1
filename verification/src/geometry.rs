//! Integer geometry of outputs and surfaces.
use vstd::prelude::*;

verus! {

/// `value`, held to the range of a coordinate.
pub open spec fn saturated(value: int) -> int {
    if value < i32::MIN {
        i32::MIN as int
    } else if value > i32::MAX {
        i32::MAX as int
    } else {
        value
    }
}

/// `a + b`, held to the range of a coordinate.
pub fn saturating_sum(a: i32, b: i32) -> (sum: i32)
    ensures
        sum == saturated(a + b),
{
    let wide: i64 = a as i64 + b as i64;
    if wide < i32::MIN as i64 {
        i32::MIN
    } else if wide > i32::MAX as i64 {
        i32::MAX
    } else {
        wide as i32
    }
}

/// `a - b`, held to the range of a coordinate.
pub fn saturating_difference(a: i32, b: i32) -> (difference: i32)
    ensures
        difference == saturated(a - b),
{
    let wide: i64 = a as i64 - b as i64;
    if wide < i32::MIN as i64 {
        i32::MIN
    } else if wide > i32::MAX as i64 {
        i32::MAX
    } else {
        wide as i32
    }
}

/// The smaller of two numbers.
pub open spec fn least(a: int, b: int) -> int {
    if a < b {
        a
    } else {
        b
    }
}

/// The larger of two numbers.
pub open spec fn greatest(a: int, b: int) -> int {
    if a > b {
        a
    } else {
        b
    }
}

fn least_of(a: i32, b: i32) -> (c: i32)
    ensures
        c == least(a as int, b as int),
{
    if a < b {
        a
    } else {
        b
    }
}

fn greatest_of(a: i32, b: i32) -> (c: i32)
    ensures
        c == greatest(a as int, b as int),
{
    if a > b {
        a
    } else {
        b
    }
}

/// A point.
#[derive(Debug, Clone, Copy, PartialEq, Eq, Structural)]
pub struct Point {
    pub x: i32,
    pub y: i32,
}

/// A size.
#[derive(Debug, Clone, Copy, PartialEq, Eq, Structural)]
pub struct Size {
    pub w: i32,
    pub h: i32,
}

/// A rectangle.
#[derive(Debug, Clone, Copy, PartialEq, Eq, Structural)]
pub struct Rectangle {
    pub loc: Point,
    pub size: Size,
}

impl Rectangle {
    /// Sizes are never negative.
    pub open spec fn wf(self) -> bool {
        self.size.w >= 0 && self.size.h >= 0
    }

    /// The coordinate right of the rectangle.
    pub open spec fn right(self) -> int {
        saturated(self.loc.x + self.size.w)
    }

    /// The coordinate below the rectangle.
    pub open spec fn bottom(self) -> int {
        saturated(self.loc.y + self.size.h)
    }

    /// Whether the rectangle covers a pixel.
    pub open spec fn covers(self, x: int, y: int) -> bool {
        self.loc.x <= x < self.right() && self.loc.y <= y < self.bottom()
    }

    /// Whether a side is zero.
    pub open spec fn empty(self) -> bool {
        self.size.w == 0 || self.size.h == 0
    }

    /// Whether `other` does not reach beyond this rectangle.
    pub open spec fn encloses(self, other: Rectangle) -> bool {
        other.loc.x >= self.loc.x && other.loc.y >= self.loc.y && other.right() <= self.right()
            && other.bottom() <= self.bottom()
    }

    /// Whether the rectangles overlap in more than their edges.
    pub open spec fn meets(self, other: Rectangle) -> bool {
        self.loc.x < other.right() && other.loc.x < self.right() && self.loc.y < other.bottom()
            && other.loc.y < self.bottom()
    }

    /// The rectangle between two corners.
    pub open spec fn between(left: int, top: int, right: int, bottom: int) -> Rectangle {
        Rectangle {
            loc: Point { x: left as i32, y: top as i32 },
            size: Size { w: saturated(right - left) as i32, h: saturated(bottom - top) as i32 },
        }
    }

    /// What two rectangles share, if they overlap.
    pub open spec fn shared(self, other: Rectangle) -> Option<Rectangle> {
        if self.meets(other) {
            Some(
                Rectangle::between(
                    greatest(self.loc.x as int, other.loc.x as int),
                    greatest(self.loc.y as int, other.loc.y as int),
                    least(self.right(), other.right()),
                    least(self.bottom(), other.bottom()),
                ),
            )
        } else {
            None
        }
    }

    /// The smallest rectangle around two others.
    pub open spec fn around(self, other: Rectangle) -> Rectangle {
        Rectangle::between(
            least(self.loc.x as int, other.loc.x as int),
            least(self.loc.y as int, other.loc.y as int),
            greatest(self.right(), other.right()),
            greatest(self.bottom(), other.bottom()),
        )
    }

    /// A rectangle at a location.
    pub fn new(loc: Point, size: Size) -> (rect: Rectangle)
        ensures
            rect == (Rectangle { loc, size }),
    {
        Rectangle { loc, size }
    }

    /// A rectangle at the origin.
    pub fn from_size(size: Size) -> (rect: Rectangle)
        ensures
            rect == (Rectangle { loc: Point { x: 0, y: 0 }, size }),
    {
        Rectangle { loc: Point { x: 0, y: 0 }, size }
    }

    fn right_edge(&self) -> (right: i32)
        ensures
            right == self.right(),
    {
        saturating_sum(self.loc.x, self.size.w)
    }

    fn bottom_edge(&self) -> (bottom: i32)
        ensures
            bottom == self.bottom(),
    {
        saturating_sum(self.loc.y, self.size.h)
    }

    /// Whether a side is zero.
    pub fn is_empty(&self) -> (empty: bool)
        ensures
            empty == self.empty(),
    {
        self.size.w == 0 || self.size.h == 0
    }

    /// Whether the rectangle covers a pixel.
    pub fn contains(&self, point: Point) -> (inside: bool)
        ensures
            inside == self.covers(point.x as int, point.y as int),
    {
        self.loc.x <= point.x && point.x < self.right_edge() && self.loc.y <= point.y && point.y
            < self.bottom_edge()
    }

    /// Whether `other` does not reach beyond this rectangle.
    pub fn contains_rect(&self, other: Rectangle) -> (inside: bool)
        ensures
            inside == self.encloses(other),
    {
        other.loc.x >= self.loc.x && other.loc.y >= self.loc.y && other.right_edge()
            <= self.right_edge() && other.bottom_edge() <= self.bottom_edge()
    }

    /// Whether the rectangles overlap in more than their edges.
    pub fn overlaps(&self, other: Rectangle) -> (meets: bool)
        ensures
            meets == self.meets(other),
    {
        self.loc.x < other.right_edge() && other.loc.x < self.right_edge() && self.loc.y
            < other.bottom_edge() && other.loc.y < self.bottom_edge()
    }

    fn between_corners(left: i32, top: i32, right: i32, bottom: i32) -> (rect: Rectangle)
        ensures
            rect == Rectangle::between(left as int, top as int, right as int, bottom as int),
    {
        Rectangle {
            loc: Point { x: left, y: top },
            size: Size {
                w: saturating_difference(right, left),
                h: saturating_difference(bottom, top),
            },
        }
    }

    /// What two rectangles share, if they overlap.
    pub fn intersection(&self, other: Rectangle) -> (shared: Option<Rectangle>)
        ensures
            shared == self.shared(other),
    {
        if !self.overlaps(other) {
            return None;
        }
        Some(
            Rectangle::between_corners(
                greatest_of(self.loc.x, other.loc.x),
                greatest_of(self.loc.y, other.loc.y),
                least_of(self.right_edge(), other.right_edge()),
                least_of(self.bottom_edge(), other.bottom_edge()),
            ),
        )
    }

    /// The smallest rectangle around two others.
    pub fn merge(&self, other: Rectangle) -> (around: Rectangle)
        requires
            self.wf(),
            other.wf(),
        ensures
            around == self.around(other),
    {
        Rectangle::between_corners(
            least_of(self.loc.x, other.loc.x),
            least_of(self.loc.y, other.loc.y),
            greatest_of(self.right_edge(), other.right_edge()),
            greatest_of(self.bottom_edge(), other.bottom_edge()),
        )
    }
}

/// A pixel lies in what two rectangles share exactly when it lies in both.
pub proof fn lemma_shared_pixels(a: Rectangle, b: Rectangle)
    requires
        a.wf(),
        b.wf(),
    ensures
        forall|x: int, y: int|
            #![trigger a.covers(x, y), b.covers(x, y)]
            a.covers(x, y) && b.covers(x, y) <==> (a.shared(b) matches Some(c) && c.covers(x, y)),
        a.shared(b) matches Some(c) ==> c.wf() && a.encloses(c) && b.encloses(c),
{
}

/// A rectangle that is enclosed covers no pixel outside.
pub proof fn lemma_enclosed_pixels(a: Rectangle, b: Rectangle)
    requires
        a.encloses(b),
    ensures
        forall|x: int, y: int| b.covers(x, y) ==> a.covers(x, y),
{
}

/// How a plane is turned and mirrored.
#[derive(Debug, Clone, Copy, PartialEq, Eq, Structural)]
pub enum Transform {
    Normal,
    _90,
    _180,
    _270,
    Flipped,
    Flipped90,
    Flipped180,
    Flipped270,
}

/// Where a span of length `len` at `loc` lies when counted from the far end.
pub open spec fn mirrored(area: i32, loc: i32, len: i32) -> int {
    area - loc - len
}

/// Whether a mirrored span can be computed.
pub open spec fn can_mirror(area: i32, loc: i32, len: i32) -> bool {
    i32::MIN <= area - loc <= i32::MAX && i32::MIN <= mirrored(area, loc, len) <= i32::MAX
}

impl Transform {
    /// The transform with quarter turns the other way around.
    pub open spec fn inverted(self) -> Transform {
        match self {
            Transform::_90 => Transform::_270,
            Transform::_270 => Transform::_90,
            Transform::Flipped90 => Transform::Flipped270,
            Transform::Flipped270 => Transform::Flipped90,
            other => other,
        }
    }

    /// Whether width and height change places.
    pub open spec fn swaps_sides(self) -> bool {
        self is _90 || self is _270 || self is Flipped90 || self is Flipped270
    }

    /// A size after the transform.
    pub open spec fn sized(self, size: Size) -> Size {
        if self.swaps_sides() {
            Size { w: size.h, h: size.w }
        } else {
            size
        }
    }

    /// Whether the location of a rectangle can be computed.
    pub open spec fn can_place(self, rect: Rectangle, area: Size) -> bool {
        let horizontal = can_mirror(area.w, rect.loc.x, rect.size.w);
        let vertical = can_mirror(area.h, rect.loc.y, rect.size.h);
        match self {
            Transform::Normal | Transform::Flipped270 => true,
            Transform::_90 | Transform::Flipped180 => vertical,
            Transform::_270 | Transform::Flipped => horizontal,
            Transform::_180 | Transform::Flipped90 => horizontal && vertical,
        }
    }

    /// A rectangle after the transform of the area it lies in.
    pub open spec fn placed(self, rect: Rectangle, area: Size) -> Rectangle {
        let x = rect.loc.x as int;
        let y = rect.loc.y as int;
        let far_x = mirrored(area.w, rect.loc.x, rect.size.w);
        let far_y = mirrored(area.h, rect.loc.y, rect.size.h);
        let (new_x, new_y) = match self {
            Transform::Normal => (x, y),
            Transform::_90 => (far_y, x),
            Transform::_180 => (far_x, far_y),
            Transform::_270 => (y, far_x),
            Transform::Flipped => (far_x, y),
            Transform::Flipped90 => (far_y, far_x),
            Transform::Flipped180 => (x, far_y),
            Transform::Flipped270 => (y, x),
        };
        Rectangle {
            loc: Point { x: new_x as i32, y: new_y as i32 },
            size: self.sized(rect.size),
        }
    }

    /// The transform with quarter turns the other way around.
    pub fn invert(&self) -> (inverted: Transform)
        ensures
            inverted == self.inverted(),
    {
        match *self {
            Transform::Normal => Transform::Normal,
            Transform::Flipped => Transform::Flipped,
            Transform::_90 => Transform::_270,
            Transform::_180 => Transform::_180,
            Transform::_270 => Transform::_90,
            Transform::Flipped90 => Transform::Flipped270,
            Transform::Flipped180 => Transform::Flipped180,
            Transform::Flipped270 => Transform::Flipped90,
        }
    }

    /// A size after the transform.
    pub fn transform_size(&self, size: Size) -> (transformed: Size)
        ensures
            transformed == self.sized(size),
    {
        match *self {
            Transform::_90 | Transform::_270 | Transform::Flipped90 | Transform::Flipped270 => {
                Size { w: size.h, h: size.w }
            },
            _ => size,
        }
    }

    /// A rectangle after the transform of the area it lies in.
    pub fn transform_rect_in(&self, rect: Rectangle, area: Size) -> (transformed: Rectangle)
        requires
            self.can_place(rect, area),
        ensures
            transformed == self.placed(rect, area),
    {
        let size: Size = self.transform_size(rect.size);
        let loc: Point = match *self {
            Transform::Normal => rect.loc,
            Transform::_90 => Point { x: area.h - rect.loc.y - rect.size.h, y: rect.loc.x },
            Transform::_180 => Point {
                x: area.w - rect.loc.x - rect.size.w,
                y: area.h - rect.loc.y - rect.size.h,
            },
            Transform::_270 => Point { x: rect.loc.y, y: area.w - rect.loc.x - rect.size.w },
            Transform::Flipped => Point { x: area.w - rect.loc.x - rect.size.w, y: rect.loc.y },
            Transform::Flipped90 => Point {
                x: area.h - rect.loc.y - rect.size.h,
                y: area.w - rect.loc.x - rect.size.w,
            },
            Transform::Flipped180 => Point { x: rect.loc.x, y: area.h - rect.loc.y - rect.size.h },
            Transform::Flipped270 => Point { x: rect.loc.y, y: rect.loc.x },
        };
        Rectangle { loc, size }
    }
}

/// Inverting a transform twice gives it back, and a size survives a transform
/// and its inverse.
pub proof fn lemma_inverted_size(transform: Transform, size: Size)
    ensures
        transform.inverted().inverted() == transform,
        transform.inverted().sized(transform.sized(size)) == size,
{
}

/// A rectangle survives a transform and its inverse, unless the transform both
/// mirrors and turns by a quarter.
pub proof fn lemma_inverted_placement(transform: Transform, rect: Rectangle, area: Size)
    requires
        transform.can_place(rect, area),
        !(transform is Flipped90) && !(transform is Flipped270),
    ensures
        transform.inverted().placed(transform.placed(rect, area), transform.sized(area)) == rect,
{
}

/// A rectangle within an area stays within it.
pub proof fn lemma_placed_stays_inside(transform: Transform, rect: Rectangle, area: Size)
    requires
        rect.wf(),
        rect.loc.x >= 0,
        rect.loc.y >= 0,
        rect.loc.x + rect.size.w <= area.w,
        rect.loc.y + rect.size.h <= area.h,
    ensures
        transform.can_place(rect, area),
        transform.placed(rect, area).wf(),
        transform.placed(rect, area).loc.x >= 0,
        transform.placed(rect, area).loc.y >= 0,
        transform.placed(rect, area).loc.x + transform.placed(rect, area).size.w
            <= transform.sized(area).w,
        transform.placed(rect, area).loc.y + transform.placed(rect, area).size.h
            <= transform.sized(area).h,
{
}

/// What of `damage` falls on `part`, as seen from it.
pub open spec fn damage_on(damage: Seq<Rectangle>, part: Rectangle) -> Seq<Rectangle>
    decreases damage.len(),
{
    if damage.len() == 0 {
        Seq::empty()
    } else {
        let rest = damage_on(damage.drop_last(), part);
        match damage.last().shared(part) {
            Some(area) => rest.push(moved(area, part.loc)),
            None => rest,
        }
    }
}

/// A rectangle as seen from `origin`.
pub open spec fn moved(area: Rectangle, origin: Point) -> Rectangle {
    Rectangle {
        loc: Point {
            x: saturated(area.loc.x - origin.x) as i32,
            y: saturated(area.loc.y - origin.y) as i32,
        },
        size: area.size,
    }
}

/// A rectangle as seen from `origin`.
pub fn relative(area: Rectangle, origin: Point) -> (relative: Rectangle)
    ensures
        relative == moved(area, origin),
{
    Rectangle {
        loc: Point {
            x: saturating_difference(area.loc.x, origin.x),
            y: saturating_difference(area.loc.y, origin.y),
        },
        size: area.size,
    }
}

/// What of `damage` falls on `part`, as seen from it.
pub fn damage_within(damage: &Vec<Rectangle>, part: Rectangle) -> (local: Vec<Rectangle>)
    ensures
        local@ == damage_on(damage@, part),
{
    let mut local: Vec<Rectangle> = Vec::new();
    assert(damage@.take(0) =~= Seq::empty());
    for i in 0..damage.len()
        invariant
            local@ == damage_on(damage@.take(i as int), part),
    {
        proof {
            assert(damage@.take(i + 1).drop_last() =~= damage@.take(i as int));
            assert(damage@.take(i + 1).last() == damage@[i as int]);
        }
        if let Some(area) = damage[i].intersection(part) {
            local.push(relative(area, part.loc));
        }
    }
    assert(damage@.take(damage@.len() as int) =~= damage@);
    local
}

/// Damage on a part never reaches beyond it.
pub proof fn lemma_damage_stays_on_part(damage: Seq<Rectangle>, part: Rectangle)
    requires
        part.wf(),
        forall|i: int| 0 <= i < damage.len() ==> (#[trigger] damage[i]).wf(),
    ensures
        forall|i: int|
            0 <= i < damage_on(damage, part).len() ==> {
                let area = #[trigger] damage_on(damage, part)[i];
                &&& area.wf()
                &&& area.loc.x >= 0
                &&& area.loc.y >= 0
                &&& area.loc.x + area.size.w <= part.size.w
                &&& area.loc.y + area.size.h <= part.size.h
            },
    decreases damage.len(),
{
    if damage.len() > 0 {
        let rest_damage = damage.drop_last();
        let rest = damage_on(rest_damage, part);
        let all = damage_on(damage, part);
        assert forall|i: int| 0 <= i < rest_damage.len() implies (#[trigger] rest_damage[i]).wf() by {
            assert(damage[i].wf());
        }
        lemma_damage_stays_on_part(rest_damage, part);
        assert(damage[damage.len() - 1].wf());
        assert forall|i: int| 0 <= i < all.len() implies {
            let area = #[trigger] all[i];
            &&& area.wf()
            &&& area.loc.x >= 0
            &&& area.loc.y >= 0
            &&& area.loc.x + area.size.w <= part.size.w
            &&& area.loc.y + area.size.h <= part.size.h
        } by {
            if i < rest.len() {
                assert(all[i] == rest[i]);
            }
        }
    }
}

/// Whether a pixel lies in a rectangle.
pub open spec fn has_pixel(rect: Rectangle, x: int, y: int) -> bool {
    &&& rect.loc.x <= x
    &&& x - rect.loc.x < rect.size.w
    &&& rect.loc.y <= y
    &&& y - rect.loc.y < rect.size.h
}

/// Whether a rectangle ends within the range of coordinates.
pub open spec fn in_range(rect: Rectangle) -> bool {
    &&& 0 <= rect.size.w
    &&& 0 <= rect.size.h
    &&& rect.loc.x + rect.size.w <= i32::MAX
    &&& rect.loc.y + rect.size.h <= i32::MAX
}

/// Two rectangles share exactly the pixels that lie in both, and overlap exactly when
/// there are any.
pub proof fn lemma_intersection_is_common_ground(
    a: Rectangle,
    b: Rectangle,
    shared: Option<Rectangle>,
    overlaps: bool,
    x: int,
    y: int,
)
    requires
        in_range(a),
        in_range(b),
        call_ensures(Rectangle::intersection, (&a, b), shared),
        call_ensures(Rectangle::overlaps, (&a, b), overlaps),
    ensures
        overlaps <==> shared is Some,
        has_pixel(a, x, y) && has_pixel(b, x, y) ==> overlaps,
        shared matches Some(rect) ==> (has_pixel(rect, x, y) <==> has_pixel(a, x, y) && has_pixel(
            b,
            x,
            y,
        )),
        shared matches Some(rect) && a.size.w > 0 && a.size.h > 0 && b.size.w > 0 && b.size.h > 0
            ==> shared->0.size.w > 0 && shared->0.size.h > 0,
{
}

/// The rectangle around two others holds all their pixels and is the smallest that
/// does: each of its edges is an edge of one of them.
pub proof fn lemma_merge_is_the_smallest_around(a: Rectangle, b: Rectangle, around: Rectangle)
    requires
        in_range(a),
        in_range(b),
        a.loc.x + a.size.w - b.loc.x <= i32::MAX,
        b.loc.x + b.size.w - a.loc.x <= i32::MAX,
        a.loc.y + a.size.h - b.loc.y <= i32::MAX,
        b.loc.y + b.size.h - a.loc.y <= i32::MAX,
        call_ensures(Rectangle::merge, (&a, b), around),
    ensures
        forall|x: int, y: int|
            #![trigger has_pixel(around, x, y)]
            has_pixel(a, x, y) || has_pixel(b, x, y) ==> has_pixel(around, x, y),
        around.loc.x == a.loc.x || around.loc.x == b.loc.x,
        around.loc.y == a.loc.y || around.loc.y == b.loc.y,
        around.loc.x + around.size.w == a.loc.x + a.size.w || around.loc.x + around.size.w
            == b.loc.x + b.size.w,
        around.loc.y + around.size.h == a.loc.y + a.size.h || around.loc.y + around.size.h
            == b.loc.y + b.size.h,
        around.loc.x <= a.loc.x && around.loc.x <= b.loc.x && around.loc.y <= a.loc.y
            && around.loc.y <= b.loc.y,
{
}

/// A point lies in a rectangle, and a rectangle in another, as their pixels do; and
/// only a rectangle without a pixel is empty.
pub proof fn lemma_containment_is_by_pixels(
    a: Rectangle,
    b: Rectangle,
    point: Point,
    has_point: bool,
    has_rect: bool,
    empty: bool,
)
    requires
        in_range(a),
        in_range(b),
        call_ensures(Rectangle::contains, (&a, point), has_point),
        call_ensures(Rectangle::contains_rect, (&a, b), has_rect),
        call_ensures(Rectangle::is_empty, (&a,), empty),
    ensures
        has_point <==> has_pixel(a, point.x as int, point.y as int),
        has_rect ==> (forall|x: int, y: int| has_pixel(b, x, y) ==> #[trigger] has_pixel(a, x, y)),
        b.size.w > 0 && b.size.h > 0 && has_pixel(a, b.loc.x as int, b.loc.y as int) && has_pixel(
            a,
            b.loc.x + b.size.w - 1,
            b.loc.y + b.size.h - 1,
        ) ==> has_rect,
        empty <==> a.size.w == 0 || a.size.h == 0,
        empty ==> !has_point,
{
}

/// A rectangle as seen from an origin lies as far from it as before.
pub proof fn lemma_relative_keeps_distances(area: Rectangle, origin: Point, seen: Rectangle)
    requires
        call_ensures(relative, (area, origin), seen),
        i32::MIN <= area.loc.x - origin.x <= i32::MAX,
        i32::MIN <= area.loc.y - origin.y <= i32::MAX,
    ensures
        seen.loc.x + origin.x == area.loc.x,
        seen.loc.y + origin.y == area.loc.y,
        seen.size == area.size,
{
}

/// A transform moves every pixel of a rectangle as it moves the pixels of the area:
/// it turns or mirrors the area as a whole. `(x, y)` is a pixel of the area, `(u, v)`
/// where the transform puts it.
pub proof fn lemma_transform_moves_pixels(
    transform: Transform,
    rect: Rectangle,
    area: Size,
    moved: Rectangle,
    x: int,
    y: int,
    u: int,
    v: int,
)
    requires
        transform.can_place(rect, area),
        call_ensures(Transform::transform_rect_in, (&transform, rect, area), moved),
        match transform {
            Transform::Normal => u == x && v == y,
            Transform::_90 => u == area.h - 1 - y && v == x,
            Transform::_180 => u == area.w - 1 - x && v == area.h - 1 - y,
            Transform::_270 => u == y && v == area.w - 1 - x,
            Transform::Flipped => u == area.w - 1 - x && v == y,
            Transform::Flipped90 => u == area.h - 1 - y && v == area.w - 1 - x,
            Transform::Flipped180 => u == x && v == area.h - 1 - y,
            Transform::Flipped270 => u == y && v == x,
        },
    ensures
        has_pixel(moved, u, v) <==> has_pixel(rect, x, y),
{
}

/// Turning a transform around undoes it on sizes, and quarter turns swap the sides
/// of a size while all others keep them.
pub proof fn lemma_inverse_undoes_the_size(
    transform: Transform,
    size: Size,
    inverse: Transform,
    there: Size,
    back: Size,
)
    requires
        call_ensures(Transform::invert, (&transform,), inverse),
        call_ensures(Transform::transform_size, (&transform, size), there),
        call_ensures(Transform::transform_size, (&inverse, there), back),
    ensures
        back == size,
        there.w == size.w && there.h == size.h || there.w == size.h && there.h == size.w,
        transform == Transform::_90 || transform == Transform::_270 || transform
            == Transform::Flipped90 || transform == Transform::Flipped270 ==> there.w == size.h
            && there.h == size.w,
        transform == Transform::Normal || transform == Transform::_180 || transform
            == Transform::Flipped || transform == Transform::Flipped180 ==> there == size,
        transform == Transform::_90 <==> inverse == Transform::_270,
        transform == Transform::_270 <==> inverse == Transform::_90,
        transform == Transform::Flipped90 <==> inverse == Transform::Flipped270,
        transform == Transform::Flipped270 <==> inverse == Transform::Flipped90,
        transform == Transform::Normal <==> inverse == Transform::Normal,
        transform == Transform::Flipped <==> inverse == Transform::Flipped,
        transform == Transform::_180 <==> inverse == Transform::_180,
{
}

/// What of the damage falls on a part is exactly the damaged pixels of that part, as
/// seen from it.
pub proof fn lemma_local_damage_is_the_damage_on_it(
    damage: &Vec<Rectangle>,
    part: Rectangle,
    local: Vec<Rectangle>,
    x: int,
    y: int,
)
    requires
        call_ensures(damage_within, (damage, part), local),
        in_range(part),
        forall|i: int| 0 <= i < damage.len() ==> in_range(#[trigger] damage@[i]),
    ensures
        (exists|i: int|
            #![trigger local@[i]]
            0 <= i < local.len() && has_pixel(local@[i], x - part.loc.x, y - part.loc.y))
            <==> has_pixel(part, x, y) && (exists|i: int|
            #![trigger damage@[i]]
            0 <= i < damage.len() && has_pixel(damage@[i], x, y)),
{
    lemma_damage_on(damage@, part, x, y);
}

pub(crate) proof fn lemma_damage_on(damage: Seq<Rectangle>, part: Rectangle, x: int, y: int)
    requires
        in_range(part),
        forall|i: int| 0 <= i < damage.len() ==> in_range(#[trigger] damage[i]),
    ensures
        (exists|i: int|
            #![trigger damage_on(damage, part)[i]]
            0 <= i < damage_on(damage, part).len() && has_pixel(
                damage_on(damage, part)[i],
                x - part.loc.x,
                y - part.loc.y,
            )) <==> has_pixel(part, x, y) && (exists|i: int|
            #![trigger damage[i]]
            0 <= i < damage.len() && has_pixel(damage[i], x, y)),
    decreases damage.len(),
{
    if damage.len() > 0 {
        let rest = damage.drop_last();
        let before = damage_on(rest, part);
        let after = damage_on(damage, part);
        assert forall|i: int| 0 <= i < rest.len() implies in_range(#[trigger] rest[i]) by {
            assert(in_range(damage[i]));
        }
        lemma_damage_on(rest, part, x, y);
        let last = damage.last();
        assert(in_range(damage[damage.len() - 1]));
        assert(forall|i: int| #![trigger damage[i]] 0 <= i < rest.len() ==> rest[i] == damage[i]);
        assert(forall|i: int| #![trigger before[i]] 0 <= i < before.len() ==> after[i] == before[i]);
        if exists|i: int|
            #![trigger before[i]]
            0 <= i < before.len() && has_pixel(before[i], x - part.loc.x, y - part.loc.y) {
            let i = choose|i: int|
                #![trigger before[i]]
                0 <= i < before.len() && has_pixel(before[i], x - part.loc.x, y - part.loc.y);
            assert(has_pixel(after[i], x - part.loc.x, y - part.loc.y));
            let j = choose|j: int|
                #![trigger rest[j]]
                0 <= j < rest.len() && has_pixel(rest[j], x, y);
            assert(has_pixel(damage[j], x, y));
        }
        if let Some(area) = last.shared(part) {
            assert(after.last() == moved(area, part.loc));
            assert(after[after.len() - 1] == moved(area, part.loc));
            assert(has_pixel(after[after.len() - 1], x - part.loc.x, y - part.loc.y) <==> has_pixel(
                last,
                x,
                y,
            ) && has_pixel(part, x, y));
        } else {
            assert(!(has_pixel(last, x, y) && has_pixel(part, x, y)));
        }
        if exists|i: int|
            #![trigger after[i]]
            0 <= i < after.len() && has_pixel(after[i], x - part.loc.x, y - part.loc.y) {
            let i = choose|i: int|
                #![trigger after[i]]
                0 <= i < after.len() && has_pixel(after[i], x - part.loc.x, y - part.loc.y);
            if i < before.len() {
                assert(has_pixel(before[i], x - part.loc.x, y - part.loc.y));
            } else {
                assert(has_pixel(damage[damage.len() - 1], x, y));
            }
        }
    }
}

/// Sums and differences are exact within the range of coordinates and stop at its ends
/// beyond it; and a rectangle of a size starts at the origin.
pub proof fn lemma_arithmetic_stops_at_the_ends(
    a: i32,
    b: i32,
    sum: i32,
    difference: i32,
    size: Size,
    rect: Rectangle,
    loc: Point,
    placed: Rectangle,
)
    requires
        call_ensures(saturating_sum, (a, b), sum),
        call_ensures(saturating_difference, (a, b), difference),
        call_ensures(Rectangle::from_size, (size,), rect),
        call_ensures(Rectangle::new, (loc, size), placed),
    ensures
        i32::MIN <= a + b <= i32::MAX ==> sum == a + b,
        a + b > i32::MAX ==> sum == i32::MAX,
        a + b < i32::MIN ==> sum == i32::MIN,
        i32::MIN <= a - b <= i32::MAX ==> difference == a - b,
        a - b > i32::MAX ==> difference == i32::MAX,
        a - b < i32::MIN ==> difference == i32::MIN,
        rect.loc.x == 0 && rect.loc.y == 0 && rect.size == size,
        placed.loc == loc && placed.size == size,
{
}

} // verus!
