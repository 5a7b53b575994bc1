//! Clipping surfaces to the rounded geometry of their window.
use crate::geometry::{has_pixel, in_range, moved, relative, Point, Rectangle};
use vstd::prelude::*;

verus! {

/// Whether a rectangle touches a rounded corner.
pub open spec fn touches_corner(elem_geo: Rectangle, corners: [Rectangle; 4]) -> bool {
    exists|i: int| 0 <= i < 4 && !(#[trigger] corners[i]).empty() && corners[i].meets(elem_geo)
}

/// Whether an element has to be clipped to its window: where it reaches outside,
/// or overlaps a rounded corner.
pub fn will_clip_precomputed(
    elem_geo: Rectangle,
    physical_geo: Rectangle,
    physical_corners: &[Rectangle; 4],
) -> (clips: bool)
    ensures
        clips == (!physical_geo.encloses(elem_geo) || touches_corner(elem_geo, *physical_corners)),
{
    if !physical_geo.contains_rect(elem_geo) {
        return true;
    }
    for i in 0..4
        invariant
            forall|j: int|
                0 <= j < i ==> (#[trigger] physical_corners[j]).empty()
                    || !physical_corners[j].meets(elem_geo),
    {
        if !physical_corners[i].is_empty() && physical_corners[i].overlaps(elem_geo) {
            assert(!physical_corners[i as int].empty());
            return true;
        }
    }
    false
}

/// Whether an element needs a clipping shader at all: only rounded windows are
/// clipped, and only where that is asked for.
pub fn needs_clipping(
    radii: &[u8; 4],
    should_clip: bool,
    elem_geo: Rectangle,
    physical_geo: Rectangle,
    physical_corners: &[Rectangle; 4],
) -> (clips: bool)
    ensures
        clips == ((radii[0] != 0 || radii[1] != 0 || radii[2] != 0 || radii[3] != 0) && should_clip
            && (!physical_geo.encloses(elem_geo) || touches_corner(elem_geo, *physical_corners))),
{
    (radii[0] != 0 || radii[1] != 0 || radii[2] != 0 || radii[3] != 0) && should_clip
        && will_clip_precomputed(elem_geo, physical_geo, physical_corners)
}

/// What the window's geometry leaves of `rects`.
pub open spec fn within(rects: Seq<Rectangle>, geo: Rectangle) -> Seq<Rectangle>
    decreases rects.len(),
{
    if rects.len() == 0 {
        Seq::empty()
    } else {
        let rest = within(rects.drop_last(), geo);
        match rects.last().shared(geo) {
            Some(rect) => rest.push(rect),
            None => rest,
        }
    }
}

/// What clipping leaves of the damage or the opaque regions of an element, which
/// are relative to the element at `elem_loc`.
pub fn clip_rects(rects: &Vec<Rectangle>, physical_geo: Rectangle, elem_loc: Point) -> (clipped: Vec<
    Rectangle,
>)
    ensures
        clipped@ == within(rects@, moved(physical_geo, elem_loc)),
{
    let geo: Rectangle = relative(physical_geo, elem_loc);
    let mut clipped: Vec<Rectangle> = Vec::new();
    assert(rects@.take(0) =~= Seq::empty());
    for i in 0..rects.len()
        invariant
            clipped@ == within(rects@.take(i as int), geo),
    {
        proof {
            assert(rects@.take(i + 1).drop_last() =~= rects@.take(i as int));
            assert(rects@.take(i + 1).last() == rects@[i as int]);
        }
        if let Some(rect) = rects[i].intersection(geo) {
            clipped.push(rect);
        }
    }
    assert(rects@.take(rects@.len() as int) =~= rects@);
    clipped
}

/// The rounded corners as seen from an element at `elem_loc`: no opaque region
/// may reach into them.
pub fn relative_corners(physical_corners: &[Rectangle; 4], elem_loc: Point) -> (corners: [Rectangle;
    4])
    ensures
        forall|i: int| 0 <= i < 4 ==> #[trigger] corners[i] == moved(physical_corners[i], elem_loc),
{
    [
        relative(physical_corners[0], elem_loc),
        relative(physical_corners[1], elem_loc),
        relative(physical_corners[2], elem_loc),
        relative(physical_corners[3], elem_loc),
    ]
}

/// Where a clipped element is opaque: in `regions`, but for `cut_out`.
#[derive(Debug, PartialEq, Eq)]
pub struct OpaqueParts {
    pub regions: Vec<Rectangle>,
    pub cut_out: [Rectangle; 4],
}

/// Where a clipped element at `elem_loc` is opaque: in what the window leaves of its
/// own opaque regions, but for the rounded corners.
pub fn opaque_regions(
    regions: &Vec<Rectangle>,
    physical_geo: Rectangle,
    physical_corners: &[Rectangle; 4],
    elem_loc: Point,
) -> (parts: OpaqueParts)
    ensures
        parts.regions@ == within(regions@, moved(physical_geo, elem_loc)),
        forall|i: int|
            0 <= i < 4 ==> #[trigger] parts.cut_out[i] == moved(physical_corners[i], elem_loc),
{
    OpaqueParts {
        regions: clip_rects(regions, physical_geo, elem_loc),
        cut_out: relative_corners(physical_corners, elem_loc),
    }
}

/// Nothing that clipping leaves reaches beyond the window.
pub proof fn lemma_clipped_stays_in_window(rects: Seq<Rectangle>, geo: Rectangle)
    ensures
        forall|i: int|
            0 <= i < within(rects, geo).len() ==> geo.encloses(#[trigger] within(rects, geo)[i]),
    decreases rects.len(),
{
    if rects.len() > 0 {
        let rest = within(rects.drop_last(), geo);
        lemma_clipped_stays_in_window(rects.drop_last(), geo);
        assert forall|i: int| 0 <= i < within(rects, geo).len() implies geo.encloses(
            #[trigger] within(rects, geo)[i],
        ) by {
            if i < rest.len() {
                assert(within(rects, geo)[i] == rest[i]);
            }
        }
    }
}

/// How the clip of an element follows the area that it is drawn to.
#[derive(Debug, Clone, Copy, PartialEq, Eq, Structural)]
pub enum ClipChoice {
    /// The window's geometry and radii as they are.
    Window,
    /// The window's geometry and radii, scaled as the element is.
    Scaled,
}

/// Decides how the clip of an element follows the area that the whole element
/// would be drawn to. Where the element is not scaled, the clip stays at the
/// window, so that no edge is rounded where the screen cuts the window off.
pub fn clip_for_uncropped(
    physical_geo: Rectangle,
    inner_geo: Rectangle,
    uncropped_dst: Rectangle,
) -> (choice: ClipChoice)
    ensures
        choice == if uncropped_dst == physical_geo || uncropped_dst == inner_geo || inner_geo.size.w
            <= 0 || inner_geo.size.h <= 0 {
            ClipChoice::Window
        } else {
            ClipChoice::Scaled
        },
{
    if uncropped_dst == physical_geo || uncropped_dst == inner_geo {
        ClipChoice::Window
    } else if inner_geo.size.w > 0 && inner_geo.size.h > 0 {
        ClipChoice::Scaled
    } else {
        ClipChoice::Window
    }
}

/// An element that is not clipped covers no pixel outside its window and none of
/// a rounded corner.
pub proof fn lemma_unclipped_needs_no_clip(
    elem_geo: Rectangle,
    physical_geo: Rectangle,
    physical_corners: [Rectangle; 4],
)
    requires
        elem_geo.wf(),
        physical_geo.wf(),
        forall|i: int| 0 <= i < 4 ==> (#[trigger] physical_corners[i]).wf(),
        physical_geo.encloses(elem_geo),
        !touches_corner(elem_geo, physical_corners),
    ensures
        forall|x: int, y: int|
            elem_geo.covers(x, y) ==> physical_geo.covers(x, y) && forall|i: int|
                0 <= i < 4 ==> !(#[trigger] physical_corners[i]).covers(x, y),
{
    assert forall|x: int, y: int| elem_geo.covers(x, y) implies physical_geo.covers(x, y)
        && forall|i: int| 0 <= i < 4 ==> !(#[trigger] physical_corners[i]).covers(x, y) by {
        assert forall|i: int| 0 <= i < 4 implies !(#[trigger] physical_corners[i]).covers(x, y) by {
            if physical_corners[i].covers(x, y) {
                assert(!physical_corners[i].empty());
                assert(physical_corners[i].meets(elem_geo));
            }
        }
    }
}

/// Clipped damage and opaque regions never reach outside the window.
pub proof fn lemma_clipped_stays_inside(rects: Seq<Rectangle>, geo: Rectangle)
    requires
        geo.wf(),
        forall|i: int| 0 <= i < rects.len() ==> (#[trigger] rects[i]).wf(),
    ensures
        forall|i: int|
            0 <= i < within(rects, geo).len() ==> geo.encloses(#[trigger] within(rects, geo)[i]),
    decreases rects.len(),
{
    if rects.len() > 0 {
        let rest_rects = rects.drop_last();
        let rest = within(rest_rects, geo);
        let all = within(rects, geo);
        assert forall|i: int| 0 <= i < rest_rects.len() implies (#[trigger] rest_rects[i]).wf() by {
            assert(rects[i].wf());
        }
        lemma_clipped_stays_inside(rest_rects, geo);
        assert(rects[rects.len() - 1].wf());
        assert forall|i: int| 0 <= i < all.len() implies geo.encloses(#[trigger] all[i]) by {
            if i < rest.len() {
                assert(all[i] == rest[i]);
            }
        }
    }
}

/// An element is clipped exactly when one of its pixels lies outside the window or in a
/// rounded corner.
pub proof fn lemma_clipping_is_by_pixels(
    elem_geo: Rectangle,
    physical_geo: Rectangle,
    corners: &[Rectangle; 4],
    clips: bool,
)
    requires
        in_range(elem_geo),
        in_range(physical_geo),
        elem_geo.size.w > 0,
        elem_geo.size.h > 0,
        forall|i: int| 0 <= i < 4 ==> in_range(#[trigger] corners[i]),
        call_ensures(will_clip_precomputed, (elem_geo, physical_geo, corners), clips),
    ensures
        clips <==> exists|x: int, y: int| #[trigger]
            has_pixel(elem_geo, x, y) && (!has_pixel(physical_geo, x, y) || exists|i: int|
                0 <= i < 4 && has_pixel(#[trigger] corners[i], x, y)),
{
    let right = elem_geo.loc.x + elem_geo.size.w - 1;
    let bottom = elem_geo.loc.y + elem_geo.size.h - 1;
    if clips {
        if !physical_geo.encloses(elem_geo) {
            if has_pixel(physical_geo, elem_geo.loc.x as int, elem_geo.loc.y as int) {
                assert(has_pixel(elem_geo, right, bottom));
                assert(!has_pixel(physical_geo, right, bottom));
            } else {
                assert(has_pixel(elem_geo, elem_geo.loc.x as int, elem_geo.loc.y as int));
            }
        } else {
            let i = choose|i: int|
                0 <= i < 4 && !(#[trigger] corners[i]).empty() && corners[i].meets(elem_geo);
            let corner = corners[i];
            let x = if corner.loc.x > elem_geo.loc.x {
                corner.loc.x as int
            } else {
                elem_geo.loc.x as int
            };
            let y = if corner.loc.y > elem_geo.loc.y {
                corner.loc.y as int
            } else {
                elem_geo.loc.y as int
            };
            assert(has_pixel(elem_geo, x, y));
            assert(has_pixel(corners[i], x, y));
        }
    }
    if exists|x: int, y: int| #[trigger]
        has_pixel(elem_geo, x, y) && (!has_pixel(physical_geo, x, y) || exists|i: int|
            0 <= i < 4 && has_pixel(#[trigger] corners[i], x, y)) {
        let (x, y) = choose|x: int, y: int| #[trigger]
            has_pixel(elem_geo, x, y) && (!has_pixel(physical_geo, x, y) || exists|i: int|
                0 <= i < 4 && has_pixel(#[trigger] corners[i], x, y));
        if has_pixel(physical_geo, x, y) {
            let i = choose|i: int| 0 <= i < 4 && has_pixel(#[trigger] corners[i], x, y);
            assert(!corners[i].empty() && corners[i].meets(elem_geo));
        }
    }
}

/// A window is clipped only where it is rounded and that is asked for, and then where
/// an element has to be.
pub proof fn lemma_only_rounded_windows_are_clipped(
    radii: &[u8; 4],
    should_clip: bool,
    elem_geo: Rectangle,
    physical_geo: Rectangle,
    corners: &[Rectangle; 4],
    clips: bool,
    has_to: bool,
    i: int,
)
    requires
        call_ensures(
            needs_clipping,
            (radii, should_clip, elem_geo, physical_geo, corners),
            clips,
        ),
        call_ensures(will_clip_precomputed, (elem_geo, physical_geo, corners), has_to),
        0 <= i < 4,
    ensures
        !should_clip ==> !clips,
        (forall|j: int| 0 <= j < 4 ==> #[trigger] radii[j] == 0) ==> !clips,
        should_clip && radii[i] != 0 ==> clips == has_to,
        clips ==> has_to,
{
    if clips {
        assert(radii[0] != 0 || radii[1] != 0 || radii[2] != 0 || radii[3] != 0);
    }
}

proof fn lemma_within(rects: Seq<Rectangle>, geo: Rectangle, x: int, y: int)
    requires
        in_range(geo),
        forall|i: int| 0 <= i < rects.len() ==> in_range(#[trigger] rects[i]),
    ensures
        (exists|i: int|
            #![trigger within(rects, geo)[i]]
            0 <= i < within(rects, geo).len() && has_pixel(within(rects, geo)[i], x, y))
            <==> has_pixel(geo, x, y) && (exists|i: int|
            #![trigger rects[i]]
            0 <= i < rects.len() && has_pixel(rects[i], x, y)),
    decreases rects.len(),
{
    if rects.len() > 0 {
        let rest = rects.drop_last();
        let before = within(rest, geo);
        let after = within(rects, geo);
        assert forall|i: int| 0 <= i < rest.len() implies in_range(#[trigger] rest[i]) by {
            assert(in_range(rects[i]));
        }
        lemma_within(rest, geo, x, y);
        let last = rects.last();
        assert(in_range(rects[rects.len() - 1]));
        assert(forall|i: int| #![trigger rects[i]] 0 <= i < rest.len() ==> rest[i] == rects[i]);
        assert(forall|i: int| #![trigger before[i]] 0 <= i < before.len() ==> after[i] == before[i]);
        if exists|i: int|
            #![trigger before[i]]
            0 <= i < before.len() && has_pixel(before[i], x, y) {
            let i = choose|i: int|
                #![trigger before[i]]
                0 <= i < before.len() && has_pixel(before[i], x, y);
            assert(has_pixel(after[i], x, y));
            let j = choose|j: int|
                #![trigger rest[j]]
                0 <= j < rest.len() && has_pixel(rest[j], x, y);
            assert(has_pixel(rects[j], x, y));
        }
        if let Some(area) = last.shared(geo) {
            assert(after[after.len() - 1] == area);
            assert(has_pixel(area, x, y) <==> has_pixel(last, x, y) && has_pixel(geo, x, y));
        } else {
            assert(!(has_pixel(last, x, y) && has_pixel(geo, x, y)));
        }
        if exists|i: int|
            #![trigger after[i]]
            0 <= i < after.len() && has_pixel(after[i], x, y) {
            let i = choose|i: int|
                #![trigger after[i]]
                0 <= i < after.len() && has_pixel(after[i], x, y);
            if i < before.len() {
                assert(has_pixel(before[i], x, y));
            } else {
                assert(has_pixel(rects[rects.len() - 1], x, y));
            }
        }
    }
}

/// Clipping keeps exactly the pixels that lie in the window: `seen` is the window as
/// seen from the element.
pub proof fn lemma_clipping_keeps_the_window(
    rects: &Vec<Rectangle>,
    physical_geo: Rectangle,
    elem_loc: Point,
    clipped: Vec<Rectangle>,
    corners: &[Rectangle; 4],
    seen: Rectangle,
    parts: OpaqueParts,
    seen_corner: Rectangle,
    i: int,
    x: int,
    y: int,
)
    requires
        call_ensures(clip_rects, (rects, physical_geo, elem_loc), clipped),
        call_ensures(relative, (physical_geo, elem_loc), seen),
        call_ensures(opaque_regions, (rects, physical_geo, corners, elem_loc), parts),
        0 <= i < 4,
        call_ensures(relative, (corners[i], elem_loc), seen_corner),
        in_range(seen),
        forall|j: int| 0 <= j < rects.len() ==> in_range(#[trigger] rects@[j]),
    ensures
        (exists|j: int|
            #![trigger clipped@[j]]
            0 <= j < clipped.len() && has_pixel(clipped@[j], x, y)) <==> has_pixel(seen, x, y) && (
        exists|j: int|
            #![trigger rects@[j]]
            0 <= j < rects.len() && has_pixel(rects@[j], x, y)),
        parts.regions@ == clipped@,
        parts.cut_out[i] == seen_corner,
{
    lemma_within(rects@, seen, x, y);
}

/// Corners are seen from the element as they lie.
pub proof fn lemma_corners_are_seen_from_the_element(
    corners: &[Rectangle; 4],
    elem_loc: Point,
    seen: [Rectangle; 4],
    i: int,
    one: Rectangle,
)
    requires
        call_ensures(relative_corners, (corners, elem_loc), seen),
        0 <= i < 4,
        call_ensures(relative, (corners[i], elem_loc), one),
    ensures
        seen[i] == one,
{
}

/// The clip stays at the window, unless the element has a size and is drawn to another
/// area than its own and the window's.
pub proof fn lemma_clip_stays_at_the_window(
    physical_geo: Rectangle,
    inner_geo: Rectangle,
    uncropped: Rectangle,
    choice: ClipChoice,
)
    requires
        call_ensures(clip_for_uncropped, (physical_geo, inner_geo, uncropped), choice),
    ensures
        uncropped == physical_geo ==> choice is Window,
        uncropped == inner_geo ==> choice is Window,
        inner_geo.size.w <= 0 || inner_geo.size.h <= 0 ==> choice is Window,
        uncropped != physical_geo && uncropped != inner_geo && inner_geo.size.w > 0
            && inner_geo.size.h > 0 ==> choice is Scaled,
{
}

} // verus!
