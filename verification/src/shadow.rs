//! Window shadows: how a nine-patch texture is laid out and drawn.
use crate::geometry::{
    damage_on, damage_within, has_pixel, in_range, lemma_damage_on, least, moved, relative, Point, Rectangle, Size,
};
use vstd::prelude::*;

verus! {

/// The side of the box that corners and edges are evaluated against, in pixels:
/// wide enough to keep opposite corners apart.
pub const BOX_SPAN: i32 = 800;

/// The borders of a nine-patch texture that are not stretched.
#[derive(Debug, Clone, Copy, PartialEq, Eq, Structural)]
pub struct NinePatchMargins {
    pub left: i32,
    pub right: i32,
    pub top: i32,
    pub bottom: i32,
}

impl NinePatchMargins {
    /// Margins are never negative.
    pub open spec fn wf(self) -> bool {
        self.left >= 0 && self.right >= 0 && self.top >= 0 && self.bottom >= 0
    }
}

/// The measures of a shadow, in pixels.
#[derive(Debug, Clone, Copy)]
pub struct ShadowMeasures {
    /// How far the blur reaches.
    pub blur_padding: i32,
    /// How far the shadow's box reaches beyond the window.
    pub spread: i32,
    /// How far the shadow is moved down.
    pub offset_y: i32,
    /// The window's corner radii: top left, top right, bottom right, bottom left.
    pub radii: [i32; 4],
}

/// The larger of two lengths.
pub open spec fn longer(a: i32, b: i32) -> i32 {
    if a > b {
        a
    } else {
        b
    }
}

impl ShadowMeasures {
    /// Lengths are not negative, the offset leaves a margin at the top, and the
    /// texture has a size.
    pub open spec fn wf(self) -> bool {
        &&& 0 <= self.blur_padding
        &&& 0 <= self.spread
        &&& 0 <= self.offset_y <= self.side()
        &&& forall|i: int| 0 <= i < 4 ==> 0 <= #[trigger] self.radii[i]
        &&& 2 * self.side() + 1 <= i32::MAX
    }

    /// The margin of the texture, but for the offset.
    pub open spec fn side(self) -> int {
        self.blur_padding + self.spread + self.max_radius()
    }

    /// The largest corner radius.
    pub open spec fn max_radius(self) -> i32 {
        longer(longer(self.radii[0], self.radii[1]), longer(self.radii[2], self.radii[3]))
    }

    /// The margins of the shadow's texture.
    pub open spec fn spec_margins(self) -> NinePatchMargins {
        let side = self.side();
        NinePatchMargins {
            left: side as i32,
            right: side as i32,
            top: (side - self.offset_y) as i32,
            bottom: (side + self.offset_y) as i32,
        }
    }

    /// The size of the shadow's texture: the margins and one pixel to stretch.
    pub open spec fn texture_size(self) -> Size {
        let margins = self.spec_margins();
        Size {
            w: (margins.left + 1 + margins.right) as i32,
            h: (margins.top + 1 + margins.bottom) as i32,
        }
    }

    /// The largest corner radius.
    pub fn largest_radius(&self) -> (radius: i32)
        ensures
            radius == self.max_radius(),
    {
        let top: i32 = if self.radii[0] > self.radii[1] {
            self.radii[0]
        } else {
            self.radii[1]
        };
        let bottom: i32 = if self.radii[2] > self.radii[3] {
            self.radii[2]
        } else {
            self.radii[3]
        };
        if top > bottom {
            top
        } else {
            bottom
        }
    }

    /// The margins and the size of the shadow's texture.
    pub fn layout(&self) -> (layout: (NinePatchMargins, Size))
        requires
            self.wf(),
        ensures
            layout.0 == self.spec_margins(),
            layout.1 == self.texture_size(),
            layout.0.wf(),
    {
        let max_r: i32 = self.largest_radius();
        assert(0 <= max_r);
        let left: i32 = self.blur_padding + self.spread + max_r;
        let right: i32 = self.blur_padding + self.spread + max_r;
        let top: i32 = self.blur_padding + self.spread - self.offset_y + max_r;
        let bottom: i32 = self.blur_padding + self.spread + max_r + self.offset_y;
        (
            NinePatchMargins { left, right, top, bottom },
            Size { w: left + 1 + right, h: top + 1 + bottom },
        )
    }

    /// The span of the shadow's box and of the window along an axis, as seen from
    /// a pixel on the near or far side of the texture.
    pub open spec fn spec_spans(self, far: bool, length: i32, near_margin: i32, far_margin: i32) -> (
        AxisSpan,
        AxisSpan,
    ) {
        if !far {
            (
                AxisSpan::starting_at(self.blur_padding as int),
                AxisSpan::starting_at(near_margin - self.max_radius()),
            )
        } else {
            (
                AxisSpan::starting_at(length - self.blur_padding - BOX_SPAN),
                AxisSpan::starting_at(length - (far_margin - self.max_radius()) - BOX_SPAN),
            )
        }
    }

    fn spans(&self, far: bool, length: i32, near_margin: i32, far_margin: i32) -> (spans: (
        AxisSpan,
        AxisSpan,
    ))
        requires
            self.wf(),
            length == 2 * self.side() + 1,
            0 <= near_margin <= self.side(),
            self.max_radius() <= far_margin <= 2 * self.side(),
        ensures
            spans == self.spec_spans(far, length, near_margin, far_margin),
    {
        let max_r: i32 = self.largest_radius();
        assert(0 <= max_r);
        if !far {
            let box_lower: i32 = self.blur_padding;
            let window_lower: i32 = near_margin - max_r;
            (
                AxisSpan { lower: box_lower, upper: box_lower + BOX_SPAN },
                AxisSpan { lower: window_lower, upper: window_lower + BOX_SPAN },
            )
        } else {
            let box_upper: i32 = length - self.blur_padding;
            let window_upper: i32 = length - (far_margin - max_r);
            (
                AxisSpan { lower: box_upper - BOX_SPAN, upper: box_upper },
                AxisSpan { lower: window_upper - BOX_SPAN, upper: window_upper },
            )
        }
    }

    /// The radius of the shadow's box in a corner: a square corner stays square.
    pub open spec fn box_radius(self, corner: int) -> int {
        if self.radii[corner] > 0 {
            self.radii[corner] + self.spread
        } else {
            0
        }
    }

    /// What a pixel of the texture is evaluated against.
    pub fn pixel_frame(&self, px: i32, py: i32) -> (frame: PixelFrame)
        requires
            self.wf(),
            0 <= px < self.texture_size().w,
            0 <= py < self.texture_size().h,
        ensures
            ({
                let margins = self.spec_margins();
                let size = self.texture_size();
                let is_right = px > margins.left;
                let is_bottom = py > margins.top;
                let horizontal = self.spec_spans(is_right, size.w, margins.left, margins.right);
                let vertical = self.spec_spans(is_bottom, size.h, margins.top, margins.bottom);
                &&& frame.corner == corner_of(is_right, is_bottom)
                &&& frame.box_radius == self.box_radius(frame.corner as int)
                &&& frame.box_x == horizontal.0
                &&& frame.box_y == vertical.0
                &&& frame.window_x == horizontal.1
                &&& frame.window_y == vertical.1
            }),
    {
        let (margins, size): (NinePatchMargins, Size) = self.layout();
        assert(0 <= self.max_radius());
        let is_right: bool = px > margins.left;
        let is_bottom: bool = py > margins.top;
        let horizontal: (AxisSpan, AxisSpan) = self.spans(
            is_right,
            size.w,
            margins.left,
            margins.right,
        );
        let vertical: (AxisSpan, AxisSpan) = self.spans(
            is_bottom,
            size.h,
            margins.top,
            margins.bottom,
        );
        let corner: usize = corner_index(is_right, is_bottom);
        let box_radius: i32 = if self.radii[corner] > 0 {
            self.radii[corner] + self.spread
        } else {
            0
        };
        PixelFrame {
            corner,
            box_radius,
            box_x: horizontal.0,
            box_y: vertical.0,
            window_x: horizontal.1,
            window_y: vertical.1,
        }
    }
}

/// A span of an axis.
#[derive(Debug, Clone, Copy, PartialEq, Eq, Structural)]
pub struct AxisSpan {
    pub lower: i32,
    pub upper: i32,
}

impl AxisSpan {
    /// The span of the evaluation box that starts at `lower`.
    pub open spec fn starting_at(lower: int) -> AxisSpan {
        AxisSpan { lower: lower as i32, upper: (lower + BOX_SPAN) as i32 }
    }
}

/// What a pixel of a shadow's texture is evaluated against.
#[derive(Debug, Clone, Copy, PartialEq, Eq, Structural)]
pub struct PixelFrame {
    /// The corner that the pixel belongs to.
    pub corner: usize,
    /// The radius of the shadow's box.
    pub box_radius: i32,
    /// The shadow's box.
    pub box_x: AxisSpan,
    pub box_y: AxisSpan,
    /// The window, which is cut out.
    pub window_x: AxisSpan,
    pub window_y: AxisSpan,
}

/// The index of a corner: clockwise from the top left.
pub open spec fn corner_of(is_right: bool, is_bottom: bool) -> usize {
    if is_bottom {
        if is_right {
            2
        } else {
            3
        }
    } else if is_right {
        1
    } else {
        0
    }
}

/// The index of a corner: clockwise from the top left.
pub fn corner_index(is_right: bool, is_bottom: bool) -> (index: usize)
    ensures
        index == corner_of(is_right, is_bottom),
        index < 4,
{
    match (is_right, is_bottom) {
        (false, false) => 0,
        (true, false) => 1,
        (true, true) => 2,
        (false, true) => 3,
    }
}

/// A part of a nine-patch: the area of the texture and where it is drawn.
#[derive(Debug, Clone, Copy, PartialEq, Eq, Structural)]
pub struct Quad {
    pub src: Rectangle,
    pub dst: Rectangle,
}

/// The near margin along an axis: at most half of the destination.
pub open spec fn near(margin: i32, length: i32) -> int {
    least(margin as int, length as int / 2)
}

/// The far margin along an axis: at most what the near one leaves.
pub open spec fn far(near_margin: i32, far_margin: i32, length: i32) -> int {
    least(far_margin as int, length - near(near_margin, length))
}

/// The length of one of the three cells along an axis.
pub open spec fn cell_length(near_margin: i32, far_margin: i32, length: i32, cell: int) -> int {
    if cell == 0 {
        near(near_margin, length)
    } else if cell == 1 {
        length - near(near_margin, length) - far(near_margin, far_margin, length)
    } else {
        far(near_margin, far_margin, length)
    }
}

/// Where one of the three cells along an axis starts.
pub open spec fn cell_start(
    loc: i32,
    near_margin: i32,
    far_margin: i32,
    length: i32,
    cell: int,
) -> int {
    if cell == 0 {
        loc as int
    } else if cell == 1 {
        loc + near(near_margin, length)
    } else {
        loc + length - far(near_margin, far_margin, length)
    }
}

/// The area of the destination that a cell of the nine-patch covers, by column
/// and row.
pub open spec fn cell(dst: Rectangle, margins: NinePatchMargins, column: int, row: int) -> Rectangle {
    Rectangle {
        loc: Point {
            x: cell_start(dst.loc.x, margins.left, margins.right, dst.size.w, column) as i32,
            y: cell_start(dst.loc.y, margins.top, margins.bottom, dst.size.h, row) as i32,
        },
        size: Size {
            w: cell_length(margins.left, margins.right, dst.size.w, column) as i32,
            h: cell_length(margins.top, margins.bottom, dst.size.h, row) as i32,
        },
    }
}

/// Where one of the three parts of the texture starts along an axis.
pub open spec fn texture_start(margin: i32, cell: int) -> int {
    if cell == 0 {
        0
    } else if cell == 1 {
        margin as int
    } else {
        margin + 1
    }
}

/// The length of one of the three parts of the texture along an axis.
pub open spec fn texture_length(margin: i32, length: i32, cell: int) -> int {
    if cell == 0 {
        margin as int
    } else if cell == 1 {
        1
    } else {
        length - (margin + 1)
    }
}

/// The area of the texture that a cell of the nine-patch shows.
pub open spec fn texture_cell(
    texture: Size,
    margins: NinePatchMargins,
    column: int,
    row: int,
) -> Rectangle {
    Rectangle {
        loc: Point {
            x: texture_start(margins.left, column) as i32,
            y: texture_start(margins.top, row) as i32,
        },
        size: Size {
            w: texture_length(margins.left, texture.w, column) as i32,
            h: texture_length(margins.top, texture.h, row) as i32,
        },
    }
}

/// A cell of the nine-patch, where it is not empty.
pub open spec fn drawn(
    dst: Rectangle,
    texture: Size,
    margins: NinePatchMargins,
    column: int,
    row: int,
) -> Seq<Quad> {
    let area = cell(dst, margins, column, row);
    if area.size.w > 0 && area.size.h > 0 {
        seq![Quad { src: texture_cell(texture, margins, column, row), dst: area }]
    } else {
        Seq::empty()
    }
}

/// The cells around the window, in the order in which they are drawn.
pub open spec fn drawn_quads(dst: Rectangle, texture: Size, margins: NinePatchMargins) -> Seq<Quad> {
    drawn(dst, texture, margins, 0, 0) + drawn(dst, texture, margins, 1, 0) + drawn(
        dst,
        texture,
        margins,
        2,
        0,
    ) + drawn(dst, texture, margins, 0, 1) + drawn(dst, texture, margins, 2, 1) + drawn(
        dst,
        texture,
        margins,
        0,
        2,
    ) + drawn(dst, texture, margins, 1, 2) + drawn(dst, texture, margins, 2, 2)
}

/// Whether a nine-patch can be drawn without overflow.
pub open spec fn can_draw(dst: Rectangle, texture: Size, margins: NinePatchMargins) -> bool {
    &&& dst.wf()
    &&& margins.wf()
    &&& dst.loc.x + dst.size.w <= i32::MAX
    &&& dst.loc.y + dst.size.h <= i32::MAX
    &&& margins.left + 1 <= i32::MAX
    &&& margins.top + 1 <= i32::MAX
    &&& i32::MIN <= texture.w - (margins.left + 1)
    &&& i32::MIN <= texture.h - (margins.top + 1)
}

/// Adds a cell, unless it is empty.
fn push_cell(
    quads: &mut Vec<Quad>,
    src: Rectangle,
    area: Rectangle,
    Ghost(place): Ghost<(Rectangle, Size, NinePatchMargins, int, int)>,
)
    requires
        src == texture_cell(place.1, place.2, place.3, place.4),
        area == cell(place.0, place.2, place.3, place.4),
    ensures
        final(quads)@ == old(quads)@ + drawn(place.0, place.1, place.2, place.3, place.4),
{
    if area.size.w > 0 && area.size.h > 0 {
        quads.push(Quad { src, dst: area });
    }
    assert(quads@ =~= old(quads)@ + drawn(place.0, place.1, place.2, place.3, place.4));
}

fn rect(x: i32, y: i32, w: i32, h: i32) -> (r: Rectangle)
    ensures
        r == (Rectangle { loc: Point { x, y }, size: Size { w, h } }),
{
    Rectangle { loc: Point { x, y }, size: Size { w, h } }
}

/// The parts of a shadow that are drawn around the window, which is left free:
/// corners keep their size, edges are stretched from a single pixel.
pub fn nine_patch_quads(dst: Rectangle, texture: Size, margins: NinePatchMargins) -> (quads: Vec<
    Quad,
>)
    requires
        can_draw(dst, texture, margins),
    ensures
        quads@ == drawn_quads(dst, texture, margins),
{
    let dst_w: i32 = dst.size.w;
    let dst_h: i32 = dst.size.h;
    let ml: i32 = if margins.left < dst_w / 2 {
        margins.left
    } else {
        dst_w / 2
    };
    let mr: i32 = if margins.right < dst_w - ml {
        margins.right
    } else {
        dst_w - ml
    };
    let mt: i32 = if margins.top < dst_h / 2 {
        margins.top
    } else {
        dst_h / 2
    };
    let mb: i32 = if margins.bottom < dst_h - mt {
        margins.bottom
    } else {
        dst_h - mt
    };
    let edge_w: i32 = dst_w - ml - mr;
    let edge_h: i32 = dst_h - mt - mb;
    let x0: i32 = dst.loc.x;
    let x1: i32 = dst.loc.x + ml;
    let x2: i32 = dst.loc.x + dst_w - mr;
    let y0: i32 = dst.loc.y;
    let y1: i32 = dst.loc.y + mt;
    let y2: i32 = dst.loc.y + dst_h - mb;
    let u1: i32 = margins.left;
    let u2: i32 = margins.left + 1;
    let v1: i32 = margins.top;
    let v2: i32 = margins.top + 1;
    let right_w: i32 = texture.w - u2;
    let bottom_h: i32 = texture.h - v2;

    let mut quads: Vec<Quad> = Vec::new();
    push_cell(
        &mut quads,
        rect(0, 0, u1, v1),
        rect(x0, y0, ml, mt),
        Ghost((dst, texture, margins, 0, 0)),
    );
    assert(quads@ =~= drawn(dst, texture, margins, 0, 0));
    push_cell(
        &mut quads,
        rect(u1, 0, 1, v1),
        rect(x1, y0, edge_w, mt),
        Ghost((dst, texture, margins, 1, 0)),
    );
    push_cell(
        &mut quads,
        rect(u2, 0, right_w, v1),
        rect(x2, y0, mr, mt),
        Ghost((dst, texture, margins, 2, 0)),
    );
    push_cell(
        &mut quads,
        rect(0, v1, u1, 1),
        rect(x0, y1, ml, edge_h),
        Ghost((dst, texture, margins, 0, 1)),
    );
    push_cell(
        &mut quads,
        rect(u2, v1, right_w, 1),
        rect(x2, y1, mr, edge_h),
        Ghost((dst, texture, margins, 2, 1)),
    );
    push_cell(
        &mut quads,
        rect(0, v2, u1, bottom_h),
        rect(x0, y2, ml, mb),
        Ghost((dst, texture, margins, 0, 2)),
    );
    push_cell(
        &mut quads,
        rect(u1, v2, 1, bottom_h),
        rect(x1, y2, edge_w, mb),
        Ghost((dst, texture, margins, 1, 2)),
    );
    push_cell(
        &mut quads,
        rect(u2, v2, right_w, bottom_h),
        rect(x2, y2, mr, mb),
        Ghost((dst, texture, margins, 2, 2)),
    );
    quads
}

/// The eight parts and the window tile the destination: every pixel lies in
/// exactly one cell, and no cell reaches outside.
pub proof fn lemma_cells_tile_destination(dst: Rectangle, margins: NinePatchMargins, x: int, y: int)
    requires
        dst.wf(),
        margins.wf(),
        dst.loc.x + dst.size.w <= i32::MAX,
        dst.loc.y + dst.size.h <= i32::MAX,
    ensures
        dst.covers(x, y) <==> exists|column: int, row: int|
            0 <= column < 3 && 0 <= row < 3 && #[trigger] cell(dst, margins, column, row).covers(
                x,
                y,
            ),
        forall|column: int, row: int, other_column: int, other_row: int|
            0 <= column < 3 && 0 <= row < 3 && 0 <= other_column < 3 && 0 <= other_row < 3
                && #[trigger] cell(dst, margins, column, row).covers(x, y) && #[trigger] cell(
                dst,
                margins,
                other_column,
                other_row,
            ).covers(x, y) ==> column == other_column && row == other_row,
{
    let w = dst.size.w;
    let h = dst.size.h;
    let x1 = cell_start(dst.loc.x, margins.left, margins.right, w, 1);
    let x2 = cell_start(dst.loc.x, margins.left, margins.right, w, 2);
    let y1 = cell_start(dst.loc.y, margins.top, margins.bottom, h, 1);
    let y2 = cell_start(dst.loc.y, margins.top, margins.bottom, h, 2);
    assert(dst.loc.x <= x1 <= x2 <= dst.loc.x + w);
    assert(dst.loc.y <= y1 <= y2 <= dst.loc.y + h);
    if dst.covers(x, y) {
        let column: int = if x < x1 {
            0
        } else if x < x2 {
            1
        } else {
            2
        };
        let row: int = if y < y1 {
            0
        } else if y < y2 {
            1
        } else {
            2
        };
        assert(cell(dst, margins, column, row).covers(x, y));
    }
}

/// What of `damage`, which is relative to `dst`, falls on a part of it, as seen
/// from that part. A part without damage is not drawn.
pub fn local_damage(quad_dst: Rectangle, dst: Rectangle, damage: &Vec<Rectangle>) -> (local: Vec<
    Rectangle,
>)
    ensures
        local@ == damage_on(damage@, moved(quad_dst, dst.loc)),
{
    damage_within(damage, relative(quad_dst, dst.loc))
}

/// The identity of a window's shadow and how often it changed.
#[derive(Debug, Clone, Copy, PartialEq, Eq, Structural)]
pub struct ShadowIdentity {
    pub id: u64,
    pub commit: usize,
}

/// The identity of a window's shadow: that of the last one, with another commit
/// where its parameters changed, or a new one.
pub fn shadow_identity(
    cached: Option<ShadowIdentity>,
    params_changed: bool,
    new_id: u64,
) -> (identity: ShadowIdentity)
    ensures
        identity == match cached {
            None => ShadowIdentity { id: new_id, commit: 0 },
            Some(last) => if params_changed {
                ShadowIdentity {
                    id: last.id,
                    commit: if last.commit == usize::MAX {
                        0
                    } else {
                        (last.commit + 1) as usize
                    },
                }
            } else {
                last
            },
        },
{
    match cached {
        None => ShadowIdentity { id: new_id, commit: 0 },
        Some(last) => if params_changed {
            ShadowIdentity { id: last.id, commit: last.commit.wrapping_add(1) }
        } else {
            last
        },
    }
}

/// How a shadow is drawn.
#[derive(Debug, Clone, Copy, PartialEq, Eq, Structural)]
pub enum ShadowKind {
    NinePatch,
    Pixel,
}

/// How a shadow is drawn: by a shader where the renderer has one, unless
/// nine-patches are forced; and by the shader, too, where no nine-patch could
/// be made.
pub fn shadow_kind(has_shader: bool, force_nine_patch: bool, nine_patch_failed: bool) -> (kind:
    ShadowKind)
    ensures
        kind == if (has_shader && !force_nine_patch) || nine_patch_failed {
            ShadowKind::Pixel
        } else {
            ShadowKind::NinePatch
        },
{
    if (has_shader && !force_nine_patch) || nine_patch_failed {
        ShadowKind::Pixel
    } else {
        ShadowKind::NinePatch
    }
}

/// A shadow's texture has room for the blur, the spread and the largest corner on each
/// side, is moved down by the offset, and has one pixel between its margins.
pub proof fn lemma_texture_has_room(
    measures: &ShadowMeasures,
    radius: i32,
    layout: (NinePatchMargins, Size),
    i: int,
)
    requires
        measures.wf(),
        call_ensures(ShadowMeasures::largest_radius, (measures,), radius),
        call_ensures(ShadowMeasures::layout, (measures,), layout),
    ensures
        0 <= i < 4 ==> measures.radii[i] <= radius,
        exists|j: int| 0 <= j < 4 && #[trigger] measures.radii[j] == radius,
        layout.0.left == measures.blur_padding + measures.spread + radius,
        layout.0.right == layout.0.left,
        layout.0.top + measures.offset_y == layout.0.left,
        layout.0.bottom == layout.0.left + measures.offset_y,
        layout.1.w == layout.0.left + layout.0.right + 1,
        layout.1.h == layout.0.top + layout.0.bottom + 1,
{
    assert(measures.radii[0] == radius || measures.radii[1] == radius || measures.radii[2] == radius
        || measures.radii[3] == radius);
}

/// A pixel of the texture is evaluated for the corner on its side: against a box of 800
/// pixels that leaves the blur free on that side, and a window of 800 pixels that
/// starts behind the margin, as far as the largest corner reaches into it. The box is
/// rounder than the window by the spread, and square where the window is.
pub proof fn lemma_pixels_belong_to_their_corner(
    measures: &ShadowMeasures,
    px: i32,
    py: i32,
    frame: PixelFrame,
    layout: (NinePatchMargins, Size),
    radius: i32,
)
    requires
        measures.wf(),
        0 <= px < measures.texture_size().w,
        0 <= py < measures.texture_size().h,
        call_ensures(ShadowMeasures::pixel_frame, (measures, px, py), frame),
        call_ensures(ShadowMeasures::layout, (measures,), layout),
        call_ensures(ShadowMeasures::largest_radius, (measures,), radius),
    ensures
        px <= layout.0.left && py <= layout.0.top ==> frame.corner == 0,
        px > layout.0.left && py <= layout.0.top ==> frame.corner == 1,
        px > layout.0.left && py > layout.0.top ==> frame.corner == 2,
        px <= layout.0.left && py > layout.0.top ==> frame.corner == 3,
        frame.box_x.upper - frame.box_x.lower == 800,
        frame.box_y.upper - frame.box_y.lower == 800,
        frame.window_x.upper - frame.window_x.lower == 800,
        frame.window_y.upper - frame.window_y.lower == 800,
        px <= layout.0.left ==> frame.box_x.lower == measures.blur_padding && frame.window_x.lower
            == layout.0.left - radius,
        px > layout.0.left ==> frame.box_x.upper == layout.1.w - measures.blur_padding
            && frame.window_x.upper == layout.1.w - layout.0.right + radius,
        py <= layout.0.top ==> frame.box_y.lower == measures.blur_padding && frame.window_y.lower
            == layout.0.top - radius,
        py > layout.0.top ==> frame.box_y.upper == layout.1.h - measures.blur_padding
            && frame.window_y.upper == layout.1.h - layout.0.bottom + radius,
        measures.radii[frame.corner as int] > 0 ==> frame.box_radius
            == measures.radii[frame.corner as int] + measures.spread,
        measures.radii[frame.corner as int] <= 0 ==> frame.box_radius == 0,
{
    assert(measures.max_radius() == radius);
    assert(0 <= measures.radii[0] && 0 <= measures.radii[1] && 0 <= measures.radii[2] && 0
        <= measures.radii[3]);
}

/// Corners count clockwise from the top left.
pub proof fn lemma_corners_count_clockwise(is_right: bool, is_bottom: bool, index: usize)
    requires
        call_ensures(corner_index, (is_right, is_bottom), index),
    ensures
        index == 0 <==> !is_right && !is_bottom,
        index == 1 <==> is_right && !is_bottom,
        index == 2 <==> is_right && is_bottom,
        index == 3 <==> !is_right && is_bottom,
{
}

proof fn lemma_joined_quads(a: Seq<Quad>, b: Seq<Quad>, quad: Quad)
    ensures
        (a + b).contains(quad) <==> a.contains(quad) || b.contains(quad),
{
    if a.contains(quad) {
        let i = choose|i: int| 0 <= i < a.len() && a[i] == quad;
        assert((a + b)[i] == quad);
    }
    if b.contains(quad) {
        let i = choose|i: int| 0 <= i < b.len() && b[i] == quad;
        assert((a + b)[a.len() as int + i] == quad);
    }
    if (a + b).contains(quad) {
        let i = choose|i: int| 0 <= i < (a + b).len() && (a + b)[i] == quad;
        if i < a.len() {
            assert(a[i] == quad);
        } else {
            assert(b[i - a.len()] == quad);
        }
    }
}

proof fn lemma_drawn_holds(
    dst: Rectangle,
    texture: Size,
    margins: NinePatchMargins,
    column: int,
    row: int,
    quad: Quad,
)
    ensures
        drawn(dst, texture, margins, column, row).contains(quad) <==> quad.dst == cell(
            dst,
            margins,
            column,
            row,
        ) && quad.src == texture_cell(texture, margins, column, row) && quad.dst.size.w > 0
            && quad.dst.size.h > 0,
{
    let all = drawn(dst, texture, margins, column, row);
    let area = cell(dst, margins, column, row);
    if area.size.w > 0 && area.size.h > 0 {
        assert(all[0] == (Quad { src: texture_cell(texture, margins, column, row), dst: area }));
    }
}

proof fn lemma_drawn_quads(dst: Rectangle, texture: Size, margins: NinePatchMargins, quad: Quad)
    ensures
        drawn_quads(dst, texture, margins).contains(quad) <==> exists|column: int, row: int|
            0 <= column <= 2 && 0 <= row <= 2 && !(column == 1 && row == 1) && quad.dst
                == #[trigger] cell(dst, margins, column, row) && quad.src == texture_cell(
                texture,
                margins,
                column,
                row,
            ) && quad.dst.size.w > 0 && quad.dst.size.h > 0,
{
    let a = drawn(dst, texture, margins, 0, 0);
    let b = drawn(dst, texture, margins, 1, 0);
    let c = drawn(dst, texture, margins, 2, 0);
    let d = drawn(dst, texture, margins, 0, 1);
    let e = drawn(dst, texture, margins, 2, 1);
    let f = drawn(dst, texture, margins, 0, 2);
    let g = drawn(dst, texture, margins, 1, 2);
    let h = drawn(dst, texture, margins, 2, 2);
    lemma_joined_quads(a, b, quad);
    lemma_joined_quads(a + b, c, quad);
    lemma_joined_quads(a + b + c, d, quad);
    lemma_joined_quads(a + b + c + d, e, quad);
    lemma_joined_quads(a + b + c + d + e, f, quad);
    lemma_joined_quads(a + b + c + d + e + f, g, quad);
    lemma_joined_quads(a + b + c + d + e + f + g, h, quad);
    lemma_drawn_holds(dst, texture, margins, 0, 0, quad);
    lemma_drawn_holds(dst, texture, margins, 1, 0, quad);
    lemma_drawn_holds(dst, texture, margins, 2, 0, quad);
    lemma_drawn_holds(dst, texture, margins, 0, 1, quad);
    lemma_drawn_holds(dst, texture, margins, 2, 1, quad);
    lemma_drawn_holds(dst, texture, margins, 0, 2, quad);
    lemma_drawn_holds(dst, texture, margins, 1, 2, quad);
    lemma_drawn_holds(dst, texture, margins, 2, 2, quad);
    if exists|column: int, row: int|
        0 <= column <= 2 && 0 <= row <= 2 && !(column == 1 && row == 1) && quad.dst
            == #[trigger] cell(dst, margins, column, row) && quad.src == texture_cell(
            texture,
            margins,
            column,
            row,
        ) && quad.dst.size.w > 0 && quad.dst.size.h > 0 {
        let (column, row) = choose|column: int, row: int|
            0 <= column <= 2 && 0 <= row <= 2 && !(column == 1 && row == 1) && quad.dst
                == #[trigger] cell(dst, margins, column, row) && quad.src == texture_cell(
                texture,
                margins,
                column,
                row,
            ) && quad.dst.size.w > 0 && quad.dst.size.h > 0;
        assert((column == 0 || column == 1 || column == 2) && (row == 0 || row == 1 || row == 2));
    }
}

/// The margin that is drawn on the near and on the far side of an axis: the texture's
/// own, but no more than half of the destination, and no more than the rest of it.
pub open spec fn drawn_margins(
    near_margin: i32,
    far_margin: i32,
    length: i32,
    near_drawn: int,
    far_drawn: int,
) -> bool {
    &&& 0 <= near_drawn <= near_margin
    &&& 2 * near_drawn <= length
    &&& near_drawn == near_margin || 2 * near_drawn + 2 > length
    &&& 0 <= far_drawn <= far_margin
    &&& near_drawn + far_drawn <= length
    &&& far_drawn == far_margin || near_drawn + far_drawn == length
}

/// A shadow is drawn around the window and nowhere else: a pixel lies in a part of it
/// exactly when it lies in the destination but not between the margins on both axes, and
/// then in one part only. Each part shows the area of the texture on its own side: the
/// margins as they are, and between them a single pixel.
pub proof fn lemma_shadow_is_drawn_around_the_window(
    dst: Rectangle,
    texture: Size,
    margins: NinePatchMargins,
    quads: Vec<Quad>,
    left: int,
    right: int,
    top: int,
    bottom: int,
    x: int,
    y: int,
    quad: Quad,
    other: Quad,
)
    requires
        can_draw(dst, texture, margins),
        call_ensures(nine_patch_quads, (dst, texture, margins), quads),
        drawn_margins(margins.left, margins.right, dst.size.w, left, right),
        drawn_margins(margins.top, margins.bottom, dst.size.h, top, bottom),
    ensures
        ({
            let in_window = dst.loc.x + left <= x < dst.loc.x + dst.size.w - right && dst.loc.y + top
                <= y < dst.loc.y + dst.size.h - bottom;
            &&& has_pixel(dst, x, y) && !in_window ==> exists|found: Quad| #[trigger]
                quads@.contains(found) && has_pixel(found.dst, x, y)
            &&& quads@.contains(quad) && has_pixel(quad.dst, x, y) ==> has_pixel(dst, x, y)
                && !in_window
        }),
        quads@.contains(quad) && quads@.contains(other) && has_pixel(quad.dst, x, y) && has_pixel(
            other.dst,
            x,
            y,
        ) ==> quad == other,
        quads@.contains(quad) && has_pixel(quad.dst, x, y) ==> {
            &&& x < dst.loc.x + left ==> quad.src.loc.x == 0 && quad.src.size.w == margins.left
            &&& dst.loc.x + left <= x < dst.loc.x + dst.size.w - right ==> quad.src.loc.x
                == margins.left && quad.src.size.w == 1
            &&& x >= dst.loc.x + dst.size.w - right && x >= dst.loc.x + left ==> quad.src.loc.x
                == margins.left + 1 && quad.src.loc.x + quad.src.size.w == texture.w
            &&& y < dst.loc.y + top ==> quad.src.loc.y == 0 && quad.src.size.h == margins.top
            &&& dst.loc.y + top <= y < dst.loc.y + dst.size.h - bottom ==> quad.src.loc.y
                == margins.top && quad.src.size.h == 1
            &&& y >= dst.loc.y + dst.size.h - bottom && y >= dst.loc.y + top ==> quad.src.loc.y
                == margins.top + 1 && quad.src.loc.y + quad.src.size.h == texture.h
        },
{
    let w = dst.size.w;
    let h = dst.size.h;
    assert(left == near(margins.left, w));
    assert(right == far(margins.left, margins.right, w));
    assert(top == near(margins.top, h));
    assert(bottom == far(margins.top, margins.bottom, h));
    lemma_drawn_quads(dst, texture, margins, quad);
    lemma_drawn_quads(dst, texture, margins, other);
    if has_pixel(dst, x, y) {
        let column: int = if x < dst.loc.x + left {
            0
        } else if x < dst.loc.x + w - right {
            1
        } else {
            2
        };
        let row: int = if y < dst.loc.y + top {
            0
        } else if y < dst.loc.y + h - bottom {
            1
        } else {
            2
        };
        let found = Quad {
            src: texture_cell(texture, margins, column, row),
            dst: cell(dst, margins, column, row),
        };
        assert(has_pixel(found.dst, x, y));
        lemma_drawn_quads(dst, texture, margins, found);
        if !(column == 1 && row == 1) {
            assert(quads@.contains(found));
        }
    }
}

/// A part of a shadow is drawn anew exactly where it is damaged: `damage` is relative to
/// the shadow, what is drawn to the part.
pub proof fn lemma_damaged_parts_are_drawn(
    quad_dst: Rectangle,
    dst: Rectangle,
    damage: &Vec<Rectangle>,
    local: Vec<Rectangle>,
    part: Rectangle,
    x: int,
    y: int,
)
    requires
        call_ensures(local_damage, (quad_dst, dst, damage), local),
        call_ensures(relative, (quad_dst, dst.loc), part),
        in_range(part),
        forall|i: int| 0 <= i < damage.len() ==> in_range(#[trigger] damage@[i]),
    ensures
        (exists|i: int|
            #![trigger local@[i]]
            0 <= i < local.len() && has_pixel(local@[i], x - part.loc.x, y - part.loc.y))
            <==> has_pixel(part, x, y) && (exists|i: int|
            #![trigger damage@[i]]
            0 <= i < damage.len() && has_pixel(damage@[i], x, y)),
{
    assert(part == moved(quad_dst, dst.loc));
    lemma_damage_on(damage@, part, x, y);
}

/// A shadow keeps its id and, while nothing changes, its commit; a change gives it
/// another commit; and one that is new starts with its own id.
pub proof fn lemma_identity_follows_changes(
    last: ShadowIdentity,
    changed: ShadowIdentity,
    same: ShadowIdentity,
    first: ShadowIdentity,
    params_changed: bool,
    new_id: u64,
)
    requires
        call_ensures(shadow_identity, (Some(last), true, new_id), changed),
        call_ensures(shadow_identity, (Some(last), false, new_id), same),
        call_ensures(shadow_identity, (None::<ShadowIdentity>, params_changed, new_id), first),
    ensures
        changed.id == last.id,
        changed.commit != last.commit,
        last.commit < usize::MAX ==> changed.commit == last.commit + 1,
        last.commit == usize::MAX ==> changed.commit == 0,
        same == last,
        first.id == new_id,
        first.commit == 0,
{
}

/// Shadows are drawn by the shader that a renderer has, unless nine-patches are forced,
/// and by a shader where no nine-patch can be made.
pub proof fn lemma_shadow_kinds(
    has_shader: bool,
    force_nine_patch: bool,
    failed: bool,
    kind: ShadowKind,
)
    requires
        call_ensures(shadow_kind, (has_shader, force_nine_patch, failed), kind),
    ensures
        failed ==> kind is Pixel,
        !failed && force_nine_patch ==> kind is NinePatch,
        !failed && !has_shader ==> kind is NinePatch,
        has_shader && !force_nine_patch ==> kind is Pixel,
{
}

} // verus!
