//! Copying the content of outputs and windows for clients that capture them.
use crate::frame::PostprocessSource;
use crate::geometry::{
    damage_on, damage_within, has_pixel, in_range, lemma_damage_on, lemma_inverted_size,
    lemma_placed_stays_inside, Point, Rectangle, Size, Transform,
};
use vstd::prelude::*;

verus! {

/// Why a capture fails.
#[derive(Debug, Clone, Copy, PartialEq, Eq, Structural)]
pub enum CaptureFailureReason {
    Unknown,
    BufferConstraints,
    Stopped,
}

/// A pending capture of an output.
#[derive(Debug, Clone, Copy, PartialEq, Eq, Structural)]
pub struct PendingCopy {
    /// The client's buffer is shared memory.
    pub is_shm: bool,
    /// The cursor is captured, too.
    pub draw_cursor: bool,
    /// The client asks for more than what changed.
    pub has_additional_damage: bool,
}

/// How the damage of a capture is computed.
#[derive(Debug, Clone, Copy, PartialEq, Eq, Structural)]
pub struct CopyTracking {
    /// The age of the client's buffer: content of shared memory is never reused.
    pub age: usize,
    /// The damage that the client asks for counts before that of the elements.
    pub with_additional_damage: bool,
}

/// How the damage of a capture is computed.
pub open spec fn tracking_of(copy: PendingCopy) -> CopyTracking {
    CopyTracking {
        age: if copy.is_shm {
            0
        } else {
            1
        },
        with_additional_damage: copy.has_additional_damage,
    }
}

/// Whether some capture leaves out the cursor.
pub open spec fn hides_some_cursor(copies: Seq<PendingCopy>) -> bool {
    exists|i: int| 0 <= i < copies.len() && !(#[trigger] copies[i]).draw_cursor
}

/// Prepares the pending captures of an output: says how the damage of each is
/// computed, and whether some capture leaves out the cursor.
pub fn take_screencopy_frames(copies: &Vec<PendingCopy>) -> (taken: (Vec<CopyTracking>, bool))
    ensures
        taken.0@ == copies@.map_values(|copy: PendingCopy| tracking_of(copy)),
        taken.1 == hides_some_cursor(copies@),
{
    let mut tracking: Vec<CopyTracking> = Vec::new();
    let mut hides_cursor: bool = false;
    for i in 0..copies.len()
        invariant
            tracking.len() == i,
            forall|j: int| 0 <= j < i ==> tracking[j] == tracking_of(#[trigger] copies[j]),
            hides_cursor == exists|j: int| 0 <= j < i && !(#[trigger] copies[j]).draw_cursor,
    {
        let copy: PendingCopy = copies[i];
        let age: usize = if copy.is_shm {
            0
        } else {
            1
        };
        tracking.push(CopyTracking { age, with_additional_damage: copy.has_additional_damage });
        if !copy.draw_cursor {
            assert(!copies[i as int].draw_cursor);
            hides_cursor = true;
        }
    }
    assert(tracking@ =~= copies@.map_values(|copy: PendingCopy| tracking_of(copy)));
    (tracking, hides_cursor)
}

/// How many elements at the front belong to the cursor.
pub open spec fn leading(is_cursor: Seq<bool>, from: int) -> int
    decreases is_cursor.len() - from,
{
    if from < 0 || from >= is_cursor.len() || !is_cursor[from] {
        from
    } else {
        leading(is_cursor, from + 1)
    }
}

/// How many elements at the front belong to the cursor.
pub fn cursor_element_count(is_cursor: &Vec<bool>) -> (count: usize)
    ensures
        count == leading(is_cursor@, 0),
        count <= is_cursor.len(),
{
    let mut count: usize = 0;
    while count < is_cursor.len() && is_cursor[count]
        invariant
            count <= is_cursor.len(),
            leading(is_cursor@, 0) == leading(is_cursor@, count as int),
        decreases is_cursor.len() - count,
    {
        count = count + 1;
    }
    count
}

/// The smallest rectangle around all of `geometries`, if there are any.
pub open spec fn around_all(geometries: Seq<Rectangle>) -> Option<Rectangle>
    decreases geometries.len(),
{
    if geometries.len() == 0 {
        None
    } else {
        match around_all(geometries.drop_last()) {
            Some(rect) => Some(rect.around(geometries.last())),
            None => Some(geometries.last()),
        }
    }
}

/// The smallest rectangle around all elements of the cursor, if it has any.
pub fn cursor_geometry(geometries: &Vec<Rectangle>) -> (around: Option<Rectangle>)
    requires
        forall|i: int| 0 <= i < geometries.len() ==> (#[trigger] geometries[i]).wf(),
    ensures
        around == around_all(geometries@),
        around matches Some(rect) ==> rect.wf(),
{
    let mut around: Option<Rectangle> = None;
    assert(geometries@.take(0) =~= Seq::empty());
    for i in 0..geometries.len()
        invariant
            forall|j: int| 0 <= j < geometries.len() ==> (#[trigger] geometries[j]).wf(),
            around == around_all(geometries@.take(i as int)),
            around matches Some(rect) ==> rect.wf(),
    {
        proof {
            assert(geometries@.take(i + 1).drop_last() =~= geometries@.take(i as int));
            assert(geometries@.take(i + 1).last() == geometries@[i as int]);
        }
        around =
        match around {
            Some(rect) => Some(rect.merge(geometries[i])),
            None => Some(geometries[i]),
        };
    }
    assert(geometries@.take(geometries@.len() as int) =~= geometries@);
    around
}

/// What of a frame's elements is composited to the cursor's own texture.
#[derive(Debug, Clone, Copy, PartialEq, Eq, Structural)]
pub struct CursorPass {
    /// How many elements at the front; the others are composited with the content.
    pub elements: usize,
    /// The smallest rectangle around them, where there are any.
    pub geometry: Option<Rectangle>,
}

/// What of a frame's elements is composited to the cursor's own texture.
pub open spec fn cursor_pass_of(
    is_cursor: Seq<bool>,
    geometries: Seq<Rectangle>,
    apart: bool,
) -> CursorPass {
    if apart {
        CursorPass {
            elements: leading(is_cursor, 0) as usize,
            geometry: around_all(geometries.take(leading(is_cursor, 0))),
        }
    } else {
        CursorPass { elements: 0, geometry: None }
    }
}

/// Parts a frame's elements: where the cursor is composited apart, the elements at
/// the front that belong to it go to a texture of their own.
pub fn cursor_pass(is_cursor: &Vec<bool>, geometries: &Vec<Rectangle>, apart: bool) -> (pass:
    CursorPass)
    requires
        is_cursor.len() == geometries.len(),
        forall|i: int| 0 <= i < geometries.len() ==> (#[trigger] geometries[i]).wf(),
    ensures
        pass == cursor_pass_of(is_cursor@, geometries@, apart),
{
    if !apart {
        return CursorPass { elements: 0, geometry: None };
    }
    let elements: usize = cursor_element_count(is_cursor);
    let mut front: Vec<Rectangle> = Vec::new();
    for i in 0..elements
        invariant
            elements <= geometries.len(),
            front@ == geometries@.take(i as int),
    {
        front.push(geometries[i]);
        assert(front@ =~= geometries@.take(i + 1));
    }
    CursorPass { elements, geometry: cursor_geometry(&front) }
}

/// Where the cursor is composited apart, what is composited with the content does
/// not start with the cursor, and nothing else is left out of it.
pub proof fn lemma_cursor_is_left_out(is_cursor: Seq<bool>, geometries: Seq<Rectangle>)
    requires
        is_cursor.len() <= usize::MAX,
    ensures
        ({
            let elements = cursor_pass_of(is_cursor, geometries, true).elements;
            &&& elements <= is_cursor.len()
            &&& elements < is_cursor.len() ==> !is_cursor[elements as int]
            &&& forall|i: int| 0 <= i < elements ==> is_cursor[i]
        }),
{
    lemma_leading(is_cursor, 0);
}

proof fn lemma_leading(is_cursor: Seq<bool>, from: int)
    requires
        0 <= from <= is_cursor.len(),
    ensures
        from <= leading(is_cursor, from) <= is_cursor.len(),
        leading(is_cursor, from) < is_cursor.len() ==> !is_cursor[leading(is_cursor, from)],
        forall|i: int| from <= i < leading(is_cursor, from) ==> is_cursor[i],
    decreases is_cursor.len() - from,
{
    if from < is_cursor.len() && is_cursor[from] {
        lemma_leading(is_cursor, from + 1);
    }
}

/// Where a damaged rectangle of the output lies in a client's buffer.
pub open spec fn in_buffer(rect: Rectangle, transform: Transform, buffer_size: Size) -> Rectangle {
    transform.inverted().placed(rect, transform.inverted().sized(buffer_size))
}

/// Whether that can be computed.
pub open spec fn fits_buffer(rect: Rectangle, transform: Transform, buffer_size: Size) -> bool {
    transform.inverted().can_place(rect, transform.inverted().sized(buffer_size))
}

/// Converts the damage of an output to a client's buffer: if the screen is
/// rotated, so is the damage.
pub fn damage_in_buffer(damage: &Vec<Rectangle>, transform: Transform, buffer_size: Size) -> (
    adjusted: Vec<Rectangle>)
    requires
        forall|i: int|
            0 <= i < damage.len() ==> fits_buffer(#[trigger] damage[i], transform, buffer_size),
    ensures
        adjusted@ == damage@.map_values(|rect: Rectangle| in_buffer(rect, transform, buffer_size)),
{
    let inverse: Transform = transform.invert();
    let area: Size = inverse.transform_size(buffer_size);
    let mut adjusted: Vec<Rectangle> = Vec::new();
    for i in 0..damage.len()
        invariant
            inverse == transform.inverted(),
            area == inverse.sized(buffer_size),
            forall|j: int|
                0 <= j < damage.len() ==> fits_buffer(#[trigger] damage[j], transform, buffer_size),
            adjusted.len() == i,
            forall|j: int|
                0 <= j < i ==> adjusted[j] == in_buffer(#[trigger] damage[j], transform, buffer_size),
    {
        adjusted.push(inverse.transform_rect_in(damage[i], area));
    }
    assert(adjusted@ =~= damage@.map_values(
        |rect: Rectangle| in_buffer(rect, transform, buffer_size),
    ));
    adjusted
}

/// Damage within an output lies within a client's buffer of the same size.
pub proof fn lemma_damage_stays_in_buffer(rect: Rectangle, transform: Transform, buffer_size: Size)
    requires
        rect.wf(),
        rect.loc.x >= 0,
        rect.loc.y >= 0,
        rect.loc.x + rect.size.w <= transform.inverted().sized(buffer_size).w,
        rect.loc.y + rect.size.h <= transform.inverted().sized(buffer_size).h,
    ensures
        fits_buffer(rect, transform, buffer_size),
        ({
            let adjusted = in_buffer(rect, transform, buffer_size);
            &&& adjusted.loc.x >= 0
            &&& adjusted.loc.y >= 0
            &&& adjusted.loc.x + adjusted.size.w <= buffer_size.w
            &&& adjusted.loc.y + adjusted.size.h <= buffer_size.h
        }),
{
    lemma_placed_stays_inside(
        transform.inverted(),
        rect,
        transform.inverted().sized(buffer_size),
    );
    lemma_inverted_size(transform.inverted(), buffer_size);
}

/// What of `damage` falls on the cursor, relative to the cursor.
pub fn cursor_damage(damage: &Vec<Rectangle>, cursor: Rectangle) -> (on_cursor: Vec<Rectangle>)
    ensures
        on_cursor@ == damage_on(damage@, cursor),
{
    damage_within(damage, cursor)
}

/// What is known of a capture of an output.
#[derive(Debug, Clone, Copy, PartialEq, Eq, Structural)]
pub struct CopyRequest {
    /// The output has a mode, so its damage is known.
    pub has_mode: bool,
    /// How the output is rotated and flipped.
    pub transform: Transform,
    /// The size of the client's buffer, where it is known.
    pub buffer_size: Option<Size>,
    /// The format of the client's shared memory, or `None` for a dmabuf.
    pub shm_format: Option<u32>,
    /// The cursor is captured, too.
    pub draw_cursor: bool,
    /// The frame that was just rendered is empty.
    pub frame_is_empty: bool,
}

/// What was rendered before post-processing.
#[derive(Debug, Clone, Copy, PartialEq, Eq, Structural)]
pub struct PrePostprocess {
    /// The content was rendered to a texture; its format, where it has one.
    pub texture: Option<Option<u32>>,
    /// The cursor was rendered to a texture of its own.
    pub has_cursor_texture: bool,
    /// Where the cursor is.
    pub cursor_geometry: Option<Rectangle>,
}

/// What a frame has to offer from before post-processing: its content where that is
/// the output's own, and the cursor where that was composited apart.
pub fn pre_postprocess(source: PostprocessSource, format: Option<u32>, pass: CursorPass) -> (pre:
    PrePostprocess)
    ensures
        pre == if source is Own {
            PrePostprocess {
                texture: Some(format),
                has_cursor_texture: pass.geometry is Some,
                cursor_geometry: pass.geometry,
            }
        } else {
            PrePostprocess { texture: None, has_cursor_texture: false, cursor_geometry: None }
        },
{
    match source {
        PostprocessSource::Own => PrePostprocess {
            texture: Some(format),
            has_cursor_texture: pass.geometry.is_some(),
            cursor_geometry: pass.geometry,
        },
        _ => PrePostprocess { texture: None, has_cursor_texture: false, cursor_geometry: None },
    }
}

/// Where captured content is rendered to.
#[derive(Debug, Clone, Copy, PartialEq, Eq, Structural)]
pub enum CopyTarget {
    /// The client's dmabuf.
    Dmabuf,
    /// A new buffer of this format.
    Offscreen(u32),
    /// The texture from before post-processing, as it is.
    Texture,
}

/// Where captured content comes from.
#[derive(Debug, Clone, Copy, PartialEq, Eq, Structural)]
pub enum CopySource {
    /// Nothing is copied.
    Nothing,
    /// The texture from before post-processing, with the cursor drawn on it
    /// where that has a texture of its own and is captured.
    Texture { cursor: Option<Rectangle> },
    /// The rendered frame, with or without the cursor.
    Frame { hide_cursor: bool },
}

/// When a client is told that its capture is done.
#[derive(Debug, Clone, Copy, PartialEq, Eq, Structural)]
pub enum CopyCompletion {
    /// At once.
    Immediate,
    /// When the frame is presented.
    OnPresentation,
    /// When the content was read back to shared memory.
    AfterReadback,
}

/// How a capture is done and what is reported of it.
#[derive(Debug, PartialEq, Eq)]
pub struct CopyPlan {
    pub target: CopyTarget,
    pub source: CopySource,
    pub completion: CopyCompletion,
    /// The transform that is reported to the client.
    pub transform: Transform,
    /// The parts of the client's buffer that changed: they are copied and reported.
    pub damage: Vec<Rectangle>,
}

/// How a capture is done and what is reported of it.
pub struct CopyPlanView {
    pub target: CopyTarget,
    pub source: CopySource,
    pub completion: CopyCompletion,
    pub transform: Transform,
    pub damage: Seq<Rectangle>,
}

impl View for CopyPlan {
    type V = CopyPlanView;

    open spec fn view(&self) -> CopyPlanView {
        CopyPlanView {
            target: self.target,
            source: self.source,
            completion: self.completion,
            transform: self.transform,
            damage: self.damage@,
        }
    }
}

/// The damage that is reported of a capture: that of the output, as it lies in the
/// client's buffer, or none where nothing changed.
pub open spec fn reported_damage(
    damage: Option<Seq<Rectangle>>,
    transform: Transform,
    buffer_size: Size,
) -> Seq<Rectangle> {
    match damage {
        Some(damage) => damage.map_values(
            |rect: Rectangle| in_buffer(rect, transform, buffer_size),
        ),
        None => Seq::empty(),
    }
}

/// The rectangles of a list, where there is one.
pub open spec fn rectangles_of(damage: Option<&Vec<Rectangle>>) -> Option<Seq<Rectangle>> {
    match damage {
        Some(damage) => Some(damage@),
        None => None,
    }
}

fn damage_report(damage: Option<&Vec<Rectangle>>, transform: Transform, buffer_size: Size) -> (
    reported: Vec<Rectangle>)
    requires
        damage matches Some(damage) ==> forall|i: int|
            0 <= i < damage.len() ==> fits_buffer(#[trigger] damage[i], transform, buffer_size),
    ensures
        reported@ == reported_damage(rectangles_of(damage), transform, buffer_size),
{
    match damage {
        Some(damage) => damage_in_buffer(damage, transform, buffer_size),
        None => Vec::new(),
    }
}

impl CopyRequest {
    /// Whether damage of the output can be placed in the client's buffer.
    pub open spec fn can_report(self, damage: Option<Seq<Rectangle>>) -> bool {
        self.buffer_size matches Some(size) ==> (damage matches Some(damage) ==> forall|i: int|
            0 <= i < damage.len() ==> fits_buffer(#[trigger] damage[i], self.transform, size))
    }

    /// What a plan says of a capture into a buffer of this size.
    pub open spec fn plan(
        self,
        target: CopyTarget,
        source: CopySource,
        completion: CopyCompletion,
        damage: Option<Seq<Rectangle>>,
    ) -> CopyPlanView {
        CopyPlanView {
            target,
            source,
            completion,
            transform: self.transform,
            damage: reported_damage(damage, self.transform, self.buffer_size->0),
        }
    }

    /// Whether the texture from before post-processing already is what the
    /// client wants.
    pub open spec fn can_reuse(self, pre: PrePostprocess) -> bool {
        self.shm_format matches Some(format) && pre.texture == Some(Some(format)) && (
        !self.draw_cursor || !pre.has_cursor_texture)
    }

    /// Where the captured content goes.
    pub open spec fn target(self, pre: PrePostprocess) -> CopyTarget {
        match self.shm_format {
            None => CopyTarget::Dmabuf,
            Some(format) => if self.can_reuse(pre) {
                CopyTarget::Texture
            } else {
                CopyTarget::Offscreen(format)
            },
        }
    }

    /// Where the captured content comes from.
    pub open spec fn source(self, pre: PrePostprocess, has_damage: bool) -> CopySource {
        if !has_damage || self.can_reuse(pre) {
            CopySource::Nothing
        } else if pre.texture is Some {
            CopySource::Texture {
                cursor: if self.draw_cursor {
                    pre.cursor_geometry
                } else {
                    None
                },
            }
        } else {
            CopySource::Frame { hide_cursor: !self.draw_cursor }
        }
    }

    fn reuses_texture(&self, pre: PrePostprocess) -> (reuses: bool)
        ensures
            reuses == self.can_reuse(pre),
    {
        match (self.shm_format, pre.texture) {
            (Some(format), Some(Some(own))) => own == format && (!self.draw_cursor
                || !pre.has_cursor_texture),
            _ => false,
        }
    }
}

/// Plans a capture of an output that is composited with OpenGL. Fails where the
/// output has no mode or the buffer no size. Where the texture from before
/// post-processing is used as it is, there has to be damage. The client is told
/// the output's transform and the damage, as it lies in the client's buffer.
pub fn send_screencopy_result(
    request: CopyRequest,
    pre: PrePostprocess,
    damage: Option<&Vec<Rectangle>>,
) -> (plan: Result<CopyPlan, CaptureFailureReason>)
    requires
        request.has_mode && request.buffer_size is Some && request.can_reuse(pre)
            ==> damage is Some,
        request.has_mode ==> request.can_report(rectangles_of(damage)),
    ensures
        match plan {
            Err(reason) => (!request.has_mode || request.buffer_size is None) && reason
                == CaptureFailureReason::Unknown,
            Ok(plan) => request.has_mode && request.buffer_size is Some && plan@ == request.plan(
                request.target(pre),
                request.source(pre, damage is Some),
                if request.shm_format is Some || request.frame_is_empty {
                    CopyCompletion::Immediate
                } else {
                    CopyCompletion::OnPresentation
                },
                rectangles_of(damage),
            ),
        },
{
    if !request.has_mode {
        return Err(CaptureFailureReason::Unknown);
    }
    let buffer_size: Size = match request.buffer_size {
        Some(size) => size,
        None => {
            return Err(CaptureFailureReason::Unknown);
        },
    };
    let reuses: bool = request.reuses_texture(pre);
    let target: CopyTarget = match request.shm_format {
        None => CopyTarget::Dmabuf,
        Some(format) => if reuses {
            CopyTarget::Texture
        } else {
            CopyTarget::Offscreen(format)
        },
    };
    let source: CopySource = if damage.is_none() || reuses {
        CopySource::Nothing
    } else if pre.texture.is_some() {
        let cursor: Option<Rectangle> = if request.draw_cursor {
            pre.cursor_geometry
        } else {
            None
        };
        CopySource::Texture { cursor }
    } else {
        CopySource::Frame { hide_cursor: !request.draw_cursor }
    };
    let completion: CopyCompletion = if request.shm_format.is_some() || request.frame_is_empty {
        CopyCompletion::Immediate
    } else {
        CopyCompletion::OnPresentation
    };
    Ok(
        CopyPlan {
            target,
            source,
            completion,
            transform: request.transform,
            damage: damage_report(damage, request.transform, buffer_size),
        },
    )
}

/// Plans a capture of an output that is composited with Vulkan. Fails where the
/// output has no mode or the buffer no size. The client is told the output's
/// transform and the damage, as it lies in the client's buffer.
pub fn send_screencopy_result_vulkan(request: CopyRequest, damage: Option<&Vec<Rectangle>>) -> (plan:
    Result<CopyPlan, CaptureFailureReason>)
    requires
        request.has_mode ==> request.can_report(rectangles_of(damage)),
    ensures
        match plan {
            Err(reason) => (!request.has_mode || request.buffer_size is None) && reason
                == CaptureFailureReason::Unknown,
            Ok(plan) => request.has_mode && request.buffer_size is Some && plan@ == request.plan(
                match request.shm_format {
                    None => CopyTarget::Dmabuf,
                    Some(format) => CopyTarget::Offscreen(format),
                },
                if damage is Some {
                    CopySource::Frame { hide_cursor: !request.draw_cursor }
                } else {
                    CopySource::Nothing
                },
                if request.shm_format is Some {
                    CopyCompletion::AfterReadback
                } else if request.frame_is_empty {
                    CopyCompletion::Immediate
                } else {
                    CopyCompletion::OnPresentation
                },
                rectangles_of(damage),
            ),
        },
{
    if !request.has_mode {
        return Err(CaptureFailureReason::Unknown);
    }
    let buffer_size: Size = match request.buffer_size {
        Some(size) => size,
        None => {
            return Err(CaptureFailureReason::Unknown);
        },
    };
    let (target, completion): (CopyTarget, CopyCompletion) = match request.shm_format {
        Some(format) => (CopyTarget::Offscreen(format), CopyCompletion::AfterReadback),
        None => if request.frame_is_empty {
            (CopyTarget::Dmabuf, CopyCompletion::Immediate)
        } else {
            (CopyTarget::Dmabuf, CopyCompletion::OnPresentation)
        },
    };
    let source: CopySource = if damage.is_some() {
        CopySource::Frame { hide_cursor: !request.draw_cursor }
    } else {
        CopySource::Nothing
    };
    Ok(
        CopyPlan {
            target,
            source,
            completion,
            transform: request.transform,
            damage: damage_report(damage, request.transform, buffer_size),
        },
    )
}

/// What is known of a capture of a window.
#[derive(Debug, Clone, Copy, PartialEq, Eq, Structural)]
pub struct WindowCopyRequest {
    pub alive: bool,
    pub buffer_size: Option<Size>,
    /// The size of the window in pixels.
    pub window_size: Size,
    /// The window's own offset.
    pub window_loc: Point,
    /// How many elements the window is drawn with.
    pub element_count: usize,
    /// The size of the window's dmabuf, where it shows one.
    pub window_dmabuf_size: Option<Size>,
    /// The format of the client's shared memory, or `None` for a dmabuf.
    pub shm_format: Option<u32>,
}

/// How a capture of a window is done and what is reported of it.
#[derive(Debug, Clone, Copy, PartialEq, Eq, Structural)]
pub struct WindowCopyPlan {
    pub target: CopyTarget,
    /// The window's dmabuf can be copied as it is; otherwise, and where that
    /// fails, its elements are drawn.
    pub try_direct_blit: bool,
    pub completion: CopyCompletion,
    /// The transform that is reported to the client.
    pub transform: Transform,
    /// The one damaged rectangle that is reported to the client.
    pub damage: Rectangle,
}

/// Plans a capture of a window. A window that is gone ends the session, and the
/// client's buffer must have the size of the window. The client is told that the
/// whole buffer changed, and that nothing is rotated.
pub fn send_toplevel_screencopy_result_vulkan(request: WindowCopyRequest) -> (plan: Result<
    WindowCopyPlan,
    CaptureFailureReason,
>)
    ensures
        plan == if !request.alive {
            Err(CaptureFailureReason::Stopped)
        } else if request.buffer_size is None {
            Err(CaptureFailureReason::Unknown)
        } else if request.buffer_size != Some(request.window_size) {
            Err(CaptureFailureReason::BufferConstraints)
        } else {
            Ok(
                WindowCopyPlan {
                    target: match request.shm_format {
                        None => CopyTarget::Dmabuf,
                        Some(format) => CopyTarget::Offscreen(format),
                    },
                    try_direct_blit: request.element_count == 1 && request.window_loc == (Point {
                        x: 0,
                        y: 0,
                    }) && request.window_dmabuf_size == Some(request.window_size),
                    completion: match request.shm_format {
                        None => CopyCompletion::OnPresentation,
                        Some(_) => CopyCompletion::AfterReadback,
                    },
                    transform: Transform::Normal,
                    damage: (Rectangle { loc: Point { x: 0, y: 0 }, size: request.window_size }),
                },
            )
        },
{
    if !request.alive {
        return Err(CaptureFailureReason::Stopped);
    }
    let buffer_size: Size = match request.buffer_size {
        Some(size) => size,
        None => {
            return Err(CaptureFailureReason::Unknown);
        },
    };
    if buffer_size != request.window_size {
        return Err(CaptureFailureReason::BufferConstraints);
    }
    let same_dmabuf: bool = match request.window_dmabuf_size {
        Some(size) => size == request.window_size,
        None => false,
    };
    let try_direct_blit: bool = request.element_count == 1 && request.window_loc.x == 0
        && request.window_loc.y == 0 && same_dmabuf;
    let (target, completion): (CopyTarget, CopyCompletion) = match request.shm_format {
        None => (CopyTarget::Dmabuf, CopyCompletion::OnPresentation),
        Some(format) => (CopyTarget::Offscreen(format), CopyCompletion::AfterReadback),
    };
    Ok(
        WindowCopyPlan {
            target,
            try_direct_blit,
            completion,
            transform: Transform::Normal,
            damage: Rectangle::from_size(buffer_size),
        },
    )
}

/// What reading a capture back came to: whether the client's memory could be
/// used, and if so, whether the copy succeeded.
pub fn process_capture(copied: Option<bool>) -> (result: Result<(), CaptureFailureReason>)
    ensures
        result == if copied == Some(true) {
            Ok(())
        } else {
            Err(CaptureFailureReason::Unknown)
        },
{
    match copied {
        Some(true) => Ok(()),
        _ => Err(CaptureFailureReason::Unknown),
    }
}

/// A capture that does not draw the cursor does not add it: neither as an overlay of
/// a texture nor as part of the frame.
pub proof fn lemma_hidden_cursor_stays_hidden(
    request: CopyRequest,
    pre: PrePostprocess,
    has_damage: bool,
)
    requires
        !request.draw_cursor,
    ensures
        match request.source(pre, has_damage) {
            CopySource::Nothing => true,
            CopySource::Texture { cursor } => cursor is None,
            CopySource::Frame { hide_cursor } => hide_cursor,
        },
{
}

/// The layers that post-processed content is shown in, topmost first.
#[derive(Debug, Clone, Copy, PartialEq, Eq, Structural)]
pub enum PostprocessLayer {
    Cursor,
    Content,
}

/// The layers that post-processed content is shown in, topmost first: the cursor
/// is one of its own where it was rendered apart.
pub fn postprocess_elements(has_cursor_texture: bool, has_cursor_geometry: bool) -> (layers: Vec<
    PostprocessLayer,
>)
    ensures
        layers@ == if has_cursor_texture && has_cursor_geometry {
            seq![PostprocessLayer::Cursor, PostprocessLayer::Content]
        } else {
            seq![PostprocessLayer::Content]
        },
{
    let mut layers: Vec<PostprocessLayer> = Vec::new();
    if has_cursor_texture && has_cursor_geometry {
        layers.push(PostprocessLayer::Cursor);
    }
    layers.push(PostprocessLayer::Content);
    assert(layers@ =~= if has_cursor_texture && has_cursor_geometry {
        seq![PostprocessLayer::Cursor, PostprocessLayer::Content]
    } else {
        seq![PostprocessLayer::Content]
    });
    layers
}

/// What damage of an output is reported as: one rectangle for each, as large as it,
/// with its pixels where the output's transform puts them in the client's buffer.
pub proof fn lemma_damage_is_turned_with_the_output(
    damage: &Vec<Rectangle>,
    transform: Transform,
    buffer_size: Size,
    adjusted: Vec<Rectangle>,
    i: int,
    x: int,
    y: int,
    u: int,
    v: int,
)
    requires
        forall|j: int|
            0 <= j < damage.len() ==> fits_buffer(#[trigger] damage[j], transform, buffer_size),
        call_ensures(damage_in_buffer, (damage, transform, buffer_size), adjusted),
        0 <= i < damage.len(),
        match transform {
            Transform::Normal => u == x && v == y,
            Transform::_90 => u == y && v == buffer_size.h - 1 - x,
            Transform::_180 => u == buffer_size.w - 1 - x && v == buffer_size.h - 1 - y,
            Transform::_270 => u == buffer_size.w - 1 - y && v == x,
            Transform::Flipped => u == buffer_size.w - 1 - x && v == y,
            Transform::Flipped90 => u == y && v == x,
            Transform::Flipped180 => u == x && v == buffer_size.h - 1 - y,
            Transform::Flipped270 => u == buffer_size.w - 1 - y && v == buffer_size.h - 1 - x,
        },
    ensures
        adjusted.len() == damage.len(),
        has_pixel(adjusted[i], u, v) <==> has_pixel(damage[i], x, y),
{
}

/// How an output is captured with OpenGL. A capture without a mode or a buffer size
/// fails; any other goes to the client's dmabuf, to a new buffer of its format, or is
/// the filtered content's own texture where that has the right format and the cursor
/// as it is asked for. It shows the cursor exactly where that is asked for.
pub proof fn lemma_output_capture(
    request: CopyRequest,
    pre: PrePostprocess,
    damage: Option<&Vec<Rectangle>>,
    plan: Result<CopyPlan, CaptureFailureReason>,
)
    requires
        request.has_mode && request.buffer_size is Some && request.can_reuse(pre)
            ==> damage is Some,
        request.has_mode ==> request.can_report(rectangles_of(damage)),
        call_ensures(send_screencopy_result, (request, pre, damage), plan),
    ensures
        plan is Err <==> !request.has_mode || request.buffer_size is None,
        plan matches Err(reason) ==> reason == CaptureFailureReason::Unknown,
        plan matches Ok(plan) ==> {
            &&& plan.target == CopyTarget::Dmabuf <==> request.shm_format is None
            &&& plan.target matches CopyTarget::Offscreen(format) ==> request.shm_format == Some(
                format,
            )
            &&& plan.target == CopyTarget::Texture <==> (request.shm_format matches Some(format)
                && pre.texture == Some(Some(format)) && !(request.draw_cursor
                && pre.has_cursor_texture))
            &&& plan.source == CopySource::Nothing <==> damage is None || plan.target
                == CopyTarget::Texture
            &&& plan.source matches CopySource::Frame { hide_cursor } ==> pre.texture is None
                && hide_cursor == !request.draw_cursor
            &&& plan.source matches CopySource::Texture { cursor } ==> pre.texture is Some && (
            request.draw_cursor ==> cursor == pre.cursor_geometry) && (!request.draw_cursor
                ==> cursor is None)
            &&& plan.completion == CopyCompletion::OnPresentation <==> request.shm_format is None
                && !request.frame_is_empty
            &&& plan.completion == CopyCompletion::Immediate <==> request.shm_format is Some
                || request.frame_is_empty
            &&& plan.transform == request.transform
            &&& damage is None ==> plan.damage@.len() == 0
            &&& damage matches Some(damage) ==> plan.damage@.len() == damage@.len()
        },
{
}

/// How an output is captured with Vulkan: from the rendered frame, with the cursor
/// exactly where that is asked for, to the client's dmabuf or to a new buffer that is
/// read back to its shared memory.
pub proof fn lemma_output_capture_vulkan(
    request: CopyRequest,
    damage: Option<&Vec<Rectangle>>,
    plan: Result<CopyPlan, CaptureFailureReason>,
)
    requires
        request.has_mode ==> request.can_report(rectangles_of(damage)),
        call_ensures(send_screencopy_result_vulkan, (request, damage), plan),
    ensures
        plan is Err <==> !request.has_mode || request.buffer_size is None,
        plan matches Err(reason) ==> reason == CaptureFailureReason::Unknown,
        plan matches Ok(plan) ==> {
            &&& request.shm_format is None ==> plan.target == CopyTarget::Dmabuf
            &&& request.shm_format matches Some(format) ==> plan.target == CopyTarget::Offscreen(
                format,
            )
            &&& damage is None ==> plan.source == CopySource::Nothing
            &&& damage is Some ==> (plan.source matches CopySource::Frame { hide_cursor }
                && hide_cursor == !request.draw_cursor)
            &&& plan.completion == CopyCompletion::AfterReadback <==> request.shm_format is Some
            &&& plan.completion == CopyCompletion::OnPresentation <==> request.shm_format is None
                && !request.frame_is_empty
            &&& plan.transform == request.transform
            &&& damage is None ==> plan.damage@.len() == 0
            &&& damage matches Some(damage) ==> plan.damage@.len() == damage@.len()
        },
{
}

/// Both ways of capturing an output report the same damage: that of the output, as it
/// lies in the client's buffer.
pub proof fn lemma_captures_report_the_damage(
    request: CopyRequest,
    pre: PrePostprocess,
    damage: &Vec<Rectangle>,
    plan: CopyPlan,
    vulkan: CopyPlan,
    adjusted: Vec<Rectangle>,
    size: Size,
)
    requires
        request.has_mode,
        request.buffer_size == Some(size),
        forall|i: int|
            0 <= i < damage@.len() ==> fits_buffer(#[trigger] damage@[i], request.transform, size),
        call_ensures(send_screencopy_result, (request, pre, Some(damage)), Ok(plan)),
        call_ensures(send_screencopy_result_vulkan, (request, Some(damage)), Ok(vulkan)),
        call_ensures(damage_in_buffer, (damage, request.transform, size), adjusted),
    ensures
        plan.damage@ == adjusted@,
        vulkan.damage@ == adjusted@,
{
}

/// How a window is captured: one that is gone stops the session, a buffer of unknown
/// or of another size fails, and any other capture reports the whole buffer as it is.
/// The window's dmabuf is copied as it is only where it is all that is shown.
pub proof fn lemma_window_capture(
    request: WindowCopyRequest,
    plan: Result<WindowCopyPlan, CaptureFailureReason>,
)
    requires
        call_ensures(send_toplevel_screencopy_result_vulkan, (request,), plan),
    ensures
        plan == Err::<WindowCopyPlan, _>(CaptureFailureReason::Stopped) <==> !request.alive,
        plan == Err::<WindowCopyPlan, _>(CaptureFailureReason::Unknown) <==> request.alive
            && request.buffer_size is None,
        plan == Err::<WindowCopyPlan, _>(CaptureFailureReason::BufferConstraints) <==> request.alive
            && (request.buffer_size matches Some(size) && size != request.window_size),
        plan matches Ok(plan) ==> {
            &&& request.alive && request.buffer_size == Some(request.window_size)
            &&& request.shm_format is None ==> plan.target == CopyTarget::Dmabuf && plan.completion
                == CopyCompletion::OnPresentation
            &&& request.shm_format matches Some(format) ==> plan.target == CopyTarget::Offscreen(
                format,
            ) && plan.completion == CopyCompletion::AfterReadback
            &&& plan.try_direct_blit <==> request.element_count == 1 && request.window_loc.x == 0
                && request.window_loc.y == 0 && request.window_dmabuf_size == Some(
                request.window_size,
            )
            &&& plan.transform == Transform::Normal
            &&& plan.damage.loc.x == 0 && plan.damage.loc.y == 0
            &&& request.buffer_size == Some(plan.damage.size)
        },
{
}

/// Each capture is tracked on its own: the content of shared memory is never reused,
/// a client's additional damage counts, and the cursor is hidden from some capture
/// exactly when one leaves it out.
pub proof fn lemma_captures_are_tracked(
    copies: &Vec<PendingCopy>,
    taken: (Vec<CopyTracking>, bool),
    i: int,
)
    requires
        call_ensures(take_screencopy_frames, (copies,), taken),
        0 <= i < copies.len(),
    ensures
        taken.0.len() == copies.len(),
        copies[i].is_shm ==> taken.0[i].age == 0,
        !copies[i].is_shm ==> taken.0[i].age == 1,
        taken.0[i].with_additional_damage == copies[i].has_additional_damage,
        !copies[i].draw_cursor ==> taken.1,
        (forall|j: int| 0 <= j < copies.len() ==> (#[trigger] copies[j]).draw_cursor) ==> !taken.1,
{
}

/// The cursor's elements are those before the first that is not the cursor's.
pub proof fn lemma_cursor_elements(is_cursor: &Vec<bool>, count: usize)
    requires
        call_ensures(cursor_element_count, (is_cursor,), count),
    ensures
        count <= is_cursor.len(),
        count < is_cursor.len() ==> !is_cursor[count as int],
        forall|i: int| 0 <= i < count ==> #[trigger] is_cursor[i],
{
    lemma_leading(is_cursor@, 0);
}

proof fn lemma_around_all(geometries: Seq<Rectangle>, i: int)
    requires
        forall|j: int|
            0 <= j < geometries.len() ==> {
                let rect = #[trigger] geometries[j];
                rect.wf() && rect.loc.x >= 0 && rect.loc.y >= 0 && in_range(rect)
            },
    ensures
        around_all(geometries) is None <==> geometries.len() == 0,
        around_all(geometries) matches Some(rect) ==> rect.loc.x >= 0 && rect.loc.y >= 0 && in_range(
            rect,
        ) && (0 <= i < geometries.len() ==> rect.loc.x <= geometries[i].loc.x && rect.loc.y
            <= geometries[i].loc.y && rect.loc.x + rect.size.w >= geometries[i].loc.x
            + geometries[i].size.w && rect.loc.y + rect.size.h >= geometries[i].loc.y
            + geometries[i].size.h) && (exists|j: int|
            #![trigger geometries[j]]
            0 <= j < geometries.len() && geometries[j].loc.x == rect.loc.x) && (exists|j: int|
            #![trigger geometries[j]]
            0 <= j < geometries.len() && geometries[j].loc.y == rect.loc.y) && (exists|j: int|
            #![trigger geometries[j]]
            0 <= j < geometries.len() && geometries[j].loc.x + geometries[j].size.w == rect.loc.x + rect.size.w) && (exists|j: int|
            #![trigger geometries[j]]
            0 <= j < geometries.len() && geometries[j].loc.y + geometries[j].size.h == rect.loc.y + rect.size.h),
    decreases geometries.len(),
{
    if geometries.len() > 0 {
        let rest = geometries.drop_last();
        assert forall|j: int| 0 <= j < rest.len() implies {
            let rect = #[trigger] rest[j];
            rect.wf() && rect.loc.x >= 0 && rect.loc.y >= 0 && in_range(rect)
        } by {
            assert(geometries[j] == rest[j]);
        }
        lemma_around_all(rest, i);
        assert(geometries[geometries.len() - 1] == geometries.last());
        if 0 <= i < rest.len() {
            assert(rest[i] == geometries[i]);
        }
        if let Some(inner) = around_all(rest) {
            let j = choose|j: int|
                #![trigger rest[j]]
                0 <= j < rest.len() && rest[j].loc.x == inner.loc.x;
            assert(geometries[j] == rest[j]);
        }
        if let Some(inner) = around_all(rest) {
            let j = choose|j: int|
                #![trigger rest[j]]
                0 <= j < rest.len() && rest[j].loc.y == inner.loc.y;
            assert(geometries[j] == rest[j]);
        }
        if let Some(inner) = around_all(rest) {
            let j = choose|j: int|
                #![trigger rest[j]]
                0 <= j < rest.len() && rest[j].loc.x + rest[j].size.w == inner.loc.x + inner.size.w;
            assert(geometries[j] == rest[j]);
        }
        if let Some(inner) = around_all(rest) {
            let j = choose|j: int|
                #![trigger rest[j]]
                0 <= j < rest.len() && rest[j].loc.y + rest[j].size.h == inner.loc.y + inner.size.h;
            assert(geometries[j] == rest[j]);
        }
    }
}

/// The cursor's geometry lies closely around all of its elements: each of its edges is
/// the edge of one of them. There is one exactly where it has elements.
pub proof fn lemma_cursor_geometry_is_around_its_elements(
    geometries: &Vec<Rectangle>,
    around: Option<Rectangle>,
    i: int,
)
    requires
        forall|j: int|
            0 <= j < geometries.len() ==> {
                let rect = #[trigger] geometries@[j];
                rect.wf() && rect.loc.x >= 0 && rect.loc.y >= 0 && in_range(rect)
            },
        call_ensures(cursor_geometry, (geometries,), around),
    ensures
        around is None <==> geometries.len() == 0,
        0 <= i < geometries.len() ==> (around matches Some(rect) && forall|x: int, y: int|
            has_pixel(geometries@[i], x, y) ==> #[trigger] has_pixel(rect, x, y)),
        around matches Some(rect) ==> (exists|j: int|
            #![trigger geometries@[j]]
            0 <= j < geometries@.len() && geometries@[j].loc.x == rect.loc.x) && (exists|j: int|
            #![trigger geometries@[j]]
            0 <= j < geometries@.len() && geometries@[j].loc.y == rect.loc.y) && (exists|j: int|
            #![trigger geometries@[j]]
            0 <= j < geometries@.len() && geometries@[j].loc.x + geometries@[j].size.w == rect.loc.x + rect.size.w) && (exists|j: int|
            #![trigger geometries@[j]]
            0 <= j < geometries@.len() && geometries@[j].loc.y + geometries@[j].size.h == rect.loc.y + rect.size.h),
{
    lemma_around_all(geometries@, i);
}

/// What is composited apart is all of the cursor at the front, or nothing; and what
/// was composited is offered to captures of own content only.
pub proof fn lemma_composited_cursor(
    is_cursor: &Vec<bool>,
    geometries: &Vec<Rectangle>,
    apart: bool,
    pass: CursorPass,
    source: PostprocessSource,
    format: Option<u32>,
    pre: PrePostprocess,
)
    requires
        is_cursor.len() == geometries.len(),
        call_ensures(cursor_pass, (is_cursor, geometries, apart), pass),
        call_ensures(pre_postprocess, (source, format, pass), pre),
    ensures
        !apart ==> pass.elements == 0 && pass.geometry is None,
        apart ==> (forall|i: int| 0 <= i < pass.elements ==> #[trigger] is_cursor[i]),
        apart && pass.elements < is_cursor.len() ==> !is_cursor[pass.elements as int],
        pass.geometry is Some <==> pass.elements > 0,
        source == PostprocessSource::Own ==> pre.texture == Some(format) && pre.cursor_geometry
            == pass.geometry && (pre.has_cursor_texture <==> pass.elements > 0),
        source != PostprocessSource::Own ==> pre.texture is None && pre.cursor_geometry is None
            && !pre.has_cursor_texture,
{
    lemma_leading(is_cursor@, 0);
    let front = geometries@.take(leading(is_cursor@, 0));
    if front.len() > 0 {
        assert(around_all(front) is Some);
    }
}

/// A capture that was read back succeeds exactly when it was copied, and filtered
/// content is shown below the cursor exactly where that was composited apart.
pub proof fn lemma_finished_captures(
    copied: Option<bool>,
    result: Result<(), CaptureFailureReason>,
    has_texture: bool,
    has_geometry: bool,
    layers: Vec<PostprocessLayer>,
)
    requires
        call_ensures(process_capture, (copied,), result),
        call_ensures(postprocess_elements, (has_texture, has_geometry), layers),
    ensures
        result is Ok <==> copied == Some(true),
        result matches Err(reason) ==> reason == CaptureFailureReason::Unknown,
        layers@.last() == PostprocessLayer::Content,
        layers@.len() == 1 || layers@.len() == 2 && layers@[0] == PostprocessLayer::Cursor,
        layers@.len() == 2 <==> has_texture && has_geometry,
{
}

/// What of the damage falls on the cursor is exactly the damaged pixels of it, as seen
/// from it.
pub proof fn lemma_cursor_damage_is_the_damage_on_it(
    damage: &Vec<Rectangle>,
    cursor: Rectangle,
    on_cursor: Vec<Rectangle>,
    x: int,
    y: int,
)
    requires
        call_ensures(cursor_damage, (damage, cursor), on_cursor),
        in_range(cursor),
        forall|i: int| 0 <= i < damage.len() ==> in_range(#[trigger] damage@[i]),
    ensures
        (exists|i: int|
            #![trigger on_cursor@[i]]
            0 <= i < on_cursor.len() && has_pixel(
                on_cursor@[i],
                x - cursor.loc.x,
                y - cursor.loc.y,
            )) <==> has_pixel(cursor, x, y) && (exists|i: int|
            #![trigger damage@[i]]
            0 <= i < damage.len() && has_pixel(damage@[i], x, y)),
{
    lemma_damage_on(damage@, cursor, x, y);
}

} // verus!
