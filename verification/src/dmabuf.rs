//! Which GPU renders an output, and which buffers clients are asked to use.
use crate::device::DrmNode;
use vstd::prelude::*;

verus! {

/// A buffer format: its fourcc code and its modifier.
#[derive(Debug, Clone, Copy, PartialEq, Eq, Structural)]
pub struct DrmFormat {
    pub code: u32,
    pub modifier: u64,
}

/// What the buffers of a tranche are preferred for.
#[derive(Debug, Clone, Copy, PartialEq, Eq, Structural)]
pub enum TrancheFlags {
    Sampling,
    Scanout,
}

/// A set of formats that a device prefers, and the protocol versions that know
/// its purpose.
#[derive(Debug)]
pub struct PreferenceTranche {
    pub device: u64,
    pub flags: TrancheFlags,
    pub formats: Vec<DrmFormat>,
    pub min_version: u32,
    pub max_version: u32,
}

/// Feedback on which buffers to use: the device that renders and its formats,
/// and what is preferred to them, best first.
#[derive(Debug)]
pub struct DmabufFeedback {
    pub main_device: u64,
    pub formats: Vec<DrmFormat>,
    pub tranches: Vec<PreferenceTranche>,
}

/// The feedback for a surface on an output.
#[derive(Debug)]
pub struct SurfaceDmabufFeedback {
    pub render_feedback: DmabufFeedback,
    pub overlay_scanout_feedback: Option<DmabufFeedback>,
    pub primary_scanout_feedback: DmabufFeedback,
}

/// What a [`PreferenceTranche`] holds.
pub struct PreferenceTrancheView {
    pub device: u64,
    pub flags: TrancheFlags,
    pub formats: Seq<DrmFormat>,
    pub min_version: u32,
    pub max_version: u32,
}

/// What a [`DmabufFeedback`] holds.
pub struct DmabufFeedbackView {
    pub main_device: u64,
    pub formats: Seq<DrmFormat>,
    pub tranches: Seq<PreferenceTrancheView>,
}

impl View for PreferenceTranche {
    type V = PreferenceTrancheView;

    open spec fn view(&self) -> PreferenceTrancheView {
        PreferenceTrancheView {
            device: self.device,
            flags: self.flags,
            formats: self.formats@,
            min_version: self.min_version,
            max_version: self.max_version,
        }
    }
}

impl View for DmabufFeedback {
    type V = DmabufFeedbackView;

    open spec fn view(&self) -> DmabufFeedbackView {
        DmabufFeedbackView {
            main_device: self.main_device,
            formats: self.formats@,
            tranches: self.tranches@.map_values(|tranche: PreferenceTranche| tranche@),
        }
    }
}

/// The formats of `formats` that are in `others`, too, in their order.
pub open spec fn common(formats: Seq<DrmFormat>, others: Seq<DrmFormat>) -> Seq<DrmFormat>
    decreases formats.len(),
{
    if formats.len() == 0 {
        Seq::empty()
    } else {
        let rest = common(formats.drop_last(), others);
        if others.contains(formats.last()) {
            rest.push(formats.last())
        } else {
            rest
        }
    }
}

fn has_format(formats: &Vec<DrmFormat>, format: DrmFormat) -> (found: bool)
    ensures
        found == formats@.contains(format),
{
    for i in 0..formats.len()
        invariant
            forall|j: int| 0 <= j < i ==> formats[j] != format,
    {
        if formats[i] == format {
            return true;
        }
    }
    false
}

/// A copy of `formats`.
pub fn copy_formats(formats: &Vec<DrmFormat>) -> (copy: Vec<DrmFormat>)
    ensures
        copy@ == formats@,
{
    let mut copy: Vec<DrmFormat> = Vec::new();
    for i in 0..formats.len()
        invariant
            copy@ == formats@.take(i as int),
    {
        copy.push(formats[i]);
        assert(formats@.take(i + 1) == formats@.take(i as int).push(formats@[i as int]));
    }
    assert(formats@.take(formats@.len() as int) == formats@);
    copy
}

/// The formats of `formats` that are in `others`, too, in their order.
pub fn format_intersection(formats: &Vec<DrmFormat>, others: &Vec<DrmFormat>) -> (shared: Vec<
    DrmFormat,
>)
    ensures
        shared@ == common(formats@, others@),
{
    let mut shared: Vec<DrmFormat> = Vec::new();
    assert(formats@.take(0) =~= Seq::empty());
    for i in 0..formats.len()
        invariant
            shared@ == common(formats@.take(i as int), others@),
    {
        proof {
            assert(formats@.take(i + 1).drop_last() =~= formats@.take(i as int));
            assert(formats@.take(i + 1).last() == formats@[i as int]);
        }
        if has_format(others, formats[i]) {
            shared.push(formats[i]);
        }
    }
    assert(formats@.take(formats@.len() as int) =~= formats@);
    shared
}

/// A format is common to two sets exactly when both hold it.
pub proof fn lemma_common(formats: Seq<DrmFormat>, others: Seq<DrmFormat>, format: DrmFormat)
    ensures
        common(formats, others).contains(format) <==> formats.contains(format) && others.contains(
            format,
        ),
    decreases formats.len(),
{
    if formats.len() > 0 {
        let rest = formats.drop_last();
        lemma_common(rest, others, format);
        let all = common(formats, others);
        let before = common(rest, others);
        if formats.contains(format) && others.contains(format) {
            let i = choose|i: int| 0 <= i < formats.len() && formats[i] == format;
            if i < rest.len() {
                assert(rest[i] == format);
                let k = choose|k: int| 0 <= k < before.len() && before[k] == format;
                assert(all[k] == format);
            } else {
                assert(all[all.len() - 1] == format);
            }
        }
        if all.contains(format) {
            let k = choose|k: int| 0 <= k < all.len() && all[k] == format;
            if k < before.len() {
                assert(before[k] == format);
                let i = choose|i: int| 0 <= i < rest.len() && rest[i] == format;
                assert(formats[i] == format);
            } else {
                assert(formats[formats.len() - 1] == format);
            }
        }
    }
}

/// What a device can do for the buffers of a surface.
#[derive(Debug)]
pub struct DmabufFormats {
    /// Formats that the rendering device can render from.
    pub render: Vec<DrmFormat>,
    /// Formats that the output's device can render from.
    pub target: Vec<DrmFormat>,
    /// Formats of the primary plane.
    pub primary_plane: Vec<DrmFormat>,
    /// Formats of the overlay planes, where there are any.
    pub overlay_plane: Option<Vec<DrmFormat>>,
}

/// What [`DmabufFormats`] hold.
pub struct DmabufFormatsView {
    pub render: Seq<DrmFormat>,
    pub target: Seq<DrmFormat>,
    pub primary_plane: Seq<DrmFormat>,
    pub overlay_plane: Option<Seq<DrmFormat>>,
}

impl View for DmabufFormats {
    type V = DmabufFormatsView;

    open spec fn view(&self) -> DmabufFormatsView {
        DmabufFormatsView {
            render: self.render@,
            target: self.target@,
            primary_plane: self.primary_plane@,
            overlay_plane: match self.overlay_plane {
                Some(formats) => Some(formats@),
                None => None,
            },
        }
    }
}

/// The tranche for sampling on the output's device.
pub open spec fn sampling_tranche(target: DrmNode, formats: Seq<DrmFormat>) -> PreferenceTrancheView {
    PreferenceTrancheView {
        device: target.dev,
        flags: TrancheFlags::Sampling,
        formats,
        min_version: 6,
        max_version: 6,
    }
}

/// The tranche for scanout on the output's device.
pub open spec fn scanout_tranche(target: DrmNode, formats: Seq<DrmFormat>) -> PreferenceTrancheView {
    PreferenceTrancheView {
        device: target.dev,
        flags: TrancheFlags::Scanout,
        formats,
        min_version: 4,
        max_version: 6,
    }
}

/// What is preferred for rendering: sampling on the output's device, where
/// another one renders.
pub open spec fn render_tranches(
    target: DrmNode,
    same_gpu: bool,
    formats: DmabufFormatsView,
) -> Seq<PreferenceTrancheView> {
    if same_gpu {
        Seq::empty()
    } else {
        seq![sampling_tranche(target, formats.target)]
    }
}

/// The feedback of the rendering device with these preferences.
pub open spec fn feedback_with(
    render: DrmNode,
    formats: DmabufFormatsView,
    tranches: Seq<PreferenceTrancheView>,
) -> DmabufFeedbackView {
    DmabufFeedbackView { main_device: render.dev, formats: formats.render, tranches }
}

impl SurfaceDmabufFeedback {
    /// Whether this is the feedback for a surface that `render_node` renders for an
    /// output on `target_node`.
    pub open spec fn is_for(
        self,
        render_node: DrmNode,
        target_node: DrmNode,
        same_gpu: bool,
        formats: DmabufFormatsView,
    ) -> bool {
        let tranches = render_tranches(target_node, same_gpu, formats);
        &&& self.render_feedback@ == feedback_with(render_node, formats, tranches)
        &&& self.primary_scanout_feedback@ == feedback_with(
            render_node,
            formats,
            tranches.push(
                scanout_tranche(target_node, common(formats.primary_plane, formats.render)),
            ),
        )
        &&& match formats.overlay_plane {
            None => self.overlay_scanout_feedback is None,
            Some(overlay) => self.overlay_scanout_feedback matches Some(own) && own@
                == feedback_with(
                render_node,
                formats,
                tranches.push(scanout_tranche(target_node, common(overlay, formats.render))),
            ),
        }
    }
}

fn render_only(
    render_node: DrmNode,
    target_node: DrmNode,
    same_gpu: bool,
    formats: &DmabufFormats,
) -> (feedback: DmabufFeedback)
    ensures
        feedback@ == feedback_with(
            render_node,
            formats@,
            render_tranches(target_node, same_gpu, formats@),
        ),
{
    let mut tranches: Vec<PreferenceTranche> = Vec::new();
    if !same_gpu {
        tranches.push(
            PreferenceTranche {
                device: target_node.dev,
                flags: TrancheFlags::Sampling,
                formats: copy_formats(&formats.target),
                min_version: 6,
                max_version: 6,
            },
        );
    }
    let feedback: DmabufFeedback = DmabufFeedback {
        main_device: render_node.dev,
        formats: copy_formats(&formats.render),
        tranches,
    };
    assert(feedback@.tranches =~= render_tranches(target_node, same_gpu, formats@));
    feedback
}

fn with_scanout(
    render_node: DrmNode,
    target_node: DrmNode,
    same_gpu: bool,
    formats: &DmabufFormats,
    plane: &Vec<DrmFormat>,
) -> (feedback: DmabufFeedback)
    ensures
        feedback@ == feedback_with(
            render_node,
            formats@,
            render_tranches(target_node, same_gpu, formats@).push(
                scanout_tranche(target_node, common(plane@, formats.render@)),
            ),
        ),
{
    let mut feedback: DmabufFeedback = render_only(render_node, target_node, same_gpu, formats);
    let ghost before = feedback@.tranches;
    let mut tranches: Vec<PreferenceTranche> = Vec::new();
    std::mem::swap(&mut feedback.tranches, &mut tranches);
    tranches.push(
        PreferenceTranche {
            device: target_node.dev,
            flags: TrancheFlags::Scanout,
            formats: format_intersection(plane, &formats.render),
            min_version: 4,
            max_version: 6,
        },
    );
    feedback.tranches = tranches;
    assert(feedback@.tranches =~= before.push(
        scanout_tranche(target_node, common(plane@, formats.render@)),
    ));
    feedback
}

/// The feedback for a surface that `render_node` renders for an output on
/// `target_node`. Scanout is limited to formats that can also be rendered from,
/// so that a buffer that cannot be scanned out can still be shown.
pub fn get_surface_dmabuf_feedback(
    render_node: DrmNode,
    target_node: DrmNode,
    same_gpu: bool,
    formats: &DmabufFormats,
) -> (feedback: SurfaceDmabufFeedback)
    ensures
        feedback.is_for(render_node, target_node, same_gpu, formats@),
{
    let render_feedback: DmabufFeedback = render_only(render_node, target_node, same_gpu, formats);
    let primary_scanout_feedback: DmabufFeedback = with_scanout(
        render_node,
        target_node,
        same_gpu,
        formats,
        &formats.primary_plane,
    );
    let overlay_scanout_feedback: Option<DmabufFeedback> = match &formats.overlay_plane {
        Some(overlay) => Some(
            with_scanout(render_node, target_node, same_gpu, formats, overlay),
        ),
        None => None,
    };
    SurfaceDmabufFeedback { render_feedback, overlay_scanout_feedback, primary_scanout_feedback }
}

/// Every format that clients are asked to use for scanout can also be rendered
/// from.
pub proof fn lemma_scanout_can_be_rendered(
    plane: Seq<DrmFormat>,
    render: Seq<DrmFormat>,
    target: DrmNode,
)
    ensures
        forall|format: DrmFormat| #[trigger]
            scanout_tranche(target, common(plane, render)).formats.contains(format)
                ==> render.contains(format) && plane.contains(format),
{
    assert forall|format: DrmFormat| #[trigger]
        scanout_tranche(target, common(plane, render)).formats.contains(
            format,
        ) implies render.contains(format) && plane.contains(format) by {
        lemma_common(plane, render, format);
    }
}

/// The windows of a workspace: for each whether its buffer lies on the output's
/// device; `None` where it has no buffer with a device.
#[derive(Debug)]
pub struct WorkspaceWindows {
    pub fullscreen: Vec<Option<bool>>,
    pub mapped: Vec<Option<bool>>,
}

impl WorkspaceWindows {
    /// The windows that count: the fullscreen ones, where there are any.
    pub open spec fn relevant(self) -> Seq<Option<bool>> {
        if self.fullscreen@.len() > 0 {
            self.fullscreen@
        } else {
            self.mapped@
        }
    }
}

/// Whether the output's own device renders the content of these windows: where
/// one of their buffers lies on it, or none of them has a device.
pub open spec fn prefers_target(windows: Seq<Option<bool>>) -> bool {
    windows.contains(Some(true)) || forall|i: int|
        0 <= i < windows.len() ==> (#[trigger] windows[i]) is None
}

/// The device that renders an output: its own, unless the primary device is
/// another one and all content lies elsewhere.
pub fn render_node_for_output(
    primary_node: DrmNode,
    target_node: DrmNode,
    same_gpu: bool,
    workspace: Option<&WorkspaceWindows>,
) -> (node: DrmNode)
    ensures
        node == if same_gpu || (workspace matches Some(windows) ==> prefers_target(
            windows.relevant(),
        )) {
            target_node
        } else {
            primary_node
        },
{
    if same_gpu {
        return target_node;
    }
    let windows: &Vec<Option<bool>> = match workspace {
        None => {
            return target_node;
        },
        Some(workspace) => if workspace.fullscreen.len() > 0 {
            &workspace.fullscreen
        } else {
            &workspace.mapped
        },
    };
    let mut any_device: bool = false;
    for i in 0..windows.len()
        invariant
            workspace matches Some(own) && windows@ == own.relevant(),
            any_device == exists|j: int| 0 <= j < i && (#[trigger] windows@[j]) is Some,
            forall|j: int| 0 <= j < i ==> windows@[j] != Some(true),
    {
        if let Some(on_target) = windows[i] {
            if on_target {
                assert(windows@[i as int] == Some(true));
                assert(windows@.contains(Some(true)));
                return target_node;
            }
            any_device = true;
        }
    }
    if any_device {
        primary_node
    } else {
        target_node
    }
}

pub(crate) proof fn lemma_common_order(formats: Seq<DrmFormat>, others: Seq<DrmFormat>)
    ensures
        common(formats, others).len() <= formats.len(),
        formats.no_duplicates() ==> common(formats, others).no_duplicates(),
        (forall|i: int| 0 <= i < formats.len() ==> others.contains(#[trigger] formats[i]))
            ==> common(formats, others) == formats,
    decreases formats.len(),
{
    if formats.len() > 0 {
        let rest = formats.drop_last();
        lemma_common_order(rest, others);
        let before = common(rest, others);
        let after = common(formats, others);
        if formats.no_duplicates() {
            assert(rest.no_duplicates());
            assert forall|i: int, j: int| 0 <= i < j < after.len() implies after[i] != after[j] by {
                assert(after[i] == before[i]);
                if j < before.len() {
                    assert(after[j] == before[j]);
                } else {
                    lemma_common(rest, others, before[i]);
                    assert(before.contains(before[i]));
                    let k = choose|k: int| 0 <= k < rest.len() && rest[k] == before[i];
                    assert(formats[k] == before[i]);
                    assert(formats[formats.len() - 1] == after[j]);
                }
            }
        }
        if forall|i: int| 0 <= i < formats.len() ==> others.contains(#[trigger] formats[i]) {
            assert forall|i: int| 0 <= i < rest.len() implies others.contains(
                #[trigger] rest[i],
            ) by {
                assert(rest[i] == formats[i]);
            }
            assert(others.contains(formats[formats.len() - 1]));
            assert(rest.push(formats.last()) =~= formats);
        }
    }
}

/// Two sets of formats have exactly those in common that are in both, each once, and a
/// set that is part of the other is what they have in common, in its own order.
pub proof fn lemma_intersection_is_what_both_hold(
    formats: &Vec<DrmFormat>,
    others: &Vec<DrmFormat>,
    shared: Vec<DrmFormat>,
    format: DrmFormat,
)
    requires
        call_ensures(format_intersection, (formats, others), shared),
    ensures
        shared@.contains(format) <==> formats@.contains(format) && others@.contains(format),
        formats@.no_duplicates() ==> shared@.no_duplicates(),
        (forall|i: int| 0 <= i < formats.len() ==> others@.contains(#[trigger] formats@[i]))
            ==> shared@ == formats@,
{
    lemma_common(formats@, others@, format);
    lemma_common_order(formats@, others@);
}

/// What a client is asked to use: the rendering device with its formats; for a scanout
/// also the formats of the plane that the device can render from, on the output's
/// device; and where another device renders, what the output's device can sample,
/// before that. Only an output with overlay planes has feedback for them.
pub proof fn lemma_feedback_asks_for_usable_buffers(
    render_node: DrmNode,
    target_node: DrmNode,
    same_gpu: bool,
    formats: &DmabufFormats,
    feedback: SurfaceDmabufFeedback,
    format: DrmFormat,
)
    requires
        call_ensures(
            get_surface_dmabuf_feedback,
            (render_node, target_node, same_gpu, formats),
            feedback,
        ),
    ensures
        feedback.render_feedback.main_device == render_node.dev,
        feedback.render_feedback.formats@ == formats.render@,
        feedback.primary_scanout_feedback.main_device == render_node.dev,
        feedback.primary_scanout_feedback.formats@ == formats.render@,
        same_gpu ==> feedback.render_feedback@.tranches.len() == 0
            && feedback.primary_scanout_feedback@.tranches.len() == 1,
        !same_gpu ==> feedback.render_feedback@.tranches.len() == 1
            && feedback.primary_scanout_feedback@.tranches.len() == 2 && ({
            let sampling = feedback.render_feedback@.tranches[0];
            &&& sampling.device == target_node.dev
            &&& sampling.flags is Sampling
            &&& sampling.formats == formats.target@
            &&& sampling.min_version == 6 && sampling.max_version == 6
            &&& feedback.primary_scanout_feedback@.tranches[0] == sampling
        }),
        ({
            let scanout = feedback.primary_scanout_feedback@.tranches.last();
            &&& scanout.device == target_node.dev
            &&& scanout.flags is Scanout
            &&& scanout.min_version == 4 && scanout.max_version == 6
            &&& scanout.formats.contains(format) <==> formats.primary_plane@.contains(format)
                && formats.render@.contains(format)
        }),
        feedback.overlay_scanout_feedback is Some <==> formats.overlay_plane is Some,
        feedback.overlay_scanout_feedback matches Some(overlay) ==> {
            let scanout = overlay@.tranches.last();
            &&& overlay.main_device == render_node.dev
            &&& overlay.formats@ == formats.render@
            &&& overlay@.tranches.len() == feedback.primary_scanout_feedback@.tranches.len()
            &&& scanout.device == target_node.dev
            &&& scanout.flags is Scanout
            &&& formats.overlay_plane matches Some(plane) && (scanout.formats.contains(format)
                <==> plane@.contains(format) && formats.render@.contains(format))
        },
{
    lemma_common(formats.primary_plane@, formats.render@, format);
    if let Some(plane) = formats.overlay_plane {
        lemma_common(plane@, formats.render@, format);
    }
    assert(feedback.render_feedback@.formats == formats.render@);
    assert(feedback.primary_scanout_feedback@.formats == formats.render@);
}

/// An output is rendered by its own device or by the primary one: by its own where they
/// are the same, where a window that counts lies on it, or where none that counts lies
/// anywhere; and by the primary one where all that lie somewhere lie elsewhere.
/// Fullscreen windows count alone.
pub proof fn lemma_content_decides_who_renders(
    primary_node: DrmNode,
    target_node: DrmNode,
    same_gpu: bool,
    workspace: &WorkspaceWindows,
    node: DrmNode,
    without: DrmNode,
    i: int,
)
    requires
        call_ensures(
            render_node_for_output,
            (primary_node, target_node, same_gpu, Some(workspace)),
            node,
        ),
        call_ensures(
            render_node_for_output,
            (primary_node, target_node, same_gpu, None::<&WorkspaceWindows>),
            without,
        ),
    ensures
        without == target_node,
        same_gpu ==> node == target_node,
        node == target_node || node == primary_node,
        0 <= i < workspace.fullscreen.len() && workspace.fullscreen@[i] == Some(true) ==> node
            == target_node,
        workspace.fullscreen.len() == 0 && 0 <= i < workspace.mapped.len() && workspace.mapped@[i]
            == Some(true) ==> node == target_node,
        !same_gpu && 0 <= i < workspace.fullscreen.len() && workspace.fullscreen@[i] is Some && (
        forall|j: int|
            0 <= j < workspace.fullscreen.len() ==> #[trigger] workspace.fullscreen@[j] != Some(
                true,
            )) ==> node == primary_node,
        !same_gpu && workspace.fullscreen.len() == 0 && 0 <= i < workspace.mapped.len()
            && workspace.mapped@[i] is Some && (forall|j: int|
            0 <= j < workspace.mapped.len() ==> #[trigger] workspace.mapped@[j] != Some(true))
            ==> node == primary_node,
        workspace.fullscreen.len() > 0 && (forall|j: int|
            0 <= j < workspace.fullscreen.len() ==> #[trigger] workspace.fullscreen@[j] is None)
            ==> node == target_node,
        workspace.fullscreen.len() == 0 && (forall|j: int|
            0 <= j < workspace.mapped.len() ==> #[trigger] workspace.mapped@[j] is None) ==> node
            == target_node,
{
    let windows = workspace.relevant();
    if 0 <= i < windows.len() && windows[i] == Some(true) {
        assert(windows.contains(Some(true)));
    }
    if windows.contains(Some(true)) {
        let k = choose|k: int| 0 <= k < windows.len() && windows[k] == Some(true);
        assert(windows[k] == Some(true));
    }
}

/// A copy of formats holds the same formats in the same order.
pub proof fn lemma_copied_formats(formats: &Vec<DrmFormat>, copy: Vec<DrmFormat>, i: int)
    requires
        call_ensures(copy_formats, (formats,), copy),
    ensures
        copy.len() == formats.len(),
        0 <= i < copy.len() ==> copy@[i] == formats@[i],
{
}

} // verus!
