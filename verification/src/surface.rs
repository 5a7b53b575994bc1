//! The main thread's handle of an output: what it remembers, and which commands
//! it sends to the render thread.
use crate::device::DrmNode;
use crate::dmabuf::{
    copy_formats, get_surface_dmabuf_feedback, lemma_common_order, DmabufFormats, DmabufFormatsView, DrmFormat,
    SurfaceDmabufFeedback,
};
use crate::frame_flags::FrameFlags;
use crate::hdr_output::{HdrSinkCapabilities, DEFAULT_PEAK_LUMINANCE};
use crate::kms_thread::{
    lemma_others_keep_their_receivers, lemma_registered_is_found, one_route_each, without_crtc,
    KmsThreadHandle,
};
use crate::output::AdaptiveSync;
use crate::surface_thread::{
    clamp_reference_white, origin_rate, paced_rate, resolve_vrr_target_rate, usable_rate,
    usable_white, SurfaceThreadState, ThreadCommand, ThreadContext,
};
use vstd::prelude::*;

verus! {

/// An output as the main thread sees it.
#[derive(Debug)]
pub struct Surface {
    pub connector: u32,
    pub crtc: u32,
    known_nodes: Vec<DrmNode>,
    pub active: bool,
    feedback: Vec<(DrmNode, SurfaceDmabufFeedback)>,
    primary_plane_formats: Vec<DrmFormat>,
    overlay_plane_formats: Option<Vec<DrmFormat>>,
    emergency_shutdown_id: u64,
    dpms: bool,
    pub is_vulkan: bool,
    adaptive_sync_mode: AdaptiveSync,
    hdr_enabled: bool,
    pub hdr_sink_capabilities: Option<HdrSinkCapabilities>,
    hdr_reference_white: u32,
    hdr_hardware_offload: bool,
}

/// What a [`Surface`] holds.
pub struct SurfaceView {
    pub connector: u32,
    pub crtc: u32,
    pub known_nodes: Set<DrmNode>,
    pub active: bool,
    /// The devices for which feedback is kept.
    pub feedback: Map<DrmNode, SurfaceDmabufFeedback>,
    pub primary_plane_formats: Seq<DrmFormat>,
    pub overlay_plane_formats: Option<Seq<DrmFormat>>,
    /// The id under which the render thread is registered for emergencies.
    pub emergency_shutdown_id: u64,
    pub dpms: bool,
    pub is_vulkan: bool,
    pub adaptive_sync_mode: AdaptiveSync,
    pub hdr_enabled: bool,
    pub hdr_sink_capabilities: Option<HdrSinkCapabilities>,
    pub hdr_reference_white: u32,
    pub hdr_hardware_offload: bool,
}

/// The entries as a map.
pub open spec fn feedback_map(
    entries: Seq<(DrmNode, SurfaceDmabufFeedback)>,
) -> Map<DrmNode, SurfaceDmabufFeedback>
    decreases entries.len(),
{
    if entries.len() == 0 {
        Map::empty()
    } else {
        feedback_map(entries.drop_last()).insert(entries.last().0, entries.last().1)
    }
}

proof fn lemma_feedback_map(entries: Seq<(DrmNode, SurfaceDmabufFeedback)>, node: DrmNode)
    requires
        forall|i: int, j: int| 0 <= i < j < entries.len() ==> entries[i].0 != entries[j].0,
    ensures
        feedback_map(entries).dom().contains(node) <==> exists|i: int|
            0 <= i < entries.len() && (#[trigger] entries[i]).0 == node,
        forall|i: int|
            0 <= i < entries.len() && (#[trigger] entries[i]).0 == node ==> feedback_map(
                entries,
            )[node] == entries[i].1,
    decreases entries.len(),
{
    if entries.len() > 0 {
        let rest = entries.drop_last();
        lemma_feedback_map(rest, node);
        if feedback_map(entries).dom().contains(node) {
            if entries.last().0 == node {
                assert(entries[entries.len() - 1].0 == node);
            } else {
                let i = choose|i: int| 0 <= i < rest.len() && (#[trigger] rest[i]).0 == node;
                assert(entries[i] == rest[i]);
            }
        }
        assert forall|i: int| 0 <= i < entries.len() && (#[trigger] entries[i]).0
            == node implies feedback_map(entries).dom().contains(node) && feedback_map(
            entries,
        )[node] == entries[i].1 by {
            if i < rest.len() {
                assert(rest[i] == entries[i]);
            }
        }
    }
}

proof fn lemma_feedback_map_remove(
    entries: Seq<(DrmNode, SurfaceDmabufFeedback)>,
    at: int,
)
    requires
        0 <= at < entries.len(),
        forall|i: int, j: int| 0 <= i < j < entries.len() ==> entries[i].0 != entries[j].0,
    ensures
        feedback_map(entries.remove(at)) == feedback_map(entries).remove(entries[at].0),
    decreases entries.len(),
{
    let node = entries[at].0;
    let removed = entries.remove(at);
    if at == entries.len() - 1 {
        assert(removed =~= entries.drop_last());
        lemma_feedback_map(removed, node);
        assert(!feedback_map(removed).dom().contains(node)) by {
            if feedback_map(removed).dom().contains(node) {
                let i = choose|i: int| 0 <= i < removed.len() && (#[trigger] removed[i]).0 == node;
                assert(entries[i].0 == node);
            }
        }
        assert(feedback_map(removed) =~= feedback_map(entries).remove(node));
    } else {
        lemma_feedback_map_remove(entries.drop_last(), at);
        assert(removed.drop_last() =~= entries.drop_last().remove(at));
        assert(removed.last() == entries.last());
        assert(entries[at].0 != entries[entries.len() - 1].0);
        assert(feedback_map(removed) =~= feedback_map(entries).remove(node));
    }
}

impl View for Surface {
    type V = SurfaceView;

    closed spec fn view(&self) -> SurfaceView {
        SurfaceView {
            connector: self.connector,
            crtc: self.crtc,
            known_nodes: self.known_nodes@.to_set(),
            active: self.active,
            feedback: feedback_map(self.feedback@),
            primary_plane_formats: self.primary_plane_formats@,
            overlay_plane_formats: match self.overlay_plane_formats {
                Some(formats) => Some(formats@),
                None => None,
            },
            emergency_shutdown_id: self.emergency_shutdown_id,
            dpms: self.dpms,
            is_vulkan: self.is_vulkan,
            adaptive_sync_mode: self.adaptive_sync_mode,
            hdr_enabled: self.hdr_enabled,
            hdr_sink_capabilities: self.hdr_sink_capabilities,
            hdr_reference_white: self.hdr_reference_white,
            hdr_hardware_offload: self.hdr_hardware_offload,
        }
    }
}

/// The peak that content is tone-mapped to: the sink's, and at least the
/// reference white.
pub open spec fn usable_peak(capabilities: Option<HdrSinkCapabilities>, white: u32) -> u32 {
    let peak = match capabilities {
        Some(known) => known.max_luminance as u32,
        None => DEFAULT_PEAK_LUMINANCE as u32,
    };
    if peak > white {
        peak
    } else {
        white
    }
}

/// Whether the render thread still needs the requested adaptive-sync mode.
pub fn adaptive_sync_update_required(
    requested: AdaptiveSync,
    render_thread_mode: AdaptiveSync,
) -> (required: bool)
    ensures
        required == (requested != render_thread_mode),
{
    requested != render_thread_mode
}

impl Surface {
    /// No device is known twice or has feedback twice.
    #[verifier::type_invariant]
    closed spec fn wf(self) -> bool {
        &&& self.known_nodes@.no_duplicates()
        &&& forall|i: int, j: int|
            0 <= i < j < self.feedback.len() ==> self.feedback@[i].0 != self.feedback@[j].0
    }

    /// An output whose render thread was just started, and registered for
    /// emergencies under this id.
    pub fn new(connector: u32, crtc: u32, is_vulkan: bool, emergency_shutdown_id: u64) -> (surface:
        Surface)
        ensures
            surface@ == (SurfaceView {
                connector,
                crtc,
                known_nodes: Set::empty(),
                active: false,
                feedback: Map::empty(),
                primary_plane_formats: Seq::empty(),
                overlay_plane_formats: None,
                emergency_shutdown_id,
                dpms: true,
                is_vulkan,
                adaptive_sync_mode: AdaptiveSync::Disabled,
                hdr_enabled: false,
                hdr_sink_capabilities: None,
                hdr_reference_white: 203,
                hdr_hardware_offload: false,
            }),
    {
        let surface: Surface = Surface {
            connector,
            crtc,
            known_nodes: Vec::new(),
            active: false,
            feedback: Vec::new(),
            primary_plane_formats: Vec::new(),
            overlay_plane_formats: None,
            emergency_shutdown_id,
            dpms: true,
            is_vulkan,
            adaptive_sync_mode: AdaptiveSync::Disabled,
            hdr_enabled: false,
            hdr_sink_capabilities: None,
            hdr_reference_white: 203,
            hdr_hardware_offload: false,
        };
        assert(surface@.known_nodes =~= Set::empty());
        surface
    }

    /// The devices that the render thread can use, each once.
    pub fn known_nodes(&self) -> (nodes: &Vec<DrmNode>)
        ensures
            nodes@.to_set() == self@.known_nodes,
            nodes@.no_duplicates(),
    {
        proof {
            use_type_invariant(self);
        }
        &self.known_nodes
    }

    /// Whether the output shows frames.
    pub fn is_active(&self) -> (active: bool)
        ensures
            active == self@.active,
    {
        self.active
    }

    /// Lets the render thread use a device.
    pub fn add_node(&mut self, node: DrmNode) -> (command: ThreadCommand)
        ensures
            final(self)@ == (SurfaceView {
                known_nodes: old(self)@.known_nodes.insert(node),
                ..old(self)@
            }),
            command == ThreadCommand::NodeAdded(node),
    {
        proof {
            use_type_invariant(&*self);
        }
        let mut at: usize = 0;
        while at < self.known_nodes.len() && self.known_nodes[at] != node
            invariant
                at <= self.known_nodes.len(),
                forall|j: int| 0 <= j < at ==> self.known_nodes@[j] != node,
            decreases self.known_nodes.len() - at,
        {
            at = at + 1;
        }
        if at < self.known_nodes.len() {
            assert(self.known_nodes@[at as int] == node);
            assert(self.known_nodes@.to_set().insert(node) =~= self.known_nodes@.to_set());
            return ThreadCommand::NodeAdded(node);
        }
        let mut nodes: Vec<DrmNode> = Vec::new();
        std::mem::swap(&mut self.known_nodes, &mut nodes);
        let ghost before = nodes@;
        nodes.push(node);
        proof {
            assert forall|n: DrmNode| #[trigger]
                nodes@.to_set().contains(n) <==> before.to_set().insert(node).contains(n) by {
                lemma_push_contains(before, node, n);
            }
            assert(nodes@.to_set() =~= before.to_set().insert(node));
        }
        self.known_nodes = nodes;
        ThreadCommand::NodeAdded(node)
    }

    /// Takes a device, and the feedback for it, away from the render thread.
    pub fn remove_node(&mut self, node: DrmNode) -> (command: ThreadCommand)
        ensures
            final(self)@ == (SurfaceView {
                known_nodes: old(self)@.known_nodes.remove(node),
                feedback: old(self)@.feedback.remove(node),
                ..old(self)@
            }),
            command == ThreadCommand::NodeRemoved(node),
    {
        proof {
            use_type_invariant(&*self);
        }
        let ghost nodes_before = self.known_nodes@;
        let mut nodes: Vec<DrmNode> = Vec::new();
        for i in 0..self.known_nodes.len()
            invariant
                nodes_before == self.known_nodes@,
                nodes_before.no_duplicates(),
                nodes@.no_duplicates(),
                forall|n: DrmNode|
                    nodes@.contains(n) <==> n != node && nodes_before.take(i as int).contains(n),
        {
            let known: DrmNode = self.known_nodes[i];
            let ghost before = nodes@;
            let ghost seen = nodes_before.take(i as int);
            assert(nodes_before.take(i + 1) =~= seen.push(known));
            if known != node {
                assert(!seen.contains(known)) by {
                    if seen.contains(known) {
                        let j = choose|j: int| 0 <= j < seen.len() && seen[j] == known;
                        assert(nodes_before[j] == nodes_before[i as int]);
                    }
                }
                assert(!before.contains(known));
                nodes.push(known);
                assert(nodes@.no_duplicates()) by {
                    assert forall|j: int, k: int| 0 <= j < k < nodes@.len() implies nodes@[j]
                        != nodes@[k] by {
                        assert(nodes@[j] == before[j]);
                        if k < before.len() {
                            assert(nodes@[k] == before[k]);
                        }
                    }
                }
                assert forall|n: DrmNode| nodes@.contains(n) <==> n != node && seen.push(
                    known,
                ).contains(n) by {
                    lemma_push_contains(before, known, n);
                    lemma_push_contains(seen, known, n);
                }
            } else {
                assert forall|n: DrmNode| nodes@.contains(n) <==> n != node && seen.push(
                    known,
                ).contains(n) by {
                    lemma_push_contains(seen, known, n);
                }
            }
        }
        assert(nodes_before.take(nodes_before.len() as int) =~= nodes_before);
        assert(nodes@.to_set() =~= nodes_before.to_set().remove(node));

        let mut at: usize = 0;
        while at < self.feedback.len() && self.feedback[at].0 != node
            invariant
                at <= self.feedback.len(),
                forall|j: int| 0 <= j < at ==> self.feedback@[j].0 != node,
            decreases self.feedback.len() - at,
        {
            at = at + 1;
        }
        let mut feedback: Vec<(DrmNode, SurfaceDmabufFeedback)> = Vec::new();
        std::mem::swap(&mut self.feedback, &mut feedback);
        let ghost entries = feedback@;
        if at < feedback.len() {
            proof {
                lemma_feedback_map_remove(entries, at as int);
            }
            let _removed: (DrmNode, SurfaceDmabufFeedback) = feedback.remove(at);
        } else {
            proof {
                lemma_feedback_map(entries, node);
                assert(feedback_map(entries).remove(node) =~= feedback_map(entries));
            }
        }
        self.feedback = feedback;
        self.known_nodes = nodes;
        ThreadCommand::NodeRemoved(node)
    }

    /// The feedback that is kept for a device.
    pub fn cached_feedback(&self, node: DrmNode) -> (feedback: Option<&SurfaceDmabufFeedback>)
        ensures
            match feedback {
                Some(own) => self@.feedback.dom().contains(node) && self@.feedback[node] == *own,
                None => !self@.feedback.dom().contains(node),
            },
    {
        proof {
            use_type_invariant(self);
            lemma_feedback_map(self.feedback@, node);
        }
        for i in 0..self.feedback.len()
            invariant
                forall|j: int| 0 <= j < i ==> (#[trigger] self.feedback@[j]).0 != node,
                self@.feedback == feedback_map(self.feedback@),
                feedback_map(self.feedback@).dom().contains(node) <==> exists|j: int|
                    0 <= j < self.feedback@.len() && (#[trigger] self.feedback@[j]).0 == node,
                forall|j: int|
                    0 <= j < self.feedback@.len() && (#[trigger] self.feedback@[j]).0 == node
                        ==> feedback_map(self.feedback@)[node] == self.feedback@[j].1,
        {
            if self.feedback[i].0 == node {
                assert(self.feedback@[i as int].0 == node);
                return Some(&self.feedback[i].1);
            }
        }
        None
    }

    /// What is known of the formats for a surface on this output.
    pub open spec fn formats(
        view: SurfaceView,
        render: Seq<DrmFormat>,
        target: Seq<DrmFormat>,
    ) -> DmabufFormatsView {
        DmabufFormatsView {
            render,
            target,
            primary_plane: view.primary_plane_formats,
            overlay_plane: view.overlay_plane_formats,
        }
    }

    /// Provides the feedback for surfaces that `source_node` renders, unless it is
    /// kept already. Returns whether there is one: a device that was freed, because
    /// nothing used it, has no formats yet.
    pub fn provide_feedback(
        &mut self,
        source_node: DrmNode,
        target_node: DrmNode,
        same_gpu: bool,
        render_formats: Option<Vec<DrmFormat>>,
        target_formats: Vec<DrmFormat>,
    ) -> (provided: bool)
        ensures
            provided == (old(self)@.feedback.dom().contains(source_node)
                || render_formats is Some),
            old(self)@.feedback.dom().contains(source_node) || render_formats is None
                ==> final(self)@ == old(self)@,
            !old(self)@.feedback.dom().contains(source_node) && render_formats is Some ==> {
                let feedback = final(self)@.feedback[source_node];
                &&& feedback.is_for(
                    source_node,
                    target_node,
                    same_gpu,
                    Surface::formats(old(self)@, render_formats->0@, target_formats@),
                )
                &&& final(self)@ == (SurfaceView {
                    feedback: old(self)@.feedback.insert(source_node, feedback),
                    ..old(self)@
                })
            },
    {
        if self.cached_feedback(source_node).is_some() {
            return true;
        }
        let render: Vec<DrmFormat> = match render_formats {
            Some(formats) => formats,
            None => {
                return false;
            },
        };
        let formats: DmabufFormats = DmabufFormats {
            render,
            target: target_formats,
            primary_plane: copy_formats(&self.primary_plane_formats),
            overlay_plane: match &self.overlay_plane_formats {
                Some(formats) => Some(copy_formats(formats)),
                None => None,
            },
        };
        let feedback: SurfaceDmabufFeedback = get_surface_dmabuf_feedback(
            source_node,
            target_node,
            same_gpu,
            &formats,
        );
        proof {
            use_type_invariant(&*self);
            lemma_feedback_map(self.feedback@, source_node);
        }
        let mut entries: Vec<(DrmNode, SurfaceDmabufFeedback)> = Vec::new();
        std::mem::swap(&mut self.feedback, &mut entries);
        let ghost before = entries@;
        entries.push((source_node, feedback));
        assert(entries@.drop_last() =~= before);
        self.feedback = entries;
        true
    }

    /// Asks for a redraw.
    pub fn schedule_render(&self) -> (command: Option<ThreadCommand>)
        ensures
            command == if self@.dpms {
                Some(ThreadCommand::ScheduleRender(false))
            } else {
                None
            },
    {
        self.schedule_backend(false)
    }

    /// Asks for a redraw for the fullscreen surface.
    pub fn schedule_render_fullscreen(&self) -> (command: Option<ThreadCommand>)
        ensures
            command == if self@.dpms {
                Some(ThreadCommand::ScheduleRender(true))
            } else {
                None
            },
    {
        self.schedule_backend(true)
    }

    /// Asks for a redraw, unless the display is off.
    pub fn schedule_backend(&self, is_fullscreen: bool) -> (command: Option<ThreadCommand>)
        ensures
            command == if self@.dpms {
                Some(ThreadCommand::ScheduleRender(is_fullscreen))
            } else {
                None
            },
    {
        if self.dpms {
            Some(ThreadCommand::ScheduleRender(is_fullscreen))
        } else {
            None
        }
    }

    /// Shows the content of another output, or the output's own.
    pub fn set_mirroring(&self, output: Option<u64>) -> (command: ThreadCommand)
        ensures
            command == ThreadCommand::UpdateMirroring(output),
    {
        ThreadCommand::UpdateMirroring(output)
    }

    /// Sets the screen filter.
    pub fn set_screen_filter(&self, filter_is_noop: bool) -> (command: ThreadCommand)
        ensures
            command == ThreadCommand::UpdateScreenFilter(filter_is_noop),
    {
        ThreadCommand::UpdateScreenFilter(filter_is_noop)
    }

    /// Sets up HDR encoding before the output is resumed. Commands are handled in
    /// order, so the output cannot render before this is applied.
    pub fn prepare_hdr_rendering(
        &mut self,
        enabled: bool,
        reference_white: u32,
        hardware_offload: bool,
    ) -> (command: ThreadCommand)
        ensures
            final(self)@ == (SurfaceView {
                hdr_enabled: enabled,
                hdr_reference_white: usable_white(reference_white),
                hdr_hardware_offload: hardware_offload,
                ..old(self)@
            }),
            command == (ThreadCommand::UpdateHdr {
                enabled,
                reference_white: usable_white(reference_white),
                max_luminance: usable_peak(
                    old(self)@.hdr_sink_capabilities,
                    usable_white(reference_white),
                ),
                hardware_offload,
            }),
    {
        proof {
            use_type_invariant(&*self);
        }
        self.hdr_enabled = enabled;
        self.hdr_reference_white = clamp_reference_white(reference_white);
        self.hdr_hardware_offload = hardware_offload;
        let peak: u32 = match self.hdr_sink_capabilities {
            Some(capabilities) => capabilities.max_luminance as u32,
            None => DEFAULT_PEAK_LUMINANCE as u32,
        };
        ThreadCommand::UpdateHdr {
            enabled,
            reference_white: self.hdr_reference_white,
            max_luminance: if peak > self.hdr_reference_white {
                peak
            } else {
                self.hdr_reference_white
            },
            hardware_offload,
        }
    }

    /// Whether the output is encoded for HDR, and its reference white.
    pub fn hdr_rendering(&self) -> (hdr: (bool, u32))
        ensures
            hdr == (self@.hdr_enabled, self@.hdr_reference_white),
    {
        (self.hdr_enabled, self.hdr_reference_white)
    }

    /// Records the adaptive sync mode, once the render thread was told of it.
    pub fn use_adaptive_sync(&mut self, vrr: AdaptiveSync, sent: bool)
        ensures
            final(self)@ == if sent {
                SurfaceView { adaptive_sync_mode: vrr, ..old(self)@ }
            } else {
                old(self)@
            },
    {
        proof {
            use_type_invariant(&*self);
        }
        if sent {
            self.adaptive_sync_mode = vrr;
        }
    }

    /// Whether the render thread still needs the requested adaptive-sync mode.
    pub fn adaptive_sync_update_required(&self, requested: AdaptiveSync) -> (required: bool)
        ensures
            required == (requested != self@.adaptive_sync_mode),
    {
        adaptive_sync_update_required(requested, self.adaptive_sync_mode)
    }

    /// Sets the rate that variable refresh is paced to.
    pub fn set_vrr_target_rate(&self, rate: u32, current_rate: Option<u32>) -> (command:
        ThreadCommand)
        ensures
            command == ThreadCommand::UpdateVrrTargetRate(
                paced_rate(rate, usable_rate(current_rate)),
            ),
    {
        ThreadCommand::UpdateVrrTargetRate(resolve_vrr_target_rate(rate, origin_rate(current_rate)))
    }

    /// Allows or forbids planes.
    pub fn allow_frame_flags(&self, flag: bool, flags: FrameFlags) -> (command: ThreadCommand)
        ensures
            command == ThreadCommand::AllowFrameFlags(flag, flags),
    {
        ThreadCommand::AllowFrameFlags(flag, flags)
    }

    /// Suspends the output: it shows no frames from when the render thread
    /// acknowledges the command, which is waited for.
    pub fn suspend(&mut self) -> (command: ThreadCommand)
        ensures
            final(self)@ == (SurfaceView { active: false, ..old(self)@ }),
            command == ThreadCommand::Suspend,
    {
        proof {
            use_type_invariant(&*self);
        }
        self.active = false;
        ThreadCommand::Suspend
    }

    /// The output has a compositor again: its planes may have changed, so all
    /// feedback is computed anew, and the render thread goes on with it. `min_hz` is
    /// the sink's minimum refresh rate and `min_vrr_frame_time` the longest frame
    /// time that follows from it, in nanoseconds.
    pub fn resume(
        &mut self,
        primary_plane_formats: Vec<DrmFormat>,
        overlay_plane_formats: Option<Vec<DrmFormat>>,
        min_hz: Option<u32>,
        min_vrr_frame_time: u64,
    ) -> (command: ThreadCommand)
        ensures
            command == (ThreadCommand::Resume { min_hz, min_vrr_frame_time }),
            final(self)@ == (SurfaceView {
                feedback: Map::empty(),
                primary_plane_formats: primary_plane_formats@,
                overlay_plane_formats: match overlay_plane_formats {
                    Some(formats) => Some(formats@),
                    None => None,
                },
                active: true,
                dpms: true,
                ..old(self)@
            }),
    {
        proof {
            use_type_invariant(&*self);
        }
        self.feedback = Vec::new();
        self.primary_plane_formats = primary_plane_formats;
        self.overlay_plane_formats = overlay_plane_formats;
        self.active = true;
        self.dpms = true;
        ThreadCommand::Resume { min_hz, min_vrr_frame_time }
    }

    /// Whether the display is on.
    pub fn get_dpms(&self) -> (on: bool)
        ensures
            on == self@.dpms,
    {
        self.dpms
    }

    /// Switches the display on or off, where it is not already.
    pub fn set_dpms(&mut self, on: bool) -> (command: Option<ThreadCommand>)
        ensures
            final(self)@ == (SurfaceView { dpms: on, ..old(self)@ }),
            command == if old(self)@.dpms == on {
                None
            } else if on {
                Some(ThreadCommand::DpmsOn)
            } else {
                Some(ThreadCommand::DpmsOff)
            },
    {
        proof {
            use_type_invariant(&*self);
        }
        if self.dpms != on {
            self.dpms = on;
            if on {
                Some(ThreadCommand::DpmsOn)
            } else {
                Some(ThreadCommand::DpmsOff)
            }
        } else {
            None
        }
    }

    /// The output is gone: its events go nowhere, its render thread is not stopped in
    /// emergencies any more, and the thread is told to end.
    pub fn begin_shutdown(self, routes: &KmsThreadHandle, threads: &mut HdrSurfaceRegistry) -> (gone: (
        KmsThreadHandle,
        ThreadCommand,
    ))
        ensures
            gone.0@ == without_crtc(routes@, self@.crtc),
            gone.1 == ThreadCommand::End,
            final(threads)@ == (HdrSurfaceRegistryView {
                entries: without_id(old(threads)@.entries, self@.emergency_shutdown_id),
                ..old(threads)@
            }),
    {
        let rest: KmsThreadHandle = routes.unregister(self.crtc);
        threads.unregister(self.emergency_shutdown_id);
        (rest, ThreadCommand::End)
    }
}

proof fn lemma_push_contains(nodes: Seq<DrmNode>, node: DrmNode, n: DrmNode)
    ensures
        nodes.push(node).contains(n) <==> nodes.contains(n) || n == node,
{
    let after = nodes.push(node);
    if nodes.contains(n) {
        let i = choose|i: int| 0 <= i < nodes.len() && nodes[i] == n;
        assert(after[i] == n);
    }
    assert(after[after.len() - 1] == node);
}

/// What the main thread decided is what the render thread applies: the reference
/// white, the peak and the paced rate of a command reach the thread's state
/// unchanged.
pub proof fn lemma_decisions_reach_the_thread(
    capabilities: Option<HdrSinkCapabilities>,
    enabled: bool,
    reference_white: u32,
    hardware_offload: bool,
    rate: u32,
    thread: SurfaceThreadState,
    context: ThreadContext,
)
    ensures
        ({
            let white = usable_white(reference_white);
            let peak = usable_peak(capabilities, white);
            let prepared = thread.after_command(
                ThreadCommand::UpdateHdr {
                    enabled,
                    reference_white: white,
                    max_luminance: peak,
                    hardware_offload,
                },
                context,
            );
            &&& prepared.hdr_enabled == enabled
            &&& prepared.hdr_reference_white == white
            &&& prepared.hdr_max_luminance == peak
            &&& 80 <= white <= 10_000
            &&& white <= peak
        }),
        ({
            let paced = paced_rate(rate, usable_rate(context.current_rate));
            thread.after_command(
                ThreadCommand::UpdateVrrTargetRate(paced),
                context,
            ).vrr_target_rate == paced
        }),
{
}

/// The threads of outputs that must be stopped in an emergency. Threads are
/// named by the id of their command channel.
#[derive(Debug)]
pub struct HdrSurfaceRegistry {
    next_id: u64,
    entries: Vec<RegisteredSurface>,
}

/// A registered thread.
#[derive(Debug, Clone, Copy, PartialEq, Eq, Structural)]
pub struct RegisteredSurface {
    pub id: u64,
    pub sender: u64,
}

/// What an [`HdrSurfaceRegistry`] holds.
pub struct HdrSurfaceRegistryView {
    pub next_id: u64,
    pub entries: Seq<RegisteredSurface>,
}

impl View for HdrSurfaceRegistry {
    type V = HdrSurfaceRegistryView;

    closed spec fn view(&self) -> HdrSurfaceRegistryView {
        HdrSurfaceRegistryView { next_id: self.next_id, entries: self.entries@ }
    }
}

impl HdrSurfaceRegistryView {
    /// All ids were given out before.
    pub open spec fn ids_are_old(self) -> bool {
        forall|i: int|
            0 <= i < self.entries.len() ==> 0 < (#[trigger] self.entries[i]).id < self.next_id
    }

    /// No id is in use twice.
    pub open spec fn ids_are_distinct(self) -> bool {
        forall|i: int, j: int|
            0 <= i < j < self.entries.len() ==> (#[trigger] self.entries[i]).id != (
            #[trigger] self.entries[j]).id
    }
}

/// `entries` without those with `id`.
pub open spec fn without_id(entries: Seq<RegisteredSurface>, id: u64) -> Seq<RegisteredSurface>
    decreases entries.len(),
{
    if entries.len() == 0 {
        Seq::empty()
    } else {
        let rest = without_id(entries.drop_last(), id);
        if entries.last().id != id {
            rest.push(entries.last())
        } else {
            rest
        }
    }
}

impl HdrSurfaceRegistry {
    /// An empty registry; ids start at one.
    pub fn new() -> (registry: HdrSurfaceRegistry)
        ensures
            registry@.next_id == 1,
            registry@.entries == Seq::<RegisteredSurface>::empty(),
            registry@.ids_are_old(),
            registry@.ids_are_distinct(),
    {
        HdrSurfaceRegistry { next_id: 1, entries: Vec::new() }
    }

    /// Registers a thread under a new id.
    pub fn register_hdr_surface(&mut self, sender: u64) -> (id: u64)
        ensures
            id == old(self)@.next_id,
            final(self)@.entries == old(self)@.entries.push(RegisteredSurface { id, sender }),
            final(self)@.next_id == if old(self)@.next_id == u64::MAX {
                0
            } else {
                old(self)@.next_id + 1
            },
    {
        let id: u64 = self.next_id;
        self.next_id = self.next_id.wrapping_add(1);
        self.entries.push(RegisteredSurface { id, sender });
        id
    }

    /// Removes the thread that was registered under an id.
    pub fn unregister(&mut self, id: u64)
        ensures
            final(self)@.entries == without_id(old(self)@.entries, id),
            final(self)@.next_id == old(self)@.next_id,
    {
        let mut kept: Vec<RegisteredSurface> = Vec::new();
        let ghost entries = self.entries@;
        assert(entries.take(0) =~= Seq::empty());
        for i in 0..self.entries.len()
            invariant
                entries == self.entries@,
                kept@ == without_id(entries.take(i as int), id),
        {
            proof {
                assert(entries.take(i + 1).drop_last() =~= entries.take(i as int));
                assert(entries.take(i + 1).last() == entries[i as int]);
            }
            if self.entries[i].id != id {
                kept.push(self.entries[i]);
            }
        }
        assert(entries.take(entries.len() as int) =~= entries);
        self.entries = kept;
    }
}

/// Ids stay distinct while threads are registered and removed, until all numbers
/// were given out.
pub proof fn lemma_ids_stay_distinct(registry: HdrSurfaceRegistryView, sender: u64, id: u64)
    requires
        registry.ids_are_old(),
        registry.ids_are_distinct(),
        0 < registry.next_id < u64::MAX,
    ensures
        ({
            let registered = HdrSurfaceRegistryView {
                next_id: (registry.next_id + 1) as u64,
                entries: registry.entries.push(
                    RegisteredSurface { id: registry.next_id, sender },
                ),
            };
            registered.ids_are_old() && registered.ids_are_distinct()
        }),
        ({
            let removed = HdrSurfaceRegistryView {
                entries: without_id(registry.entries, id),
                ..registry
            };
            &&& removed.ids_are_old() && removed.ids_are_distinct()
            &&& forall|i: int|
                0 <= i < removed.entries.len() ==> (#[trigger] removed.entries[i]).id != id
        }),
{
    let entries = registry.entries;
    let pushed = entries.push(RegisteredSurface { id: registry.next_id, sender });
    assert forall|i: int| 0 <= i < pushed.len() implies 0 < (#[trigger] pushed[i]).id
        < registry.next_id + 1 by {
        if i < entries.len() {
            assert(pushed[i] == entries[i]);
        }
    }
    assert forall|i: int, j: int| 0 <= i < j < pushed.len() implies (#[trigger] pushed[i]).id != (
    #[trigger] pushed[j]).id by {
        assert(pushed[i] == entries[i]);
        if j < entries.len() {
            assert(pushed[j] == entries[j]);
        }
    }
    lemma_without_id(entries, id, registry.next_id);
}

proof fn lemma_without_id(entries: Seq<RegisteredSurface>, id: u64, bound: u64)
    requires
        forall|i: int| 0 <= i < entries.len() ==> 0 < (#[trigger] entries[i]).id < bound,
        forall|i: int, j: int|
            0 <= i < j < entries.len() ==> (#[trigger] entries[i]).id != (#[trigger] entries[j]).id,
    ensures
        forall|i: int|
            0 <= i < without_id(entries, id).len() ==> {
                &&& 0 < (#[trigger] without_id(entries, id)[i]).id < bound
                &&& without_id(entries, id)[i].id != id
                &&& entries.contains(without_id(entries, id)[i])
            },
        forall|i: int, j: int|
            0 <= i < j < without_id(entries, id).len() ==> (
            #[trigger] without_id(entries, id)[i]).id != (#[trigger] without_id(entries, id)[j]).id,
    decreases entries.len(),
{
    if entries.len() > 0 {
        let rest = entries.drop_last();
        let before = without_id(rest, id);
        let all = without_id(entries, id);
        assert forall|i: int| 0 <= i < rest.len() implies 0 < (#[trigger] rest[i]).id < bound by {
            assert(rest[i] == entries[i]);
        }
        assert forall|i: int, j: int| 0 <= i < j < rest.len() implies (#[trigger] rest[i]).id != (
        #[trigger] rest[j]).id by {
            assert(rest[i] == entries[i] && rest[j] == entries[j]);
        }
        lemma_without_id(rest, id, bound);
        assert forall|i: int| 0 <= i < all.len() implies {
            &&& 0 < (#[trigger] all[i]).id < bound
            &&& all[i].id != id
            &&& entries.contains(all[i])
        } by {
            if i < before.len() {
                assert(all[i] == before[i]);
                let k = choose|k: int| 0 <= k < rest.len() && rest[k] == before[i];
                assert(entries[k] == all[i]);
            } else {
                assert(entries[entries.len() - 1] == all[i]);
            }
        }
        assert forall|i: int, j: int| 0 <= i < j < all.len() implies (#[trigger] all[i]).id != (
        #[trigger] all[j]).id by {
            assert(all[i] == before[i]);
            if j < before.len() {
                assert(all[j] == before[j]);
            } else {
                let k = choose|k: int| 0 <= k < rest.len() && rest[k] == before[i];
                assert(entries[k].id != entries[entries.len() - 1].id);
            }
        }
    }
}

/// The threads to stop in an emergency, without relying on the main event loop:
/// a blocked callback must not keep connector color state from being cleared
/// before the process is ended from outside. Every registered thread is told to
/// end.
pub fn emergency_shutdown_hdr_surfaces(registry: &HdrSurfaceRegistry) -> (commands: Vec<
    (u64, ThreadCommand),
>)
    ensures
        commands@ == registry@.entries.map_values(
            |entry: RegisteredSurface| (entry.sender, ThreadCommand::End),
        ),
{
    let mut commands: Vec<(u64, ThreadCommand)> = Vec::new();
    for i in 0..registry.entries.len()
        invariant
            commands.len() == i,
            forall|j: int|
                0 <= j < i ==> commands@[j] == (
                    (#[trigger] registry.entries@[j]).sender,
                    ThreadCommand::End,
                ),
    {
        commands.push((registry.entries[i].sender, ThreadCommand::End));
    }
    assert(commands@ =~= registry@.entries.map_values(
        |entry: RegisteredSurface| (entry.sender, ThreadCommand::End),
    ));
    commands
}

/// What a render thread reports to the main thread.
#[derive(Debug, Clone, Copy, PartialEq, Eq, Structural)]
pub enum SurfaceCommand {
    SignalFIFO,
    SendFrames(usize),
    RenderStates,
    FatalRenderError,
    DeviceLost(DrmNode),
    ProcessShmScreencopy,
}

/// What the main thread does about a report.
#[derive(Debug, Clone, Copy, PartialEq, Eq, Structural)]
pub enum SurfaceReaction {
    Ignore,
    SignalFifo,
    SendFrames(usize),
    /// Update which output surfaces are shown on, and their feedback.
    UpdateSurfaces,
    /// End the session.
    Stop,
    RecoverDevice(DrmNode),
    /// Finish the pending captures on a thread of their own.
    ProcessCaptures,
}

/// Decides what the main thread does about a report: a mirrored output has no
/// clients of its own, and captures need a thread only where there are any.
pub fn surface_reaction(
    command: SurfaceCommand,
    is_mirroring: bool,
    pending_captures: usize,
) -> (reaction: SurfaceReaction)
    ensures
        reaction == match command {
            SurfaceCommand::SignalFIFO => SurfaceReaction::SignalFifo,
            SurfaceCommand::ProcessShmScreencopy => if pending_captures == 0 {
                SurfaceReaction::Ignore
            } else {
                SurfaceReaction::ProcessCaptures
            },
            SurfaceCommand::SendFrames(sequence) => if is_mirroring {
                SurfaceReaction::Ignore
            } else {
                SurfaceReaction::SendFrames(sequence)
            },
            SurfaceCommand::RenderStates => if is_mirroring {
                SurfaceReaction::Ignore
            } else {
                SurfaceReaction::UpdateSurfaces
            },
            SurfaceCommand::FatalRenderError => SurfaceReaction::Stop,
            SurfaceCommand::DeviceLost(node) => SurfaceReaction::RecoverDevice(node),
        },
{
    match command {
        SurfaceCommand::SignalFIFO => SurfaceReaction::SignalFifo,
        SurfaceCommand::ProcessShmScreencopy => if pending_captures == 0 {
            SurfaceReaction::Ignore
        } else {
            SurfaceReaction::ProcessCaptures
        },
        SurfaceCommand::SendFrames(sequence) => if is_mirroring {
            SurfaceReaction::Ignore
        } else {
            SurfaceReaction::SendFrames(sequence)
        },
        SurfaceCommand::RenderStates => if is_mirroring {
            SurfaceReaction::Ignore
        } else {
            SurfaceReaction::UpdateSurfaces
        },
        SurfaceCommand::FatalRenderError => SurfaceReaction::Stop,
        SurfaceCommand::DeviceLost(node) => SurfaceReaction::RecoverDevice(node),
    }
}

/// Devices are known and have feedback from when they are added until they are removed,
/// and the render thread is told of both.
pub proof fn lemma_devices_of_an_output(
    surface: &mut Surface,
    node: DrmNode,
    added: ThreadCommand,
    smaller: &mut Surface,
    removed: ThreadCommand,
    other: DrmNode,
    gone: Option<&SurfaceDmabufFeedback>,
)
    requires
        call_ensures(Surface::add_node, (surface, node), added),
        call_ensures(Surface::remove_node, (smaller, node), removed),
        call_ensures(Surface::cached_feedback, (&*final(smaller), node), gone),
    ensures
        added == ThreadCommand::NodeAdded(node),
        final(surface)@.known_nodes.contains(node),
        other != node ==> (final(surface)@.known_nodes.contains(other) <==> old(surface)@.known_nodes.contains(other)),
        final(surface)@.feedback == old(surface)@.feedback,
        removed == ThreadCommand::NodeRemoved(node),
        !final(smaller)@.known_nodes.contains(node),
        other != node ==> (final(smaller)@.known_nodes.contains(other) <==> old(smaller)@.known_nodes.contains(other)),
        gone is None,
        other != node && old(smaller)@.feedback.dom().contains(other) ==> final(smaller)@.feedback.dom().contains(other) && final(smaller)@.feedback[other] == old(smaller)@.feedback[other],
{
}

/// Feedback is computed once for a device that has formats, with the output's own
/// planes, and kept; a device without formats has none.
pub proof fn lemma_feedback_is_computed_once(
    surface: &mut Surface,
    source: DrmNode,
    target: DrmNode,
    same_gpu: bool,
    render_formats: Option<Vec<DrmFormat>>,
    target_formats: Vec<DrmFormat>,
    provided: bool,
    kept_before: Option<&SurfaceDmabufFeedback>,
    kept: Option<&SurfaceDmabufFeedback>,
    other: DrmNode,
)
    requires
        call_ensures(Surface::cached_feedback, (&*old(surface), source), kept_before),
        call_ensures(
            Surface::provide_feedback,
            (surface, source, target, same_gpu, render_formats, target_formats),
            provided,
        ),
        call_ensures(Surface::cached_feedback, (&*final(surface), source), kept),
    ensures
        provided <==> kept is Some,
        kept_before matches Some(own) ==> (kept matches Some(same) && *same == *own),
        kept_before is None && render_formats is None ==> !provided,
        kept_before is None ==> (render_formats matches Some(render) ==> (kept matches Some(own) && {
            &&& own.render_feedback.main_device == source.dev
            &&& own.render_feedback.formats@ == render@
            &&& own.render_feedback@.tranches.len() == 0 <==> same_gpu
            &&& own.overlay_scanout_feedback is Some <==> old(surface)@.overlay_plane_formats is Some
            &&& own.primary_scanout_feedback@.tranches.last().device == target.dev
            &&& own.primary_scanout_feedback@.tranches.last().formats.len()
                <= old(surface)@.primary_plane_formats.len()
        })),
        other != source ==> (final(surface)@.feedback.dom().contains(other) <==> old(surface)@.feedback.dom().contains(other)),
{
    if kept_before is None {
        if let Some(render) = render_formats {
            lemma_common_order(old(surface)@.primary_plane_formats, render@);
            let own = final(surface)@.feedback[source];
            assert(own.render_feedback@.formats == render@);
        }
    }
}

/// A display that is off is not redrawn; switching it sends a command only where that
/// changes something, and is remembered.
pub proof fn lemma_display_is_switched_once(
    surface: &mut Surface,
    on: bool,
    command: Option<ThreadCommand>,
    is_on: bool,
    is_fullscreen: bool,
    asked: Option<ThreadCommand>,
    plain: Option<ThreadCommand>,
    fullscreen: Option<ThreadCommand>,
    again: &mut Surface,
    repeated: Option<ThreadCommand>,
)
    requires
        call_ensures(Surface::set_dpms, (surface, on), command),
        call_ensures(Surface::get_dpms, (&*final(surface),), is_on),
        call_ensures(Surface::schedule_backend, (&*final(surface), is_fullscreen), asked),
        call_ensures(Surface::schedule_render, (&*final(surface),), plain),
        call_ensures(Surface::schedule_render_fullscreen, (&*final(surface),), fullscreen),
        (*old(again))@ == (*final(surface))@,
        call_ensures(Surface::set_dpms, (again, on), repeated),
    ensures
        is_on == on,
        repeated is None,
        command is Some <==> old(surface)@.dpms != on,
        command matches Some(sent) ==> (on ==> sent == ThreadCommand::DpmsOn) && (!on ==> sent
            == ThreadCommand::DpmsOff),
        on ==> asked == Some(ThreadCommand::ScheduleRender(is_fullscreen)),
        on ==> plain == Some(ThreadCommand::ScheduleRender(false)),
        on ==> fullscreen == Some(ThreadCommand::ScheduleRender(true)),
        !on ==> asked is None && plain is None && fullscreen is None,
        final(surface)@ == (SurfaceView { dpms: on, ..old(surface)@ }),
{
}

/// HDR is remembered as it is sent: with a usable white, and with the sink's peak, or
/// 1000 cd/m² where none is known, but never darker than the white.
pub proof fn lemma_hdr_is_sent_as_remembered(
    surface: &mut Surface,
    enabled: bool,
    reference_white: u32,
    hardware_offload: bool,
    command: ThreadCommand,
    hdr: (bool, u32),
)
    requires
        call_ensures(
            Surface::prepare_hdr_rendering,
            (surface, enabled, reference_white, hardware_offload),
            command,
        ),
        call_ensures(Surface::hdr_rendering, (&*final(surface),), hdr),
    ensures
        hdr.0 == enabled,
        80 <= hdr.1 <= 10_000,
        80 <= reference_white <= 10_000 ==> hdr.1 == reference_white,
        reference_white < 80 ==> hdr.1 == 80,
        reference_white > 10_000 ==> hdr.1 == 10_000,
        command matches ThreadCommand::UpdateHdr {
            enabled: sent,
            reference_white: white,
            max_luminance,
            hardware_offload: offload,
        } && sent == enabled && white == hdr.1 && offload == hardware_offload && max_luminance
            >= white && (old(surface)@.hdr_sink_capabilities matches Some(sink) ==> (
        sink.max_luminance >= white ==> max_luminance == sink.max_luminance) && (
        sink.max_luminance < white ==> max_luminance == white)) && (
        old(surface)@.hdr_sink_capabilities is None ==> (white <= 1_000 ==> max_luminance == 1_000)
            && (white > 1_000 ==> max_luminance == white)),
        final(surface)@.hdr_hardware_offload == hardware_offload,
        final(surface)@.known_nodes == old(surface)@.known_nodes,
        final(surface)@.dpms == old(surface)@.dpms,
{
}

/// Adaptive sync is told to the render thread until that has taken it, and the rate is
/// paced as the thread does.
pub proof fn lemma_adaptive_sync_is_sent_until_taken(
    surface: &mut Surface,
    vrr: AdaptiveSync,
    sent: bool,
    required: bool,
    other: AdaptiveSync,
    other_required: bool,
    rate: u32,
    current: Option<u32>,
    command: ThreadCommand,
    origin: u32,
    resolved: u32,
    free_required: bool,
)
    requires
        call_ensures(Surface::use_adaptive_sync, (surface, vrr, sent), ()),
        call_ensures(Surface::adaptive_sync_update_required, (&*final(surface), vrr), required),
        call_ensures(
            Surface::adaptive_sync_update_required,
            (&*final(surface), other),
            other_required,
        ),
        call_ensures(Surface::set_vrr_target_rate, (&*final(surface), rate, current), command),
        call_ensures(origin_rate, (current,), origin),
        call_ensures(resolve_vrr_target_rate, (rate, origin), resolved),
        call_ensures(adaptive_sync_update_required, (vrr, other), free_required),
    ensures
        sent ==> !required,
        sent ==> (other_required <==> other != vrr),
        !sent ==> final(surface)@ == old(surface)@,
        command == ThreadCommand::UpdateVrrTargetRate(resolved),
        free_required <==> vrr != other,
{
}

/// A resumed output shows frames, with the display on and all feedback computed anew
/// for its new planes; a suspended one does not.
pub proof fn lemma_resumed_and_suspended(
    resumed: &mut Surface,
    primary: Vec<DrmFormat>,
    overlay: Option<Vec<DrmFormat>>,
    min_hz: Option<u32>,
    longest: u64,
    command: ThreadCommand,
    shows: bool,
    is_on: bool,
    node: DrmNode,
    kept: Option<&SurfaceDmabufFeedback>,
    suspended: &mut Surface,
    suspend: ThreadCommand,
    shows_after: bool,
)
    requires
        call_ensures(Surface::resume, (resumed, primary, overlay, min_hz, longest), command),
        call_ensures(Surface::is_active, (&*final(resumed),), shows),
        call_ensures(Surface::get_dpms, (&*final(resumed),), is_on),
        call_ensures(Surface::cached_feedback, (&*final(resumed), node), kept),
        call_ensures(Surface::suspend, (suspended,), suspend),
        call_ensures(Surface::is_active, (&*final(suspended),), shows_after),
    ensures
        command == (ThreadCommand::Resume { min_hz, min_vrr_frame_time: longest }),
        shows && is_on,
        kept is None,
        final(resumed)@.primary_plane_formats == primary@,
        final(resumed)@.overlay_plane_formats is Some <==> overlay is Some,
        overlay matches Some(formats) ==> final(resumed)@.overlay_plane_formats == Some(formats@),
        final(resumed)@.known_nodes == old(resumed)@.known_nodes,
        final(resumed)@.hdr_enabled == old(resumed)@.hdr_enabled,
        suspend == ThreadCommand::Suspend,
        !shows_after,
        final(suspended)@ == (SurfaceView { active: false, ..old(suspended)@ }),
{
}

/// A new output shows nothing yet, on a display that is on, in SDR, and knows no device.
pub proof fn lemma_new_surface(
    connector: u32,
    crtc: u32,
    is_vulkan: bool,
    id: u64,
    surface: Surface,
    node: DrmNode,
)
    requires
        call_ensures(Surface::new, (connector, crtc, is_vulkan, id), surface),
    ensures
        surface@.connector == connector && surface@.crtc == crtc && surface@.is_vulkan == is_vulkan,
        surface@.emergency_shutdown_id == id,
        !surface@.active && surface@.dpms && !surface@.hdr_enabled,
        surface@.hdr_reference_white == 203 && !surface@.hdr_hardware_offload,
        surface@.adaptive_sync_mode is Disabled && surface@.hdr_sink_capabilities is None,
        !surface@.known_nodes.contains(node) && !surface@.feedback.dom().contains(node),
{
}

/// An output that is gone gets no more events, while others keep theirs; its thread is
/// told to end and no longer stopped in emergencies, while all others still are.
pub proof fn lemma_gone_output_leaves_nothing(
    surface: Surface,
    routes: &KmsThreadHandle,
    threads: &mut HdrSurfaceRegistry,
    gone: (KmsThreadHandle, ThreadCommand),
    receiver: Option<u64>,
    other: u32,
    others_before: Option<u64>,
    others_after: Option<u64>,
    entry: RegisteredSurface,
)
    requires
        one_route_each(routes@),
        call_ensures(Surface::begin_shutdown, (surface, routes, threads), gone),
        call_ensures(KmsThreadHandle::receiver, (&gone.0, surface@.crtc), receiver),
        call_ensures(KmsThreadHandle::receiver, (routes, other), others_before),
        call_ensures(KmsThreadHandle::receiver, (&gone.0, other), others_after),
    ensures
        gone.1 == ThreadCommand::End,
        receiver is None,
        other != surface@.crtc ==> others_after == others_before,
        final(threads)@.entries.contains(entry) <==> old(threads)@.entries.contains(entry)
            && entry.id != surface@.emergency_shutdown_id,
{
    lemma_registered_is_found(routes@, surface@.crtc, 0);
    if other != surface@.crtc {
        lemma_others_keep_their_receivers(routes@, surface@.crtc, 0, other);
    }
    lemma_without_id_keeps_others(
        old(threads)@.entries,
        surface@.emergency_shutdown_id,
        entry,
    );
}

proof fn lemma_without_id_keeps_others(
    entries: Seq<RegisteredSurface>,
    id: u64,
    entry: RegisteredSurface,
)
    ensures
        without_id(entries, id).contains(entry) <==> entries.contains(entry) && entry.id != id,
    decreases entries.len(),
{
    if entries.len() > 0 {
        let rest = entries.drop_last();
        let before = without_id(rest, id);
        let after = without_id(entries, id);
        lemma_without_id_keeps_others(rest, id, entry);
        if before.contains(entry) {
            let i = choose|i: int| 0 <= i < before.len() && before[i] == entry;
            assert(after[i] == entry);
        }
        if rest.contains(entry) {
            let i = choose|i: int| 0 <= i < rest.len() && rest[i] == entry;
            assert(entries[i] == entry);
        }
        assert(entries[entries.len() - 1] == entries.last());
        if entries.last().id != id {
            assert(after[after.len() - 1] == entries.last());
        }
        if after.contains(entry) && !before.contains(entry) {
            let i = choose|i: int| 0 <= i < after.len() && after[i] == entry;
            if i < before.len() {
                assert(before[i] == entry);
            }
        }
        if entries.contains(entry) && !rest.contains(entry) {
            let i = choose|i: int| 0 <= i < entries.len() && entries[i] == entry;
            if i < rest.len() {
                assert(rest[i] == entry);
            }
        }
    }
}

/// In an emergency every registered thread is told to end: a thread is registered under
/// an id of its own, and until it is unregistered.
pub proof fn lemma_registered_threads_are_stopped(
    registry: &mut HdrSurfaceRegistry,
    sender: u64,
    id: u64,
    commands: Vec<(u64, ThreadCommand)>,
    smaller: &mut HdrSurfaceRegistry,
    i: int,
    entry: RegisteredSurface,
)
    requires
        call_ensures(HdrSurfaceRegistry::register_hdr_surface, (registry, sender), id),
        call_ensures(emergency_shutdown_hdr_surfaces, (&*final(registry),), commands),
        (*old(smaller))@ == (*final(registry))@,
        call_ensures(HdrSurfaceRegistry::unregister, (smaller, id), ()),
    ensures
        commands.len() == old(registry)@.entries.len() + 1,
        commands@.last() == (sender, ThreadCommand::End),
        0 <= i < old(registry)@.entries.len() ==> commands@[i] == (
            old(registry)@.entries[i].sender,
            ThreadCommand::End,
        ),
        id == old(registry)@.next_id,
        final(registry)@.next_id != id,
        final(smaller)@.entries.contains(entry) <==> (old(registry)@.entries.contains(entry)
            && entry.id != id),
{
    let all = final(registry)@.entries;
    lemma_without_id_keeps_others(all, id, entry);
    if old(registry)@.entries.contains(entry) {
        let k = choose|k: int|
            0 <= k < old(registry)@.entries.len() && old(registry)@.entries[k] == entry;
        assert(all[k] == entry);
    }
    if all.contains(entry) && entry.id != id {
        let k = choose|k: int| 0 <= k < all.len() && all[k] == entry;
        assert(old(registry)@.entries[k] == entry);
    }
}

/// The main thread passes reports on: barriers and failures always, frame callbacks and
/// render states where the output shows its own content, and captures where there are
/// any.
pub proof fn lemma_reports_are_passed_on(
    command: SurfaceCommand,
    is_mirroring: bool,
    pending: usize,
    reaction: SurfaceReaction,
)
    requires
        call_ensures(surface_reaction, (command, is_mirroring, pending), reaction),
    ensures
        command is SignalFIFO <==> reaction is SignalFifo,
        command is FatalRenderError <==> reaction is Stop,
        command matches SurfaceCommand::DeviceLost(node) ==> reaction
            == SurfaceReaction::RecoverDevice(node),
        command matches SurfaceCommand::SendFrames(seq) ==> (!is_mirroring ==> reaction
            == SurfaceReaction::SendFrames(seq)),
        command is RenderStates && !is_mirroring <==> reaction is UpdateSurfaces,
        command is ProcessShmScreencopy && pending > 0 <==> reaction is ProcessCaptures,
        reaction is Ignore <==> (is_mirroring && (command is SendFrames || command is RenderStates))
            || (command is ProcessShmScreencopy && pending == 0),
{
}

/// What is shown, filtered and allowed is told to the render thread as it is asked for.
pub proof fn lemma_requests_are_sent_on(
    surface: &Surface,
    output: Option<u64>,
    mirroring: ThreadCommand,
    filter_is_noop: bool,
    filter: ThreadCommand,
    allow: bool,
    flags: FrameFlags,
    allowed: ThreadCommand,
)
    requires
        call_ensures(Surface::set_mirroring, (surface, output), mirroring),
        call_ensures(Surface::set_screen_filter, (surface, filter_is_noop), filter),
        call_ensures(Surface::allow_frame_flags, (surface, allow, flags), allowed),
    ensures
        mirroring == ThreadCommand::UpdateMirroring(output),
        filter == ThreadCommand::UpdateScreenFilter(filter_is_noop),
        allowed == ThreadCommand::AllowFrameFlags(allow, flags),
{
}

/// The devices that are listed are those that are known, each once.
pub proof fn lemma_listed_devices(
    surface: &Surface,
    nodes: &Vec<DrmNode>,
    node: DrmNode,
    i: int,
    j: int,
)
    requires
        call_ensures(Surface::known_nodes, (surface,), nodes),
    ensures
        nodes@.contains(node) <==> surface@.known_nodes.contains(node),
        0 <= i < j < nodes.len() ==> nodes@[i] != nodes@[j],
{
    assert(nodes@.to_set().contains(node) <==> surface@.known_nodes.contains(node));
}

} // verus!
