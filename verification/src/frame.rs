//! Planning, presenting and submitting the frames of an output.
use crate::color::{
    apply_cursor_buffer_transform, transforms_for, CursorTransformMode, CursorTransforms,
    PlaneColorConversion, ScanoutPlan,
};
use crate::frame_flags::{FrameFlags, RenderSwitches};
use crate::fullscreen::FullscreenOccupied;
use crate::output::AdaptiveSync;
use crate::queue::{QueueState, RedrawContext, RedrawTimer, FRAME_TIME_30_HZ};
use crate::surface_thread::{
    PostprocessOutputConfig, PostprocessTarget, SurfaceThreadState, ThreadContext,
};
use vstd::prelude::*;

verus! {

/// When something happened, in nanoseconds.
#[derive(Debug, Clone, Copy, PartialEq, Eq, Structural)]
pub enum DrmEventTime {
    /// On the monotonic clock.
    Monotonic(u64),
    /// Since the epoch.
    Realtime(u64),
}

/// What the kernel reports with a vertical blank.
#[derive(Debug, Clone, Copy, PartialEq, Eq, Structural)]
pub struct VBlankMetadata {
    pub time: DrmEventTime,
    pub sequence: u32,
}

/// When a vertical blank happened, if that was measured on the monotonic clock.
pub open spec fn monotonic_time(metadata: Option<VBlankMetadata>) -> Option<u64> {
    match metadata {
        Some(VBlankMetadata { time: DrmEventTime::Monotonic(time), .. }) => Some(time),
        _ => None,
    }
}

/// How long a frame is shown, in nanoseconds.
#[derive(Debug, Clone, Copy, PartialEq, Eq, Structural)]
pub enum Refresh {
    Variable(u64),
    Fixed(u64),
    Unknown,
}

/// What clients are told of a presented frame.
#[derive(Debug, Clone, Copy, PartialEq, Eq, Structural)]
pub struct Presentation {
    /// In nanoseconds.
    pub time: u64,
    /// The time is the hardware's own.
    pub hw_clock: bool,
    pub refresh: Refresh,
    pub sequence: u64,
}

/// What surrounds a vertical blank.
#[derive(Debug, Clone, Copy, PartialEq, Eq, Structural)]
pub struct VBlankContext {
    pub thread: ThreadContext,
    /// In nanoseconds.
    pub now: u64,
    /// The compositor handed out the feedback of the frame.
    pub has_feedback: bool,
    /// The frame time of the output's mode, in nanoseconds.
    pub mode_interval: Option<u64>,
    /// The compositor presents at a variable refresh rate.
    pub compositor_vrr: bool,
    pub animations_going: bool,
}

/// What a vertical blank asks for.
#[derive(Debug)]
pub struct VBlankEffects {
    /// Timers to remove.
    pub remove_timers: Vec<u64>,
    pub presentation: Option<Presentation>,
    /// A redraw needs this timer.
    pub redraw: Option<RedrawTimer>,
    /// Frame callbacks with this sequence number are due.
    pub send_frames: Option<usize>,
}

/// What clients are told of a frame that a vertical blank presented.
pub open spec fn presentation_of(
    metadata: Option<VBlankMetadata>,
    context: VBlankContext,
) -> Presentation {
    let time = monotonic_time(metadata);
    Presentation {
        time: match time {
            Some(nanoseconds) => nanoseconds,
            None => context.now,
        },
        hw_clock: time is Some,
        refresh: match context.mode_interval {
            Some(interval) if context.compositor_vrr => Refresh::Variable(interval),
            Some(interval) => Refresh::Fixed(interval),
            None => Refresh::Unknown,
        },
        sequence: sequence_of(metadata) as u64,
    }
}

/// The sequence number of a vertical blank.
pub open spec fn sequence_of(metadata: Option<VBlankMetadata>) -> u32 {
    match metadata {
        Some(data) => data.sequence,
        None => 0,
    }
}

fn vblank_sequence(metadata: Option<VBlankMetadata>) -> (sequence: u32)
    ensures
        sequence == sequence_of(metadata),
{
    match metadata {
        Some(data) => data.sequence,
        None => 0,
    }
}

/// What clients are told of a frame that a vertical blank presented.
pub fn presentation_for(metadata: Option<VBlankMetadata>, context: VBlankContext) -> (presentation:
    Presentation)
    ensures
        presentation == presentation_of(metadata, context),
{
    let time: Option<u64> = match metadata {
        Some(VBlankMetadata { time: DrmEventTime::Monotonic(time), .. }) => Some(time),
        _ => None,
    };
    let refresh: Refresh = match context.mode_interval {
        Some(interval) => if context.compositor_vrr {
            Refresh::Variable(interval)
        } else {
            Refresh::Fixed(interval)
        },
        None => Refresh::Unknown,
    };
    Presentation {
        time: time.unwrap_or(context.now),
        hw_clock: time.is_some(),
        refresh,
        sequence: vblank_sequence(metadata) as u64,
    }
}

/// The fullscreen surface of a frame.
#[derive(Debug, Clone, Copy, PartialEq, Eq, Structural)]
pub struct FullscreenFrame {
    pub occupied: FullscreenOccupied,
    /// How often the surface commits, in nanoseconds, as far as it is known.
    pub frame_time: Option<u64>,
}

/// What a frame starts from.
#[derive(Debug, Clone, Copy, PartialEq, Eq, Structural)]
pub struct FrameStart {
    pub fullscreen: Option<FullscreenOccupied>,
    /// The fullscreen surface commits fast enough to set the refresh rate.
    pub drives_refresh_rate: bool,
    pub scanout_plan: Option<ScanoutPlan>,
    pub allow_primary_scanout: bool,
    /// The color pipeline has to be set up anew.
    pub update_color: bool,
    /// The frame is shown by an asynchronous page flip, which may tear.
    pub tearing: bool,
}

/// How the color pipeline of an output is set up.
#[derive(Debug, Clone, Copy, PartialEq, Eq, Structural)]
pub enum ColorSetup {
    /// Convert the surface's planes; encode what is blended for a sink with this
    /// peak, where a peak is given. The CRTC passes colors through.
    Plane { conversion: PlaneColorConversion, post_blend_peak: Option<u16> },
    /// Remove the conversions of planes; the CRTC stays as it is.
    RemovePlanes,
    /// Remove the conversions of planes and let the CRTC convert.
    Crtc(PlaneColorConversion),
    /// Remove all conversions.
    Remove,
}

/// Peak luminance assumed for a sink of which none is known, in cd/m².
pub const ASSUMED_PEAK: u16 = 1_000;

/// The setup of the color pipeline that a plan asks for. `has_surface` says
/// whether the fullscreen surface still has content, `is_direct` whether the
/// plane's pipeline encodes for the output by itself, `peak` is the sink's.
pub open spec fn color_setup_for(
    plan: Option<ScanoutPlan>,
    allow_primary_scanout: bool,
    has_surface: bool,
    is_direct: bool,
    hdr_enabled: bool,
    peak: Option<u16>,
) -> ColorSetup {
    match plan {
        Some(ScanoutPlan::PlaneColorop(conversion)) if allow_primary_scanout => if has_surface {
            ColorSetup::Plane {
                conversion,
                post_blend_peak: if hdr_enabled && !is_direct {
                    match peak {
                        Some(peak) => Some(peak),
                        None => Some(ASSUMED_PEAK),
                    }
                } else {
                    None
                },
            }
        } else {
            ColorSetup::RemovePlanes
        },
        Some(ScanoutPlan::CrtcHardware(conversion)) if allow_primary_scanout => ColorSetup::Crtc(
            conversion,
        ),
        _ => ColorSetup::Remove,
    }
}

/// What setting up the color pipeline came to.
#[derive(Debug, Clone, Copy, PartialEq, Eq, Structural)]
pub struct ColorOutcome {
    pub active_scanout_plan: Option<ScanoutPlan>,
    pub allow_primary_scanout: bool,
    /// The CRTC refused: it is to pass colors through again, and the surface is
    /// from now on converted by the GPU.
    pub crtc_refused: bool,
}

/// What a setup comes to, given whether the CRTC accepted it.
pub open spec fn color_outcome_of(
    setup: ColorSetup,
    plan: Option<ScanoutPlan>,
    allow_primary_scanout: bool,
    crtc_accepted: bool,
) -> ColorOutcome {
    match setup {
        ColorSetup::Plane { .. } => ColorOutcome {
            active_scanout_plan: plan,
            allow_primary_scanout,
            crtc_refused: false,
        },
        ColorSetup::RemovePlanes => ColorOutcome {
            active_scanout_plan: None,
            allow_primary_scanout: false,
            crtc_refused: false,
        },
        ColorSetup::Crtc(_) => if crtc_accepted {
            ColorOutcome { active_scanout_plan: plan, allow_primary_scanout, crtc_refused: false }
        } else {
            ColorOutcome {
                active_scanout_plan: Some(ScanoutPlan::VulkanFastDirectFlip),
                allow_primary_scanout: false,
                crtc_refused: true,
            }
        },
        ColorSetup::Remove => ColorOutcome {
            active_scanout_plan: if allow_primary_scanout {
                plan
            } else {
                None
            },
            allow_primary_scanout,
            crtc_refused: false,
        },
    }
}

/// What is known once the color pipeline is set up and the elements of the
/// frame are collected.
#[derive(Debug, Clone, Copy, PartialEq, Eq, Structural)]
pub struct FrameContext {
    pub switches: RenderSwitches,
    pub animations_going: bool,
    /// The frame comes later than the fastest refresh allows.
    pub past_min_render_time: bool,
    /// The content is composited offscreen first, and cleared there.
    pub composited_offscreen: bool,
}

/// How a frame is rendered.
#[derive(Debug, Clone, Copy, PartialEq, Eq, Structural)]
pub struct FramePlan {
    pub flags: FrameFlags,
    pub vrr: bool,
    /// The background is transparent black instead of the clear color.
    pub clear_transparent: bool,
    /// Cursor-only updates are skipped: without a frame, look again.
    pub skips_cursor_updates: bool,
    pub allow_primary_scanout: bool,
    /// The frame is shown by an asynchronous page flip, which may tear.
    pub tearing: bool,
}

/// Whether a frame is shown by an asynchronous page flip: the output allows
/// tearing, and the fullscreen surface prefers it.
pub open spec fn wants_tearing(tearing_allowed: bool, fullscreen: Option<FullscreenFrame>) -> bool {
    tearing_allowed && (fullscreen matches Some(frame) && frame.occupied.prefers_async)
}

/// Whether frames are presented at a variable refresh rate.
pub open spec fn wants_vrr(mode: AdaptiveSync, has_fullscreen: bool) -> bool {
    match mode {
        AdaptiveSync::Disabled => false,
        AdaptiveSync::Enabled => has_fullscreen,
        AdaptiveSync::Force => true,
    }
}

/// What became of a frame that was handed to the kernel.
#[derive(Debug, Clone, Copy, PartialEq, Eq, Structural)]
pub enum SubmitResult {
    Submitted,
    /// There was nothing to show.
    Empty,
    Failed,
}

/// What a submitted frame asks for.
#[derive(Debug, Clone, Copy, PartialEq, Eq, Structural)]
pub struct SubmitEffects {
    /// A timer to remove.
    pub remove_timer: Option<u64>,
    /// What was rendered is to be reported.
    pub send_render_states: bool,
    /// Barriers that wait for a frame are to be signalled.
    pub signal_fifo: bool,
    /// The staged HDR state is committed.
    pub commit_hdr: bool,
    /// Frame callbacks with this sequence number are due.
    pub send_frames: Option<usize>,
    /// The fullscreen surface alone gets its frame callbacks.
    pub send_fullscreen_frames: bool,
    /// A timer is needed for the estimated vertical blank.
    pub needs_vblank_timer: bool,
    /// Screen copies are to be failed.
    pub fail_copies: bool,
}

impl SubmitEffects {
    /// Nothing is asked for.
    pub open spec fn nothing() -> SubmitEffects {
        SubmitEffects {
            remove_timer: None,
            send_render_states: false,
            signal_fifo: false,
            commit_hdr: false,
            send_frames: None,
            send_fullscreen_frames: false,
            needs_vblank_timer: false,
            fail_copies: false,
        }
    }

    fn none() -> (effects: SubmitEffects)
        ensures
            effects == SubmitEffects::nothing(),
    {
        SubmitEffects {
            remove_timer: None,
            send_render_states: false,
            signal_fifo: false,
            commit_hdr: false,
            send_frames: None,
            send_fullscreen_frames: false,
            needs_vblank_timer: false,
            fail_copies: false,
        }
    }
}

/// The number after `seq`, which starts over at zero.
pub open spec fn next_seq(seq: usize) -> usize {
    if seq == usize::MAX {
        0
    } else {
        (seq + 1) as usize
    }
}

/// The surface whose content is composited offscreen first.
#[derive(Debug, Clone, Copy, PartialEq, Eq, Structural)]
pub enum PostprocessSource {
    /// Elements are rendered directly.
    Direct,
    /// The content of the output itself.
    Own,
    /// The content of the mirrored output.
    Mirrored,
}

impl SurfaceThreadState {
    /// Whether a vertical blank presents a frame of this output.
    pub fn awaits_vblank(&self) -> (awaits: bool)
        ensures
            awaits == (self.has_compositor && self.queue is WaitingForVBlank),
    {
        self.has_compositor && match self.queue {
            QueueState::WaitingForVBlank { .. } => true,
            _ => false,
        }
    }

    /// The sequence number of the frame callbacks that are due, which go to the
    /// clients of the output's own content only.
    pub open spec fn due_callbacks(self) -> Option<usize> {
        if self.mirroring is None {
            Some(self.frame_callback_seq)
        } else {
            None
        }
    }

    /// The state once a presented frame was accounted for.
    pub open spec fn after_presented(
        self,
        metadata: Option<VBlankMetadata>,
        context: VBlankContext,
    ) -> SurfaceThreadState {
        SurfaceThreadState {
            queue: QueueState::Idle,
            last_sequence: if context.has_feedback && self.mirroring is None {
                Some(sequence_of(metadata))
            } else {
                self.last_sequence
            },
            ..self
        }
    }

    /// A vertical blank arrived. A frame that waited for it is presented, and a
    /// redraw that was asked for meanwhile is queued; otherwise whatever is
    /// queued is dropped, as happens right after an output is resumed.
    #[verifier::rlimit(40)]
    pub fn on_vblank(
        &mut self,
        metadata: Option<VBlankMetadata>,
        context: VBlankContext,
    ) -> (effects: VBlankEffects)
        ensures
            !old(self).has_compositor ==> {
                &&& *final(self) == *old(self)
                &&& effects.remove_timers@ == Seq::<u64>::empty()
                &&& effects.presentation is None
                &&& effects.redraw is None
                &&& effects.send_frames is None
            },
            old(self).has_compositor ==> match old(self).queue {
                QueueState::WaitingForVBlank { redraw_needed, fullscreen_request } => {
                    let presented = old(self).after_presented(metadata, context);
                    let redraws = redraw_needed || (!old(self).vrr && context.animations_going);
                    &&& effects.remove_timers@ == Seq::<u64>::empty()
                    &&& effects.presentation == if context.has_feedback
                        && old(self).mirroring is None {
                        Some(presentation_of(metadata, context))
                    } else {
                        None
                    }
                    &&& *final(self) == presented
                    &&& effects.redraw == if redraws {
                        presented.timer_for(context.thread, false, fullscreen_request)
                    } else {
                        None
                    }
                    &&& effects.send_frames == old(self).due_callbacks()
                },
                _ => {
                    &&& *final(self) == (SurfaceThreadState { queue: QueueState::Idle, ..*old(self) })
                    &&& effects.remove_timers@ == old(self).queue.timers()
                    &&& effects.presentation is None
                    &&& effects.redraw is None
                    &&& effects.send_frames is None
                },
            },
            old(self).wf() ==> final(self).wf(),
    {
        if !self.has_compositor {
            return VBlankEffects {
                remove_timers: Vec::new(),
                presentation: None,
                redraw: None,
                send_frames: None,
            };
        }
        let mut queue: QueueState = self.queue;
        let event: Result<(bool, bool), Vec<u64>> = queue.vblank();
        let (redraw_needed, is_fullscreen): (bool, bool) = match event {
            Ok(request) => request,
            Err(remove_timers) => {
                *self = SurfaceThreadState { queue, ..*self };
                return VBlankEffects {
                    remove_timers,
                    presentation: None,
                    redraw: None,
                    send_frames: None,
                };
            },
        };
        let presented: bool = context.has_feedback && self.mirroring.is_none();
        let presentation: Presentation = presentation_for(metadata, context);
        let last_sequence: Option<u32> = if presented {
            Some(vblank_sequence(metadata))
        } else {
            self.last_sequence
        };
        *self = SurfaceThreadState { queue, last_sequence, ..*self };
        let redraw: Option<RedrawTimer> = if redraw_needed || (!self.vrr
            && context.animations_going) {
            self.queue_redraw(context.thread, false, is_fullscreen)
        } else {
            None
        };
        VBlankEffects {
            remove_timers: Vec::new(),
            presentation: if presented {
                Some(presentation)
            } else {
                None
            },
            redraw,
            send_frames: self.due_frame_callbacks(),
        }
    }

    /// The sequence number of the frame callbacks that are due.
    fn due_frame_callbacks(&self) -> (seq: Option<usize>)
        ensures
            seq == self.due_callbacks(),
    {
        if self.mirroring.is_none() {
            Some(self.frame_callback_seq)
        } else {
            None
        }
    }

    /// The timer of an estimated vertical blank fired. Returns the timer that a
    /// redraw needs, and the frame callbacks that are due; both wait where a
    /// redraw is queued already.
    #[verifier::rlimit(40)]
    pub fn on_estimated_vblank(
        &mut self,
        force: bool,
        animations_going: bool,
        context: ThreadContext,
    ) -> (effects: (Option<RedrawTimer>, Option<usize>))
        requires
            old(self).queue.vblank_timer() is Some,
        ensures
            match old(self).queue.render_timer() {
                Some(token) => {
                    &&& *final(self) == (SurfaceThreadState {
                        queue: QueueState::Queued(token),
                        ..*old(self)
                    })
                    &&& effects.0 is None && effects.1 is None
                },
                None => {
                    let elapsed = SurfaceThreadState {
                        queue: QueueState::Idle,
                        frame_callback_seq: next_seq(old(self).frame_callback_seq),
                        ..*old(self)
                    };
                    &&& *final(self) == elapsed
                    &&& effects.0 == if force || (!old(self).vrr && animations_going) {
                        elapsed.timer_for(context, false, false)
                    } else {
                        None
                    }
                    &&& effects.1 == elapsed.due_callbacks()
                },
            },
            old(self).wf() ==> final(self).wf(),
    {
        let mut queue: QueueState = self.queue;
        let done: bool = queue.estimated_vblank();
        if !done {
            *self = SurfaceThreadState { queue, ..*self };
            return (None, None);
        }
        let frame_callback_seq: usize = self.frame_callback_seq.wrapping_add(1);
        *self = SurfaceThreadState { queue, frame_callback_seq, ..*self };
        let redraw: Option<RedrawTimer> = if force || (!self.vrr && animations_going) {
            self.queue_redraw(context, false, false)
        } else {
            None
        };
        (redraw, self.due_frame_callbacks())
    }

    /// Records the timer of a redraw that was just registered. Returns the timer
    /// that it replaces, which is to be removed.
    pub fn redraw_queued(&mut self, token: u64) -> (replaced: Option<u64>)
        requires
            old(self).has_compositor,
            !(old(self).queue is WaitingForVBlank),
        ensures
            *final(self) == (SurfaceThreadState {
                queue: old(self).queue.with_render_timer(token),
                ..*old(self)
            }),
            replaced == old(self).queue.render_timer(),
            old(self).wf() ==> final(self).wf(),
    {
        let mut queue: QueueState = self.queue;
        let replaced: Option<u64> = queue.queued(token);
        self.queue = queue;
        replaced
    }

    /// Records the timer of an estimated vertical blank.
    pub fn estimated_vblank_queued(&mut self, token: u64)
        requires
            old(self).has_compositor,
            old(self).queue is Idle,
        ensures
            *final(self) == (SurfaceThreadState {
                queue: QueueState::WaitingForEstimatedVBlank(token),
                ..*old(self)
            }),
            old(self).wf() ==> final(self).wf(),
    {
        self.queue = QueueState::WaitingForEstimatedVBlank(token);
    }

    /// Whether the fullscreen surface may be put on the primary plane.
    pub open spec fn may_scan_out(
        self,
        fullscreen: Option<FullscreenFrame>,
        switches: RenderSwitches,
    ) -> bool {
        fullscreen matches Some(frame) && frame.occupied.scanout_plan.on_primary_plane()
            && self.filter_is_noop && self.mirroring is None && !switches.disable_direct_scanout
    }

    /// What a frame starts from.
    pub open spec fn frame_start(
        self,
        fullscreen: Option<FullscreenFrame>,
        switches: RenderSwitches,
        tearing_allowed: bool,
    ) -> FrameStart {
        let occupied = match fullscreen {
            Some(frame) => Some(frame.occupied),
            None => None,
        };
        let plan = match fullscreen {
            Some(frame) => Some(frame.occupied.scanout_plan),
            None => None,
        };
        let slowest = match self.min_vrr_frame_time {
            Some(time) => time,
            None => FRAME_TIME_30_HZ,
        };
        FrameStart {
            fullscreen: occupied,
            drives_refresh_rate: fullscreen matches Some(frame) && (frame.frame_time matches Some(
                time,
            ) && time <= slowest),
            scanout_plan: plan,
            allow_primary_scanout: self.may_scan_out(fullscreen, switches),
            update_color: self.fullscreen != occupied || self.is_scanout != self.may_scan_out(
                fullscreen,
                switches,
            ) || self.active_scanout_plan != plan,
            tearing: wants_tearing(tearing_allowed, fullscreen),
        }
    }

    /// Starts a frame: looks at the fullscreen surface, whether it can be scanned
    /// out and whether its frames may tear.
    pub fn begin_frame(
        &self,
        fullscreen: Option<FullscreenFrame>,
        switches: RenderSwitches,
        tearing_allowed: bool,
    ) -> (start: FrameStart)
        ensures
            start == self.frame_start(fullscreen, switches, tearing_allowed),
    {
        let slowest: u64 = self.min_vrr_frame_time.unwrap_or(FRAME_TIME_30_HZ);
        match fullscreen {
            Some(frame) => {
                let plan: ScanoutPlan = frame.occupied.effective_scanout_plan();
                let allow_primary_scanout: bool = plan.allows_primary_scanout()
                    && self.filter_is_noop && self.mirroring.is_none()
                    && !switches.disable_direct_scanout;
                let drives_refresh_rate: bool = match frame.frame_time {
                    Some(time) => time <= slowest,
                    None => false,
                };
                let same_surface: bool = match self.fullscreen {
                    Some(current) => current == frame.occupied,
                    None => false,
                };
                let same_plan: bool = match self.active_scanout_plan {
                    Some(current) => current == plan,
                    None => false,
                };
                FrameStart {
                    fullscreen: Some(frame.occupied),
                    drives_refresh_rate,
                    scanout_plan: Some(plan),
                    allow_primary_scanout,
                    update_color: !same_surface || self.is_scanout != allow_primary_scanout
                        || !same_plan,
                    tearing: tearing_allowed && frame.occupied.prefers_async,
                }
            },
            None => FrameStart {
                fullscreen: None,
                drives_refresh_rate: false,
                scanout_plan: None,
                allow_primary_scanout: false,
                update_color: self.fullscreen.is_some() || self.is_scanout
                    || self.active_scanout_plan.is_some(),
                tearing: false,
            },
        }
    }

    /// Decides how the color pipeline is set up for a frame.
    pub fn color_setup(
        &self,
        start: FrameStart,
        has_surface: bool,
        is_direct: bool,
        peak: Option<u16>,
    ) -> (setup: ColorSetup)
        ensures
            setup == color_setup_for(
                start.scanout_plan,
                start.allow_primary_scanout,
                has_surface,
                is_direct,
                self.hdr_enabled,
                peak,
            ),
    {
        if !start.allow_primary_scanout {
            return ColorSetup::Remove;
        }
        match start.scanout_plan {
            Some(ScanoutPlan::PlaneColorop(conversion)) => {
                if has_surface {
                    let post_blend_peak: Option<u16> = if self.hdr_enabled && !is_direct {
                        Some(peak.unwrap_or(ASSUMED_PEAK))
                    } else {
                        None
                    };
                    ColorSetup::Plane { conversion, post_blend_peak }
                } else {
                    ColorSetup::RemovePlanes
                }
            },
            Some(ScanoutPlan::CrtcHardware(conversion)) => ColorSetup::Crtc(conversion),
            _ => ColorSetup::Remove,
        }
    }

    /// The state once the color pipeline of a frame was set up.
    pub open spec fn after_color_setup(
        self,
        start: FrameStart,
        outcome: ColorOutcome,
    ) -> SurfaceThreadState {
        SurfaceThreadState {
            active_scanout_plan: outcome.active_scanout_plan,
            fullscreen: start.fullscreen,
            is_scanout: self.is_scanout && !self.is_vulkan,
            swapchain_is_scanout: self.swapchain_is_scanout && !self.is_vulkan,
            ..self
        }
    }

    /// Records how setting up the color pipeline went. `crtc_accepted` only
    /// counts where the CRTC was asked to convert.
    pub fn update_scanout_color_management(
        &mut self,
        start: FrameStart,
        setup: ColorSetup,
        crtc_accepted: bool,
    ) -> (outcome: ColorOutcome)
        ensures
            outcome == color_outcome_of(
                setup,
                start.scanout_plan,
                start.allow_primary_scanout,
                crtc_accepted,
            ),
            *final(self) == old(self).after_color_setup(start, outcome),
            old(self).wf() ==> final(self).wf(),
    {
        let outcome: ColorOutcome = match setup {
            ColorSetup::Plane { .. } => ColorOutcome {
                active_scanout_plan: start.scanout_plan,
                allow_primary_scanout: start.allow_primary_scanout,
                crtc_refused: false,
            },
            ColorSetup::RemovePlanes => ColorOutcome {
                active_scanout_plan: None,
                allow_primary_scanout: false,
                crtc_refused: false,
            },
            ColorSetup::Crtc(_) => if crtc_accepted {
                ColorOutcome {
                    active_scanout_plan: start.scanout_plan,
                    allow_primary_scanout: start.allow_primary_scanout,
                    crtc_refused: false,
                }
            } else {
                ColorOutcome {
                    active_scanout_plan: Some(ScanoutPlan::VulkanFastDirectFlip),
                    allow_primary_scanout: false,
                    crtc_refused: true,
                }
            },
            ColorSetup::Remove => ColorOutcome {
                active_scanout_plan: if start.allow_primary_scanout {
                    start.scanout_plan
                } else {
                    None
                },
                allow_primary_scanout: start.allow_primary_scanout,
                crtc_refused: false,
            },
        };
        self.active_scanout_plan = outcome.active_scanout_plan;
        self.fullscreen = start.fullscreen;
        if self.is_vulkan {
            self.is_scanout = false;
            self.swapchain_is_scanout = false;
        }
        outcome
    }

    /// The flags that are added for a frame.
    pub open spec fn added_flags(
        self,
        start: FrameStart,
        allow_primary_scanout: bool,
        context: FrameContext,
    ) -> FrameFlags {
        FrameFlags {
            allow_primary_plane_scanout: allow_primary_scanout,
            allow_primary_plane_scanout_any: allow_primary_scanout,
            allow_overlay_plane_scanout: false,
            allow_cursor_plane_scanout: !context.switches.disable_cursor_plane,
            skip_cursor_only_updates: wants_vrr(self.vrr_mode, start.fullscreen is Some)
                && start.drives_refresh_rate && !context.past_min_render_time,
            fullscreen_pacing: start.fullscreen is Some,
        }
    }

    /// The flags that are taken away for a frame.
    pub open spec fn removed_flags(
        self,
        allow_primary_scanout: bool,
        context: FrameContext,
    ) -> FrameFlags {
        FrameFlags {
            allow_primary_plane_scanout: !allow_primary_scanout,
            allow_primary_plane_scanout_any: !allow_primary_scanout,
            allow_overlay_plane_scanout: context.animations_going
                || context.switches.disable_overlay_scanout,
            allow_cursor_plane_scanout: context.switches.disable_cursor_plane,
            skip_cursor_only_updates: false,
            fullscreen_pacing: false,
        }
    }

    /// How a frame is rendered.
    pub open spec fn frame_plan(
        self,
        start: FrameStart,
        allow_primary_scanout: bool,
        context: FrameContext,
    ) -> FramePlan {
        let added = self.added_flags(start, allow_primary_scanout, context);
        FramePlan {
            flags: self.frame_flags.plus(added).without(
                self.removed_flags(allow_primary_scanout, context),
            ),
            vrr: wants_vrr(self.vrr_mode, start.fullscreen is Some),
            clear_transparent: start.fullscreen is Some || context.composited_offscreen,
            skips_cursor_updates: added.skip_cursor_only_updates,
            allow_primary_scanout,
            tearing: start.tearing,
        }
    }

    /// How the cursor is to be encoded in this state.
    pub open spec fn wanted_cursor_mode(self) -> CursorTransformMode {
        CursorTransformMode::wanted(
            self.hdr_enabled,
            self.active_scanout_plan,
            self.hdr_reference_white,
        )
    }

    /// The cursor encoders to install, where the cursor is encoded otherwise so far.
    pub open spec fn cursor_transforms_due(self) -> Option<CursorTransforms> {
        if self.cursor_transform_mode != Some(self.wanted_cursor_mode()) {
            Some(
                transforms_for(
                    self.hdr_enabled,
                    self.active_scanout_plan,
                    self.hdr_reference_white,
                ),
            )
        } else {
            None
        }
    }

    /// The state once it is settled whether a frame is scanned out directly.
    pub open spec fn after_settling(self, allow_primary_scanout: bool) -> SurfaceThreadState {
        SurfaceThreadState {
            cursor_transform_mode: Some(self.wanted_cursor_mode()),
            is_scanout: allow_primary_scanout,
            ..self
        }
    }

    /// Records whether a frame is scanned out directly. Returns the
    /// cursor encoders to install, where they changed.
    pub fn settle_scanout(&mut self, allow_primary_scanout: bool) -> (cursor: Option<
        CursorTransforms,
    >)
        ensures
            *final(self) == old(self).after_settling(allow_primary_scanout),
            cursor == old(self).cursor_transforms_due(),
            old(self).wf() ==> final(self).wf(),
    {
        let mut mode: Option<CursorTransformMode> = self.cursor_transform_mode;
        let cursor: Option<CursorTransforms> = apply_cursor_buffer_transform(
            &mut mode,
            self.hdr_enabled,
            self.active_scanout_plan,
            self.hdr_reference_white,
        );
        *self =
        SurfaceThreadState {
            cursor_transform_mode: mode,
            is_scanout: allow_primary_scanout,
            ..*self
        };
        cursor
    }

    /// Plans how a frame is rendered.
    pub fn plan_frame(
        &mut self,
        start: FrameStart,
        allow_primary_scanout: bool,
        context: FrameContext,
    ) -> (plan: FramePlan)
        ensures
            plan == old(self).frame_plan(start, allow_primary_scanout, context),
            *final(self) == (SurfaceThreadState { vrr: plan.vrr, ..*old(self) }),
            old(self).wf() ==> final(self).wf(),
    {
        let has_fullscreen: bool = start.fullscreen.is_some();
        let vrr: bool = match self.vrr_mode {
            AdaptiveSync::Disabled => false,
            AdaptiveSync::Enabled => has_fullscreen,
            AdaptiveSync::Force => true,
        };
        let skips_cursor_updates: bool = vrr && start.drives_refresh_rate
            && !context.past_min_render_time;
        let added: FrameFlags = FrameFlags {
            allow_primary_plane_scanout: allow_primary_scanout,
            allow_primary_plane_scanout_any: allow_primary_scanout,
            allow_overlay_plane_scanout: false,
            allow_cursor_plane_scanout: !context.switches.disable_cursor_plane,
            skip_cursor_only_updates: skips_cursor_updates,
            fullscreen_pacing: has_fullscreen,
        };
        let removed: FrameFlags = FrameFlags {
            allow_primary_plane_scanout: !allow_primary_scanout,
            allow_primary_plane_scanout_any: !allow_primary_scanout,
            allow_overlay_plane_scanout: context.animations_going
                || context.switches.disable_overlay_scanout,
            allow_cursor_plane_scanout: context.switches.disable_cursor_plane,
            skip_cursor_only_updates: false,
            fullscreen_pacing: false,
        };
        self.vrr = vrr;
        FramePlan {
            flags: self.frame_flags.union(added).difference(removed),
            vrr,
            clear_transparent: has_fullscreen || context.composited_offscreen,
            skips_cursor_updates,
            allow_primary_scanout,
            tearing: start.tearing,
        }
    }

    /// Which content is composited offscreen first: mirrored content whose size
    /// or scale differs, and anything that a screen filter changes.
    pub open spec fn wanted_postprocess(self, same_config: bool) -> PostprocessSource {
        if self.mirroring is Some {
            if !same_config || !self.filter_is_noop {
                PostprocessSource::Mirrored
            } else {
                PostprocessSource::Direct
            }
        } else if !self.filter_is_noop {
            PostprocessSource::Own
        } else {
            PostprocessSource::Direct
        }
    }

    /// Which content is composited offscreen first. `source_config` is the
    /// untransformed configuration of the output whose content is shown,
    /// `own_config` that of this output.
    pub fn postprocess_source(
        &self,
        source_config: PostprocessOutputConfig,
        own_config: PostprocessOutputConfig,
    ) -> (source: PostprocessSource)
        ensures
            source == self.wanted_postprocess(source_config == own_config),
    {
        if self.mirroring.is_some() {
            if source_config != own_config || !self.filter_is_noop {
                PostprocessSource::Mirrored
            } else {
                PostprocessSource::Direct
            }
        } else if !self.filter_is_noop {
            PostprocessSource::Own
        } else {
            PostprocessSource::Direct
        }
    }

    /// Whether the offscreen buffer for post-processing has to be made, because
    /// there is none or it does not fit.
    pub fn needs_offscreen(&self, target: PostprocessTarget) -> (needs: bool)
        ensures
            needs == (self.postprocess != Some(target)),
    {
        match self.postprocess {
            Some(current) => current != target,
            None => true,
        }
    }

    /// Records that the renderer made the offscreen buffer for post-processing.
    pub fn offscreen_made(&mut self, target: PostprocessTarget)
        ensures
            *final(self) == (SurfaceThreadState { postprocess: Some(target), ..*old(self) }),
            old(self).wf() ==> final(self).wf(),
    {
        self.postprocess = Some(target);
    }

    /// Whether the cursor is left out of the content that is composited offscreen,
    /// and composited to a texture of its own.
    pub open spec fn cursor_apart(self, source: PostprocessSource, hides_cursor: bool) -> bool {
        !(source is Direct) && hides_cursor && self.mirroring is None
    }

    /// Whether the cursor is composited apart: where some capture of the output's own
    /// content hides it.
    pub fn composites_cursor_apart(&self, source: PostprocessSource, hides_cursor: bool) -> (apart:
        bool)
        ensures
            apart == self.cursor_apart(source, hides_cursor),
    {
        let offscreen: bool = match source {
            PostprocessSource::Direct => false,
            _ => true,
        };
        offscreen && hides_cursor && self.mirroring.is_none()
    }

    /// Whether the pending captures of windows are served with a frame: only Vulkan
    /// does so, and only for an output that shows its own content.
    pub fn takes_window_captures(&self) -> (takes: bool)
        ensures
            takes == (self.is_vulkan && self.mirroring is None),
    {
        self.is_vulkan && self.mirroring.is_none()
    }

    /// Whether clients are told when a frame is presented.
    pub fn takes_feedback(&self, frame_is_empty: bool) -> (takes: bool)
        ensures
            takes == (!frame_is_empty && self.mirroring is None),
    {
        !frame_is_empty && self.mirroring.is_none()
    }

    /// Records whether a rendered frame shows the surface itself.
    pub fn frame_rendered(&mut self, plan: FramePlan, is_swapchain: bool)
        ensures
            *final(self) == (SurfaceThreadState {
                swapchain_is_scanout: !is_swapchain && plan.allow_primary_scanout,
                ..*old(self)
            }),
            old(self).wf() ==> final(self).wf(),
    {
        self.swapchain_is_scanout = !is_swapchain && plan.allow_primary_scanout;
    }

    /// Whether an empty frame of a fullscreen surface needs no vertical blank:
    /// at a variable refresh rate the surface goes on at once.
    pub open spec fn skips_estimated_vblank(self) -> bool {
        self.is_vulkan && self.fullscreen is Some && self.vrr
    }

    /// The state once a frame was handed to the kernel.
    pub open spec fn after_submit(self, result: SubmitResult) -> SurfaceThreadState {
        match result {
            SubmitResult::Submitted => SurfaceThreadState {
                queue: QueueState::WaitingForVBlank {
                    redraw_needed: false,
                    fullscreen_request: false,
                },
                frame_callback_seq: if self.mirroring is None {
                    next_seq(self.frame_callback_seq)
                } else {
                    self.frame_callback_seq
                },
                ..self
            },
            SubmitResult::Empty => if self.skips_estimated_vblank() {
                SurfaceThreadState {
                    queue: QueueState::Idle,
                    frame_callback_seq: next_seq(self.frame_callback_seq),
                    ..self
                }
            } else {
                SurfaceThreadState {
                    queue: match self.queue.vblank_timer() {
                        Some(token) => QueueState::WaitingForEstimatedVBlank(token),
                        None => QueueState::Idle,
                    },
                    ..self
                }
            },
            SubmitResult::Failed => self,
        }
    }

    /// What a frame that was handed to the kernel asks for.
    pub open spec fn submit_effects(self, result: SubmitResult) -> SubmitEffects {
        let own = self.mirroring is None;
        match result {
            SubmitResult::Submitted => SubmitEffects {
                remove_timer: self.queue.vblank_timer(),
                send_render_states: own,
                signal_fifo: own,
                commit_hdr: true,
                send_frames: self.after_submit(result).due_callbacks(),
                ..SubmitEffects::nothing()
            },
            SubmitResult::Empty => SubmitEffects {
                remove_timer: if self.skips_estimated_vblank() {
                    self.queue.vblank_timer()
                } else {
                    None
                },
                send_render_states: own,
                signal_fifo: own && self.is_vulkan,
                send_fullscreen_frames: self.skips_estimated_vblank(),
                needs_vblank_timer: !self.skips_estimated_vblank()
                    && self.queue.vblank_timer() is None,
                ..SubmitEffects::nothing()
            },
            SubmitResult::Failed => SubmitEffects {
                fail_copies: !self.is_vulkan,
                ..SubmitEffects::nothing()
            },
        }
    }

    /// Whether this may become of a frame in this state: a frame that is shown, or
    /// whose vertical blank is to be estimated, comes of a queued redraw.
    pub open spec fn takes_result(self, result: SubmitResult) -> bool {
        ||| result is Failed
        ||| result is Empty && self.skips_estimated_vblank()
        ||| !(self.queue is Idle) && !(self.queue is WaitingForVBlank)
    }

    /// Records what became of a frame that was handed to the kernel.
    pub fn frame_submitted(&mut self, result: SubmitResult) -> (effects: SubmitEffects)
        requires
            old(self).takes_result(result),
        ensures
            *final(self) == old(self).after_submit(result),
            effects == old(self).submit_effects(result),
            old(self).wf() ==> final(self).wf(),
    {
        match result {
            SubmitResult::Submitted => self.submitted(),
            SubmitResult::Empty => self.submitted_empty(),
            SubmitResult::Failed => SubmitEffects {
                fail_copies: !self.is_vulkan,
                ..SubmitEffects::none()
            },
        }
    }

    fn submitted(&mut self) -> (effects: SubmitEffects)
        requires
            !(old(self).queue is Idle) && !(old(self).queue is WaitingForVBlank),
        ensures
            *final(self) == old(self).after_submit(SubmitResult::Submitted),
            effects == old(self).submit_effects(SubmitResult::Submitted),
    {
        let own: bool = self.mirroring.is_none();
        let mut queue: QueueState = self.queue;
        let remove_timer: Option<u64> = queue.frame_submitted();
        let frame_callback_seq: usize = if own {
            self.frame_callback_seq.wrapping_add(1)
        } else {
            self.frame_callback_seq
        };
        *self = SurfaceThreadState { queue, frame_callback_seq, ..*self };
        SubmitEffects {
            remove_timer,
            send_render_states: own,
            signal_fifo: own,
            commit_hdr: true,
            send_frames: self.due_frame_callbacks(),
            ..SubmitEffects::none()
        }
    }

    fn submitted_empty(&mut self) -> (effects: SubmitEffects)
        requires
            old(self).takes_result(SubmitResult::Empty),
        ensures
            *final(self) == old(self).after_submit(SubmitResult::Empty),
            effects == old(self).submit_effects(SubmitResult::Empty),
    {
        let own: bool = self.mirroring.is_none();
        let signal_fifo: bool = own && self.is_vulkan;
        let mut queue: QueueState = self.queue;
        if self.is_vulkan && self.fullscreen.is_some() && self.vrr {
            let remove_timer: Option<u64> = queue.skip_vblank();
            let frame_callback_seq: usize = self.frame_callback_seq.wrapping_add(1);
            *self = SurfaceThreadState { queue, frame_callback_seq, ..*self };
            SubmitEffects {
                remove_timer,
                send_render_states: own,
                signal_fifo,
                send_fullscreen_frames: true,
                ..SubmitEffects::none()
            }
        } else {
            let needs_vblank_timer: bool = queue.queue_estimated_vblank();
            *self = SurfaceThreadState { queue, ..*self };
            SubmitEffects {
                send_render_states: own,
                signal_fifo,
                needs_vblank_timer,
                ..SubmitEffects::none()
            }
        }
    }
}

/// What is asked for while a frame waits for its vertical blank is redrawn right
/// after it: the request is remembered, and the blank queues a redraw.
pub proof fn lemma_blank_redraws_what_was_asked(
    state: SurfaceThreadState,
    request: ThreadContext,
    is_fullscreen: bool,
    metadata: Option<VBlankMetadata>,
    context: VBlankContext,
)
    requires
        state.wf(),
        state.has_compositor,
        state.queue is WaitingForVBlank,
    ensures
        ({
            let asked = state.after_request(request, is_fullscreen);
            &&& asked.queue matches QueueState::WaitingForVBlank {
                redraw_needed,
                fullscreen_request,
            } && redraw_needed && (is_fullscreen ==> fullscreen_request)
            &&& asked.after_presented(metadata, context).timer_for(
                context.thread,
                false,
                asked.queue->fullscreen_request,
            ) is Some
        }),
{
}

/// Direct scanout needs a fullscreen surface and is never used with a screen
/// filter, while mirroring, or where it is disabled.
pub proof fn lemma_direct_scanout_needs_fullscreen(
    state: SurfaceThreadState,
    fullscreen: Option<FullscreenFrame>,
    switches: RenderSwitches,
    tearing_allowed: bool,
)
    ensures
        state.frame_start(fullscreen, switches, tearing_allowed).allow_primary_scanout ==> {
            &&& fullscreen is Some
            &&& state.filter_is_noop
            &&& state.mirroring is None
            &&& !switches.disable_direct_scanout
            &&& state.frame_start(fullscreen, switches, tearing_allowed).scanout_plan matches Some(plan)
                && plan.on_primary_plane()
        },
{
}

/// Setting up the color pipeline never allows more than was asked for, and a
/// refused CRTC leaves the surface to the GPU.
pub proof fn lemma_color_setup_only_restricts(
    state: SurfaceThreadState,
    start: FrameStart,
    has_surface: bool,
    is_direct: bool,
    peak: Option<u16>,
    crtc_accepted: bool,
)
    ensures
        ({
            let setup = color_setup_for(
                start.scanout_plan,
                start.allow_primary_scanout,
                has_surface,
                is_direct,
                state.hdr_enabled,
                peak,
            );
            let outcome = color_outcome_of(
                setup,
                start.scanout_plan,
                start.allow_primary_scanout,
                crtc_accepted,
            );
            &&& outcome.allow_primary_scanout ==> start.allow_primary_scanout
            &&& outcome.allow_primary_scanout ==> outcome.active_scanout_plan == start.scanout_plan
            &&& outcome.crtc_refused ==> !outcome.allow_primary_scanout
                && outcome.active_scanout_plan == Some(ScanoutPlan::VulkanFastDirectFlip)
            &&& !start.allow_primary_scanout ==> outcome.active_scanout_plan is None
        }),
{
}

/// The cursor plane is used for a frame exactly when it is not disabled, and
/// the primary plane exactly when direct scanout is allowed, whatever else
/// the output's flags say.
pub proof fn lemma_frame_flags(
    state: SurfaceThreadState,
    start: FrameStart,
    allow_primary_scanout: bool,
    context: FrameContext,
)
    ensures
        ({
            let flags = state.frame_plan(start, allow_primary_scanout, context).flags;
            &&& flags.allow_cursor_plane_scanout == !context.switches.disable_cursor_plane
            &&& flags.allow_primary_plane_scanout == allow_primary_scanout
            &&& flags.allow_primary_plane_scanout_any == allow_primary_scanout
            &&& context.animations_going ==> !flags.allow_overlay_plane_scanout
            &&& start.fullscreen is Some ==> flags.fullscreen_pacing
            &&& start.fullscreen is None ==> flags.fullscreen_pacing
                == state.frame_flags.fullscreen_pacing
        }),
{
}

/// Cursor encoders are installed once: as long as neither the HDR mode, the
/// scanout plan nor the reference white changes, nothing more is due.
pub proof fn lemma_cursor_encoders_are_installed_once(
    state: SurfaceThreadState,
    allow_primary_scanout: bool,
    later: SurfaceThreadState,
)
    requires
        later.cursor_transform_mode == state.after_settling(
            allow_primary_scanout,
        ).cursor_transform_mode,
        later.hdr_enabled == state.hdr_enabled,
        later.active_scanout_plan == state.active_scanout_plan,
        later.hdr_reference_white == state.hdr_reference_white,
    ensures
        later.cursor_transforms_due() is None,
{
}

/// A staged HDR state is committed only when the kernel accepted a frame, and only
/// then does the output wait for a vertical blank.
pub proof fn lemma_commit_needs_submission(state: SurfaceThreadState, result: SubmitResult)
    requires
        !(state.queue is WaitingForVBlank),
    ensures
        state.submit_effects(result).commit_hdr == (result is Submitted),
        (state.after_submit(result).queue is WaitingForVBlank) == (result is Submitted),
{
}

/// Mirrored content takes no part in its output's frame callbacks, feedback and
/// barriers.
pub proof fn lemma_mirrored_output_is_silent(state: SurfaceThreadState, result: SubmitResult)
    requires
        state.mirroring is Some,
    ensures
        state.submit_effects(result).send_frames is None,
        !state.submit_effects(result).send_render_states,
        !state.submit_effects(result).signal_fifo,
        state.due_callbacks() is None,
{
}

/// What a planned frame is: forced adaptive sync presents every frame at a variable
/// rate, enabled adaptive sync those of a fullscreen surface, and disabled none. The
/// planes follow direct scanout, animations and the switches, and nothing of the
/// state changes but the rate.
pub proof fn lemma_plan_follows_the_mode(
    state: &mut SurfaceThreadState,
    start: FrameStart,
    allow_primary_scanout: bool,
    context: FrameContext,
    plan: FramePlan,
)
    requires
        call_ensures(
            SurfaceThreadState::plan_frame,
            (state, start, allow_primary_scanout, context),
            plan,
        ),
    ensures
        old(state).vrr_mode is Force ==> plan.vrr,
        old(state).vrr_mode is Enabled ==> (plan.vrr <==> start.fullscreen is Some),
        old(state).vrr_mode is Disabled ==> !plan.vrr,
        final(state).vrr == plan.vrr,
        *final(state) == (SurfaceThreadState { vrr: final(state).vrr, ..*old(state) }),
        plan.clear_transparent <==> start.fullscreen is Some || context.composited_offscreen,
        plan.tearing <==> start.tearing,
        plan.allow_primary_scanout <==> allow_primary_scanout,
        plan.flags.allow_primary_plane_scanout <==> allow_primary_scanout,
        plan.flags.allow_primary_plane_scanout_any <==> allow_primary_scanout,
        plan.flags.allow_cursor_plane_scanout <==> !context.switches.disable_cursor_plane,
        plan.flags.allow_overlay_plane_scanout ==> old(state).frame_flags.allow_overlay_plane_scanout
            && !context.animations_going && !context.switches.disable_overlay_scanout,
        old(state).frame_flags.allow_overlay_plane_scanout && !context.animations_going
            && !context.switches.disable_overlay_scanout ==> plan.flags.allow_overlay_plane_scanout,
        plan.skips_cursor_updates ==> plan.vrr && start.drives_refresh_rate
            && plan.flags.skip_cursor_only_updates,
        plan.vrr && start.drives_refresh_rate && !context.past_min_render_time
            ==> plan.skips_cursor_updates,
        context.past_min_render_time ==> !plan.skips_cursor_updates
            && plan.flags.skip_cursor_only_updates
            == old(state).frame_flags.skip_cursor_only_updates,
        plan.flags.skip_cursor_only_updates ==> plan.skips_cursor_updates
            || old(state).frame_flags.skip_cursor_only_updates,
        start.fullscreen is Some ==> plan.flags.fullscreen_pacing,
        start.fullscreen is None ==> plan.flags.fullscreen_pacing
            == old(state).frame_flags.fullscreen_pacing,
{
}

/// What a frame starts from is what is seen of the fullscreen surface: it is scanned
/// out directly exactly where neither its plan, a filter, mirroring nor a switch is
/// against it, it may tear exactly where the output allows what it prefers, and it
/// drives the refresh rate exactly where it commits at least as often as the slowest
/// rate. Colors are set up anew unless nothing changed.
pub proof fn lemma_frame_starts_from_the_surface(
    state: SurfaceThreadState,
    fullscreen: Option<FullscreenFrame>,
    switches: RenderSwitches,
    tearing_allowed: bool,
    start: FrameStart,
)
    requires
        call_ensures(
            SurfaceThreadState::begin_frame,
            (&state, fullscreen, switches, tearing_allowed),
            start,
        ),
    ensures
        fullscreen is None ==> start.fullscreen is None && start.scanout_plan is None
            && !start.allow_primary_scanout && !start.drives_refresh_rate && !start.tearing,
        fullscreen matches Some(frame) ==> {
            &&& start.fullscreen == Some(frame.occupied)
            &&& start.scanout_plan == Some(frame.occupied.scanout_plan)
            &&& start.tearing <==> tearing_allowed && frame.occupied.prefers_async
            &&& start.allow_primary_scanout <==> !(
            frame.occupied.scanout_plan is VulkanFastDirectFlip) && state.filter_is_noop
                && state.mirroring is None && !switches.disable_direct_scanout
            &&& frame.frame_time is None ==> !start.drives_refresh_rate
            &&& frame.frame_time matches Some(time) ==> {
                &&& state.min_vrr_frame_time matches Some(slowest) ==> (start.drives_refresh_rate
                    <==> time <= slowest)
                &&& state.min_vrr_frame_time is None ==> (start.drives_refresh_rate <==> time
                    <= 33_333_333)
            }
        },
        start.update_color <==> !(state.fullscreen == start.fullscreen && state.is_scanout
            == start.allow_primary_scanout && state.active_scanout_plan == start.scanout_plan),
{
}

/// Colors are converted where the plan says: by the planes while the surface has
/// content, by the CRTC, or nowhere; and only where the surface is scanned out. What
/// is blended on an HDR output is encoded unless the planes do that by themselves.
pub proof fn lemma_colors_are_converted_as_planned(
    state: SurfaceThreadState,
    start: FrameStart,
    has_surface: bool,
    is_direct: bool,
    peak: Option<u16>,
    setup: ColorSetup,
)
    requires
        call_ensures(
            SurfaceThreadState::color_setup,
            (&state, start, has_surface, is_direct, peak),
            setup,
        ),
    ensures
        setup matches ColorSetup::Plane { conversion, post_blend_peak } ==> {
            &&& start.allow_primary_scanout && has_surface
            &&& start.scanout_plan == Some(ScanoutPlan::PlaneColorop(conversion))
            &&& post_blend_peak is Some <==> state.hdr_enabled && !is_direct
            &&& post_blend_peak is Some && peak is Some ==> post_blend_peak == peak
            &&& post_blend_peak is Some && peak is None ==> post_blend_peak == Some(1_000u16)
        },
        setup matches ColorSetup::Crtc(conversion) ==> start.allow_primary_scanout
            && start.scanout_plan == Some(ScanoutPlan::CrtcHardware(conversion)),
        setup is RemovePlanes <==> start.allow_primary_scanout && !has_surface && (
        start.scanout_plan matches Some(plan) && plan is PlaneColorop),
        setup is Remove <==> !start.allow_primary_scanout || !(start.scanout_plan matches Some(plan)
            && (plan is PlaneColorop || plan is CrtcHardware)),
{
}

/// Once colors are set up, direct scanout goes on as planned, unless the surface has
/// no content or the CRTC refused: then it is off, and after a refusal the GPU
/// converts the surface.
pub proof fn lemma_color_outcome(
    state: &mut SurfaceThreadState,
    start: FrameStart,
    setup: ColorSetup,
    crtc_accepted: bool,
    outcome: ColorOutcome,
)
    requires
        call_ensures(
            SurfaceThreadState::update_scanout_color_management,
            (state, start, setup, crtc_accepted),
            outcome,
        ),
    ensures
        outcome.crtc_refused <==> setup is Crtc && !crtc_accepted,
        outcome.crtc_refused ==> outcome.active_scanout_plan == Some(
            ScanoutPlan::VulkanFastDirectFlip,
        ),
        setup is RemovePlanes ==> outcome.active_scanout_plan is None,
        outcome.allow_primary_scanout <==> start.allow_primary_scanout && !outcome.crtc_refused && !(
        setup is RemovePlanes),
        setup is Plane || (setup is Crtc && crtc_accepted) ==> outcome.active_scanout_plan
            == start.scanout_plan,
        setup is Remove && start.allow_primary_scanout ==> outcome.active_scanout_plan
            == start.scanout_plan,
        setup is Remove && !start.allow_primary_scanout ==> outcome.active_scanout_plan is None,
        final(state).active_scanout_plan == outcome.active_scanout_plan,
        final(state).fullscreen == start.fullscreen,
        old(state).is_vulkan ==> !final(state).is_scanout && !final(state).swapchain_is_scanout,
        !old(state).is_vulkan ==> final(state).is_scanout == old(state).is_scanout
            && final(state).swapchain_is_scanout == old(state).swapchain_is_scanout,
        *final(state) == (SurfaceThreadState {
            active_scanout_plan: final(state).active_scanout_plan,
            fullscreen: final(state).fullscreen,
            is_scanout: final(state).is_scanout,
            swapchain_is_scanout: final(state).swapchain_is_scanout,
            ..*old(state)
        }),
{
}

/// Settling direct scanout records it, and keeps the cursor encoded for the state:
/// as it is on an SDR output, linear where the CRTC encodes linear content, and PQ
/// at the reference white on any other HDR output. Encoders are handed out exactly
/// when the mode changes.
pub proof fn lemma_settling_encodes_the_cursor(
    state: &mut SurfaceThreadState,
    allow_primary_scanout: bool,
    cursor: Option<CursorTransforms>,
)
    requires
        call_ensures(SurfaceThreadState::settle_scanout, (state, allow_primary_scanout), cursor),
    ensures
        final(state).is_scanout == allow_primary_scanout,
        !old(state).hdr_enabled ==> final(state).cursor_transform_mode == Some(
            CursorTransformMode::Passthrough,
        ),
        old(state).hdr_enabled && (old(state).active_scanout_plan matches Some(
            ScanoutPlan::CrtcHardware(PlaneColorConversion::ScRgbToPq { .. }),
        )) ==> final(state).cursor_transform_mode == Some(CursorTransformMode::LinearRec709),
        old(state).hdr_enabled && !(old(state).active_scanout_plan matches Some(
            ScanoutPlan::CrtcHardware(PlaneColorConversion::ScRgbToPq { .. }),
        )) ==> final(state).cursor_transform_mode == Some(
            CursorTransformMode::PqEncode { ref_white: old(state).hdr_reference_white },
        ),
        cursor is Some <==> final(state).cursor_transform_mode != old(state).cursor_transform_mode,
        *final(state) == (SurfaceThreadState {
            is_scanout: final(state).is_scanout,
            cursor_transform_mode: final(state).cursor_transform_mode,
            ..*old(state)
        }),
{
}

/// Content is composited offscreen exactly where a filter changes it or mirrored
/// content does not fit, and then from the output that it belongs to.
pub proof fn lemma_offscreen_content(
    state: SurfaceThreadState,
    source_config: PostprocessOutputConfig,
    own_config: PostprocessOutputConfig,
    source: PostprocessSource,
)
    requires
        call_ensures(
            SurfaceThreadState::postprocess_source,
            (&state, source_config, own_config),
            source,
        ),
    ensures
        !state.filter_is_noop ==> !(source is Direct),
        source is Mirrored ==> state.mirroring is Some && (source_config != own_config
            || !state.filter_is_noop),
        source is Own ==> state.mirroring is None && !state.filter_is_noop,
        state.mirroring is Some && source_config != own_config ==> source is Mirrored,
        state.filter_is_noop && (state.mirroring is None || source_config == own_config)
            ==> source is Direct,
{
}

/// What a frame comes to once it was handed to the kernel: only an accepted one
/// commits HDR and waits for its vertical blank; only own content is reported to
/// clients; no timer of an estimated vertical blank is lost, and a failed frame
/// changes nothing.
#[verifier::rlimit(40)]
pub proof fn lemma_submission_is_accounted_for(
    state: &mut SurfaceThreadState,
    result: SubmitResult,
    effects: SubmitEffects,
)
    requires
        call_ensures(SurfaceThreadState::frame_submitted, (state, result), effects),
    ensures
        effects.commit_hdr <==> result is Submitted,
        effects.fail_copies <==> result is Failed && !old(state).is_vulkan,
        effects.send_render_states <==> !(result is Failed) && old(state).mirroring is None,
        effects.signal_fifo <==> old(state).mirroring is None && (result is Submitted || (
        result is Empty && old(state).is_vulkan)),
        result is Failed ==> *final(state) == *old(state) && effects.remove_timer is None
            && effects.send_frames is None && !effects.send_fullscreen_frames
            && !effects.needs_vblank_timer,
        result is Submitted ==> {
            &&& final(state).queue == (QueueState::WaitingForVBlank {
                redraw_needed: false,
                fullscreen_request: false,
            })
            &&& old(state).mirroring is Some ==> effects.send_frames is None
                && final(state).frame_callback_seq == old(state).frame_callback_seq
            &&& old(state).mirroring is None ==> effects.send_frames == Some(
                final(state).frame_callback_seq,
            ) && final(state).frame_callback_seq != old(state).frame_callback_seq && (
            old(state).frame_callback_seq < usize::MAX ==> final(state).frame_callback_seq
                == old(state).frame_callback_seq + 1) && (old(state).frame_callback_seq == usize::MAX
                ==> final(state).frame_callback_seq == 0)
            &&& !effects.send_fullscreen_frames && !effects.needs_vblank_timer
            &&& effects.remove_timer == match old(state).queue {
                QueueState::WaitingForEstimatedVBlank(token) => Some(token),
                QueueState::WaitingForEstimatedVBlankAndQueued { estimated_vblank, .. } => Some(
                    estimated_vblank,
                ),
                _ => None,
            }
        },
        result is Empty ==> effects.send_frames is None,
        result is Empty ==> (effects.send_fullscreen_frames <==> old(state).is_vulkan
            && old(state).fullscreen is Some && old(state).vrr),
        result is Empty && effects.send_fullscreen_frames ==> {
            &&& final(state).queue is Idle
            &&& !effects.needs_vblank_timer
            &&& final(state).frame_callback_seq != old(state).frame_callback_seq
            &&& old(state).frame_callback_seq < usize::MAX ==> final(state).frame_callback_seq
                == old(state).frame_callback_seq + 1
            &&& old(state).frame_callback_seq == usize::MAX ==> final(state).frame_callback_seq == 0
            &&& effects.remove_timer == match old(state).queue {
                QueueState::WaitingForEstimatedVBlank(token) => Some(token),
                QueueState::WaitingForEstimatedVBlankAndQueued { estimated_vblank, .. } => Some(
                    estimated_vblank,
                ),
                _ => None,
            }
        },
        result is Empty && !effects.send_fullscreen_frames ==> {
            &&& effects.remove_timer is None
            &&& final(state).frame_callback_seq == old(state).frame_callback_seq
            &&& effects.needs_vblank_timer <==> final(state).queue is Idle
            &&& final(state).queue == match old(state).queue {
                QueueState::WaitingForEstimatedVBlank(token) => {
                    QueueState::WaitingForEstimatedVBlank(token)
                },
                QueueState::WaitingForEstimatedVBlankAndQueued { estimated_vblank, .. } => {
                    QueueState::WaitingForEstimatedVBlank(estimated_vblank)
                },
                _ => QueueState::Idle,
            }
        },
        *final(state) == (SurfaceThreadState {
            queue: final(state).queue,
            frame_callback_seq: final(state).frame_callback_seq,
            ..*old(state)
        }),
{
}

/// What clients are told of a presented frame: the hardware's own time and its
/// sequence number where the kernel gives them, else the time it is; and the mode's
/// frame time, as a variable one only where the compositor varies it.
pub proof fn lemma_presentation_is_reported(
    metadata: Option<VBlankMetadata>,
    context: VBlankContext,
    presentation: Presentation,
)
    requires
        call_ensures(presentation_for, (metadata, context), presentation),
    ensures
        presentation.hw_clock <==> (metadata matches Some(data) && data.time is Monotonic),
        metadata matches Some(data) ==> presentation.sequence == data.sequence,
        metadata is None ==> presentation.sequence == 0,
        metadata matches Some(data) ==> (data.time matches DrmEventTime::Monotonic(time)
            ==> presentation.time == time),
        !presentation.hw_clock ==> presentation.time == context.now,
        presentation.refresh is Unknown <==> context.mode_interval is None,
        presentation.refresh matches Refresh::Variable(interval) ==> context.compositor_vrr
            && context.mode_interval == Some(interval),
        presentation.refresh matches Refresh::Fixed(interval) ==> !context.compositor_vrr
            && context.mode_interval == Some(interval),
{
}

/// A vertical blank presents the frame that waited for it, once: its feedback and
/// its frame callbacks go to the clients of own content, a redraw that was asked for
/// follows, and the output is idle. Without such a frame all timers are dropped.
#[verifier::rlimit(60)]
pub proof fn lemma_vblank_presents_a_frame(
    state: &mut SurfaceThreadState,
    metadata: Option<VBlankMetadata>,
    context: VBlankContext,
    effects: VBlankEffects,
)
    requires
        call_ensures(SurfaceThreadState::on_vblank, (state, metadata, context), effects),
    ensures
        !old(state).has_compositor ==> *final(state) == *old(state),
        old(state).has_compositor ==> final(state).queue is Idle,
        effects.presentation is Some <==> old(state).has_compositor
            && old(state).queue is WaitingForVBlank && context.has_feedback
            && old(state).mirroring is None,
        effects.presentation matches Some(presentation) ==> {
            &&& final(state).last_sequence matches Some(sequence) && presentation.sequence
                == sequence
            &&& metadata matches Some(data) ==> presentation.sequence == data.sequence
            &&& metadata matches Some(data) ==> (data.time matches DrmEventTime::Monotonic(time)
                ==> presentation.time == time && presentation.hw_clock)
        },
        effects.presentation is None ==> final(state).last_sequence == old(state).last_sequence,
        effects.send_frames is Some <==> old(state).has_compositor
            && old(state).queue is WaitingForVBlank && old(state).mirroring is None,
        effects.send_frames matches Some(seq) ==> seq == old(state).frame_callback_seq,
        effects.redraw is Some <==> old(state).has_compositor && (
        old(state).queue matches QueueState::WaitingForVBlank { redraw_needed, .. } && (
        redraw_needed || (!old(state).vrr && context.animations_going))),
        effects.remove_timers@.len() > 0 ==> old(state).has_compositor,
        old(state).has_compositor ==> (old(state).queue matches QueueState::Queued(token)
            ==> effects.remove_timers@ == seq![token]),
        old(state).has_compositor ==> (
        old(state).queue matches QueueState::WaitingForEstimatedVBlank(token)
            ==> effects.remove_timers@ == seq![token]),
        old(state).has_compositor ==> (
        old(state).queue matches QueueState::WaitingForEstimatedVBlankAndQueued {
            estimated_vblank,
            queued_render,
        } ==> effects.remove_timers@ == seq![estimated_vblank, queued_render]),
        *final(state) == (SurfaceThreadState {
            queue: final(state).queue,
            last_sequence: final(state).last_sequence,
            ..*old(state)
        }),
{
}

/// An estimated vertical blank stands in for a real one: unless a redraw is queued
/// already, callbacks move on by one and go to the clients of own content, and a
/// redraw follows where it is forced or something is animated at a fixed rate.
#[verifier::rlimit(60)]
pub proof fn lemma_estimated_vblank_goes_on(
    state: &mut SurfaceThreadState,
    force: bool,
    animations_going: bool,
    context: ThreadContext,
    effects: (Option<RedrawTimer>, Option<usize>),
)
    requires
        old(state).queue.vblank_timer() is Some,
        call_ensures(
            SurfaceThreadState::on_estimated_vblank,
            (state, force, animations_going, context),
            effects,
        ),
    ensures
        old(state).queue matches QueueState::WaitingForEstimatedVBlankAndQueued {
            queued_render,
            ..
        } ==> {
            &&& final(state).queue == QueueState::Queued(queued_render)
            &&& effects.0 is None && effects.1 is None
            &&& final(state).frame_callback_seq == old(state).frame_callback_seq
        },
        old(state).queue is WaitingForEstimatedVBlank ==> {
            &&& final(state).queue is Idle
            &&& final(state).frame_callback_seq != old(state).frame_callback_seq
            &&& old(state).frame_callback_seq < usize::MAX ==> final(state).frame_callback_seq
                == old(state).frame_callback_seq + 1
            &&& old(state).frame_callback_seq == usize::MAX ==> final(state).frame_callback_seq == 0
            &&& effects.1 is Some <==> old(state).mirroring is None
            &&& effects.1 matches Some(seq) ==> seq == final(state).frame_callback_seq
            &&& effects.0 is Some <==> old(state).has_compositor && (force || (!old(state).vrr
                && animations_going))
        },
        *final(state) == (SurfaceThreadState {
            queue: final(state).queue,
            frame_callback_seq: final(state).frame_callback_seq,
            ..*old(state)
        }),
{
}

/// The timer of a redraw takes the place of an earlier one, which is handed back,
/// and leaves the timer of an estimated vertical blank alone.
pub proof fn lemma_redraw_timer_is_recorded(
    state: &mut SurfaceThreadState,
    token: u64,
    replaced: Option<u64>,
)
    requires
        old(state).has_compositor,
        !(old(state).queue is WaitingForVBlank),
        call_ensures(SurfaceThreadState::redraw_queued, (state, token), replaced),
    ensures
        match old(state).queue {
            QueueState::Queued(earlier) => replaced == Some(earlier) && final(state).queue
                == QueueState::Queued(token),
            QueueState::WaitingForEstimatedVBlank(estimated_vblank) => replaced is None
                && final(state).queue == (QueueState::WaitingForEstimatedVBlankAndQueued {
                estimated_vblank,
                queued_render: token,
            }),
            QueueState::WaitingForEstimatedVBlankAndQueued {
                estimated_vblank,
                queued_render,
            } => replaced == Some(queued_render) && final(state).queue == (
            QueueState::WaitingForEstimatedVBlankAndQueued {
                estimated_vblank,
                queued_render: token,
            }),
            _ => replaced is None && final(state).queue == QueueState::Queued(token),
        },
{
}

/// A frame shows the surface itself only where direct scanout was planned and the
/// swapchain is not shown; offscreen buffers are made again only for another target.
pub proof fn lemma_rendered_frame_is_recorded(
    state: &mut SurfaceThreadState,
    plan: FramePlan,
    is_swapchain: bool,
)
    requires
        call_ensures(SurfaceThreadState::frame_rendered, (state, plan, is_swapchain), ()),
    ensures
        final(state).swapchain_is_scanout <==> plan.allow_primary_scanout && !is_swapchain,
        *final(state) == (SurfaceThreadState {
            swapchain_is_scanout: final(state).swapchain_is_scanout,
            ..*old(state)
        }),
{
}

/// Feedback is taken for own content that is shown, and a vertical blank is awaited
/// only by a frame that was handed to the kernel.
pub proof fn lemma_feedback_is_for_own_content(
    state: SurfaceThreadState,
    frame_is_empty: bool,
    takes: bool,
    awaits: bool,
)
    requires
        call_ensures(SurfaceThreadState::takes_feedback, (&state, frame_is_empty), takes),
        call_ensures(SurfaceThreadState::awaits_vblank, (&state,), awaits),
    ensures
        takes ==> !frame_is_empty,
        takes ==> state.mirroring is None,
        !frame_is_empty && state.mirroring is None ==> takes,
        awaits <==> state.has_compositor && (state.queue matches QueueState::WaitingForVBlank { .. }),
{
}

/// An offscreen buffer that was made is not needed again, and any other is.
pub proof fn lemma_made_offscreen_is_not_needed(
    state: &mut SurfaceThreadState,
    target: PostprocessTarget,
    other: PostprocessTarget,
    needs: bool,
)
    requires
        call_ensures(SurfaceThreadState::offscreen_made, (state, target), ()),
        call_ensures(SurfaceThreadState::needs_offscreen, (&*final(state), other), needs),
    ensures
        needs <==> other != target,
{
}

/// The cursor is composited apart only from own content that is composited
/// offscreen, and only for a capture that hides it; and windows are captured with
/// the frames of Vulkan outputs that mirror nothing.
pub proof fn lemma_captures_of_own_content(
    state: SurfaceThreadState,
    source: PostprocessSource,
    hides_cursor: bool,
    apart: bool,
    takes: bool,
)
    requires
        call_ensures(
            SurfaceThreadState::composites_cursor_apart,
            (&state, source, hides_cursor),
            apart,
        ),
        call_ensures(SurfaceThreadState::takes_window_captures, (&state,), takes),
    ensures
        apart ==> hides_cursor && state.mirroring is None && source != PostprocessSource::Direct,
        hides_cursor && state.mirroring is None && source != PostprocessSource::Direct ==> apart,
        takes ==> state.is_vulkan && state.mirroring is None,
        state.is_vulkan && state.mirroring is None ==> takes,
{
}

/// What follows a vertical blank is asked of an idle queue: for the fullscreen surface
/// where that asked while the frame waited, and never by force.
#[verifier::rlimit(60)]
pub proof fn lemma_blank_asks_the_queue(
    state: &mut SurfaceThreadState,
    metadata: Option<VBlankMetadata>,
    context: VBlankContext,
    effects: VBlankEffects,
    queue: &mut QueueState,
    redraw: RedrawContext,
    is_fullscreen: bool,
    timer: Option<RedrawTimer>,
)
    requires
        call_ensures(SurfaceThreadState::on_vblank, (state, metadata, context), effects),
        old(state).queue matches QueueState::WaitingForVBlank { fullscreen_request, .. }
            && is_fullscreen == fullscreen_request,
        *old(queue) is Idle,
        redraw.has_compositor == old(state).has_compositor,
        redraw.vrr == old(state).vrr,
        redraw.min_vrr_frame_time == old(state).min_vrr_frame_time,
        redraw.fullscreen_occupied == context.thread.fullscreen_occupied,
        redraw.immediate_render == context.thread.immediate_render,
        redraw.skip_other_surface == context.thread.switches.fullscreen_skip_other_surface,
        redraw.skip_other_surface_always == context.thread.switches.fullscreen_skip_other_surface_always,
        call_ensures(QueueState::queue_redraw, (queue, redraw, false, is_fullscreen), timer),
    ensures
        effects.redraw is Some ==> effects.redraw == timer,
{
    assert(redraw == old(state).redraw_context(context.thread));
}

/// What follows an estimated vertical blank is asked of an idle queue, as any other
/// update.
#[verifier::rlimit(60)]
pub proof fn lemma_estimated_blank_asks_the_queue(
    state: &mut SurfaceThreadState,
    force: bool,
    animations_going: bool,
    context: ThreadContext,
    effects: (Option<RedrawTimer>, Option<usize>),
    queue: &mut QueueState,
    redraw: RedrawContext,
    timer: Option<RedrawTimer>,
)
    requires
        old(state).queue is WaitingForEstimatedVBlank,
        call_ensures(
            SurfaceThreadState::on_estimated_vblank,
            (state, force, animations_going, context),
            effects,
        ),
        *old(queue) is Idle,
        redraw.has_compositor == old(state).has_compositor,
        redraw.vrr == old(state).vrr,
        redraw.min_vrr_frame_time == old(state).min_vrr_frame_time,
        redraw.fullscreen_occupied == context.fullscreen_occupied,
        redraw.immediate_render == context.immediate_render,
        redraw.skip_other_surface == context.switches.fullscreen_skip_other_surface,
        redraw.skip_other_surface_always == context.switches.fullscreen_skip_other_surface_always,
        call_ensures(QueueState::queue_redraw, (queue, redraw, false, false), timer),
    ensures
        effects.0 is Some ==> effects.0 == timer,
{
    assert(redraw == old(state).redraw_context(context));
}

/// The timer of an estimated vertical blank is waited for.
pub proof fn lemma_estimated_timer_is_recorded(state: &mut SurfaceThreadState, token: u64)
    requires
        old(state).has_compositor,
        old(state).queue is Idle,
        call_ensures(SurfaceThreadState::estimated_vblank_queued, (state, token), ()),
    ensures
        *final(state) == (SurfaceThreadState {
            queue: QueueState::WaitingForEstimatedVBlank(token),
            ..*old(state)
        }),
{
}

} // verus!
