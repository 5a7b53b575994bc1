//! The render thread of an output: its state, and what the commands of the main
//! thread and the vertical blanks of the kernel do to it.
use crate::color::{CursorTransformMode, ScanoutPlan};
use crate::device::DrmNode;
use crate::frame_flags::{
    allow_frame_flags, flags_allowed, flags_fit_encoding, flags_on_hdr, flags_on_resume,
    hdr_switched, FrameFlags, RenderSwitches,
};
use crate::fullscreen::FullscreenOccupied;
use crate::output::AdaptiveSync;
use crate::queue::{QueueState, RedrawContext, RedrawTimer};
use crate::text::{contains_text, holds_text};
use vstd::prelude::*;

verus! {

/// The lowest rate that variable refresh is paced to, in millihertz.
pub const MIN_VRR_TARGET_RATE: u32 = 30_000;

/// The refresh rate assumed for an output without a mode, in millihertz.
pub const DEFAULT_REFRESH_RATE: u32 = 60_000;

/// Frames per second below which low-framerate compensation is never triggered.
pub const MIN_VRR_FRAME_RATE: u32 = 30;

/// Margin to the sink's minimum rate, so that low-framerate compensation is not
/// triggered, in Hz.
pub const VRR_SAFETY_MARGIN: u32 = 2;

/// The rate that variable refresh is paced to: what is wanted, unless it is
/// below the minimum.
pub open spec fn paced_rate(rate: u32, origin_rate: u32) -> u32 {
    if rate < MIN_VRR_TARGET_RATE {
        origin_rate
    } else {
        rate
    }
}

/// The rate that variable refresh is paced to, in millihertz: rates below 30 Hz
/// fall back to the mode's own rate.
pub fn resolve_vrr_target_rate(rate: u32, origin_rate: u32) -> (resolved: u32)
    ensures
        resolved == paced_rate(rate, origin_rate),
{
    if rate < MIN_VRR_TARGET_RATE {
        origin_rate
    } else {
        rate
    }
}

/// A paced rate is at least the minimum, or it is the mode's own; pacing it
/// again changes nothing.
pub proof fn lemma_paced_rate(rate: u32, origin_rate: u32)
    ensures
        paced_rate(rate, origin_rate) >= MIN_VRR_TARGET_RATE || paced_rate(rate, origin_rate)
            == origin_rate,
        paced_rate(paced_rate(rate, origin_rate), origin_rate) == paced_rate(rate, origin_rate),
{
}

/// The rate of an output's mode, where it is usable.
pub open spec fn usable_rate(current: Option<u32>) -> u32 {
    match current {
        Some(rate) if rate > 0 => rate,
        _ => DEFAULT_REFRESH_RATE,
    }
}

/// The refresh rate of an output: that of its mode, or 60 Hz.
pub fn origin_rate(current: Option<u32>) -> (rate: u32)
    ensures
        rate == usable_rate(current),
{
    match current {
        Some(rate) => if rate > 0 {
            rate
        } else {
            DEFAULT_REFRESH_RATE
        },
        None => DEFAULT_REFRESH_RATE,
    }
}

/// The frame interval that variable refresh is paced to.
#[derive(Debug, Clone, Copy, PartialEq, Eq, Structural)]
pub enum VrrInterval {
    /// This many nanoseconds.
    Nanoseconds(u64),
    /// One frame at this rate in millihertz.
    Rate(u32),
}

/// The lowest frame rate at variable refresh, in Hz: above the sink's minimum
/// by a margin, and at least 30 Hz.
pub fn min_vrr_frame_rate(min_hz: Option<u32>) -> (rate: u32)
    requires
        min_hz matches Some(min) ==> min + VRR_SAFETY_MARGIN <= u32::MAX,
    ensures
        rate == match min_hz {
            Some(min) if min + VRR_SAFETY_MARGIN > MIN_VRR_FRAME_RATE => (min
                + VRR_SAFETY_MARGIN) as u32,
            _ => MIN_VRR_FRAME_RATE,
        },
{
    match min_hz {
        Some(min) => if min + VRR_SAFETY_MARGIN > MIN_VRR_FRAME_RATE {
            min + VRR_SAFETY_MARGIN
        } else {
            MIN_VRR_FRAME_RATE
        },
        None => MIN_VRR_FRAME_RATE,
    }
}

/// How the colors of composited content are encoded for an output.
#[derive(Debug, Clone, Copy, PartialEq, Eq, Structural)]
pub enum HdrOutputConfig {
    Hdr { reference_white: u32, max_luminance: u32, hardware_offload: bool },
    SdrTonemapping,
}

/// The offscreen buffer that content is composited in before post-processing.
#[derive(Debug, Clone, Copy, PartialEq, Eq, Structural)]
pub struct PostprocessTarget {
    pub config: PostprocessOutputConfig,
    pub format: u32,
}

/// What the size and scale of a post-processing buffer follow from.
#[derive(Debug, Clone, Copy, PartialEq, Eq, Structural)]
pub struct PostprocessOutputConfig {
    pub width: i32,
    pub height: i32,
    /// The fractional scale in 120ths.
    pub scale: u32,
}

/// The state of an output's render thread.
#[derive(Debug, Clone, Copy, PartialEq, Eq, Structural)]
pub struct SurfaceThreadState {
    pub is_vulkan: bool,
    pub target_node: DrmNode,
    /// The output has a compositor: it is not suspended.
    pub has_compositor: bool,
    pub vrr_mode: AdaptiveSync,
    pub vrr_target_rate: u32,
    /// Frames are timed for a variable refresh rate.
    pub vrr: bool,
    pub frame_flags: FrameFlags,
    pub queue: QueueState,
    pub frame_callback_seq: usize,
    pub fullscreen: Option<FullscreenOccupied>,
    /// The output whose content is shown instead of its own.
    pub mirroring: Option<u64>,
    /// The screen filter changes nothing.
    pub filter_is_noop: bool,
    pub hdr_enabled: bool,
    pub is_scanout: bool,
    pub swapchain_is_scanout: bool,
    pub active_scanout_plan: Option<ScanoutPlan>,
    pub hdr_reference_white: u32,
    pub hdr_max_luminance: u32,
    pub hdr_hardware_offload: bool,
    pub hdr_config: Option<HdrOutputConfig>,
    pub postprocess: Option<PostprocessTarget>,
    pub cursor_transform_mode: Option<CursorTransformMode>,
    pub min_vrr: Option<u32>,
    /// In nanoseconds.
    pub min_vrr_frame_time: Option<u64>,
    pub last_sequence: Option<u32>,
}

/// What lies outside the thread's own state when a command is handled.
#[derive(Debug, Clone, Copy, PartialEq, Eq, Structural)]
pub struct ThreadContext {
    /// The compositor has finished starting up.
    pub startup_done: bool,
    pub switches: RenderSwitches,
    /// Fullscreen updates are rendered at once.
    pub immediate_render: bool,
    /// A fullscreen surface covers the output.
    pub fullscreen_occupied: bool,
    /// The refresh rate of the output's mode, in millihertz.
    pub current_rate: Option<u32>,
    /// The measured refresh interval of the mode, in nanoseconds.
    pub origin_interval: Option<u64>,
}

/// Commands of the main thread to a render thread. What comes with a command
/// and only the renderer can use stays with the event loop.
#[derive(Debug, Clone, Copy, PartialEq, Eq, Structural)]
pub enum ThreadCommand {
    Suspend,
    /// The output has a compositor again. Its sink's minimum refresh rate, in
    /// Hz, and the longest frame time that follows from it, in nanoseconds.
    Resume { min_hz: Option<u32>, min_vrr_frame_time: u64 },
    NodeAdded(DrmNode),
    NodeRemoved(DrmNode),
    UpdateMirroring(Option<u64>),
    /// Whether the new filter changes nothing.
    UpdateScreenFilter(bool),
    UpdateHdr { enabled: bool, reference_white: u32, max_luminance: u32, hardware_offload: bool },
    ScheduleRender(bool),
    AdaptiveSyncAvailable,
    UseAdaptiveSync(AdaptiveSync),
    UpdateVrrTargetRate(u32),
    AllowFrameFlags(bool, FrameFlags),
    End,
    DpmsOff,
    DpmsOn,
}

/// What a handled command asks of the event loop and the compositor.
#[derive(Debug)]
pub struct CommandEffects {
    /// Timers to remove.
    pub remove_timers: Vec<u64>,
    /// The frame that waits for its vertical blank is to be discarded.
    pub discard_frame: bool,
    /// The compositor is to be dropped.
    pub drop_compositor: bool,
    /// The display is to be blanked.
    pub clear_display: bool,
    /// The display's state is to be restored.
    pub restore_display: bool,
    /// All buffers are to be drawn anew.
    pub reset_buffer_ages: bool,
    /// Whether adaptive sync can be queried from a compositor.
    pub query_vrr: bool,
    /// The pacing interval, and whether it takes effect at once.
    pub vrr_interval: Option<(VrrInterval, bool)>,
    /// A redraw needs this timer.
    pub redraw: Option<RedrawTimer>,
    /// The thread ends.
    pub stop: bool,
}

/// What [`CommandEffects`] hold.
pub struct CommandEffectsView {
    pub remove_timers: Seq<u64>,
    pub discard_frame: bool,
    pub drop_compositor: bool,
    pub clear_display: bool,
    pub restore_display: bool,
    pub reset_buffer_ages: bool,
    pub query_vrr: bool,
    pub vrr_interval: Option<(VrrInterval, bool)>,
    pub redraw: Option<RedrawTimer>,
    pub stop: bool,
}

impl View for CommandEffects {
    type V = CommandEffectsView;

    open spec fn view(&self) -> CommandEffectsView {
        CommandEffectsView {
            remove_timers: self.remove_timers@,
            discard_frame: self.discard_frame,
            drop_compositor: self.drop_compositor,
            clear_display: self.clear_display,
            restore_display: self.restore_display,
            reset_buffer_ages: self.reset_buffer_ages,
            query_vrr: self.query_vrr,
            vrr_interval: self.vrr_interval,
            redraw: self.redraw,
            stop: self.stop,
        }
    }
}

impl CommandEffectsView {
    /// Nothing is asked for.
    pub open spec fn nothing() -> CommandEffectsView {
        CommandEffectsView {
            remove_timers: Seq::empty(),
            discard_frame: false,
            drop_compositor: false,
            clear_display: false,
            restore_display: false,
            reset_buffer_ages: false,
            query_vrr: false,
            vrr_interval: None,
            redraw: None,
            stop: false,
        }
    }
}

/// `white`, held to what the encoder can use: 80 to 10000 cd/m².
pub open spec fn usable_white(white: u32) -> u32 {
    if white < 80 {
        80
    } else if white > 10_000 {
        10_000
    } else {
        white
    }
}

/// `white`, held to what the encoder can use: 80 to 10000 cd/m².
pub fn clamp_reference_white(white: u32) -> (usable: u32)
    ensures
        usable == usable_white(white),
        80 <= usable <= 10_000,
{
    if white < 80 {
        80
    } else if white > 10_000 {
        10_000
    } else {
        white
    }
}

impl CommandEffects {
    fn none() -> (effects: CommandEffects)
        ensures
            effects@ == CommandEffectsView::nothing(),
    {
        CommandEffects {
            remove_timers: Vec::new(),
            discard_frame: false,
            drop_compositor: false,
            clear_display: false,
            restore_display: false,
            reset_buffer_ages: false,
            query_vrr: false,
            vrr_interval: None,
            redraw: None,
            stop: false,
        }
    }
}

impl SurfaceThreadState {
    /// How colors are to be encoded in this state: post-processed and mirrored
    /// content is encoded elsewhere.
    pub open spec fn wanted_hdr_config(self) -> Option<HdrOutputConfig> {
        if !self.filter_is_noop || self.mirroring is Some {
            None
        } else if self.hdr_enabled {
            Some(
                HdrOutputConfig::Hdr {
                    reference_white: self.hdr_reference_white,
                    max_luminance: self.hdr_max_luminance,
                    hardware_offload: self.hdr_hardware_offload,
                },
            )
        } else {
            Some(HdrOutputConfig::SdrTonemapping)
        }
    }

    /// What every command and every frame keeps.
    pub open spec fn wf(self) -> bool {
        &&& self.queue.wf()
        &&& !self.has_compositor ==> self.queue is Idle
        &&& flags_fit_encoding(self.frame_flags, self.hdr_enabled)
        &&& self.hdr_config == self.wanted_hdr_config()
        &&& 80 <= self.hdr_reference_white <= 10_000
        &&& self.hdr_reference_white <= self.hdr_max_luminance
    }

    /// A thread that was just started.
    pub fn new(
        is_vulkan: bool,
        target_node: DrmNode,
        filter_is_noop: bool,
        current_rate: Option<u32>,
    ) -> (state: SurfaceThreadState)
        ensures
            state.wf(),
            state.is_vulkan == is_vulkan,
            state.target_node == target_node,
            state.filter_is_noop == filter_is_noop,
            state.vrr_target_rate == match current_rate {
                Some(rate) => rate,
                None => DEFAULT_REFRESH_RATE,
            },
            state.queue is Idle,
            state.frame_flags == FrameFlags::standard(),
            state.vrr_mode is Disabled,
            state.hdr_reference_white == 203,
            state.hdr_max_luminance == 1_000,
            state.frame_callback_seq == 0,
            !state.has_compositor && !state.vrr && !state.hdr_enabled
                && !state.is_scanout && !state.swapchain_is_scanout && !state.hdr_hardware_offload,
            state.fullscreen is None && state.mirroring is None && state.active_scanout_plan is None
                && state.postprocess is None && state.cursor_transform_mode is None
                && state.min_vrr is None && state.min_vrr_frame_time is None
                && state.last_sequence is None,
    {
        let mut state: SurfaceThreadState = SurfaceThreadState {
            is_vulkan,
            target_node,
            has_compositor: false,
            vrr_mode: AdaptiveSync::Disabled,
            vrr_target_rate: current_rate.unwrap_or(DEFAULT_REFRESH_RATE),
            vrr: false,
            frame_flags: FrameFlags::default(),
            queue: QueueState::Idle,
            frame_callback_seq: 0,
            fullscreen: None,
            mirroring: None,
            filter_is_noop,
            hdr_enabled: false,
            is_scanout: false,
            swapchain_is_scanout: false,
            active_scanout_plan: None,
            hdr_reference_white: 203,
            hdr_max_luminance: 1_000,
            hdr_hardware_offload: false,
            hdr_config: None,
            postprocess: None,
            cursor_transform_mode: None,
            min_vrr: None,
            min_vrr_frame_time: None,
            last_sequence: None,
        };
        state.update_hdr_config();
        state
    }

    /// Brings the color encoding up to date.
    pub fn update_hdr_config(&mut self)
        ensures
            *final(self) == (SurfaceThreadState {
                hdr_config: old(self).wanted_hdr_config(),
                ..*old(self)
            }),
    {
        self.hdr_config =
        if !self.filter_is_noop || self.mirroring.is_some() {
            None
        } else if self.hdr_enabled {
            Some(
                HdrOutputConfig::Hdr {
                    reference_white: self.hdr_reference_white,
                    max_luminance: self.hdr_max_luminance,
                    hardware_offload: self.hdr_hardware_offload,
                },
            )
        } else {
            Some(HdrOutputConfig::SdrTonemapping)
        };
    }

    /// Whether a device with this kind of renderer can be used by the thread: all of
    /// its devices render with the same API.
    pub fn accepts_renderer(&self, renderer_is_vulkan: bool) -> (accepts: bool)
        ensures
            accepts == (self.is_vulkan == renderer_is_vulkan),
    {
        self.is_vulkan == renderer_is_vulkan
    }

    /// What decides whether and when a redraw is queued.
    pub open spec fn redraw_context(self, context: ThreadContext) -> RedrawContext {
        RedrawContext {
            has_compositor: self.has_compositor,
            vrr: self.vrr,
            fullscreen_occupied: context.fullscreen_occupied,
            skip_other_surface: context.switches.fullscreen_skip_other_surface,
            skip_other_surface_always: context.switches.fullscreen_skip_other_surface_always,
            immediate_render: context.immediate_render,
            min_vrr_frame_time: self.min_vrr_frame_time,
        }
    }

    /// The state once a redraw was asked for.
    pub open spec fn after_request(
        self,
        context: ThreadContext,
        is_fullscreen: bool,
    ) -> SurfaceThreadState {
        SurfaceThreadState {
            queue: self.queue.after_request(self.redraw_context(context), is_fullscreen),
            ..self
        }
    }

    /// The timer that a redraw needs.
    pub open spec fn timer_for(
        self,
        context: ThreadContext,
        force: bool,
        is_fullscreen: bool,
    ) -> Option<RedrawTimer> {
        let redraw = self.redraw_context(context);
        if self.queue.needs_timer(redraw, force, is_fullscreen) {
            Some(
                RedrawTimer {
                    start: redraw.render_start(force, is_fullscreen),
                    force: redraw.is_forced(force, is_fullscreen),
                },
            )
        } else {
            None
        }
    }

    /// Asks for a redraw. Returns the timer that it needs, if it needs one.
    pub fn queue_redraw(
        &mut self,
        context: ThreadContext,
        force: bool,
        is_fullscreen: bool,
    ) -> (timer: Option<RedrawTimer>)
        ensures
            *final(self) == old(self).after_request(context, is_fullscreen),
            timer == old(self).timer_for(context, force, is_fullscreen),
            old(self).wf() ==> final(self).wf(),
    {
        let redraw: RedrawContext = RedrawContext {
            has_compositor: self.has_compositor,
            vrr: self.vrr,
            fullscreen_occupied: context.fullscreen_occupied,
            skip_other_surface: context.switches.fullscreen_skip_other_surface,
            skip_other_surface_always: context.switches.fullscreen_skip_other_surface_always,
            immediate_render: context.immediate_render,
            min_vrr_frame_time: self.min_vrr_frame_time,
        };
        let mut queue: QueueState = self.queue;
        let timer: Option<RedrawTimer> = queue.queue_redraw(redraw, force, is_fullscreen);
        self.queue = queue;
        timer
    }

    /// The state after a command.
    pub open spec fn after_command(
        self,
        command: ThreadCommand,
        context: ThreadContext,
    ) -> SurfaceThreadState {
        match command {
            ThreadCommand::Suspend => SurfaceThreadState {
                has_compositor: false,
                cursor_transform_mode: None,
                queue: QueueState::Idle,
                ..self
            },
            ThreadCommand::Resume { min_hz, min_vrr_frame_time } => SurfaceThreadState {
                has_compositor: true,
                min_vrr: min_hz,
                min_vrr_frame_time: Some(min_vrr_frame_time),
                frame_flags: self.frame_flags.without(context.switches.disabled()),
                cursor_transform_mode: None,
                ..self
            },
            ThreadCommand::UpdateMirroring(mirroring) => {
                let next = SurfaceThreadState { mirroring, postprocess: None, ..self };
                SurfaceThreadState { hdr_config: next.wanted_hdr_config(), ..next }
            },
            ThreadCommand::UpdateScreenFilter(filter_is_noop) => {
                let next = SurfaceThreadState { filter_is_noop, postprocess: None, ..self };
                SurfaceThreadState { hdr_config: next.wanted_hdr_config(), ..next }
            },
            ThreadCommand::UpdateHdr {
                enabled,
                reference_white,
                max_luminance,
                hardware_offload,
            } => {
                let white = usable_white(reference_white);
                let next = SurfaceThreadState {
                    hdr_enabled: enabled,
                    hdr_reference_white: white,
                    hdr_max_luminance: if max_luminance > white {
                        max_luminance
                    } else {
                        white
                    },
                    hdr_hardware_offload: hardware_offload,
                    postprocess: None,
                    frame_flags: hdr_switched(self.frame_flags, enabled, context.switches),
                    ..self
                };
                (SurfaceThreadState {
                    hdr_config: next.wanted_hdr_config(),
                    ..next
                }).after_request(context, false)
            },
            ThreadCommand::ScheduleRender(is_fullscreen) if context.startup_done => {
                self.after_request(context, is_fullscreen)
            },
            ThreadCommand::UseAdaptiveSync(vrr_mode) => SurfaceThreadState { vrr_mode, ..self },
            ThreadCommand::UpdateVrrTargetRate(rate) => SurfaceThreadState {
                vrr_target_rate: paced_rate(rate, usable_rate(context.current_rate)),
                ..self
            },
            ThreadCommand::AllowFrameFlags(allow, flags) => SurfaceThreadState {
                frame_flags: flags_allowed(
                    self.frame_flags,
                    self.hdr_enabled,
                    context.switches,
                    allow,
                    flags,
                ),
                ..self
            },
            ThreadCommand::DpmsOff if self.has_compositor => SurfaceThreadState {
                queue: QueueState::Idle,
                ..self
            },
            ThreadCommand::DpmsOn => self.after_request(context, false),
            _ => self,
        }
    }

    /// The interval that variable refresh is paced to for a wanted rate.
    pub open spec fn pacing_interval(rate: u32, context: ThreadContext) -> VrrInterval {
        if rate < MIN_VRR_TARGET_RATE {
            match context.origin_interval {
                Some(nanoseconds) => VrrInterval::Nanoseconds(nanoseconds),
                None => VrrInterval::Rate(usable_rate(context.current_rate)),
            }
        } else {
            VrrInterval::Rate(rate)
        }
    }

    /// What a command asks for.
    pub open spec fn command_effects(
        self,
        command: ThreadCommand,
        context: ThreadContext,
    ) -> CommandEffectsView {
        let nothing = CommandEffectsView::nothing();
        match command {
            ThreadCommand::Suspend => CommandEffectsView {
                remove_timers: self.queue.timers(),
                discard_frame: self.queue is WaitingForVBlank,
                drop_compositor: true,
                ..nothing
            },
            ThreadCommand::UpdateHdr { .. } => CommandEffectsView {
                reset_buffer_ages: self.has_compositor,
                redraw: self.timer_for(context, true, false),
                ..nothing
            },
            ThreadCommand::ScheduleRender(is_fullscreen) if context.startup_done => {
                CommandEffectsView {
                    redraw: self.timer_for(context, false, is_fullscreen),
                    ..nothing
                }
            },
            ThreadCommand::AdaptiveSyncAvailable => CommandEffectsView {
                query_vrr: self.has_compositor,
                ..nothing
            },
            ThreadCommand::UpdateVrrTargetRate(rate) => CommandEffectsView {
                vrr_interval: Some(
                    (SurfaceThreadState::pacing_interval(rate, context), self.vrr),
                ),
                ..nothing
            },
            ThreadCommand::DpmsOff if self.has_compositor => CommandEffectsView {
                clear_display: true,
                remove_timers: self.queue.timers(),
                discard_frame: self.queue is WaitingForVBlank,
                ..nothing
            },
            ThreadCommand::DpmsOn => CommandEffectsView {
                restore_display: self.has_compositor,
                redraw: self.timer_for(context, false, false),
                ..nothing
            },
            ThreadCommand::End => CommandEffectsView { stop: true, ..nothing },
            _ => nothing,
        }
    }

    /// Suspends the output: everything that is queued is dropped.
    fn suspend(&mut self, context: ThreadContext) -> (effects: CommandEffects)
        ensures
            *final(self) == old(self).after_command(ThreadCommand::Suspend, context),
            effects@ == old(self).command_effects(ThreadCommand::Suspend, context),
    {
        let mut queue: QueueState = self.queue;
        let dropped: (Vec<u64>, bool) = queue.cancel();
        *self =
        SurfaceThreadState {
            has_compositor: false,
            cursor_transform_mode: None,
            queue,
            ..*self
        };
        CommandEffects {
            drop_compositor: true,
            remove_timers: dropped.0,
            discard_frame: dropped.1,
            ..CommandEffects::none()
        }
    }

    /// Switches HDR encoding. The shader's parameters do not count as a change of
    /// the content, so everything is drawn anew.
    fn update_hdr(
        &mut self,
        enabled: bool,
        reference_white: u32,
        max_luminance: u32,
        hardware_offload: bool,
        context: ThreadContext,
    ) -> (effects: CommandEffects)
        ensures
            *final(self) == old(self).after_command(
                ThreadCommand::UpdateHdr {
                    enabled,
                    reference_white,
                    max_luminance,
                    hardware_offload,
                },
                context,
            ),
            effects@ == old(self).command_effects(
                ThreadCommand::UpdateHdr {
                    enabled,
                    reference_white,
                    max_luminance,
                    hardware_offload,
                },
                context,
            ),
    {
        let white: u32 = clamp_reference_white(reference_white);
        *self =
        SurfaceThreadState {
            hdr_enabled: enabled,
            hdr_reference_white: white,
            hdr_max_luminance: if max_luminance > white {
                max_luminance
            } else {
                white
            },
            hdr_hardware_offload: hardware_offload,
            postprocess: None,
            frame_flags: flags_on_hdr(self.frame_flags, enabled, context.switches),
            ..*self
        };
        self.update_hdr_config();
        let reset_buffer_ages: bool = self.has_compositor;
        let redraw: Option<RedrawTimer> = self.queue_redraw(context, true, false);
        CommandEffects { reset_buffer_ages, redraw, ..CommandEffects::none() }
    }

    /// Sets the rate that variable refresh is paced to.
    fn update_vrr_target_rate(&mut self, rate: u32, context: ThreadContext) -> (effects:
        CommandEffects)
        ensures
            *final(self) == old(self).after_command(
                ThreadCommand::UpdateVrrTargetRate(rate),
                context,
            ),
            effects@ == old(self).command_effects(
                ThreadCommand::UpdateVrrTargetRate(rate),
                context,
            ),
    {
        let origin: u32 = origin_rate(context.current_rate);
        let target: u32 = resolve_vrr_target_rate(rate, origin);
        self.vrr_target_rate = target;
        let interval: VrrInterval = if rate < MIN_VRR_TARGET_RATE {
            match context.origin_interval {
                Some(nanoseconds) => VrrInterval::Nanoseconds(nanoseconds),
                None => VrrInterval::Rate(origin),
            }
        } else {
            VrrInterval::Rate(target)
        };
        CommandEffects { vrr_interval: Some((interval, self.vrr)), ..CommandEffects::none() }
    }

    /// Blanks the display: everything that is queued is dropped.
    fn dpms_off(&mut self, context: ThreadContext) -> (effects: CommandEffects)
        ensures
            *final(self) == old(self).after_command(ThreadCommand::DpmsOff, context),
            effects@ == old(self).command_effects(ThreadCommand::DpmsOff, context),
    {
        if !self.has_compositor {
            return CommandEffects::none();
        }
        let mut queue: QueueState = self.queue;
        let dropped: (Vec<u64>, bool) = queue.cancel();
        *self = SurfaceThreadState { queue, ..*self };
        CommandEffects {
            clear_display: true,
            remove_timers: dropped.0,
            discard_frame: dropped.1,
            ..CommandEffects::none()
        }
    }

    /// The output has a compositor again.
    fn resume(&mut self, min_hz: Option<u32>, min_vrr_frame_time: u64, context: ThreadContext)
        ensures
            *final(self) == old(self).after_command(
                ThreadCommand::Resume { min_hz, min_vrr_frame_time },
                context,
            ),
    {
        *self =
        SurfaceThreadState {
            has_compositor: true,
            min_vrr: min_hz,
            min_vrr_frame_time: Some(min_vrr_frame_time),
            frame_flags: flags_on_resume(self.frame_flags, context.switches),
            cursor_transform_mode: None,
            ..*self
        };
    }

    /// Shows the content of another output, or its own again.
    fn update_mirroring(&mut self, mirroring: Option<u64>, context: ThreadContext)
        ensures
            *final(self) == old(self).after_command(
                ThreadCommand::UpdateMirroring(mirroring),
                context,
            ),
    {
        *self = SurfaceThreadState { mirroring, postprocess: None, ..*self };
        self.update_hdr_config();
    }

    /// Sets the screen filter.
    fn update_screen_filter(&mut self, filter_is_noop: bool, context: ThreadContext)
        ensures
            *final(self) == old(self).after_command(
                ThreadCommand::UpdateScreenFilter(filter_is_noop),
                context,
            ),
    {
        *self = SurfaceThreadState { filter_is_noop, postprocess: None, ..*self };
        self.update_hdr_config();
    }

    /// Handles a command of the main thread.
    #[verifier::rlimit(60)]
    pub fn handle_command(&mut self, command: ThreadCommand, context: ThreadContext) -> (effects:
        CommandEffects)
        ensures
            *final(self) == old(self).after_command(command, context),
            effects@ == old(self).command_effects(command, context),
            old(self).wf() ==> final(self).wf(),
    {
        proof {
            if self.wf() {
                lemma_commands_keep_state(*self, command, context);
            }
        }
        match command {
            ThreadCommand::Suspend => self.suspend(context),
            ThreadCommand::Resume { min_hz, min_vrr_frame_time } => {
                self.resume(min_hz, min_vrr_frame_time, context);
                CommandEffects::none()
            },
            ThreadCommand::NodeAdded(_) | ThreadCommand::NodeRemoved(_) => CommandEffects::none(),
            ThreadCommand::UpdateMirroring(mirroring) => {
                self.update_mirroring(mirroring, context);
                CommandEffects::none()
            },
            ThreadCommand::UpdateScreenFilter(filter_is_noop) => {
                self.update_screen_filter(filter_is_noop, context);
                CommandEffects::none()
            },
            ThreadCommand::UpdateHdr {
                enabled,
                reference_white,
                max_luminance,
                hardware_offload,
            } => self.update_hdr(
                enabled,
                reference_white,
                max_luminance,
                hardware_offload,
                context,
            ),
            ThreadCommand::ScheduleRender(is_fullscreen) => {
                if !context.startup_done {
                    return CommandEffects::none();
                }
                let redraw: Option<RedrawTimer> = self.queue_redraw(context, false, is_fullscreen);
                CommandEffects { redraw, ..CommandEffects::none() }
            },
            ThreadCommand::AdaptiveSyncAvailable => CommandEffects {
                query_vrr: self.has_compositor,
                ..CommandEffects::none()
            },
            ThreadCommand::UseAdaptiveSync(vrr_mode) => {
                self.vrr_mode = vrr_mode;
                CommandEffects::none()
            },
            ThreadCommand::UpdateVrrTargetRate(rate) => self.update_vrr_target_rate(rate, context),
            ThreadCommand::AllowFrameFlags(allow, flags) => {
                self.frame_flags =
                allow_frame_flags(
                    self.frame_flags,
                    self.hdr_enabled,
                    context.switches,
                    allow,
                    flags,
                );
                CommandEffects::none()
            },
            ThreadCommand::End => CommandEffects { stop: true, ..CommandEffects::none() },
            ThreadCommand::DpmsOff => self.dpms_off(context),
            ThreadCommand::DpmsOn => {
                let restore_display: bool = self.has_compositor;
                let redraw: Option<RedrawTimer> = self.queue_redraw(context, false, false);
                CommandEffects { restore_display, redraw, ..CommandEffects::none() }
            },
        }
    }
}

/// Commands end in a state that keeps its promises, whatever they are.
pub proof fn lemma_commands_keep_state(
    state: SurfaceThreadState,
    command: ThreadCommand,
    context: ThreadContext,
)
    requires
        state.wf(),
    ensures
        state.after_command(command, context).wf(),
{
}

/// A suspended output holds no timer and queues none until it is resumed.
pub proof fn lemma_suspended_is_quiet(
    state: SurfaceThreadState,
    command: ThreadCommand,
    context: ThreadContext,
)
    requires
        state.wf(),
        !state.has_compositor,
        !(command is Resume),
    ensures
        state.queue.timers() == Seq::<u64>::empty(),
        state.command_effects(command, context).redraw is None,
        !state.after_command(command, context).has_compositor,
        state.after_command(command, context).queue is Idle,
{
}

/// HDR encoding that is set up while an output is suspended is in force once it
/// is resumed, before anything can be rendered.
pub proof fn lemma_prepared_before_rendering(
    state: SurfaceThreadState,
    enabled: bool,
    reference_white: u32,
    max_luminance: u32,
    hardware_offload: bool,
    min_hz: Option<u32>,
    min_vrr_frame_time: u64,
    context: ThreadContext,
)
    requires
        state.wf(),
        !state.has_compositor,
    ensures
        ({
            let update = ThreadCommand::UpdateHdr {
                enabled,
                reference_white,
                max_luminance,
                hardware_offload,
            };
            let resume = ThreadCommand::Resume { min_hz, min_vrr_frame_time };
            let updated = state.after_command(update, context);
            let resumed = updated.after_command(resume, context);
            &&& state.command_effects(update, context).redraw is None
            &&& updated.command_effects(resume, context).redraw is None
            &&& resumed.has_compositor && resumed.queue is Idle
            &&& resumed.hdr_enabled == enabled
            &&& resumed.hdr_config == resumed.wanted_hdr_config()
            &&& resumed.hdr_reference_white == usable_white(reference_white)
        }),
{
}

/// Why a redraw failed, and what is to be done about it.
#[derive(Debug, Clone, Copy, PartialEq, Eq, Structural)]
pub enum RedrawFailure {
    /// The GPU is gone: it has to be recovered.
    DeviceLost,
    /// HDR is required: the session ends.
    Fatal,
    /// The frame is drawn again.
    Retry,
}

/// Whether an error report tells of a lost device.
pub open spec fn reports_lost_device(report: Seq<char>) -> bool {
    holds_text(report, "DeadDevice"@) || holds_text(report, "ERROR_DEVICE_LOST"@) || holds_text(
        report,
        "DeviceLost"@,
    )
}

/// What a failed redraw comes to, given its error report.
pub fn redraw_failure(report: &str, require_active: bool) -> (failure: RedrawFailure)
    ensures
        failure == if reports_lost_device(report@) {
            RedrawFailure::DeviceLost
        } else if require_active {
            RedrawFailure::Fatal
        } else {
            RedrawFailure::Retry
        },
{
    if contains_text(report, "DeadDevice") || contains_text(report, "ERROR_DEVICE_LOST")
        || contains_text(report, "DeviceLost") {
        RedrawFailure::DeviceLost
    } else if require_active {
        RedrawFailure::Fatal
    } else {
        RedrawFailure::Retry
    }
}

/// Variable refresh is paced to the rate that is wanted where that is 30 Hz or more,
/// and else to the mode's own.
pub proof fn lemma_pacing_starts_at_30_hz(rate: u32, origin: u32, resolved: u32)
    requires
        call_ensures(resolve_vrr_target_rate, (rate, origin), resolved),
    ensures
        rate >= 30_000 ==> resolved == rate,
        rate < 30_000 ==> resolved == origin,
{
}

/// An output refreshes at the rate of its mode, or at 60 Hz where it has none; at a
/// variable rate frames come at 30 Hz or more, and at least two above the sink's
/// minimum.
pub proof fn lemma_frame_rates(
    current: Option<u32>,
    rate: u32,
    min_hz: Option<u32>,
    lowest: u32,
)
    requires
        min_hz matches Some(min) ==> min + 2 <= u32::MAX,
        call_ensures(origin_rate, (current,), rate),
        call_ensures(min_vrr_frame_rate, (min_hz,), lowest),
    ensures
        rate > 0,
        current matches Some(mode) ==> (mode > 0 ==> rate == mode),
        current is None || current == Some(0u32) ==> rate == 60_000,
        lowest >= 30,
        min_hz matches Some(min) ==> lowest >= min + 2,
        lowest == 30 || (min_hz matches Some(min) && lowest == min + 2),
{
}

/// A reference white stays as it is within what the encoder can use, and is moved to
/// the nearest end otherwise.
pub proof fn lemma_reference_white_is_usable(white: u32, usable: u32)
    requires
        call_ensures(clamp_reference_white, (white,), usable),
    ensures
        80 <= usable <= 10_000,
        80 <= white <= 10_000 ==> usable == white,
        white < 80 ==> usable == 80,
        white > 10_000 ==> usable == 10_000,
{
}

/// Colors are encoded as the state says: for HDR with its own white and peak, else as
/// SDR, and not at all where a filter or another output's content comes between.
pub proof fn lemma_encoding_follows_the_state(state: &mut SurfaceThreadState)
    requires
        call_ensures(SurfaceThreadState::update_hdr_config, (state,), ()),
    ensures
        final(state).hdr_config is None <==> !old(state).filter_is_noop
            || old(state).mirroring is Some,
        final(state).hdr_config matches Some(HdrOutputConfig::Hdr {
            reference_white,
            max_luminance,
            hardware_offload,
        }) ==> old(state).hdr_enabled && reference_white == old(state).hdr_reference_white
            && max_luminance == old(state).hdr_max_luminance && hardware_offload
            == old(state).hdr_hardware_offload,
        final(state).hdr_config == Some(HdrOutputConfig::SdrTonemapping) ==> !old(state).hdr_enabled,
        *final(state) == (SurfaceThreadState {
            hdr_config: final(state).hdr_config,
            ..*old(state)
        }),
{
}

/// A redraw is asked for with what the thread knows of its output.
pub proof fn lemma_thread_asks_its_queue(
    state: &mut SurfaceThreadState,
    context: ThreadContext,
    force: bool,
    is_fullscreen: bool,
    timer: Option<RedrawTimer>,
    queue: &mut QueueState,
    redraw: RedrawContext,
    same: Option<RedrawTimer>,
)
    requires
        call_ensures(
            SurfaceThreadState::queue_redraw,
            (state, context, force, is_fullscreen),
            timer,
        ),
        *old(queue) == old(state).queue,
        redraw.has_compositor == old(state).has_compositor,
        redraw.vrr == old(state).vrr,
        redraw.min_vrr_frame_time == old(state).min_vrr_frame_time,
        redraw.fullscreen_occupied == context.fullscreen_occupied,
        redraw.immediate_render == context.immediate_render,
        redraw.skip_other_surface == context.switches.fullscreen_skip_other_surface,
        redraw.skip_other_surface_always == context.switches.fullscreen_skip_other_surface_always,
        call_ensures(QueueState::queue_redraw, (queue, redraw, force, is_fullscreen), same),
    ensures
        timer == same,
        final(state).queue == *final(queue),
        *final(state) == (SurfaceThreadState { queue: final(state).queue, ..*old(state) }),
{
    assert(redraw == old(state).redraw_context(context));
}

/// Suspending drops the compositor, every timer and the frame that waits, and forgets
/// how the cursor is encoded; ending only stops the thread.
pub proof fn lemma_suspending_drops_everything(
    state: &mut SurfaceThreadState,
    context: ThreadContext,
    effects: CommandEffects,
    ended: &mut SurfaceThreadState,
    end_effects: CommandEffects,
)
    requires
        call_ensures(
            SurfaceThreadState::handle_command,
            (state, ThreadCommand::Suspend, context),
            effects,
        ),
        call_ensures(
            SurfaceThreadState::handle_command,
            (ended, ThreadCommand::End, context),
            end_effects,
        ),
    ensures
        *final(state) == (SurfaceThreadState {
            has_compositor: false,
            cursor_transform_mode: None,
            queue: QueueState::Idle,
            ..*old(state)
        }),
        effects.drop_compositor && effects.redraw is None && !effects.stop,
        effects.discard_frame <==> (old(state).queue matches QueueState::WaitingForVBlank { .. }),
        match old(state).queue {
            QueueState::Queued(token) => effects.remove_timers@ == seq![token],
            QueueState::WaitingForEstimatedVBlank(token) => effects.remove_timers@ == seq![token],
            QueueState::WaitingForEstimatedVBlankAndQueued { estimated_vblank, queued_render } => {
                effects.remove_timers@ == seq![estimated_vblank, queued_render]
            },
            _ => effects.remove_timers@.len() == 0,
        },
        end_effects.stop && *final(ended) == *old(ended),
        !end_effects.drop_compositor && end_effects.redraw is None
            && end_effects.remove_timers@.len() == 0,
{
    assert(effects.remove_timers@ =~= old(state).queue.timers());
}

/// Resuming gives the output a compositor, remembers the sink's rates, and takes away
/// the planes that a switch is against; nothing is drawn by that alone.
pub proof fn lemma_resuming_is_ready_to_draw(
    state: &mut SurfaceThreadState,
    min_hz: Option<u32>,
    min_vrr_frame_time: u64,
    context: ThreadContext,
    effects: CommandEffects,
    resumed: FrameFlags,
)
    requires
        call_ensures(
            SurfaceThreadState::handle_command,
            (state, ThreadCommand::Resume { min_hz, min_vrr_frame_time }, context),
            effects,
        ),
        call_ensures(flags_on_resume, (old(state).frame_flags, context.switches), resumed),
    ensures
        *final(state) == (SurfaceThreadState {
            has_compositor: true,
            min_vrr: min_hz,
            min_vrr_frame_time: Some(min_vrr_frame_time),
            frame_flags: resumed,
            cursor_transform_mode: None,
            ..*old(state)
        }),
        effects.redraw is None && !effects.drop_compositor && !effects.stop
            && effects.remove_timers@.len() == 0,
{
}

/// Switching HDR records it with a usable white and a peak that is no darker, encodes
/// for it, makes offscreen buffers anew, and redraws whatever is queued already.
#[verifier::rlimit(60)]
pub proof fn lemma_hdr_is_switched(
    state: &mut SurfaceThreadState,
    enabled: bool,
    reference_white: u32,
    max_luminance: u32,
    hardware_offload: bool,
    context: ThreadContext,
    effects: CommandEffects,
    switched: FrameFlags,
)
    requires
        call_ensures(
            SurfaceThreadState::handle_command,
            (
                state,
                ThreadCommand::UpdateHdr {
                    enabled,
                    reference_white,
                    max_luminance,
                    hardware_offload,
                },
                context,
            ),
            effects,
        ),
        call_ensures(
            flags_on_hdr,
            (old(state).frame_flags, enabled, context.switches),
            switched,
        ),
    ensures
        final(state).hdr_enabled == enabled,
        80 <= final(state).hdr_reference_white <= 10_000,
        80 <= reference_white <= 10_000 ==> final(state).hdr_reference_white == reference_white,
        reference_white < 80 ==> final(state).hdr_reference_white == 80,
        reference_white > 10_000 ==> final(state).hdr_reference_white == 10_000,
        final(state).hdr_max_luminance >= final(state).hdr_reference_white,
        final(state).hdr_max_luminance == max_luminance || final(state).hdr_max_luminance == final(state).hdr_reference_white,
        max_luminance >= final(state).hdr_reference_white ==> final(state).hdr_max_luminance
            == max_luminance,
        final(state).hdr_hardware_offload == hardware_offload,
        final(state).postprocess is None,
        final(state).frame_flags == switched,
        final(state).hdr_config is None <==> !old(state).filter_is_noop
            || old(state).mirroring is Some,
        final(state).hdr_config matches Some(config) ==> (enabled ==> config == (
        HdrOutputConfig::Hdr {
            reference_white: final(state).hdr_reference_white,
            max_luminance: final(state).hdr_max_luminance,
            hardware_offload,
        })) && (!enabled ==> config == HdrOutputConfig::SdrTonemapping),
        effects.reset_buffer_ages <==> old(state).has_compositor,
        effects.redraw is Some <==> old(state).has_compositor && !(
        old(state).queue matches QueueState::WaitingForVBlank { .. }),
        effects.redraw matches Some(timer) ==> timer.force,
        final(state).has_compositor == old(state).has_compositor,
        final(state).vrr_mode == old(state).vrr_mode,
        final(state).mirroring == old(state).mirroring,
        !effects.drop_compositor && !effects.stop && effects.remove_timers@.len() == 0,
{
}

/// What is shown and how it is filtered changes what is encoded, and makes offscreen
/// buffers anew.
pub proof fn lemma_content_changes_the_encoding(
    mirrored: &mut SurfaceThreadState,
    mirroring: Option<u64>,
    filtered: &mut SurfaceThreadState,
    filter_is_noop: bool,
    context: ThreadContext,
    mirror_effects: CommandEffects,
    filter_effects: CommandEffects,
)
    requires
        call_ensures(
            SurfaceThreadState::handle_command,
            (mirrored, ThreadCommand::UpdateMirroring(mirroring), context),
            mirror_effects,
        ),
        call_ensures(
            SurfaceThreadState::handle_command,
            (filtered, ThreadCommand::UpdateScreenFilter(filter_is_noop), context),
            filter_effects,
        ),
    ensures
        *final(mirrored) == (SurfaceThreadState {
            mirroring,
            postprocess: None,
            hdr_config: final(mirrored).hdr_config,
            ..*old(mirrored)
        }),
        final(mirrored).hdr_config is None <==> !old(mirrored).filter_is_noop
            || mirroring is Some,
        final(mirrored).hdr_config == Some(HdrOutputConfig::SdrTonemapping) ==> !old(mirrored).hdr_enabled,
        final(mirrored).hdr_config matches Some(HdrOutputConfig::Hdr { reference_white, .. })
            ==> old(mirrored).hdr_enabled && reference_white == old(mirrored).hdr_reference_white,
        *final(filtered) == (SurfaceThreadState {
            filter_is_noop,
            postprocess: None,
            hdr_config: final(filtered).hdr_config,
            ..*old(filtered)
        }),
        final(filtered).hdr_config is None <==> !filter_is_noop
            || old(filtered).mirroring is Some,
        mirror_effects.redraw is None && filter_effects.redraw is None,
{
}

/// A redraw that the main thread asks for counts once the compositor has started; the
/// display is blanked and restored only where there is one; and restoring it asks for
/// a redraw.
#[verifier::rlimit(60)]
pub proof fn lemma_display_commands(
    scheduled: &mut SurfaceThreadState,
    is_fullscreen: bool,
    off: &mut SurfaceThreadState,
    on: &mut SurfaceThreadState,
    context: ThreadContext,
    schedule_effects: CommandEffects,
    off_effects: CommandEffects,
    on_effects: CommandEffects,
)
    requires
        call_ensures(
            SurfaceThreadState::handle_command,
            (scheduled, ThreadCommand::ScheduleRender(is_fullscreen), context),
            schedule_effects,
        ),
        call_ensures(
            SurfaceThreadState::handle_command,
            (off, ThreadCommand::DpmsOff, context),
            off_effects,
        ),
        call_ensures(
            SurfaceThreadState::handle_command,
            (on, ThreadCommand::DpmsOn, context),
            on_effects,
        ),
    ensures
        !context.startup_done ==> *final(scheduled) == *old(scheduled)
            && schedule_effects.redraw is None,
        context.startup_done && old(scheduled).has_compositor && (old(scheduled).queue is Idle
            || old(scheduled).queue is WaitingForEstimatedVBlank) ==> schedule_effects.redraw is Some,
        context.startup_done && old(scheduled).has_compositor
            && old(scheduled).queue is WaitingForVBlank && old(scheduled).wf() ==> (
        final(scheduled).queue matches QueueState::WaitingForVBlank {
            redraw_needed,
            fullscreen_request,
        } && redraw_needed && (is_fullscreen ==> fullscreen_request)),
        off_effects.clear_display <==> old(off).has_compositor,
        old(off).has_compositor ==> final(off).queue is Idle && (off_effects.discard_frame <==> (
        old(off).queue matches QueueState::WaitingForVBlank { .. })),
        !old(off).has_compositor ==> *final(off) == *old(off),
        *final(off) == (SurfaceThreadState { queue: final(off).queue, ..*old(off) }),
        off_effects.redraw is None,
        on_effects.restore_display <==> old(on).has_compositor,
        old(on).has_compositor && (old(on).queue is Idle
            || old(on).queue is WaitingForEstimatedVBlank) ==> on_effects.redraw is Some,
        *final(on) == (SurfaceThreadState { queue: final(on).queue, ..*old(on) }),
        *final(scheduled) == (SurfaceThreadState {
            queue: final(scheduled).queue,
            ..*old(scheduled)
        }),
{
}

/// Adaptive sync is used as it is asked for, and asked about where there is a
/// compositor; pacing follows the wanted rate from 30 Hz on, and else the mode's own
/// interval, at once where frames are paced.
pub proof fn lemma_adaptive_sync_commands(
    used: &mut SurfaceThreadState,
    mode: AdaptiveSync,
    asked: &mut SurfaceThreadState,
    paced: &mut SurfaceThreadState,
    rate: u32,
    context: ThreadContext,
    use_effects: CommandEffects,
    ask_effects: CommandEffects,
    pace_effects: CommandEffects,
)
    requires
        call_ensures(
            SurfaceThreadState::handle_command,
            (used, ThreadCommand::UseAdaptiveSync(mode), context),
            use_effects,
        ),
        call_ensures(
            SurfaceThreadState::handle_command,
            (asked, ThreadCommand::AdaptiveSyncAvailable, context),
            ask_effects,
        ),
        call_ensures(
            SurfaceThreadState::handle_command,
            (paced, ThreadCommand::UpdateVrrTargetRate(rate), context),
            pace_effects,
        ),
    ensures
        *final(used) == (SurfaceThreadState { vrr_mode: mode, ..*old(used) }),
        *final(asked) == *old(asked),
        ask_effects.query_vrr <==> old(asked).has_compositor,
        rate >= 30_000 ==> final(paced).vrr_target_rate == rate,
        rate < 30_000 ==> (context.current_rate matches Some(mode) ==> (mode > 0
            ==> final(paced).vrr_target_rate == mode)),
        rate < 30_000 && (context.current_rate is None || context.current_rate == Some(0u32))
            ==> final(paced).vrr_target_rate == 60_000,
        *final(paced) == (SurfaceThreadState {
            vrr_target_rate: final(paced).vrr_target_rate,
            ..*old(paced)
        }),
        pace_effects.vrr_interval matches Some(pacing) && pacing.1 == old(paced).vrr && (rate
            >= 30_000 ==> pacing.0 == VrrInterval::Rate(rate)) && (rate < 30_000 ==> (
        context.origin_interval matches Some(own) ==> pacing.0 == VrrInterval::Nanoseconds(own))
            && (context.origin_interval is None ==> pacing.0 == VrrInterval::Rate(
            final(paced).vrr_target_rate,
        ))),
        use_effects.vrr_interval is None && ask_effects.vrr_interval is None,
{
}

/// Flags are allowed with the output's own encoding and switches; devices that come
/// and go change nothing of the state.
pub proof fn lemma_other_commands(
    state: &mut SurfaceThreadState,
    allow: bool,
    flags: FrameFlags,
    context: ThreadContext,
    effects: CommandEffects,
    changed: FrameFlags,
    device: &mut SurfaceThreadState,
    command: ThreadCommand,
    device_effects: CommandEffects,
)
    requires
        call_ensures(
            SurfaceThreadState::handle_command,
            (state, ThreadCommand::AllowFrameFlags(allow, flags), context),
            effects,
        ),
        call_ensures(
            allow_frame_flags,
            (
                old(state).frame_flags,
                old(state).hdr_enabled,
                context.switches,
                allow,
                flags,
            ),
            changed,
        ),
        command is NodeAdded || command is NodeRemoved,
        call_ensures(
            SurfaceThreadState::handle_command,
            (device, command, context),
            device_effects,
        ),
    ensures
        *final(state) == (SurfaceThreadState { frame_flags: changed, ..*old(state) }),
        *final(device) == *old(device),
        effects.redraw is None && device_effects.redraw is None,
{
}

/// A report of a lost device is answered by recovery, whatever is required; any other
/// failure ends the session exactly where HDR is required, and is retried otherwise.
pub proof fn lemma_failures_are_answered(
    report: &str,
    require_active: bool,
    failure: RedrawFailure,
    at: int,
)
    requires
        call_ensures(redraw_failure, (report, require_active), failure),
    ensures
        0 <= at && at + 10 <= report@.len() && (report@.subrange(at, at + 10) == "DeadDevice"@
            || report@.subrange(at, at + 10) == "DeviceLost"@) ==> failure
            == RedrawFailure::DeviceLost,
        0 <= at && at + 17 <= report@.len() && report@.subrange(at, at + 17)
            == "ERROR_DEVICE_LOST"@ ==> failure == RedrawFailure::DeviceLost,
        failure == RedrawFailure::DeviceLost ==> exists|place: int, length: int|
            0 <= place <= place + length <= report@.len() && {
                let part = #[trigger] report@.subrange(place, place + length);
                part == "DeadDevice"@ || part == "DeviceLost"@ || part == "ERROR_DEVICE_LOST"@
            },
        failure == RedrawFailure::Fatal ==> require_active,
        failure == RedrawFailure::Retry ==> !require_active,
{
    reveal_strlit("DeadDevice");
    reveal_strlit("DeviceLost");
    reveal_strlit("ERROR_DEVICE_LOST");
    assert("DeadDevice"@.len() == 10);
    assert("DeviceLost"@.len() == 10);
    assert("ERROR_DEVICE_LOST"@.len() == 17);
    if 0 <= at && at + 10 <= report@.len() {
        assert(report@.subrange(at, at + "DeadDevice"@.len()) == report@.subrange(at, at + 10));
        assert(report@.subrange(at, at + "DeviceLost"@.len()) == report@.subrange(at, at + 10));
    }
    if 0 <= at && at + 17 <= report@.len() {
        assert(report@.subrange(at, at + "ERROR_DEVICE_LOST"@.len()) == report@.subrange(
            at,
            at + 17,
        ));
    }
}

/// A thread starts suspended and idle, in SDR, with the usual planes, paced to its mode,
/// and with nothing shown, mirrored or measured.
pub proof fn lemma_new_thread(
    is_vulkan: bool,
    target_node: DrmNode,
    filter_is_noop: bool,
    current_rate: Option<u32>,
    state: SurfaceThreadState,
)
    requires
        call_ensures(
            SurfaceThreadState::new,
            (is_vulkan, target_node, filter_is_noop, current_rate),
            state,
        ),
    ensures
        state.is_vulkan == is_vulkan && state.target_node == target_node && state.filter_is_noop
            == filter_is_noop,
        !state.has_compositor && state.queue is Idle && !state.vrr && state.vrr_mode is Disabled,
        !state.hdr_enabled && !state.hdr_hardware_offload && state.hdr_reference_white == 203
            && state.hdr_max_luminance == 1_000,
        filter_is_noop ==> state.hdr_config == Some(HdrOutputConfig::SdrTonemapping),
        !filter_is_noop ==> state.hdr_config is None,
        current_rate matches Some(rate) ==> state.vrr_target_rate == rate,
        current_rate is None ==> state.vrr_target_rate == 60_000,
        state.frame_flags.allow_primary_plane_scanout
            && state.frame_flags.allow_overlay_plane_scanout
            && state.frame_flags.allow_cursor_plane_scanout
            && !state.frame_flags.allow_primary_plane_scanout_any
            && !state.frame_flags.skip_cursor_only_updates && !state.frame_flags.fullscreen_pacing,
        !state.is_scanout && !state.swapchain_is_scanout && state.active_scanout_plan is None,
        state.fullscreen is None && state.mirroring is None && state.postprocess is None,
        state.cursor_transform_mode is None && state.frame_callback_seq == 0
            && state.last_sequence is None,
        state.min_vrr is None && state.min_vrr_frame_time is None,
{
}

/// Commands ask the queue for a redraw as its requests do: a switch of HDR by force, a
/// render command for the surface that it names, and a display that is switched on as
/// any other update.
#[verifier::rlimit(60)]
pub proof fn lemma_commands_ask_the_queue(
    state: &mut SurfaceThreadState,
    command: ThreadCommand,
    context: ThreadContext,
    effects: CommandEffects,
    queue: &mut QueueState,
    redraw: RedrawContext,
    force: bool,
    is_fullscreen: bool,
    timer: Option<RedrawTimer>,
)
    requires
        call_ensures(SurfaceThreadState::handle_command, (state, command, context), effects),
        match command {
            ThreadCommand::UpdateHdr { .. } => force && !is_fullscreen,
            ThreadCommand::ScheduleRender(fullscreen) => context.startup_done && !force
                && is_fullscreen == fullscreen,
            ThreadCommand::DpmsOn => !force && !is_fullscreen,
            _ => false,
        },
        *old(queue) == old(state).queue,
        redraw.has_compositor == old(state).has_compositor,
        redraw.vrr == old(state).vrr,
        redraw.min_vrr_frame_time == old(state).min_vrr_frame_time,
        redraw.fullscreen_occupied == context.fullscreen_occupied,
        redraw.immediate_render == context.immediate_render,
        redraw.skip_other_surface == context.switches.fullscreen_skip_other_surface,
        redraw.skip_other_surface_always == context.switches.fullscreen_skip_other_surface_always,
        call_ensures(QueueState::queue_redraw, (queue, redraw, force, is_fullscreen), timer),
    ensures
        effects.redraw == timer,
        final(state).queue == *final(queue),
{
    assert(redraw == old(state).redraw_context(context));
}

/// A device is used with the renderer that all devices of the thread have.
pub proof fn lemma_devices_render_alike(
    state: SurfaceThreadState,
    renderer_is_vulkan: bool,
    accepts: bool,
)
    requires
        call_ensures(SurfaceThreadState::accepts_renderer, (&state, renderer_is_vulkan), accepts),
    ensures
        accepts <==> (state.is_vulkan && renderer_is_vulkan) || (!state.is_vulkan
            && !renderer_is_vulkan),
{
}

} // verus!
