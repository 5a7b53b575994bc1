//! The course of a redraw: what is asked of the renderer, step by step, and what
//! its answers come to.
use crate::color::CursorTransforms;
use crate::frame::{
    color_outcome_of, color_setup_for, wants_tearing, ColorOutcome, ColorSetup, FrameContext, FramePlan,
    FrameStart, FullscreenFrame, PostprocessSource, SubmitEffects, SubmitResult,
};
use crate::frame_flags::RenderSwitches;
use crate::geometry::Rectangle;
use crate::screencopy::{
    cursor_pass_of, hides_some_cursor, lemma_cursor_is_left_out, PendingCopy,
};
use crate::surface_thread::{PostprocessOutputConfig, PostprocessTarget, SurfaceThreadState};
use vstd::prelude::*;

verus! {

/// What a redraw waits for.
#[derive(Debug, Clone, Copy, PartialEq, Eq, Structural)]
pub enum RedrawPhase {
    /// A look at the fullscreen surface.
    Inspecting,
    /// The color pipeline.
    SettingUpColor { start: FrameStart, setup: ColorSetup, animations_going: bool },
    /// The elements to draw.
    Collecting { start: FrameStart, allow_primary_scanout: bool, animations_going: bool },
    /// The offscreen buffer.
    MakingOffscreen { plan: FramePlan, pass: OffscreenPass, target: PostprocessTarget },
    /// The content of the offscreen buffer.
    Compositing { plan: FramePlan, pass: OffscreenPass },
    /// The rendered frame.
    Rendering { plan: FramePlan },
    /// The kernel.
    Submitting { plan: FramePlan },
    /// Nothing more.
    Done,
}

/// How content is composited offscreen, on the clear color.
#[derive(Debug, Clone, Copy, PartialEq, Eq, Structural)]
pub struct OffscreenPass {
    pub source: PostprocessSource,
    /// The elements of the cursor are composited to a texture of their own; otherwise
    /// that texture is dropped.
    pub cursor_apart: bool,
}

/// What is seen of the fullscreen surface and the output at the start of a redraw.
#[derive(Debug, Clone, Copy, PartialEq, Eq, Structural)]
pub struct Inspection {
    pub fullscreen: Option<FullscreenFrame>,
    pub animations_going: bool,
    /// The fullscreen surface has content.
    pub has_surface: bool,
    /// The primary plane's pipeline encodes for the output by itself.
    pub is_direct: bool,
    /// The sink's peak luminance, where it is known.
    pub peak: Option<u16>,
    /// Tearing is allowed on the output.
    pub tearing_allowed: bool,
}

/// What is known once the elements are collected.
#[derive(Debug, Clone, Copy, PartialEq, Eq, Structural)]
pub struct Collection {
    pub past_min_render_time: bool,
    /// Some pending capture hides the cursor.
    pub hides_cursor: bool,
    /// The configuration of this output.
    pub own_config: PostprocessOutputConfig,
    /// The buffer that the content would be composited in before post-processing:
    /// the untransformed configuration of the output whose content is shown, and
    /// the intermediate format.
    pub offscreen: PostprocessTarget,
}

/// What the renderer and the kernel answer.
#[derive(Debug, Clone, Copy, PartialEq, Eq, Structural)]
pub enum RedrawEvent {
    Inspected(Inspection),
    /// Whether the CRTC accepted what it was asked for.
    ColorSetUp { crtc_accepted: bool },
    Collected(Collection),
    OffscreenMade,
    Composited,
    /// The frame was rendered: whether it shows the swapchain, and whether there is
    /// nothing to show.
    Rendered { is_swapchain: bool, is_empty: bool },
    /// What was asked for failed.
    Failed,
    Submitted(SubmitResult),
}

/// What is asked of the renderer and the kernel next.
#[derive(Debug, Clone, Copy, PartialEq, Eq, Structural)]
pub enum RedrawAction {
    SetUpColor(ColorSetup),
    /// Collect the elements to draw. `crtc_refused`: let the CRTC pass colors
    /// through and remember that the GPU converts the surface from now on.
    /// `cursor`: install these cursor encoders. `take_copies`: take the pending
    /// captures of the output, too.
    Collect { crtc_refused: bool, cursor: Option<CursorTransforms>, take_copies: bool },
    /// Make an offscreen buffer, in place of one that does not fit.
    MakeOffscreen(PostprocessTarget),
    /// Composite the content to the offscreen buffer.
    Composite(OffscreenPass),
    /// Render the frame, from the offscreen buffer where content was composited there.
    Render { plan: FramePlan, source: PostprocessSource },
    /// Hand the frame to the kernel. `tearing`: ask for an asynchronous page flip,
    /// and fall back to a synchronized one where the kernel refuses. `copy_first`:
    /// serve captures before that. `window_copies`: take the pending captures of the
    /// output's windows and serve them, too. `process_shm`: have the pending captures into
    /// shared memory processed before that, too.
    Submit {
        tearing: bool,
        take_feedback: bool,
        copy_first: bool,
        window_copies: bool,
        process_shm: bool,
    },
    /// The frame is done. `look_again`: a timer for the estimated vertical blank has
    /// to redraw, as content was skipped on purpose.
    Finish { effects: SubmitEffects, look_again: bool },
    /// The frame is given up. `void_buffers`: the compositor's buffers are void, and
    /// what was batched is cancelled.
    Abandon { void_buffers: bool },
}

/// Whether a phase waits for this kind of answer.
pub open spec fn expects(phase: RedrawPhase, event: RedrawEvent) -> bool {
    match phase {
        RedrawPhase::Inspecting => event is Inspected,
        RedrawPhase::SettingUpColor { .. } => event is ColorSetUp,
        RedrawPhase::Collecting { .. } => event is Collected || event is Failed,
        RedrawPhase::MakingOffscreen { .. } => event is OffscreenMade || event is Failed,
        RedrawPhase::Compositing { .. } => event is Composited || event is Failed,
        RedrawPhase::Rendering { .. } => event is Rendered || event is Failed,
        RedrawPhase::Submitting { .. } => event is Submitted || event is Failed,
        RedrawPhase::Done => false,
    }
}

/// A state, a phase and what is asked for.
pub struct RedrawStep {
    pub state: SurfaceThreadState,
    pub phase: RedrawPhase,
    pub action: RedrawAction,
}

/// The step after a look at the fullscreen surface: the color pipeline is set up
/// only where something changed.
pub open spec fn inspected(
    state: SurfaceThreadState,
    inspection: Inspection,
    switches: RenderSwitches,
) -> RedrawStep {
    let start = state.frame_start(inspection.fullscreen, switches, inspection.tearing_allowed);
    let setup = color_setup_for(
        start.scanout_plan,
        start.allow_primary_scanout,
        inspection.has_surface,
        inspection.is_direct,
        state.hdr_enabled,
        inspection.peak,
    );
    if start.update_color {
        RedrawStep {
            state,
            phase: RedrawPhase::SettingUpColor {
                start,
                setup,
                animations_going: inspection.animations_going,
            },
            action: RedrawAction::SetUpColor(setup),
        }
    } else {
        collecting(
            state,
            start,
            start.allow_primary_scanout,
            inspection.animations_going,
            false,
        )
    }
}

/// The step to collecting elements.
pub open spec fn collecting(
    state: SurfaceThreadState,
    start: FrameStart,
    allow_primary_scanout: bool,
    animations_going: bool,
    crtc_refused: bool,
) -> RedrawStep {
    RedrawStep {
        state: state.after_settling(allow_primary_scanout),
        phase: RedrawPhase::Collecting { start, allow_primary_scanout, animations_going },
        action: RedrawAction::Collect {
            crtc_refused,
            cursor: state.cursor_transforms_due(),
            take_copies: state.mirroring is None,
        },
    }
}

/// The step after the color pipeline was set up.
pub open spec fn color_set_up(
    state: SurfaceThreadState,
    start: FrameStart,
    setup: ColorSetup,
    animations_going: bool,
    crtc_accepted: bool,
) -> RedrawStep {
    let outcome = color_outcome_of(
        setup,
        start.scanout_plan,
        start.allow_primary_scanout,
        crtc_accepted,
    );
    collecting(
        state.after_color_setup(start, outcome),
        start,
        outcome.allow_primary_scanout,
        animations_going,
        outcome.crtc_refused,
    )
}

/// Where the content of a frame comes from. Vulkan applies filters and scaling
/// while it composites.
pub open spec fn source_of(state: SurfaceThreadState, collection: Collection) -> PostprocessSource {
    if state.is_vulkan {
        PostprocessSource::Direct
    } else {
        state.wanted_postprocess(collection.offscreen.config == collection.own_config)
    }
}

/// The step after the elements were collected.
pub open spec fn collected(
    state: SurfaceThreadState,
    start: FrameStart,
    allow_primary_scanout: bool,
    animations_going: bool,
    switches: RenderSwitches,
    collection: Collection,
) -> RedrawStep {
    let source = source_of(state, collection);
    let plan = state.frame_plan(
        start,
        allow_primary_scanout,
        FrameContext {
            switches,
            animations_going,
            past_min_render_time: collection.past_min_render_time,
            composited_offscreen: !(source is Direct),
        },
    );
    let planned = SurfaceThreadState { vrr: plan.vrr, ..state };
    let pass = OffscreenPass {
        source,
        cursor_apart: state.cursor_apart(source, collection.hides_cursor),
    };
    if source is Direct {
        rendering(planned, plan, source)
    } else if state.postprocess != Some(collection.offscreen) {
        RedrawStep {
            state: planned,
            phase: RedrawPhase::MakingOffscreen { plan, pass, target: collection.offscreen },
            action: RedrawAction::MakeOffscreen(collection.offscreen),
        }
    } else {
        compositing(planned, plan, pass)
    }
}

/// The step to compositing offscreen.
pub open spec fn compositing(
    state: SurfaceThreadState,
    plan: FramePlan,
    pass: OffscreenPass,
) -> RedrawStep {
    RedrawStep {
        state,
        phase: RedrawPhase::Compositing { plan, pass },
        action: RedrawAction::Composite(pass),
    }
}

/// The step to rendering.
pub open spec fn rendering(
    state: SurfaceThreadState,
    plan: FramePlan,
    source: PostprocessSource,
) -> RedrawStep {
    RedrawStep {
        state,
        phase: RedrawPhase::Rendering { plan },
        action: RedrawAction::Render { plan, source },
    }
}

/// The step after the offscreen buffer was made, which counts from then on.
pub open spec fn offscreen_provided(
    state: SurfaceThreadState,
    plan: FramePlan,
    pass: OffscreenPass,
    target: PostprocessTarget,
) -> RedrawStep {
    compositing(SurfaceThreadState { postprocess: Some(target), ..state }, plan, pass)
}

/// The step after the frame was rendered.
pub open spec fn rendered(
    state: SurfaceThreadState,
    plan: FramePlan,
    is_swapchain: bool,
    is_empty: bool,
) -> RedrawStep {
    RedrawStep {
        state: SurfaceThreadState {
            swapchain_is_scanout: !is_swapchain && plan.allow_primary_scanout,
            ..state
        },
        phase: RedrawPhase::Submitting { plan },
        action: RedrawAction::Submit {
            tearing: plan.tearing,
            take_feedback: !is_empty && state.mirroring is None,
            copy_first: state.is_vulkan,
            window_copies: state.is_vulkan && state.mirroring is None,
            process_shm: state.is_vulkan,
        },
    }
}

/// The step after the frame was handed to the kernel.
pub open spec fn submitted(
    state: SurfaceThreadState,
    plan: FramePlan,
    result: SubmitResult,
) -> RedrawStep {
    RedrawStep {
        state: state.after_submit(result),
        phase: RedrawPhase::Done,
        action: RedrawAction::Finish {
            effects: state.submit_effects(result),
            look_again: plan.skips_cursor_updates,
        },
    }
}

/// The next step of a redraw.
pub open spec fn next_step(
    state: SurfaceThreadState,
    phase: RedrawPhase,
    event: RedrawEvent,
    switches: RenderSwitches,
) -> RedrawStep {
    match (phase, event) {
        (RedrawPhase::Inspecting, RedrawEvent::Inspected(inspection)) => inspected(
            state,
            inspection,
            switches,
        ),
        (
            RedrawPhase::SettingUpColor { start, setup, animations_going },
            RedrawEvent::ColorSetUp { crtc_accepted },
        ) => color_set_up(state, start, setup, animations_going, crtc_accepted),
        (
            RedrawPhase::Collecting { start, allow_primary_scanout, animations_going },
            RedrawEvent::Collected(collection),
        ) => collected(
            state,
            start,
            allow_primary_scanout,
            animations_going,
            switches,
            collection,
        ),
        (
            RedrawPhase::MakingOffscreen { plan, pass, target },
            RedrawEvent::OffscreenMade,
        ) => offscreen_provided(state, plan, pass, target),
        (RedrawPhase::Compositing { plan, pass }, RedrawEvent::Composited) => rendering(
            state,
            plan,
            pass.source,
        ),
        (RedrawPhase::Rendering { plan }, RedrawEvent::Rendered { is_swapchain, is_empty }) => {
            rendered(state, plan, is_swapchain, is_empty)
        },
        (RedrawPhase::Submitting { plan }, RedrawEvent::Submitted(result)) => submitted(
            state,
            plan,
            result,
        ),
        _ => RedrawStep {
            state,
            phase: RedrawPhase::Done,
            action: RedrawAction::Abandon { void_buffers: phase is Rendering },
        },
    }
}

impl SurfaceThreadState {
    /// Starts a redraw, unless the output is suspended.
    pub fn begin_redraw(&self) -> (phase: Option<RedrawPhase>)
        ensures
            phase == if self.has_compositor {
                Some(RedrawPhase::Inspecting)
            } else {
                None
            },
    {
        if self.has_compositor {
            Some(RedrawPhase::Inspecting)
        } else {
            None
        }
    }

    fn redraw_inspected(&mut self, inspection: Inspection, switches: RenderSwitches) -> (next: (
        RedrawPhase,
        RedrawAction,
    ))
        ensures
            ({
                let step = inspected(*old(self), inspection, switches);
                *final(self) == step.state && next == (step.phase, step.action)
            }),
    {
        let start: FrameStart = self.begin_frame(
            inspection.fullscreen,
            switches,
            inspection.tearing_allowed,
        );
        if !start.update_color {
            return self.redraw_collecting(
                start,
                start.allow_primary_scanout,
                inspection.animations_going,
                false,
            );
        }
        let setup: ColorSetup = self.color_setup(
            start,
            inspection.has_surface,
            inspection.is_direct,
            inspection.peak,
        );
        (
            RedrawPhase::SettingUpColor {
                start,
                setup,
                animations_going: inspection.animations_going,
            },
            RedrawAction::SetUpColor(setup),
        )
    }

    fn redraw_collecting(
        &mut self,
        start: FrameStart,
        allow_primary_scanout: bool,
        animations_going: bool,
        crtc_refused: bool,
    ) -> (next: (RedrawPhase, RedrawAction))
        ensures
            ({
                let step = collecting(
                    *old(self),
                    start,
                    allow_primary_scanout,
                    animations_going,
                    crtc_refused,
                );
                *final(self) == step.state && next == (step.phase, step.action)
            }),
    {
        let take_copies: bool = self.mirroring.is_none();
        let cursor: Option<CursorTransforms> = self.settle_scanout(allow_primary_scanout);
        (
            RedrawPhase::Collecting { start, allow_primary_scanout, animations_going },
            RedrawAction::Collect { crtc_refused, cursor, take_copies },
        )
    }

    fn redraw_color_set_up(
        &mut self,
        start: FrameStart,
        setup: ColorSetup,
        animations_going: bool,
        crtc_accepted: bool,
    ) -> (next: (RedrawPhase, RedrawAction))
        ensures
            ({
                let step = color_set_up(
                    *old(self),
                    start,
                    setup,
                    animations_going,
                    crtc_accepted,
                );
                *final(self) == step.state && next == (step.phase, step.action)
            }),
    {
        let outcome: ColorOutcome = self.update_scanout_color_management(
            start,
            setup,
            crtc_accepted,
        );
        self.redraw_collecting(
            start,
            outcome.allow_primary_scanout,
            animations_going,
            outcome.crtc_refused,
        )
    }

    fn redraw_collected(
        &mut self,
        start: FrameStart,
        allow_primary_scanout: bool,
        animations_going: bool,
        switches: RenderSwitches,
        collection: Collection,
    ) -> (next: (RedrawPhase, RedrawAction))
        ensures
            ({
                let step = collected(
                    *old(self),
                    start,
                    allow_primary_scanout,
                    animations_going,
                    switches,
                    collection,
                );
                *final(self) == step.state && next == (step.phase, step.action)
            }),
    {
        let source: PostprocessSource = if self.is_vulkan {
            PostprocessSource::Direct
        } else {
            self.postprocess_source(collection.offscreen.config, collection.own_config)
        };
        let composited_offscreen: bool = match source {
            PostprocessSource::Direct => false,
            _ => true,
        };
        let plan: FramePlan = self.plan_frame(
            start,
            allow_primary_scanout,
            FrameContext {
                switches,
                animations_going,
                past_min_render_time: collection.past_min_render_time,
                composited_offscreen,
            },
        );
        if !composited_offscreen {
            return (RedrawPhase::Rendering { plan }, RedrawAction::Render { plan, source });
        }
        let cursor_apart: bool = self.composites_cursor_apart(source, collection.hides_cursor);
        let pass: OffscreenPass = OffscreenPass { source, cursor_apart };
        let target: PostprocessTarget = collection.offscreen;
        if self.needs_offscreen(target) {
            (
                RedrawPhase::MakingOffscreen { plan, pass, target },
                RedrawAction::MakeOffscreen(target),
            )
        } else {
            (RedrawPhase::Compositing { plan, pass }, RedrawAction::Composite(pass))
        }
    }

    /// Takes a redraw one step further: records an answer of the renderer or the
    /// kernel and says what is asked for next.
    #[verifier::rlimit(40)]
    pub fn redraw(
        &mut self,
        phase: RedrawPhase,
        event: RedrawEvent,
        switches: RenderSwitches,
    ) -> (next: (RedrawPhase, RedrawAction))
        requires
            expects(phase, event),
            event matches RedrawEvent::Submitted(result) ==> old(self).takes_result(result),
        ensures
            ({
                let step = next_step(*old(self), phase, event, switches);
                *final(self) == step.state && next == (step.phase, step.action)
            }),
            old(self).wf() && old(self).has_compositor ==> final(self).wf(),
    {
        proof {
            if self.wf() && self.has_compositor {
                lemma_redraw_keeps_state(*self, phase, event, switches);
            }
        }
        match (phase, event) {
            (RedrawPhase::Inspecting, RedrawEvent::Inspected(inspection)) => self.redraw_inspected(
                inspection,
                switches,
            ),
            (
                RedrawPhase::SettingUpColor { start, setup, animations_going },
                RedrawEvent::ColorSetUp { crtc_accepted },
            ) => self.redraw_color_set_up(start, setup, animations_going, crtc_accepted),
            (
                RedrawPhase::Collecting { start, allow_primary_scanout, animations_going },
                RedrawEvent::Collected(collection),
            ) => self.redraw_collected(
                start,
                allow_primary_scanout,
                animations_going,
                switches,
                collection,
            ),
            (
                RedrawPhase::MakingOffscreen { plan, pass, target },
                RedrawEvent::OffscreenMade,
            ) => {
                self.offscreen_made(target);
                (RedrawPhase::Compositing { plan, pass }, RedrawAction::Composite(pass))
            },
            (RedrawPhase::Compositing { plan, pass }, RedrawEvent::Composited) => (
                RedrawPhase::Rendering { plan },
                RedrawAction::Render { plan, source: pass.source },
            ),
            (RedrawPhase::Rendering { plan }, RedrawEvent::Rendered { is_swapchain, is_empty }) => {
                let window_copies: bool = self.takes_window_captures();
                let take_feedback: bool = self.takes_feedback(is_empty);
                let is_vulkan: bool = self.is_vulkan;
                self.frame_rendered(plan, is_swapchain);
                (
                    RedrawPhase::Submitting { plan },
                    RedrawAction::Submit {
                        tearing: plan.tearing,
                        take_feedback,
                        copy_first: is_vulkan,
                        window_copies,
                        process_shm: is_vulkan,
                    },
                )
            },
            (RedrawPhase::Submitting { plan }, RedrawEvent::Submitted(result)) => {
                let effects: SubmitEffects = self.frame_submitted(result);
                (
                    RedrawPhase::Done,
                    RedrawAction::Finish { effects, look_again: plan.skips_cursor_updates },
                )
            },
            (RedrawPhase::Rendering { .. }, _) => (
                RedrawPhase::Done,
                RedrawAction::Abandon { void_buffers: true },
            ),
            _ => (RedrawPhase::Done, RedrawAction::Abandon { void_buffers: false }),
        }
    }
}

/// Every step of a redraw keeps the promises of the state.
pub proof fn lemma_redraw_keeps_state(
    state: SurfaceThreadState,
    phase: RedrawPhase,
    event: RedrawEvent,
    switches: RenderSwitches,
)
    requires
        state.wf(),
        state.has_compositor,
    ensures
        next_step(state, phase, event, switches).state.wf(),
{
}

/// A step of a redraw changes neither the queue nor the callback sequence, unless
/// a frame was handed to the kernel; and a staged HDR state is committed exactly
/// when the kernel accepted one.
pub proof fn lemma_only_submission_counts(
    state: SurfaceThreadState,
    phase: RedrawPhase,
    event: RedrawEvent,
    switches: RenderSwitches,
)
    requires
        expects(phase, event),
    ensures
        ({
            let step = next_step(state, phase, event, switches);
            &&& !(event is Submitted) ==> step.state.queue == state.queue
                && step.state.frame_callback_seq == state.frame_callback_seq
            &&& !(event is Submitted) ==> !(step.action is Finish)
            &&& step.action matches RedrawAction::Finish { effects, .. } ==> (effects.commit_hdr
                <==> event == RedrawEvent::Submitted(SubmitResult::Submitted))
        }),
{
}

/// Every redraw ends: each answer leads to a later phase.
pub proof fn lemma_redraw_proceeds(
    state: SurfaceThreadState,
    phase: RedrawPhase,
    event: RedrawEvent,
    switches: RenderSwitches,
)
    requires
        expects(phase, event),
    ensures
        phase_rank(phase) < phase_rank(next_step(state, phase, event, switches).phase) <= 7,
{
}

/// How far a redraw has come.
pub open spec fn phase_rank(phase: RedrawPhase) -> nat {
    match phase {
        RedrawPhase::Inspecting => 0,
        RedrawPhase::SettingUpColor { .. } => 1,
        RedrawPhase::Collecting { .. } => 2,
        RedrawPhase::MakingOffscreen { .. } => 3,
        RedrawPhase::Compositing { .. } => 4,
        RedrawPhase::Rendering { .. } => 5,
        RedrawPhase::Submitting { .. } => 6,
        RedrawPhase::Done => 7,
    }
}

/// The step at which a frame is rendered, where everything that is asked for on the
/// way from the first look succeeds.
pub open spec fn rendering_after(
    state: SurfaceThreadState,
    inspection: Inspection,
    switches: RenderSwitches,
    crtc_accepted: bool,
    collection: Collection,
) -> RedrawStep {
    let first = inspected(state, inspection, switches);
    let second = match first.phase {
        RedrawPhase::SettingUpColor { .. } => next_step(
            first.state,
            first.phase,
            RedrawEvent::ColorSetUp { crtc_accepted },
            switches,
        ),
        _ => first,
    };
    let third = next_step(
        second.state,
        second.phase,
        RedrawEvent::Collected(collection),
        switches,
    );
    let fourth = match third.phase {
        RedrawPhase::MakingOffscreen { .. } => next_step(
            third.state,
            third.phase,
            RedrawEvent::OffscreenMade,
            switches,
        ),
        _ => third,
    };
    match fourth.phase {
        RedrawPhase::Compositing { .. } => next_step(
            fourth.state,
            fourth.phase,
            RedrawEvent::Composited,
            switches,
        ),
        _ => fourth,
    }
}

/// From its first look to the rendered frame, a redraw puts a surface on the
/// primary plane only where the surface's plan, the filter, the mirroring and the
/// switches all allow it.
pub proof fn lemma_redraw_respects_restrictions(
    state: SurfaceThreadState,
    inspection: Inspection,
    switches: RenderSwitches,
    crtc_accepted: bool,
    collection: Collection,
)
    ensures
        ({
            let step = rendering_after(state, inspection, switches, crtc_accepted, collection);
            step.action matches RedrawAction::Render { plan, .. } && (
            plan.flags.allow_primary_plane_scanout || plan.flags.allow_primary_plane_scanout_any
                ==> state.may_scan_out(inspection.fullscreen, switches))
        }),
{
}

/// A frame is handed to the kernel with an asynchronous page flip exactly when the
/// output allows tearing and the fullscreen surface seen at the start of the
/// redraw prefers it, whatever happened in between.
pub proof fn lemma_tearing_follows_the_surface(
    state: SurfaceThreadState,
    inspection: Inspection,
    switches: RenderSwitches,
    crtc_accepted: bool,
    collection: Collection,
    is_swapchain: bool,
    is_empty: bool,
)
    ensures
        ({
            let step = rendering_after(state, inspection, switches, crtc_accepted, collection);
            let last = next_step(
                step.state,
                step.phase,
                RedrawEvent::Rendered { is_swapchain, is_empty },
                switches,
            );
            last.action matches RedrawAction::Submit { tearing, .. } && tearing == wants_tearing(
                inspection.tearing_allowed,
                inspection.fullscreen,
            )
        }),
{
}

/// An offscreen buffer counts only once the renderer has made it: no other answer
/// changes which one there is.
pub proof fn lemma_offscreen_counts_once_made(
    state: SurfaceThreadState,
    phase: RedrawPhase,
    event: RedrawEvent,
    switches: RenderSwitches,
)
    requires
        expects(phase, event),
    ensures
        next_step(state, phase, event, switches).state.postprocess == match (phase, event) {
            (
                RedrawPhase::MakingOffscreen { target, .. },
                RedrawEvent::OffscreenMade,
            ) => Some(target),
            _ => state.postprocess,
        },
{
}

/// After a redraw failed, the next frame that is composited offscreen asks for its
/// buffer again, unless there is one that fits; and content is never composited to
/// a buffer that was not made.
pub proof fn lemma_failed_offscreen_is_made_again(
    state: SurfaceThreadState,
    failed: RedrawPhase,
    start: FrameStart,
    allow_primary_scanout: bool,
    animations_going: bool,
    switches: RenderSwitches,
    collection: Collection,
)
    requires
        expects(failed, RedrawEvent::Failed),
        !(source_of(state, collection) is Direct),
    ensures
        ({
            let after = next_step(state, failed, RedrawEvent::Failed, switches).state;
            let again = next_step(
                after,
                RedrawPhase::Collecting { start, allow_primary_scanout, animations_going },
                RedrawEvent::Collected(collection),
                switches,
            );
            &&& state.postprocess != Some(collection.offscreen) ==> again.action
                == RedrawAction::MakeOffscreen(collection.offscreen)
            &&& state.postprocess == Some(collection.offscreen) ==> again.action is Composite
        }),
{
}

/// A frame that is given up changes nothing, and voids the compositor's buffers
/// exactly when the compositor was rendering.
pub proof fn lemma_given_up_frame_changes_nothing(
    state: SurfaceThreadState,
    phase: RedrawPhase,
    switches: RenderSwitches,
)
    requires
        expects(phase, RedrawEvent::Failed),
    ensures
        ({
            let step = next_step(state, phase, RedrawEvent::Failed, switches);
            &&& step.state == state
            &&& step.phase is Done
            &&& step.action == (RedrawAction::Abandon { void_buffers: phase is Rendering })
        }),
{
}

/// Where a capture of an output's own content hides the cursor, content that is
/// composited offscreen does not start with the cursor's elements.
pub proof fn lemma_hidden_cursor_is_composited_apart(
    state: SurfaceThreadState,
    source: PostprocessSource,
    copies: Seq<PendingCopy>,
    i: int,
    is_cursor: Seq<bool>,
    geometries: Seq<Rectangle>,
)
    requires
        state.mirroring is None,
        !(source is Direct),
        0 <= i < copies.len(),
        !copies[i].draw_cursor,
        is_cursor.len() <= usize::MAX,
    ensures
        state.cursor_apart(source, hides_some_cursor(copies)),
        ({
            let apart = state.cursor_apart(source, hides_some_cursor(copies));
            let elements = cursor_pass_of(is_cursor, geometries, apart).elements;
            elements < is_cursor.len() ==> !is_cursor[elements as int]
        }),
{
    lemma_cursor_is_left_out(is_cursor, geometries);
}

/// A redraw starts with a look at the fullscreen surface, unless the output is
/// suspended.
pub proof fn lemma_redraw_starts_with_a_look(
    state: SurfaceThreadState,
    phase: Option<RedrawPhase>,
)
    requires
        call_ensures(SurfaceThreadState::begin_redraw, (&state,), phase),
    ensures
        phase is Some <==> state.has_compositor,
        phase is Some ==> phase == Some(RedrawPhase::Inspecting),
{
}

/// After the look, colors are set up where something about the surface changed, just
/// as its plan asks; otherwise elements are collected at once, and direct scanout is
/// what the look allows.
pub proof fn lemma_look_decides_on_colors(
    state: &mut SurfaceThreadState,
    inspection: Inspection,
    switches: RenderSwitches,
    next: (RedrawPhase, RedrawAction),
    start: FrameStart,
    setup: ColorSetup,
)
    requires
        call_ensures(
            SurfaceThreadState::redraw,
            (
                state,
                RedrawPhase::Inspecting,
                RedrawEvent::Inspected(inspection),
                switches,
            ),
            next,
        ),
        call_ensures(
            SurfaceThreadState::begin_frame,
            (&*old(state), inspection.fullscreen, switches, inspection.tearing_allowed),
            start,
        ),
        call_ensures(
            SurfaceThreadState::color_setup,
            (
                &*old(state),
                start,
                inspection.has_surface,
                inspection.is_direct,
                inspection.peak,
            ),
            setup,
        ),
    ensures
        start.update_color ==> next.1 == RedrawAction::SetUpColor(setup) && *final(state)
            == *old(state) && next.0 == (RedrawPhase::SettingUpColor {
            start,
            setup,
            animations_going: inspection.animations_going,
        }),
        !start.update_color ==> {
            &&& next.1 matches RedrawAction::Collect { crtc_refused, cursor, take_copies }
                && !crtc_refused && (take_copies <==> old(state).mirroring is None) && (
            cursor is Some <==> final(state).cursor_transform_mode
                != old(state).cursor_transform_mode)
            &&& next.0 == (RedrawPhase::Collecting {
                start,
                allow_primary_scanout: start.allow_primary_scanout,
                animations_going: inspection.animations_going,
            })
            &&& final(state).is_scanout == start.allow_primary_scanout
        },
{
}

/// Once colors are set up, elements are collected: a refusing CRTC is reported and
/// ends direct scanout, and the copies of own content are taken.
pub proof fn lemma_elements_are_collected_after_colors(
    state: &mut SurfaceThreadState,
    start: FrameStart,
    setup: ColorSetup,
    animations_going: bool,
    crtc_accepted: bool,
    switches: RenderSwitches,
    next: (RedrawPhase, RedrawAction),
)
    requires
        call_ensures(
            SurfaceThreadState::redraw,
            (
                state,
                RedrawPhase::SettingUpColor { start, setup, animations_going },
                RedrawEvent::ColorSetUp { crtc_accepted },
                switches,
            ),
            next,
        ),
    ensures
        next.1 matches RedrawAction::Collect { crtc_refused, cursor, take_copies } && (crtc_refused
            <==> setup is Crtc && !crtc_accepted) && (take_copies <==> old(state).mirroring is None)
            && (cursor is Some <==> final(state).cursor_transform_mode
            != old(state).cursor_transform_mode),
        next.0 matches RedrawPhase::Collecting {
            start: kept,
            allow_primary_scanout,
            animations_going: animated,
        } && kept == start && animated == animations_going && (allow_primary_scanout
            <==> start.allow_primary_scanout && !(setup is Crtc && !crtc_accepted) && !(
        setup is RemovePlanes)) && final(state).is_scanout == allow_primary_scanout,
        final(state).fullscreen == start.fullscreen,
{
}

/// The collected elements are composited offscreen first only with OpenGL, and only
/// where a filter changes them or mirrored content does not fit: to the buffer that
/// there is if it fits, else to a new one. Otherwise they are rendered at once. The
/// frame's plan is made here, from the adaptive-sync mode, the surface and the
/// switches.
#[verifier::rlimit(60)]
pub proof fn lemma_collected_elements_are_planned(
    state: &mut SurfaceThreadState,
    start: FrameStart,
    allow_primary_scanout: bool,
    animations_going: bool,
    collection: Collection,
    switches: RenderSwitches,
    next: (RedrawPhase, RedrawAction),
)
    requires
        call_ensures(
            SurfaceThreadState::redraw,
            (
                state,
                RedrawPhase::Collecting { start, allow_primary_scanout, animations_going },
                RedrawEvent::Collected(collection),
                switches,
            ),
            next,
        ),
    ensures
        ({
            let mirrored = old(state).mirroring is Some;
            let fits = collection.offscreen.config == collection.own_config;
            let offscreen = !old(state).is_vulkan && (!old(state).filter_is_noop || (mirrored
                && !fits));
            let made = old(state).postprocess == Some(collection.offscreen);
            let plan = match next.0 {
                RedrawPhase::MakingOffscreen { plan, .. } => plan,
                RedrawPhase::Compositing { plan, .. } => plan,
                RedrawPhase::Rendering { plan } => plan,
                _ => arbitrary(),
            };
            &&& next.1 is Render <==> !offscreen
            &&& next.1 is Composite <==> offscreen && made
            &&& next.1 is MakeOffscreen <==> offscreen && !made
            &&& next.1 matches RedrawAction::Render { plan: rendered, source } ==> source
                == PostprocessSource::Direct && rendered == plan && next.0 is Rendering
            &&& next.1 matches RedrawAction::MakeOffscreen(target) ==> target
                == collection.offscreen && (next.0 matches RedrawPhase::MakingOffscreen {
                target: wanted,
                ..
            } && wanted == target)
            &&& next.1 matches RedrawAction::Composite(pass) ==> (
            next.0 matches RedrawPhase::Compositing { pass: kept, .. } && kept == pass)
            &&& (next.0 matches RedrawPhase::MakingOffscreen { pass, .. } ==> (pass.source
                == PostprocessSource::Mirrored <==> mirrored) && (pass.source
                == PostprocessSource::Own <==> !mirrored) && (pass.cursor_apart <==> !mirrored
                && collection.hides_cursor))
            &&& (next.0 matches RedrawPhase::Compositing { pass, .. } ==> (pass.source
                == PostprocessSource::Mirrored <==> mirrored) && (pass.source
                == PostprocessSource::Own <==> !mirrored) && (pass.cursor_apart <==> !mirrored
                && collection.hides_cursor))
            &&& old(state).vrr_mode is Force ==> plan.vrr
            &&& old(state).vrr_mode is Enabled ==> (plan.vrr <==> start.fullscreen is Some)
            &&& old(state).vrr_mode is Disabled ==> !plan.vrr
            &&& plan.clear_transparent <==> offscreen || start.fullscreen is Some
            &&& plan.tearing == start.tearing
            &&& plan.allow_primary_scanout == allow_primary_scanout
            &&& plan.flags.allow_primary_plane_scanout == allow_primary_scanout
            &&& plan.flags.allow_cursor_plane_scanout == !switches.disable_cursor_plane
            &&& plan.flags.allow_overlay_plane_scanout ==> !animations_going
                && !switches.disable_overlay_scanout
            &&& plan.skips_cursor_updates <==> plan.vrr && start.drives_refresh_rate
                && !collection.past_min_render_time
            &&& *final(state) == (SurfaceThreadState { vrr: plan.vrr, ..*old(state) })
        }),
{
}

/// From the offscreen buffer to the frame: a buffer that was made is remembered and
/// composited to, composited content is rendered, and the plan stays as it is.
pub proof fn lemma_composited_content_is_rendered(
    made: &mut SurfaceThreadState,
    composited: &mut SurfaceThreadState,
    plan: FramePlan,
    pass: OffscreenPass,
    target: PostprocessTarget,
    switches: RenderSwitches,
    after_made: (RedrawPhase, RedrawAction),
    after_composited: (RedrawPhase, RedrawAction),
)
    requires
        call_ensures(
            SurfaceThreadState::redraw,
            (
                made,
                RedrawPhase::MakingOffscreen { plan, pass, target },
                RedrawEvent::OffscreenMade,
                switches,
            ),
            after_made,
        ),
        call_ensures(
            SurfaceThreadState::redraw,
            (
                composited,
                RedrawPhase::Compositing { plan, pass },
                RedrawEvent::Composited,
                switches,
            ),
            after_composited,
        ),
    ensures
        after_made == (
            RedrawPhase::Compositing { plan, pass },
            RedrawAction::Composite(pass),
        ),
        *final(made) == (SurfaceThreadState { postprocess: Some(target), ..*old(made) }),
        after_composited == (
            RedrawPhase::Rendering { plan },
            RedrawAction::Render { plan, source: pass.source },
        ),
        *final(composited) == *old(composited),
{
}

/// A rendered frame is handed to the kernel as it was planned: it tears where that was
/// planned, feedback is taken where own content is shown, and only Vulkan serves
/// captures before that, those of windows only while it mirrors nothing.
pub proof fn lemma_rendered_frame_is_submitted(
    state: &mut SurfaceThreadState,
    plan: FramePlan,
    is_swapchain: bool,
    is_empty: bool,
    switches: RenderSwitches,
    next: (RedrawPhase, RedrawAction),
)
    requires
        call_ensures(
            SurfaceThreadState::redraw,
            (
                state,
                RedrawPhase::Rendering { plan },
                RedrawEvent::Rendered { is_swapchain, is_empty },
                switches,
            ),
            next,
        ),
    ensures
        next.0 == (RedrawPhase::Submitting { plan }),
        next.1 matches RedrawAction::Submit {
            tearing,
            take_feedback,
            copy_first,
            window_copies,
            process_shm,
        } && (tearing <==> plan.tearing) && (take_feedback <==> !is_empty
            && old(state).mirroring is None) && (copy_first <==> old(state).is_vulkan) && (
        process_shm <==> old(state).is_vulkan) && (window_copies <==> old(state).is_vulkan
            && old(state).mirroring is None),
        final(state).swapchain_is_scanout <==> plan.allow_primary_scanout && !is_swapchain,
        *final(state) == (SurfaceThreadState {
            swapchain_is_scanout: final(state).swapchain_is_scanout,
            ..*old(state)
        }),
{
}

/// A submitted frame ends the redraw with what the submission comes to, and is looked
/// at again where updates of the cursor were skipped. One that failed before that is
/// given up without a trace.
pub proof fn lemma_redraw_ends(
    state: &mut SurfaceThreadState,
    alike: &mut SurfaceThreadState,
    plan: FramePlan,
    result: SubmitResult,
    effects: SubmitEffects,
    failed: &mut SurfaceThreadState,
    phase: RedrawPhase,
    switches: RenderSwitches,
    next: (RedrawPhase, RedrawAction),
    given_up: (RedrawPhase, RedrawAction),
)
    requires
        old(state).takes_result(result),
        *old(state) == *old(alike),
        call_ensures(
            SurfaceThreadState::redraw,
            (
                state,
                RedrawPhase::Submitting { plan },
                RedrawEvent::Submitted(result),
                switches,
            ),
            next,
        ),
        call_ensures(SurfaceThreadState::frame_submitted, (alike, result), effects),
        expects(phase, RedrawEvent::Failed),
        call_ensures(
            SurfaceThreadState::redraw,
            (failed, phase, RedrawEvent::Failed, switches),
            given_up,
        ),
    ensures
        next.0 is Done,
        next.1 == (RedrawAction::Finish { effects, look_again: plan.skips_cursor_updates }),
        *final(state) == *final(alike),
        given_up.0 is Done,
        *final(failed) == *old(failed),
        given_up.1 matches RedrawAction::Abandon { void_buffers } && (void_buffers <==> (
        phase matches RedrawPhase::Rendering { .. })),
{
}

} // verus!
