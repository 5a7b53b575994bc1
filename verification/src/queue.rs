//! The redraw queue of an output: at most one redraw is queued, and at most one
//! timer stands in for a vertical blank that will not come.
use vstd::prelude::*;

verus! {

/// A frame time of 30 Hz, in nanoseconds.
pub const FRAME_TIME_30_HZ: u64 = 33_333_333;

/// What an output waits for. Timers are named by the token they were registered
/// under.
#[derive(Debug, Clone, Copy, PartialEq, Eq, Structural)]
pub enum QueueState {
    Idle,
    /// A redraw is queued.
    Queued(u64),
    /// A frame was submitted to KMS and waits to be presented.
    WaitingForVBlank { redraw_needed: bool, fullscreen_request: bool },
    /// Nothing was submitted to KMS, and a timer fires at the estimated vertical
    /// blank.
    WaitingForEstimatedVBlank(u64),
    /// A redraw is queued on top of the above.
    WaitingForEstimatedVBlankAndQueued { estimated_vblank: u64, queued_render: u64 },
}

/// What decides whether and when a redraw is queued.
#[derive(Debug, Clone, Copy, PartialEq, Eq, Structural)]
pub struct RedrawContext {
    /// The output has a compositor: it is not suspended.
    pub has_compositor: bool,
    /// Frames are presented at a variable refresh rate.
    pub vrr: bool,
    /// A fullscreen surface covers the output.
    pub fullscreen_occupied: bool,
    /// Updates of other surfaces wait for the fullscreen surface.
    pub skip_other_surface: bool,
    /// The same at a fixed refresh rate.
    pub skip_other_surface_always: bool,
    /// Fullscreen updates are rendered at once.
    pub immediate_render: bool,
    /// The longest frame time at a variable refresh rate, in nanoseconds.
    pub min_vrr_frame_time: Option<u64>,
}

/// When a queued redraw starts.
#[derive(Debug, Clone, Copy, PartialEq, Eq, Structural)]
pub enum RenderStart {
    /// After this many nanoseconds.
    After(u64),
    /// In time for the next presentation.
    NextRenderTime,
}

/// A redraw that needs a timer.
#[derive(Debug, Clone, Copy, PartialEq, Eq, Structural)]
pub struct RedrawTimer {
    pub start: RenderStart,
    /// Replaces a redraw that is already queued.
    pub force: bool,
}

impl RedrawContext {
    /// Whether an update has to wait for the fullscreen surface.
    pub open spec fn waits_for_fullscreen(self, force: bool, is_fullscreen: bool) -> bool {
        self.skip_other_surface && (self.vrr || self.skip_other_surface_always)
            && self.fullscreen_occupied && !force && !is_fullscreen
    }

    /// Whether an update is rendered at once.
    pub open spec fn is_immediate(self, is_fullscreen: bool) -> bool {
        self.immediate_render && self.vrr && is_fullscreen
    }

    /// Whether an update replaces a redraw that is already queued.
    pub open spec fn is_forced(self, force: bool, is_fullscreen: bool) -> bool {
        force || (self.skip_other_surface && is_fullscreen) || self.is_immediate(is_fullscreen)
    }

    /// When an update is rendered. One that waits for the fullscreen surface
    /// starts late, in case that surface stops updating.
    pub open spec fn render_start(self, force: bool, is_fullscreen: bool) -> RenderStart {
        if self.waits_for_fullscreen(force, is_fullscreen) {
            RenderStart::After(
                match self.min_vrr_frame_time {
                    Some(time) => time,
                    None => FRAME_TIME_30_HZ,
                },
            )
        } else if self.is_immediate(is_fullscreen) {
            RenderStart::After(0)
        } else {
            RenderStart::NextRenderTime
        }
    }
}

/// The tokens in two slots, in order.
pub open spec fn both(first: Option<u64>, second: Option<u64>) -> Seq<u64> {
    let rest = match second {
        Some(token) => seq![token],
        None => Seq::empty(),
    };
    match first {
        Some(token) => seq![token] + rest,
        None => rest,
    }
}

impl QueueState {
    /// The timer that stands in for a vertical blank.
    pub open spec fn vblank_timer(self) -> Option<u64> {
        match self {
            QueueState::WaitingForEstimatedVBlank(token) => Some(token),
            QueueState::WaitingForEstimatedVBlankAndQueued { estimated_vblank, .. } => Some(
                estimated_vblank,
            ),
            _ => None,
        }
    }

    /// The timer that starts a redraw.
    pub open spec fn render_timer(self) -> Option<u64> {
        match self {
            QueueState::Queued(token) => Some(token),
            QueueState::WaitingForEstimatedVBlankAndQueued { queued_render, .. } => Some(
                queued_render,
            ),
            _ => None,
        }
    }

    /// All timers of this state.
    pub open spec fn timers(self) -> Seq<u64> {
        both(self.vblank_timer(), self.render_timer())
    }

    /// A fullscreen request is always a request to redraw.
    pub open spec fn wf(self) -> bool {
        self matches QueueState::WaitingForVBlank { redraw_needed, fullscreen_request } ==> (
        fullscreen_request ==> redraw_needed)
    }

    /// Whether a redraw will follow without anything more being asked.
    pub open spec fn redraw_is_pending(self) -> bool {
        self.render_timer() is Some || (self matches QueueState::WaitingForVBlank {
            redraw_needed,
            ..
        } && redraw_needed)
    }

    /// The state once an update was asked for: while a frame waits for its
    /// vertical blank, that is remembered, unless a fullscreen request already is.
    pub open spec fn after_request(self, context: RedrawContext, is_fullscreen: bool) -> QueueState {
        match self {
            QueueState::WaitingForVBlank { fullscreen_request, .. } if context.has_compositor
                && !fullscreen_request => QueueState::WaitingForVBlank {
                redraw_needed: true,
                fullscreen_request: is_fullscreen,
            },
            _ => self,
        }
    }

    /// Whether an update needs a timer of its own.
    pub open spec fn needs_timer(
        self,
        context: RedrawContext,
        force: bool,
        is_fullscreen: bool,
    ) -> bool {
        &&& context.has_compositor
        &&& !(self is WaitingForVBlank)
        &&& self.render_timer() is None || context.is_forced(force, is_fullscreen)
    }

    /// The state with `token` as the timer that starts a redraw.
    pub open spec fn with_render_timer(self, token: u64) -> QueueState {
        match self.vblank_timer() {
            Some(estimated_vblank) => QueueState::WaitingForEstimatedVBlankAndQueued {
                estimated_vblank,
                queued_render: token,
            },
            None => QueueState::Queued(token),
        }
    }

    /// Asks for a redraw. Returns the timer to register for it, if it needs one;
    /// once registered, the timer is to be handed to [`QueueState::queued`].
    pub fn queue_redraw(
        &mut self,
        context: RedrawContext,
        force: bool,
        is_fullscreen: bool,
    ) -> (timer: Option<RedrawTimer>)
        ensures
            *final(self) == old(self).after_request(context, is_fullscreen),
            timer == if old(self).needs_timer(context, force, is_fullscreen) {
                Some(
                    RedrawTimer {
                        start: context.render_start(force, is_fullscreen),
                        force: context.is_forced(force, is_fullscreen),
                    },
                )
            } else {
                None
            },
            old(self).wf() ==> final(self).wf(),
    {
        if !context.has_compositor {
            return None;
        }
        let waits: bool = context.skip_other_surface && (context.vrr
            || context.skip_other_surface_always) && context.fullscreen_occupied && !force
            && !is_fullscreen;
        let mut force: bool = force;
        if context.skip_other_surface && is_fullscreen {
            force = true;
        }
        let immediate: bool = if context.immediate_render && context.vrr && is_fullscreen {
            force = true;
            true
        } else {
            false
        };
        if let QueueState::WaitingForVBlank { fullscreen_request, .. } = *self {
            if !fullscreen_request {
                *self =
                QueueState::WaitingForVBlank {
                    redraw_needed: true,
                    fullscreen_request: is_fullscreen,
                };
            }
            return None;
        }
        if !force {
            match *self {
                QueueState::Queued(_) | QueueState::WaitingForEstimatedVBlankAndQueued { .. } => {
                    return None;
                },
                _ => {},
            }
        }
        let start: RenderStart = if waits {
            RenderStart::After(
                match context.min_vrr_frame_time {
                    Some(time) => time,
                    None => FRAME_TIME_30_HZ,
                },
            )
        } else if immediate {
            RenderStart::After(0)
        } else {
            RenderStart::NextRenderTime
        };
        Some(RedrawTimer { start, force })
    }

    /// Records the timer of a redraw that was just registered. Returns the timer
    /// that it replaces, which is to be removed.
    pub fn queued(&mut self, token: u64) -> (replaced: Option<u64>)
        requires
            !(*old(self) is WaitingForVBlank),
        ensures
            *final(self) == old(self).with_render_timer(token),
            replaced == old(self).render_timer(),
    {
        match *self {
            QueueState::WaitingForEstimatedVBlank(estimated_vblank) => {
                *self =
                QueueState::WaitingForEstimatedVBlankAndQueued {
                    estimated_vblank,
                    queued_render: token,
                };
                None
            },
            QueueState::Queued(old_token) => {
                *self = QueueState::Queued(token);
                Some(old_token)
            },
            QueueState::WaitingForEstimatedVBlankAndQueued { estimated_vblank, queued_render } => {
                *self =
                QueueState::WaitingForEstimatedVBlankAndQueued {
                    estimated_vblank,
                    queued_render: token,
                };
                Some(queued_render)
            },
            _ => {
                *self = QueueState::Queued(token);
                None
            },
        }
    }

    /// Drops everything that is queued. Returns the timers to remove, and whether
    /// a submitted frame is to be discarded.
    pub fn cancel(&mut self) -> (dropped: (Vec<u64>, bool))
        ensures
            *final(self) == QueueState::Idle,
            dropped.0@ == old(self).timers(),
            dropped.1 == (*old(self) is WaitingForVBlank),
    {
        let mut timers: Vec<u64> = Vec::new();
        let mut discard_frame: bool = false;
        match *self {
            QueueState::Idle => {},
            QueueState::Queued(token) | QueueState::WaitingForEstimatedVBlank(token) => {
                timers.push(token);
            },
            QueueState::WaitingForVBlank { .. } => {
                discard_frame = true;
            },
            QueueState::WaitingForEstimatedVBlankAndQueued { estimated_vblank, queued_render } => {
                timers.push(estimated_vblank);
                timers.push(queued_render);
            },
        }
        assert(timers@ =~= self.timers());
        *self = QueueState::Idle;
        (timers, discard_frame)
    }

    /// A vertical blank arrived. Returns what was asked for while the frame
    /// waited for it, as (redraw, fullscreen), or else the timers to remove: a
    /// vertical blank that no frame waits for ends whatever is queued.
    pub fn vblank(&mut self) -> (event: Result<(bool, bool), Vec<u64>>)
        ensures
            *final(self) == QueueState::Idle,
            match *old(self) {
                QueueState::WaitingForVBlank { redraw_needed, fullscreen_request } => event == Ok::<
                    (bool, bool),
                    Vec<u64>,
                >((redraw_needed, fullscreen_request)),
                _ => event matches Err(timers) && timers@ == old(self).timers(),
            },
    {
        if let QueueState::WaitingForVBlank { redraw_needed, fullscreen_request } = *self {
            *self = QueueState::Idle;
            return Ok((redraw_needed, fullscreen_request));
        }
        let dropped: (Vec<u64>, bool) = self.cancel();
        Err(dropped.0)
    }

    /// The timer of an estimated vertical blank fired. Returns whether the
    /// output is done with the frame; it is not where a redraw is queued.
    pub fn estimated_vblank(&mut self) -> (done: bool)
        requires
            old(self).vblank_timer() is Some,
        ensures
            *final(self) == match old(self).render_timer() {
                Some(token) => QueueState::Queued(token),
                None => QueueState::Idle,
            },
            done == (old(self).render_timer() is None),
    {
        match *self {
            QueueState::WaitingForEstimatedVBlankAndQueued { queued_render, .. } => {
                *self = QueueState::Queued(queued_render);
                false
            },
            _ => {
                *self = QueueState::Idle;
                true
            },
        }
    }

    /// A frame was submitted by a redraw. Returns the timer that stood in for its
    /// vertical blank, which is to be removed.
    pub fn frame_submitted(&mut self) -> (replaced: Option<u64>)
        requires
            !(*old(self) is WaitingForVBlank) && !(*old(self) is Idle),
        ensures
            *final(self) == (QueueState::WaitingForVBlank {
                redraw_needed: false,
                fullscreen_request: false,
            }),
            replaced == old(self).vblank_timer(),
    {
        let replaced: Option<u64> = match *self {
            QueueState::WaitingForEstimatedVBlank(token) => Some(token),
            QueueState::WaitingForEstimatedVBlankAndQueued { estimated_vblank, .. } => Some(
                estimated_vblank,
            ),
            _ => None,
        };
        *self = QueueState::WaitingForVBlank { redraw_needed: false, fullscreen_request: false };
        replaced
    }

    /// A redraw had nothing to submit. Returns whether a timer is to be
    /// registered for the estimated vertical blank; one that is already running
    /// is kept.
    pub fn queue_estimated_vblank(&mut self) -> (needs_timer: bool)
        requires
            !(*old(self) is WaitingForVBlank) && !(*old(self) is Idle),
        ensures
            *final(self) == match old(self).vblank_timer() {
                Some(token) => QueueState::WaitingForEstimatedVBlank(token),
                None => QueueState::Idle,
            },
            needs_timer == (old(self).vblank_timer() is None),
    {
        match *self {
            QueueState::WaitingForEstimatedVBlank(token)
            | QueueState::WaitingForEstimatedVBlankAndQueued { estimated_vblank: token, .. } => {
                *self = QueueState::WaitingForEstimatedVBlank(token);
                false
            },
            _ => {
                *self = QueueState::Idle;
                true
            },
        }
    }

    /// Records the timer of an estimated vertical blank.
    pub fn estimated_vblank_queued(&mut self, token: u64)
        requires
            *old(self) is Idle,
        ensures
            *final(self) == QueueState::WaitingForEstimatedVBlank(token),
    {
        *self = QueueState::WaitingForEstimatedVBlank(token);
    }

    /// A redraw had nothing to submit, and nothing waits for a vertical blank.
    /// Returns the timer to remove.
    pub fn skip_vblank(&mut self) -> (dropped: Option<u64>)
        ensures
            *final(self) == QueueState::Idle,
            dropped == old(self).vblank_timer(),
    {
        let dropped: Option<u64> = match *self {
            QueueState::WaitingForEstimatedVBlank(token)
            | QueueState::WaitingForEstimatedVBlankAndQueued { estimated_vblank: token, .. } => {
                Some(token)
            },
            _ => None,
        };
        *self = QueueState::Idle;
        dropped
    }
}

impl Default for QueueState {
    fn default() -> (state: Self)
        ensures
            state == QueueState::Idle,
    {
        QueueState::Idle
    }
}

/// How long to wait for an estimated vertical blank: until the presentation, or
/// one refresh interval where that is not ahead.
pub fn estimated_vblank_delay(
    target_presentation_time: u64,
    now: u64,
    refresh_interval: u64,
) -> (delay: u64)
    ensures
        delay == if target_presentation_time > now {
            (target_presentation_time - now) as u64
        } else {
            refresh_interval
        },
{
    let duration: u64 = target_presentation_time.saturating_sub(now);
    if duration == 0 {
        refresh_interval
    } else {
        duration
    }
}

/// A request on an output with a compositor is never lost: it needs a timer of
/// its own, or a redraw is pending already.
pub proof fn lemma_request_is_not_lost(
    state: QueueState,
    context: RedrawContext,
    force: bool,
    is_fullscreen: bool,
)
    requires
        state.wf(),
        context.has_compositor,
    ensures
        state.needs_timer(context, force, is_fullscreen) || state.after_request(
            context,
            is_fullscreen,
        ).redraw_is_pending(),
        state.after_request(context, is_fullscreen).wf(),
{
}

/// Queueing a redraw keeps track of every timer: the new one is held, the one
/// it replaces is the only one that is given up.
pub proof fn lemma_queued_timers(state: QueueState, token: u64)
    requires
        !(state is WaitingForVBlank),
    ensures
        state.with_render_timer(token).render_timer() == Some(token),
        state.with_render_timer(token).vblank_timer() == state.vblank_timer(),
        state.with_render_timer(token).redraw_is_pending(),
        both(state.render_timer(), None) + state.with_render_timer(token).timers()
            == both(state.render_timer(), state.vblank_timer()) + seq![token],
{
    let next = state.with_render_timer(token);
    assert(both(state.render_timer(), None) + next.timers() =~= both(
        state.render_timer(),
        state.vblank_timer(),
    ) + seq![token]);
}

/// While a frame waits for its vertical blank no timer runs, so cancelling
/// either discards a frame or removes timers, never both.
pub proof fn lemma_waiting_has_no_timers(state: QueueState)
    ensures
        state is WaitingForVBlank ==> state.timers() == Seq::<u64>::empty(),
        state is Idle ==> state.timers() == Seq::<u64>::empty(),
        !(state is WaitingForVBlank) && !(state is Idle) ==> state.timers().len() > 0,
{
}

/// While a frame waits for its vertical blank, a fullscreen request is kept
/// through any later requests.
pub proof fn lemma_fullscreen_request_is_kept(
    state: QueueState,
    context: RedrawContext,
    is_fullscreen: bool,
)
    requires
        state matches QueueState::WaitingForVBlank { fullscreen_request, .. } && fullscreen_request,
    ensures
        state.after_request(context, is_fullscreen) == state,
{
}

/// Asking for a redraw: a suspended output ignores it, a frame that waits for its
/// vertical blank remembers it, and otherwise it gets a timer, unless a redraw is
/// queued already that it does not replace. Only a forced request, one of the
/// fullscreen surface that others wait for, or one that is rendered at once replaces
/// a queued redraw.
pub proof fn lemma_asking_for_a_redraw(
    queue: &mut QueueState,
    context: RedrawContext,
    force: bool,
    is_fullscreen: bool,
    timer: Option<RedrawTimer>,
)
    requires
        call_ensures(QueueState::queue_redraw, (queue, context, force, is_fullscreen), timer),
    ensures
        !context.has_compositor ==> timer is None && *final(queue) == *old(queue),
        !(*old(queue) matches QueueState::WaitingForVBlank { .. }) ==> *final(queue) == *old(queue),
        context.has_compositor ==> (*old(queue) matches QueueState::WaitingForVBlank {
            redraw_needed: before,
            fullscreen_request: asked,
        } ==> timer is None && (*final(queue) matches QueueState::WaitingForVBlank {
            redraw_needed,
            fullscreen_request,
        } && (fullscreen_request <==> asked || is_fullscreen) && (redraw_needed <==> before
            || !asked))),
        context.has_compositor && (*old(queue) is Idle
            || *old(queue) is WaitingForEstimatedVBlank) ==> timer is Some,
        context.has_compositor && (*old(queue) is Queued
            || *old(queue) is WaitingForEstimatedVBlankAndQueued) ==> (timer is Some <==> force || (
        is_fullscreen && (context.skip_other_surface || (context.immediate_render
            && context.vrr)))),
        timer matches Some(timer) ==> {
            &&& timer.force <==> force || (is_fullscreen && (context.skip_other_surface || (
            context.immediate_render && context.vrr)))
            &&& is_fullscreen && context.immediate_render && context.vrr ==> timer.start
                == RenderStart::After(0)
            &&& !is_fullscreen && !force && context.fullscreen_occupied
                && context.skip_other_surface && (context.vrr || context.skip_other_surface_always)
                ==> {
                &&& context.min_vrr_frame_time matches Some(longest) ==> timer.start
                    == RenderStart::After(longest)
                &&& context.min_vrr_frame_time is None ==> timer.start == RenderStart::After(
                    33_333_333,
                )
            }
            &&& timer.start is NextRenderTime <==> !(is_fullscreen && context.immediate_render
                && context.vrr) && (is_fullscreen || force || !context.fullscreen_occupied
                || !context.skip_other_surface || !(context.vrr
                || context.skip_other_surface_always))
        },
{
}

/// A timer of a redraw is held in place of an earlier one, which is handed back.
pub proof fn lemma_queued_redraw_is_held(
    queue: &mut QueueState,
    token: u64,
    replaced: Option<u64>,
)
    requires
        !(*old(queue) is WaitingForVBlank),
        call_ensures(QueueState::queued, (queue, token), replaced),
    ensures
        match *old(queue) {
            QueueState::Queued(earlier) => replaced == Some(earlier) && *final(queue)
                == QueueState::Queued(token),
            QueueState::WaitingForEstimatedVBlank(blank) => replaced is None && *final(queue) == (
            QueueState::WaitingForEstimatedVBlankAndQueued {
                estimated_vblank: blank,
                queued_render: token,
            }),
            QueueState::WaitingForEstimatedVBlankAndQueued { estimated_vblank, queued_render } => {
                replaced == Some(queued_render) && *final(queue) == (
                QueueState::WaitingForEstimatedVBlankAndQueued {
                    estimated_vblank,
                    queued_render: token,
                })
            },
            _ => replaced is None && *final(queue) == QueueState::Queued(token),
        },
{
}

/// Dropping what is queued drops every timer and the frame that waits, and leaves the
/// output idle.
pub proof fn lemma_cancelling_drops_everything(queue: &mut QueueState, dropped: (Vec<u64>, bool))
    requires
        call_ensures(QueueState::cancel, (queue,), dropped),
    ensures
        *final(queue) is Idle,
        dropped.1 <==> (*old(queue) matches QueueState::WaitingForVBlank { .. }),
        match *old(queue) {
            QueueState::Queued(token) => dropped.0@ == seq![token],
            QueueState::WaitingForEstimatedVBlank(token) => dropped.0@ == seq![token],
            QueueState::WaitingForEstimatedVBlankAndQueued { estimated_vblank, queued_render } => {
                dropped.0@ == seq![estimated_vblank, queued_render]
            },
            _ => dropped.0@.len() == 0,
        },
{
    assert(dropped.0@ =~= old(queue).timers());
}

/// A vertical blank hands out what was asked for meanwhile, or drops every timer where
/// no frame waited for it.
pub proof fn lemma_blank_ends_the_wait(
    queue: &mut QueueState,
    event: Result<(bool, bool), Vec<u64>>,
)
    requires
        call_ensures(QueueState::vblank, (queue,), event),
    ensures
        *final(queue) is Idle,
        event is Ok <==> (*old(queue) matches QueueState::WaitingForVBlank { .. }),
        *old(queue) matches QueueState::WaitingForVBlank { redraw_needed, fullscreen_request } ==> (
        event matches Ok(asked) && asked.0 == redraw_needed && asked.1 == fullscreen_request),
        event matches Err(timers) ==> match *old(queue) {
            QueueState::Queued(token) => timers@ == seq![token],
            QueueState::WaitingForEstimatedVBlank(token) => timers@ == seq![token],
            QueueState::WaitingForEstimatedVBlankAndQueued { estimated_vblank, queued_render } => {
                timers@ == seq![estimated_vblank, queued_render]
            },
            _ => timers@.len() == 0,
        },
{
    if let Err(timers) = event {
        assert(timers@ =~= old(queue).timers());
    }
}

/// An estimated vertical blank leaves the redraw that is queued, and otherwise nothing.
pub proof fn lemma_estimated_blank_keeps_the_redraw(queue: &mut QueueState, done: bool)
    requires
        old(queue).vblank_timer() is Some,
        call_ensures(QueueState::estimated_vblank, (queue,), done),
    ensures
        *old(queue) is WaitingForEstimatedVBlank ==> done && *final(queue) is Idle,
        *old(queue) matches QueueState::WaitingForEstimatedVBlankAndQueued { queued_render, .. }
            ==> !done && *final(queue) == QueueState::Queued(queued_render),
{
}

/// Submitting a frame, having nothing to submit, and skipping the vertical blank each
/// account for the timer of an estimated one: it is removed, kept, or registered.
pub proof fn lemma_estimated_timer_is_accounted_for(
    submitted: &mut QueueState,
    removed: Option<u64>,
    empty: &mut QueueState,
    needs_timer: bool,
    skipped: &mut QueueState,
    dropped: Option<u64>,
    queued: &mut QueueState,
    token: u64,
)
    requires
        !(*old(submitted) is WaitingForVBlank) && !(*old(submitted) is Idle),
        call_ensures(QueueState::frame_submitted, (submitted,), removed),
        !(*old(empty) is WaitingForVBlank) && !(*old(empty) is Idle),
        call_ensures(QueueState::queue_estimated_vblank, (empty,), needs_timer),
        call_ensures(QueueState::skip_vblank, (skipped,), dropped),
        *old(queued) is Idle,
        call_ensures(QueueState::estimated_vblank_queued, (queued, token), ()),
    ensures
        *final(submitted) == (QueueState::WaitingForVBlank {
            redraw_needed: false,
            fullscreen_request: false,
        }),
        removed == match *old(submitted) {
            QueueState::WaitingForEstimatedVBlank(blank) => Some(blank),
            QueueState::WaitingForEstimatedVBlankAndQueued { estimated_vblank, .. } => Some(
                estimated_vblank,
            ),
            _ => None,
        },
        *old(empty) is Queued ==> needs_timer && *final(empty) is Idle,
        *old(empty) matches QueueState::WaitingForEstimatedVBlank(blank) ==> !needs_timer
            && *final(empty) == QueueState::WaitingForEstimatedVBlank(blank),
        *old(empty) matches QueueState::WaitingForEstimatedVBlankAndQueued {
            estimated_vblank,
            ..
        } ==> !needs_timer && *final(empty) == QueueState::WaitingForEstimatedVBlank(
            estimated_vblank,
        ),
        *final(skipped) is Idle,
        dropped == match *old(skipped) {
            QueueState::WaitingForEstimatedVBlank(blank) => Some(blank),
            QueueState::WaitingForEstimatedVBlankAndQueued { estimated_vblank, .. } => Some(
                estimated_vblank,
            ),
            _ => None,
        },
        *final(queued) == QueueState::WaitingForEstimatedVBlank(token),
{
}

/// An estimated vertical blank is never waited for without end nor in the past: it
/// comes at the presentation, or one interval from now where that is not ahead.
pub proof fn lemma_estimated_blank_is_ahead(target: u64, now: u64, interval: u64, delay: u64)
    requires
        call_ensures(estimated_vblank_delay, (target, now, interval), delay),
    ensures
        target > now ==> now + delay == target,
        target <= now ==> delay == interval,
{
}

} // verus!
