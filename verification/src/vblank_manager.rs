//! When to start drawing so that a frame is ready for its vertical blank.
use vstd::prelude::*;

verus! {

/// Draw time assumed before any frame was measured, in nanoseconds.
pub const STARTING_VBLANK_DRAW_TIME: u64 = 3_000_000;

/// Time kept free before a vertical blank, in nanoseconds.
pub const DEFAULT_VBLANK_RED_ZONE: u64 = 1_650_000;

/// Least draw time of a composited frame, in nanoseconds.
pub const DEFAULT_VBLANK_DRAW_TIME_MIN_COMPOSITING: u64 = 2_400_000;

/// Weight of the rolling maximum against the latest draw time.
pub const DEFAULT_VBLANK_RATE_OF_DECAY_PERCENTAGE: u64 = 980;

/// The sum of both weights.
pub const VBLANK_RATE_OF_DECAY_MAX: u64 = 1_000;

/// Time to flush a frame at a variable refresh rate, in nanoseconds.
pub const VRR_FLUSHING_TIME: u64 = 300_000;

/// The refresh cycle assumed before a mode is set: 60 Hz, in nanoseconds.
pub const DEFAULT_REFRESH_CYCLE: u64 = 16_666_666;

/// When to wake up, and for which vertical blank, in nanoseconds of the
/// monotonic clock.
#[derive(Debug, Clone, Copy, PartialEq, Eq, Structural)]
pub struct VBlankScheduleTime {
    pub target_vblank: u64,
    pub scheduled_wakeup_point: u64,
}

/// Schedules drawing ahead of vertical blanks.
#[derive(Debug)]
pub struct VBlankManager {
    armed: bool,
    running: bool,
    refresh_cycle_ns: u64,
    vrr_active: bool,
    preemptive: bool,
    deadline: Option<VBlankScheduleTime>,
    rolling_max_draw_time: u64,
    last_vblank: u64,
    last_draw_time: u64,
    currently_compositing: bool,
}

/// What a [`VBlankManager`] holds.
pub struct VBlankState {
    pub armed: bool,
    pub running: bool,
    pub refresh_cycle_ns: u64,
    pub vrr_active: bool,
    pub preemptive: bool,
    pub deadline: Option<VBlankScheduleTime>,
    pub rolling_max_draw_time: u64,
    pub last_vblank: u64,
    pub last_draw_time: u64,
    pub currently_compositing: bool,
}

impl View for VBlankManager {
    type V = VBlankState;

    closed spec fn view(&self) -> VBlankState {
        VBlankState {
            armed: self.armed,
            running: self.running,
            refresh_cycle_ns: self.refresh_cycle_ns,
            vrr_active: self.vrr_active,
            preemptive: self.preemptive,
            deadline: self.deadline,
            rolling_max_draw_time: self.rolling_max_draw_time,
            last_vblank: self.last_vblank,
            last_draw_time: self.last_draw_time,
            currently_compositing: self.currently_compositing,
        }
    }
}

/// The first of the points `first`, `first + interval`, ... at or after `now`.
pub open spec fn next_point(first: int, interval: int, now: int) -> int
    decreases
            (if first < now {
                now - first
            } else {
                0
            }),
{
    if first >= now || interval <= 0 {
        first
    } else {
        next_point(first + interval, interval, now)
    }
}

impl VBlankState {
    /// The draw time to plan for: a composited frame takes at least its minimum.
    pub open spec fn draw_time(self) -> int {
        if self.currently_compositing && self.last_draw_time
            < DEFAULT_VBLANK_DRAW_TIME_MIN_COMPOSITING {
            DEFAULT_VBLANK_DRAW_TIME_MIN_COMPOSITING as int
        } else {
            self.last_draw_time as int
        }
    }

    /// Whether the draw time is clearly longer than the rolling maximum.
    pub open spec fn is_longer(self) -> bool {
        self.draw_time() - DEFAULT_VBLANK_RED_ZONE / 2 > self.rolling_max_draw_time
    }

    /// The rolling maximum and the draw time, weighted.
    pub open spec fn weighted(self) -> int {
        DEFAULT_VBLANK_RATE_OF_DECAY_PERCENTAGE * self.rolling_max_draw_time + (
        VBLANK_RATE_OF_DECAY_MAX - DEFAULT_VBLANK_RATE_OF_DECAY_PERCENTAGE) * self.draw_time()
    }

    /// The draw time that follows the rolling maximum: a clearly longer draw
    /// time replaces it, any other lets it decay.
    pub open spec fn decayed_draw_time(self) -> int {
        if self.is_longer() {
            self.draw_time()
        } else {
            self.weighted() / VBLANK_RATE_OF_DECAY_MAX as int
        }
    }

    /// Whether the draw times can be compared and weighted in 64 bits.
    pub open spec fn can_weigh(self) -> bool {
        &&& self.last_draw_time <= i64::MAX
        &&& self.rolling_max_draw_time <= i64::MAX
        &&& !self.is_longer() ==> self.weighted() <= u64::MAX
    }

    /// The next rolling maximum at a fixed refresh rate: it leaves the red zone
    /// of the cycle free.
    pub open spec fn next_rolling(self) -> int {
        let room = if self.refresh_cycle_ns > DEFAULT_VBLANK_RED_ZONE {
            self.refresh_cycle_ns - DEFAULT_VBLANK_RED_ZONE
        } else {
            0
        };
        if self.decayed_draw_time() < room {
            self.decayed_draw_time()
        } else {
            room
        }
    }

    /// How long before the vertical blank to wake up.
    pub open spec fn offset(self) -> int {
        if self.vrr_active {
            VRR_FLUSHING_TIME + if self.currently_compositing {
                DEFAULT_VBLANK_DRAW_TIME_MIN_COMPOSITING as int
            } else {
                0
            }
        } else {
            self.next_rolling() + DEFAULT_VBLANK_RED_ZONE
        }
    }

    /// The first wakeup point after the last vertical blank.
    pub open spec fn first_wakeup(self) -> int {
        self.last_vblank + if self.refresh_cycle_ns > self.offset() {
            self.refresh_cycle_ns - self.offset()
        } else {
            0
        }
    }

    /// The wakeup point at or after `now`.
    pub open spec fn wakeup(self, now: u64) -> int {
        next_point(self.first_wakeup(), self.refresh_cycle_ns as int, now as int)
    }

    /// Whether a schedule can be computed at `now`: the next point can be
    /// reached, and no time leaves the range of the clock.
    pub open spec fn can_schedule(self, now: u64) -> bool {
        self.deadline is None ==> {
            &&& !self.vrr_active ==> self.can_weigh()
            &&& self.refresh_cycle_ns > 0 || self.first_wakeup() >= now
            &&& self.wakeup(now) + self.offset() <= u64::MAX
        }
    }

    /// The schedule at `now`: an explicit deadline, or the computed one.
    pub open spec fn schedule(self, now: u64) -> VBlankScheduleTime {
        match self.deadline {
            Some(deadline) => deadline,
            None => VBlankScheduleTime {
                target_vblank: (self.wakeup(now) + self.offset()) as u64,
                scheduled_wakeup_point: self.wakeup(now) as u64,
            },
        }
    }

    /// The state once a schedule was taken: an explicit deadline is used up;
    /// otherwise the rolling maximum moves on, unless the wakeup is preemptive.
    pub open spec fn after_schedule(self) -> VBlankState {
        if self.deadline is Some {
            VBlankState { deadline: None, ..self }
        } else if self.preemptive {
            self
        } else if self.vrr_active {
            VBlankState { rolling_max_draw_time: STARTING_VBLANK_DRAW_TIME, ..self }
        } else {
            VBlankState { rolling_max_draw_time: self.next_rolling() as u64, ..self }
        }
    }

    /// The state once a wakeup was sent.
    pub open spec fn disarmed(self) -> VBlankState {
        VBlankState { armed: false, preemptive: false, ..self }
    }
}

/// What the thread that waits for wakeup points does next.
#[derive(Debug, Clone, Copy, PartialEq, Eq, Structural)]
pub enum NudgeAction {
    /// Stop.
    Exit,
    /// Wait until the manager is armed or stopped.
    WaitUntilArmed,
    /// Send this schedule now.
    Send(VBlankScheduleTime),
    /// Wait this many nanoseconds; if nothing happens meanwhile, send the schedule.
    Sleep { schedule: VBlankScheduleTime, timeout: u64 },
}

impl VBlankManager {
    /// A manager that was just started, at `now_ns`.
    pub fn new(now_ns: u64) -> (manager: VBlankManager)
        ensures
            manager@ == (VBlankState {
                armed: false,
                running: true,
                refresh_cycle_ns: DEFAULT_REFRESH_CYCLE,
                vrr_active: false,
                preemptive: false,
                deadline: None,
                rolling_max_draw_time: STARTING_VBLANK_DRAW_TIME,
                last_vblank: now_ns,
                last_draw_time: STARTING_VBLANK_DRAW_TIME,
                currently_compositing: false,
            }),
    {
        VBlankManager {
            armed: false,
            running: true,
            refresh_cycle_ns: DEFAULT_REFRESH_CYCLE,
            vrr_active: false,
            preemptive: false,
            deadline: None,
            rolling_max_draw_time: STARTING_VBLANK_DRAW_TIME,
            last_vblank: now_ns,
            last_draw_time: STARTING_VBLANK_DRAW_TIME,
            currently_compositing: false,
        }
    }

    /// Sets the length of a refresh cycle and whether it is variable.
    pub fn update_refresh_cycle(&mut self, cycle_ns: u64, vrr_active: bool)
        ensures
            final(self)@ == (VBlankState { refresh_cycle_ns: cycle_ns, vrr_active, ..old(self)@ }),
    {
        self.refresh_cycle_ns = cycle_ns;
        self.vrr_active = vrr_active;
    }

    /// Records a vertical blank; `re_arm` asks for a preemptive wakeup.
    pub fn mark_vblank(&mut self, nanos: u64, re_arm: bool)
        ensures
            final(self)@ == if re_arm {
                VBlankState {
                    last_vblank: nanos,
                    deadline: None,
                    preemptive: true,
                    armed: true,
                    ..old(self)@
                }
            } else {
                VBlankState { last_vblank: nanos, ..old(self)@ }
            },
    {
        self.last_vblank = nanos;
        if re_arm {
            self.arm(None, true);
        }
    }

    /// Records how long the last frame took to draw.
    pub fn update_last_draw_time(&mut self, nanos: u64)
        ensures
            final(self)@ == (VBlankState { last_draw_time: nanos, ..old(self)@ }),
    {
        self.last_draw_time = nanos;
    }

    /// Records whether frames are composited.
    pub fn update_compositing(&mut self, compositing: bool)
        ensures
            final(self)@ == (VBlankState { currently_compositing: compositing, ..old(self)@ }),
    {
        self.currently_compositing = compositing;
    }

    /// Asks for a wakeup: at an explicit time, or at the next computed one.
    pub fn arm(&mut self, schedule: Option<VBlankScheduleTime>, preemptive: bool)
        ensures
            final(self)@ == (VBlankState {
                deadline: schedule,
                preemptive,
                armed: true,
                ..old(self)@
            }),
    {
        self.deadline = schedule;
        self.preemptive = preemptive;
        self.armed = true;
    }

    /// Stops the manager, waking up whoever waits for it.
    pub fn shutdown(&mut self)
        ensures
            final(self)@ == (VBlankState { running: false, armed: true, ..old(self)@ }),
    {
        self.running = false;
        self.armed = true;
    }

    /// How long before the vertical blank to wake up; moves the rolling maximum on.
    fn next_offset(&mut self) -> (offset: u64)
        requires
            old(self)@.deadline is None,
            !old(self)@.vrr_active ==> old(self)@.can_weigh(),
        ensures
            offset == old(self)@.offset(),
            final(self)@ == old(self)@.after_schedule(),
    {
        if !self.vrr_active {
            let red_zone: u64 = DEFAULT_VBLANK_RED_ZONE;
            let mut draw_time: u64 = self.last_draw_time;
            if self.currently_compositing && draw_time < DEFAULT_VBLANK_DRAW_TIME_MIN_COMPOSITING {
                draw_time = DEFAULT_VBLANK_DRAW_TIME_MIN_COMPOSITING;
            }
            let decayed: u64 = if draw_time as i64 - (red_zone / 2) as i64
                > self.rolling_max_draw_time as i64 {
                draw_time
            } else {
                (DEFAULT_VBLANK_RATE_OF_DECAY_PERCENTAGE * self.rolling_max_draw_time + (
                VBLANK_RATE_OF_DECAY_MAX - DEFAULT_VBLANK_RATE_OF_DECAY_PERCENTAGE) * draw_time)
                    / VBLANK_RATE_OF_DECAY_MAX
            };
            let room: u64 = self.refresh_cycle_ns.saturating_sub(red_zone);
            let rolling: u64 = if decayed < room {
                decayed
            } else {
                room
            };
            if !self.preemptive {
                self.rolling_max_draw_time = rolling;
            }
            rolling + red_zone
        } else {
            if !self.preemptive {
                self.rolling_max_draw_time = STARTING_VBLANK_DRAW_TIME;
            }
            let draw_time: u64 = if self.currently_compositing {
                DEFAULT_VBLANK_DRAW_TIME_MIN_COMPOSITING
            } else {
                0
            };
            draw_time + VRR_FLUSHING_TIME
        }
    }

    /// Takes the next schedule: the explicit deadline, or the next wakeup point
    /// of the refresh cycle.
    pub fn calc_next_wakeup_time(&mut self, now_ns: u64) -> (schedule: VBlankScheduleTime)
        requires
            old(self)@.can_schedule(now_ns),
        ensures
            schedule == old(self)@.schedule(now_ns),
            final(self)@ == old(self)@.after_schedule(),
    {
        let ghost before = self@;
        if let Some(deadline) = self.deadline {
            self.deadline = None;
            return deadline;
        }
        let offset: u64 = self.next_offset();
        let interval: u64 = self.refresh_cycle_ns;
        proof {
            lemma_next_point_is_later(before.first_wakeup(), interval as int, now_ns as int);
        }
        let mut target_point: u64 = self.last_vblank + interval.saturating_sub(offset);
        while target_point < now_ns
            invariant
                interval == before.refresh_cycle_ns,
                offset == before.offset(),
                before.wakeup(now_ns) == next_point(
                    target_point as int,
                    interval as int,
                    now_ns as int,
                ),
                interval > 0 || target_point >= now_ns,
                before.wakeup(now_ns) + offset <= u64::MAX,
                target_point + offset <= u64::MAX,
            decreases
                    (if target_point < now_ns {
                        now_ns - target_point
                    } else {
                        0
                    }),
        {
            proof {
                lemma_next_point_is_later(
                    target_point + interval,
                    interval as int,
                    now_ns as int,
                );
            }
            target_point = target_point + interval;
        }
        VBlankScheduleTime {
            target_vblank: target_point + offset,
            scheduled_wakeup_point: target_point,
        }
    }

    /// Decides what the waiting thread does at `now_ns`.
    pub fn poll(&mut self, now_ns: u64) -> (action: NudgeAction)
        requires
            old(self)@.running && old(self)@.armed ==> old(self)@.can_schedule(now_ns),
        ensures
            ({
                let schedule = old(self)@.schedule(now_ns);
                let after = old(self)@.after_schedule();
                if !old(self)@.running {
                    action == NudgeAction::Exit && final(self)@ == old(self)@
                } else if !old(self)@.armed {
                    action == NudgeAction::WaitUntilArmed && final(self)@ == old(self)@
                } else if schedule.scheduled_wakeup_point <= now_ns || old(self)@.preemptive {
                    action == NudgeAction::Send(schedule) && final(self)@ == after.disarmed()
                } else {
                    &&& action == NudgeAction::Sleep {
                        schedule,
                        timeout: (schedule.scheduled_wakeup_point - now_ns) as u64,
                    }
                    &&& final(self)@ == after
                }
            }),
    {
        if !self.running {
            return NudgeAction::Exit;
        }
        if !self.armed {
            return NudgeAction::WaitUntilArmed;
        }
        let schedule: VBlankScheduleTime = self.calc_next_wakeup_time(now_ns);
        if schedule.scheduled_wakeup_point <= now_ns || self.preemptive {
            self.disarm();
            NudgeAction::Send(schedule)
        } else {
            NudgeAction::Sleep { schedule, timeout: schedule.scheduled_wakeup_point - now_ns }
        }
    }

    /// Records that a wakeup was sent.
    pub fn disarm(&mut self)
        ensures
            final(self)@ == old(self)@.disarmed(),
    {
        self.armed = false;
        self.preemptive = false;
    }
}

proof fn lemma_next_point_is_later(first: int, interval: int, now: int)
    ensures
        next_point(first, interval, now) >= first,
    decreases
            (if first < now {
                now - first
            } else {
                0
            }),
{
    if first < now && interval > 0 {
        lemma_next_point_is_later(first + interval, interval, now);
    }
}

/// The next point is the first one at or after `now`, a whole number of
/// intervals after the first point.
pub proof fn lemma_next_point(first: int, interval: int, now: int)
    requires
        interval > 0,
    ensures
        next_point(first, interval, now) >= now,
        next_point(first, interval, now) >= first,
        next_point(first, interval, now) == first || next_point(first, interval, now) - interval
            < now,
        exists|k: int|
            k >= 0 && #[trigger] (k * interval) == next_point(first, interval, now) - first,
    decreases
            (if first < now {
                now - first
            } else {
                0
            }),
{
    if first >= now {
        assert(0 * interval == 0);
    } else {
        lemma_next_point(first + interval, interval, now);
        let next = next_point(first, interval, now);
        let k = choose|k: int| k >= 0 && #[trigger] (k * interval) == next - (first + interval);
        assert((k + 1) * interval == k * interval + interval) by (nonlinear_arith);
    }
}

/// A computed schedule never lies in the past, and wakes up exactly the offset
/// before its vertical blank.
pub proof fn lemma_schedule_is_ahead(state: VBlankState, now: u64)
    requires
        state.can_schedule(now),
        state.deadline is None,
        state.refresh_cycle_ns > 0,
    ensures
        now <= state.schedule(now).scheduled_wakeup_point,
        state.schedule(now).target_vblank == state.schedule(now).scheduled_wakeup_point
            + state.offset(),
{
    lemma_next_point(state.first_wakeup(), state.refresh_cycle_ns as int, now as int);
}

/// At a fixed refresh rate whose cycle has room for the red zone, the target
/// lies a whole number of cycles after the last vertical blank.
pub proof fn lemma_target_is_aligned(state: VBlankState, now: u64)
    requires
        state.can_schedule(now),
        state.deadline is None,
        !state.vrr_active,
        state.refresh_cycle_ns > DEFAULT_VBLANK_RED_ZONE,
    ensures
        exists|k: int|
            k >= 1 && #[trigger] (k * state.refresh_cycle_ns) == state.schedule(now).target_vblank
                - state.last_vblank,
{
    let interval = state.refresh_cycle_ns as int;
    let first = state.first_wakeup();
    lemma_next_point(first, interval, now as int);
    let k = choose|k: int| k >= 0 && #[trigger] (k * interval) == state.wakeup(now) - first;
    assert((k + 1) * interval == k * interval + interval) by (nonlinear_arith);
    assert(state.offset() <= interval);
    assert(state.decayed_draw_time() >= 0);
}

/// The rolling maximum never exceeds the room that the red zone leaves, nor
/// the longer of its last value and the latest draw time.
pub proof fn lemma_rolling_is_bounded(state: VBlankState)
    requires
        state.refresh_cycle_ns > DEFAULT_VBLANK_RED_ZONE,
    ensures
        0 <= state.next_rolling() <= state.refresh_cycle_ns - DEFAULT_VBLANK_RED_ZONE,
        state.next_rolling() <= state.draw_time() || state.next_rolling()
            <= state.rolling_max_draw_time,
{
}

/// Draw times of less than half a year can always be weighed, and so can the
/// rolling maximum that follows from them.
pub proof fn lemma_weighing_stays_possible(state: VBlankState)
    requires
        state.last_draw_time <= u64::MAX / 1_000,
        state.rolling_max_draw_time <= u64::MAX / 1_000,
    ensures
        state.can_weigh(),
        state.after_schedule().rolling_max_draw_time <= u64::MAX / 1_000,
{
}

/// The time kept before a vertical blank at a fixed rate covers the red zone and the
/// draw time that is planned for: the last measured one, and for a composited frame
/// at least its minimum. One that is clearly longer than the rolling maximum counts
/// at once, as far as the cycle has room; any other is blended into it.
pub proof fn lemma_wakeup_leaves_time_to_draw(
    manager: &mut VBlankManager,
    now: u64,
    schedule: VBlankScheduleTime,
    planned: int,
)
    requires
        old(manager)@.can_schedule(now),
        call_ensures(VBlankManager::calc_next_wakeup_time, (manager, now), schedule),
        old(manager)@.deadline is None,
        !old(manager)@.vrr_active,
        planned >= old(manager)@.last_draw_time,
        old(manager)@.currently_compositing ==> planned >= 2_400_000,
        planned == old(manager)@.last_draw_time || (old(manager)@.currently_compositing && planned
            == 2_400_000),
    ensures
        ({
            let lead = schedule.target_vblank - schedule.scheduled_wakeup_point;
            let rolling = old(manager)@.rolling_max_draw_time;
            let cycle = old(manager)@.refresh_cycle_ns;
            &&& lead >= 1_650_000
            &&& cycle > 1_650_000 ==> lead <= cycle
            &&& cycle <= 1_650_000 ==> lead == 1_650_000
            &&& planned - 825_000 > rolling && cycle > 1_650_000 ==> lead == planned + 1_650_000 || (
            lead == cycle && planned + 1_650_000 > cycle)
            &&& planned - 825_000 <= rolling && cycle > 1_650_000 && lead < cycle ==> 1_000 * (lead
                - 1_650_000) <= 980 * rolling + 20 * planned < 1_000 * (lead - 1_650_000) + 1_000
            &&& planned - 825_000 <= rolling && cycle > 1_650_000 && lead == cycle ==> 980 * rolling
                + 20 * planned >= 1_000 * (cycle - 1_650_000)
            &&& old(manager)@.preemptive ==> final(manager)@ == old(manager)@
            &&& !old(manager)@.preemptive ==> final(manager)@.rolling_max_draw_time == lead
                - 1_650_000
        }),
        final(manager)@ == (VBlankState {
            rolling_max_draw_time: final(manager)@.rolling_max_draw_time,
            ..old(manager)@
        }),
{
    let state = old(manager)@;
    assert(state.draw_time() == planned);
    if state.refresh_cycle_ns > 0 {
        lemma_next_point(state.first_wakeup(), state.refresh_cycle_ns as int, now as int);
    }
    assert(state.decayed_draw_time() >= 0);
}

/// A measured draw time that is clearly longer than the rolling maximum is planned
/// for: the wakeup comes at least that time and the red zone before the vertical
/// blank, or a whole cycle before it where there is no more room.
pub proof fn lemma_long_frames_do_not_miss_their_blank(
    manager: &mut VBlankManager,
    now: u64,
    schedule: VBlankScheduleTime,
)
    requires
        old(manager)@.can_schedule(now),
        call_ensures(VBlankManager::calc_next_wakeup_time, (manager, now), schedule),
        old(manager)@.deadline is None,
        !old(manager)@.vrr_active,
        old(manager)@.last_draw_time > old(manager)@.rolling_max_draw_time + 825_000,
    ensures
        schedule.target_vblank - schedule.scheduled_wakeup_point >= old(manager)@.last_draw_time
            + 1_650_000 || schedule.target_vblank - schedule.scheduled_wakeup_point
            >= old(manager)@.refresh_cycle_ns,
{
    let state = old(manager)@;
    if state.refresh_cycle_ns > 0 {
        lemma_next_point(state.first_wakeup(), state.refresh_cycle_ns as int, now as int);
    }
}

/// At a variable rate only the time to flush is kept, and that to draw a composited
/// frame; and the rolling maximum starts over.
pub proof fn lemma_variable_rate_wakes_up_late(
    manager: &mut VBlankManager,
    now: u64,
    schedule: VBlankScheduleTime,
)
    requires
        old(manager)@.can_schedule(now),
        call_ensures(VBlankManager::calc_next_wakeup_time, (manager, now), schedule),
        old(manager)@.deadline is None,
        old(manager)@.vrr_active,
    ensures
        old(manager)@.currently_compositing ==> schedule.target_vblank
            - schedule.scheduled_wakeup_point == 2_700_000,
        !old(manager)@.currently_compositing ==> schedule.target_vblank
            - schedule.scheduled_wakeup_point == 300_000,
        old(manager)@.preemptive ==> final(manager)@ == old(manager)@,
        !old(manager)@.preemptive ==> final(manager)@.rolling_max_draw_time == 3_000_000,
        final(manager)@ == (VBlankState {
            rolling_max_draw_time: final(manager)@.rolling_max_draw_time,
            ..old(manager)@
        }),
{
    let state = old(manager)@;
    if state.refresh_cycle_ns > 0 {
        lemma_next_point(state.first_wakeup(), state.refresh_cycle_ns as int, now as int);
    }
}

/// A computed wakeup is the first one that is not in the past, a whole number of
/// cycles after the first one that follows the last vertical blank; where the cycle
/// has room, its target lies whole cycles after that blank. An explicit deadline is
/// taken as it is, and used up.
pub proof fn lemma_wakeup_is_the_next_one(
    manager: &mut VBlankManager,
    now: u64,
    schedule: VBlankScheduleTime,
)
    requires
        old(manager)@.can_schedule(now),
        call_ensures(VBlankManager::calc_next_wakeup_time, (manager, now), schedule),
        old(manager)@.refresh_cycle_ns > 0,
    ensures
        old(manager)@.deadline matches Some(deadline) ==> schedule == deadline && final(manager)@
            == (VBlankState { deadline: None, ..old(manager)@ }),
        old(manager)@.deadline is None ==> {
            let cycle = old(manager)@.refresh_cycle_ns as int;
            let last = old(manager)@.last_vblank;
            let lead = schedule.target_vblank - schedule.scheduled_wakeup_point;
            let first = if cycle > lead {
                last + cycle - lead
            } else {
                last as int
            };
            &&& schedule.scheduled_wakeup_point >= now
            &&& schedule.scheduled_wakeup_point == first || schedule.scheduled_wakeup_point - cycle
                < now
            &&& exists|k: int|
                k >= 0 && #[trigger] (k * cycle) == schedule.scheduled_wakeup_point - first
            &&& cycle >= lead ==> exists|k: int|
                k >= 1 && #[trigger] (k * cycle) == schedule.target_vblank - last
        },
{
    let state = old(manager)@;
    let interval = state.refresh_cycle_ns as int;
    lemma_next_point(state.first_wakeup(), interval, now as int);
    if state.deadline is None {
        let first = state.first_wakeup();
        let k = choose|k: int| k >= 0 && #[trigger] (k * interval) == state.wakeup(now) - first;
        assert((k + 1) * interval == k * interval + interval) by (nonlinear_arith);
    }
}

/// What the waiting thread does: it stops once the manager is stopped, waits while
/// nothing is asked for, sends what is due or preemptive and is disarmed by that, and
/// sleeps exactly until anything else is due.
pub proof fn lemma_waiting_thread_sends_on_time(
    manager: &mut VBlankManager,
    now: u64,
    action: NudgeAction,
)
    requires
        old(manager)@.running && old(manager)@.armed ==> old(manager)@.can_schedule(now),
        call_ensures(VBlankManager::poll, (manager, now), action),
    ensures
        action is Exit <==> !old(manager)@.running,
        action is WaitUntilArmed <==> old(manager)@.running && !old(manager)@.armed,
        action is Exit || action is WaitUntilArmed ==> final(manager)@ == old(manager)@,
        action matches NudgeAction::Send(schedule) ==> {
            &&& schedule.scheduled_wakeup_point <= now || old(manager)@.preemptive
            &&& !final(manager)@.armed && !final(manager)@.preemptive
            &&& final(manager)@.running
        },
        action matches NudgeAction::Sleep { schedule, timeout } ==> {
            &&& now + timeout == schedule.scheduled_wakeup_point
            &&& timeout > 0
            &&& !old(manager)@.preemptive
            &&& final(manager)@.armed && final(manager)@.running
        },
        (action is Send || action is Sleep) ==> (old(manager)@.deadline matches Some(deadline) ==> (
        action matches NudgeAction::Send(schedule) ==> schedule == deadline) && (
        action matches NudgeAction::Sleep { schedule, .. } ==> schedule == deadline)
            && final(manager)@.deadline is None),
        final(manager)@.last_vblank == old(manager)@.last_vblank,
        final(manager)@.refresh_cycle_ns == old(manager)@.refresh_cycle_ns,
        final(manager)@.last_draw_time == old(manager)@.last_draw_time,
        final(manager)@.vrr_active == old(manager)@.vrr_active,
        final(manager)@.currently_compositing == old(manager)@.currently_compositing,
{
}

/// Arming asks for a wakeup at the given time or the next computed one; a vertical
/// blank asks for a preemptive one only where it re-arms; stopping wakes up whoever
/// waits; and what is measured is remembered.
pub proof fn lemma_manager_remembers(
    armed: &mut VBlankManager,
    deadline: Option<VBlankScheduleTime>,
    preemptive: bool,
    marked: &mut VBlankManager,
    nanos: u64,
    re_arm: bool,
    stopped: &mut VBlankManager,
    drawn: &mut VBlankManager,
    composited: &mut VBlankManager,
    cycled: &mut VBlankManager,
    flag: bool,
    disarmed: &mut VBlankManager,
)
    requires
        call_ensures(VBlankManager::arm, (armed, deadline, preemptive), ()),
        call_ensures(VBlankManager::mark_vblank, (marked, nanos, re_arm), ()),
        call_ensures(VBlankManager::shutdown, (stopped,), ()),
        call_ensures(VBlankManager::update_last_draw_time, (drawn, nanos), ()),
        call_ensures(VBlankManager::update_compositing, (composited, flag), ()),
        call_ensures(VBlankManager::update_refresh_cycle, (cycled, nanos, flag), ()),
        call_ensures(VBlankManager::disarm, (disarmed,), ()),
    ensures
        final(armed)@ == (VBlankState { deadline, preemptive, armed: true, ..old(armed)@ }),
        final(marked)@.last_vblank == nanos,
        re_arm ==> final(marked)@.armed && final(marked)@.preemptive
            && final(marked)@.deadline is None,
        !re_arm ==> final(marked)@ == (VBlankState { last_vblank: nanos, ..old(marked)@ }),
        final(marked)@.rolling_max_draw_time == old(marked)@.rolling_max_draw_time,
        final(marked)@.last_draw_time == old(marked)@.last_draw_time,
        final(marked)@.running == old(marked)@.running,
        !final(stopped)@.running && final(stopped)@.armed,
        final(drawn)@ == (VBlankState { last_draw_time: nanos, ..old(drawn)@ }),
        final(composited)@ == (VBlankState { currently_compositing: flag, ..old(composited)@ }),
        final(cycled)@ == (VBlankState {
            refresh_cycle_ns: nanos,
            vrr_active: flag,
            ..old(cycled)@
        }),
        final(disarmed)@ == (VBlankState { armed: false, preemptive: false, ..old(disarmed)@ }),
{
}

/// A manager starts at 60 Hz with its clock at `now`, and assumes that frames take
/// three milliseconds.
pub proof fn lemma_new_manager(now: u64, manager: VBlankManager)
    requires
        call_ensures(VBlankManager::new, (now,), manager),
    ensures
        manager@.running && !manager@.armed && !manager@.vrr_active && !manager@.preemptive,
        manager@.deadline is None && manager@.last_vblank == now,
        !manager@.currently_compositing,
        60 * manager@.refresh_cycle_ns <= 1_000_000_000 < 60 * (manager@.refresh_cycle_ns + 1),
        manager@.last_draw_time == 3_000_000 && manager@.rolling_max_draw_time == 3_000_000,
{
}

} // verus!
