use cosmic_comp::vblank_manager::{NudgeAction, VBlankManager, VBlankScheduleTime};

#[test]
fn wakeups_leave_room_for_drawing() {
    let mut manager = VBlankManager::new(1_000);
    manager.arm(None, false);
    // 3 ms of drawing and the red zone before the blank at 16.667666 ms
    let schedule = manager.calc_next_wakeup_time(2_000);
    assert_eq!(schedule.target_vblank, 1_000 + 16_666_666);
    assert_eq!(schedule.scheduled_wakeup_point, 1_000 + 16_666_666 - 4_650_000);
}

#[test]
fn missed_blanks_are_skipped() {
    let mut manager = VBlankManager::new(0);
    let now = 100_000_000;
    let schedule = manager.calc_next_wakeup_time(now);
    assert!(schedule.scheduled_wakeup_point >= now);
    assert!(schedule.scheduled_wakeup_point < now + 16_666_666);
    assert_eq!(schedule.target_vblank % 16_666_666, 0);
}

#[test]
fn long_draws_raise_the_rolling_maximum_at_once() {
    let mut manager = VBlankManager::new(0);
    manager.update_last_draw_time(8_000_000);
    let schedule = manager.calc_next_wakeup_time(0);
    assert_eq!(schedule.scheduled_wakeup_point, 16_666_666 - 9_650_000);
    // shorter ones let it decay: (980 * 8 ms + 20 * 1 ms) / 1000
    manager.update_last_draw_time(1_000_000);
    let schedule = manager.calc_next_wakeup_time(0);
    assert_eq!(schedule.scheduled_wakeup_point, 16_666_666 - 7_860_000 - 1_650_000);
}

#[test]
fn compositing_takes_its_minimum() {
    let mut manager = VBlankManager::new(0);
    manager.update_last_draw_time(0);
    manager.update_compositing(true);
    // (980 * 3 ms + 20 * 2.4 ms) / 1000
    let schedule = manager.calc_next_wakeup_time(0);
    assert_eq!(schedule.scheduled_wakeup_point, 16_666_666 - 2_988_000 - 1_650_000);
}

#[test]
fn draw_times_never_exceed_the_cycle() {
    let mut manager = VBlankManager::new(0);
    manager.update_refresh_cycle(6_944_444, false);
    manager.update_last_draw_time(50_000_000);
    let schedule = manager.calc_next_wakeup_time(0);
    assert_eq!(schedule.scheduled_wakeup_point, 0);
    assert_eq!(schedule.target_vblank, 6_944_444);
}

#[test]
fn variable_rates_only_flush() {
    let mut manager = VBlankManager::new(0);
    manager.update_refresh_cycle(10_000_000, true);
    let schedule = manager.calc_next_wakeup_time(0);
    assert_eq!(schedule.scheduled_wakeup_point, 10_000_000 - 300_000);
    manager.update_compositing(true);
    let schedule = manager.calc_next_wakeup_time(0);
    assert_eq!(schedule.scheduled_wakeup_point, 10_000_000 - 2_700_000);
}

#[test]
fn explicit_deadlines_are_used_once() {
    let deadline = VBlankScheduleTime {
        target_vblank: 900,
        scheduled_wakeup_point: 800,
    };
    let mut manager = VBlankManager::new(0);
    manager.arm(Some(deadline), false);
    assert_eq!(manager.calc_next_wakeup_time(5), deadline);
    assert_ne!(manager.calc_next_wakeup_time(5), deadline);
}

#[test]
fn the_thread_waits_sleeps_and_sends() {
    let mut manager = VBlankManager::new(0);
    assert_eq!(manager.poll(0), NudgeAction::WaitUntilArmed);
    let deadline = VBlankScheduleTime {
        target_vblank: 900,
        scheduled_wakeup_point: 800,
    };
    manager.arm(Some(deadline), false);
    assert_eq!(
        manager.poll(300),
        NudgeAction::Sleep {
            schedule: deadline,
            timeout: 500
        }
    );
    manager.disarm();
    assert_eq!(manager.poll(800), NudgeAction::WaitUntilArmed);

    manager.arm(Some(deadline), false);
    assert_eq!(manager.poll(800), NudgeAction::Send(deadline));
    assert_eq!(manager.poll(800), NudgeAction::WaitUntilArmed);

    // a marked blank asks for a wakeup at once
    manager.mark_vblank(1_000, true);
    assert!(matches!(manager.poll(1_000), NudgeAction::Send(_)));
    manager.mark_vblank(2_000, false);
    assert_eq!(manager.poll(2_000), NudgeAction::WaitUntilArmed);

    manager.shutdown();
    assert_eq!(manager.poll(2_000), NudgeAction::Exit);
}
