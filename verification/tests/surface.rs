use cosmic_comp::color::{
    apply_cursor_buffer_transform, is_scanout_compatible, is_surface_scanout_compatible,
    postprocess_intermediate_format, CursorEncoder, CursorTransformMode, CursorTransforms,
    ImageDescription, PlaneColorConversion, Primaries, PrimariesOption, ScanoutPlan,
    TransferFunction, ABGR2101010, ABGR8888, ARGB2101010, ARGB8888,
};
use cosmic_comp::device::{DrmNode, NodeType};
use cosmic_comp::frame::{
    ColorSetup, DrmEventTime, FrameContext, FrameStart, FullscreenFrame, PostprocessSource,
    Presentation, Refresh, SubmitResult, VBlankContext, VBlankMetadata,
};
use cosmic_comp::frame_flags::{allow_frame_flags, flags_on_hdr, flags_on_resume, FrameFlags, RenderSwitches};
use cosmic_comp::fullscreen::FullscreenOccupied;
use cosmic_comp::output::AdaptiveSync;
use cosmic_comp::queue::{
    estimated_vblank_delay, QueueState, RedrawContext, RedrawTimer, RenderStart,
};
use cosmic_comp::redraw::{
    Collection, Inspection, OffscreenPass, RedrawAction, RedrawEvent, RedrawPhase,
};
use cosmic_comp::surface_thread::{
    min_vrr_frame_rate, redraw_failure, resolve_vrr_target_rate, HdrOutputConfig,
    PostprocessOutputConfig, PostprocessTarget, RedrawFailure, SurfaceThreadState, ThreadCommand,
    ThreadContext, VrrInterval,
};

fn pq_desc() -> ImageDescription {
    ImageDescription {
        transfer: TransferFunction::St2084Pq,
        primaries: PrimariesOption {
            named: Some(Primaries::Bt2020),
            values: None,
        },
        ..ImageDescription::srgb()
    }
}

#[test]
fn sdr_surface_on_sdr_output_allows_scanout() {
    assert!(is_surface_scanout_compatible(false, None));
    assert!(is_surface_scanout_compatible(
        false,
        Some(&ImageDescription::srgb())
    ));
}

#[test]
fn hdr_surface_on_sdr_output_blocks_scanout() {
    assert!(!is_surface_scanout_compatible(false, Some(&pq_desc())));
    assert!(!is_surface_scanout_compatible(
        false,
        Some(&ImageDescription::windows_scrgb())
    ));
}

#[test]
fn pq_bt2020_surface_on_hdr_output_allows_scanout() {
    assert!(is_surface_scanout_compatible(true, Some(&pq_desc())));
    assert!(is_surface_scanout_compatible(
        true,
        Some(&ImageDescription::windows_bt2100())
    ));
}

#[test]
fn non_pq_surface_on_hdr_output_blocks_scanout() {
    // SDR on HDR output needs SDR->HDR expansion
    assert!(!is_surface_scanout_compatible(true, None));
    assert!(!is_surface_scanout_compatible(
        true,
        Some(&ImageDescription::srgb())
    ));

    // Extended linear scRGB on HDR output needs linear->PQ conversion
    assert!(!is_surface_scanout_compatible(
        true,
        Some(&ImageDescription::windows_scrgb())
    ));

    // HLG on PQ HDR output needs HLG->PQ conversion
    let hlg_desc = ImageDescription {
        transfer: TransferFunction::Hlg,
        primaries: PrimariesOption {
            named: Some(Primaries::Bt2020),
            values: None,
        },
        ..ImageDescription::srgb()
    };
    assert!(!is_surface_scanout_compatible(true, Some(&hlg_desc)));
}

#[test]
fn ranges_have_to_match() {
    assert!(is_scanout_compatible(true, true));
    assert!(is_scanout_compatible(false, false));
    assert!(!is_scanout_compatible(true, false));
    assert!(!is_scanout_compatible(false, true));
}

#[test]
fn only_gpu_conversion_keeps_surfaces_off_the_primary_plane() {
    let conversion = PlaneColorConversion::ScRgbToPq {
        reference_white: 203,
    };
    assert!(ScanoutPlan::DirectPassthrough.allows_primary_scanout());
    assert!(ScanoutPlan::PlaneColorop(conversion).allows_primary_scanout());
    assert!(ScanoutPlan::CrtcHardware(conversion).allows_primary_scanout());
    assert!(!ScanoutPlan::VulkanFastDirectFlip.allows_primary_scanout());
}

const NO_SWITCHES: RenderSwitches = RenderSwitches {
    fullscreen_skip_other_surface: true,
    fullscreen_skip_other_surface_always: false,
    disable_direct_scanout: false,
    disable_cursor_plane: false,
    disable_overlay_scanout: false,
};

fn start(fullscreen: Option<FullscreenOccupied>) -> FrameStart {
    FrameStart {
        fullscreen,
        drives_refresh_rate: false,
        scanout_plan: fullscreen.map(|occupied| occupied.scanout_plan),
        allow_primary_scanout: false,
        update_color: false,
        tearing: false,
    }
}

fn context(switches: RenderSwitches) -> FrameContext {
    FrameContext {
        switches,
        animations_going: false,
        past_min_render_time: true,
        composited_offscreen: false,
    }
}

fn thread(is_vulkan: bool) -> SurfaceThreadState {
    SurfaceThreadState::new(
        is_vulkan,
        DrmNode {
            dev: 1,
            node_type: NodeType::Render,
        },
        true,
        Some(60_000),
    )
}

#[test]
fn test_cursor_plane_scanout_flag_logic() {
    // 1. In compositing mode (allow_primary_scanout = false),
    // the cursor plane must be preserved in the effective flags!
    let base_flags = FrameFlags::default();
    assert!(base_flags.allow_cursor_plane_scanout);

    let mut state = thread(false);
    assert_eq!(state.frame_flags, base_flags);
    let effective_flags = state.plan_frame(start(None), false, context(NO_SWITCHES)).flags;
    assert!(
        effective_flags.allow_cursor_plane_scanout,
        "Cursor plane scanout must be allowed in normal compositing mode!"
    );
    assert!(
        !effective_flags.allow_primary_plane_scanout,
        "Primary plane scanout must be disabled when allow_primary_scanout is false"
    );

    // 2. Disabling the cursor plane strips it
    let no_cursor = RenderSwitches {
        disable_cursor_plane: true,
        ..NO_SWITCHES
    };
    let flags_without_cursor = state.plan_frame(start(None), false, context(no_cursor)).flags;
    assert!(
        !flags_without_cursor.allow_cursor_plane_scanout,
        "COSMIC_DISABLE_CURSOR_PLANE must remove cursor scanout"
    );

    // 3. Disabling direct scanout removes primary and overlay planes, but must
    // NOT remove cursor plane scanout!
    let no_direct = RenderSwitches {
        disable_direct_scanout: true,
        ..NO_SWITCHES
    };
    let flags_after_direct_disable = flags_on_resume(FrameFlags::default(), no_direct);
    assert!(
        flags_after_direct_disable.allow_cursor_plane_scanout,
        "COSMIC_DISABLE_DIRECT_SCANOUT must preserve hardware cursor plane scanout!"
    );
    assert!(!flags_after_direct_disable.allow_primary_plane_scanout);
    assert!(!flags_after_direct_disable.allow_overlay_plane_scanout);
}

#[test]
fn test_cursor_plane_transform_mode_and_scanout_preservation() {
    let active_plan = ScanoutPlan::CrtcHardware(PlaneColorConversion::ScRgbToPq {
        reference_white: 203,
    });
    let mut state = thread(false);
    state.active_scanout_plan = Some(active_plan);
    let effective_flags = state.plan_frame(start(None), false, context(NO_SWITCHES)).flags;
    assert!(
        effective_flags.allow_cursor_plane_scanout,
        "Cursor plane scanout must be preserved during CRTC color transformation because cursor is CPU-linearized!"
    );

    // SDR mode: Passthrough
    assert_eq!(
        CursorTransformMode::for_state(false, Some(active_plan), 203),
        CursorTransformMode::Passthrough
    );

    // HDR with CrtcHardware: LinearRec709
    assert_eq!(
        CursorTransformMode::for_state(true, Some(active_plan), 203),
        CursorTransformMode::LinearRec709
    );

    // HDR with DirectPassthrough: PqEncode
    assert_eq!(
        CursorTransformMode::for_state(true, Some(ScanoutPlan::DirectPassthrough), 203),
        CursorTransformMode::PqEncode { ref_white: 203 }
    );
}

#[test]
fn cursor_transform_is_set_once_per_change() {
    let direct = Some(ScanoutPlan::DirectPassthrough);
    let mut mode = None;
    assert_eq!(
        apply_cursor_buffer_transform(&mut mode, true, direct, 203),
        Some(CursorTransforms {
            buffer: Some(CursorEncoder::Pq { ref_white: 203 }),
            post_blend: Some(CursorEncoder::LinearRec709 { numerator: 203, denominator: 1_015 }),
        })
    );
    assert_eq!(mode, Some(CursorTransformMode::PqEncode { ref_white: 203 }));
    assert_eq!(apply_cursor_buffer_transform(&mut mode, true, direct, 203), None);
    let brighter = apply_cursor_buffer_transform(&mut mode, true, None, 300).unwrap();
    assert_eq!(brighter.buffer, Some(CursorEncoder::Pq { ref_white: 300 }));
    assert_eq!(
        apply_cursor_buffer_transform(&mut mode, false, None, 300),
        Some(CursorTransforms { buffer: None, post_blend: None })
    );
    assert_eq!(mode, Some(CursorTransformMode::Passthrough));
}

#[test]
fn cursors_are_linear_where_the_crtc_converts() {
    let conversion = PlaneColorConversion::ScRgbToPq {
        reference_white: 100,
    };
    let mut mode = None;
    assert_eq!(
        apply_cursor_buffer_transform(
            &mut mode,
            true,
            Some(ScanoutPlan::CrtcHardware(conversion)),
            100
        ),
        Some(CursorTransforms {
            buffer: Some(CursorEncoder::LinearRec709 { numerator: 1, denominator: 1 }),
            post_blend: Some(CursorEncoder::LinearRec709 { numerator: 100, denominator: 1_000 }),
        })
    );
    assert_eq!(mode, Some(CursorTransformMode::LinearRec709));
}

#[test]
fn test_vrr_target_rate_below_30hz_fallback_to_origin() {
    let origin_rate = 60_000;
    // Rates below 30Hz (30,000 mHz) must fallback to origin_rate
    assert_eq!(resolve_vrr_target_rate(0, origin_rate), origin_rate);
    assert_eq!(resolve_vrr_target_rate(24, origin_rate), origin_rate);
    assert_eq!(resolve_vrr_target_rate(24_000, origin_rate), origin_rate);
    assert_eq!(resolve_vrr_target_rate(29_970, origin_rate), origin_rate);
    assert_eq!(resolve_vrr_target_rate(29_999, origin_rate), origin_rate);

    // Rates at or above 30Hz (30,000 mHz) must be preserved
    assert_eq!(resolve_vrr_target_rate(30_000, origin_rate), 30_000);
    assert_eq!(resolve_vrr_target_rate(50_000, origin_rate), 50_000);
    assert_eq!(resolve_vrr_target_rate(60_000, origin_rate), 60_000);
    assert_eq!(resolve_vrr_target_rate(120_000, origin_rate), 120_000);
    assert_eq!(resolve_vrr_target_rate(144_000, origin_rate), 144_000);
}

fn occupied(plan: ScanoutPlan) -> FullscreenOccupied {
    FullscreenOccupied {
        scanout_plan: plan,
        ..FullscreenOccupied::new(7, false, false, false, None)
    }
}

#[test]
fn test_fullscreen_pacing_flag_logic() {
    let mut state = thread(false);
    let fullscreen = Some(occupied(ScanoutPlan::DirectPassthrough));
    let effective_flags = state.plan_frame(start(fullscreen), false, context(NO_SWITCHES)).flags;
    assert!(
        effective_flags.fullscreen_pacing,
        "FULLSCREEN_PACING must be set when has_active_fullscreen is true"
    );

    let effective_non_fs = state.plan_frame(start(None), false, context(NO_SWITCHES)).flags;
    assert!(
        !effective_non_fs.fullscreen_pacing,
        "FULLSCREEN_PACING must not be set when has_active_fullscreen is false"
    );
}

#[test]
fn hdr_postprocess_uses_sdr_intermediate_matching_channel_order() {
    assert_eq!(postprocess_intermediate_format(ABGR2101010, true), ABGR8888);
    assert_eq!(postprocess_intermediate_format(ARGB2101010, true), ARGB8888);
}

#[test]
fn non_ten_bit_postprocess_format_is_unchanged() {
    assert_eq!(
        postprocess_intermediate_format(ABGR2101010, false),
        ABGR2101010
    );
    assert_eq!(postprocess_intermediate_format(ABGR8888, true), ABGR8888);
}

#[test]
fn fourcc_codes_spell_their_names() {
    assert_eq!(ABGR2101010.to_le_bytes(), *b"AB30");
    assert_eq!(ARGB2101010.to_le_bytes(), *b"AR30");
    assert_eq!(ABGR8888.to_le_bytes(), *b"AB24");
    assert_eq!(ARGB8888.to_le_bytes(), *b"AR24");
}

const IDLE_CONTEXT: RedrawContext = RedrawContext {
    has_compositor: true,
    vrr: false,
    fullscreen_occupied: false,
    skip_other_surface: true,
    skip_other_surface_always: false,
    immediate_render: true,
    min_vrr_frame_time: None,
};

#[test]
fn a_queued_redraw_is_not_queued_twice() {
    let mut queue = QueueState::Idle;
    let timer = queue.queue_redraw(IDLE_CONTEXT, false, false);
    assert_eq!(
        timer,
        Some(RedrawTimer {
            start: RenderStart::NextRenderTime,
            force: false
        })
    );
    assert_eq!(queue.queued(1), None);
    assert_eq!(queue, QueueState::Queued(1));
    assert_eq!(queue.queue_redraw(IDLE_CONTEXT, false, false), None);

    let forced = queue.queue_redraw(IDLE_CONTEXT, true, false);
    assert!(forced.unwrap().force);
    assert_eq!(queue.queued(2), Some(1));
    assert_eq!(queue, QueueState::Queued(2));
}

#[test]
fn requests_wait_for_the_vertical_blank() {
    let mut queue = QueueState::Queued(1);
    assert_eq!(queue.frame_submitted(), None);
    assert_eq!(queue.queue_redraw(IDLE_CONTEXT, false, true), None);
    assert_eq!(
        queue,
        QueueState::WaitingForVBlank {
            redraw_needed: true,
            fullscreen_request: true
        }
    );
    // a later request does not take the fullscreen request back
    assert_eq!(queue.queue_redraw(IDLE_CONTEXT, true, false), None);
    assert!(matches!(queue.vblank(), Ok((true, true))));
    assert_eq!(queue, QueueState::Idle);
}

#[test]
fn other_surfaces_wait_for_a_fullscreen_surface() {
    let context = RedrawContext {
        vrr: true,
        fullscreen_occupied: true,
        min_vrr_frame_time: Some(20_000_000),
        ..IDLE_CONTEXT
    };
    let mut queue = QueueState::Idle;
    assert_eq!(
        queue.queue_redraw(context, false, false),
        Some(RedrawTimer {
            start: RenderStart::After(20_000_000),
            force: false
        })
    );
    let without_minimum = RedrawContext {
        min_vrr_frame_time: None,
        ..context
    };
    assert_eq!(
        queue.queue_redraw(without_minimum, false, false),
        Some(RedrawTimer {
            start: RenderStart::After(33_333_333),
            force: false
        })
    );
    assert_eq!(
        queue.queue_redraw(context, false, true),
        Some(RedrawTimer {
            start: RenderStart::After(0),
            force: true
        })
    );
}

#[test]
fn suspended_outputs_queue_nothing() {
    let mut queue = QueueState::Idle;
    let suspended = RedrawContext {
        has_compositor: false,
        ..IDLE_CONTEXT
    };
    assert_eq!(queue.queue_redraw(suspended, true, true), None);
    assert_eq!(queue, QueueState::Idle);
}

#[test]
fn estimated_blanks_keep_their_timer() {
    let mut queue = QueueState::Queued(1);
    assert!(queue.queue_estimated_vblank());
    queue.estimated_vblank_queued(2);
    assert_eq!(queue.queued(3), None);
    assert_eq!(
        queue,
        QueueState::WaitingForEstimatedVBlankAndQueued {
            estimated_vblank: 2,
            queued_render: 3
        }
    );
    // the redraw fires first and has nothing to show
    let mut empty = queue;
    assert!(!empty.queue_estimated_vblank());
    assert_eq!(empty, QueueState::WaitingForEstimatedVBlank(2));
    assert!(empty.estimated_vblank());
    assert_eq!(empty, QueueState::Idle);
    // or it submits a frame
    let mut submitted = queue;
    assert_eq!(submitted.frame_submitted(), Some(2));
    // or the blank comes first
    let mut blank = queue;
    assert!(!blank.estimated_vblank());
    assert_eq!(blank, QueueState::Queued(3));
    // or everything is dropped
    let mut cancelled = queue;
    assert_eq!(cancelled.cancel(), (vec![2, 3], false));
    let mut skipped = queue;
    assert_eq!(skipped.skip_vblank(), Some(2));
    assert_eq!(skipped, QueueState::Idle);
}

#[test]
fn stale_blanks_end_what_is_queued() {
    let mut queue = QueueState::WaitingForEstimatedVBlankAndQueued {
        estimated_vblank: 4,
        queued_render: 5,
    };
    assert!(matches!(queue.vblank(), Err(timers) if timers == vec![4, 5]));
    assert_eq!(queue, QueueState::Idle);
    assert_eq!(QueueState::default(), QueueState::Idle);
}

#[test]
fn estimated_blanks_are_never_immediate() {
    assert_eq!(estimated_vblank_delay(100, 40, 16), 60);
    assert_eq!(estimated_vblank_delay(40, 40, 16), 16);
    assert_eq!(estimated_vblank_delay(0, 40, 16), 16);
}

const THREAD_CONTEXT: ThreadContext = ThreadContext {
    startup_done: true,
    switches: NO_SWITCHES,
    immediate_render: false,
    fullscreen_occupied: false,
    current_rate: Some(144_000),
    origin_interval: None,
};

fn running(is_vulkan: bool) -> SurfaceThreadState {
    let mut state = thread(is_vulkan);
    let _ = state.handle_command(
        ThreadCommand::Resume {
            min_hz: Some(48),
            min_vrr_frame_time: 20_000_000,
        },
        THREAD_CONTEXT,
    );
    state
}

#[test]
fn new_threads_tonemap_sdr() {
    let state = thread(false);
    assert_eq!(state.hdr_config, Some(HdrOutputConfig::SdrTonemapping));
    assert_eq!(state.vrr_target_rate, 60_000);
    assert!(!state.has_compositor);
}

#[test]
fn hdr_keeps_elements_off_planes() {
    let mut state = running(false);
    let effects = state.handle_command(
        ThreadCommand::UpdateHdr {
            enabled: true,
            reference_white: 50,
            max_luminance: 60,
            hardware_offload: true,
        },
        THREAD_CONTEXT,
    );
    assert!(effects.reset_buffer_ages);
    assert!(effects.redraw.unwrap().force);
    assert_eq!(state.hdr_reference_white, 80);
    assert_eq!(state.hdr_max_luminance, 80);
    assert_eq!(
        state.hdr_config,
        Some(HdrOutputConfig::Hdr {
            reference_white: 80,
            max_luminance: 80,
            hardware_offload: true
        })
    );
    assert!(!state.frame_flags.allow_primary_plane_scanout);
    assert!(!state.frame_flags.allow_overlay_plane_scanout);
    assert!(state.frame_flags.allow_cursor_plane_scanout);

    // asking for planes does not help
    let _ = state.handle_command(
        ThreadCommand::AllowFrameFlags(true, FrameFlags::default()),
        THREAD_CONTEXT,
    );
    assert!(!state.frame_flags.allow_primary_plane_scanout);
    assert!(!state.frame_flags.allow_overlay_plane_scanout);

    // a filter encodes by itself
    let _ = state.handle_command(ThreadCommand::UpdateScreenFilter(false), THREAD_CONTEXT);
    assert_eq!(state.hdr_config, None);
}

#[test]
fn sdr_brings_the_planes_back() {
    let flags = flags_on_hdr(FrameFlags::empty(), false, NO_SWITCHES);
    assert_eq!(flags, FrameFlags::default());
    let no_overlay = RenderSwitches {
        disable_overlay_scanout: true,
        ..NO_SWITCHES
    };
    let flags = flags_on_hdr(FrameFlags::empty(), false, no_overlay);
    assert!(flags.allow_primary_plane_scanout);
    assert!(!flags.allow_overlay_plane_scanout);
    let flags = allow_frame_flags(FrameFlags::empty(), false, no_overlay, true, FrameFlags::default());
    assert!(!flags.allow_overlay_plane_scanout);
    assert!(flags.contains(FrameFlags::empty()));
    assert!(!FrameFlags::empty().contains(flags));
}

#[test]
fn suspending_drops_everything() {
    let mut state = running(false);
    let timer = state.handle_command(ThreadCommand::ScheduleRender(false), THREAD_CONTEXT);
    assert!(timer.redraw.is_some());
    assert_eq!(state.redraw_queued(9), None);
    let effects = state.handle_command(ThreadCommand::Suspend, THREAD_CONTEXT);
    assert_eq!(effects.remove_timers, vec![9]);
    assert!(effects.drop_compositor);
    assert!(!effects.discard_frame);
    assert_eq!(state.queue, QueueState::Idle);
    assert!(state
        .handle_command(ThreadCommand::ScheduleRender(true), THREAD_CONTEXT)
        .redraw
        .is_none());
}

#[test]
fn nothing_is_rendered_before_startup() {
    let mut state = running(false);
    let starting = ThreadContext {
        startup_done: false,
        ..THREAD_CONTEXT
    };
    assert!(state
        .handle_command(ThreadCommand::ScheduleRender(false), starting)
        .redraw
        .is_none());
}

#[test]
fn blanking_discards_the_frame_in_flight() {
    let mut state = running(false);
    state.queue = QueueState::WaitingForVBlank {
        redraw_needed: false,
        fullscreen_request: false,
    };
    let effects = state.handle_command(ThreadCommand::DpmsOff, THREAD_CONTEXT);
    assert!(effects.clear_display && effects.discard_frame);
    assert!(effects.remove_timers.is_empty());
    let effects = state.handle_command(ThreadCommand::DpmsOn, THREAD_CONTEXT);
    assert!(effects.restore_display);
    assert!(effects.redraw.is_some());

    let mut suspended = thread(false);
    let effects = suspended.handle_command(ThreadCommand::DpmsOff, THREAD_CONTEXT);
    assert!(!effects.clear_display);
}

#[test]
fn slow_rates_are_paced_at_the_mode() {
    let mut state = running(false);
    let effects = state.handle_command(ThreadCommand::UpdateVrrTargetRate(24_000), THREAD_CONTEXT);
    assert_eq!(state.vrr_target_rate, 144_000);
    assert_eq!(effects.vrr_interval, Some((VrrInterval::Rate(144_000), false)));

    let measured = ThreadContext {
        origin_interval: Some(6_944_444),
        ..THREAD_CONTEXT
    };
    let effects = state.handle_command(ThreadCommand::UpdateVrrTargetRate(24_000), measured);
    assert_eq!(
        effects.vrr_interval,
        Some((VrrInterval::Nanoseconds(6_944_444), false))
    );

    let modeless = ThreadContext {
        current_rate: Some(0),
        ..THREAD_CONTEXT
    };
    let _ = state.handle_command(ThreadCommand::UpdateVrrTargetRate(1), modeless);
    assert_eq!(state.vrr_target_rate, 60_000);
    let effects = state.handle_command(ThreadCommand::UpdateVrrTargetRate(48_000), THREAD_CONTEXT);
    assert_eq!(effects.vrr_interval, Some((VrrInterval::Rate(48_000), false)));
}

#[test]
fn remaining_commands_are_recorded() {
    let mut state = running(false);
    let _ = state.handle_command(ThreadCommand::UseAdaptiveSync(AdaptiveSync::Force), THREAD_CONTEXT);
    assert_eq!(state.vrr_mode, AdaptiveSync::Force);
    let _ = state.handle_command(ThreadCommand::UpdateMirroring(Some(3)), THREAD_CONTEXT);
    assert_eq!(state.mirroring, Some(3));
    assert_eq!(state.hdr_config, None);
    let query = state.handle_command(ThreadCommand::AdaptiveSyncAvailable, THREAD_CONTEXT);
    assert!(query.query_vrr);
    let end = state.handle_command(ThreadCommand::End, THREAD_CONTEXT);
    assert!(end.stop);
}

#[test]
fn low_framerate_compensation_is_avoided() {
    assert_eq!(min_vrr_frame_rate(None), 30);
    assert_eq!(min_vrr_frame_rate(Some(20)), 30);
    assert_eq!(min_vrr_frame_rate(Some(48)), 50);
}

#[test]
fn lost_devices_are_recognised() {
    assert_eq!(redraw_failure("Err(DeadDevice)", true), RedrawFailure::DeviceLost);
    assert_eq!(redraw_failure("vk: ERROR_DEVICE_LOST", false), RedrawFailure::DeviceLost);
    assert_eq!(redraw_failure("DeviceLost", false), RedrawFailure::DeviceLost);
    assert_eq!(redraw_failure("no memory", true), RedrawFailure::Fatal);
    assert_eq!(redraw_failure("no memory", false), RedrawFailure::Retry);
}

const VBLANK: VBlankContext = VBlankContext {
    thread: THREAD_CONTEXT,
    now: 1_000,
    has_feedback: true,
    mode_interval: Some(6_944_444),
    compositor_vrr: false,
    animations_going: false,
};

#[test]
fn presented_frames_report_hardware_time() {
    let mut state = running(false);
    state.queue = QueueState::WaitingForVBlank {
        redraw_needed: false,
        fullscreen_request: false,
    };
    assert!(state.awaits_vblank());
    let effects = state.on_vblank(
        Some(VBlankMetadata {
            time: DrmEventTime::Monotonic(900),
            sequence: 12,
        }),
        VBLANK,
    );
    assert_eq!(
        effects.presentation,
        Some(Presentation {
            time: 900,
            hw_clock: true,
            refresh: Refresh::Fixed(6_944_444),
            sequence: 12
        })
    );
    assert_eq!(state.last_sequence, Some(12));
    assert_eq!(effects.redraw, None);
    assert_eq!(effects.send_frames, Some(0));
    assert_eq!(state.queue, QueueState::Idle);
}

#[test]
fn realtime_stamps_are_replaced_by_now() {
    let mut state = running(false);
    state.queue = QueueState::WaitingForVBlank {
        redraw_needed: true,
        fullscreen_request: false,
    };
    let effects = state.on_vblank(
        Some(VBlankMetadata {
            time: DrmEventTime::Realtime(900),
            sequence: 12,
        }),
        VBlankContext {
            compositor_vrr: true,
            ..VBLANK
        },
    );
    let presentation = effects.presentation.unwrap();
    assert_eq!(presentation.time, 1_000);
    assert!(!presentation.hw_clock);
    assert_eq!(presentation.refresh, Refresh::Variable(6_944_444));
    assert!(effects.redraw.is_some());
}

#[test]
fn mirrored_outputs_report_nothing() {
    let mut state = running(false);
    state.mirroring = Some(1);
    state.queue = QueueState::WaitingForVBlank {
        redraw_needed: false,
        fullscreen_request: false,
    };
    let effects = state.on_vblank(None, VBLANK);
    assert_eq!(effects.presentation, None);
    assert_eq!(effects.send_frames, None);
    assert_eq!(state.last_sequence, None);
}

#[test]
fn animations_go_on_without_vrr() {
    let mut state = running(false);
    state.queue = QueueState::WaitingForEstimatedVBlank(3);
    let (redraw, frames) = state.on_estimated_vblank(false, true, THREAD_CONTEXT);
    assert!(redraw.is_some());
    assert_eq!(frames, Some(1));
    assert_eq!(state.frame_callback_seq, 1);

    state.vrr = true;
    state.queue = QueueState::WaitingForEstimatedVBlank(3);
    let (redraw, frames) = state.on_estimated_vblank(false, true, THREAD_CONTEXT);
    assert!(redraw.is_none());
    assert_eq!(frames, Some(2));

    state.queue = QueueState::WaitingForEstimatedVBlankAndQueued {
        estimated_vblank: 4,
        queued_render: 5,
    };
    assert_eq!(state.on_estimated_vblank(true, true, THREAD_CONTEXT), (None, None));
    assert_eq!(state.queue, QueueState::Queued(5));
}

fn config(width: i32) -> PostprocessOutputConfig {
    PostprocessOutputConfig {
        width,
        height: 1080,
        scale: 120,
    }
}

fn collection(source: i32) -> Collection {
    Collection {
        past_min_render_time: false,
        hides_cursor: false,
        own_config: config(1920),
        offscreen: PostprocessTarget {
            config: config(source),
            format: ABGR8888,
        },
    }
}

fn inspection(plan: Option<ScanoutPlan>) -> Inspection {
    Inspection {
        fullscreen: plan.map(|plan| FullscreenFrame {
            occupied: occupied(plan),
            frame_time: Some(10_000_000),
        }),
        animations_going: false,
        has_surface: true,
        is_direct: false,
        peak: Some(600),
        tearing_allowed: true,
    }
}

#[test]
fn a_plain_frame_runs_from_look_to_blank() {
    let mut state = running(false);
    state.queue = QueueState::Queued(1);
    let phase = state.begin_redraw().unwrap();
    let (phase, action) = state.redraw(phase, RedrawEvent::Inspected(inspection(None)), NO_SWITCHES);
    assert!(matches!(
        action,
        RedrawAction::Collect {
            crtc_refused: false,
            cursor: Some(CursorTransforms { buffer: None, post_blend: None }),
            take_copies: true
        }
    ));
    let (phase, action) = state.redraw(phase, RedrawEvent::Collected(collection(1920)), NO_SWITCHES);
    let RedrawAction::Render { plan, source } = action else {
        panic!("{action:?}");
    };
    assert_eq!(source, PostprocessSource::Direct);
    assert!(!plan.vrr && !plan.clear_transparent && !plan.skips_cursor_updates);
    let (phase, action) = state.redraw(
        phase,
        RedrawEvent::Rendered { is_swapchain: true, is_empty: false },
        NO_SWITCHES,
    );
    assert_eq!(
        action,
        RedrawAction::Submit {
            tearing: false,
            take_feedback: true,
            copy_first: false,
            window_copies: false,
            process_shm: false
        }
    );
    let (phase, action) = state.redraw(
        phase,
        RedrawEvent::Submitted(SubmitResult::Submitted),
        NO_SWITCHES,
    );
    assert_eq!(phase, RedrawPhase::Done);
    let RedrawAction::Finish { effects, look_again } = action else {
        panic!("{action:?}");
    };
    assert!(effects.commit_hdr && effects.signal_fifo && effects.send_render_states);
    assert_eq!(effects.send_frames, Some(1));
    assert!(!look_again);
    assert!(state.awaits_vblank());
}

#[test]
fn direct_scanout_sets_up_the_color_pipeline() {
    let mut state = running(true);
    state.hdr_enabled = true;
    state.vrr_mode = AdaptiveSync::Enabled;
    state.queue = QueueState::Queued(1);
    let conversion = PlaneColorConversion::ScRgbToPq {
        reference_white: 203,
    };
    let look = inspection(Some(ScanoutPlan::PlaneColorop(conversion)));
    let (phase, action) = state.redraw(RedrawPhase::Inspecting, RedrawEvent::Inspected(look), NO_SWITCHES);
    assert_eq!(
        action,
        RedrawAction::SetUpColor(ColorSetup::Plane { conversion, post_blend_peak: Some(600) })
    );
    let (phase, action) = state.redraw(
        phase,
        RedrawEvent::ColorSetUp { crtc_accepted: true },
        NO_SWITCHES,
    );
    assert!(matches!(action, RedrawAction::Collect { crtc_refused: false, .. }));
    let (_, action) = state.redraw(phase, RedrawEvent::Collected(collection(1920)), NO_SWITCHES);
    let RedrawAction::Render { plan, .. } = action else {
        panic!("{action:?}");
    };
    assert!(plan.allow_primary_scanout && plan.vrr && plan.skips_cursor_updates);
    assert!(plan.flags.allow_primary_plane_scanout_any);
    assert!(plan.flags.skip_cursor_only_updates && plan.flags.fullscreen_pacing);
    assert!(state.is_scanout);

    // the same surface needs no new setup
    let (_, action) = state.redraw(RedrawPhase::Inspecting, RedrawEvent::Inspected(look), NO_SWITCHES);
    assert!(matches!(action, RedrawAction::Collect { cursor: None, .. }));
}

#[test]
fn a_refusing_crtc_leaves_the_surface_to_the_gpu() {
    let mut state = running(true);
    let conversion = PlaneColorConversion::SrgbToPq {
        reference_white: 203,
    };
    let look = inspection(Some(ScanoutPlan::CrtcHardware(conversion)));
    let (phase, action) = state.redraw(RedrawPhase::Inspecting, RedrawEvent::Inspected(look), NO_SWITCHES);
    assert_eq!(action, RedrawAction::SetUpColor(ColorSetup::Crtc(conversion)));
    let (phase, action) = state.redraw(
        phase,
        RedrawEvent::ColorSetUp { crtc_accepted: false },
        NO_SWITCHES,
    );
    assert!(matches!(action, RedrawAction::Collect { crtc_refused: true, .. }));
    assert_eq!(state.active_scanout_plan, Some(ScanoutPlan::VulkanFastDirectFlip));
    assert!(!state.is_scanout);
    let (_, action) = state.redraw(phase, RedrawEvent::Collected(collection(1920)), NO_SWITCHES);
    assert!(matches!(action, RedrawAction::Render { plan, .. } if !plan.flags.allow_primary_plane_scanout));
}

#[test]
fn a_surface_without_content_is_not_converted() {
    let mut state = running(false);
    let conversion = PlaneColorConversion::SrgbToPq {
        reference_white: 203,
    };
    let look = Inspection {
        has_surface: false,
        ..inspection(Some(ScanoutPlan::PlaneColorop(conversion)))
    };
    let (phase, action) = state.redraw(RedrawPhase::Inspecting, RedrawEvent::Inspected(look), NO_SWITCHES);
    assert_eq!(action, RedrawAction::SetUpColor(ColorSetup::RemovePlanes));
    let _ = state.redraw(phase, RedrawEvent::ColorSetUp { crtc_accepted: true }, NO_SWITCHES);
    assert_eq!(state.active_scanout_plan, None);
    assert!(!state.is_scanout);
}

#[test]
fn filters_are_applied_offscreen() {
    let mut state = running(false);
    state.filter_is_noop = false;
    let (phase, _) = state.redraw(
        RedrawPhase::Inspecting,
        RedrawEvent::Inspected(inspection(Some(ScanoutPlan::DirectPassthrough))),
        NO_SWITCHES,
    );
    let (phase, _) = state.redraw(phase, RedrawEvent::ColorSetUp { crtc_accepted: true }, NO_SWITCHES);
    assert!(!state.is_scanout);
    let (phase, action) = state.redraw(phase, RedrawEvent::Collected(collection(1920)), NO_SWITCHES);
    assert_eq!(action, RedrawAction::MakeOffscreen(collection(1920).offscreen));
    assert!(state.needs_offscreen(collection(1920).offscreen));
    let (phase, action) = state.redraw(phase, RedrawEvent::OffscreenMade, NO_SWITCHES);
    let pass = OffscreenPass { source: PostprocessSource::Own, cursor_apart: false };
    assert_eq!(action, RedrawAction::Composite(pass));
    let (phase, action) = state.redraw(phase, RedrawEvent::Composited, NO_SWITCHES);
    assert!(matches!(action, RedrawAction::Render { source: PostprocessSource::Own, .. }));
    let (phase, action) = state.redraw(phase, RedrawEvent::Failed, NO_SWITCHES);
    assert_eq!(phase, RedrawPhase::Done);
    assert_eq!(action, RedrawAction::Abandon { void_buffers: true });
    // the buffer is still there, and fits only what it was made for
    assert!(!state.needs_offscreen(collection(1920).offscreen));
    assert!(state.needs_offscreen(collection(1280).offscreen));
}

/// Redraws filtered content up to what follows from its elements.
fn collect_filtered(state: &mut SurfaceThreadState, collection: Collection) -> (RedrawPhase, RedrawAction) {
    let (phase, action) = state.redraw(
        RedrawPhase::Inspecting,
        RedrawEvent::Inspected(inspection(None)),
        NO_SWITCHES,
    );
    assert!(matches!(action, RedrawAction::Collect { .. }));
    state.redraw(phase, RedrawEvent::Collected(collection), NO_SWITCHES)
}

#[test]
fn a_buffer_that_could_not_be_made_is_asked_for_again() {
    let mut state = running(false);
    state.filter_is_noop = false;
    for _ in 0..2 {
        let (phase, action) = collect_filtered(&mut state, collection(1920));
        assert_eq!(action, RedrawAction::MakeOffscreen(collection(1920).offscreen));
        let before = state;
        let (_, action) = state.redraw(phase, RedrawEvent::Failed, NO_SWITCHES);
        assert_eq!(action, RedrawAction::Abandon { void_buffers: false });
        assert_eq!(state, before);
        assert_eq!(state.postprocess, None);
    }
    let (phase, _) = collect_filtered(&mut state, collection(1920));
    let (phase, action) = state.redraw(phase, RedrawEvent::OffscreenMade, NO_SWITCHES);
    assert!(matches!(action, RedrawAction::Composite(_)));
    // a failed pass leaves the buffer, which is used again
    let (_, action) = state.redraw(phase, RedrawEvent::Failed, NO_SWITCHES);
    assert_eq!(action, RedrawAction::Abandon { void_buffers: false });
    let (_, action) = collect_filtered(&mut state, collection(1920));
    assert!(matches!(action, RedrawAction::Composite(_)));
    // a buffer that could not be replaced stays
    let (phase, action) = collect_filtered(&mut state, collection(1280));
    assert_eq!(action, RedrawAction::MakeOffscreen(collection(1280).offscreen));
    let _ = state.redraw(phase, RedrawEvent::Failed, NO_SWITCHES);
    let (_, action) = collect_filtered(&mut state, collection(1920));
    assert!(matches!(action, RedrawAction::Composite(_)));
}

#[test]
fn a_frame_that_cannot_be_finished_is_given_up() {
    let mut state = running(false);
    state.queue = QueueState::Queued(1);
    let (phase, _) = state.redraw(
        RedrawPhase::Inspecting,
        RedrawEvent::Inspected(inspection(None)),
        NO_SWITCHES,
    );
    let collecting = phase;
    let (phase, action) = state.redraw(collecting, RedrawEvent::Failed, NO_SWITCHES);
    assert_eq!(phase, RedrawPhase::Done);
    assert_eq!(action, RedrawAction::Abandon { void_buffers: false });
    let (phase, _) = state.redraw(collecting, RedrawEvent::Collected(collection(1920)), NO_SWITCHES);
    let (phase, _) = state.redraw(
        phase,
        RedrawEvent::Rendered { is_swapchain: true, is_empty: false },
        NO_SWITCHES,
    );
    let (_, action) = state.redraw(phase, RedrawEvent::Failed, NO_SWITCHES);
    assert_eq!(action, RedrawAction::Abandon { void_buffers: false });
    assert_eq!(state.queue, QueueState::Queued(1));
}

#[test]
fn hidden_cursors_are_composited_apart() {
    let hiding = Collection { hides_cursor: true, ..collection(1920) };
    let mut state = running(false);
    state.filter_is_noop = false;
    state.offscreen_made(hiding.offscreen);
    let (_, action) = collect_filtered(&mut state, hiding);
    let pass = OffscreenPass { source: PostprocessSource::Own, cursor_apart: true };
    assert_eq!(action, RedrawAction::Composite(pass));

    assert!(state.composites_cursor_apart(PostprocessSource::Own, true));
    assert!(!state.composites_cursor_apart(PostprocessSource::Own, false));
    assert!(!state.composites_cursor_apart(PostprocessSource::Direct, true));
    state.mirroring = Some(2);
    assert!(!state.composites_cursor_apart(PostprocessSource::Mirrored, true));
}

#[test]
fn window_captures_wait_while_mirroring() {
    for (is_vulkan, mirroring, takes) in [
        (true, None, true),
        (true, Some(2), false),
        (false, None, false),
        (false, Some(2), false),
    ] {
        let mut state = running(is_vulkan);
        state.mirroring = mirroring;
        assert_eq!(state.takes_window_captures(), takes);
    }
}

#[test]
fn offscreen_content_is_shown_on_transparent_black() {
    let mut state = running(false);
    state.filter_is_noop = false;
    let (phase, _) = state.redraw(
        RedrawPhase::Inspecting,
        RedrawEvent::Inspected(inspection(None)),
        NO_SWITCHES,
    );
    let (phase, _) = state.redraw(phase, RedrawEvent::Collected(collection(1920)), NO_SWITCHES);
    let (phase, _) = state.redraw(phase, RedrawEvent::OffscreenMade, NO_SWITCHES);
    let (_, action) = state.redraw(phase, RedrawEvent::Composited, NO_SWITCHES);
    assert!(matches!(action, RedrawAction::Render { plan, .. } if plan.clear_transparent));
}

#[test]
fn frames_tear_where_the_surface_prefers_it() {
    for is_vulkan in [false, true] {
        for (allowed, fullscreen, prefers_async) in [
            (true, true, true),
            (false, true, true),
            (true, false, true),
            (true, true, false),
        ] {
            let mut look = inspection(Some(ScanoutPlan::DirectPassthrough));
            look.tearing_allowed = allowed;
            look.fullscreen = look.fullscreen.filter(|_| fullscreen).map(|frame| FullscreenFrame {
                occupied: FullscreenOccupied { prefers_async, ..frame.occupied },
                ..frame
            });
            let mut state = running(is_vulkan);
            let (mut phase, mut action) =
                state.redraw(RedrawPhase::Inspecting, RedrawEvent::Inspected(look), NO_SWITCHES);
            if matches!(action, RedrawAction::SetUpColor(_)) {
                (phase, _) = state.redraw(
                    phase,
                    RedrawEvent::ColorSetUp { crtc_accepted: true },
                    NO_SWITCHES,
                );
            }
            (phase, _) = state.redraw(phase, RedrawEvent::Collected(collection(1920)), NO_SWITCHES);
            (_, action) = state.redraw(
                phase,
                RedrawEvent::Rendered { is_swapchain: true, is_empty: false },
                NO_SWITCHES,
            );
            assert_eq!(
                action,
                RedrawAction::Submit {
                    tearing: allowed && fullscreen && prefers_async,
                    take_feedback: true,
                    copy_first: is_vulkan,
                    window_copies: is_vulkan,
                    process_shm: is_vulkan
                }
            );
        }
    }
}

#[test]
fn mirrored_content_is_scaled_offscreen() {
    let mut state = running(false);
    state.mirroring = Some(2);
    assert_eq!(
        state.postprocess_source(config(1280), config(1920)),
        PostprocessSource::Mirrored
    );
    assert_eq!(
        state.postprocess_source(config(1920), config(1920)),
        PostprocessSource::Direct
    );
}

#[test]
fn empty_frames_wait_for_an_estimated_blank() {
    let mut state = running(false);
    state.queue = QueueState::Queued(1);
    let effects = state.frame_submitted(SubmitResult::Empty);
    assert!(effects.needs_vblank_timer && effects.send_render_states);
    assert!(!effects.signal_fifo && !effects.commit_hdr);
    state.estimated_vblank_queued(2);
    assert_eq!(state.queue, QueueState::WaitingForEstimatedVBlank(2));
}

#[test]
fn vulkan_goes_on_at_once_with_vrr() {
    let mut state = running(true);
    state.vrr = true;
    state.fullscreen = Some(occupied(ScanoutPlan::DirectPassthrough));
    state.queue = QueueState::WaitingForEstimatedVBlankAndQueued {
        estimated_vblank: 1,
        queued_render: 2,
    };
    let effects = state.frame_submitted(SubmitResult::Empty);
    assert_eq!(effects.remove_timer, Some(1));
    assert!(effects.send_fullscreen_frames && effects.signal_fifo);
    assert!(!effects.needs_vblank_timer);
    assert_eq!(state.queue, QueueState::Idle);
    assert_eq!(state.frame_callback_seq, 1);
}

#[test]
fn empty_fullscreen_frames_come_in_any_state_with_vrr() {
    for queue in [
        QueueState::Idle,
        QueueState::WaitingForVBlank { redraw_needed: true, fullscreen_request: false },
    ] {
        let mut state = running(true);
        state.vrr = true;
        state.fullscreen = Some(occupied(ScanoutPlan::DirectPassthrough));
        state.queue = queue;
        let effects = state.frame_submitted(SubmitResult::Empty);
        assert_eq!(effects.remove_timer, None);
        assert!(effects.send_fullscreen_frames);
        assert_eq!(state.queue, QueueState::Idle);
    }
}

#[test]
fn failed_frames_change_nothing() {
    let mut state = running(false);
    state.queue = QueueState::Queued(1);
    let before = state;
    let effects = state.frame_submitted(SubmitResult::Failed);
    assert!(effects.fail_copies);
    assert_eq!(state, before);
    assert!(!running(true).frame_submitted(SubmitResult::Failed).fail_copies);
}

#[test]
fn hdr_prepared_while_suspended_is_in_force_on_resume() {
    let mut state = thread(true);
    let update = state.handle_command(
        ThreadCommand::UpdateHdr {
            enabled: true,
            reference_white: 300,
            max_luminance: 900,
            hardware_offload: false,
        },
        THREAD_CONTEXT,
    );
    assert!(update.redraw.is_none() && !update.reset_buffer_ages);
    let resume = state.handle_command(
        ThreadCommand::Resume {
            min_hz: None,
            min_vrr_frame_time: 33_333_333,
        },
        THREAD_CONTEXT,
    );
    assert!(resume.redraw.is_none());
    assert_eq!(
        state.hdr_config,
        Some(HdrOutputConfig::Hdr {
            reference_white: 300,
            max_luminance: 900,
            hardware_offload: false
        })
    );
    assert!(state.accepts_renderer(true) && !state.accepts_renderer(false));
}
