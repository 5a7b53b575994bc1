use cosmic_comp::color::{ImageDescription, ScanoutPlan, ScanoutTarget};
use cosmic_comp::device::{DrmNode, NodeType};
use cosmic_comp::dmabuf::DrmFormat;
use cosmic_comp::frame_flags::FrameFlags;
use cosmic_comp::fullscreen::{
    surface_tree_color_description, surface_tree_is_hdr, surface_tree_is_yuv,
    surface_tree_prefers_async, FullscreenOccupied, FullscreenState, OccupiedUpdate, RemapRequest,
    ScanoutQuery, TreeSurface,
};
use cosmic_comp::hdr_output::HdrSinkCapabilities;
use cosmic_comp::kms_thread::KmsThreadHandle;
use cosmic_comp::output::{AdaptiveSync, ClearedSurface, Output, OutputState, VrrSupport};
use cosmic_comp::surface::{
    emergency_shutdown_hdr_surfaces, surface_reaction, HdrSurfaceRegistry, Surface, SurfaceCommand,
    SurfaceReaction,
};
use cosmic_comp::surface_thread::ThreadCommand;

#[test]
fn panels_of_portable_devices_are_internal() {
    for (name, internal) in [
        ("eDP-1", true),
        ("LVDS-2", true),
        ("DSI-1", true),
        ("DP-1", false),
        ("eDP", false),
    ] {
        assert_eq!(Output::new(name.to_string()).is_internal(), internal, "{name}");
    }
}

#[test]
fn adaptive_sync_is_read_back() {
    let mut output = Output::new("DP-1".to_string());
    assert_eq!(output.adaptive_sync(), AdaptiveSync::Disabled);
    for vrr in [AdaptiveSync::Force, AdaptiveSync::Enabled, AdaptiveSync::Disabled] {
        output.set_adaptive_sync(vrr);
        assert_eq!(output.adaptive_sync(), vrr);
    }
    output.vrr = Some(77);
    assert_eq!(output.adaptive_sync(), AdaptiveSync::Disabled);

    assert_eq!(output.adaptive_sync_support(), None);
    for support in [
        Some(VrrSupport::Supported),
        Some(VrrSupport::RequiresModeset),
        Some(VrrSupport::NotSupported),
        None,
    ] {
        output.set_adaptive_sync_support(support);
        assert_eq!(output.adaptive_sync_support(), support);
    }
    output.vrr_support = Some(77);
    assert_eq!(output.adaptive_sync_support(), Some(VrrSupport::NotSupported));
}

#[test]
fn outputs_remember_their_settings() {
    let mut output = Output::new("DP-1".to_string());
    assert!(!output.is_enabled());
    output.state = Some(OutputState::Disabled);
    assert!(!output.is_enabled());
    output.state = Some(OutputState::Mirroring);
    assert!(output.is_enabled());

    output.set_vrr_target_rate(Some(48_000));
    assert_eq!(output.vrr_target_rate(), Some(48_000));
    output.set_mirroring(Some(3));
    assert_eq!(output.mirroring(true), Some(3));
    assert_eq!(output.mirroring(false), None);
    output.set_avg_frametime(Some(8_000_000));
    assert_eq!(output.get_avg_frametime(), Some(8_000_000));
}

#[test]
fn fifo_surfaces_are_cleared_once() {
    let mut output = Output::new("DP-1".to_string());
    output.fifo_barrier(1, 10, 100);
    output.fifo_barrier(2, 11, 101);
    output.fifo_barrier(3, 10, 102);
    let (barriers, surfaces) = output.signal_fifo();
    assert_eq!(barriers, vec![1, 2, 3]);
    assert_eq!(
        surfaces,
        vec![
            ClearedSurface { surface: 10, client: 100 },
            ClearedSurface { surface: 11, client: 101 },
        ]
    );
    assert_eq!(output.signal_fifo(), (vec![], vec![]));
}

fn tree_surface() -> TreeSurface {
    TreeSurface {
        prefers_async: false,
        description: None,
        renderer_is_ycbcr: None,
        new_buffer_is_ycbcr: false,
    }
}

#[test]
fn trees_are_searched_for_hints() {
    let plain = vec![tree_surface(), tree_surface()];
    assert!(!surface_tree_prefers_async(&plain));
    assert!(!surface_tree_is_hdr(&plain));
    assert!(!surface_tree_is_yuv(&plain));
    assert_eq!(surface_tree_color_description(&plain), None);

    let rich = vec![
        tree_surface(),
        TreeSurface {
            description: Some(ImageDescription::windows_scrgb()),
            renderer_is_ycbcr: Some(false),
            ..tree_surface()
        },
        TreeSurface {
            prefers_async: true,
            description: Some(ImageDescription::windows_bt2100()),
            new_buffer_is_ycbcr: true,
            ..tree_surface()
        },
    ];
    assert!(surface_tree_prefers_async(&rich));
    assert!(surface_tree_is_hdr(&rich));
    assert!(surface_tree_is_yuv(&rich));
    assert_eq!(
        surface_tree_color_description(&rich),
        Some(ImageDescription::windows_scrgb())
    );
    let decoded = vec![TreeSurface {
        renderer_is_ycbcr: Some(true),
        ..tree_surface()
    }];
    assert!(surface_tree_is_yuv(&decoded));
}

const HDR: ScanoutTarget = ScanoutTarget {
    hdr_enabled: true,
    reference_white: 203,
    peak_luminance: Some(600),
};

#[test]
fn pq_content_is_remapped_to_the_sink() {
    let pq = ImageDescription::windows_bt2100();
    let query = ScanoutQuery::new(Some(pq), false, HDR, true);
    assert_eq!(
        query.remap,
        Some(RemapRequest {
            description: pq,
            peak: 600,
            reference_white: 203
        })
    );
    let remapped = ImageDescription {
        max_cll: Some(600),
        ..pq
    };
    assert_eq!(query.color_description(remapped), Some(remapped));

    let off = ScanoutQuery::new(Some(pq), false, HDR, false);
    assert_eq!(off.remap, None);
    assert_eq!(off.color_description(remapped), Some(pq));
    let unknown_peak = ScanoutTarget {
        peak_luminance: None,
        ..HDR
    };
    assert_eq!(ScanoutQuery::new(Some(pq), false, unknown_peak, true).remap, None);
    let srgb = ImageDescription::srgb();
    assert_eq!(ScanoutQuery::new(Some(srgb), false, HDR, true).remap, None);
}

#[test]
fn setting_the_same_surface_changes_nothing() {
    let mut state = FullscreenState::new();
    let scrgb = ImageDescription::windows_scrgb();
    let next = FullscreenOccupied::new(5, true, true, false, Some(scrgb));
    assert!(next.tearing() && next.is_hdr());
    assert_eq!(next.effective_scanout_plan(), ScanoutPlan::DirectPassthrough);
    assert_eq!(
        state.set_fullscreen_occupied(true, None, None, false, HDR, true),
        OccupiedUpdate::Keep
    );
    let OccupiedUpdate::Plan(query) =
        state.set_fullscreen_occupied(false, Some(next), None, true, HDR, true)
    else {
        panic!("a new surface needs a plan");
    };
    assert!(query.is_yuv);
    state.occupy(next, query, query.color_description(scrgb), ScanoutPlan::VulkanFastDirectFlip);
    assert_eq!(
        state.set_fullscreen_occupied(true, Some(next), None, true, HDR, true),
        OccupiedUpdate::Keep
    );
    assert!(matches!(
        state.set_fullscreen_occupied(false, Some(next), None, true, HDR, true),
        OccupiedUpdate::Plan(_)
    ));
    let occupied = state.is_foreground_fullscreen_occupied(true).unwrap();
    assert_eq!(occupied.scanout_plan, ScanoutPlan::VulkanFastDirectFlip);
    assert!(occupied.is_yuv);
    assert_eq!(state.is_foreground_fullscreen_occupied(false), None);
    assert_eq!(
        state.set_fullscreen_occupied(true, None, None, false, HDR, true),
        OccupiedUpdate::Clear
    );
    state.clear();
    assert_eq!(state.entry, None);
}

#[test]
fn changed_content_is_planned_again() {
    let mut state = FullscreenState::new();
    let next = FullscreenOccupied::new(5, false, false, false, None);
    assert_eq!(
        state.refresh_fullscreen_occupied_flags(true, false, None, false, HDR, true),
        None
    );
    let query = ScanoutQuery::new(None, false, HDR, true);
    state.occupy(next, query, None, ScanoutPlan::DirectPassthrough);
    assert_eq!(
        state.refresh_fullscreen_occupied_flags(true, false, None, false, HDR, true),
        None
    );
    let brighter = ScanoutTarget {
        peak_luminance: Some(1_000),
        ..HDR
    };
    let query = state
        .refresh_fullscreen_occupied_flags(true, true, None, false, brighter, true)
        .unwrap();
    assert_eq!(
        state.refresh_fullscreen_occupied_flags(false, true, None, false, brighter, true),
        None
    );
    // another surface took over meanwhile
    let mut other = state;
    other.refresh(true, 6, true, query, None, ScanoutPlan::VulkanFastDirectFlip);
    assert_eq!(other, state);

    state.refresh(true, 5, true, query, None, ScanoutPlan::VulkanFastDirectFlip);
    let entry = state.entry.unwrap();
    assert_eq!(entry.cached_peak, Some(1_000));
    assert!(entry.prefers_async);
    assert_eq!(
        state.refresh_fullscreen_occupied_flags(true, true, None, false, brighter, true),
        None
    );
    state.set_fullscreen_scanout_plan(ScanoutPlan::DirectPassthrough);
    assert_eq!(state.entry.unwrap().scanout_plan, ScanoutPlan::DirectPassthrough);
}

fn node(dev: u64) -> DrmNode {
    DrmNode {
        dev,
        node_type: NodeType::Render,
    }
}

#[test]
fn surfaces_are_only_scheduled_while_on() {
    let mut surface = Surface::new(1, 2, false, 1);
    assert_eq!(surface.schedule_render(), Some(ThreadCommand::ScheduleRender(false)));
    assert_eq!(
        surface.schedule_render_fullscreen(),
        Some(ThreadCommand::ScheduleRender(true))
    );
    assert_eq!(surface.set_dpms(true), None);
    assert_eq!(surface.set_dpms(false), Some(ThreadCommand::DpmsOff));
    assert!(!surface.get_dpms());
    assert_eq!(surface.schedule_render(), None);
    assert_eq!(surface.set_dpms(false), None);
    assert_eq!(surface.set_dpms(true), Some(ThreadCommand::DpmsOn));
}

#[test]
fn prepared_hdr_reaches_the_thread_unchanged() {
    let mut surface = Surface::new(1, 2, false, 1);
    assert_eq!(surface.hdr_rendering(), (false, 203));
    let command = surface.prepare_hdr_rendering(true, 20_000, true);
    assert_eq!(
        command,
        ThreadCommand::UpdateHdr {
            enabled: true,
            reference_white: 10_000,
            max_luminance: 10_000,
            hardware_offload: true
        }
    );
    surface.hdr_sink_capabilities = Some(HdrSinkCapabilities {
        max_luminance: 600,
        min_luminance: 1,
        max_frame_average_luminance: 300,
    });
    let ThreadCommand::UpdateHdr { reference_white, max_luminance, .. } =
        surface.prepare_hdr_rendering(true, 203, false)
    else {
        panic!("HDR is updated");
    };
    assert_eq!((reference_white, max_luminance), (203, 600));
    assert_eq!(surface.hdr_rendering(), (true, 203));
}

#[test]
fn adaptive_sync_counts_once_it_was_sent() {
    let mut surface = Surface::new(1, 2, false, 1);
    assert!(surface.adaptive_sync_update_required(AdaptiveSync::Enabled));
    surface.use_adaptive_sync(AdaptiveSync::Enabled, false);
    assert!(surface.adaptive_sync_update_required(AdaptiveSync::Enabled));
    surface.use_adaptive_sync(AdaptiveSync::Enabled, true);
    assert!(!surface.adaptive_sync_update_required(AdaptiveSync::Enabled));

    assert_eq!(
        surface.set_vrr_target_rate(24_000, Some(75_000)),
        ThreadCommand::UpdateVrrTargetRate(75_000)
    );
    assert_eq!(
        surface.set_vrr_target_rate(24_000, None),
        ThreadCommand::UpdateVrrTargetRate(60_000)
    );
    assert_eq!(
        surface.allow_frame_flags(true, FrameFlags::empty()),
        ThreadCommand::AllowFrameFlags(true, FrameFlags::empty())
    );
    assert_eq!(surface.set_mirroring(Some(4)), ThreadCommand::UpdateMirroring(Some(4)));
    assert_eq!(surface.set_screen_filter(true), ThreadCommand::UpdateScreenFilter(true));
}

#[test]
fn suspended_surfaces_are_not_active() {
    let mut surface = Surface::new(1, 2, false, 1);
    assert!(!surface.is_active());
    let resume = ThreadCommand::Resume {
        min_hz: Some(48),
        min_vrr_frame_time: 20_833_333,
    };
    assert_eq!(surface.resume(vec![], None, Some(48), 20_833_333), resume);
    assert!(surface.is_active());
    assert_eq!(surface.suspend(), ThreadCommand::Suspend);
    assert!(!surface.is_active());
}

#[test]
fn surfaces_leave_nothing_behind() {
    let mut registry = HdrSurfaceRegistry::new();
    let first = registry.register_hdr_surface(70);
    let second = registry.register_hdr_surface(71);
    let routes = KmsThreadHandle::new().register(2, 70).register(3, 71);
    let surface = Surface::new(1, 2, false, first);
    let (routes, command) = surface.begin_shutdown(&routes, &mut registry);
    assert_eq!(command, ThreadCommand::End);
    assert_eq!(routes.receiver(2), None);
    assert_eq!(routes.receiver(3), Some(71));
    assert_eq!(
        emergency_shutdown_hdr_surfaces(&registry),
        vec![(71, ThreadCommand::End)]
    );
    let other = Surface::new(4, 3, true, second);
    let (routes, _) = other.begin_shutdown(&routes, &mut registry);
    assert_eq!(routes.receiver(3), None);
    assert!(emergency_shutdown_hdr_surfaces(&registry).is_empty());
}

#[test]
fn feedback_is_kept_per_device() {
    let mut surface = Surface::new(1, 2, false, 1);
    assert_eq!(surface.add_node(node(1)), ThreadCommand::NodeAdded(node(1)));
    let _ = surface.add_node(node(2));
    assert_eq!(surface.known_nodes().len(), 2);
    // a device that is known already is not listed twice
    assert_eq!(surface.add_node(node(1)), ThreadCommand::NodeAdded(node(1)));
    assert_eq!(surface.known_nodes(), &vec![node(1), node(2)]);
    let format = |code| DrmFormat { code, modifier: 0 };
    let _ = surface.resume(vec![format(1), format(2)], None, None, 1);
    assert!(surface.cached_feedback(node(1)).is_none());
    // nothing is known of a device without formats
    assert!(!surface.provide_feedback(node(1), node(1), true, None, vec![]));
    assert!(surface.cached_feedback(node(1)).is_none());
    for dev in [1, 2] {
        assert!(surface.provide_feedback(
            node(dev),
            node(1),
            dev == 1,
            Some(vec![format(2)]),
            vec![format(3)],
        ));
    }
    let feedback = surface.cached_feedback(node(2)).unwrap();
    assert_eq!(feedback.primary_scanout_feedback.tranches[1].formats, vec![format(2)]);
    // what is kept is not computed again
    assert!(surface.provide_feedback(node(2), node(1), false, None, vec![]));
    assert_eq!(
        surface.cached_feedback(node(2)).unwrap().render_feedback.main_device,
        2
    );
    assert_eq!(surface.remove_node(node(2)), ThreadCommand::NodeRemoved(node(2)));
    assert!(surface.cached_feedback(node(2)).is_none());
    assert!(surface.cached_feedback(node(1)).is_some());
    assert_eq!(surface.known_nodes(), &vec![node(1)]);

    let _ = surface.resume(vec![], None, None, 1);
    assert!(surface.is_active() && surface.get_dpms());
    assert!(surface.cached_feedback(node(1)).is_none());
}

#[test]
fn every_registered_thread_is_stopped() {
    let mut registry = HdrSurfaceRegistry::new();
    let first = registry.register_hdr_surface(70);
    let second = registry.register_hdr_surface(71);
    assert_eq!((first, second), (1, 2));
    assert_eq!(
        emergency_shutdown_hdr_surfaces(&registry),
        vec![(70, ThreadCommand::End), (71, ThreadCommand::End)]
    );
    registry.unregister(first);
    assert_eq!(
        emergency_shutdown_hdr_surfaces(&registry),
        vec![(71, ThreadCommand::End)]
    );
    assert_eq!(registry.register_hdr_surface(72), 3);
}

#[test]
fn reports_of_mirrored_outputs_are_ignored() {
    assert_eq!(
        surface_reaction(SurfaceCommand::SendFrames(4), true, 0),
        SurfaceReaction::Ignore
    );
    assert_eq!(
        surface_reaction(SurfaceCommand::SendFrames(4), false, 0),
        SurfaceReaction::SendFrames(4)
    );
    assert_eq!(
        surface_reaction(SurfaceCommand::RenderStates, true, 0),
        SurfaceReaction::Ignore
    );
    assert_eq!(
        surface_reaction(SurfaceCommand::RenderStates, false, 0),
        SurfaceReaction::UpdateSurfaces
    );
    assert_eq!(
        surface_reaction(SurfaceCommand::SignalFIFO, true, 0),
        SurfaceReaction::SignalFifo
    );
    assert_eq!(
        surface_reaction(SurfaceCommand::ProcessShmScreencopy, false, 0),
        SurfaceReaction::Ignore
    );
    assert_eq!(
        surface_reaction(SurfaceCommand::ProcessShmScreencopy, false, 2),
        SurfaceReaction::ProcessCaptures
    );
    assert_eq!(
        surface_reaction(SurfaceCommand::FatalRenderError, false, 0),
        SurfaceReaction::Stop
    );
    assert_eq!(
        surface_reaction(SurfaceCommand::DeviceLost(node(1)), true, 0),
        SurfaceReaction::RecoverDevice(node(1))
    );
}
