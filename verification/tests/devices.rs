use cosmic_comp::connector::{
    calculate_refresh_rate, edid_blob, get_max_bpc, get_minimum_refresh_rate, get_prop,
    get_property_val, interface_name, panel_orientation, set_max_bpc, ConnectorInterface,
    DisplayDescriptor, InvalidRangeLimits, MaxBpcError, ModeTiming, PanelOrientationError,
    Property, PropertyContent, PropertyError, PropertyInfo,
};
use cosmic_comp::device::{DrmNode, NodeType};
use cosmic_comp::dmabuf::{
    format_intersection, get_surface_dmabuf_feedback, render_node_for_output, DmabufFormats,
    DrmFormat, TrancheFlags, WorkspaceWindows,
};
use cosmic_comp::drm_helpers::{
    cleanup_planes, disable_crtcs, display_configuration, ConnectorEncoders, CrtcMap, CrtcShutdown,
    PlaneState, ProbedConnector, PropertyChange, ResetProperty, ResetValue,
};
use cosmic_comp::frame::{DrmEventTime, VBlankMetadata};
use cosmic_comp::geometry::Transform;
use cosmic_comp::kms_thread::{
    poll_step, route_events, Delivery, DrmEvent, KmsThreadHandle, PollResult, PollStep, POLLERR,
    POLLHUP, POLLIN,
};
use cosmic_comp::vulkan_backend::GbmVulkanBackend;

fn probed(handle: u32, connected: bool, crtc: Option<u32>) -> ProbedConnector {
    ProbedConnector {
        handle,
        connected,
        crtc,
    }
}

fn encoders(handle: u32, connected: bool, possible: &[&[u32]]) -> ConnectorEncoders {
    ConnectorEncoders {
        handle,
        connected,
        possible_crtcs: possible.iter().map(|crtcs| crtcs.to_vec()).collect(),
    }
}

#[test]
fn established_mappings_are_kept() {
    let first = vec![
        probed(1, true, Some(10)),
        probed(2, false, Some(11)),
        probed(3, true, None),
        probed(4, true, None),
        probed(5, false, None),
    ];
    let second = vec![
        encoders(1, true, &[&[11]]),
        encoders(2, false, &[&[10]]),
        encoders(3, true, &[&[10], &[10, 11]]),
        encoders(4, true, &[&[10, 11]]),
        encoders(5, false, &[&[12]]),
    ];
    let configuration = display_configuration(&first, &second);
    assert_eq!(configuration.map.get(1), Some(Some(10)));
    assert_eq!(configuration.map.get(2), None);
    assert_eq!(configuration.map.get(3), Some(Some(11)));
    assert_eq!(configuration.map.get(4), Some(None));
    assert_eq!(configuration.map.get(5), None);
    assert_eq!(configuration.cleanup, vec![11]);
    assert_eq!(
        configuration.map.to_vec(),
        vec![(1, Some(10)), (3, Some(11)), (4, None)]
    );
}

#[test]
fn crtc_maps_replace_entries() {
    let mut map = CrtcMap::new();
    map.insert(1, Some(5));
    map.insert(2, None);
    assert!(map.has_crtc(5));
    map.insert(1, Some(6));
    assert!(!map.has_crtc(5) && map.has_crtc(6));
    assert_eq!(map.get(1), Some(Some(6)));
    assert_eq!(map.get(3), None);
}

fn change(object: u32, property: ResetProperty, value: ResetValue) -> PropertyChange {
    PropertyChange {
        object,
        property,
        value,
    }
}

fn plane(handle: u32, crtc: Option<u32>, primary: bool) -> PlaneState {
    PlaneState {
        handle,
        crtc,
        primary,
    }
}

#[test]
fn leftover_planes_are_detached() {
    let planes = vec![
        plane(30, Some(10), true),
        plane(31, Some(10), false),
        plane(32, Some(11), false),
        plane(33, None, false),
    ];
    assert_eq!(
        cleanup_planes(&planes, &vec![11]),
        vec![
            change(31, ResetProperty::CrtcId, ResetValue::NoCrtc),
            change(31, ResetProperty::FbId, ResetValue::NoFramebuffer),
        ]
    );
    assert!(cleanup_planes(&planes, &vec![10, 11]).is_empty());
}

#[test]
fn disabled_crtcs_lose_connectors_and_planes() {
    let connectors = vec![probed(1, true, Some(10)), probed(2, false, Some(11)), probed(3, true, None)];
    let planes = vec![plane(30, Some(10), true), plane(31, Some(11), true)];
    let CrtcShutdown::Atomic(changes) = disable_crtcs(&vec![11], true, &connectors, &planes) else {
        panic!("an atomic device is changed atomically");
    };
    assert_eq!(
        changes,
        vec![
            change(2, ResetProperty::CrtcId, ResetValue::NoCrtc),
            change(31, ResetProperty::CrtcId, ResetValue::NoCrtc),
            change(31, ResetProperty::FbId, ResetValue::NoFramebuffer),
            change(11, ResetProperty::Active, ResetValue::Boolean(false)),
            change(11, ResetProperty::ModeId, ResetValue::Unknown(0)),
        ]
    );
    assert!(matches!(
        disable_crtcs(&vec![11, 12], false, &connectors, &planes),
        CrtcShutdown::Legacy(crtcs) if crtcs == vec![11, 12]
    ));
    assert!(matches!(
        disable_crtcs(&Vec::new(), true, &connectors, &planes),
        CrtcShutdown::Nothing
    ));
    assert_eq!(ResetProperty::CrtcId.name(), "CRTC_ID");
    assert_eq!(ResetProperty::FbId.name(), "FB_ID");
    assert_eq!(ResetProperty::Active.name(), "ACTIVE");
    assert_eq!(ResetProperty::ModeId.name(), "MODE_ID");
}

#[test]
fn connectors_are_named_by_kind_and_number() {
    assert_eq!(interface_name(&ConnectorInterface::HDMIA, 1), "HDMI-A-1");
    assert_eq!(interface_name(&ConnectorInterface::HDMIB, 2), "HDMI-B-2");
    assert_eq!(interface_name(&ConnectorInterface::DisplayPort, 10), "DP-10");
    assert_eq!(interface_name(&ConnectorInterface::EmbeddedDisplayPort, 1), "eDP-1");
    assert_eq!(interface_name(&ConnectorInterface::DVII, 3), "DVI-I-3");
    assert_eq!(interface_name(&ConnectorInterface::DVID, 3), "DVI-D-3");
    assert_eq!(interface_name(&ConnectorInterface::DVIA, 3), "DVI-A-3");
    assert_eq!(interface_name(&ConnectorInterface::SVideo, 0), "S-VIDEO-0");
    assert_eq!(interface_name(&ConnectorInterface::Other("LVDS".into()), 1), "LVDS-1");
}

fn property(handle: u32, name: &str, content: PropertyContent) -> Property {
    Property {
        handle,
        info: Some(PropertyInfo {
            name: Some(name.to_string()),
            content,
        }),
    }
}

fn bpc(min: u64, max: u64, value: u64) -> Property {
    property(5, "max bpc", PropertyContent::UnsignedRange { min, max, value })
}

#[test]
fn properties_are_found_by_name() {
    let props = vec![
        Property {
            handle: 1,
            info: Some(PropertyInfo {
                name: None,
                content: PropertyContent::Other,
            }),
        },
        property(2, "EDID", PropertyContent::Blob(77)),
        Property {
            handle: 3,
            info: None,
        },
        property(4, "type", PropertyContent::Enum(Some(1))),
    ];
    assert_eq!(get_prop(&props, "EDID"), Ok(2));
    assert_eq!(edid_blob(&props), Ok(Some(77)));
    assert_eq!(get_prop(&props, "type"), Err(PropertyError::Unreadable(3)));
    assert_eq!(get_prop(&Vec::new(), "type"), Err(PropertyError::NotFound));
    assert_eq!(get_property_val(&props, "EDID"), Ok(PropertyContent::Blob(77)));
    let no_blob = vec![property(2, "EDID", PropertyContent::Other)];
    assert_eq!(edid_blob(&no_blob), Ok(None));
    assert_eq!(edid_blob(&Vec::new()), Err(PropertyError::NotFound));
}

#[test]
fn max_bpc_is_held_to_its_range() {
    let props = vec![bpc(6, 12, 8)];
    assert_eq!(get_max_bpc(&props), Ok(Some((8, 6..12))));
    assert_eq!(set_max_bpc(&props, 10), Ok(10));
    assert_eq!(set_max_bpc(&props, 16), Ok(12));
    assert_eq!(set_max_bpc(&props, 1), Ok(6));

    assert_eq!(get_max_bpc(&Vec::new()), Ok(None));
    assert_eq!(set_max_bpc(&Vec::new(), 10), Err(MaxBpcError::Missing));
    let wrong = vec![property(5, "max bpc", PropertyContent::Other)];
    assert_eq!(get_max_bpc(&wrong), Err(MaxBpcError::WrongValueType));
    assert_eq!(set_max_bpc(&wrong, 10), Err(MaxBpcError::WrongValueType));
    // an unreadable property hides those behind it
    let hidden = vec![
        Property {
            handle: 1,
            info: None,
        },
        bpc(6, 12, 8),
    ];
    assert_eq!(get_max_bpc(&hidden), Ok(None));
    // values are cut to 32 bits
    assert_eq!(get_max_bpc(&vec![bpc(0, 1 << 32, (1 << 32) + 7)]), Ok(Some((7, 0..0))));
}

#[test]
fn refresh_rates_are_in_millihertz() {
    let full_hd = ModeTiming {
        clock: 148_500,
        htotal: 2_200,
        vtotal: 1_125,
        vscan: 0,
        interlace: false,
        dblscan: false,
    };
    assert_eq!(calculate_refresh_rate(full_hd), 60_000);
    assert_eq!(calculate_refresh_rate(ModeTiming { clock: 148_352, ..full_hd }), 59_940);
    assert_eq!(calculate_refresh_rate(ModeTiming { interlace: true, ..full_hd }), 120_000);
    assert_eq!(calculate_refresh_rate(ModeTiming { dblscan: true, ..full_hd }), 30_000);
    assert_eq!(calculate_refresh_rate(ModeTiming { vscan: 3, ..full_hd }), 20_000);
    assert_eq!(calculate_refresh_rate(ModeTiming { vscan: 1, ..full_hd }), 60_000);
}

#[test]
fn minimum_rates_come_from_range_limits() {
    assert_eq!(get_minimum_refresh_rate(&Vec::new()), Ok(None));
    assert_eq!(
        get_minimum_refresh_rate(&vec![
            DisplayDescriptor::Other,
            DisplayDescriptor::RangeLimits(Some(48)),
            DisplayDescriptor::RangeLimits(Some(40)),
        ]),
        Ok(Some(48))
    );
    assert_eq!(
        get_minimum_refresh_rate(&vec![DisplayDescriptor::RangeLimits(None)]),
        Err(InvalidRangeLimits)
    );
}

#[test]
fn panels_report_how_they_are_mounted() {
    let mounted = |content| panel_orientation(&vec![property(9, "panel orientation", content)]);
    assert_eq!(mounted(PropertyContent::Enum(Some(0))), Ok(Transform::Normal));
    assert_eq!(mounted(PropertyContent::Enum(Some(1))), Ok(Transform::_180));
    assert_eq!(mounted(PropertyContent::Enum(Some(2))), Ok(Transform::_90));
    assert_eq!(mounted(PropertyContent::Enum(Some(3))), Ok(Transform::_270));
    assert_eq!(
        mounted(PropertyContent::Enum(Some(4))),
        Err(PanelOrientationError::InvalidValue(4))
    );
    assert_eq!(
        mounted(PropertyContent::Enum(None)),
        Err(PanelOrientationError::WrongValueType)
    );
    assert_eq!(
        panel_orientation(&Vec::new()),
        Err(PanelOrientationError::Property(PropertyError::NotFound))
    );
}

#[test]
fn each_crtc_has_one_receiver() {
    let routes = KmsThreadHandle::new().register(1, 100).register(2, 200).register(1, 101);
    assert_eq!(routes.receiver(1), Some(101));
    assert_eq!(routes.receiver(2), Some(200));
    let routes = routes.unregister(1);
    assert_eq!(routes.receiver(1), None);
    assert_eq!(routes.receiver(2), Some(200));
}

#[test]
fn events_go_to_the_receivers_of_their_crtc() {
    let routes = KmsThreadHandle::new().register(1, 100);
    let events = vec![
        DrmEvent::PageFlip { crtc: 1, duration: 5, frame: 9 },
        DrmEvent::Unknown,
        DrmEvent::PageFlip { crtc: 2, duration: 6, frame: 9 },
        DrmEvent::Vblank { crtc: 1, time: 7, frame: 10 },
    ];
    let delivery = |time, sequence| Delivery {
        receiver: 100,
        metadata: VBlankMetadata { time, sequence },
    };
    assert_eq!(
        route_events(&events, &routes, true),
        vec![
            delivery(DrmEventTime::Monotonic(5), 9),
            delivery(DrmEventTime::Monotonic(7), 10),
        ]
    );
    assert_eq!(
        route_events(&events, &routes, false)[0],
        delivery(DrmEventTime::Realtime(5), 9)
    );
}

#[test]
fn polling_ends_on_stop_and_hangup() {
    let step = |receive, exit| PollStep { receive, exit };
    assert_eq!(poll_step(PollResult::Failed { interrupted: true }), step(false, false));
    assert_eq!(poll_step(PollResult::Failed { interrupted: false }), step(false, true));
    assert_eq!(poll_step(PollResult::Ready { device: POLLIN, stop: POLLIN }), step(false, true));
    assert_eq!(poll_step(PollResult::Ready { device: POLLIN, stop: 0 }), step(true, false));
    assert_eq!(
        poll_step(PollResult::Ready { device: POLLIN | POLLHUP, stop: 0 }),
        step(true, true)
    );
    assert_eq!(poll_step(PollResult::Ready { device: POLLERR, stop: 0 }), step(false, true));
    assert_eq!(poll_step(PollResult::Ready { device: 0, stop: 2 }), step(false, false));
}

fn node(dev: u64) -> DrmNode {
    DrmNode {
        dev,
        node_type: NodeType::Render,
    }
}

#[test]
fn renderers_are_handed_out_once() {
    let mut backend = GbmVulkanBackend::new();
    assert!(!backend.needs_enumeration());
    assert!(GbmVulkanBackend::default().needs_enumeration());
    assert!(backend.add_node(node(1)));
    assert!(!backend.add_node(node(1)));
    assert!(backend.add_node(node(2)));
    assert!(backend.needs_enumeration());
    assert_eq!(backend.current_devices(), vec![node(1), node(2)]);

    let (list, stayed) = backend.enumerate(&vec![node(2), node(3)]);
    assert_eq!((list, stayed), (vec![node(2), node(1)], 1));
    assert!(!backend.needs_enumeration());
    // the renderer of the second device is still there, that of the first is not
    let (list, stayed) = backend.enumerate(&Vec::new());
    assert_eq!((list, stayed), (vec![node(2)], 0));

    backend.remove_node(node(3));
    assert!(!backend.needs_enumeration());
    backend.remove_node(node(2));
    assert!(backend.needs_enumeration());
    let (list, _) = backend.enumerate(&vec![node(1), node(2)]);
    assert_eq!(list, vec![node(1)]);
}

fn format(code: u32) -> DrmFormat {
    DrmFormat { code, modifier: 0 }
}

#[test]
fn scanout_formats_can_be_rendered() {
    let formats = DmabufFormats {
        render: vec![format(1), format(2)],
        target: vec![format(2), format(3)],
        primary_plane: vec![format(4), format(2)],
        overlay_plane: Some(vec![format(1)]),
    };
    assert_eq!(
        format_intersection(&formats.primary_plane, &formats.render),
        vec![format(2)]
    );
    let feedback = get_surface_dmabuf_feedback(node(1), node(2), false, &formats);
    assert_eq!(feedback.render_feedback.main_device, 1);
    assert_eq!(feedback.render_feedback.formats, formats.render);
    assert_eq!(feedback.render_feedback.tranches.len(), 1);
    let sampling = &feedback.render_feedback.tranches[0];
    assert_eq!((sampling.device, sampling.flags), (2, TrancheFlags::Sampling));
    assert_eq!((sampling.min_version, sampling.max_version), (6, 6));
    assert_eq!(sampling.formats, formats.target);
    let scanout = &feedback.primary_scanout_feedback.tranches[1];
    assert_eq!((scanout.device, scanout.flags), (2, TrancheFlags::Scanout));
    assert_eq!((scanout.min_version, scanout.max_version), (4, 6));
    assert_eq!(scanout.formats, vec![format(2)]);
    let overlay = feedback.overlay_scanout_feedback.unwrap();
    assert_eq!(overlay.tranches[1].formats, vec![format(1)]);

    let same = get_surface_dmabuf_feedback(
        node(1),
        node(1),
        true,
        &DmabufFormats {
            overlay_plane: None,
            ..formats
        },
    );
    assert!(same.render_feedback.tranches.is_empty());
    assert!(same.overlay_scanout_feedback.is_none());
    assert_eq!(same.primary_scanout_feedback.tranches.len(), 1);
}

#[test]
fn content_elsewhere_is_rendered_on_the_primary_device() {
    let windows = |fullscreen: &[Option<bool>], mapped: &[Option<bool>]| WorkspaceWindows {
        fullscreen: fullscreen.to_vec(),
        mapped: mapped.to_vec(),
    };
    let choose = |workspace: &WorkspaceWindows| {
        render_node_for_output(node(1), node(2), false, Some(workspace))
    };
    assert_eq!(choose(&windows(&[], &[])), node(2));
    assert_eq!(choose(&windows(&[], &[None])), node(2));
    assert_eq!(choose(&windows(&[], &[Some(false), None])), node(1));
    assert_eq!(choose(&windows(&[], &[Some(false), Some(true)])), node(2));
    // fullscreen windows hide the others
    assert_eq!(choose(&windows(&[Some(false)], &[Some(true)])), node(1));
    assert_eq!(choose(&windows(&[None], &[Some(false)])), node(2));
    assert_eq!(render_node_for_output(node(1), node(2), false, None), node(2));
    let elsewhere = windows(&[], &[Some(false)]);
    assert_eq!(render_node_for_output(node(1), node(2), true, Some(&elsewhere)), node(2));
}
