use cosmic_comp::device::{
    identify_node, parse_device_list, parse_sysfs_id, try_parse_dev_from_str, DeviceEntry,
    DeviceIdentifier, DrmNode, NodeType,
};
use cosmic_comp::frame_flags::{bool_var, RenderSwitches};
use cosmic_comp::overrides::{
    allow_tearing, hdr_enabled_override, hdr_reference_white_for, hdr_reference_white_override,
    set_allow_tearing, set_allow_tearing_outputs, set_hdr_enabled_outputs,
    set_hdr_reference_white_outputs, set_hdr_reference_white_override, tearing_allowed_for,
    RuntimeOverrides,
};
use cosmic_comp::policy::{
    is_true_word, parse_bool_token, HdrPolicy, ReferenceWhiteRange, SdrGamma,
};
use cosmic_comp::text::{
    contains_text, decimal_text, eq_ignore_ascii_case, split_on, starts_with,
};

const RANGE: ReferenceWhiteRange = ReferenceWhiteRange { min: 80, max: 2000 };

fn environment(values: &[(&str, &str)]) -> Vec<(String, String)> {
    values
        .iter()
        .map(|(name, value)| (name.to_string(), value.to_string()))
        .collect()
}

#[test]
fn hdr_policy_parses_and_bounds_environment_values() {
    let values = [
        ("COSMIC_HDR_EXPERIMENT", "yes"),
        ("COSMIC_HDR_REQUIRE_ACTIVE", "TRUE"),
        ("COSMIC_HDR_ISOLATE_OUTPUT", "1"),
        ("COSMIC_HDR_OUTPUT", "DP-2"),
        ("COSMIC_HDR_REFERENCE_WHITE", "9999"),
        ("COSMIC_HDR_SDR_GAMMA", "srgb"),
        ("COSMIC_HDR_GAMUT_STRETCH", "1.5"),
        ("COSMIC_HDR_METADATA_LUMINANCE", "Panel"),
        ("COSMIC_HDR_SAFE_EXIT_GRACE_MS", "10"),
        ("COSMIC_HDR_TEARDOWN_TIMEOUT_MS", "30000"),
    ];
    let policy = HdrPolicy::from_lookup(&environment(&values), RANGE);

    assert!(policy.experiment_enabled);
    assert!(policy.require_active);
    assert!(policy.isolate_output);
    assert_eq!(policy.output.as_deref(), Some("DP-2"));
    assert!(policy.output_requested("DP-2"));
    assert_eq!(policy.primary_output(), Some("DP-2"));
    let multi = HdrPolicy {
        output: Some("DP-2, DP-3".into()),
        ..HdrPolicy::from_lookup(&environment(&values), RANGE)
    };
    assert!(multi.output_requested("DP-2") && multi.output_requested("DP-3"));
    assert!(!multi.output_requested("HDMI-A-1"));
    assert_eq!(multi.primary_output(), Some("DP-2"));
    assert_eq!(policy.reference_white, 2000);
    assert!(matches!(policy.sdr_gamma, SdrGamma::Srgb));
    assert_eq!(policy.gamut_stretch.as_deref(), Some("1.5"));
    assert!(policy.metadata_luminance_from_panel);
    assert_eq!(policy.safe_exit_grace, 1_000);
    assert_eq!(policy.teardown_timeout, 15_000);
}

#[test]
fn hdr_policy_uses_safe_defaults_for_invalid_values() {
    let values = [
        ("COSMIC_HDR_EXPERIMENT", "no"),
        ("COSMIC_HDR_REFERENCE_WHITE", "invalid"),
        ("COSMIC_HDR_SDR_GAMMA", "invalid"),
        ("COSMIC_HDR_SAFE_EXIT_GRACE_MS", "invalid"),
    ];
    let policy = HdrPolicy::from_lookup(&environment(&values), RANGE);

    assert!(!policy.experiment_enabled);
    let default_policy = HdrPolicy::from_lookup(&Vec::new(), RANGE);
    assert!(default_policy.experiment_enabled, "HDR is on by default");
    assert!(matches!(default_policy.sdr_gamma, SdrGamma::Display));
    assert!(!policy.require_active);
    assert!(!policy.isolate_output);
    assert_eq!(policy.output, None);
    assert_eq!(policy.reference_white, 203);
    assert!(matches!(&policy.sdr_gamma, SdrGamma::Power(text) if text == "invalid"));
    assert_eq!(policy.gamut_stretch, None);
    assert!(!policy.metadata_luminance_from_panel);
    assert_eq!(policy.safe_exit_grace, 5_000);
    assert_eq!(policy.teardown_timeout, 5_000);
}

#[test]
fn output_lists_skip_empty_names() {
    let policy = HdrPolicy::from_lookup(
        &environment(&[("COSMIC_HDR_OUTPUT", " ,\tDP-1 ,, eDP-1\u{3000}")]),
        RANGE,
    );
    assert_eq!(policy.outputs(), vec!["DP-1", "eDP-1"]);
    assert_eq!(policy.primary_output(), Some("DP-1"));

    let none = HdrPolicy::from_lookup(&environment(&[("COSMIC_HDR_OUTPUT", " , ")]), RANGE);
    assert!(none.outputs().is_empty());
    assert_eq!(none.primary_output(), None);
}

#[test]
fn low_values_are_raised_to_their_bounds() {
    let policy = HdrPolicy::from_lookup(
        &environment(&[
            ("COSMIC_HDR_REFERENCE_WHITE", "+79"),
            ("COSMIC_HDR_TEARDOWN_TIMEOUT_MS", "0"),
            ("COSMIC_HDR_SAFE_EXIT_GRACE_MS", "18446744073709551616"),
        ]),
        RANGE,
    );
    assert_eq!(policy.reference_white, 80);
    assert_eq!(policy.teardown_timeout, 100);
    assert_eq!(policy.safe_exit_grace, 5_000);
}

#[test]
fn numbers_that_do_not_fit_are_ignored() {
    let policy = HdrPolicy::from_lookup(
        &environment(&[("COSMIC_HDR_REFERENCE_WHITE", "65536")]),
        RANGE,
    );
    assert_eq!(policy.reference_white, 203);
    let policy = HdrPolicy::from_lookup(
        &environment(&[("COSMIC_HDR_REFERENCE_WHITE", "-5")]),
        RANGE,
    );
    assert_eq!(policy.reference_white, 203);
}

#[test]
fn bool_tokens_ignore_case() {
    for yes in ["1", "true", "yes", "y", "TRUE", "Yes", "Y"] {
        assert!(parse_bool_token(yes), "{yes}");
    }
    for no in ["", "0", "no", "on", "truee", "1 "] {
        assert!(!parse_bool_token(no), "{no}");
    }
    assert!(!is_true_word("YES"));
}

#[test]
fn switches_have_their_defaults() {
    let switches = RenderSwitches::from_environment(&Vec::new());
    assert!(switches.fullscreen_skip_other_surface);
    assert!(!switches.fullscreen_skip_other_surface_always);
    assert!(!switches.disable_direct_scanout);
    assert!(!switches.disable_cursor_plane);
    assert!(!switches.disable_overlay_scanout);

    let env = environment(&[
        ("COSMIC_FULLSCREEN_SKIP_OTHER_SURFACE", "0"),
        ("COSMIC_DISABLE_CURSOR_PLANE", "yes"),
    ]);
    let switches = RenderSwitches::from_environment(&env);
    assert!(!switches.fullscreen_skip_other_surface);
    assert!(switches.disable_cursor_plane);
    assert_eq!(bool_var(&env, "COSMIC_DISABLE_CURSOR_PLANE"), Some(true));
    assert_eq!(bool_var(&env, "COSMIC_DISABLE_DIRECT_SCANOUT"), None);
}

#[test]
fn output_overrides_win_over_global_ones() {
    let mut overrides = RuntimeOverrides::default();
    assert!(allow_tearing(&overrides));
    assert!(tearing_allowed_for(&overrides, "DP-1"));

    set_allow_tearing(&mut overrides, false);
    set_allow_tearing_outputs(&mut overrides, vec![("DP-1".to_string(), true)]);
    assert!(!allow_tearing(&overrides));
    assert!(tearing_allowed_for(&overrides, "DP-1"));
    assert!(!tearing_allowed_for(&overrides, "DP-2"));

    assert_eq!(hdr_enabled_override(&overrides, "DP-1"), None);
    set_hdr_enabled_outputs(&mut overrides, vec![("DP-1".to_string(), false)]);
    assert_eq!(hdr_enabled_override(&overrides, "DP-1"), Some(false));
    assert_eq!(hdr_enabled_override(&overrides, "DP-2"), None);
}

#[test]
fn reference_white_overrides_are_clamped() {
    let mut overrides = RuntimeOverrides::default();
    assert_eq!(hdr_reference_white_override(&overrides), None);
    assert_eq!(hdr_reference_white_for(&overrides, "DP-1"), None);

    set_hdr_reference_white_override(&mut overrides, Some(10), RANGE);
    assert_eq!(hdr_reference_white_override(&overrides), Some(80));
    set_hdr_reference_white_outputs(&mut overrides, vec![("DP-1".to_string(), 9_999)], RANGE);
    assert_eq!(hdr_reference_white_for(&overrides, "DP-1"), Some(2000));
    assert_eq!(hdr_reference_white_for(&overrides, "DP-2"), Some(80));

    set_hdr_reference_white_override(&mut overrides, None, RANGE);
    assert_eq!(hdr_reference_white_for(&overrides, "DP-2"), None);
}

#[test]
fn device_entries_are_recognised_by_shape() {
    assert!(matches!(
        try_parse_dev_from_str(" 0x1002:0x73BF\n"),
        Some(DeviceEntry::Id { vendor: 0x1002, device: 0x73bf })
    ));
    assert!(try_parse_dev_from_str("0x1002:73bf").is_none());
    assert!(try_parse_dev_from_str("0xzz:0x73bf").is_none());
    assert!(try_parse_dev_from_str("0x1002:0x").is_none());
    assert!(matches!(
        try_parse_dev_from_str("pci-0000:03:00.0"),
        Some(DeviceEntry::Link(path)) if path == "/dev/dri/by-path/pci-0000:03:00.0-render"
    ));
    assert!(matches!(
        try_parse_dev_from_str("226:128"),
        Some(DeviceEntry::DeviceNumber(dev)) if dev == (226 << 8 | 128)
    ));
    assert!(try_parse_dev_from_str("226:x").is_none());
    assert!(matches!(
        try_parse_dev_from_str("renderD128"),
        Some(DeviceEntry::Path(path)) if path == "/dev/dri/renderD128"
    ));
}

#[test]
fn device_numbers_spread_large_parts() {
    assert!(matches!(
        try_parse_dev_from_str("4097:257"),
        Some(DeviceEntry::DeviceNumber(0x0000_1000_0010_0101))
    ));
}

#[test]
fn device_lists_skip_unreadable_entries() {
    let entries = parse_device_list("card0,0x1:2,226:0");
    assert_eq!(entries.len(), 2);
    assert!(matches!(&entries[0], DeviceEntry::Path(path) if path == "/dev/dri/card0"));
    assert!(matches!(&entries[1], DeviceEntry::DeviceNumber(dev) if *dev == 226 << 8));
}

fn node(dev: u64, node_type: NodeType) -> DrmNode {
    DrmNode { dev, node_type }
}

#[test]
fn render_nodes_are_preferred() {
    let card = node(226 << 8, NodeType::Primary);
    let render = node(226 << 8 | 128, NodeType::Render);
    assert_eq!(identify_node(None, None), None);
    assert_eq!(
        identify_node(Some(card), Some(Some(render))),
        Some(DeviceIdentifier::Node(render))
    );
    assert_eq!(
        identify_node(Some(card), Some(None)),
        Some(DeviceIdentifier::Node(card))
    );
    assert_eq!(
        identify_node(Some(card), None),
        Some(DeviceIdentifier::Node(card))
    );
}

#[test]
fn devices_match_by_node_or_id() {
    let render = node(226 << 8 | 128, NodeType::Render);
    let other = node(226 << 8 | 129, NodeType::Render);
    assert!(DeviceIdentifier::Node(render).matches(&render, None, None));
    assert!(!DeviceIdentifier::Node(render).matches(&other, None, None));

    let id = DeviceIdentifier::Id {
        vendor: 0x1002,
        device: 0x73bf,
    };
    assert!(id.matches(&render, Some("0x1002\n"), Some("0x73bf\n")));
    assert!(!id.matches(&render, Some("0x10de\n"), Some("0x73bf\n")));
    assert!(!id.matches(&render, Some("0x1002\n"), None));
    assert!(!id.matches(&render, None, Some("0x73bf\n")));
}

#[test]
fn sysfs_ids_are_hexadecimal() {
    assert_eq!(parse_sysfs_id("0x10de\n"), Some(0x10de));
    assert_eq!(parse_sysfs_id("0x 1f \n"), Some(0x1f));
    assert_eq!(parse_sysfs_id("0x"), None);
    assert_eq!(parse_sysfs_id("éab"), Some(0xab));
    assert_eq!(parse_sysfs_id("0x1ffffffff"), None);
}

#[test]
fn text_helpers_handle_edges() {
    assert_eq!(split_on("", ','), vec![""]);
    assert_eq!(split_on("a,,b,", ','), vec!["a", "", "b", ""]);
    assert!(starts_with("eDP-1", "eDP-"));
    assert!(!starts_with("eD", "eDP-"));
    assert!(eq_ignore_ascii_case("PaNeL", "panel"));
    assert!(!eq_ignore_ascii_case("panels", "panel"));
    assert!(contains_text("Err(DeviceLost)", "DeviceLost"));
    assert!(contains_text("abc", ""));
    assert!(!contains_text("ab", "abc"));
    assert_eq!(decimal_text(0), "0");
    assert_eq!(decimal_text(u32::MAX), "4294967295");
}
