use cosmic_comp::color::{
    description_for_output, is_surface_scanout_compatible, preferred_output, scanout_target,
    ImageDescription, Luminances, Primaries, ScanoutTarget, TransferFunction,
};
use cosmic_comp::hdr_output::{
    hdr_max_bpc_value, hdr_sink_capabilities_from_edid, ActiveHdrOutput, HdrOutputState,
    HdrSinkCapabilities, HdrStaticMetadata, SupportedSignalColorimetry,
};

fn rounded_u16(value: f32) -> u16 {
    value.round().clamp(0.0, u16::MAX as f32) as u16
}

fn metadata() -> HdrStaticMetadata {
    HdrStaticMetadata {
        desired_content_max_luminance: rounded_u16(993.486),
        desired_content_max_frame_avg_luminance: rounded_u16(0.0),
        desired_content_min_luminance: rounded_u16(0.001 * 10_000.0),
        type1: true,
        pq: true,
    }
}

fn colorimetry() -> SupportedSignalColorimetry {
    SupportedSignalColorimetry { bt2020_rgb: true }
}

#[test]
fn converts_real_edid_luminance_units() {
    let caps = hdr_sink_capabilities_from_edid(metadata(), colorimetry()).unwrap();
    assert_eq!(caps.max_luminance, 993);
    assert_eq!(caps.min_luminance, 10);
    // Unknown MaxFALL uses the sink peak rather than claiming a 1-nit limit.
    assert_eq!(caps.max_frame_average_luminance, 993);
}

#[test]
fn rejects_missing_required_hdr10_signals() {
    let mut no_pq = metadata();
    no_pq.pq = false;
    assert!(hdr_sink_capabilities_from_edid(no_pq, colorimetry()).is_none());

    let mut no_bt2020 = colorimetry();
    no_bt2020.bt2020_rgb = false;
    assert!(hdr_sink_capabilities_from_edid(metadata(), no_bt2020).is_none());

    let mut no_type1 = metadata();
    no_type1.type1 = false;
    assert!(hdr_sink_capabilities_from_edid(no_type1, colorimetry()).is_none());
}

#[test]
fn omitted_luminances_get_conservative_values() {
    let silent = HdrStaticMetadata {
        desired_content_max_luminance: 0,
        desired_content_max_frame_avg_luminance: 0,
        desired_content_min_luminance: 0,
        type1: true,
        pq: true,
    };
    let caps = hdr_sink_capabilities_from_edid(silent, colorimetry()).unwrap();
    assert_eq!(caps.max_luminance, 1_000);
    assert_eq!(caps.max_frame_average_luminance, 1_000);
    assert_eq!(caps.min_luminance, 0);

    let boastful = HdrStaticMetadata {
        desired_content_max_luminance: 400,
        desired_content_max_frame_avg_luminance: 600,
        ..silent
    };
    let caps = hdr_sink_capabilities_from_edid(boastful, colorimetry()).unwrap();
    assert_eq!(caps.max_frame_average_luminance, 400);
}

#[test]
fn selects_max_bpc_when_available_and_allows_driver_management() {
    assert_eq!(hdr_max_bpc_value(None), Some(None));
    assert_eq!(hdr_max_bpc_value(Some(&(8..=12))), Some(Some(10)));
    assert_eq!(hdr_max_bpc_value(Some(&(8..=8))), None);
}

#[test]
fn max_bpc_bounds_are_inclusive() {
    assert_eq!(hdr_max_bpc_value(Some(&(10..=10))), Some(Some(10)));
    assert_eq!(hdr_max_bpc_value(Some(&(11..=16))), None);
}

#[test]
fn zeroed_metadata_luminance_avoids_panel_tonemapping_hints() {
    let caps = HdrSinkCapabilities {
        max_luminance: 993,
        min_luminance: 6,
        max_frame_average_luminance: 277,
    };
    let zeroed = caps.output_metadata(false);
    assert_eq!(zeroed.max_display_mastering_luminance, 0);
    assert_eq!(zeroed.min_display_mastering_luminance, 0);
    assert_eq!(zeroed.max_cll, 0);
    assert_eq!(zeroed.max_fall, 0);

    let panel = caps.output_metadata(true);
    assert_eq!(panel.max_display_mastering_luminance, 993);
    assert_eq!(panel.min_display_mastering_luminance, 6);
    assert_eq!(panel.max_cll, 993);
    assert_eq!(panel.max_fall, 277);
}

fn active() -> ActiveHdrOutput {
    ActiveHdrOutput {
        capabilities: HdrSinkCapabilities {
            max_luminance: 1_000,
            min_luminance: 5,
            max_frame_average_luminance: 400,
        },
        reference_white: 203,
    }
}

#[test]
fn hdr_output_is_invisible_until_the_real_commit() {
    let active = active();
    let mut state = HdrOutputState::default();

    state.stage(Some(active));
    assert_eq!(state.staged(), Some(active));
    assert_eq!(state.get(), None);

    state.commit();
    assert_eq!(state.get(), Some(active));
}

#[test]
fn staging_hides_what_was_committed() {
    let mut state = HdrOutputState::default();
    state.set(Some(active()));
    assert_eq!(state.get(), Some(active()));

    state.stage(None);
    assert_eq!(state.get(), None);
    assert_eq!(state.get_or_staged(), None);

    state.stage(Some(active()));
    assert_eq!(state.get(), None);
    assert_eq!(state.get_or_staged(), Some(active()));
    state.commit();
    state.commit();
    assert_eq!(state.get(), Some(active()));
}

#[test]
fn reports_the_hardware_validated_hdr_description() {
    let mut state = HdrOutputState::default();
    state.set(Some(ActiveHdrOutput {
        capabilities: HdrSinkCapabilities {
            max_luminance: 993,
            min_luminance: 10,
            max_frame_average_luminance: 993,
        },
        reference_white: 203,
    }));

    let desc = description_for_output(Some(&state));
    assert_eq!(desc.transfer, TransferFunction::St2084Pq);
    assert_eq!(desc.primaries.named, Some(Primaries::Bt2020));
    assert_eq!(
        desc.luminances,
        Some(Luminances {
            min: 10,
            max: 993,
            reference_white: 203
        })
    );
    assert_eq!(desc.max_cll, Some(993));
    assert_eq!(desc.max_fall, Some(993));
}

#[test]
fn unknown_luminances_are_described_by_defaults() {
    let mut state = HdrOutputState::default();
    state.stage(Some(ActiveHdrOutput {
        capabilities: HdrSinkCapabilities {
            max_luminance: 0,
            min_luminance: 0,
            max_frame_average_luminance: 0,
        },
        reference_white: 0,
    }));
    state.commit();
    let desc = description_for_output(Some(&state));
    assert_eq!(desc.max_cll, None);
    assert_eq!(desc.max_fall, None);
    assert_eq!(
        desc.luminances,
        Some(Luminances {
            min: 0,
            max: 1_000,
            reference_white: 203
        })
    );
    assert_eq!(
        scanout_target(Some(&state)),
        ScanoutTarget {
            hdr_enabled: true,
            reference_white: 203,
            peak_luminance: None
        }
    );
}

#[test]
fn staged_hdr_is_not_described_until_it_is_committed() {
    let mut state = HdrOutputState::default();
    state.stage(Some(active()));
    assert_eq!(description_for_output(Some(&state)), ImageDescription::srgb());
    // what is staged already decides what can be scanned out
    assert!(scanout_target(Some(&state)).hdr_enabled);
    state.commit();
    let description = description_for_output(Some(&state));
    assert_eq!(description.transfer, TransferFunction::St2084Pq);
    assert!(description.is_hdr());
}

#[test]
fn outputs_without_hdr_are_srgb() {
    assert_eq!(description_for_output(None), ImageDescription::srgb());
    let idle = HdrOutputState::default();
    assert_eq!(description_for_output(Some(&idle)), ImageDescription::srgb());
    assert_eq!(
        scanout_target(Some(&idle)),
        ScanoutTarget {
            hdr_enabled: false,
            reference_white: 203,
            peak_luminance: None
        }
    );
}

#[test]
fn preferred_output_follows_visibility() {
    assert_eq!(preferred_output(Some(1), Some(2), Some(3), Some(4)), Some(1));
    assert_eq!(preferred_output(None, Some(2), Some(3), Some(4)), Some(2));
    assert_eq!(preferred_output(None, None, Some(3), Some(4)), Some(3));
    assert_eq!(preferred_output(None, None, None, Some(4)), Some(4));
    assert_eq!(preferred_output(None, None, None, None), None);
}

#[test]
fn outputs_scan_out_their_own_encoding() {
    let mut state = HdrOutputState::default();
    for staged in [None, Some(active())] {
        state.stage(staged);
        state.commit();
        let target = scanout_target(Some(&state));
        let description = description_for_output(Some(&state));
        assert_eq!(target.hdr_enabled, staged.is_some());
        assert_eq!(description.is_hdr(), staged.is_some());
        assert!(is_surface_scanout_compatible(target.hdr_enabled, Some(&description)));
    }
}
