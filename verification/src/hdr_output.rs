//! HDR presentation state of an output, and the metadata sent to its sink.
use std::ops::RangeInclusive;
use vstd::prelude::*;

verus! {

/// Peak luminance assumed for an HDR10 sink that reports none, in cd/m².
pub const DEFAULT_PEAK_LUMINANCE: u16 = 1_000;

/// HDR capabilities derived from the sink's EDID.
#[derive(Debug, Clone, Copy, PartialEq, Eq, Structural)]
pub struct HdrSinkCapabilities {
    /// Desired peak luminance in cd/m².
    pub max_luminance: u16,
    /// Desired minimum luminance in units of 0.0001 cd/m².
    pub min_luminance: u16,
    /// Desired maximum frame-average luminance in cd/m².
    pub max_frame_average_luminance: u16,
}

/// The HDR presentation state that KMS validated for an output, rather than
/// merely the user's requested configuration.
#[derive(Debug, Clone, Copy, PartialEq, Eq, Structural)]
pub struct ActiveHdrOutput {
    pub capabilities: HdrSinkCapabilities,
    pub reference_white: u16,
}

/// The HDR state staged for an output and whether a frame has committed it.
#[derive(Debug)]
pub struct HdrOutputState {
    staged: Option<ActiveHdrOutput>,
    committed: bool,
}

/// What an [`HdrOutputState`] holds.
pub struct HdrOutputStateView {
    pub staged: Option<ActiveHdrOutput>,
    pub committed: bool,
}

impl View for HdrOutputState {
    type V = HdrOutputStateView;

    closed spec fn view(&self) -> HdrOutputStateView {
        HdrOutputStateView { staged: self.staged, committed: self.committed }
    }
}

impl HdrOutputStateView {
    /// The state visible to clients: the staged one, once committed.
    pub open spec fn visible(self) -> Option<ActiveHdrOutput> {
        if self.committed {
            self.staged
        } else {
            None
        }
    }

    /// The best known state: the visible one, or else the staged one.
    pub open spec fn best_known(self) -> Option<ActiveHdrOutput> {
        match self.visible() {
            Some(active) => Some(active),
            None => self.staged,
        }
    }

    /// The state after staging `state`.
    pub open spec fn after_stage(self, state: Option<ActiveHdrOutput>) -> HdrOutputStateView {
        HdrOutputStateView { staged: state, committed: false }
    }

    /// The state after a frame has committed what is staged.
    pub open spec fn after_commit(self) -> HdrOutputStateView {
        HdrOutputStateView { staged: self.staged, committed: true }
    }
}

impl Default for HdrOutputState {
    fn default() -> (state: Self)
        ensures
            state@.staged is None,
            !state@.committed,
    {
        HdrOutputState { staged: None, committed: false }
    }
}

impl HdrOutputState {
    /// The committed state, if a frame has committed one.
    pub fn get(&self) -> (state: Option<ActiveHdrOutput>)
        ensures
            state == self@.visible(),
    {
        if self.committed {
            self.staged
        } else {
            None
        }
    }

    /// Sets an already committed state.
    pub fn set(&mut self, state: Option<ActiveHdrOutput>)
        ensures
            final(self)@ == (HdrOutputStateView { staged: state, committed: true }),
    {
        self.staged = state;
        self.committed = true;
    }

    /// The staged state, whether committed or not.
    pub fn staged(&self) -> (state: Option<ActiveHdrOutput>)
        ensures
            state == self@.staged,
    {
        self.staged
    }

    /// Stages a state: it stays invisible until it is committed.
    pub fn stage(&mut self, state: Option<ActiveHdrOutput>)
        ensures
            final(self)@ == old(self)@.after_stage(state),
    {
        self.staged = state;
        self.committed = false;
    }

    /// Makes the staged state visible.
    pub fn commit(&mut self)
        ensures
            final(self)@ == old(self)@.after_commit(),
    {
        self.committed = true;
    }

    /// The visible state, or the staged one while nothing is visible.
    pub fn get_or_staged(&self) -> (state: Option<ActiveHdrOutput>)
        ensures
            state == self@.best_known(),
    {
        match self.get() {
            Some(active) => Some(active),
            None => self.staged(),
        }
    }
}

/// A staged state is invisible until it is committed, and then it is exactly
/// what was staged; committing twice is the same as committing once.
pub proof fn lemma_staged_until_commit(
    before: HdrOutputStateView,
    state: Option<ActiveHdrOutput>,
)
    ensures
        before.after_stage(state).visible() is None,
        before.after_stage(state).staged == state,
        before.after_stage(state).best_known() == state,
        before.after_stage(state).after_commit().visible() == state,
        before.after_stage(state).after_commit().after_commit()
            == before.after_stage(state).after_commit(),
{
}

/// Luminance fields of the infoframe for a PQ / BT.2020 signal. Zero means
/// "unknown".
#[derive(Debug, Clone, Copy, PartialEq, Eq, Structural)]
pub struct HdrOutputMetadata {
    pub max_display_mastering_luminance: u16,
    pub min_display_mastering_luminance: u16,
    pub max_cll: u16,
    pub max_fall: u16,
}

impl HdrSinkCapabilities {
    /// The metadata for `self`, with the panel's luminance or with zeros.
    pub open spec fn spec_output_metadata(self, luminance_from_panel: bool) -> HdrOutputMetadata {
        if luminance_from_panel {
            HdrOutputMetadata {
                max_display_mastering_luminance: self.max_luminance,
                min_display_mastering_luminance: self.min_luminance,
                max_cll: self.max_luminance,
                max_fall: self.max_frame_average_luminance,
            }
        } else {
            HdrOutputMetadata {
                max_display_mastering_luminance: 0,
                min_display_mastering_luminance: 0,
                max_cll: 0,
                max_fall: 0,
            }
        }
    }

    /// Builds conservative HDR10 output metadata for compositor-generated
    /// content. EDID describes the sink rather than a mastering display, so
    /// these values are an output policy, not a calibration claim.
    ///
    /// Without the panel's luminance all fields are zero: panels that tone-map
    /// against MaxCLL then leave the signal alone.
    pub fn output_metadata(self, luminance_from_panel: bool) -> (metadata: HdrOutputMetadata)
        ensures
            metadata == self.spec_output_metadata(luminance_from_panel),
    {
        if luminance_from_panel {
            HdrOutputMetadata {
                max_display_mastering_luminance: self.max_luminance,
                min_display_mastering_luminance: self.min_luminance,
                max_cll: self.max_luminance,
                max_fall: self.max_frame_average_luminance,
            }
        } else {
            HdrOutputMetadata {
                max_display_mastering_luminance: 0,
                min_display_mastering_luminance: 0,
                max_cll: 0,
                max_fall: 0,
            }
        }
    }
}

/// Selects the connector `max bpc` value for an HDR10 modeset.
///
/// Some drivers do not expose a `max bpc` property. In that case the 10-bit
/// framebuffer format and atomic validation are the authoritative negotiation,
/// so the connector value is left driver-managed. When the property exists it
/// must explicitly allow 10.
pub fn hdr_max_bpc_value(range: Option<&RangeInclusive<u32>>) -> (value: Option<Option<u32>>)
    ensures
        range is None ==> value == Some(None::<u32>),
        range matches Some(r) ==> value == if r@.start <= 10 && (10 < r@.end || (10 == r@.end
            && !r@.exhausted)) {
            Some(Some(10u32))
        } else {
            None
        },
{
    match range {
        None => Some(None),
        Some(range) => {
            let ten: u32 = 10;
            if range.contains(&ten) {
                Some(Some(10))
            } else {
                None
            }
        },
    }
}

/// The HDR static metadata block of an EDID, with the luminances rounded to
/// whole steps: peak and frame average in cd/m², minimum in 0.0001 cd/m².
#[derive(Debug, Clone, Copy, PartialEq, Eq, Structural)]
pub struct HdrStaticMetadata {
    pub desired_content_max_luminance: u16,
    pub desired_content_max_frame_avg_luminance: u16,
    pub desired_content_min_luminance: u16,
    pub type1: bool,
    pub pq: bool,
}

/// The signal colorimetries that an EDID advertises.
#[derive(Debug, Clone, Copy, PartialEq, Eq, Structural)]
pub struct SupportedSignalColorimetry {
    pub bt2020_rgb: bool,
}

/// Whether an EDID advertises everything an HDR10 signal needs.
pub open spec fn advertises_hdr10(
    metadata: HdrStaticMetadata,
    colorimetry: SupportedSignalColorimetry,
) -> bool {
    metadata.type1 && metadata.pq && colorimetry.bt2020_rgb
}

/// The reported peak, or a conservative ceiling where the sink omits it.
pub open spec fn usable_peak(metadata: HdrStaticMetadata) -> u16 {
    if metadata.desired_content_max_luminance == 0 {
        DEFAULT_PEAK_LUMINANCE
    } else {
        metadata.desired_content_max_luminance
    }
}

/// The reported frame average, at most the peak; the peak where it is omitted.
pub open spec fn usable_frame_average(metadata: HdrStaticMetadata) -> u16 {
    let reported = metadata.desired_content_max_frame_avg_luminance;
    if reported == 0 || reported > usable_peak(metadata) {
        usable_peak(metadata)
    } else {
        reported
    }
}

/// Returns usable HDR10 capabilities when the EDID advertises Static Metadata
/// Type 1, PQ and BT.2020 RGB signaling. CTA permits sinks to omit the
/// optional luminance bytes; a conservative ceiling is used in that case.
pub fn hdr_sink_capabilities_from_edid(
    metadata: HdrStaticMetadata,
    colorimetry: SupportedSignalColorimetry,
) -> (capabilities: Option<HdrSinkCapabilities>)
    ensures
        capabilities == if advertises_hdr10(metadata, colorimetry) {
            Some(
                HdrSinkCapabilities {
                    max_luminance: usable_peak(metadata),
                    min_luminance: metadata.desired_content_min_luminance,
                    max_frame_average_luminance: usable_frame_average(metadata),
                },
            )
        } else {
            None
        },
{
    if !metadata.type1 || !metadata.pq || !colorimetry.bt2020_rgb {
        return None;
    }
    let max_luminance: u16 = if metadata.desired_content_max_luminance == 0 {
        DEFAULT_PEAK_LUMINANCE
    } else {
        metadata.desired_content_max_luminance
    };
    let reported: u16 = metadata.desired_content_max_frame_avg_luminance;
    let max_frame_average_luminance: u16 = if reported == 0 || reported > max_luminance {
        max_luminance
    } else {
        reported
    };
    Some(
        HdrSinkCapabilities {
            max_luminance,
            min_luminance: metadata.desired_content_min_luminance,
            max_frame_average_luminance,
        },
    )
}

/// Usable capabilities always have a peak above zero and a frame average
/// between one and the peak.
pub proof fn lemma_capabilities_are_usable(
    metadata: HdrStaticMetadata,
    colorimetry: SupportedSignalColorimetry,
)
    requires
        advertises_hdr10(metadata, colorimetry),
    ensures
        0 < usable_frame_average(metadata) <= usable_peak(metadata),
{
}

/// What is staged can be read back at once, but is not visible before it is
/// committed; then it is, until something else is staged.
pub proof fn lemma_commit_shows_what_was_staged(
    output: &mut HdrOutputState,
    state: Option<ActiveHdrOutput>,
    hidden: Option<ActiveHdrOutput>,
    staged: Option<ActiveHdrOutput>,
    best: Option<ActiveHdrOutput>,
    committed: &mut HdrOutputState,
    shown: Option<ActiveHdrOutput>,
    later: &mut HdrOutputState,
    other: Option<ActiveHdrOutput>,
    hidden_again: Option<ActiveHdrOutput>,
)
    requires
        call_ensures(HdrOutputState::stage, (output, state), ()),
        call_ensures(HdrOutputState::get, (&*final(output),), hidden),
        call_ensures(HdrOutputState::staged, (&*final(output),), staged),
        call_ensures(HdrOutputState::get_or_staged, (&*final(output),), best),
        *old(committed) == *final(output),
        call_ensures(HdrOutputState::commit, (committed,), ()),
        call_ensures(HdrOutputState::get, (&*final(committed),), shown),
        *old(later) == *final(committed),
        call_ensures(HdrOutputState::stage, (later, other), ()),
        call_ensures(HdrOutputState::get, (&*final(later),), hidden_again),
    ensures
        hidden is None,
        staged == state,
        best == state,
        shown == state,
        hidden_again is None,
{
}

/// What is set is visible at once, and is the best known state.
pub proof fn lemma_set_state_is_visible(
    output: &mut HdrOutputState,
    state: Option<ActiveHdrOutput>,
    shown: Option<ActiveHdrOutput>,
    staged: Option<ActiveHdrOutput>,
    best: Option<ActiveHdrOutput>,
)
    requires
        call_ensures(HdrOutputState::set, (output, state), ()),
        call_ensures(HdrOutputState::get, (&*final(output),), shown),
        call_ensures(HdrOutputState::staged, (&*final(output),), staged),
        call_ensures(HdrOutputState::get_or_staged, (&*final(output),), best),
    ensures
        shown == state,
        staged == state,
        best == state,
{
}

/// The sink is told its own luminances, or nothing of them.
pub proof fn lemma_metadata_is_the_panels_or_unknown(
    capabilities: HdrSinkCapabilities,
    luminance_from_panel: bool,
    metadata: HdrOutputMetadata,
)
    requires
        call_ensures(
            HdrSinkCapabilities::output_metadata,
            (capabilities, luminance_from_panel),
            metadata,
        ),
    ensures
        luminance_from_panel ==> metadata.max_display_mastering_luminance
            == capabilities.max_luminance && metadata.max_cll == capabilities.max_luminance
            && metadata.min_display_mastering_luminance == capabilities.min_luminance
            && metadata.max_fall == capabilities.max_frame_average_luminance,
        !luminance_from_panel ==> metadata.max_display_mastering_luminance == 0
            && metadata.min_display_mastering_luminance == 0 && metadata.max_cll == 0
            && metadata.max_fall == 0,
{
}

/// A sink takes HDR10 exactly when its EDID says so in all three ways; then its own
/// luminances count where it states them, a frame average never exceeds the peak, and
/// a peak that is not stated is taken as 1000 cd/m².
pub proof fn lemma_capabilities_come_from_the_edid(
    metadata: HdrStaticMetadata,
    colorimetry: SupportedSignalColorimetry,
    capabilities: Option<HdrSinkCapabilities>,
)
    requires
        call_ensures(hdr_sink_capabilities_from_edid, (metadata, colorimetry), capabilities),
    ensures
        capabilities is Some <==> metadata.type1 && metadata.pq && colorimetry.bt2020_rgb,
        capabilities matches Some(sink) ==> {
            let peak = metadata.desired_content_max_luminance;
            let average = metadata.desired_content_max_frame_avg_luminance;
            &&& peak > 0 ==> sink.max_luminance == peak
            &&& peak == 0 ==> sink.max_luminance == 1_000
            &&& sink.min_luminance == metadata.desired_content_min_luminance
            &&& 0 < sink.max_frame_average_luminance <= sink.max_luminance
            &&& 0 < average <= sink.max_luminance ==> sink.max_frame_average_luminance == average
            &&& average == 0 || average > sink.max_luminance ==> sink.max_frame_average_luminance
                == sink.max_luminance
        },
{
}

/// HDR is sent with ten bits wherever the depth can be chosen, and not at all where
/// ten cannot be; without the property the driver chooses.
pub proof fn lemma_hdr_needs_ten_bits(
    range: Option<&RangeInclusive<u32>>,
    value: Option<Option<u32>>,
)
    requires
        call_ensures(hdr_max_bpc_value, (range,), value),
    ensures
        range is None ==> value == Some(None::<u32>),
        value matches Some(Some(bits)) ==> bits == 10 && range is Some,
        range matches Some(r) ==> (r@.start > 10 || r@.end < 10 ==> value is None),
        range matches Some(r) ==> (r@.start <= 10 <= r@.end && !r@.exhausted ==> value == Some(
            Some(10u32),
        )),
{
}

/// An output has no HDR state to begin with.
pub proof fn lemma_new_output_is_sdr(
    output: HdrOutputState,
    shown: Option<ActiveHdrOutput>,
    staged: Option<ActiveHdrOutput>,
    best: Option<ActiveHdrOutput>,
)
    requires
        call_ensures(HdrOutputState::default, (), output),
        call_ensures(HdrOutputState::get, (&output,), shown),
        call_ensures(HdrOutputState::staged, (&output,), staged),
        call_ensures(HdrOutputState::get_or_staged, (&output,), best),
    ensures
        shown is None,
        staged is None,
        best is None,
{
}

} // verus!
