//! Color descriptions of surfaces and outputs, and the ways in which a surface
//! can be scanned out without composition.
use crate::hdr_output::{ActiveHdrOutput, HdrOutputState, HdrOutputStateView, DEFAULT_PEAK_LUMINANCE};
use crate::policy::DEFAULT_REFERENCE_WHITE;
use vstd::prelude::*;

verus! {

/// How code values stand for light.
#[derive(Debug, Clone, Copy, PartialEq, Eq, Structural)]
pub enum TransferFunction {
    Srgb,
    Gamma22,
    ExtLinear,
    St2084Pq,
    Hlg,
}

/// Well-known sets of primaries.
#[derive(Debug, Clone, Copy, PartialEq, Eq, Structural)]
pub enum Primaries {
    Srgb,
    DisplayP3,
    Bt2020,
}

/// A CIE xy chromaticity, in millionths.
#[derive(Debug, Clone, Copy, PartialEq, Eq, Structural)]
pub struct Chromaticity {
    pub x: i32,
    pub y: i32,
}

/// Chromaticities of three primaries and the white point.
#[derive(Debug, Clone, Copy, PartialEq, Eq, Structural)]
pub struct Chromaticities {
    pub red: Chromaticity,
    pub green: Chromaticity,
    pub blue: Chromaticity,
    pub white: Chromaticity,
}

/// Luminances of a mastering display: minimum in 0.0001 cd/m², maximum in cd/m².
#[derive(Debug, Clone, Copy, PartialEq, Eq, Structural)]
pub struct MasteringLuminance {
    pub min: u32,
    pub max: u32,
}

/// Luminances of an encoding: minimum in 0.0001 cd/m², maximum and reference
/// white in cd/m².
#[derive(Debug, Clone, Copy, PartialEq, Eq, Structural)]
pub struct Luminances {
    pub min: u32,
    pub max: u32,
    pub reference_white: u32,
}

/// Primaries by name, by value, or both.
#[derive(Debug, Clone, Copy, PartialEq, Eq, Structural)]
pub struct PrimariesOption {
    pub named: Option<Primaries>,
    pub values: Option<Chromaticities>,
}

/// How the pixels of a surface or an output are encoded.
#[derive(Debug, Clone, Copy, PartialEq, Eq, Structural)]
pub struct ImageDescription {
    pub transfer: TransferFunction,
    pub primaries: PrimariesOption,
    pub max_cll: Option<u32>,
    pub max_fall: Option<u32>,
    pub mastering_luminance: Option<MasteringLuminance>,
    pub mastering_primaries: Option<Chromaticities>,
    pub luminances: Option<Luminances>,
    pub windows_scrgb: bool,
    pub windows_bt2100: bool,
}

impl ImageDescription {
    /// Whether pixels are PQ-encoded with BT.2020 primaries.
    pub open spec fn pq_bt2020(self) -> bool {
        self.transfer == TransferFunction::St2084Pq && self.primaries.named == Some(
            Primaries::Bt2020,
        )
    }

    /// Whether pixels can be brighter than SDR white.
    pub open spec fn hdr(self) -> bool {
        self.transfer == TransferFunction::St2084Pq || self.transfer == TransferFunction::Hlg
            || self.transfer == TransferFunction::ExtLinear
    }

    /// A description with only a transfer function and named primaries.
    pub open spec fn plain(transfer: TransferFunction, primaries: Primaries) -> ImageDescription {
        ImageDescription {
            transfer,
            primaries: PrimariesOption { named: Some(primaries), values: None },
            max_cll: None,
            max_fall: None,
            mastering_luminance: None,
            mastering_primaries: None,
            luminances: None,
            windows_scrgb: false,
            windows_bt2100: false,
        }
    }

    /// Standard SDR content.
    pub fn srgb() -> (description: ImageDescription)
        ensures
            description == ImageDescription::plain(TransferFunction::Srgb, Primaries::Srgb),
    {
        ImageDescription {
            transfer: TransferFunction::Srgb,
            primaries: PrimariesOption { named: Some(Primaries::Srgb), values: None },
            max_cll: None,
            max_fall: None,
            mastering_luminance: None,
            mastering_primaries: None,
            luminances: None,
            windows_scrgb: false,
            windows_bt2100: false,
        }
    }

    /// Extended linear content with sRGB primaries.
    pub fn windows_scrgb() -> (description: ImageDescription)
        ensures
            description == (ImageDescription {
                windows_scrgb: true,
                ..ImageDescription::plain(TransferFunction::ExtLinear, Primaries::Srgb)
            }),
    {
        ImageDescription {
            transfer: TransferFunction::ExtLinear,
            windows_scrgb: true,
            ..ImageDescription::srgb()
        }
    }

    /// PQ content with BT.2020 primaries.
    pub fn windows_bt2100() -> (description: ImageDescription)
        ensures
            description == (ImageDescription {
                windows_bt2100: true,
                ..ImageDescription::plain(TransferFunction::St2084Pq, Primaries::Bt2020)
            }),
    {
        ImageDescription {
            transfer: TransferFunction::St2084Pq,
            primaries: PrimariesOption { named: Some(Primaries::Bt2020), values: None },
            windows_bt2100: true,
            ..ImageDescription::srgb()
        }
    }

    /// Whether pixels are PQ-encoded with BT.2020 primaries.
    pub fn is_pq_bt2020(&self) -> (yes: bool)
        ensures
            yes == self.pq_bt2020(),
    {
        match self.primaries.named {
            Some(named) => self.transfer == TransferFunction::St2084Pq && named
                == Primaries::Bt2020,
            None => false,
        }
    }

    /// Whether pixels can be brighter than SDR white.
    pub fn is_hdr(&self) -> (yes: bool)
        ensures
            yes == self.hdr(),
    {
        self.transfer == TransferFunction::St2084Pq || self.transfer == TransferFunction::Hlg
            || self.transfer == TransferFunction::ExtLinear
    }
}

/// Whether a surface's pixels match what an output sends to its sink.
pub open spec fn matches_output(
    output_hdr_enabled: bool,
    surface_desc: Option<ImageDescription>,
) -> bool {
    if output_hdr_enabled {
        surface_desc matches Some(desc) && desc.pq_bt2020()
    } else {
        surface_desc matches Some(desc) ==> !desc.hdr()
    }
}

/// Whether a surface's color description matches the output's color state for
/// direct primary plane scanout without shader composition.
///
/// On an HDR output only content encoded in BT.2100 PQ matches the display
/// pipeline; on an SDR output anything that is not HDR does.
pub fn is_surface_scanout_compatible(
    output_hdr_enabled: bool,
    surface_desc: Option<&ImageDescription>,
) -> (compatible: bool)
    ensures
        compatible == matches_output(
            output_hdr_enabled,
            match surface_desc {
                Some(desc) => Some(*desc),
                None => None,
            },
        ),
{
    match surface_desc {
        Some(desc) => if output_hdr_enabled {
            desc.is_pq_bt2020()
        } else {
            !desc.is_hdr()
        },
        None => !output_hdr_enabled,
    }
}

/// Whether an output and a fullscreen surface are both HDR or both SDR.
pub fn is_scanout_compatible(output_hdr_enabled: bool, is_fullscreen_hdr: bool) -> (compatible:
    bool)
    ensures
        compatible == (output_hdr_enabled == is_fullscreen_hdr),
{
    output_hdr_enabled == is_fullscreen_hdr
}

/// No surface matches both an HDR and an SDR output.
pub proof fn lemma_scanout_needs_matching_range(surface_desc: Option<ImageDescription>)
    ensures
        !(matches_output(true, surface_desc) && matches_output(false, surface_desc)),
{
}

/// Color conversions that the display hardware can do.
#[derive(Debug, Clone, Copy, PartialEq, Eq, Structural)]
pub enum PlaneColorConversion {
    ScRgbToPq { reference_white: u16 },
    SrgbToPq { reference_white: u16 },
}

/// How a fullscreen surface reaches the display.
#[derive(Debug, Clone, Copy, PartialEq, Eq, Structural)]
pub enum ScanoutPlan {
    /// As it is, on the primary plane.
    DirectPassthrough,
    /// On the primary plane, converted by the plane's color pipeline.
    PlaneColorop(PlaneColorConversion),
    /// On the primary plane, converted by the CRTC.
    CrtcHardware(PlaneColorConversion),
    /// Converted by the GPU.
    VulkanFastDirectFlip,
}

impl ScanoutPlan {
    /// Whether the surface itself is put on the primary plane.
    pub open spec fn on_primary_plane(self) -> bool {
        !(self is VulkanFastDirectFlip)
    }

    /// Whether the surface itself may be put on the primary plane.
    pub fn allows_primary_scanout(&self) -> (allowed: bool)
        ensures
            allowed == self.on_primary_plane(),
    {
        match self {
            ScanoutPlan::VulkanFastDirectFlip => false,
            _ => true,
        }
    }
}

/// What a surface has to be converted to for an output.
#[derive(Debug, Clone, Copy, PartialEq, Eq, Structural)]
pub struct ScanoutTarget {
    pub hdr_enabled: bool,
    pub reference_white: u16,
    pub peak_luminance: Option<u16>,
}

/// The committed HDR state of an output, or else the staged one, or `None`.
pub open spec fn best_known_of(state: Option<HdrOutputStateView>) -> Option<ActiveHdrOutput> {
    match state {
        Some(view) => view.best_known(),
        None => None,
    }
}

/// The HDR state of an output that a frame has committed, or `None`.
pub open spec fn visible_of(state: Option<HdrOutputStateView>) -> Option<ActiveHdrOutput> {
    match state {
        Some(view) => view.visible(),
        None => None,
    }
}

/// What the state of an output holds, if the output has one.
pub open spec fn state_view(state: Option<&HdrOutputState>) -> Option<HdrOutputStateView> {
    match state {
        Some(state) => Some(state@),
        None => None,
    }
}

/// `white`, or the default where it is zero.
pub open spec fn white_or_default(white: u16) -> u16 {
    if white > 0 {
        white
    } else {
        DEFAULT_REFERENCE_WHITE
    }
}

/// `value`, if it is not zero.
pub open spec fn known(value: u16) -> Option<u16> {
    if value > 0 {
        Some(value)
    } else {
        None
    }
}

/// What surfaces have to be converted to for an output in this state.
pub open spec fn target_of(active: Option<ActiveHdrOutput>) -> ScanoutTarget {
    match active {
        Some(hdr) => ScanoutTarget {
            hdr_enabled: true,
            reference_white: white_or_default(hdr.reference_white),
            peak_luminance: known(hdr.capabilities.max_luminance),
        },
        None => ScanoutTarget {
            hdr_enabled: false,
            reference_white: DEFAULT_REFERENCE_WHITE,
            peak_luminance: None,
        },
    }
}

/// What surfaces have to be converted to for an output.
pub fn scanout_target(state: Option<&HdrOutputState>) -> (target: ScanoutTarget)
    ensures
        target == target_of(best_known_of(state_view(state))),
{
    let active: Option<ActiveHdrOutput> = match state {
        Some(state) => state.get_or_staged(),
        None => None,
    };
    match active {
        Some(hdr) => ScanoutTarget {
            hdr_enabled: true,
            reference_white: if hdr.reference_white > 0 {
                hdr.reference_white
            } else {
                DEFAULT_REFERENCE_WHITE
            },
            peak_luminance: if hdr.capabilities.max_luminance > 0 {
                Some(hdr.capabilities.max_luminance)
            } else {
                None
            },
        },
        None => ScanoutTarget {
            hdr_enabled: false,
            reference_white: DEFAULT_REFERENCE_WHITE,
            peak_luminance: None,
        },
    }
}

/// The description of an output in this state, as clients see it.
pub open spec fn description_of(active: Option<ActiveHdrOutput>) -> ImageDescription {
    match active {
        None => ImageDescription::plain(TransferFunction::Srgb, Primaries::Srgb),
        Some(hdr) => ImageDescription {
            max_cll: match known(hdr.capabilities.max_luminance) {
                Some(max) => Some(max as u32),
                None => None,
            },
            max_fall: match known(hdr.capabilities.max_frame_average_luminance) {
                Some(max) => Some(max as u32),
                None => None,
            },
            luminances: Some(
                Luminances {
                    min: hdr.capabilities.min_luminance as u32,
                    max: if hdr.capabilities.max_luminance > 0 {
                        hdr.capabilities.max_luminance as u32
                    } else {
                        DEFAULT_PEAK_LUMINANCE as u32
                    },
                    reference_white: white_or_default(hdr.reference_white) as u32,
                },
            ),
            ..ImageDescription::plain(TransferFunction::St2084Pq, Primaries::Bt2020)
        },
    }
}

/// The description of an output, as clients see it: that of its committed HDR
/// state, or else sRGB. A state that is merely staged is not reported.
pub fn description_for_output(state: Option<&HdrOutputState>) -> (description: ImageDescription)
    ensures
        description == description_of(visible_of(state_view(state))),
{
    let active: Option<ActiveHdrOutput> = match state {
        Some(state) => state.get(),
        None => None,
    };
    let hdr: ActiveHdrOutput = match active {
        Some(hdr) => hdr,
        None => {
            return ImageDescription::srgb();
        },
    };
    let max_luminance: u32 = if hdr.capabilities.max_luminance > 0 {
        hdr.capabilities.max_luminance as u32
    } else {
        DEFAULT_PEAK_LUMINANCE as u32
    };
    let reference_white: u32 = if hdr.reference_white > 0 {
        hdr.reference_white as u32
    } else {
        DEFAULT_REFERENCE_WHITE as u32
    };
    ImageDescription {
        transfer: TransferFunction::St2084Pq,
        primaries: PrimariesOption { named: Some(Primaries::Bt2020), values: None },
        max_cll: if hdr.capabilities.max_luminance > 0 {
            Some(hdr.capabilities.max_luminance as u32)
        } else {
            None
        },
        max_fall: if hdr.capabilities.max_frame_average_luminance > 0 {
            Some(hdr.capabilities.max_frame_average_luminance as u32)
        } else {
            None
        },
        mastering_luminance: None,
        mastering_primaries: None,
        luminances: Some(
            Luminances {
                min: hdr.capabilities.min_luminance as u32,
                max: max_luminance,
                reference_white,
            },
        ),
        windows_scrgb: false,
        windows_bt2100: false,
    }
}

/// The output whose description a surface should prefer: the one it is scanned
/// out on, or else one it is visible on, or else the focused one, so that
/// surfaces probing before they are mapped see the right preference, or else
/// the first.
pub fn preferred_output(
    scanout: Option<u64>,
    visible: Option<u64>,
    focused: Option<u64>,
    first: Option<u64>,
) -> (output: Option<u64>)
    ensures
        output == if scanout is Some {
            scanout
        } else if visible is Some {
            visible
        } else if focused is Some {
            focused
        } else {
            first
        },
{
    if scanout.is_some() {
        scanout
    } else if visible.is_some() {
        visible
    } else if focused.is_some() {
        focused
    } else {
        first
    }
}

/// Clients see an output as sRGB while its HDR state is merely staged, and in
/// that state from the moment a frame commits it.
pub proof fn lemma_staged_hdr_is_not_described(
    before: HdrOutputStateView,
    state: Option<ActiveHdrOutput>,
)
    ensures
        description_of(visible_of(Some(before.after_stage(state)))) == ImageDescription::plain(
            TransferFunction::Srgb,
            Primaries::Srgb,
        ),
        description_of(visible_of(Some(before.after_stage(state).after_commit())))
            == description_of(state),
{
}

/// A description is HDR exactly when it is that of an HDR state, and content in
/// that very description can be scanned out on an output in that state directly.
pub proof fn lemma_own_description_matches(active: Option<ActiveHdrOutput>)
    ensures
        description_of(active).hdr() == (active is Some),
        target_of(active).hdr_enabled == (active is Some),
        matches_output(target_of(active).hdr_enabled, Some(description_of(active))),
{
}

/// How cursor pixels are encoded before they reach the cursor plane.
#[derive(Debug, Clone, Copy, PartialEq, Eq, Structural)]
pub enum CursorTransformMode {
    Passthrough,
    PqEncode { ref_white: u32 },
    LinearRec709,
}

impl CursorTransformMode {
    /// The mode for an output's state: cursors stay sRGB on SDR outputs, are
    /// linear where the CRTC converts scRGB, and PQ otherwise.
    pub open spec fn wanted(
        hdr_enabled: bool,
        active_scanout_plan: Option<ScanoutPlan>,
        reference_white: u32,
    ) -> CursorTransformMode {
        if !hdr_enabled {
            CursorTransformMode::Passthrough
        } else if active_scanout_plan matches Some(plan) && (plan matches ScanoutPlan::CrtcHardware(
            conversion,
        ) && conversion is ScRgbToPq) {
            CursorTransformMode::LinearRec709
        } else {
            CursorTransformMode::PqEncode { ref_white: reference_white }
        }
    }

    /// The mode for an output's state. `reference_white` is in whole cd/m².
    pub fn for_state(
        hdr_enabled: bool,
        active_scanout_plan: Option<ScanoutPlan>,
        reference_white: u32,
    ) -> (mode: CursorTransformMode)
        ensures
            mode == CursorTransformMode::wanted(hdr_enabled, active_scanout_plan, reference_white),
    {
        if !hdr_enabled {
            CursorTransformMode::Passthrough
        } else {
            match active_scanout_plan {
                Some(ScanoutPlan::CrtcHardware(PlaneColorConversion::ScRgbToPq { .. })) => {
                    CursorTransformMode::LinearRec709
                },
                _ => CursorTransformMode::PqEncode { ref_white: reference_white },
            }
        }
    }
}

/// How sRGB cursor pixels are encoded on the CPU.
#[derive(Debug, Clone, Copy, PartialEq, Eq, Structural)]
pub enum CursorEncoder {
    /// To BT.2020 PQ, with white at this many cd/m².
    Pq { ref_white: u32 },
    /// To linear Rec. 709, with white at this fraction of full scale.
    LinearRec709 { numerator: u64, denominator: u64 },
}

/// The encoders of an output's cursor plane. Without one, pixels stay as they are.
#[derive(Debug, Clone, Copy, PartialEq, Eq, Structural)]
pub struct CursorTransforms {
    /// For a cursor plane that is sent out as it is.
    pub buffer: Option<CursorEncoder>,
    /// For a cursor plane that is encoded after blending.
    pub post_blend: Option<CursorEncoder>,
}

impl CursorTransformMode {
    /// The encoder that a mode installs.
    pub open spec fn spec_encoder(self) -> Option<CursorEncoder> {
        match self {
            CursorTransformMode::Passthrough => None,
            CursorTransformMode::PqEncode { ref_white } => Some(CursorEncoder::Pq { ref_white }),
            CursorTransformMode::LinearRec709 => Some(
                CursorEncoder::LinearRec709 { numerator: 1, denominator: 1 },
            ),
        }
    }

    /// The encoder that a mode installs.
    pub fn encoder(self) -> (encoder: Option<CursorEncoder>)
        ensures
            encoder == self.spec_encoder(),
    {
        match self {
            CursorTransformMode::Passthrough => None,
            CursorTransformMode::PqEncode { ref_white } => Some(CursorEncoder::Pq { ref_white }),
            CursorTransformMode::LinearRec709 => Some(
                CursorEncoder::LinearRec709 { numerator: 1, denominator: 1 },
            ),
        }
    }
}

/// The luminance that full scale stands for before blended content is encoded:
/// five times the reference white, and at least 1000 cd/m².
pub open spec fn post_blend_peak(reference_white: u32) -> int {
    if reference_white * 5 > 1_000 {
        reference_white * 5
    } else {
        1_000
    }
}

/// The encoder of a cursor that is blended before the output is encoded.
pub open spec fn post_blend_encoder_of(hdr_enabled: bool, reference_white: u32) -> Option<
    CursorEncoder,
> {
    if hdr_enabled {
        Some(
            CursorEncoder::LinearRec709 {
                numerator: reference_white as u64,
                denominator: post_blend_peak(reference_white) as u64,
            },
        )
    } else {
        None
    }
}

/// The encoder of a cursor that is blended before the output is encoded.
pub fn post_blend_encoder(hdr_enabled: bool, reference_white: u32) -> (encoder: Option<
    CursorEncoder,
>)
    ensures
        encoder == post_blend_encoder_of(hdr_enabled, reference_white),
{
    if !hdr_enabled {
        return None;
    }
    let scaled: u64 = reference_white as u64 * 5;
    let peak: u64 = if scaled > 1_000 {
        scaled
    } else {
        1_000
    };
    Some(CursorEncoder::LinearRec709 { numerator: reference_white as u64, denominator: peak })
}

/// White in a blended cursor never exceeds full scale.
pub proof fn lemma_post_blend_white_fits(reference_white: u32)
    ensures
        0 < post_blend_peak(reference_white),
        reference_white <= post_blend_peak(reference_white),
{
}

/// The encoders of a cursor plane on an output in this state.
pub open spec fn transforms_for(
    hdr_enabled: bool,
    active_scanout_plan: Option<ScanoutPlan>,
    reference_white: u32,
) -> CursorTransforms {
    CursorTransforms {
        buffer: CursorTransformMode::wanted(
            hdr_enabled,
            active_scanout_plan,
            reference_white,
        ).spec_encoder(),
        post_blend: post_blend_encoder_of(hdr_enabled, reference_white),
    }
}

/// Brings the cursor transform up to date. Returns the encoders to install on the
/// compositor, or `None` where the mode is the same and nothing is to be installed.
pub fn apply_cursor_buffer_transform(
    current_mode: &mut Option<CursorTransformMode>,
    hdr_enabled: bool,
    active_scanout_plan: Option<ScanoutPlan>,
    reference_white: u32,
) -> (install: Option<CursorTransforms>)
    ensures
        *final(current_mode) == Some(
            CursorTransformMode::wanted(hdr_enabled, active_scanout_plan, reference_white),
        ),
        install == if *old(current_mode) != *final(current_mode) {
            Some(transforms_for(hdr_enabled, active_scanout_plan, reference_white))
        } else {
            None
        },
{
    let desired: CursorTransformMode = CursorTransformMode::for_state(
        hdr_enabled,
        active_scanout_plan,
        reference_white,
    );
    let changed: bool = match *current_mode {
        Some(mode) => mode != desired,
        None => true,
    };
    if !changed {
        return None;
    }
    *current_mode = Some(desired);
    Some(
        CursorTransforms {
            buffer: desired.encoder(),
            post_blend: post_blend_encoder(hdr_enabled, reference_white),
        },
    )
}

/// The fourcc code of 10-bit ABGR.
pub const ABGR2101010: u32 = 0x3033_4241;

/// The fourcc code of 10-bit ARGB.
pub const ARGB2101010: u32 = 0x3033_5241;

/// The fourcc code of 8-bit ABGR.
pub const ABGR8888: u32 = 0x3432_4241;

/// The fourcc code of 8-bit ARGB.
pub const ARGB8888: u32 = 0x3432_5241;

/// The format of the buffer that elements are composited in before they are
/// post-processed: 8 bits in the same channel order where the result is
/// encoded for HDR, the output's own format otherwise.
pub fn postprocess_intermediate_format(format: u32, hdr_enabled: bool) -> (intermediate: u32)
    ensures
        intermediate == if hdr_enabled && format == ABGR2101010 {
            ABGR8888
        } else if hdr_enabled && format == ARGB2101010 {
            ARGB8888
        } else {
            format
        },
{
    if hdr_enabled && format == ABGR2101010 {
        ABGR8888
    } else if hdr_enabled && format == ARGB2101010 {
        ARGB8888
    } else {
        format
    }
}

/// A description is PQ exactly with that transfer function and BT.2020 primaries, and
/// HDR with a transfer function that reaches beyond SDR white; and the well-known
/// descriptions are what their names say.
pub proof fn lemma_descriptions_mean_what_they_say(
    description: ImageDescription,
    pq: bool,
    hdr: bool,
    srgb: ImageDescription,
    scrgb: ImageDescription,
    bt2100: ImageDescription,
)
    requires
        call_ensures(ImageDescription::is_pq_bt2020, (&description,), pq),
        call_ensures(ImageDescription::is_hdr, (&description,), hdr),
        call_ensures(ImageDescription::srgb, (), srgb),
        call_ensures(ImageDescription::windows_scrgb, (), scrgb),
        call_ensures(ImageDescription::windows_bt2100, (), bt2100),
    ensures
        pq <==> (description.transfer is St2084Pq) && description.primaries.named == Some(
            Primaries::Bt2020,
        ),
        hdr <==> !(description.transfer is Srgb) && !(description.transfer is Gamma22),
        pq ==> hdr,
        srgb.transfer is Srgb && srgb.primaries.named == Some(Primaries::Srgb)
            && !srgb.windows_scrgb && !srgb.windows_bt2100 && srgb.luminances is None
            && srgb.max_cll is None && srgb.max_fall is None,
        scrgb.transfer is ExtLinear && scrgb.primaries.named == Some(Primaries::Srgb)
            && scrgb.windows_scrgb && !scrgb.windows_bt2100,
        bt2100.transfer is St2084Pq && bt2100.primaries.named == Some(Primaries::Bt2020)
            && bt2100.windows_bt2100 && !bt2100.windows_scrgb,
{
}

/// A surface is scanned out as it is exactly where it is what the output sends: PQ on
/// an HDR output, and anything but HDR on an SDR output, where a surface without a
/// description is SDR.
pub proof fn lemma_surface_matches_its_output(
    output_hdr_enabled: bool,
    description: &ImageDescription,
    compatible: bool,
    undescribed: bool,
    is_fullscreen_hdr: bool,
    alike: bool,
)
    requires
        call_ensures(
            is_surface_scanout_compatible,
            (output_hdr_enabled, Some(description)),
            compatible,
        ),
        call_ensures(
            is_surface_scanout_compatible,
            (output_hdr_enabled, None::<&ImageDescription>),
            undescribed,
        ),
        call_ensures(is_scanout_compatible, (output_hdr_enabled, is_fullscreen_hdr), alike),
    ensures
        output_hdr_enabled ==> (compatible <==> (description.transfer is St2084Pq)
            && description.primaries.named == Some(Primaries::Bt2020)),
        !output_hdr_enabled ==> (compatible <==> (description.transfer is Srgb)
            || description.transfer is Gamma22),
        undescribed <==> !output_hdr_enabled,
        alike <==> (output_hdr_enabled && is_fullscreen_hdr) || (!output_hdr_enabled
            && !is_fullscreen_hdr),
{
}

/// A plan puts the surface on the primary plane unless the GPU converts it.
pub proof fn lemma_plans_use_the_primary_plane(plan: ScanoutPlan, allowed: bool)
    requires
        call_ensures(ScanoutPlan::allows_primary_scanout, (&plan,), allowed),
    ensures
        plan is DirectPassthrough || plan is PlaneColorop || plan is CrtcHardware ==> allowed,
        plan is VulkanFastDirectFlip ==> !allowed,
{
}

/// Surfaces are converted to the best that is known of an output: the state that is
/// committed or staged, with its white and its peak where they are known, and SDR
/// without one.
pub proof fn lemma_target_is_the_best_known_state(
    state: &HdrOutputState,
    best: Option<ActiveHdrOutput>,
    target: ScanoutTarget,
    without: ScanoutTarget,
)
    requires
        call_ensures(HdrOutputState::get_or_staged, (state,), best),
        call_ensures(scanout_target, (Some(state),), target),
        call_ensures(scanout_target, (None::<&HdrOutputState>,), without),
    ensures
        target.hdr_enabled <==> best is Some,
        best is None ==> target == without,
        !without.hdr_enabled && without.reference_white == 203 && without.peak_luminance is None,
        best matches Some(hdr) ==> {
            &&& hdr.reference_white > 0 ==> target.reference_white == hdr.reference_white
            &&& hdr.reference_white == 0 ==> target.reference_white == 203
            &&& hdr.capabilities.max_luminance > 0 ==> target.peak_luminance == Some(
                hdr.capabilities.max_luminance,
            )
            &&& hdr.capabilities.max_luminance == 0 ==> target.peak_luminance is None
        },
{
}

/// Clients see an output as what is committed: PQ with BT.2020 primaries and the
/// luminances that are known, and sRGB without a committed state.
pub proof fn lemma_clients_see_what_is_committed(
    state: &HdrOutputState,
    committed: Option<ActiveHdrOutput>,
    description: ImageDescription,
    without: ImageDescription,
    srgb: ImageDescription,
)
    requires
        call_ensures(HdrOutputState::get, (state,), committed),
        call_ensures(description_for_output, (Some(state),), description),
        call_ensures(description_for_output, (None::<&HdrOutputState>,), without),
        call_ensures(ImageDescription::srgb, (), srgb),
    ensures
        without == srgb,
        committed is None ==> description == srgb,
        committed matches Some(hdr) ==> {
            let sink = hdr.capabilities;
            &&& description.transfer is St2084Pq
            &&& description.primaries.named == Some(Primaries::Bt2020)
            &&& !description.windows_scrgb && !description.windows_bt2100
            &&& description.max_cll is Some <==> sink.max_luminance > 0
            &&& description.max_cll matches Some(max) ==> max == sink.max_luminance
            &&& description.max_fall is Some <==> sink.max_frame_average_luminance > 0
            &&& description.max_fall matches Some(max) ==> max == sink.max_frame_average_luminance
            &&& description.luminances matches Some(luminances) && luminances.min
                == sink.min_luminance && (sink.max_luminance > 0 ==> luminances.max
                == sink.max_luminance) && (sink.max_luminance == 0 ==> luminances.max == 1_000) && (
            hdr.reference_white > 0 ==> luminances.reference_white == hdr.reference_white) && (
            hdr.reference_white == 0 ==> luminances.reference_white == 203)
        },
{
}

/// A surface prefers the output that it is scanned out on, then one that shows it,
/// then the focused one, then the first.
pub proof fn lemma_preferred_output(
    scanout: Option<u64>,
    visible: Option<u64>,
    focused: Option<u64>,
    first: Option<u64>,
    output: Option<u64>,
)
    requires
        call_ensures(preferred_output, (scanout, visible, focused, first), output),
    ensures
        scanout matches Some(id) ==> output == Some(id),
        scanout is None ==> (visible matches Some(id) ==> output == Some(id)),
        scanout is None && visible is None ==> (focused matches Some(id) ==> output == Some(id)),
        scanout is None && visible is None && focused is None ==> output == first,
{
}

/// Cursor pixels stay sRGB on an SDR output, are linear where the CRTC encodes linear
/// content, and PQ at the reference white on any other HDR output; on an HDR output
/// they are also linear, at no more than full scale, before what is blended is
/// encoded. Encoders are installed exactly when the mode changes.
pub proof fn lemma_cursor_matches_its_output(
    mode: &mut Option<CursorTransformMode>,
    hdr_enabled: bool,
    plan: Option<ScanoutPlan>,
    reference_white: u32,
    install: Option<CursorTransforms>,
    wanted: CursorTransformMode,
)
    requires
        call_ensures(
            apply_cursor_buffer_transform,
            (mode, hdr_enabled, plan, reference_white),
            install,
        ),
        call_ensures(
            CursorTransformMode::for_state,
            (hdr_enabled, plan, reference_white),
            wanted,
        ),
    ensures
        *final(mode) == Some(wanted),
        install is Some <==> *old(mode) != Some(wanted),
        wanted is Passthrough <==> !hdr_enabled,
        wanted is LinearRec709 <==> hdr_enabled && (plan matches Some(
            ScanoutPlan::CrtcHardware(PlaneColorConversion::ScRgbToPq { .. }),
        )),
        wanted matches CursorTransformMode::PqEncode { ref_white } ==> ref_white
            == reference_white,
        install matches Some(transforms) ==> {
            &&& wanted is Passthrough ==> transforms.buffer is None && transforms.post_blend is None
            &&& wanted is PqEncode ==> transforms.buffer == Some(
                CursorEncoder::Pq { ref_white: reference_white },
            )
            &&& wanted is LinearRec709 ==> (transforms.buffer matches Some(
                CursorEncoder::LinearRec709 { numerator, denominator },
            ) && numerator == denominator && denominator > 0)
            &&& hdr_enabled ==> (transforms.post_blend matches Some(
                CursorEncoder::LinearRec709 { numerator, denominator },
            ) && numerator == reference_white && denominator >= 1_000 && denominator >= 5
                * reference_white && (denominator == 1_000 || denominator == 5 * reference_white))
        },
{
}

/// The encoder of a mode, and the one for blended content, on their own.
pub proof fn lemma_cursor_encoders(
    mode: CursorTransformMode,
    encoder: Option<CursorEncoder>,
    hdr_enabled: bool,
    reference_white: u32,
    blended: Option<CursorEncoder>,
)
    requires
        call_ensures(CursorTransformMode::encoder, (mode,), encoder),
        call_ensures(post_blend_encoder, (hdr_enabled, reference_white), blended),
    ensures
        encoder is None <==> mode is Passthrough,
        mode matches CursorTransformMode::PqEncode { ref_white } ==> encoder == Some(
            CursorEncoder::Pq { ref_white },
        ),
        mode is LinearRec709 ==> (encoder matches Some(
            CursorEncoder::LinearRec709 { numerator, denominator },
        ) && numerator == denominator),
        blended is Some <==> hdr_enabled,
        blended matches Some(encoder) ==> (encoder matches CursorEncoder::LinearRec709 {
            numerator,
            denominator,
        } && numerator == reference_white && denominator >= 1_000 && denominator >= 5
            * reference_white && (denominator == 1_000 || denominator == 5 * reference_white)),
{
}

/// Content is composited in the output's own format, and for HDR in eight bits of the
/// same order where that has ten.
pub proof fn lemma_intermediate_format(format: u32, hdr_enabled: bool, intermediate: u32)
    requires
        call_ensures(postprocess_intermediate_format, (format, hdr_enabled), intermediate),
    ensures
        !hdr_enabled ==> intermediate == format,
        hdr_enabled && format == 0x3033_4241 ==> intermediate == 0x3432_4241,
        hdr_enabled && format == 0x3033_5241 ==> intermediate == 0x3432_5241,
        format != 0x3033_4241 && format != 0x3033_5241 ==> intermediate == format,
{
}

} // verus!
