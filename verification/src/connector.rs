//! What the properties and modes of a connector mean.
use crate::geometry::Transform;
use crate::text::{decimal, decimal_text, same_text};
use std::ops::Range;
use vstd::prelude::*;
use vstd::string::*;

verus! {

/// The kind of plug that a connector has.
#[derive(Debug)]
pub enum ConnectorInterface {
    DVII,
    DVID,
    DVIA,
    SVideo,
    DisplayPort,
    HDMIA,
    HDMIB,
    EmbeddedDisplayPort,
    /// Any other kind, under its own name.
    Other(String),
}

impl ConnectorInterface {
    /// The short name of this kind of plug.
    pub open spec fn short_name(self) -> Seq<char> {
        match self {
            ConnectorInterface::DVII => "DVI-I"@,
            ConnectorInterface::DVID => "DVI-D"@,
            ConnectorInterface::DVIA => "DVI-A"@,
            ConnectorInterface::SVideo => "S-VIDEO"@,
            ConnectorInterface::DisplayPort => "DP"@,
            ConnectorInterface::HDMIA => "HDMI-A"@,
            ConnectorInterface::HDMIB => "HDMI-B"@,
            ConnectorInterface::EmbeddedDisplayPort => "eDP"@,
            ConnectorInterface::Other(name) => name@,
        }
    }
}

/// The name of a connector: its kind and its number, such as `HDMI-A-1`.
pub fn interface_name(interface: &ConnectorInterface, interface_id: u32) -> (name: String)
    ensures
        name@ == interface.short_name() + "-"@ + decimal(interface_id as nat),
{
    let short_name: &str = match interface {
        ConnectorInterface::DVII => "DVI-I",
        ConnectorInterface::DVID => "DVI-D",
        ConnectorInterface::DVIA => "DVI-A",
        ConnectorInterface::SVideo => "S-VIDEO",
        ConnectorInterface::DisplayPort => "DP",
        ConnectorInterface::HDMIA => "HDMI-A",
        ConnectorInterface::HDMIB => "HDMI-B",
        ConnectorInterface::EmbeddedDisplayPort => "eDP",
        ConnectorInterface::Other(name) => name.as_str(),
    };
    let mut name: String = String::from_str(short_name);
    name.append("-");
    name.append(decimal_text(interface_id).as_str());
    name
}

/// What a property holds, by its type.
#[derive(Debug, Clone, Copy, PartialEq, Eq, Structural)]
pub enum PropertyContent {
    UnsignedRange { min: u64, max: u64, value: u64 },
    /// The value, if it is one of those that the property allows.
    Enum(Option<u64>),
    /// The id of a blob.
    Blob(u64),
    Other,
}

/// The name and content of a property. A name that is not valid text is `None`.
#[derive(Debug)]
pub struct PropertyInfo {
    pub name: Option<String>,
    pub content: PropertyContent,
}

/// A property of an object, as far as it could be read.
#[derive(Debug)]
pub struct Property {
    pub handle: u32,
    pub info: Option<PropertyInfo>,
}

/// Why a property was not found.
#[derive(Debug, Clone, Copy, PartialEq, Eq, Structural)]
pub enum PropertyError {
    /// This property could not be read, and the wanted one does not come before it.
    Unreadable(u32),
    /// There is no property of that name.
    NotFound,
}

impl Property {
    /// Whether this property is called `name`.
    pub open spec fn is_named(self, name: Seq<char>) -> bool {
        self.info matches Some(info) && (info.name matches Some(own) && own@ == name)
    }
}

/// The first of `props` from `from` on that is called `name`, if no unreadable
/// one comes before it.
pub open spec fn first_named(props: Seq<Property>, name: Seq<char>, from: int) -> Result<
    int,
    PropertyError,
>
    decreases props.len() - from,
{
    if from < 0 || from >= props.len() {
        Err(PropertyError::NotFound)
    } else if props[from].info is None {
        Err(PropertyError::Unreadable(props[from].handle))
    } else if props[from].is_named(name) {
        Ok(from)
    } else {
        first_named(props, name, from + 1)
    }
}

fn find_named(props: &Vec<Property>, name: &str) -> (found: Result<usize, PropertyError>)
    ensures
        match found {
            Ok(at) => at < props.len() && props[at as int].info is Some && first_named(
                props@,
                name@,
                0,
            ) == Ok::<int, PropertyError>(at as int),
            Err(error) => first_named(props@, name@, 0) == Err::<int, PropertyError>(error),
        },
{
    let mut i: usize = 0;
    while i < props.len()
        invariant
            i <= props.len(),
            first_named(props@, name@, 0) == first_named(props@, name@, i as int),
        decreases props.len() - i,
    {
        match &props[i].info {
            None => {
                return Err(PropertyError::Unreadable(props[i].handle));
            },
            Some(info) => {
                if let Some(own) = &info.name {
                    if same_text(own.as_str(), name) {
                        return Ok(i);
                    }
                }
            },
        }
        i = i + 1;
    }
    Err(PropertyError::NotFound)
}

/// The handle of the first property called `name`.
pub fn get_prop(props: &Vec<Property>, name: &str) -> (handle: Result<u32, PropertyError>)
    ensures
        handle == match first_named(props@, name@, 0) {
            Ok(at) => Ok(props@[at].handle),
            Err(error) => Err(error),
        },
{
    match find_named(props, name) {
        Ok(at) => Ok(props[at].handle),
        Err(error) => Err(error),
    }
}

/// The content of the property at `at`.
pub open spec fn content_at(props: Seq<Property>, at: int) -> PropertyContent {
    props[at].info->0.content
}

/// The content of the first property called `name`.
pub open spec fn named_content(props: Seq<Property>, name: Seq<char>) -> Result<
    PropertyContent,
    PropertyError,
> {
    match first_named(props, name, 0) {
        Ok(at) => Ok(content_at(props, at)),
        Err(error) => Err(error),
    }
}

/// The content of the first property called `name`.
pub fn get_property_val(props: &Vec<Property>, name: &str) -> (content: Result<
    PropertyContent,
    PropertyError,
>)
    ensures
        content == named_content(props@, name@),
{
    match find_named(props, name) {
        Ok(at) => match &props[at].info {
            Some(info) => Ok(info.content),
            None => Err(PropertyError::NotFound),
        },
        Err(error) => Err(error),
    }
}

/// The blob that holds the EDID of a connector; `None` where its `EDID`
/// property is no blob.
pub fn edid_blob(props: &Vec<Property>) -> (blob: Result<Option<u64>, PropertyError>)
    ensures
        blob == match named_content(props@, "EDID"@) {
            Ok(PropertyContent::Blob(id)) => Ok(Some(id)),
            Ok(_) => Ok(None),
            Err(error) => Err(error),
        },
{
    match get_property_val(props, "EDID") {
        Ok(PropertyContent::Blob(id)) => Ok(Some(id)),
        Ok(_) => Ok(None),
        Err(error) => Err(error),
    }
}

/// The low 32 bits of `value`.
pub open spec fn low_bits(value: u64) -> u32 {
    (value % 0x1_0000_0000) as u32
}

fn low_word(value: u64) -> (low: u32)
    ensures
        low == low_bits(value),
{
    (value % 0x1_0000_0000) as u32
}

/// Why `max bpc` cannot be used.
#[derive(Debug, Clone, Copy, PartialEq, Eq, Structural)]
pub enum MaxBpcError {
    /// The property does not hold an unsigned range.
    WrongValueType,
    /// The connector has no such property.
    Missing,
}

/// What `max bpc` holds: its value, and the range it can be set to.
pub open spec fn max_bpc(props: Seq<Property>) -> Result<Option<(u32, u32, u32)>, MaxBpcError> {
    match named_content(props, "max bpc"@) {
        Err(_) => Ok(None),
        Ok(PropertyContent::UnsignedRange { min, max, value }) => Ok(
            Some((low_bits(value), low_bits(min), low_bits(max))),
        ),
        Ok(_) => Err(MaxBpcError::WrongValueType),
    }
}

/// The value of `max bpc` and the bounds that it can be set to. `None` where
/// the connector has no such property.
pub fn get_max_bpc(props: &Vec<Property>) -> (bpc: Result<Option<(u32, Range<u32>)>, MaxBpcError>)
    ensures
        match max_bpc(props@) {
            Ok(Some((value, min, max))) => bpc == Ok::<Option<(u32, Range<u32>)>, MaxBpcError>(
                Some((value, Range { start: min, end: max })),
            ),
            Ok(None) => bpc == Ok::<Option<(u32, Range<u32>)>, MaxBpcError>(None),
            Err(error) => bpc == Err::<Option<(u32, Range<u32>)>, MaxBpcError>(error),
        },
{
    match get_property_val(props, "max bpc") {
        Err(_) => Ok(None),
        Ok(PropertyContent::UnsignedRange { min, max, value }) => Ok(
            Some((low_word(value), Range { start: low_word(min), end: low_word(max) })),
        ),
        Ok(_) => Err(MaxBpcError::WrongValueType),
    }
}

/// `value`, held between `min` and `max`.
pub open spec fn held_between(value: u32, min: u32, max: u32) -> u32 {
    if value < min {
        min
    } else if value > max {
        max
    } else {
        value
    }
}

/// The value to write to `max bpc` for a wanted depth: the closest that the
/// property allows.
pub fn set_max_bpc(props: &Vec<Property>, bpc: u32) -> (value: Result<u64, MaxBpcError>)
    requires
        max_bpc(props@) matches Ok(Some((_, min, max))) ==> min <= max,
    ensures
        value == match max_bpc(props@) {
            Ok(Some((_, min, max))) => Ok(held_between(bpc, min, max) as u64),
            Ok(None) => Err(MaxBpcError::Missing),
            Err(error) => Err(error),
        },
{
    match get_max_bpc(props) {
        Err(error) => Err(error),
        Ok(None) => Err(MaxBpcError::Missing),
        Ok(Some((_, range))) => {
            let clamped: u32 = if bpc < range.start {
                range.start
            } else if bpc > range.end {
                range.end
            } else {
                bpc
            };
            Ok(clamped as u64)
        },
    }
}

/// The timing of a mode.
#[derive(Debug, Clone, Copy, PartialEq, Eq, Structural)]
pub struct ModeTiming {
    /// Pixel clock in kHz.
    pub clock: u32,
    pub htotal: u16,
    pub vtotal: u16,
    pub vscan: u16,
    pub interlace: bool,
    pub dblscan: bool,
}

impl ModeTiming {
    /// Frames per 1000 seconds as the clock and the totals give them, rounded.
    pub open spec fn scan_rate(self) -> int {
        (self.clock * 1_000_000 / self.htotal as int + self.vtotal as int / 2) / self.vtotal as int
    }

    /// The scan rate with interlacing, double scan and repeated lines.
    pub open spec fn refresh(self) -> int {
        let base = self.scan_rate();
        let fields = if self.interlace {
            base * 2
        } else {
            base
        };
        let scans = if self.dblscan {
            fields / 2
        } else {
            fields
        };
        if self.vscan > 1 {
            scans / self.vscan as int
        } else {
            scans
        }
    }
}

/// The refresh rate of a mode in millihertz, in 32 bits.
pub fn calculate_refresh_rate(mode: ModeTiming) -> (rate: u32)
    requires
        mode.htotal > 0,
        mode.vtotal > 0,
    ensures
        rate == mode.refresh() % 0x1_0000_0000,
        mode.refresh() >= 0,
{
    let htotal: u64 = mode.htotal as u64;
    let vtotal: u64 = mode.vtotal as u64;
    let clock: u64 = mode.clock as u64;
    assert(clock * 1_000_000 <= 0xffff_ffff * 1_000_000) by (nonlinear_arith)
        requires
            clock <= 0xffff_ffff,
    ;
    let pixels: u64 = clock * 1_000_000;
    let lines: u64 = pixels / htotal;
    assert(lines <= pixels) by (nonlinear_arith)
        requires
            lines == pixels / htotal,
            htotal > 0,
    ;
    let sum: u64 = lines + vtotal / 2;
    let mut refresh: u64 = sum / vtotal;
    assert(refresh <= sum) by (nonlinear_arith)
        requires
            refresh == sum / vtotal,
            vtotal > 0,
    ;
    assert(refresh == mode.scan_rate());
    if mode.interlace {
        refresh = refresh * 2;
    }
    if mode.dblscan {
        refresh = refresh / 2;
    }
    if mode.vscan > 1 {
        refresh = refresh / mode.vscan as u64;
    }
    assert(refresh == mode.refresh());
    (refresh % 0x1_0000_0000) as u32
}

/// A display descriptor of an EDID: the range limits it holds, if that is its tag.
#[derive(Debug, Clone, Copy, PartialEq, Eq, Structural)]
pub enum DisplayDescriptor {
    /// The minimum vertical rate in Hz; `None` where the block is invalid.
    RangeLimits(Option<u32>),
    Other,
}

/// The first range limits at or after `from`.
pub open spec fn first_range_limits(descriptors: Seq<DisplayDescriptor>, from: int) -> Option<
    Option<u32>,
>
    decreases descriptors.len() - from,
{
    if from < 0 || from >= descriptors.len() {
        None
    } else {
        match descriptors[from] {
            DisplayDescriptor::RangeLimits(min) => Some(min),
            DisplayDescriptor::Other => first_range_limits(descriptors, from + 1),
        }
    }
}

/// The range limits descriptor of an EDID is invalid.
#[derive(Debug, Clone, Copy, PartialEq, Eq, Structural)]
pub struct InvalidRangeLimits;

/// The minimum refresh rate in Hz that an EDID states, if it states one.
pub fn get_minimum_refresh_rate(descriptors: &Vec<DisplayDescriptor>) -> (rate: Result<
    Option<u32>,
    InvalidRangeLimits,
>)
    ensures
        rate == match first_range_limits(descriptors@, 0) {
            None => Ok(None),
            Some(Some(min)) => Ok(Some(min)),
            Some(None) => Err(InvalidRangeLimits),
        },
{
    let mut i: usize = 0;
    while i < descriptors.len()
        invariant
            i <= descriptors.len(),
            first_range_limits(descriptors@, 0) == first_range_limits(descriptors@, i as int),
        decreases descriptors.len() - i,
    {
        if let DisplayDescriptor::RangeLimits(min) = descriptors[i] {
            return match min {
                Some(min) => Ok(Some(min)),
                None => Err(InvalidRangeLimits),
            };
        }
        i = i + 1;
    }
    Ok(None)
}

/// Why the orientation of a panel is unknown.
#[derive(Debug, Clone, Copy, PartialEq, Eq, Structural)]
pub enum PanelOrientationError {
    Property(PropertyError),
    InvalidValue(u64),
    WrongValueType,
}

/// How a panel is mounted, by the value of its `panel orientation`.
pub open spec fn orientation_of(value: u64) -> Option<Transform> {
    if value == 0 {
        Some(Transform::Normal)
    } else if value == 1 {
        Some(Transform::_180)
    } else if value == 2 {
        Some(Transform::_90)
    } else if value == 3 {
        Some(Transform::_270)
    } else {
        None
    }
}

/// How a panel is mounted: normal, upside down, left side up or right side up.
pub fn panel_orientation(props: &Vec<Property>) -> (orientation: Result<
    Transform,
    PanelOrientationError,
>)
    ensures
        orientation == match named_content(props@, "panel orientation"@) {
            Err(error) => Err(PanelOrientationError::Property(error)),
            Ok(PropertyContent::Enum(Some(value))) => match orientation_of(value) {
                Some(transform) => Ok(transform),
                None => Err(PanelOrientationError::InvalidValue(value)),
            },
            Ok(_) => Err(PanelOrientationError::WrongValueType),
        },
{
    match get_property_val(props, "panel orientation") {
        Err(error) => Err(PanelOrientationError::Property(error)),
        Ok(PropertyContent::Enum(Some(value))) => match value {
            0 => Ok(Transform::Normal),
            1 => Ok(Transform::_180),
            2 => Ok(Transform::_90),
            3 => Ok(Transform::_270),
            _ => Err(PanelOrientationError::InvalidValue(value)),
        },
        Ok(_) => Err(PanelOrientationError::WrongValueType),
    }
}

/// Whether a property could be read and has another name.
pub open spec fn is_another(prop: Property, name: Seq<char>) -> bool {
    prop.info matches Some(info) && !(info.name matches Some(own) && own@ == name)
}

/// A property is found by its name: the first that has it, unless one before it could
/// not be read, which is reported then; without either it is not found.
pub proof fn lemma_property_is_found_by_name(
    props: &Vec<Property>,
    name: &str,
    handle: Result<u32, PropertyError>,
    content: Result<PropertyContent, PropertyError>,
    i: int,
)
    requires
        call_ensures(get_prop, (props, name), handle),
        call_ensures(get_property_val, (props, name), content),
        0 <= i <= props.len(),
        forall|j: int| 0 <= j < i ==> is_another(#[trigger] props@[j], name@),
    ensures
        i == props.len() ==> handle == Err::<u32, _>(PropertyError::NotFound) && content == Err::<
            PropertyContent,
            _,
        >(PropertyError::NotFound),
        i < props.len() && props@[i].info is None ==> handle == Err::<u32, _>(
            PropertyError::Unreadable(props@[i].handle),
        ) && content == Err::<PropertyContent, _>(PropertyError::Unreadable(props@[i].handle)),
        i < props.len() && (props@[i].info matches Some(info) && (info.name matches Some(own)
            && own@ == name@)) ==> handle == Ok::<_, PropertyError>(props@[i].handle) && content
            == Ok::<_, PropertyError>(props@[i].info->0.content),
{
    lemma_first_named(props@, name@, 0, i);
}

proof fn lemma_first_named(props: Seq<Property>, name: Seq<char>, from: int, i: int)
    requires
        0 <= from <= i <= props.len(),
        forall|j: int| from <= j < i ==> is_another(#[trigger] props[j], name),
    ensures
        first_named(props, name, from) == first_named(props, name, i),
    decreases i - from,
{
    if from < i {
        assert(is_another(props[from], name));
        lemma_first_named(props, name, from + 1, i);
    }
}

/// The EDID is the blob of the property of that name, and the orientation of a panel
/// what its property says: upright, upside down, or on one of its sides.
pub proof fn lemma_edid_and_orientation(
    props: &Vec<Property>,
    edid: Result<PropertyContent, PropertyError>,
    blob: Result<Option<u64>, PropertyError>,
    content: Result<PropertyContent, PropertyError>,
    orientation: Result<Transform, PanelOrientationError>,
)
    requires
        call_ensures(get_property_val, (props, "EDID"), edid),
        call_ensures(edid_blob, (props,), blob),
        call_ensures(get_property_val, (props, "panel orientation"), content),
        call_ensures(panel_orientation, (props,), orientation),
    ensures
        edid matches Ok(PropertyContent::Blob(id)) ==> blob == Ok::<_, PropertyError>(Some(id)),
        edid matches Ok(other) ==> (!(other is Blob) ==> blob == Ok::<_, PropertyError>(
            None::<u64>,
        )),
        edid matches Err(error) ==> blob == Err::<Option<u64>, _>(error),
        content matches Err(error) ==> orientation == Err::<Transform, _>(
            PanelOrientationError::Property(error),
        ),
        content == Ok::<_, PropertyError>(PropertyContent::Enum(Some(0))) <==> orientation == Ok::<
            _,
            PanelOrientationError,
        >(Transform::Normal),
        content == Ok::<_, PropertyError>(PropertyContent::Enum(Some(1))) <==> orientation == Ok::<
            _,
            PanelOrientationError,
        >(Transform::_180),
        content == Ok::<_, PropertyError>(PropertyContent::Enum(Some(2))) <==> orientation == Ok::<
            _,
            PanelOrientationError,
        >(Transform::_90),
        content == Ok::<_, PropertyError>(PropertyContent::Enum(Some(3))) <==> orientation == Ok::<
            _,
            PanelOrientationError,
        >(Transform::_270),
        content matches Ok(PropertyContent::Enum(Some(value))) ==> (value > 3 ==> orientation
            == Err::<Transform, _>(PanelOrientationError::InvalidValue(value))),
        content matches Ok(other) ==> (!(other matches PropertyContent::Enum(Some(_)))
            ==> orientation == Err::<Transform, _>(PanelOrientationError::WrongValueType)),
{
}

/// The depth that is written is the wanted one where the connector allows it, and the
/// nearer end of its range otherwise; the depth and range that are read are those of
/// the property.
pub proof fn lemma_depth_is_the_closest_allowed(
    props: &Vec<Property>,
    content: Result<PropertyContent, PropertyError>,
    read: Result<Option<(u32, Range<u32>)>, MaxBpcError>,
    bpc: u32,
    written: Result<u64, MaxBpcError>,
)
    requires
        max_bpc(props@) matches Ok(Some((_, min, max))) ==> min <= max,
        call_ensures(get_property_val, (props, "max bpc"), content),
        call_ensures(get_max_bpc, (props,), read),
        call_ensures(set_max_bpc, (props, bpc), written),
    ensures
        content is Err ==> read == Ok::<_, MaxBpcError>(None::<(u32, Range<u32>)>) && written
            == Err::<u64, _>(MaxBpcError::Missing),
        content matches Ok(PropertyContent::UnsignedRange { min, max, value }) ==> (min
            <= u32::MAX && max <= u32::MAX && value <= u32::MAX ==> {
            &&& read matches Ok(Some(known)) && known.0 == value && known.1.start == min
                && known.1.end == max
            &&& written matches Ok(depth) && min <= depth <= max && (min <= bpc <= max ==> depth
                == bpc) && (bpc < min ==> depth == min) && (bpc > max ==> depth == max)
        }),
        content matches Ok(other) ==> (!(other is UnsignedRange) ==> read is Err && written
            == Err::<u64, _>(MaxBpcError::WrongValueType)),
{
}

/// A refresh rate is the pixel clock over the pixels of a frame, rounded to the nearest
/// millihertz: `lines` is how many lines are drawn in a thousand seconds.
pub proof fn lemma_refresh_rate_is_clock_over_pixels(mode: ModeTiming, rate: u32, lines: int)
    requires
        mode.htotal > 0,
        mode.vtotal > 0,
        !mode.interlace,
        !mode.dblscan,
        mode.vscan <= 1,
        call_ensures(calculate_refresh_rate, (mode,), rate),
        lines * mode.htotal <= mode.clock * 1_000_000 < (lines + 1) * mode.htotal,
        lines + mode.vtotal <= u32::MAX,
    ensures
        2 * lines - mode.vtotal < 2 * (rate * mode.vtotal) <= 2 * lines + mode.vtotal,
{
    let h = mode.htotal as int;
    let v = mode.vtotal as int;
    let pixels = mode.clock * 1_000_000;
    assert(pixels / h == lines) by (nonlinear_arith)
        requires
            lines * h <= pixels < (lines + 1) * h,
            h > 0,
    ;
    let sum = lines + v / 2;
    let exact = sum / v;
    assert(exact * v <= sum < exact * v + v) by (nonlinear_arith)
        requires
            exact == sum / v,
            v > 0,
    ;
    assert(lines >= 0) by (nonlinear_arith)
        requires
            0 <= pixels < (lines + 1) * h,
            h > 0,
    ;
    assert(0 <= exact <= sum) by (nonlinear_arith)
        requires
            exact == sum / v,
            v > 0,
            sum >= 0,
    ;
    assert(mode.refresh() == exact);
    assert(rate == exact);
}

/// Interlacing doubles the rate, double scan halves it, and repeated lines divide it.
pub proof fn lemma_scan_modes_scale_the_rate(
    mode: ModeTiming,
    rate: u32,
    interlaced: u32,
    doubled: u32,
    vscan: u16,
    repeated: u32,
)
    requires
        mode.htotal > 0,
        mode.vtotal > 0,
        !mode.interlace,
        !mode.dblscan,
        mode.vscan <= 1,
        mode.refresh() <= u32::MAX / 2,
        vscan > 1,
        call_ensures(calculate_refresh_rate, (mode,), rate),
        call_ensures(
            calculate_refresh_rate,
            (ModeTiming { interlace: true, ..mode },),
            interlaced,
        ),
        call_ensures(calculate_refresh_rate, (ModeTiming { dblscan: true, ..mode },), doubled),
        call_ensures(calculate_refresh_rate, (ModeTiming { vscan, ..mode },), repeated),
    ensures
        interlaced == 2 * rate,
        2 * doubled <= rate <= 2 * doubled + 1,
        repeated * vscan <= rate < (repeated + 1) * vscan,
{
    let base = mode.scan_rate();
    assert(mode.refresh() == base);
    let scans = base / vscan as int;
    assert(scans * vscan <= base < (scans + 1) * vscan) by (nonlinear_arith)
        requires
            scans == base / vscan as int,
            vscan > 1,
    ;
    assert(0 <= scans <= base) by (nonlinear_arith)
        requires
            scans == base / vscan as int,
            vscan > 1,
            base >= 0,
    ;
    assert((ModeTiming { vscan, ..mode }).scan_rate() == base);
    assert((ModeTiming { interlace: true, ..mode }).scan_rate() == base);
    assert((ModeTiming { dblscan: true, ..mode }).scan_rate() == base);
    assert(rate == base);
    assert(repeated == scans);
}

/// The minimum refresh rate is that of the first range limits in an EDID: an invalid
/// block is an error, and without one there is none.
pub proof fn lemma_minimum_rate_is_the_first_stated(
    descriptors: &Vec<DisplayDescriptor>,
    rate: Result<Option<u32>, InvalidRangeLimits>,
    i: int,
)
    requires
        call_ensures(get_minimum_refresh_rate, (descriptors,), rate),
        0 <= i <= descriptors.len(),
        forall|j: int| 0 <= j < i ==> !((#[trigger] descriptors@[j]) is RangeLimits),
    ensures
        i == descriptors.len() ==> rate == Ok::<_, InvalidRangeLimits>(None::<u32>),
        i < descriptors.len() ==> (descriptors@[i] matches DisplayDescriptor::RangeLimits(Some(min))
            ==> rate == Ok::<_, InvalidRangeLimits>(Some(min))),
        i < descriptors.len() ==> (descriptors@[i] matches DisplayDescriptor::RangeLimits(None)
            ==> rate is Err),
{
    lemma_first_range_limits(descriptors@, 0, i);
}

proof fn lemma_first_range_limits(descriptors: Seq<DisplayDescriptor>, from: int, i: int)
    requires
        0 <= from <= i <= descriptors.len(),
        forall|j: int| from <= j < i ==> !((#[trigger] descriptors[j]) is RangeLimits),
    ensures
        first_range_limits(descriptors, from) == first_range_limits(descriptors, i),
    decreases i - from,
{
    if from < i {
        assert(!(descriptors[from] is RangeLimits));
        lemma_first_range_limits(descriptors, from + 1, i);
    }
}

/// A connector is named after its kind of plug and its number, as the kernel and
/// configuration files do.
pub proof fn lemma_connector_names(
    interface: &ConnectorInterface,
    id: u32,
    name: String,
    number: String,
)
    requires
        call_ensures(interface_name, (interface, id), name),
        call_ensures(decimal_text, (id,), number),
    ensures
        *interface is DisplayPort ==> name@ == "DP-"@ + number@,
        *interface is HDMIA ==> name@ == "HDMI-A-"@ + number@,
        *interface is HDMIB ==> name@ == "HDMI-B-"@ + number@,
        *interface is EmbeddedDisplayPort ==> name@ == "eDP-"@ + number@,
        *interface is DVII ==> name@ == "DVI-I-"@ + number@,
        *interface is DVID ==> name@ == "DVI-D-"@ + number@,
        *interface is DVIA ==> name@ == "DVI-A-"@ + number@,
        *interface is SVideo ==> name@ == "S-VIDEO-"@ + number@,
        *interface matches ConnectorInterface::Other(own) ==> name@ == own@ + "-"@ + number@,
{
    reveal_strlit("-");
    reveal_strlit("DP");
    reveal_strlit("DP-");
    reveal_strlit("HDMI-A");
    reveal_strlit("HDMI-A-");
    reveal_strlit("HDMI-B");
    reveal_strlit("HDMI-B-");
    reveal_strlit("eDP");
    reveal_strlit("eDP-");
    reveal_strlit("DVI-I");
    reveal_strlit("DVI-I-");
    reveal_strlit("DVI-D");
    reveal_strlit("DVI-D-");
    reveal_strlit("DVI-A");
    reveal_strlit("DVI-A-");
    reveal_strlit("S-VIDEO");
    reveal_strlit("S-VIDEO-");
    assert("DP-"@ =~= "DP"@ + "-"@);
    assert("HDMI-A-"@ =~= "HDMI-A"@ + "-"@);
    assert("HDMI-B-"@ =~= "HDMI-B"@ + "-"@);
    assert("eDP-"@ =~= "eDP"@ + "-"@);
    assert("DVI-I-"@ =~= "DVI-I"@ + "-"@);
    assert("DVI-D-"@ =~= "DVI-D"@ + "-"@);
    assert("DVI-A-"@ =~= "DVI-A"@ + "-"@);
    assert("S-VIDEO-"@ =~= "S-VIDEO"@ + "-"@);
}

} // verus!
