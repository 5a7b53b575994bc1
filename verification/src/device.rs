//! Which GPU a configuration entry means.
use crate::text::{
    find, has_prefix, lemma_find_from, parse_hex_u32, parse_u32, pieces, position_of, split_on,
    starts_with, trimmed, unsigned_value,
};
use vstd::prelude::*;
use vstd::string::*;
use vstd::utf8::{decode_utf8, encode_utf8, encode_utf8_decode_utf8, is_char_boundary};

verus! {

/// The kinds of node that a DRM device has.
#[derive(Debug, Clone, Copy, PartialEq, Eq, Structural)]
pub enum NodeType {
    Primary,
    Control,
    Render,
}

/// A DRM node: its device number and its kind.
#[derive(Debug, Clone, Copy, PartialEq, Eq, Structural)]
pub struct DrmNode {
    pub dev: u64,
    pub node_type: NodeType,
}

/// How a device is recognised.
#[derive(Debug, Clone, Copy, PartialEq, Eq, Structural)]
pub enum DeviceIdentifier {
    Id { vendor: u32, device: u32 },
    Node(DrmNode),
}

/// What a configuration entry asks for, before anything was looked up.
#[derive(Debug)]
pub enum DeviceEntry {
    /// The device with these PCI ids.
    Id { vendor: u32, device: u32 },
    /// The node that the link at this path leads to.
    Link(String),
    /// The node with this device number.
    DeviceNumber(u64),
    /// The node at this path.
    Path(String),
}

/// What a [`DeviceEntry`] holds.
pub enum DeviceEntryView {
    Id { vendor: nat, device: nat },
    Link(Seq<char>),
    DeviceNumber(u64),
    Path(Seq<char>),
}

impl View for DeviceEntry {
    type V = DeviceEntryView;

    open spec fn view(&self) -> DeviceEntryView {
        match *self {
            DeviceEntry::Id { vendor, device } => DeviceEntryView::Id {
                vendor: vendor as nat,
                device: device as nat,
            },
            DeviceEntry::Link(path) => DeviceEntryView::Link(path@),
            DeviceEntry::DeviceNumber(dev) => DeviceEntryView::DeviceNumber(dev),
            DeviceEntry::Path(path) => DeviceEntryView::Path(path@),
        }
    }
}

/// The device number made of a major and a minor number, as Linux encodes it.
pub open spec fn device_number(major: u32, minor: u32) -> u64 {
    ((major as u64 & 0xffff_f000u64) << 32u64) | ((major as u64 & 0x0fffu64) << 8u64) | ((
    minor as u64 & 0xffff_ff00u64) << 12u64) | (minor as u64 & 0xffu64)
}

/// `rustix::fs::makedev` spreads the two numbers over the bits of a device
/// number: the low twelve bits of the major number lie between the low eight
/// and the high bits of the minor number, its high bits on top.
pub assume_specification[ rustix::fs::makedev ](maj: u32, min: u32) -> (dev: rustix::fs::Dev)
    ensures
        dev == device_number(maj, min),
;

/// What the text of an entry asks for; `None` where it cannot be read.
pub open spec fn entry_of(text: Seq<char>) -> Option<DeviceEntryView> {
    let val = trimmed(text);
    let colon = find(val, ':');
    let before = val.subrange(0, colon);
    let after = val.subrange(colon + 1, val.len() as int);
    if has_prefix(val, "0x"@) && colon < val.len() {
        if !has_prefix(after, "0x"@) {
            None
        } else {
            match (
                unsigned_value(before.subrange(2, before.len() as int), 16, u32::MAX as nat),
                unsigned_value(after.subrange(2, after.len() as int), 16, u32::MAX as nat),
            ) {
                (Some(vendor), Some(device)) => Some(DeviceEntryView::Id { vendor, device }),
                _ => None,
            }
        }
    } else if has_prefix(val, "pci-"@) {
        Some(DeviceEntryView::Link("/dev/dri/by-path/"@ + val + "-render"@))
    } else if colon < val.len() {
        match (
            unsigned_value(before, 10, u32::MAX as nat),
            unsigned_value(after, 10, u32::MAX as nat),
        ) {
            (Some(major), Some(minor)) => Some(
                DeviceEntryView::DeviceNumber(device_number(major as u32, minor as u32)),
            ),
            _ => None,
        }
    } else {
        Some(DeviceEntryView::Path("/dev/dri/"@ + val))
    }
}

/// What an entry's value holds, if there is one.
pub open spec fn entry_view(entry: Option<DeviceEntry>) -> Option<DeviceEntryView> {
    match entry {
        Some(entry) => Some(entry@),
        None => None,
    }
}

/// Reads one configuration entry: a pair of PCI ids (`0x1002:0x73bf`), a PCI
/// path (`pci-0000:03:00.0`), a device number (`226:128`) or a node's name.
pub fn try_parse_dev_from_str(val: &str) -> (entry: Option<DeviceEntry>)
    ensures
        entry_view(entry) == entry_of(val@),
{
    let val: &str = val.trim();
    let len: usize = val.unicode_len();
    let colon: usize = position_of(val, ':');
    if starts_with(val, "0x") && colon < len {
        let vendor: &str = val.substring_char(0, colon);
        let device: &str = val.substring_char(colon + 1, len);
        proof {
            reveal_strlit("0x");
            lemma_find_from(val@, ':', 0);
            let prefix = val@.subrange(0, 2);
            assert(prefix[0] == '0' && prefix[1] == 'x');
            assert(val@[0] == '0' && val@[1] == 'x');
            assert(colon >= 2);
        }
        if !starts_with(device, "0x") {
            return None;
        }
        let vendor_id: u32 = match parse_hex_u32(vendor.substring_char(2, colon)) {
            Some(id) => id,
            None => {
                return None;
            },
        };
        let device_id: u32 = match parse_hex_u32(device.substring_char(2, len - colon - 1)) {
            Some(id) => id,
            None => {
                return None;
            },
        };
        Some(DeviceEntry::Id { vendor: vendor_id, device: device_id })
    } else if starts_with(val, "pci-") {
        let mut path: String = String::from_str("/dev/dri/by-path/");
        path.append(val);
        path.append("-render");
        Some(DeviceEntry::Link(path))
    } else if colon < len {
        let major: u32 = match parse_u32(val.substring_char(0, colon)) {
            Some(number) => number,
            None => {
                return None;
            },
        };
        let minor: u32 = match parse_u32(val.substring_char(colon + 1, len)) {
            Some(number) => number,
            None => {
                return None;
            },
        };
        Some(DeviceEntry::DeviceNumber(rustix::fs::makedev(major, minor)))
    } else {
        let mut path: String = String::from_str("/dev/dri/");
        path.append(val);
        Some(DeviceEntry::Path(path))
    }
}

/// The readable entries among `parts`, in order.
pub open spec fn entries_of(parts: Seq<Seq<char>>) -> Seq<DeviceEntryView>
    decreases parts.len(),
{
    if parts.len() == 0 {
        Seq::empty()
    } else {
        match entry_of(parts.last()) {
            Some(entry) => entries_of(parts.drop_last()).push(entry),
            None => entries_of(parts.drop_last()),
        }
    }
}

/// Reads a comma-separated list of entries, leaving out those that cannot be read.
pub fn parse_device_list(value: &str) -> (entries: Vec<DeviceEntry>)
    ensures
        entries.len() == entries_of(pieces(value@, ',')).len(),
        forall|i: int|
            0 <= i < entries.len() ==> (#[trigger] entries[i])@ == entries_of(
                pieces(value@, ','),
            )[i],
{
    let parts: Vec<&str> = split_on(value, ',');
    let ghost all = pieces(value@, ',');
    let mut entries: Vec<DeviceEntry> = Vec::new();
    assert(all.take(0) =~= Seq::empty());
    for i in 0..parts.len()
        invariant
            parts.len() == all.len(),
            forall|j: int| 0 <= j < parts.len() ==> (#[trigger] parts[j])@ == all[j],
            entries.len() == entries_of(all.take(i as int)).len(),
            forall|j: int|
                0 <= j < entries.len() ==> (#[trigger] entries[j])@ == entries_of(
                    all.take(i as int),
                )[j],
    {
        assert(all.take(i + 1).drop_last() =~= all.take(i as int));
        assert(all.take(i + 1).last() == all[i as int]);
        match try_parse_dev_from_str(parts[i]) {
            Some(entry) => {
                entries.push(entry);
            },
            None => {},
        }
    }
    assert(all.take(all.len() as int) =~= all);
    entries
}

/// The node that stands for an entry: the render node of the device that was
/// found, where it has one, or else the node itself. `render` is `None` where
/// the device has no render node and holds `None` where it cannot be opened.
pub fn identify_node(
    node: Option<DrmNode>,
    render: Option<Option<DrmNode>>,
) -> (identifier: Option<DeviceIdentifier>)
    ensures
        identifier == match node {
            None => None,
            Some(found) => Some(
                DeviceIdentifier::Node(
                    match render {
                        Some(Some(render_node)) => render_node,
                        _ => found,
                    },
                ),
            ),
        },
{
    match node {
        None => None,
        Some(found) => match render {
            Some(Some(render_node)) => Some(DeviceIdentifier::Node(render_node)),
            _ => Some(DeviceIdentifier::Node(found)),
        },
    }
}

/// The id that a sysfs attribute holds: a hexadecimal number behind a prefix
/// of two bytes, with whitespace around it.
pub open spec fn sysfs_id(contents: Seq<char>) -> Option<nat> {
    let bytes = encode_utf8(contents);
    unsigned_value(
        trimmed(decode_utf8(bytes.subrange(2, bytes.len() as int))),
        16,
        u32::MAX as nat,
    )
}

/// Whether the two-byte prefix of an attribute can be cut off.
pub open spec fn has_sysfs_prefix(contents: Seq<char>) -> bool {
    is_char_boundary(encode_utf8(contents), 2)
}

/// Reads the id in a sysfs attribute.
pub fn parse_sysfs_id(contents: &str) -> (id: Option<u32>)
    requires
        has_sysfs_prefix(contents@),
    ensures
        id is Some <==> sysfs_id(contents@) is Some,
        id matches Some(number) ==> sysfs_id(contents@) == Some(number as nat),
{
    let digits: &str = contents.split_at(2).1;
    proof {
        encode_utf8_decode_utf8(digits@);
    }
    parse_hex_u32(digits.trim())
}

/// Whether an attribute that could be read holds this id.
pub open spec fn attribute_is(contents: Option<Seq<char>>, id: u32) -> bool {
    contents matches Some(text) && sysfs_id(text) == Some(id as nat)
}

/// The text of an attribute, if it could be read.
pub open spec fn attribute_text(contents: Option<&str>) -> Option<Seq<char>> {
    match contents {
        Some(text) => Some(text@),
        None => None,
    }
}

impl DeviceIdentifier {
    /// Whether this identifies `dev_node`, whose sysfs attributes `vendor` and
    /// `device` hold the given texts, where they could be read.
    pub fn matches(
        &self,
        dev_node: &DrmNode,
        vendor_attribute: Option<&str>,
        device_attribute: Option<&str>,
    ) -> (same: bool)
        requires
            self is Id ==> (vendor_attribute matches Some(text) ==> has_sysfs_prefix(text@)),
            self is Id && (vendor_attribute matches Some(vendor) && sysfs_id(vendor@) is Some) ==> (
            device_attribute matches Some(text) ==> has_sysfs_prefix(text@)),
        ensures
            same == match *self {
                DeviceIdentifier::Node(id_node) => id_node == *dev_node,
                DeviceIdentifier::Id { vendor, device } => attribute_is(
                    attribute_text(vendor_attribute),
                    vendor,
                ) && attribute_is(attribute_text(device_attribute), device),
            },
    {
        match self {
            DeviceIdentifier::Node(id_node) => *id_node == *dev_node,
            DeviceIdentifier::Id { vendor, device } => {
                let dev_vendor: u32 = match vendor_attribute {
                    Some(text) => match parse_sysfs_id(text) {
                        Some(id) => id,
                        None => {
                            return false;
                        },
                    },
                    None => {
                        return false;
                    },
                };
                let dev_device: u32 = match device_attribute {
                    Some(text) => match parse_sysfs_id(text) {
                        Some(id) => id,
                        None => {
                            return false;
                        },
                    },
                    None => {
                        return false;
                    },
                };
                dev_vendor == *vendor && dev_device == *device
            },
        }
    }
}

/// A name without a colon is a node in the directory of devices, and one that starts
/// with `pci-` the render node at that path on the bus.
pub proof fn lemma_names_and_paths(text: &str, entry: Option<DeviceEntry>)
    requires
        call_ensures(try_parse_dev_from_str, (text,), entry),
        !(trimmed(text@).len() >= 2 && trimmed(text@)[0] == '0' && trimmed(text@)[1] == 'x'),
    ensures
        has_prefix(trimmed(text@), "pci-"@) ==> (entry matches Some(DeviceEntry::Link(path)) && path@
            == "/dev/dri/by-path/"@ + trimmed(text@) + "-render"@),
        !has_prefix(trimmed(text@), "pci-"@) && !trimmed(text@).contains(':') ==> (
        entry matches Some(DeviceEntry::Path(path)) && path@ == "/dev/dri/"@ + trimmed(text@)),
{
    let val = trimmed(text@);
    reveal_strlit("0x");
    lemma_find_from(val, ':', 0);
    if has_prefix(val, "0x"@) {
        assert(val.subrange(0, 2)[0] == '0' && val.subrange(0, 2)[1] == 'x');
    }
    if !val.contains(':') && find(val, ':') < val.len() {
        assert(val[find(val, ':')] == ':');
    }
}

/// Two numbers around a colon are the numbers of a device: decimal ones its major and
/// minor number, and hexadecimal ones behind `0x` the ids of its vendor and model.
/// Anything else around a colon cannot be read.
pub proof fn lemma_pairs_of_numbers(
    text: &str,
    entry: Option<DeviceEntry>,
    first: Seq<char>,
    second: Seq<char>,
)
    requires
        call_ensures(try_parse_dev_from_str, (text,), entry),
        trimmed(text@) == first + seq![':'] + second,
        !first.contains(':'),
        !has_prefix(trimmed(text@), "pci-"@),
    ensures
        !has_prefix(first, "0x"@) ==> {
            &&& entry is Some <==> unsigned_value(first, 10, u32::MAX as nat) is Some
                && unsigned_value(second, 10, u32::MAX as nat) is Some
            &&& entry matches Some(own) ==> (own matches DeviceEntry::DeviceNumber(number) && number
                == device_number(
                unsigned_value(first, 10, u32::MAX as nat)->0 as u32,
                unsigned_value(second, 10, u32::MAX as nat)->0 as u32,
            ))
        },
        has_prefix(first, "0x"@) ==> {
            let vendor = unsigned_value(
                first.subrange(2, first.len() as int),
                16,
                u32::MAX as nat,
            );
            let model = unsigned_value(
                second.subrange(2, second.len() as int),
                16,
                u32::MAX as nat,
            );
            &&& entry is Some <==> has_prefix(second, "0x"@) && vendor is Some && model is Some
            &&& entry matches Some(own) ==> (own matches DeviceEntry::Id {
                vendor: own_vendor,
                device,
            } && Some(own_vendor as nat) == vendor && Some(device as nat) == model)
        },
{
    let val = trimmed(text@);
    let at = first.len() as int;
    reveal_strlit("0x");
    lemma_find_from(val, ':', 0);
    assert(val[at] == ':');
    let colon = find(val, ':');
    if colon < at {
        assert(val[colon] == first[colon]);
        assert(first.contains(':'));
    }
    assert(colon == at);
    assert(val.subrange(0, colon) =~= first);
    assert(val.subrange(colon + 1, val.len() as int) =~= second);
    if has_prefix(val, "0x"@) {
        let front = val.subrange(0, 2);
        assert(front[0] == '0' && front[1] == 'x');
        assert(val[0] == '0' && val[1] == 'x');
        assert(at >= 2);
        assert(first.subrange(0, 2) =~= front);
        assert(has_prefix(first, "0x"@));
    }
    if has_prefix(first, "0x"@) {
        assert(val.subrange(0, 2) =~= first.subrange(0, 2));
        assert(has_prefix(val, "0x"@));
    }
    if let Some(own) = entry {
        assert(entry_view(entry) == Some(own@));
    }
}

proof fn lemma_entries(parts: Seq<Seq<char>>)
    ensures
        entries_of(parts).len() <= parts.len(),
        (forall|i: int| 0 <= i < parts.len() ==> entry_of(#[trigger] parts[i]) is Some)
            ==> entries_of(parts).len() == parts.len() && forall|i: int|
            0 <= i < parts.len() ==> Some(#[trigger] entries_of(parts)[i]) == entry_of(parts[i]),
        (forall|i: int| 0 <= i < parts.len() ==> entry_of(#[trigger] parts[i]) is None)
            ==> entries_of(parts).len() == 0,
    decreases parts.len(),
{
    if parts.len() > 0 {
        let rest = parts.drop_last();
        lemma_entries(rest);
        assert(forall|i: int| 0 <= i < rest.len() ==> #[trigger] rest[i] == parts[i]);
        assert(parts[parts.len() - 1] == parts.last());
        if forall|i: int| 0 <= i < parts.len() ==> entry_of(#[trigger] parts[i]) is Some {
            assert forall|i: int| 0 <= i < rest.len() implies entry_of(
                #[trigger] rest[i],
            ) is Some by {
                assert(entry_of(parts[i]) is Some);
            }
            assert forall|i: int| 0 <= i < parts.len() implies Some(
                #[trigger] entries_of(parts)[i],
            ) == entry_of(parts[i]) by {
                if i < rest.len() {
                    assert(entries_of(rest)[i] == entries_of(parts)[i]);
                    assert(rest[i] == parts[i]);
                }
            }
        }
        if forall|i: int| 0 <= i < parts.len() ==> entry_of(#[trigger] parts[i]) is None {
            assert forall|i: int| 0 <= i < rest.len() implies entry_of(
                #[trigger] rest[i],
            ) is None by {
                assert(entry_of(parts[i]) is None);
            }
        }
    }
}

/// A list is read piece by piece: each readable piece is the entry that it is on its
/// own, in order.
pub proof fn lemma_lists_are_read_piece_by_piece(
    value: &str,
    entries: Vec<DeviceEntry>,
    parts: Vec<&str>,
    i: int,
    own: Option<DeviceEntry>,
)
    requires
        call_ensures(parse_device_list, (value,), entries),
        call_ensures(split_on, (value, ','), parts),
        0 <= i < parts.len(),
        call_ensures(try_parse_dev_from_str, (parts@[i],), own),
        forall|j: int| 0 <= j < parts.len() ==> entry_of((#[trigger] parts@[j])@) is Some,
    ensures
        entries.len() == parts.len(),
        own matches Some(entry) && entries@[i]@ == entry@,
{
    let all = pieces(value@, ',');
    assert forall|j: int| 0 <= j < all.len() implies entry_of(#[trigger] all[j]) is Some by {
        assert(parts[j]@ == all[j]);
        assert(entry_of(parts@[j]@) is Some);
    }
    lemma_entries(all);
    assert(parts[i]@ == all[i]);
    assert(entries[i]@ == entries_of(all)[i]);
    assert(entry_view(own) == entry_of(all[i]));
}

/// An entry means the render node of the device that it leads to, or that node itself
/// where the device has none; and one that leads nowhere means nothing.
pub proof fn lemma_render_node_stands_for_the_device(
    node: Option<DrmNode>,
    render: Option<Option<DrmNode>>,
    identifier: Option<DeviceIdentifier>,
)
    requires
        call_ensures(identify_node, (node, render), identifier),
    ensures
        node is None <==> identifier is None,
        node is Some ==> (render matches Some(Some(own)) ==> identifier == Some(
            DeviceIdentifier::Node(own),
        )),
        node matches Some(own) ==> (!(render matches Some(Some(_))) ==> identifier == Some(
            DeviceIdentifier::Node(own),
        )),
{
}

/// A node is identified by being it, and a device by both of its ids, as its
/// attributes state them.
pub proof fn lemma_devices_are_recognised(
    identifier: &DeviceIdentifier,
    node: &DrmNode,
    vendor: &str,
    model: &str,
    same: bool,
    unread_vendor: bool,
    unread_model: bool,
    vendor_id: Option<u32>,
    model_id: Option<u32>,
)
    requires
        has_sysfs_prefix(vendor@),
        has_sysfs_prefix(model@),
        call_ensures(DeviceIdentifier::matches, (identifier, node, Some(vendor), Some(model)), same),
        call_ensures(
            DeviceIdentifier::matches,
            (identifier, node, None::<&str>, Some(model)),
            unread_vendor,
        ),
        call_ensures(
            DeviceIdentifier::matches,
            (identifier, node, Some(vendor), None::<&str>),
            unread_model,
        ),
        call_ensures(parse_sysfs_id, (vendor,), vendor_id),
        call_ensures(parse_sysfs_id, (model,), model_id),
    ensures
        *identifier matches DeviceIdentifier::Node(own) ==> (same <==> own == *node)
            && unread_vendor == same && unread_model == same,
        *identifier matches DeviceIdentifier::Id { vendor: wanted, device } ==> (same <==> vendor_id
            == Some(wanted) && model_id == Some(device)) && !unread_vendor && !unread_model,
{
}

proof fn lemma_entry_is_listed(parts: Seq<Seq<char>>, i: int)
    requires
        0 <= i < parts.len(),
    ensures
        entry_of(parts[i]) matches Some(entry) ==> entries_of(parts).contains(entry),
    decreases parts.len(),
{
    let rest = parts.drop_last();
    if i < rest.len() {
        assert(rest[i] == parts[i]);
        lemma_entry_is_listed(rest, i);
        if let Some(entry) = entry_of(parts[i]) {
            let k = choose|k: int|
                0 <= k < entries_of(rest).len() && entries_of(rest)[k] == entry;
            assert(entries_of(parts)[k] == entry);
        }
    } else if let Some(entry) = entry_of(parts[i]) {
        assert(entries_of(parts)[entries_of(rest).len() as int] == entry);
    }
}

/// A piece that cannot be read does not keep the others from being read.
pub proof fn lemma_readable_pieces_are_listed(
    value: &str,
    entries: Vec<DeviceEntry>,
    parts: Vec<&str>,
    i: int,
    own: DeviceEntry,
)
    requires
        call_ensures(parse_device_list, (value,), entries),
        call_ensures(split_on, (value, ','), parts),
        0 <= i < parts.len(),
        call_ensures(try_parse_dev_from_str, (parts@[i],), Some(own)),
    ensures
        exists|k: int| 0 <= k < entries.len() && (#[trigger] entries@[k])@ == own@,
        entries.len() <= parts.len(),
{
    let all = pieces(value@, ',');
    assert(parts[i]@ == all[i]);
    assert(entry_view(Some(own)) == entry_of(all[i]));
    lemma_entry_is_listed(all, i);
    lemma_entries(all);
    let k = choose|k: int| 0 <= k < entries_of(all).len() && entries_of(all)[k] == own@;
    assert(entries[k]@ == own@);
}

} // verus!
