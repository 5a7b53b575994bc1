//! The devices that a Vulkan backend offers to the renderers of outputs.
use crate::device::DrmNode;
use vstd::prelude::*;

verus! {

/// A device and whether its renderer was not yet handed out.
#[derive(Debug, Clone, Copy, PartialEq, Eq, Structural)]
pub struct BackendDevice {
    pub node: DrmNode,
    pub has_renderer: bool,
}

/// The devices of a backend. A change of the devices makes it necessary to
/// enumerate them again.
#[derive(Debug)]
pub struct GbmVulkanBackend {
    devices: Vec<BackendDevice>,
    needs_enumeration: bool,
}

/// What a [`GbmVulkanBackend`] holds.
pub struct GbmVulkanBackendView {
    pub devices: Seq<BackendDevice>,
    pub needs_enumeration: bool,
}

impl View for GbmVulkanBackend {
    type V = GbmVulkanBackendView;

    closed spec fn view(&self) -> GbmVulkanBackendView {
        GbmVulkanBackendView {
            devices: self.devices@,
            needs_enumeration: self.needs_enumeration,
        }
    }
}

/// Whether `devices` hold a node.
pub open spec fn has_node(devices: Seq<BackendDevice>, node: DrmNode) -> bool {
    exists|i: int| 0 <= i < devices.len() && (#[trigger] devices[i]).node == node
}

/// No node occurs twice in `devices`.
pub open spec fn each_node_once(devices: Seq<BackendDevice>) -> bool {
    forall|i: int, j: int|
        0 <= i < j < devices.len() ==> (#[trigger] devices[i]).node != (#[trigger] devices[j]).node
}

/// Whether `devices` hold a node with this device number.
pub open spec fn has_dev(devices: Seq<BackendDevice>, dev: u64) -> bool {
    exists|i: int| 0 <= i < devices.len() && (#[trigger] devices[i]).node.dev == dev
}

/// Whether `list` holds a node with this device number.
pub open spec fn lists_dev(list: Seq<DrmNode>, dev: u64) -> bool {
    exists|i: int| 0 <= i < list.len() && (#[trigger] list[i]).dev == dev
}

/// `devices` without a node.
pub open spec fn without_node(devices: Seq<BackendDevice>, node: DrmNode) -> Seq<BackendDevice>
    decreases devices.len(),
{
    if devices.len() == 0 {
        Seq::empty()
    } else {
        let rest = without_node(devices.drop_last(), node);
        if devices.last().node != node {
            rest.push(devices.last())
        } else {
            rest
        }
    }
}

/// The nodes of `list` that the backend still has.
pub open spec fn still_there(list: Seq<DrmNode>, devices: Seq<BackendDevice>) -> Seq<DrmNode>
    decreases list.len(),
{
    if list.len() == 0 {
        Seq::empty()
    } else {
        let rest = still_there(list.drop_last(), devices);
        if has_dev(devices, list.last().dev) {
            rest.push(list.last())
        } else {
            rest
        }
    }
}

/// Whether a device is offered to a list that does not have it.
pub open spec fn is_new(device: BackendDevice, list: Seq<DrmNode>) -> bool {
    !lists_dev(list, device.node.dev) && device.has_renderer
}

/// The nodes of `devices` that are new to `list`.
pub open spec fn new_nodes(devices: Seq<BackendDevice>, list: Seq<DrmNode>) -> Seq<DrmNode>
    decreases devices.len(),
{
    if devices.len() == 0 {
        Seq::empty()
    } else {
        let rest = new_nodes(devices.drop_last(), list);
        if is_new(devices.last(), list) {
            rest.push(devices.last().node)
        } else {
            rest
        }
    }
}

/// `devices` once the renderers of those that are not in `list` were handed out.
pub open spec fn handed_out(devices: Seq<BackendDevice>, list: Seq<DrmNode>) -> Seq<BackendDevice> {
    devices.map_values(
        |device: BackendDevice|
            BackendDevice {
                node: device.node,
                has_renderer: device.has_renderer && !is_new(device, list),
            },
    )
}

/// What is left without a node was there before, and each node is there once if it
/// was.
proof fn lemma_without_node(devices: Seq<BackendDevice>, node: DrmNode)
    ensures
        forall|i: int|
            0 <= i < without_node(devices, node).len() ==> devices.contains(
                #[trigger] without_node(devices, node)[i],
            ) && without_node(devices, node)[i].node != node,
        each_node_once(devices) ==> each_node_once(without_node(devices, node)),
    decreases devices.len(),
{
    if devices.len() > 0 {
        let rest = devices.drop_last();
        lemma_without_node(rest, node);
        let left = without_node(devices, node);
        assert forall|i: int| 0 <= i < left.len() implies devices.contains(#[trigger] left[i])
            && left[i].node != node by {
            if i < without_node(rest, node).len() {
                assert(left[i] == without_node(rest, node)[i]);
                let j = choose|j: int| 0 <= j < rest.len() && rest[j] == left[i];
                assert(devices[j] == left[i]);
            } else {
                assert(devices[devices.len() - 1] == left[i]);
            }
        }
        if each_node_once(devices) {
            assert forall|i: int, j: int| 0 <= i < j < left.len() implies (#[trigger] left[i]).node
                != (#[trigger] left[j]).node by {
                let kept = without_node(rest, node);
                assert(left[i] == kept[i]);
                if j < kept.len() {
                    assert(left[j] == kept[j]);
                } else {
                    let k = choose|k: int| 0 <= k < rest.len() && rest[k] == kept[i];
                    assert(devices[k].node != devices[devices.len() - 1].node);
                }
            }
        }
    }
}

impl Default for GbmVulkanBackend {
    fn default() -> (backend: Self)
        ensures
            backend@.devices == Seq::<BackendDevice>::empty(),
            backend@.needs_enumeration,
    {
        GbmVulkanBackend { devices: Vec::new(), needs_enumeration: true }
    }
}

impl GbmVulkanBackend {
    /// No node occurs twice.
    #[verifier::type_invariant]
    closed spec fn wf(self) -> bool {
        each_node_once(self.devices@)
    }

    /// A backend without devices.
    pub fn new() -> (backend: GbmVulkanBackend)
        ensures
            backend@.devices == Seq::<BackendDevice>::empty(),
            !backend@.needs_enumeration,
    {
        GbmVulkanBackend { devices: Vec::new(), needs_enumeration: false }
    }

    /// The nodes of all devices, each once.
    pub fn current_devices(&self) -> (nodes: Vec<DrmNode>)
        ensures
            nodes@ == self@.devices.map_values(|device: BackendDevice| device.node),
            nodes@.no_duplicates(),
            each_node_once(self@.devices),
    {
        proof {
            use_type_invariant(self);
        }
        let mut nodes: Vec<DrmNode> = Vec::new();
        for i in 0..self.devices.len()
            invariant
                nodes.len() == i,
                forall|j: int| 0 <= j < i ==> nodes[j] == (#[trigger] self.devices@[j]).node,
        {
            nodes.push(self.devices[i].node);
        }
        assert(nodes@ =~= self@.devices.map_values(|device: BackendDevice| device.node));
        assert forall|i: int, j: int| 0 <= i < j < nodes@.len() implies nodes@[i] != nodes@[j] by {
            assert(self.devices@[i].node != self.devices@[j].node);
        }
        nodes
    }

    /// Adds a device with its renderer, unless it is already there. Returns whether
    /// it was added.
    pub fn add_node(&mut self, node: DrmNode) -> (added: bool)
        ensures
            added == !has_node(old(self)@.devices, node),
            final(self)@ == if added {
                GbmVulkanBackendView {
                    devices: old(self)@.devices.push(BackendDevice { node, has_renderer: true }),
                    needs_enumeration: true,
                }
            } else {
                old(self)@
            },
    {
        proof {
            use_type_invariant(&*self);
        }
        for i in 0..self.devices.len()
            invariant
                self@ == old(self)@,
                each_node_once(self.devices@),
                forall|j: int| 0 <= j < i ==> (#[trigger] self.devices@[j]).node != node,
        {
            if self.devices[i].node == node {
                assert(self@.devices[i as int].node == node);
                return false;
            }
        }
        let mut devices: Vec<BackendDevice> = Vec::new();
        std::mem::swap(&mut self.devices, &mut devices);
        devices.push(BackendDevice { node, has_renderer: true });
        self.devices = devices;
        self.needs_enumeration = true;
        true
    }

    /// Removes a device.
    pub fn remove_node(&mut self, node: DrmNode)
        ensures
            final(self)@ == (GbmVulkanBackendView {
                devices: without_node(old(self)@.devices, node),
                needs_enumeration: old(self)@.needs_enumeration || has_node(
                    old(self)@.devices,
                    node,
                ),
            }),
    {
        proof {
            use_type_invariant(&*self);
            lemma_without_node(self.devices@, node);
        }
        let mut kept: Vec<BackendDevice> = Vec::new();
        let mut removed: bool = false;
        let ghost devices = self.devices@;
        assert(devices.take(0) =~= Seq::empty());
        for i in 0..self.devices.len()
            invariant
                devices == self.devices@,
                self@ == old(self)@,
                kept@ == without_node(devices.take(i as int), node),
                removed == exists|j: int| 0 <= j < i && (#[trigger] devices[j]).node == node,
        {
            proof {
                assert(devices.take(i + 1).drop_last() =~= devices.take(i as int));
                assert(devices.take(i + 1).last() == devices[i as int]);
            }
            if self.devices[i].node == node {
                assert(devices[i as int].node == node);
                removed = true;
            } else {
                kept.push(self.devices[i]);
            }
        }
        assert(devices.take(devices.len() as int) =~= devices);
        self.devices = kept;
        if removed {
            self.needs_enumeration = true;
        }
    }

    /// Whether the devices changed since they were last enumerated.
    pub fn needs_enumeration(&self) -> (needs: bool)
        ensures
            needs == self@.needs_enumeration,
    {
        self.needs_enumeration
    }

    fn has_dev_number(&self, dev: u64) -> (found: bool)
        ensures
            found == has_dev(self@.devices, dev),
    {
        for i in 0..self.devices.len()
            invariant
                forall|j: int| 0 <= j < i ==> (#[trigger] self.devices@[j]).node.dev != dev,
        {
            if self.devices[i].node.dev == dev {
                assert(self@.devices[i as int].node.dev == dev);
                return true;
            }
        }
        false
    }

    /// Brings a list of devices up to date: drops those that are gone and adds the
    /// new ones with their renderers, but does not replace any that are in use.
    /// Returns the new list and how many of its devices stayed.
    pub fn enumerate(&mut self, list: &Vec<DrmNode>) -> (enumerated: (Vec<DrmNode>, usize))
        ensures
            ({
                let kept = still_there(list@, old(self)@.devices);
                &&& enumerated.0@ == kept + new_nodes(old(self)@.devices, kept)
                &&& enumerated.1 == kept.len()
                &&& final(self)@ == (GbmVulkanBackendView {
                    devices: handed_out(old(self)@.devices, kept),
                    needs_enumeration: false,
                })
            }),
    {
        proof {
            use_type_invariant(&*self);
        }
        let mut nodes: Vec<DrmNode> = Vec::new();
        assert(list@.take(0) =~= Seq::empty());
        for i in 0..list.len()
            invariant
                self@ == old(self)@,
                nodes@ == still_there(list@.take(i as int), self@.devices),
        {
            proof {
                assert(list@.take(i + 1).drop_last() =~= list@.take(i as int));
                assert(list@.take(i + 1).last() == list@[i as int]);
            }
            if self.has_dev_number(list[i].dev) {
                nodes.push(list[i]);
            }
        }
        assert(list@.take(list@.len() as int) =~= list@);
        let ghost kept = nodes@;
        let stayed: usize = nodes.len();

        let mut devices: Vec<BackendDevice> = Vec::new();
        let ghost all = self.devices@;
        assert(all.take(0) =~= Seq::empty());
        assert(nodes@ =~= kept + new_nodes(all.take(0), kept));
        for i in 0..self.devices.len()
            invariant
                all == self.devices@,
                self@ == old(self)@,
                stayed == kept.len(),
                nodes@ == kept + new_nodes(all.take(i as int), kept),
                devices.len() == i,
                forall|j: int| 0 <= j < i ==> devices@[j] == #[trigger] handed_out(all, kept)[j],
        {
            proof {
                assert(all.take(i + 1).drop_last() =~= all.take(i as int));
                assert(all.take(i + 1).last() == all[i as int]);
            }
            let device: BackendDevice = self.devices[i];
            let mut listed: bool = false;
            for j in 0..stayed
                invariant
                    stayed == kept.len(),
                    stayed <= nodes.len(),
                    nodes@.take(stayed as int) =~= kept,
                    listed == exists|k: int|
                        0 <= k < j && (#[trigger] kept[k]).dev == device.node.dev,
            {
                assert(nodes@.take(stayed as int)[j as int] == nodes@[j as int]);
                if nodes[j].dev == device.node.dev {
                    assert(kept[j as int].dev == device.node.dev);
                    listed = true;
                }
            }
            assert(listed == lists_dev(kept, device.node.dev));
            if !listed && device.has_renderer {
                nodes.push(device.node);
                devices.push(BackendDevice { node: device.node, has_renderer: false });
            } else {
                devices.push(device);
            }
            assert(nodes@ =~= kept + new_nodes(all.take(i + 1), kept));
        }
        assert(all.take(all.len() as int) =~= all);
        assert(devices@ =~= handed_out(all, kept));
        assert(each_node_once(devices@)) by {
            assert forall|i: int, j: int| 0 <= i < j < devices@.len() implies (
            #[trigger] devices@[i]).node != (#[trigger] devices@[j]).node by {
                assert(all[i].node != all[j].node);
            }
        }
        self.devices = devices;
        self.needs_enumeration = false;
        (nodes, stayed)
    }
}

/// A renderer is handed out at most once: enumerating again adds nothing.
pub proof fn lemma_enumerated_once(devices: Seq<BackendDevice>, list: Seq<DrmNode>)
    ensures
        new_nodes(handed_out(devices, list), list) == Seq::<DrmNode>::empty(),
    decreases devices.len(),
{
    if devices.len() > 0 {
        lemma_enumerated_once(devices.drop_last(), list);
        assert(handed_out(devices, list).drop_last() =~= handed_out(devices.drop_last(), list));
        assert(!is_new(handed_out(devices, list).last(), list));
    }
}

proof fn lemma_without_node_keeps_others(
    devices: Seq<BackendDevice>,
    node: DrmNode,
    device: BackendDevice,
)
    ensures
        without_node(devices, node).contains(device) <==> devices.contains(device) && device.node
            != node,
    decreases devices.len(),
{
    if devices.len() > 0 {
        let rest = devices.drop_last();
        let before = without_node(rest, node);
        let after = without_node(devices, node);
        lemma_without_node_keeps_others(rest, node, device);
        if before.contains(device) {
            let i = choose|i: int| 0 <= i < before.len() && before[i] == device;
            assert(after[i] == device);
        }
        if rest.contains(device) {
            let i = choose|i: int| 0 <= i < rest.len() && rest[i] == device;
            assert(devices[i] == device);
        }
        if devices.last() == device && device.node != node {
            assert(after[after.len() - 1] == device);
        }
        assert(devices[devices.len() - 1] == devices.last());
        if after.contains(device) && !before.contains(device) {
            let i = choose|i: int| 0 <= i < after.len() && after[i] == device;
            if i < before.len() {
                assert(before[i] == device);
            }
        }
        if devices.contains(device) && !rest.contains(device) {
            let i = choose|i: int| 0 <= i < devices.len() && devices[i] == device;
            if i < rest.len() {
                assert(rest[i] == device);
            }
        }
    }
}

/// A device is added once, with its renderer, and is gone once it is removed; other
/// devices stay, and any change has the devices enumerated again.
pub proof fn lemma_devices_come_and_go(
    backend: &mut GbmVulkanBackend,
    node: DrmNode,
    added: bool,
    smaller: &mut GbmVulkanBackend,
    other: BackendDevice,
)
    requires
        call_ensures(GbmVulkanBackend::add_node, (backend, node), added),
        call_ensures(GbmVulkanBackend::remove_node, (smaller, node), ()),
    ensures
        added <==> forall|i: int|
            0 <= i < old(backend)@.devices.len() ==> (#[trigger] old(backend)@.devices[i]).node
                != node,
        !added ==> final(backend)@ == old(backend)@,
        added ==> final(backend)@.needs_enumeration && final(backend)@.devices.last().node == node
            && final(backend)@.devices.last().has_renderer && final(backend)@.devices.drop_last()
            == old(backend)@.devices,
        final(smaller)@.devices.contains(other) <==> old(smaller)@.devices.contains(other)
            && other.node != node,
        old(smaller)@.needs_enumeration ==> final(smaller)@.needs_enumeration,
        old(smaller)@.devices.contains(other) && other.node == node
            ==> final(smaller)@.needs_enumeration,
        final(smaller)@.needs_enumeration ==> old(smaller)@.needs_enumeration || exists|i: int|
            0 <= i < old(smaller)@.devices.len() && (#[trigger] old(smaller)@.devices[i]).node
                == node,
{
    lemma_without_node_keeps_others(old(smaller)@.devices, node, other);
    if added {
        assert(final(backend)@.devices.drop_last() =~= old(backend)@.devices);
        assert forall|i: int| 0 <= i < old(backend)@.devices.len() implies (
        #[trigger] old(backend)@.devices[i]).node != node by {
            if old(backend)@.devices[i].node == node {
                assert(has_node(old(backend)@.devices, node));
            }
        }
    }
    if old(smaller)@.devices.contains(other) && other.node == node {
        let i = choose|i: int|
            0 <= i < old(smaller)@.devices.len() && old(smaller)@.devices[i] == other;
        assert(old(smaller)@.devices[i].node == node);
    }
}

proof fn lemma_still_there(list: Seq<DrmNode>, devices: Seq<BackendDevice>, node: DrmNode)
    ensures
        still_there(list, devices).contains(node) <==> list.contains(node) && has_dev(
            devices,
            node.dev,
        ),
        still_there(list, devices).len() <= list.len(),
    decreases list.len(),
{
    if list.len() > 0 {
        let rest = list.drop_last();
        let before = still_there(rest, devices);
        let after = still_there(list, devices);
        lemma_still_there(rest, devices, node);
        if before.contains(node) {
            let i = choose|i: int| 0 <= i < before.len() && before[i] == node;
            assert(after[i] == node);
        }
        if rest.contains(node) {
            let i = choose|i: int| 0 <= i < rest.len() && rest[i] == node;
            assert(list[i] == node);
        }
        assert(list[list.len() - 1] == list.last());
        if has_dev(devices, list.last().dev) {
            assert(after[after.len() - 1] == list.last());
        }
        if after.contains(node) && !before.contains(node) {
            let i = choose|i: int| 0 <= i < after.len() && after[i] == node;
            if i < before.len() {
                assert(before[i] == node);
            }
        }
        if list.contains(node) && !rest.contains(node) {
            let i = choose|i: int| 0 <= i < list.len() && list[i] == node;
            if i < rest.len() {
                assert(rest[i] == node);
            }
        }
    }
}

proof fn lemma_new_nodes(devices: Seq<BackendDevice>, list: Seq<DrmNode>, node: DrmNode)
    ensures
        new_nodes(devices, list).contains(node) <==> exists|i: int|
            0 <= i < devices.len() && (#[trigger] devices[i]).node == node && devices[i].has_renderer
                && !lists_dev(list, node.dev),
    decreases devices.len(),
{
    if devices.len() > 0 {
        let rest = devices.drop_last();
        let before = new_nodes(rest, list);
        let after = new_nodes(devices, list);
        lemma_new_nodes(rest, list, node);
        assert(forall|i: int| 0 <= i < rest.len() ==> rest[i] == #[trigger] devices[i]);
        assert(devices[devices.len() - 1] == devices.last());
        if before.contains(node) {
            let k = choose|k: int| 0 <= k < before.len() && before[k] == node;
            assert(after[k] == node);
            let i = choose|i: int|
                0 <= i < rest.len() && (#[trigger] rest[i]).node == node && rest[i].has_renderer
                    && !lists_dev(list, node.dev);
            assert(devices[i].node == node);
        }
        if is_new(devices.last(), list) {
            assert(after[after.len() - 1] == devices.last().node);
        }
        if after.contains(node) && !before.contains(node) {
            let k = choose|k: int| 0 <= k < after.len() && after[k] == node;
            if k < before.len() {
                assert(before[k] == node);
            }
        }
        if exists|i: int|
            0 <= i < devices.len() && (#[trigger] devices[i]).node == node && devices[i].has_renderer
                && !lists_dev(list, node.dev) {
            let i = choose|i: int|
                0 <= i < devices.len() && (#[trigger] devices[i]).node == node
                    && devices[i].has_renderer && !lists_dev(list, node.dev);
            if i < rest.len() {
                assert(rest[i].node == node);
            }
        }
    }
}

/// Enumerating keeps the devices of a list that are still there, in front, adds those
/// that are new and still have their renderer, and hands that out; a renderer that was
/// handed out is not handed out again, and one that is not stays where it is.
pub proof fn lemma_enumeration_hands_out_renderers(
    backend: &mut GbmVulkanBackend,
    list: &Vec<DrmNode>,
    enumerated: (Vec<DrmNode>, usize),
    node: DrmNode,
    i: int,
)
    requires
        call_ensures(GbmVulkanBackend::enumerate, (backend, list), enumerated),
    ensures
        ({
            let before = old(backend)@.devices;
            let after = final(backend)@.devices;
            let stayed = enumerated.0@.take(enumerated.1 as int);
            let is_there = |dev: u64|
                exists|k: int| 0 <= k < before.len() && (#[trigger] before[k]).node.dev == dev;
            let was_listed = |dev: u64|
                exists|k: int| 0 <= k < list@.len() && (#[trigger] list@[k]).dev == dev;
            &&& enumerated.1 <= enumerated.0.len()
            &&& stayed.contains(node) <==> list@.contains(node) && is_there(node.dev)
            &&& list@.contains(node) && is_there(node.dev) ==> enumerated.0@.contains(node)
            &&& enumerated.0@.contains(node) ==> is_there(node.dev)
            &&& !final(backend)@.needs_enumeration
            &&& after.len() == before.len()
            &&& 0 <= i < before.len() ==> {
                &&& after[i].node == before[i].node
                &&& after[i].has_renderer ==> before[i].has_renderer
                &&& was_listed(before[i].node.dev) ==> after[i].has_renderer
                    == before[i].has_renderer
                &&& !was_listed(before[i].node.dev) ==> !after[i].has_renderer
                &&& !was_listed(before[i].node.dev) && before[i].has_renderer
                    ==> enumerated.0@.contains(before[i].node)
            }
        }),
{
    let before = old(backend)@.devices;
    let kept = still_there(list@, before);
    let added = new_nodes(before, kept);
    let all = enumerated.0@;
    assert(all.take(enumerated.1 as int) =~= kept);
    lemma_still_there(list@, before, node);
    lemma_new_nodes(before, kept, node);
    if all.contains(node) {
        let k = choose|k: int| 0 <= k < all.len() && all[k] == node;
        if k < kept.len() {
            assert(kept[k] == node);
        } else {
            assert(added[k - kept.len()] == node);
            assert(added.contains(node));
            let m = choose|m: int|
                0 <= m < before.len() && (#[trigger] before[m]).node == node
                    && before[m].has_renderer && !lists_dev(kept, node.dev);
            assert(before[m].node.dev == node.dev);
        }
    }
    if kept.contains(node) {
        let k = choose|k: int| 0 <= k < kept.len() && kept[k] == node;
        assert(all[k] == node);
    }
    if 0 <= i < before.len() {
        let dev = before[i].node.dev;
        assert(has_dev(before, dev)) by {
            assert(before[i].node.dev == dev);
        }
        assert(lists_dev(kept, dev) <==> exists|k: int|
            0 <= k < list@.len() && (#[trigger] list@[k]).dev == dev) by {
            if lists_dev(kept, dev) {
                let k = choose|k: int| 0 <= k < kept.len() && (#[trigger] kept[k]).dev == dev;
                lemma_still_there(list@, before, kept[k]);
                assert(kept.contains(kept[k]));
                let m = choose|m: int| 0 <= m < list@.len() && list@[m] == kept[k];
                assert(list@[m].dev == dev);
            }
            if exists|k: int| 0 <= k < list@.len() && (#[trigger] list@[k]).dev == dev {
                let k = choose|k: int| 0 <= k < list@.len() && (#[trigger] list@[k]).dev == dev;
                lemma_still_there(list@, before, list@[k]);
                assert(list@.contains(list@[k]));
                let m = choose|m: int| 0 <= m < kept.len() && kept[m] == list@[k];
                assert(kept[m].dev == dev);
            }
        }
        lemma_new_nodes(before, kept, before[i].node);
        if !lists_dev(kept, dev) && before[i].has_renderer {
            assert(added.contains(before[i].node));
            let k = choose|k: int| 0 <= k < added.len() && added[k] == before[i].node;
            assert(all[kept.len() as int + k] == before[i].node);
        }
        assert(final(backend)@.devices[i] == handed_out(before, kept)[i]);
    }
}

/// The nodes that are listed are those of the devices, each once; a backend has none to
/// begin with.
pub proof fn lemma_listed_nodes(
    backend: &GbmVulkanBackend,
    nodes: Vec<DrmNode>,
    needs: bool,
    empty: GbmVulkanBackend,
    i: int,
    j: int,
)
    requires
        call_ensures(GbmVulkanBackend::current_devices, (backend,), nodes),
        call_ensures(GbmVulkanBackend::needs_enumeration, (backend,), needs),
        call_ensures(GbmVulkanBackend::new, (), empty),
    ensures
        nodes.len() == backend@.devices.len(),
        0 <= i < nodes.len() ==> nodes@[i] == backend@.devices[i].node,
        0 <= i < j < nodes.len() ==> nodes@[i] != nodes@[j],
        needs == backend@.needs_enumeration,
        empty@.devices.len() == 0 && !empty@.needs_enumeration,
{
}

} // verus!
