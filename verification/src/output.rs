//! What the compositor remembers of an output.
use crate::text::{has_prefix, starts_with};
use vstd::prelude::*;

verus! {

/// Whether an output's refresh rate follows its content.
#[derive(Debug, Clone, Copy, PartialEq, Eq, Structural)]
pub enum AdaptiveSync {
    Disabled,
    /// While a fullscreen surface covers the output.
    Enabled,
    Force,
}

/// Whether an output can change its refresh rate.
#[derive(Debug, Clone, Copy, PartialEq, Eq, Structural)]
pub enum VrrSupport {
    NotSupported,
    RequiresModeset,
    Supported,
}

/// Whether an output is in use.
#[derive(Debug, Clone, Copy, PartialEq, Eq, Structural)]
pub enum OutputState {
    Enabled,
    Disabled,
    Mirroring,
}

/// A barrier of a surface that waits for an output's next frame. Barriers,
/// surfaces and clients are named by ids.
#[derive(Debug, Clone, Copy, PartialEq, Eq, Structural)]
pub struct FifoBarrierItem {
    pub barrier: u64,
    pub surface: u64,
    pub client: u64,
}

/// A surface whose barriers were signalled, and its client.
#[derive(Debug, Clone, Copy, PartialEq, Eq, Structural)]
pub struct ClearedSurface {
    pub surface: u64,
    pub client: u64,
}

/// An output and what is remembered of it. The adaptive sync mode and its
/// support are held as small codes that can be exchanged atomically.
#[derive(Debug)]
pub struct Output {
    pub name: String,
    pub vrr: Option<u8>,
    pub vrr_support: Option<u8>,
    pub vrr_target_rate: Option<u32>,
    /// The output whose content this one shows.
    pub mirroring: Option<u64>,
    pub state: Option<OutputState>,
    pub fifo_barriers: Vec<FifoBarrierItem>,
    /// In nanoseconds.
    pub avg_frametime: Option<u64>,
}

/// The code of an adaptive sync mode.
pub open spec fn vrr_code(vrr: AdaptiveSync) -> u8 {
    match vrr {
        AdaptiveSync::Disabled => 0,
        AdaptiveSync::Enabled => 1,
        AdaptiveSync::Force => 2,
    }
}

/// The adaptive sync mode of a code; unknown codes and none are off.
pub open spec fn vrr_mode(code: Option<u8>) -> AdaptiveSync {
    if code == Some(2u8) {
        AdaptiveSync::Force
    } else if code == Some(1u8) {
        AdaptiveSync::Enabled
    } else {
        AdaptiveSync::Disabled
    }
}

/// The code of a support level.
pub open spec fn support_code(support: Option<VrrSupport>) -> u8 {
    match support {
        None => 0,
        Some(VrrSupport::NotSupported) => 1,
        Some(VrrSupport::RequiresModeset) => 2,
        Some(VrrSupport::Supported) => 3,
    }
}

/// The support level of a code. Zero and none stand for "unknown", unknown codes
/// for "not supported".
pub open spec fn support_level(code: Option<u8>) -> Option<VrrSupport> {
    match code {
        None => None,
        Some(number) => if number == 0 {
            None
        } else if number == 2 {
            Some(VrrSupport::RequiresModeset)
        } else if number == 3 {
            Some(VrrSupport::Supported)
        } else {
            Some(VrrSupport::NotSupported)
        },
    }
}

/// What is stored is read back, for every mode and every support level.
pub proof fn lemma_codes_round_trip(vrr: AdaptiveSync, support: Option<VrrSupport>)
    ensures
        vrr_mode(Some(vrr_code(vrr))) == vrr,
        support_level(Some(support_code(support))) == support,
{
}

/// The surfaces in `items`, each once, in the order of their first barriers and
/// with the client of the first.
pub open spec fn cleared(items: Seq<FifoBarrierItem>) -> Seq<ClearedSurface>
    decreases items.len(),
{
    if items.len() == 0 {
        Seq::empty()
    } else {
        let rest = cleared(items.drop_last());
        let item = items.last();
        if holds_surface(rest, item.surface) {
            rest
        } else {
            rest.push(ClearedSurface { surface: item.surface, client: item.client })
        }
    }
}

/// Whether `list` holds `surface`.
pub open spec fn holds_surface(list: Seq<ClearedSurface>, surface: u64) -> bool {
    exists|i: int| 0 <= i < list.len() && (#[trigger] list[i]).surface == surface
}

/// Every surface with a barrier is cleared, and no surface twice.
pub proof fn lemma_cleared_once(items: Seq<FifoBarrierItem>)
    ensures
        forall|i: int|
            0 <= i < items.len() ==> holds_surface(cleared(items), (#[trigger] items[i]).surface),
        forall|i: int, j: int|
            0 <= i < j < cleared(items).len() ==> (#[trigger] cleared(items)[i]).surface != (
            #[trigger] cleared(items)[j]).surface,
    decreases items.len(),
{
    if items.len() > 0 {
        let rest_items = items.drop_last();
        let rest = cleared(rest_items);
        let all = cleared(items);
        lemma_cleared_once(rest_items);
        assert forall|i: int| 0 <= i < items.len() implies holds_surface(
            all,
            (#[trigger] items[i]).surface,
        ) by {
            if i < rest_items.len() {
                assert(rest_items[i] == items[i]);
                assert(holds_surface(rest, items[i].surface));
                let k = choose|k: int|
                    0 <= k < rest.len() && (#[trigger] rest[k]).surface == items[i].surface;
                assert(all[k] == rest[k]);
            } else if !holds_surface(rest, items[i].surface) {
                assert(all[all.len() - 1].surface == items[i].surface);
            }
        }
        assert forall|i: int, j: int| 0 <= i < j < all.len() implies (#[trigger] all[i]).surface
            != (#[trigger] all[j]).surface by {
            assert(all[i] == rest[i]);
            if j < rest.len() {
                assert(all[j] == rest[j]);
            }
        }
    }
}

impl Output {
    /// An output of which nothing is known yet.
    pub fn new(name: String) -> (output: Output)
        ensures
            output.name@ == name@,
            output.vrr is None,
            output.vrr_support is None,
            output.vrr_target_rate is None,
            output.mirroring is None,
            output.state is None,
            output.fifo_barriers@ == Seq::<FifoBarrierItem>::empty(),
            output.avg_frametime is None,
    {
        Output {
            name,
            vrr: None,
            vrr_support: None,
            vrr_target_rate: None,
            mirroring: None,
            state: None,
            fifo_barriers: Vec::new(),
            avg_frametime: None,
        }
    }

    /// Whether this is the panel of a portable device.
    pub fn is_internal(&self) -> (internal: bool)
        ensures
            internal == (has_prefix(self.name@, "eDP-"@) || has_prefix(self.name@, "LVDS-"@)
                || has_prefix(self.name@, "DSI-"@)),
    {
        let name: &str = self.name.as_str();
        starts_with(name, "eDP-") || starts_with(name, "LVDS-") || starts_with(name, "DSI-")
    }

    /// The adaptive sync mode.
    pub fn adaptive_sync(&self) -> (vrr: AdaptiveSync)
        ensures
            vrr == vrr_mode(self.vrr),
    {
        match self.vrr {
            Some(2) => AdaptiveSync::Force,
            Some(1) => AdaptiveSync::Enabled,
            _ => AdaptiveSync::Disabled,
        }
    }

    /// Sets the adaptive sync mode.
    pub fn set_adaptive_sync(&mut self, vrr: AdaptiveSync)
        ensures
            *final(self) == (Output { vrr: Some(vrr_code(vrr)), ..*old(self) }),
            vrr_mode(final(self).vrr) == vrr,
    {
        let code: u8 = match vrr {
            AdaptiveSync::Disabled => 0,
            AdaptiveSync::Enabled => 1,
            AdaptiveSync::Force => 2,
        };
        self.vrr = Some(code);
    }

    /// Whether the refresh rate can change; `None` where that is unknown.
    pub fn adaptive_sync_support(&self) -> (support: Option<VrrSupport>)
        ensures
            support == support_level(self.vrr_support),
    {
        match self.vrr_support {
            None => None,
            Some(0) => None,
            Some(2) => Some(VrrSupport::RequiresModeset),
            Some(3) => Some(VrrSupport::Supported),
            Some(_) => Some(VrrSupport::NotSupported),
        }
    }

    /// Sets whether the refresh rate can change.
    pub fn set_adaptive_sync_support(&mut self, support: Option<VrrSupport>)
        ensures
            *final(self) == (Output { vrr_support: Some(support_code(support)), ..*old(self) }),
            support_level(final(self).vrr_support) == support,
    {
        let code: u8 = match support {
            None => 0,
            Some(VrrSupport::NotSupported) => 1,
            Some(VrrSupport::RequiresModeset) => 2,
            Some(VrrSupport::Supported) => 3,
        };
        self.vrr_support = Some(code);
    }

    /// The configured rate for variable refresh, in millihertz.
    pub fn vrr_target_rate(&self) -> (rate: Option<u32>)
        ensures
            rate == self.vrr_target_rate,
    {
        self.vrr_target_rate
    }

    /// Sets the rate for variable refresh, in millihertz.
    pub fn set_vrr_target_rate(&mut self, rate: Option<u32>)
        ensures
            *final(self) == (Output { vrr_target_rate: rate, ..*old(self) }),
    {
        self.vrr_target_rate = rate;
    }

    /// The output whose content this one shows, if that output still exists.
    pub fn mirroring(&self, alive: bool) -> (output: Option<u64>)
        ensures
            output == if alive {
                self.mirroring
            } else {
                None
            },
    {
        if alive {
            self.mirroring
        } else {
            None
        }
    }

    /// Sets the output whose content this one shows.
    pub fn set_mirroring(&mut self, output: Option<u64>)
        ensures
            *final(self) == (Output { mirroring: output, ..*old(self) }),
    {
        self.mirroring = output;
    }

    /// Whether the output is configured and not disabled.
    pub fn is_enabled(&self) -> (enabled: bool)
        ensures
            enabled == (self.state matches Some(state) && !(state is Disabled)),
    {
        match self.state {
            Some(state) => state != OutputState::Disabled,
            None => false,
        }
    }

    /// Lets a barrier wait for the next frame.
    pub fn fifo_barrier(&mut self, barrier: u64, surface: u64, client: u64)
        ensures
            final(self).fifo_barriers@ == old(self).fifo_barriers@.push(
                FifoBarrierItem { barrier, surface, client },
            ),
            *final(self) == (Output { fifo_barriers: final(self).fifo_barriers, ..*old(self) }),
    {
        self.fifo_barriers.push(FifoBarrierItem { barrier, surface, client });
    }

    /// Takes all waiting barriers: returns them in order, to be signalled, and the
    /// surfaces that they block, each once.
    pub fn signal_fifo(&mut self) -> (signalled: (Vec<u64>, Vec<ClearedSurface>))
        ensures
            signalled.0@ == old(self).fifo_barriers@.map_values(|item: FifoBarrierItem| item.barrier),
            signalled.1@ == cleared(old(self).fifo_barriers@),
            final(self).fifo_barriers@ == Seq::<FifoBarrierItem>::empty(),
            *final(self) == (Output { fifo_barriers: final(self).fifo_barriers, ..*old(self) }),
    {
        let mut items: Vec<FifoBarrierItem> = Vec::new();
        std::mem::swap(&mut self.fifo_barriers, &mut items);
        let mut barriers: Vec<u64> = Vec::new();
        let mut surfaces: Vec<ClearedSurface> = Vec::new();
        assert(items@.take(0) =~= Seq::empty());
        for i in 0..items.len()
            invariant
                barriers.len() == i,
                forall|j: int| 0 <= j < i ==> barriers[j] == (#[trigger] items[j]).barrier,
                surfaces@ == cleared(items@.take(i as int)),
        {
            let item: FifoBarrierItem = items[i];
            proof {
                assert(items@.take(i + 1).drop_last() =~= items@.take(i as int));
                assert(items@.take(i + 1).last() == item);
            }
            barriers.push(item.barrier);
            let mut known: bool = false;
            for j in 0..surfaces.len()
                invariant
                    known == exists|k: int|
                        0 <= k < j && (#[trigger] surfaces[k]).surface == item.surface,
            {
                if surfaces[j].surface == item.surface {
                    known = true;
                }
            }
            assert(known == holds_surface(surfaces@, item.surface));
            if !known {
                surfaces.push(ClearedSurface { surface: item.surface, client: item.client });
            }
        }
        assert(items@.take(items@.len() as int) =~= items@);
        assert(barriers@ =~= items@.map_values(|item: FifoBarrierItem| item.barrier));
        (barriers, surfaces)
    }

    /// Records the average frame time, in nanoseconds.
    pub fn set_avg_frametime(&mut self, duration: Option<u64>)
        ensures
            *final(self) == (Output { avg_frametime: duration, ..*old(self) }),
    {
        self.avg_frametime = duration;
    }

    /// The average frame time, in nanoseconds.
    pub fn get_avg_frametime(&self) -> (duration: Option<u64>)
        ensures
            duration == self.avg_frametime,
    {
        self.avg_frametime
    }
}

/// What is set of an output is read back, and nothing else of it changes.
pub proof fn lemma_output_remembers(
    synced: &mut Output,
    vrr: AdaptiveSync,
    mode: AdaptiveSync,
    supporting: &mut Output,
    support: Option<VrrSupport>,
    level: Option<VrrSupport>,
    paced: &mut Output,
    rate: Option<u32>,
    target: Option<u32>,
    timed: &mut Output,
    duration: Option<u64>,
    average: Option<u64>,
)
    requires
        call_ensures(Output::set_adaptive_sync, (synced, vrr), ()),
        call_ensures(Output::adaptive_sync, (&*final(synced),), mode),
        call_ensures(Output::set_adaptive_sync_support, (supporting, support), ()),
        call_ensures(Output::adaptive_sync_support, (&*final(supporting),), level),
        call_ensures(Output::set_vrr_target_rate, (paced, rate), ()),
        call_ensures(Output::vrr_target_rate, (&*final(paced),), target),
        call_ensures(Output::set_avg_frametime, (timed, duration), ()),
        call_ensures(Output::get_avg_frametime, (&*final(timed),), average),
    ensures
        mode == vrr,
        *final(synced) == (Output { vrr: final(synced).vrr, ..*old(synced) }),
        level == support,
        *final(supporting) == (Output { vrr_support: final(supporting).vrr_support, ..*old(supporting) }),
        target == rate,
        *final(paced) == (Output { vrr_target_rate: final(paced).vrr_target_rate, ..*old(paced) }),
        average == duration,
        *final(timed) == (Output { avg_frametime: final(timed).avg_frametime, ..*old(timed) }),
{
}

/// An output of which nothing is known is not synced, not enabled and mirrors nothing,
/// and its support for adaptive sync is unknown.
pub proof fn lemma_new_output(
    name: String,
    output: Output,
    mode: AdaptiveSync,
    level: Option<VrrSupport>,
    enabled: bool,
    mirrored: Option<u64>,
    alive: bool,
)
    requires
        call_ensures(Output::new, (name,), output),
        call_ensures(Output::adaptive_sync, (&output,), mode),
        call_ensures(Output::adaptive_sync_support, (&output,), level),
        call_ensures(Output::is_enabled, (&output,), enabled),
        call_ensures(Output::mirroring, (&output, alive), mirrored),
    ensures
        output.name@ == name@,
        mode is Disabled,
        level is None,
        !enabled,
        mirrored is None,
        output.fifo_barriers@.len() == 0,
{
}

/// Codes that nothing was stored as count as off, or as not supported.
pub proof fn lemma_unknown_codes(
    output: &Output,
    mode: AdaptiveSync,
    level: Option<VrrSupport>,
)
    requires
        call_ensures(Output::adaptive_sync, (output,), mode),
        call_ensures(Output::adaptive_sync_support, (output,), level),
    ensures
        output.vrr matches Some(code) ==> (code > 2 || code == 0 ==> mode is Disabled),
        output.vrr_support matches Some(code) ==> (code > 3 ==> level == Some(
            VrrSupport::NotSupported,
        )) && (code == 0 ==> level is None),
{
}

/// An output mirrors what it was told to while that is alive; it is enabled unless it
/// is disabled or not configured; and it is internal by the kind of its connector.
pub proof fn lemma_output_in_use(
    output: &mut Output,
    source: Option<u64>,
    alive: bool,
    mirrored: Option<u64>,
    enabled: bool,
    internal: bool,
    edp: bool,
    lvds: bool,
    dsi: bool,
    name: &str,
)
    requires
        call_ensures(Output::set_mirroring, (output, source), ()),
        call_ensures(Output::mirroring, (&*final(output), alive), mirrored),
        call_ensures(Output::is_enabled, (&*final(output),), enabled),
        call_ensures(Output::is_internal, (&*final(output),), internal),
        name@ == final(output).name@,
        call_ensures(starts_with, (name, "eDP-"), edp),
        call_ensures(starts_with, (name, "LVDS-"), lvds),
        call_ensures(starts_with, (name, "DSI-"), dsi),
    ensures
        alive ==> mirrored == source,
        !alive ==> mirrored is None,
        final(output).state == old(output).state,
        enabled <==> old(output).state == Some(OutputState::Enabled) || old(output).state == Some(
            OutputState::Mirroring,
        ),
        internal <==> edp || lvds || dsi,
{
}

proof fn lemma_cleared_are_waiting(items: Seq<FifoBarrierItem>, i: int)
    requires
        0 <= i < cleared(items).len(),
    ensures
        exists|j: int|
            #![trigger items[j]]
            0 <= j < items.len() && items[j].surface == cleared(items)[i].surface && items[j].client
                == cleared(items)[i].client && forall|k: int|
                0 <= k < j ==> (#[trigger] items[k]).surface != items[j].surface,
    decreases items.len(),
{
    if items.len() > 0 {
        let rest = items.drop_last();
        let before = cleared(rest);
        let last = items.len() - 1;
        if i < before.len() {
            lemma_cleared_are_waiting(rest, i);
            assert(cleared(items)[i] == before[i]);
            let j = choose|j: int|
                #![trigger rest[j]]
                0 <= j < rest.len() && rest[j].surface == before[i].surface && rest[j].client
                    == before[i].client && forall|k: int|
                    0 <= k < j ==> (#[trigger] rest[k]).surface != rest[j].surface;
            assert(items[j] == rest[j]);
            assert forall|k: int| 0 <= k < j implies (#[trigger] items[k]).surface
                != items[j].surface by {
                assert(rest[k] == items[k]);
            }
        } else {
            lemma_cleared_once(rest);
            assert(items[last].surface == cleared(items)[i].surface);
            assert forall|k: int| 0 <= k < last implies (#[trigger] items[k]).surface
                != items[last].surface by {
                assert(rest[k] == items[k]);
                if items[k].surface == items[last].surface {
                    assert(holds_surface(before, rest[k].surface));
                }
            }
        }
    }
}

/// Every barrier that waits is signalled, in order, and none is left; and each surface
/// that one of them blocks is cleared, once, for the client of its first barrier.
pub proof fn lemma_all_barriers_are_signalled(
    output: &mut Output,
    signalled: (Vec<u64>, Vec<ClearedSurface>),
    i: int,
    j: int,
)
    requires
        call_ensures(Output::signal_fifo, (output,), signalled),
    ensures
        final(output).fifo_barriers@.len() == 0,
        signalled.0.len() == old(output).fifo_barriers.len(),
        0 <= i < signalled.0.len() ==> signalled.0@[i] == old(output).fifo_barriers@[i].barrier,
        0 <= i < signalled.0.len() ==> exists|k: int|
            0 <= k < signalled.1.len() && (#[trigger] signalled.1@[k]).surface
                == old(output).fifo_barriers@[i].surface,
        0 <= i < j < signalled.1.len() ==> signalled.1@[i].surface != signalled.1@[j].surface,
        0 <= i < signalled.1.len() ==> exists|k: int|
            #![trigger old(output).fifo_barriers@[k]]
            0 <= k < old(output).fifo_barriers.len() && old(output).fifo_barriers@[k].surface
                == signalled.1@[i].surface && old(output).fifo_barriers@[k].client
                == signalled.1@[i].client && forall|m: int|
                0 <= m < k ==> (#[trigger] old(output).fifo_barriers@[m]).surface
                    != signalled.1@[i].surface,
{
    let items = old(output).fifo_barriers@;
    lemma_cleared_once(items);
    if 0 <= i < signalled.0.len() {
        assert(holds_surface(cleared(items), items[i].surface));
    }
    if 0 <= i < signalled.1.len() {
        lemma_cleared_are_waiting(items, i);
    }
}

/// A barrier that was let wait is signalled with the next frame, after those before it.
pub proof fn lemma_waiting_barrier_is_signalled(
    output: &mut Output,
    barrier: u64,
    surface: u64,
    client: u64,
    next: &mut Output,
    signalled: (Vec<u64>, Vec<ClearedSurface>),
)
    requires
        call_ensures(Output::fifo_barrier, (output, barrier, surface, client), ()),
        *old(next) == *final(output),
        call_ensures(Output::signal_fifo, (next,), signalled),
    ensures
        signalled.0.len() == old(output).fifo_barriers.len() + 1,
        signalled.0@.last() == barrier,
        exists|k: int| 0 <= k < signalled.1.len() && (#[trigger] signalled.1@[k]).surface == surface,
{
    let items = old(next).fifo_barriers@;
    lemma_cleared_once(items);
    assert(items[items.len() - 1].surface == surface);
    assert(holds_surface(cleared(items), items[items.len() - 1].surface));
}

} // verus!
