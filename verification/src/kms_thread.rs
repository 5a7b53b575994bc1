//! The thread that waits for the events of a DRM device and hands vertical
//! blanks to the render threads of its outputs.
use crate::frame::{DrmEventTime, VBlankMetadata};
use vstd::prelude::*;

verus! {

/// Data can be read.
pub const POLLIN: u16 = 0x01;

/// An error occurred.
pub const POLLERR: u16 = 0x08;

/// The other end is gone.
pub const POLLHUP: u16 = 0x10;

/// Where the vertical blanks of a CRTC go. Receivers are named by an id.
#[derive(Debug, Clone, Copy, PartialEq, Eq, Structural)]
pub struct Route {
    pub crtc: u32,
    pub receiver: u64,
}

/// The routes of a device's thread: who gets the vertical blanks of its CRTCs.
#[derive(Debug)]
pub struct KmsThreadHandle {
    routes: Vec<Route>,
}

/// `routes` without those of `crtc`.
pub open spec fn without_crtc(routes: Seq<Route>, crtc: u32) -> Seq<Route>
    decreases routes.len(),
{
    if routes.len() == 0 {
        Seq::empty()
    } else {
        let rest = without_crtc(routes.drop_last(), crtc);
        if routes.last().crtc != crtc {
            rest.push(routes.last())
        } else {
            rest
        }
    }
}

/// The receiver of the first route of `crtc` from `from` on.
pub open spec fn receiver_of(routes: Seq<Route>, crtc: u32, from: int) -> Option<u64>
    decreases routes.len() - from,
{
    if from < 0 || from >= routes.len() {
        None
    } else if routes[from].crtc == crtc {
        Some(routes[from].receiver)
    } else {
        receiver_of(routes, crtc, from + 1)
    }
}

/// No CRTC has two routes.
pub open spec fn one_route_each(routes: Seq<Route>) -> bool {
    forall|i: int, j: int|
        0 <= i < j < routes.len() ==> (#[trigger] routes[i]).crtc != (#[trigger] routes[j]).crtc
}

proof fn lemma_without_crtc(routes: Seq<Route>, crtc: u32)
    ensures
        forall|i: int|
            0 <= i < without_crtc(routes, crtc).len() ==> {
                &&& (#[trigger] without_crtc(routes, crtc)[i]).crtc != crtc
                &&& routes.contains(without_crtc(routes, crtc)[i])
            },
        one_route_each(routes) ==> one_route_each(without_crtc(routes, crtc)),
    decreases routes.len(),
{
    if routes.len() > 0 {
        let rest_routes = routes.drop_last();
        let rest = without_crtc(rest_routes, crtc);
        let all = without_crtc(routes, crtc);
        lemma_without_crtc(rest_routes, crtc);
        assert forall|i: int| 0 <= i < all.len() implies {
            &&& (#[trigger] all[i]).crtc != crtc
            &&& routes.contains(all[i])
        } by {
            if i < rest.len() {
                assert(all[i] == rest[i]);
                let k = choose|k: int| 0 <= k < rest_routes.len() && rest_routes[k] == rest[i];
                assert(routes[k] == all[i]);
            } else {
                assert(routes[routes.len() - 1] == all[i]);
            }
        }
        if one_route_each(routes) {
            assert(one_route_each(rest_routes)) by {
                assert forall|i: int, j: int| 0 <= i < j < rest_routes.len() implies (
                #[trigger] rest_routes[i]).crtc != (#[trigger] rest_routes[j]).crtc by {
                    assert(routes[i].crtc != routes[j].crtc);
                }
            }
            assert forall|i: int, j: int| 0 <= i < j < all.len() implies (#[trigger] all[i]).crtc
                != (#[trigger] all[j]).crtc by {
                assert(all[i] == rest[i]);
                if j < rest.len() {
                    assert(all[j] == rest[j]);
                } else {
                    let k = choose|k: int| 0 <= k < rest_routes.len() && rest_routes[k] == rest[i];
                    assert(routes[k].crtc != routes[routes.len() - 1].crtc);
                }
            }
        }
    }
}

proof fn lemma_receiver_of(routes: Seq<Route>, crtc: u32, from: int)
    requires
        0 <= from <= routes.len(),
    ensures
        receiver_of(routes, crtc, from) is None <==> forall|i: int|
            from <= i < routes.len() ==> (#[trigger] routes[i]).crtc != crtc,
    decreases routes.len() - from,
{
    if from < routes.len() && routes[from].crtc != crtc {
        lemma_receiver_of(routes, crtc, from + 1);
    }
}

proof fn lemma_receiver_of_push(routes: Seq<Route>, route: Route, from: int)
    requires
        0 <= from <= routes.len(),
        forall|i: int| from <= i < routes.len() ==> (#[trigger] routes[i]).crtc != route.crtc,
    ensures
        receiver_of(routes.push(route), route.crtc, from) == Some(route.receiver),
    decreases routes.len() - from,
{
    if from < routes.len() {
        assert(routes.push(route)[from] == routes[from]);
        lemma_receiver_of_push(routes, route, from + 1);
    }
}

impl View for KmsThreadHandle {
    type V = Seq<Route>;

    closed spec fn view(&self) -> Seq<Route> {
        self.routes@
    }
}

impl KmsThreadHandle {
    /// No CRTC has two routes.
    #[verifier::type_invariant]
    closed spec fn wf(self) -> bool {
        one_route_each(self.routes@)
    }

    /// A handle without routes.
    pub fn new() -> (handle: KmsThreadHandle)
        ensures
            handle@ == Seq::<Route>::empty(),
    {
        KmsThreadHandle { routes: Vec::new() }
    }

    fn retained(&self, crtc: u32) -> (kept: Vec<Route>)
        ensures
            kept@ == without_crtc(self@, crtc),
    {
        let mut kept: Vec<Route> = Vec::new();
        assert(self.routes@.take(0) =~= Seq::empty());
        for i in 0..self.routes.len()
            invariant
                kept@ == without_crtc(self.routes@.take(i as int), crtc),
        {
            proof {
                assert(self.routes@.take(i + 1).drop_last() =~= self.routes@.take(i as int));
                assert(self.routes@.take(i + 1).last() == self.routes@[i as int]);
            }
            if self.routes[i].crtc != crtc {
                kept.push(self.routes[i]);
            }
        }
        assert(self.routes@.take(self.routes@.len() as int) =~= self.routes@);
        kept
    }

    /// The routes with `receiver` as the one that gets the vertical blanks of `crtc`.
    pub fn register(&self, crtc: u32, receiver: u64) -> (handle: KmsThreadHandle)
        ensures
            handle@ == without_crtc(self@, crtc).push(Route { crtc, receiver }),
    {
        proof {
            use_type_invariant(self);
            lemma_without_crtc(self@, crtc);
        }
        let mut routes: Vec<Route> = self.retained(crtc);
        routes.push(Route { crtc, receiver });
        KmsThreadHandle { routes }
    }

    /// The routes without one that gets the vertical blanks of `crtc`.
    pub fn unregister(&self, crtc: u32) -> (handle: KmsThreadHandle)
        ensures
            handle@ == without_crtc(self@, crtc),
    {
        proof {
            use_type_invariant(self);
            lemma_without_crtc(self@, crtc);
        }
        KmsThreadHandle { routes: self.retained(crtc) }
    }

    /// The receiver of the vertical blanks of `crtc`.
    pub fn receiver(&self, crtc: u32) -> (receiver: Option<u64>)
        ensures
            receiver == receiver_of(self@, crtc, 0),
    {
        let mut i: usize = 0;
        while i < self.routes.len()
            invariant
                i <= self.routes.len(),
                receiver_of(self@, crtc, 0) == receiver_of(self@, crtc, i as int),
            decreases self.routes.len() - i,
        {
            if self.routes[i].crtc == crtc {
                return Some(self.routes[i].receiver);
            }
            i = i + 1;
        }
        None
    }
}

/// After registering, exactly the new receiver is found for the CRTC; after
/// unregistering, none is.
pub proof fn lemma_registered_is_found(routes: Seq<Route>, crtc: u32, receiver: u64)
    ensures
        receiver_of(without_crtc(routes, crtc).push(Route { crtc, receiver }), crtc, 0) == Some(
            receiver,
        ),
        receiver_of(without_crtc(routes, crtc), crtc, 0) is None,
{
    lemma_without_crtc(routes, crtc);
    lemma_receiver_of_push(without_crtc(routes, crtc), Route { crtc, receiver }, 0);
    lemma_receiver_of(without_crtc(routes, crtc), crtc, 0);
}

/// Registering and unregistering a CRTC leaves the receivers of others alone.
pub proof fn lemma_others_keep_their_receivers(
    routes: Seq<Route>,
    crtc: u32,
    receiver: u64,
    other: u32,
)
    requires
        other != crtc,
        one_route_each(routes),
    ensures
        receiver_of(without_crtc(routes, crtc), other, 0) == receiver_of(routes, other, 0),
        receiver_of(without_crtc(routes, crtc).push(Route { crtc, receiver }), other, 0)
            == receiver_of(routes, other, 0),
    decreases routes.len(),
{
    lemma_appended(without_crtc(routes, crtc), Route { crtc, receiver }, other, 0);
    if routes.len() > 0 {
        let rest = routes.drop_last();
        assert(one_route_each(rest)) by {
            assert forall|i: int, j: int| 0 <= i < j < rest.len() implies (#[trigger] rest[i]).crtc
                != (#[trigger] rest[j]).crtc by {
                assert(routes[i].crtc != routes[j].crtc);
            }
        }
        lemma_others_keep_their_receivers(rest, crtc, receiver, other);
        assert(routes =~= rest.push(routes.last()));
        if routes.last().crtc == other {
            assert forall|i: int| 0 <= i < rest.len() implies (#[trigger] rest[i]).crtc
                != other by {
                assert(routes[i].crtc != routes[routes.len() - 1].crtc);
            }
            lemma_receiver_of(rest, other, 0);
            lemma_receiver_of_push(rest, routes.last(), 0);
            lemma_receiver_of(without_crtc(rest, crtc), other, 0);
            lemma_receiver_of_push(without_crtc(rest, crtc), routes.last(), 0);
        } else {
            lemma_appended(rest, routes.last(), other, 0);
            lemma_appended(without_crtc(rest, crtc), routes.last(), other, 0);
        }
    }
}

proof fn lemma_appended(routes: Seq<Route>, route: Route, other: u32, from: int)
    requires
        route.crtc != other,
        0 <= from <= routes.len(),
    ensures
        receiver_of(routes.push(route), other, from) == receiver_of(routes, other, from),
    decreases routes.len() - from,
{
    if from < routes.len() {
        assert(routes.push(route)[from] == routes[from]);
        lemma_appended(routes, route, other, from + 1);
    } else {
        assert(receiver_of(routes.push(route), other, from + 1) is None);
    }
}

/// An event of a DRM device. Times are in nanoseconds.
#[derive(Debug, Clone, Copy, PartialEq, Eq, Structural)]
pub enum DrmEvent {
    PageFlip { crtc: u32, duration: u64, frame: u32 },
    Vblank { crtc: u32, time: u64, frame: u32 },
    Unknown,
}

/// A vertical blank for a receiver.
#[derive(Debug, Clone, Copy, PartialEq, Eq, Structural)]
pub struct Delivery {
    pub receiver: u64,
    pub metadata: VBlankMetadata,
}

/// The vertical blank that an event tells of, with its CRTC.
pub open spec fn vblank_of(event: DrmEvent, has_monotonic: bool) -> Option<(u32, VBlankMetadata)> {
    let time = |nanoseconds: u64|
        if has_monotonic {
            DrmEventTime::Monotonic(nanoseconds)
        } else {
            DrmEventTime::Realtime(nanoseconds)
        };
    match event {
        DrmEvent::PageFlip { crtc, duration, frame } => Some(
            (crtc, VBlankMetadata { time: time(duration), sequence: frame }),
        ),
        DrmEvent::Vblank { crtc, time: at, frame } => Some(
            (crtc, VBlankMetadata { time: time(at), sequence: frame }),
        ),
        DrmEvent::Unknown => None,
    }
}

/// The vertical blanks that go to a receiver, in order.
pub open spec fn deliveries(
    events: Seq<DrmEvent>,
    routes: Seq<Route>,
    has_monotonic: bool,
) -> Seq<Delivery>
    decreases events.len(),
{
    if events.len() == 0 {
        Seq::empty()
    } else {
        let rest = deliveries(events.drop_last(), routes, has_monotonic);
        match vblank_of(events.last(), has_monotonic) {
            Some((crtc, metadata)) => match receiver_of(routes, crtc, 0) {
                Some(receiver) => rest.push(Delivery { receiver, metadata }),
                None => rest,
            },
            None => rest,
        }
    }
}

/// Hands the vertical blanks among `events` to the receivers of their CRTCs;
/// those that nobody waits for are dropped.
pub fn route_events(events: &Vec<DrmEvent>, routes: &KmsThreadHandle, has_monotonic: bool) -> (delivered:
    Vec<Delivery>)
    ensures
        delivered@ == deliveries(events@, routes@, has_monotonic),
{
    let mut delivered: Vec<Delivery> = Vec::new();
    assert(events@.take(0) =~= Seq::empty());
    for i in 0..events.len()
        invariant
            delivered@ == deliveries(events@.take(i as int), routes@, has_monotonic),
    {
        proof {
            assert(events@.take(i + 1).drop_last() =~= events@.take(i as int));
            assert(events@.take(i + 1).last() == events@[i as int]);
        }
        let found: Option<(u32, u64, u32)> = match events[i] {
            DrmEvent::PageFlip { crtc, duration, frame } => Some((crtc, duration, frame)),
            DrmEvent::Vblank { crtc, time, frame } => Some((crtc, time, frame)),
            DrmEvent::Unknown => None,
        };
        if let Some((crtc, nanoseconds, sequence)) = found {
            let time: DrmEventTime = if has_monotonic {
                DrmEventTime::Monotonic(nanoseconds)
            } else {
                DrmEventTime::Realtime(nanoseconds)
            };
            if let Some(receiver) = routes.receiver(crtc) {
                delivered.push(
                    Delivery { receiver, metadata: VBlankMetadata { time, sequence } },
                );
            }
        }
    }
    assert(events@.take(events@.len() as int) =~= events@);
    delivered
}

/// What polling the device and the stop signal came to.
#[derive(Debug, Clone, Copy, PartialEq, Eq, Structural)]
pub enum PollResult {
    /// Polling failed; it may just have been interrupted.
    Failed { interrupted: bool },
    /// What happened on the device and on the stop signal.
    Ready { device: u16, stop: u16 },
}

/// What the thread does next.
#[derive(Debug, Clone, Copy, PartialEq, Eq, Structural)]
pub struct PollStep {
    /// Read and route the events of the device.
    pub receive: bool,
    /// End the thread, after that.
    pub exit: bool,
}

/// Decides what the thread does next. A stop signal ends it at once; a device
/// that hung up or failed ends it once its events are read.
pub fn poll_step(result: PollResult) -> (step: PollStep)
    ensures
        step == match result {
            PollResult::Failed { interrupted } => PollStep { receive: false, exit: !interrupted },
            PollResult::Ready { device, stop } => if stop & (POLLIN | POLLERR | POLLHUP) != 0 {
                PollStep { receive: false, exit: true }
            } else {
                PollStep {
                    receive: device & POLLIN != 0,
                    exit: device & (POLLERR | POLLHUP) != 0,
                }
            },
        },
{
    match result {
        PollResult::Failed { interrupted } => PollStep { receive: false, exit: !interrupted },
        PollResult::Ready { device, stop } => {
            if stop & (POLLIN | POLLERR | POLLHUP) != 0 {
                PollStep { receive: false, exit: true }
            } else {
                PollStep {
                    receive: device & POLLIN != 0,
                    exit: device & (POLLERR | POLLHUP) != 0,
                }
            }
        },
    }
}

/// A registered receiver is found for its CRTC until it is unregistered, and no CRTC
/// finds another one's.
pub proof fn lemma_routes_lead_to_their_receivers(
    handle: &KmsThreadHandle,
    crtc: u32,
    receiver: u64,
    other: u32,
    registered: KmsThreadHandle,
    found: Option<u64>,
    others_found: Option<u64>,
    unregistered: KmsThreadHandle,
    gone: Option<u64>,
    others_left: Option<u64>,
    others_before: Option<u64>,
    empty: KmsThreadHandle,
    nobody: Option<u64>,
)
    requires
        call_ensures(KmsThreadHandle::register, (handle, crtc, receiver), registered),
        call_ensures(KmsThreadHandle::receiver, (&registered, crtc), found),
        call_ensures(KmsThreadHandle::receiver, (&registered, other), others_found),
        call_ensures(KmsThreadHandle::unregister, (handle, crtc), unregistered),
        call_ensures(KmsThreadHandle::receiver, (&unregistered, crtc), gone),
        call_ensures(KmsThreadHandle::receiver, (&unregistered, other), others_left),
        call_ensures(KmsThreadHandle::receiver, (handle, other), others_before),
        call_ensures(KmsThreadHandle::new, (), empty),
        call_ensures(KmsThreadHandle::receiver, (&empty, crtc), nobody),
        one_route_each(handle@),
    ensures
        found == Some(receiver),
        gone is None,
        nobody is None,
        other != crtc ==> others_found == others_before && others_left == others_before,
{
    lemma_registered_is_found(handle@, crtc, receiver);
    if other != crtc {
        lemma_others_keep_their_receivers(handle@, crtc, receiver, other);
    }
}

/// Events are delivered one after the other: a page flip or vertical blank goes to the
/// receiver of its CRTC, with its own time and number, on the clock that the kernel
/// uses; one that nobody waits for goes nowhere.
pub proof fn lemma_events_are_delivered_in_order(
    events: &Vec<DrmEvent>,
    routes: &KmsThreadHandle,
    has_monotonic: bool,
    before: Vec<Delivery>,
    longer: &Vec<DrmEvent>,
    event: DrmEvent,
    after: Vec<Delivery>,
    crtc: u32,
    nanoseconds: u64,
    number: u32,
    receiver: Option<u64>,
)
    requires
        call_ensures(route_events, (events, routes, has_monotonic), before),
        longer@ == events@.push(event),
        call_ensures(route_events, (longer, routes, has_monotonic), after),
        event is Unknown || event == (DrmEvent::PageFlip {
            crtc,
            duration: nanoseconds,
            frame: number,
        }) || event == (DrmEvent::Vblank { crtc, time: nanoseconds, frame: number }),
        call_ensures(KmsThreadHandle::receiver, (routes, crtc), receiver),
    ensures
        events.len() == 0 ==> before.len() == 0,
        event is Unknown || receiver is None ==> after@ == before@,
        !(event is Unknown) ==> (receiver matches Some(id) ==> {
            &&& after@.len() == before@.len() + 1
            &&& after@.drop_last() == before@
            &&& after@.last().receiver == id
            &&& after@.last().metadata.sequence == number
            &&& has_monotonic ==> after@.last().metadata.time == DrmEventTime::Monotonic(
                nanoseconds,
            )
            &&& !has_monotonic ==> after@.last().metadata.time == DrmEventTime::Realtime(
                nanoseconds,
            )
        }),
{
    assert(longer@.drop_last() =~= events@);
    assert(after@.drop_last() =~= before@ || after@ == before@);
}

/// The thread ends at once when it is told to stop, and after its last events when the
/// device fails or hangs up; an interruption changes nothing.
pub proof fn lemma_thread_ends_when_told(result: PollResult, step: PollStep)
    requires
        call_ensures(poll_step, (result,), step),
    ensures
        result matches PollResult::Failed { interrupted } ==> !step.receive && (step.exit
            <==> !interrupted),
        result matches PollResult::Ready { device, stop } ==> {
            let stopped = stop & 0x01 != 0 || stop & 0x08 != 0 || stop & 0x10 != 0;
            &&& stopped ==> step.exit && !step.receive
            &&& !stopped ==> (step.receive <==> device & 0x01 != 0)
            &&& !stopped ==> (step.exit <==> device & 0x08 != 0 || device & 0x10 != 0)
        },
{
    if let PollResult::Ready { device, stop } = result {
        assert((stop & (0x01u16 | 0x08u16 | 0x10u16) != 0) <==> (stop & 0x01 != 0 || stop & 0x08
            != 0 || stop & 0x10 != 0)) by (bit_vector);
        assert((device & (0x08u16 | 0x10u16) != 0) <==> (device & 0x08 != 0 || device & 0x10
            != 0)) by (bit_vector);
    }
}

} // verus!
