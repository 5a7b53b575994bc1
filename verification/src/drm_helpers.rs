//! Reading and laying out KMS resources: which CRTC drives which connector,
//! what has to be switched off, and what the properties of a connector mean.
use vstd::prelude::*;

verus! {

/// A connector as a probe found it.
#[derive(Debug, Clone, Copy, PartialEq, Eq, Structural)]
pub struct ProbedConnector {
    pub handle: u32,
    pub connected: bool,
    /// The CRTC behind the connector's current encoder.
    pub crtc: Option<u32>,
}

/// A connector with the CRTCs that its encoders can be driven by.
#[derive(Debug)]
pub struct ConnectorEncoders {
    pub handle: u32,
    pub connected: bool,
    /// For each encoder its possible CRTCs, in order of preference.
    pub possible_crtcs: Vec<Vec<u32>>,
}

/// Which CRTC drives which connector: each connector stands in it once.
#[derive(Debug)]
pub struct CrtcMap {
    entries: Vec<(u32, Option<u32>)>,
}

/// The entries as a map.
pub open spec fn entries_map(entries: Seq<(u32, Option<u32>)>) -> Map<u32, Option<u32>>
    decreases entries.len(),
{
    if entries.len() == 0 {
        Map::empty()
    } else {
        entries_map(entries.drop_last()).insert(entries.last().0, entries.last().1)
    }
}

/// Whether a connector is driven by `crtc`.
pub open spec fn drives(map: Map<u32, Option<u32>>, crtc: u32) -> bool {
    exists|handle: u32| #[trigger] map.dom().contains(handle) && map[handle] == Some(crtc)
}

/// No two connectors share a CRTC.
pub open spec fn no_shared_crtc(map: Map<u32, Option<u32>>) -> bool {
    forall|a: u32, b: u32|
        #![trigger map.dom().contains(a), map.dom().contains(b)]
        map.dom().contains(a) && map.dom().contains(b) && map[a] is Some && map[a] == map[b] ==> a
            == b
}

proof fn lemma_entries_map(entries: Seq<(u32, Option<u32>)>)
    requires
        forall|i: int, j: int| 0 <= i < j < entries.len() ==> entries[i].0 != entries[j].0,
    ensures
        forall|i: int|
            0 <= i < entries.len() ==> entries_map(entries).dom().contains(
                (#[trigger] entries[i]).0,
            ) && entries_map(entries)[entries[i].0] == entries[i].1,
        forall|handle: u32| #[trigger]
            entries_map(entries).dom().contains(handle) ==> exists|i: int|
                0 <= i < entries.len() && (#[trigger] entries[i]).0 == handle,
    decreases entries.len(),
{
    if entries.len() > 0 {
        let rest = entries.drop_last();
        lemma_entries_map(rest);
        assert forall|i: int| 0 <= i < entries.len() implies entries_map(entries).dom().contains(
            (#[trigger] entries[i]).0,
        ) && entries_map(entries)[entries[i].0] == entries[i].1 by {
            if i < rest.len() {
                assert(rest[i] == entries[i]);
            }
        }
        assert forall|handle: u32| #[trigger]
            entries_map(entries).dom().contains(handle) implies exists|i: int|
            0 <= i < entries.len() && (#[trigger] entries[i]).0 == handle by {
            if handle == entries.last().0 {
                assert(entries[entries.len() - 1].0 == handle);
            } else {
                assert(entries_map(rest).dom().contains(handle));
                let i = choose|i: int| 0 <= i < rest.len() && (#[trigger] rest[i]).0 == handle;
                assert(entries[i] == rest[i]);
            }
        }
    }
}

impl View for CrtcMap {
    type V = Map<u32, Option<u32>>;

    closed spec fn view(&self) -> Map<u32, Option<u32>> {
        entries_map(self.entries@)
    }
}

impl CrtcMap {
    /// Each connector stands in the map once.
    #[verifier::type_invariant]
    closed spec fn wf(self) -> bool {
        forall|i: int, j: int|
            0 <= i < j < self.entries.len() ==> self.entries[i].0 != self.entries[j].0
    }

    /// An empty map.
    pub fn new() -> (map: CrtcMap)
        ensures
            map@ == Map::<u32, Option<u32>>::empty(),
    {
        CrtcMap { entries: Vec::new() }
    }

    /// Where the entry of a connector stands, or the number of entries.
    fn position(&self, handle: u32) -> (at: usize)
        ensures
            at <= self.entries.len(),
            at < self.entries.len() ==> self.entries[at as int].0 == handle,
            forall|j: int| 0 <= j < at ==> (#[trigger] self.entries@[j]).0 != handle,
    {
        let mut at: usize = 0;
        while at < self.entries.len() && self.entries[at].0 != handle
            invariant
                at <= self.entries.len(),
                forall|j: int| 0 <= j < at ==> (#[trigger] self.entries@[j]).0 != handle,
            decreases self.entries.len() - at,
        {
            at = at + 1;
        }
        at
    }

    /// The CRTC of a connector: `None` where the connector is unknown, and
    /// `Some(None)` where no CRTC was left for it.
    pub fn get(&self, handle: u32) -> (crtc: Option<Option<u32>>)
        ensures
            crtc == if self@.dom().contains(handle) {
                Some(self@[handle])
            } else {
                None
            },
    {
        proof {
            use_type_invariant(self);
            lemma_entries_map(self.entries@);
        }
        let at: usize = self.position(handle);
        if at < self.entries.len() {
            assert(self.entries@[at as int].0 == handle);
            Some(self.entries[at].1)
        } else {
            None
        }
    }

    /// Whether some connector is driven by `crtc`.
    pub fn has_crtc(&self, crtc: u32) -> (found: bool)
        ensures
            found == drives(self@, crtc),
    {
        proof {
            use_type_invariant(self);
            lemma_entries_map(self.entries@);
        }
        for i in 0..self.entries.len()
            invariant
                forall|j: int| 0 <= j < i ==> self.entries[j].1 != Some(crtc),
                forall|j: int|
                    0 <= j < self.entries.len() ==> self@.dom().contains(
                        (#[trigger] self.entries@[j]).0,
                    ) && self@[self.entries[j].0] == self.entries[j].1,
                forall|h: u32| #[trigger]
                    self@.dom().contains(h) ==> exists|j: int|
                        0 <= j < self.entries.len() && (#[trigger] self.entries@[j]).0 == h,
        {
            if let Some(used) = self.entries[i].1 {
                if used == crtc {
                    assert(self@.dom().contains(self.entries[i as int].0));
                    return true;
                }
            }
        }
        assert(!drives(self@, crtc));
        false
    }

    /// Sets the CRTC of a connector.
    pub fn insert(&mut self, handle: u32, crtc: Option<u32>)
        ensures
            final(self)@ == old(self)@.insert(handle, crtc),
    {
        proof {
            use_type_invariant(&*self);
        }
        let at: usize = self.position(handle);
        let mut entries: Vec<(u32, Option<u32>)> = Vec::new();
        let ghost before = self.entries@;
        std::mem::swap(&mut self.entries, &mut entries);
        if at < entries.len() {
            proof {
                lemma_entries_map_update(before, at as int, crtc);
            }
            entries.set(at, (handle, crtc));
        } else {
            entries.push((handle, crtc));
            assert(entries@.drop_last() =~= before);
        }
        self.entries = entries;
    }

    /// The connectors and their CRTCs.
    pub fn to_vec(&self) -> (entries: Vec<(u32, Option<u32>)>)
        ensures
            entries_map(entries@) == self@,
            forall|i: int, j: int| 0 <= i < j < entries.len() ==> entries[i].0 != entries[j].0,
    {
        proof {
            use_type_invariant(self);
        }
        let mut entries: Vec<(u32, Option<u32>)> = Vec::new();
        for i in 0..self.entries.len()
            invariant
                entries@ == self.entries@.take(i as int),
        {
            entries.push(self.entries[i]);
            assert(self.entries@.take(i + 1) == self.entries@.take(i as int).push(
                self.entries@[i as int],
            ));
        }
        assert(self.entries@.take(self.entries@.len() as int) == self.entries@);
        entries
    }
}

proof fn lemma_entries_map_update(entries: Seq<(u32, Option<u32>)>, i: int, crtc: Option<u32>)
    requires
        0 <= i < entries.len(),
        forall|j: int, k: int| 0 <= j < k < entries.len() ==> entries[j].0 != entries[k].0,
    ensures
        entries_map(entries.update(i, (entries[i].0, crtc))) == entries_map(entries).insert(
            entries[i].0,
            crtc,
        ),
    decreases entries.len(),
{
    let updated = entries.update(i, (entries[i].0, crtc));
    if i == entries.len() - 1 {
        assert(updated.drop_last() =~= entries.drop_last());
        assert(entries_map(updated) =~= entries_map(entries).insert(entries[i].0, crtc));
    } else {
        lemma_entries_map_update(entries.drop_last(), i, crtc);
        assert(updated.drop_last() =~= entries.drop_last().update(i, (entries[i].0, crtc)));
        assert(entries_map(updated) =~= entries_map(entries).insert(entries[i].0, crtc));
    }
}

/// The mapping that the previous DRM master left behind.
pub open spec fn established(probed: Seq<ProbedConnector>) -> Map<u32, Option<u32>>
    decreases probed.len(),
{
    if probed.len() == 0 {
        Map::empty()
    } else {
        let rest = established(probed.drop_last());
        let conn = probed.last();
        if conn.connected && conn.crtc is Some {
            rest.insert(conn.handle, conn.crtc)
        } else {
            rest
        }
    }
}

/// The CRTCs that still drive a connector which is no longer connected.
pub open spec fn abandoned(probed: Seq<ProbedConnector>) -> Seq<u32>
    decreases probed.len(),
{
    if probed.len() == 0 {
        Seq::empty()
    } else {
        let rest = abandoned(probed.drop_last());
        match probed.last().crtc {
            Some(crtc) if !probed.last().connected => rest.push(crtc),
            _ => rest,
        }
    }
}

/// The first of `crtcs` that drives no connector.
pub open spec fn first_free(crtcs: Seq<u32>, map: Map<u32, Option<u32>>) -> Option<u32>
    decreases crtcs.len(),
{
    if crtcs.len() == 0 {
        None
    } else if !drives(map, crtcs[0]) {
        Some(crtcs[0])
    } else {
        first_free(crtcs.drop_first(), map)
    }
}

/// The possible CRTCs of all encoders, one encoder after the other.
pub open spec fn candidates(possible: Seq<Vec<u32>>) -> Seq<u32>
    decreases possible.len(),
{
    if possible.len() == 0 {
        Seq::empty()
    } else {
        candidates(possible.drop_last()) + possible.last()@
    }
}

impl ConnectorEncoders {
    /// The CRTCs that can drive this connector, in order of preference.
    pub open spec fn crtcs(self) -> Seq<u32> {
        candidates(self.possible_crtcs@)
    }

    /// `map` with this connector matched to a free CRTC, if there is one.
    pub open spec fn matched_in(self, map: Map<u32, Option<u32>>) -> Map<u32, Option<u32>> {
        match first_free(self.crtcs(), map) {
            Some(crtc) => map.insert(self.handle, Some(crtc)),
            None => if map.dom().contains(self.handle) {
                map
            } else {
                map.insert(self.handle, None)
            },
        }
    }
}

/// `known` with every other connected connector matched, one after the other.
pub open spec fn matched(
    connectors: Seq<ConnectorEncoders>,
    known: Map<u32, Option<u32>>,
) -> Map<u32, Option<u32>>
    decreases connectors.len(),
{
    if connectors.len() == 0 {
        known
    } else {
        let rest = matched(connectors.drop_last(), known);
        let conn = connectors.last();
        if conn.connected && !known.dom().contains(conn.handle) {
            conn.matched_in(rest)
        } else {
            rest
        }
    }
}

proof fn lemma_first_free(crtcs: Seq<u32>, map: Map<u32, Option<u32>>)
    ensures
        first_free(crtcs, map) matches Some(crtc) ==> !drives(map, crtc) && crtcs.contains(crtc),
        first_free(crtcs, map) is None ==> forall|i: int|
            0 <= i < crtcs.len() ==> drives(map, #[trigger] crtcs[i]),
    decreases crtcs.len(),
{
    if crtcs.len() > 0 && drives(map, crtcs[0]) {
        let rest = crtcs.drop_first();
        lemma_first_free(rest, map);
        if let Some(crtc) = first_free(rest, map) {
            let i = choose|i: int| 0 <= i < rest.len() && rest[i] == crtc;
            assert(crtcs[i + 1] == crtc);
        } else {
            assert forall|i: int| 0 <= i < crtcs.len() implies drives(map, #[trigger] crtcs[i]) by {
                if i > 0 {
                    assert(rest[i - 1] == crtcs[i]);
                }
            }
        }
    }
}

proof fn lemma_first_free_split(a: Seq<u32>, b: Seq<u32>, map: Map<u32, Option<u32>>)
    ensures
        first_free(a + b, map) == match first_free(a, map) {
            Some(crtc) => Some(crtc),
            None => first_free(b, map),
        },
    decreases a.len(),
{
    if a.len() == 0 {
        assert(a + b =~= b);
    } else {
        assert((a + b)[0] == a[0]);
        assert((a + b).drop_first() =~= a.drop_first() + b);
        lemma_first_free_split(a.drop_first(), b, map);
    }
}

/// The first CRTC among `possible` that drives no connector.
fn find_free_crtc(possible: &Vec<Vec<u32>>, map: &CrtcMap) -> (crtc: Option<u32>)
    ensures
        crtc == first_free(candidates(possible@), map@),
{
    assert(possible@.take(0) =~= Seq::empty());
    for i in 0..possible.len()
        invariant
            first_free(candidates(possible@.take(i as int)), map@) is None,
    {
        let crtcs: &Vec<u32> = &possible[i];
        let ghost earlier = candidates(possible@.take(i as int));
        proof {
            assert(possible@.take(i + 1).drop_last() =~= possible@.take(i as int));
            assert(candidates(possible@.take(i + 1)) == earlier + crtcs@);
            assert(crtcs@.take(0) =~= Seq::empty());
        }
        for j in 0..crtcs.len()
            invariant
                first_free(crtcs@.take(j as int), map@) is None,
                first_free(earlier, map@) is None,
                i < possible.len(),
                crtcs@ == possible@[i as int]@,
                earlier == candidates(possible@.take(i as int)),
                candidates(possible@.take(i + 1)) == earlier + crtcs@,
        {
            let crtc: u32 = crtcs[j];
            let free: bool = !map.has_crtc(crtc);
            proof {
                lemma_first_free_split(crtcs@.take(j as int), seq![crtc], map@);
                assert(crtcs@.take(j as int) + seq![crtc] =~= crtcs@.take(j + 1));
                let single = seq![crtc];
                assert(single.drop_first() =~= Seq::empty());
                assert(first_free(single.drop_first(), map@) is None);
                assert(first_free(single, map@) is None == drives(map@, crtc));
            }
            if free {
                proof {
                    let rest = crtcs@.subrange(j + 1, crtcs@.len() as int);
                    lemma_first_free_split(crtcs@.take(j + 1), rest, map@);
                    assert(crtcs@.take(j + 1) + rest =~= crtcs@);
                    lemma_first_free_split(earlier, crtcs@, map@);
                    lemma_candidates_split(possible@, i + 1);
                    let later = candidates(possible@.subrange(i + 1, possible@.len() as int));
                    lemma_first_free_split(earlier + crtcs@, later, map@);
                }
                return Some(crtc);
            }
        }
        proof {
            assert(crtcs@.take(crtcs@.len() as int) =~= crtcs@);
            lemma_first_free_split(earlier, crtcs@, map@);
        }
    }
    assert(possible@.take(possible@.len() as int) =~= possible@);
    None
}

proof fn lemma_candidates_split(possible: Seq<Vec<u32>>, i: int)
    requires
        0 <= i <= possible.len(),
    ensures
        candidates(possible) == candidates(possible.take(i)) + candidates(
            possible.subrange(i, possible.len() as int),
        ),
    decreases possible.len() - i,
{
    let tail = possible.subrange(i, possible.len() as int);
    if i == possible.len() {
        assert(possible.take(i) =~= possible);
        assert(tail =~= Seq::empty());
        assert(candidates(possible) + candidates(tail) =~= candidates(possible));
    } else {
        lemma_candidates_split(possible, i + 1);
        let rest = possible.subrange(i + 1, possible.len() as int);
        assert(possible.take(i + 1).drop_last() =~= possible.take(i));
        lemma_candidates_front(tail);
        assert(tail.drop_first() =~= rest);
        assert(candidates(possible.take(i)) + possible[i]@ + candidates(rest) =~= candidates(
            possible.take(i),
        ) + (possible[i]@ + candidates(rest)));
    }
}

proof fn lemma_candidates_front(possible: Seq<Vec<u32>>)
    requires
        possible.len() > 0,
    ensures
        candidates(possible) == possible[0]@ + candidates(possible.drop_first()),
    decreases possible.len(),
{
    if possible.len() == 1 {
        assert(possible.drop_last() =~= Seq::empty());
        assert(possible.drop_first() =~= Seq::empty());
        assert(Seq::<u32>::empty() + possible[0]@ =~= possible[0]@ + Seq::<u32>::empty());
    } else {
        lemma_candidates_front(possible.drop_last());
        assert(possible.drop_last().drop_first() =~= possible.drop_first().drop_last());
        let middle = candidates(possible.drop_first().drop_last());
        assert((possible[0]@ + middle) + possible.last()@ =~= possible[0]@ + (middle
            + possible.last()@));
    }
}

/// How the connectors of a device are driven, and what is left over.
#[derive(Debug)]
pub struct DisplayConfiguration {
    /// The CRTC of each connected connector, if one was left for it.
    pub map: CrtcMap,
    /// The CRTCs to switch off.
    pub cleanup: Vec<u32>,
}

/// Lays out the connectors of a device. To reduce flickering an established
/// mapping is kept; the remaining connected connectors, as `connectors` lists
/// them, are matched with the CRTCs that are still free. CRTCs of connectors
/// that are gone are to be switched off.
pub fn display_configuration(
    probed: &Vec<ProbedConnector>,
    connectors: &Vec<ConnectorEncoders>,
) -> (configuration: DisplayConfiguration)
    ensures
        configuration.map@ == matched(connectors@, established(probed@)),
        configuration.cleanup@ == abandoned(probed@),
{
    let mut map: CrtcMap = CrtcMap::new();
    let mut cleanup: Vec<u32> = Vec::new();
    assert(probed@.take(0) =~= Seq::empty());
    for i in 0..probed.len()
        invariant
            map@ == established(probed@.take(i as int)),
            cleanup@ == abandoned(probed@.take(i as int)),
    {
        let conn: ProbedConnector = probed[i];
        proof {
            assert(probed@.take(i + 1).drop_last() =~= probed@.take(i as int));
            assert(probed@.take(i + 1).last() == conn);
        }
        if let Some(crtc) = conn.crtc {
            if conn.connected {
                map.insert(conn.handle, Some(crtc));
            } else {
                cleanup.push(crtc);
            }
        }
    }
    assert(probed@.take(probed@.len() as int) =~= probed@);

    let ghost known = map@;
    let mut remaining: Vec<bool> = Vec::new();
    for i in 0..connectors.len()
        invariant
            map@ == known,
            remaining.len() == i,
            forall|j: int|
                0 <= j < i ==> remaining[j] == (connectors[j].connected && !known.dom().contains(
                    (#[trigger] connectors[j]).handle,
                )),
    {
        remaining.push(connectors[i].connected && map.get(connectors[i].handle).is_none());
    }
    assert(connectors@.take(0) =~= Seq::empty());
    for i in 0..connectors.len()
        invariant
            map@ == matched(connectors@.take(i as int), known),
            remaining.len() == connectors.len(),
            forall|j: int|
                0 <= j < remaining.len() ==> remaining[j] == (connectors[j].connected
                    && !known.dom().contains((#[trigger] connectors[j]).handle)),
    {
        proof {
            assert(connectors@.take(i + 1).drop_last() =~= connectors@.take(i as int));
            assert(connectors@.take(i + 1).last() == connectors@[i as int]);
        }
        if remaining[i] {
            let handle: u32 = connectors[i].handle;
            match find_free_crtc(&connectors[i].possible_crtcs, &map) {
                Some(crtc) => {
                    map.insert(handle, Some(crtc));
                },
                None => {
                    if map.get(handle).is_none() {
                        map.insert(handle, None);
                    }
                },
            }
        }
    }
    assert(connectors@.take(connectors@.len() as int) =~= connectors@);
    DisplayConfiguration { map, cleanup }
}

/// An established mapping is kept, and matching the remaining connectors never
/// gives a CRTC to two of them.
pub proof fn lemma_matching(connectors: Seq<ConnectorEncoders>, known: Map<u32, Option<u32>>)
    ensures
        forall|handle: u32| #[trigger]
            known.dom().contains(handle) ==> matched(connectors, known).dom().contains(handle)
                && matched(connectors, known)[handle] == known[handle],
        no_shared_crtc(known) ==> no_shared_crtc(matched(connectors, known)),
    decreases connectors.len(),
{
    if connectors.len() > 0 {
        lemma_matching(connectors.drop_last(), known);
        let rest = matched(connectors.drop_last(), known);
        lemma_first_free(connectors.last().crtcs(), rest);
    }
}

/// Every connected connector gets an entry, and one without a CRTC is left out
/// only because all CRTCs that could drive it are in use.
pub proof fn lemma_unmatched_means_none_left(
    connectors: Seq<ConnectorEncoders>,
    known: Map<u32, Option<u32>>,
    i: int,
)
    requires
        0 <= i < connectors.len(),
        connectors[i].connected,
        forall|j: int, k: int|
            0 <= j < k < connectors.len() ==> connectors[j].handle != connectors[k].handle,
    ensures
        matched(connectors, known).dom().contains(connectors[i].handle),
        !known.dom().contains(connectors[i].handle) && matched(
            connectors,
            known,
        )[connectors[i].handle] is None ==> forall|c: int|
            0 <= c < connectors[i].crtcs().len() ==> drives(
                matched(connectors, known),
                #[trigger] connectors[i].crtcs()[c],
            ),
    decreases connectors.len(),
{
    let rest_list = connectors.drop_last();
    let rest = matched(rest_list, known);
    let all = matched(connectors, known);
    let conn = connectors.last();
    lemma_first_free(conn.crtcs(), rest);
    lemma_only_listed_are_added(rest_list, known);
    assert forall|crtc: u32| drives(rest, crtc) implies drives(all, crtc) by {
        let handle = choose|handle: u32| #[trigger]
            rest.dom().contains(handle) && rest[handle] == Some(crtc);
        if conn.connected && !known.dom().contains(conn.handle) {
            if rest.dom().contains(conn.handle) {
                let j = choose|j: int|
                    0 <= j < rest_list.len() && (#[trigger] rest_list[j]).handle == conn.handle;
                assert(connectors[j].handle == connectors[connectors.len() - 1].handle);
            }
            assert(handle != conn.handle);
        }
        assert(all.dom().contains(handle) && all[handle] == Some(crtc));
    }
    if i < connectors.len() - 1 {
        assert(rest_list[i] == connectors[i]);
        lemma_unmatched_means_none_left(rest_list, known, i);
        assert(connectors[i].handle != conn.handle);
    } else {
        lemma_matching(connectors, known);
    }
}

proof fn lemma_only_listed_are_added(
    connectors: Seq<ConnectorEncoders>,
    known: Map<u32, Option<u32>>,
)
    ensures
        forall|handle: u32| #[trigger]
            matched(connectors, known).dom().contains(handle) && !known.dom().contains(handle)
                ==> exists|j: int|
                0 <= j < connectors.len() && (#[trigger] connectors[j]).handle == handle,
    decreases connectors.len(),
{
    if connectors.len() > 0 {
        let rest_list = connectors.drop_last();
        lemma_only_listed_are_added(rest_list, known);
        assert forall|handle: u32| #[trigger]
            matched(connectors, known).dom().contains(handle) && !known.dom().contains(
                handle,
            ) implies exists|j: int|
            0 <= j < connectors.len() && (#[trigger] connectors[j]).handle == handle by {
            if matched(rest_list, known).dom().contains(handle) {
                let j = choose|j: int|
                    0 <= j < rest_list.len() && (#[trigger] rest_list[j]).handle == handle;
                assert(connectors[j].handle == handle);
            } else {
                assert(connectors[connectors.len() - 1].handle == handle);
            }
        }
    }
}

/// A plane: the CRTC it is shown on, and whether it is a primary plane.
#[derive(Debug, Clone, Copy, PartialEq, Eq, Structural)]
pub struct PlaneState {
    pub handle: u32,
    pub crtc: Option<u32>,
    pub primary: bool,
}

/// The properties that a reset touches.
#[derive(Debug, Clone, Copy, PartialEq, Eq, Structural)]
pub enum ResetProperty {
    CrtcId,
    FbId,
    Active,
    ModeId,
}

/// The values that a reset writes.
#[derive(Debug, Clone, Copy, PartialEq, Eq, Structural)]
pub enum ResetValue {
    NoCrtc,
    NoFramebuffer,
    Boolean(bool),
    Unknown(u64),
}

/// One property of an atomic request.
#[derive(Debug, Clone, Copy, PartialEq, Eq, Structural)]
pub struct PropertyChange {
    pub object: u32,
    pub property: ResetProperty,
    pub value: ResetValue,
}

impl ResetProperty {
    /// The kernel's name of the property.
    pub fn name(self) -> (name: &'static str)
        ensures
            name@ == match self {
                ResetProperty::CrtcId => "CRTC_ID"@,
                ResetProperty::FbId => "FB_ID"@,
                ResetProperty::Active => "ACTIVE"@,
                ResetProperty::ModeId => "MODE_ID"@,
            },
    {
        match self {
            ResetProperty::CrtcId => "CRTC_ID",
            ResetProperty::FbId => "FB_ID",
            ResetProperty::Active => "ACTIVE",
            ResetProperty::ModeId => "MODE_ID",
        }
    }
}

/// Takes an object off its CRTC.
pub open spec fn no_crtc(object: u32) -> PropertyChange {
    PropertyChange { object, property: ResetProperty::CrtcId, value: ResetValue::NoCrtc }
}

/// Takes the framebuffer off a plane.
pub open spec fn no_framebuffer(object: u32) -> PropertyChange {
    PropertyChange { object, property: ResetProperty::FbId, value: ResetValue::NoFramebuffer }
}

/// Whether an overlay or cursor plane was left on a CRTC that stays in use.
pub open spec fn is_leftover(plane: PlaneState, cleanup: Seq<u32>) -> bool {
    plane.crtc matches Some(crtc) && !plane.primary && !cleanup.contains(crtc)
}

/// Whether a plane is shown on one of `crtcs`.
pub open spec fn shown_on(plane: PlaneState, crtcs: Seq<u32>) -> bool {
    plane.crtc matches Some(crtc) && crtcs.contains(crtc)
}

/// The changes that detach the planes which `chosen` picks, plane by plane.
pub open spec fn plane_resets(
    planes: Seq<PlaneState>,
    chosen: spec_fn(PlaneState) -> bool,
) -> Seq<PropertyChange>
    decreases planes.len(),
{
    if planes.len() == 0 {
        Seq::empty()
    } else {
        let rest = plane_resets(planes.drop_last(), chosen);
        let plane = planes.last();
        if chosen(plane) {
            rest.push(no_crtc(plane.handle)).push(no_framebuffer(plane.handle))
        } else {
            rest
        }
    }
}

/// The changes that detach the connectors on `crtcs`.
pub open spec fn connector_resets(
    connectors: Seq<ProbedConnector>,
    crtcs: Seq<u32>,
) -> Seq<PropertyChange>
    decreases connectors.len(),
{
    if connectors.len() == 0 {
        Seq::empty()
    } else {
        let rest = connector_resets(connectors.drop_last(), crtcs);
        match connectors.last().crtc {
            Some(crtc) if crtcs.contains(crtc) => rest.push(no_crtc(connectors.last().handle)),
            _ => rest,
        }
    }
}

/// The changes that switch `crtcs` off.
pub open spec fn crtc_resets(crtcs: Seq<u32>) -> Seq<PropertyChange>
    decreases crtcs.len(),
{
    if crtcs.len() == 0 {
        Seq::empty()
    } else {
        crtc_resets(crtcs.drop_last()).push(
            PropertyChange {
                object: crtcs.last(),
                property: ResetProperty::Active,
                value: ResetValue::Boolean(false),
            },
        ).push(
            PropertyChange {
                object: crtcs.last(),
                property: ResetProperty::ModeId,
                value: ResetValue::Unknown(0),
            },
        )
    }
}

fn contains_crtc(crtcs: &Vec<u32>, crtc: u32) -> (found: bool)
    ensures
        found == crtcs@.contains(crtc),
{
    for i in 0..crtcs.len()
        invariant
            forall|j: int| 0 <= j < i ==> crtcs[j] != crtc,
    {
        if crtcs[i] == crtc {
            return true;
        }
    }
    false
}

fn push_plane_reset(changes: &mut Vec<PropertyChange>, handle: u32)
    ensures
        final(changes)@ == old(changes)@.push(no_crtc(handle)).push(no_framebuffer(handle)),
{
    changes.push(
        PropertyChange {
            object: handle,
            property: ResetProperty::CrtcId,
            value: ResetValue::NoCrtc,
        },
    );
    changes.push(
        PropertyChange {
            object: handle,
            property: ResetProperty::FbId,
            value: ResetValue::NoFramebuffer,
        },
    );
}

/// The changes that detach the overlay and cursor planes which were left on
/// CRTCs that are not to be switched off. An empty list needs no commit: that
/// would be a modeset without effect, which fails without DRM master.
pub fn cleanup_planes(planes: &Vec<PlaneState>, cleanup: &Vec<u32>) -> (changes: Vec<
    PropertyChange,
>)
    ensures
        changes@ == plane_resets(planes@, |plane: PlaneState| is_leftover(plane, cleanup@)),
{
    let ghost chosen = |plane: PlaneState| is_leftover(plane, cleanup@);
    let mut changes: Vec<PropertyChange> = Vec::new();
    assert(planes@.take(0) =~= Seq::empty());
    for i in 0..planes.len()
        invariant
            chosen == (|plane: PlaneState| is_leftover(plane, cleanup@)),
            changes@ == plane_resets(planes@.take(i as int), chosen),
    {
        let plane: PlaneState = planes[i];
        proof {
            assert(planes@.take(i + 1).drop_last() =~= planes@.take(i as int));
            assert(planes@.take(i + 1).last() == plane);
        }
        if let Some(crtc) = plane.crtc {
            if !plane.primary && !contains_crtc(cleanup, crtc) {
                push_plane_reset(&mut changes, plane.handle);
            }
        }
    }
    assert(planes@.take(planes@.len() as int) =~= planes@);
    changes
}

/// How CRTCs are switched off.
#[derive(Debug)]
pub enum CrtcShutdown {
    /// There is nothing to do.
    Nothing,
    /// One atomic modeset with these changes.
    Atomic(Vec<PropertyChange>),
    /// A null commit for each of these CRTCs.
    Legacy(Vec<u32>),
}

/// Disables the given CRTCs and detaches their connectors and planes.
pub fn disable_crtcs(
    crtcs: &Vec<u32>,
    atomic: bool,
    connectors: &Vec<ProbedConnector>,
    planes: &Vec<PlaneState>,
) -> (shutdown: CrtcShutdown)
    ensures
        crtcs@.len() == 0 ==> shutdown is Nothing,
        crtcs@.len() > 0 && !atomic ==> (shutdown matches CrtcShutdown::Legacy(handles) && handles@
            == crtcs@),
        crtcs@.len() > 0 && atomic ==> (shutdown matches CrtcShutdown::Atomic(changes) && changes@
            == connector_resets(connectors@, crtcs@) + plane_resets(
            planes@,
            |plane: PlaneState| shown_on(plane, crtcs@),
        ) + crtc_resets(crtcs@)),
{
    if crtcs.is_empty() {
        return CrtcShutdown::Nothing;
    }
    if !atomic {
        let mut handles: Vec<u32> = Vec::new();
        for i in 0..crtcs.len()
            invariant
                handles@ == crtcs@.take(i as int),
        {
            handles.push(crtcs[i]);
            assert(crtcs@.take(i + 1) == crtcs@.take(i as int).push(crtcs@[i as int]));
        }
        assert(crtcs@.take(crtcs@.len() as int) == crtcs@);
        return CrtcShutdown::Legacy(handles);
    }
    let mut changes: Vec<PropertyChange> = Vec::new();
    assert(connectors@.take(0) =~= Seq::empty());
    for i in 0..connectors.len()
        invariant
            changes@ == connector_resets(connectors@.take(i as int), crtcs@),
    {
        proof {
            assert(connectors@.take(i + 1).drop_last() =~= connectors@.take(i as int));
            assert(connectors@.take(i + 1).last() == connectors@[i as int]);
        }
        if let Some(crtc) = connectors[i].crtc {
            if contains_crtc(crtcs, crtc) {
                changes.push(
                    PropertyChange {
                        object: connectors[i].handle,
                        property: ResetProperty::CrtcId,
                        value: ResetValue::NoCrtc,
                    },
                );
            }
        }
    }
    assert(connectors@.take(connectors@.len() as int) =~= connectors@);

    let ghost first = changes@;
    let ghost chosen = |plane: PlaneState| shown_on(plane, crtcs@);
    assert(planes@.take(0) =~= Seq::empty());
    assert(changes@ =~= first + plane_resets(planes@.take(0), chosen));
    for i in 0..planes.len()
        invariant
            chosen == (|plane: PlaneState| shown_on(plane, crtcs@)),
            changes@ == first + plane_resets(planes@.take(i as int), chosen),
    {
        proof {
            assert(planes@.take(i + 1).drop_last() =~= planes@.take(i as int));
            assert(planes@.take(i + 1).last() == planes@[i as int]);
        }
        if let Some(crtc) = planes[i].crtc {
            if contains_crtc(crtcs, crtc) {
                push_plane_reset(&mut changes, planes[i].handle);
            }
        }
        assert(changes@ =~= first + plane_resets(planes@.take(i + 1), chosen));
    }
    assert(planes@.take(planes@.len() as int) =~= planes@);

    let ghost second = changes@;
    assert(crtcs@.take(0) =~= Seq::empty());
    assert(changes@ =~= second + crtc_resets(crtcs@.take(0)));
    for i in 0..crtcs.len()
        invariant
            changes@ == second + crtc_resets(crtcs@.take(i as int)),
    {
        proof {
            assert(crtcs@.take(i + 1).drop_last() =~= crtcs@.take(i as int));
            assert(crtcs@.take(i + 1).last() == crtcs@[i as int]);
        }
        changes.push(
            PropertyChange {
                object: crtcs[i],
                property: ResetProperty::Active,
                value: ResetValue::Boolean(false),
            },
        );
        changes.push(
            PropertyChange {
                object: crtcs[i],
                property: ResetProperty::ModeId,
                value: ResetValue::Unknown(0),
            },
        );
        assert(changes@ =~= second + crtc_resets(crtcs@.take(i + 1)));
    }
    assert(crtcs@.take(crtcs@.len() as int) =~= crtcs@);
    CrtcShutdown::Atomic(changes)
}

/// Every overlay or cursor plane that is in use is detached exactly once, with the
/// leftovers or with its CRTC; a primary plane only with its CRTC.
pub proof fn lemma_planes_are_detached_once(plane: PlaneState, cleanup: Seq<u32>)
    requires
        plane.crtc is Some,
    ensures
        !plane.primary ==> (is_leftover(plane, cleanup) <==> !shown_on(plane, cleanup)),
        plane.primary ==> !is_leftover(plane, cleanup),
{
}

proof fn lemma_established(probed: Seq<ProbedConnector>)
    ensures
        forall|handle: u32| #[trigger]
            established(probed).dom().contains(handle) ==> exists|i: int|
                #![trigger probed[i]]
                0 <= i < probed.len() && probed[i].handle == handle && probed[i].connected
                    && probed[i].crtc is Some && probed[i].crtc == established(probed)[handle],
        forall|i: int|
            #![trigger probed[i]]
            0 <= i < probed.len() && probed[i].connected && probed[i].crtc is Some ==> established(
                probed,
            ).dom().contains(probed[i].handle),
    decreases probed.len(),
{
    if probed.len() > 0 {
        let rest = probed.drop_last();
        lemma_established(rest);
        assert forall|handle: u32| #[trigger]
            established(probed).dom().contains(handle) implies exists|i: int|
            #![trigger probed[i]]
            0 <= i < probed.len() && probed[i].handle == handle && probed[i].connected
                && probed[i].crtc is Some && probed[i].crtc == established(probed)[handle] by {
            let last = probed.last();
            if last.connected && last.crtc is Some && last.handle == handle {
                assert(probed[probed.len() - 1] == last);
            } else {
                let i = choose|i: int|
                    #![trigger rest[i]]
                    0 <= i < rest.len() && rest[i].handle == handle && rest[i].connected
                        && rest[i].crtc is Some && rest[i].crtc == established(rest)[handle];
                assert(probed[i] == rest[i]);
            }
        }
        assert forall|i: int|
            #![trigger probed[i]]
            0 <= i < probed.len() && probed[i].connected
                && probed[i].crtc is Some implies established(probed).dom().contains(
            probed[i].handle,
        ) by {
            if i < rest.len() {
                assert(rest[i] == probed[i]);
            }
        }
    }
}

/// An established mapping is kept: every connector that was found connected to a
/// CRTC stays on that very CRTC.
pub proof fn lemma_established_crtc_is_kept(
    probed: &Vec<ProbedConnector>,
    connectors: &Vec<ConnectorEncoders>,
    configuration: DisplayConfiguration,
    i: int,
)
    requires
        call_ensures(display_configuration, (probed, connectors), configuration),
        forall|j: int, k: int|
            0 <= j < k < probed.len() ==> (#[trigger] probed[j]).handle != (
            #[trigger] probed[k]).handle,
        0 <= i < probed.len(),
        probed[i].connected,
        probed[i].crtc is Some,
    ensures
        configuration.map@.dom().contains(probed[i].handle),
        configuration.map@[probed[i].handle] == probed[i].crtc,
{
    lemma_established(probed@);
    lemma_matching(connectors@, established(probed@));
    let handle = probed[i].handle;
    assert(probed@[i] == probed[i]);
    assert(established(probed@).dom().contains(handle));
    let j = choose|j: int|
        #![trigger probed@[j]]
        0 <= j < probed@.len() && probed@[j].handle == handle && probed@[j].connected
            && probed@[j].crtc is Some && probed@[j].crtc == established(probed@)[handle];
    assert(probed[j] == probed@[j]);
    if j < i {
        assert(probed[j].handle != probed[i].handle);
    } else if i < j {
        assert(probed[i].handle != probed[j].handle);
    }
}

/// If no two connected connectors were found on one CRTC, no two connectors are laid
/// out on one CRTC.
pub proof fn lemma_no_crtc_drives_two_connectors(
    probed: &Vec<ProbedConnector>,
    connectors: &Vec<ConnectorEncoders>,
    configuration: DisplayConfiguration,
    a: u32,
    b: u32,
)
    requires
        call_ensures(display_configuration, (probed, connectors), configuration),
        forall|j: int, k: int|
            0 <= j < k < probed.len() && (#[trigger] probed[j]).connected && (
            #[trigger] probed[k]).connected && probed[j].crtc is Some ==> probed[j].crtc
                != probed[k].crtc,
        configuration.map@.dom().contains(a),
        configuration.map@.dom().contains(b),
        configuration.map@[a] is Some,
        configuration.map@[a] == configuration.map@[b],
    ensures
        a == b,
{
    let known = established(probed@);
    lemma_established(probed@);
    assert(no_shared_crtc(known)) by {
        assert forall|x: u32, y: u32|
            #![trigger known.dom().contains(x), known.dom().contains(y)]
            known.dom().contains(x) && known.dom().contains(y) && known[x] is Some && known[x]
                == known[y] implies x == y by {
            let i = choose|i: int|
                #![trigger probed@[i]]
                0 <= i < probed@.len() && probed@[i].handle == x && probed@[i].connected
                    && probed@[i].crtc is Some && probed@[i].crtc == known[x];
            let j = choose|j: int|
                #![trigger probed@[j]]
                0 <= j < probed@.len() && probed@[j].handle == y && probed@[j].connected
                    && probed@[j].crtc is Some && probed@[j].crtc == known[y];
            assert(probed[i] == probed@[i] && probed[j] == probed@[j]);
        }
    }
    lemma_matching(connectors@, known);
}

proof fn lemma_abandoned(probed: Seq<ProbedConnector>, crtc: u32)
    ensures
        abandoned(probed).contains(crtc) <==> exists|i: int|
            #![trigger probed[i]]
            0 <= i < probed.len() && !probed[i].connected && probed[i].crtc == Some(crtc),
    decreases probed.len(),
{
    if probed.len() > 0 {
        let rest = probed.drop_last();
        let last = probed.last();
        lemma_abandoned(rest, crtc);
        if abandoned(rest).contains(crtc) {
            let i = choose|i: int|
                #![trigger rest[i]]
                0 <= i < rest.len() && !rest[i].connected && rest[i].crtc == Some(crtc);
            assert(probed[i] == rest[i]);
            let k = choose|k: int| 0 <= k < abandoned(rest).len() && abandoned(rest)[k] == crtc;
            assert(abandoned(probed)[k] == crtc);
        }
        if !last.connected && last.crtc == Some(crtc) {
            assert(abandoned(probed)[abandoned(rest).len() as int] == crtc);
            assert(probed[probed.len() - 1] == last);
        }
        if abandoned(probed).contains(crtc) && !abandoned(rest).contains(crtc) {
            let k = choose|k: int|
                0 <= k < abandoned(probed).len() && abandoned(probed)[k] == crtc;
            if k < abandoned(rest).len() {
                assert(abandoned(rest)[k] == crtc);
            }
        }
        if exists|i: int|
            #![trigger probed[i]]
            0 <= i < probed.len() && !probed[i].connected && probed[i].crtc == Some(crtc) {
            let i = choose|i: int|
                #![trigger probed[i]]
                0 <= i < probed.len() && !probed[i].connected && probed[i].crtc == Some(crtc);
            if i < rest.len() {
                assert(rest[i] == probed[i]);
            }
        }
    }
}

/// The CRTCs that are switched off are exactly those of connectors that are no longer
/// connected.
pub proof fn lemma_abandoned_crtcs_are_switched_off(
    probed: &Vec<ProbedConnector>,
    connectors: &Vec<ConnectorEncoders>,
    configuration: DisplayConfiguration,
    crtc: u32,
)
    requires
        call_ensures(display_configuration, (probed, connectors), configuration),
    ensures
        configuration.cleanup@.contains(crtc) <==> exists|i: int|
            #![trigger probed@[i]]
            0 <= i < probed.len() && !probed@[i].connected && probed@[i].crtc == Some(crtc),
{
    lemma_abandoned(probed@, crtc);
}

proof fn lemma_first_free_at(crtcs: Seq<u32>, map: Map<u32, Option<u32>>)
    ensures
        first_free(crtcs, map) matches Some(crtc) ==> exists|p: int|
            #![trigger crtcs[p]]
            0 <= p < crtcs.len() && crtcs[p] == crtc && forall|q: int|
                0 <= q < p ==> drives(map, #[trigger] crtcs[q]),
    decreases crtcs.len(),
{
    if crtcs.len() > 0 {
        if drives(map, crtcs[0]) {
            let rest = crtcs.drop_first();
            lemma_first_free_at(rest, map);
            if let Some(crtc) = first_free(rest, map) {
                let p = choose|p: int|
                    #![trigger rest[p]]
                    0 <= p < rest.len() && rest[p] == crtc && forall|q: int|
                        0 <= q < p ==> drives(map, #[trigger] rest[q]);
                assert(crtcs[p + 1] == crtc);
                assert forall|q: int| 0 <= q < p + 1 implies drives(map, #[trigger] crtcs[q]) by {
                    if q > 0 {
                        assert(rest[q - 1] == crtcs[q]);
                    }
                }
            }
        } else {
            assert(crtcs[0] == crtcs[0]);
        }
    }
}

/// The choice of a free CRTC, encoder by encoder: `crtc` stands at place `p` of
/// encoder `e`, and everything before that place is in use.
pub open spec fn is_first_free_at(
    possible: Seq<Vec<u32>>,
    map: Map<u32, Option<u32>>,
    crtc: u32,
    e: int,
    p: int,
) -> bool {
    &&& 0 <= e < possible.len()
    &&& 0 <= p < possible[e]@.len()
    &&& possible[e]@[p] == crtc
    &&& forall|d: int, q: int|
        #![trigger possible[d]@[q]]
        0 <= d < possible.len() && 0 <= q < possible[d]@.len() && (d < e || (d == e && q < p))
            ==> drives(map, possible[d]@[q])
}

proof fn lemma_free_among(possible: Seq<Vec<u32>>, map: Map<u32, Option<u32>>)
    ensures
        first_free(candidates(possible), map) matches Some(crtc) ==> exists|e: int, p: int|
            is_first_free_at(possible, map, crtc, e, p),
        first_free(candidates(possible), map) is None ==> forall|d: int, q: int|
            #![trigger possible[d]@[q]]
            0 <= d < possible.len() && 0 <= q < possible[d]@.len() ==> drives(map, possible[d]@[q]),
    decreases possible.len(),
{
    if possible.len() > 0 {
        let rest = possible.drop_last();
        let last = possible.len() - 1;
        lemma_free_among(rest, map);
        lemma_first_free_split(candidates(rest), possible.last()@, map);
        lemma_first_free(possible.last()@, map);
        lemma_first_free_at(possible.last()@, map);
        if let Some(crtc) = first_free(candidates(rest), map) {
            let (e, p) = choose|e: int, p: int| is_first_free_at(rest, map, crtc, e, p);
            assert forall|d: int, q: int|
                #![trigger possible[d]@[q]]
                0 <= d < possible.len() && 0 <= q < possible[d]@.len() && (d < e || (d == e && q
                    < p)) implies drives(map, possible[d]@[q]) by {
                assert(rest[d]@[q] == possible[d]@[q]);
            }
            assert(rest[e] == possible[e]);
            assert(is_first_free_at(possible, map, crtc, e, p));
        } else if let Some(crtc) = first_free(possible.last()@, map) {
            let p = choose|p: int|
                #![trigger possible.last()@[p]]
                0 <= p < possible.last()@.len() && possible.last()@[p] == crtc && forall|q: int|
                    0 <= q < p ==> drives(map, #[trigger] possible.last()@[q]);
            assert forall|d: int, q: int|
                #![trigger possible[d]@[q]]
                0 <= d < possible.len() && 0 <= q < possible[d]@.len() && (d < last || (d == last
                    && q < p)) implies drives(map, possible[d]@[q]) by {
                if d < last {
                    assert(rest[d]@[q] == possible[d]@[q]);
                } else {
                    assert(possible.last()@[q] == possible[d]@[q]);
                }
            }
            assert(is_first_free_at(possible, map, crtc, last, p));
        } else {
            assert forall|d: int, q: int|
                #![trigger possible[d]@[q]]
                0 <= d < possible.len() && 0 <= q < possible[d]@.len() implies drives(
                map,
                possible[d]@[q],
            ) by {
                if d < last {
                    assert(rest[d]@[q] == possible[d]@[q]);
                } else {
                    assert(possible.last()@[q] == possible[d]@[q]);
                }
            }
        }
    }
}

proof fn lemma_matched_connector(
    connectors: Seq<ConnectorEncoders>,
    known: Map<u32, Option<u32>>,
    i: int,
)
    requires
        0 <= i < connectors.len(),
        connectors[i].connected,
        !known.dom().contains(connectors[i].handle),
        forall|j: int, k: int|
            0 <= j < k < connectors.len() ==> (#[trigger] connectors[j]).handle != (
            #[trigger] connectors[k]).handle,
    ensures
        ({
            let all = matched(connectors, known);
            let possible = connectors[i].possible_crtcs@;
            &&& all.dom().contains(connectors[i].handle)
            &&& all[connectors[i].handle] matches Some(crtc) ==> exists|e: int, p: int|
                is_first_free_at(possible, all, crtc, e, p)
            &&& all[connectors[i].handle] is None ==> forall|d: int, q: int|
                #![trigger possible[d]@[q]]
                0 <= d < possible.len() && 0 <= q < possible[d]@.len() ==> drives(
                    all,
                    possible[d]@[q],
                )
        }),
    decreases connectors.len(),
{
    let rest_list = connectors.drop_last();
    let rest = matched(rest_list, known);
    let all = matched(connectors, known);
    let conn = connectors.last();
    let possible = connectors[i].possible_crtcs@;
    lemma_only_listed_are_added(rest_list, known);
    assert(connectors[connectors.len() - 1] == conn);
    assert forall|crtc: u32| drives(rest, crtc) implies drives(all, crtc) by {
        let handle = choose|handle: u32| #[trigger]
            rest.dom().contains(handle) && rest[handle] == Some(crtc);
        if conn.connected && !known.dom().contains(conn.handle) {
            if rest.dom().contains(conn.handle) {
                let j = choose|j: int|
                    0 <= j < rest_list.len() && (#[trigger] rest_list[j]).handle == conn.handle;
                assert(connectors[j].handle == connectors[connectors.len() - 1].handle);
            }
            assert(handle != conn.handle);
        }
        assert(all.dom().contains(handle) && all[handle] == Some(crtc));
    }
    if i < connectors.len() - 1 {
        assert(rest_list[i] == connectors[i]);
        assert(connectors[i].handle != conn.handle);
        assert forall|j: int, k: int| 0 <= j < k < rest_list.len() implies (
        #[trigger] rest_list[j]).handle != (#[trigger] rest_list[k]).handle by {
            assert(connectors[j].handle != connectors[k].handle);
        }
        lemma_matched_connector(rest_list, known, i);
        if let Some(crtc) = all[connectors[i].handle] {
            let (e, p) = choose|e: int, p: int| is_first_free_at(possible, rest, crtc, e, p);
            assert(is_first_free_at(possible, all, crtc, e, p));
        }
    } else {
        lemma_free_among(possible, rest);
        if rest.dom().contains(conn.handle) {
            let j = choose|j: int|
                0 <= j < rest_list.len() && (#[trigger] rest_list[j]).handle == conn.handle;
            assert(connectors[j].handle == connectors[connectors.len() - 1].handle);
        }
        if let Some(crtc) = all[conn.handle] {
            let (e, p) = choose|e: int, p: int| is_first_free_at(possible, rest, crtc, e, p);
            assert(is_first_free_at(possible, all, crtc, e, p));
        }
    }
}

/// A connected connector without an established CRTC gets the first CRTC of its
/// encoders that is not taken: it is one of theirs, everything that they prefer to it
/// is in use, and where it gets none, all of theirs are in use.
pub proof fn lemma_new_connector_gets_the_first_free_crtc(
    probed: &Vec<ProbedConnector>,
    connectors: &Vec<ConnectorEncoders>,
    configuration: DisplayConfiguration,
    i: int,
)
    requires
        call_ensures(display_configuration, (probed, connectors), configuration),
        0 <= i < connectors.len(),
        connectors[i].connected,
        forall|j: int, k: int|
            0 <= j < k < connectors.len() ==> (#[trigger] connectors@[j]).handle != (
            #[trigger] connectors@[k]).handle,
        forall|j: int|
            #![trigger probed@[j]]
            0 <= j < probed.len() && probed@[j].handle == connectors[i].handle
                ==> !probed@[j].connected || probed@[j].crtc is None,
    ensures
        configuration.map@.dom().contains(connectors[i].handle),
        ({
            let map = configuration.map@;
            let possible = connectors[i].possible_crtcs@;
            let in_use = |crtc: u32|
                exists|handle: u32| #[trigger]
                    map.dom().contains(handle) && map[handle] == Some(crtc);
            &&& map[connectors[i].handle] matches Some(crtc) ==> exists|e: int, p: int|
                #![trigger possible[e]@[p]]
                0 <= e < possible.len() && 0 <= p < possible[e]@.len() && possible[e]@[p] == crtc
                    && forall|d: int, q: int|
                    #![trigger possible[d]@[q]]
                    0 <= d < possible.len() && 0 <= q < possible[d]@.len() && (d < e || (d == e && q
                        < p)) ==> in_use(possible[d]@[q])
            &&& map[connectors[i].handle] is None ==> forall|d: int, q: int|
                #![trigger possible[d]@[q]]
                0 <= d < possible.len() && 0 <= q < possible[d]@.len() ==> in_use(possible[d]@[q])
        }),
{
    let known = established(probed@);
    lemma_established(probed@);
    if known.dom().contains(connectors[i].handle) {
        let j = choose|j: int|
            #![trigger probed@[j]]
            0 <= j < probed@.len() && probed@[j].handle == connectors[i].handle
                && probed@[j].connected && probed@[j].crtc is Some && probed@[j].crtc
                == known[connectors[i].handle];
        assert(false);
    }
    lemma_matched_connector(connectors@, known, i);
    let map = configuration.map@;
    let possible = connectors[i].possible_crtcs@;
    if let Some(crtc) = map[connectors[i].handle] {
        let (e, p) = choose|e: int, p: int| is_first_free_at(possible, map, crtc, e, p);
        assert(possible[e]@[p] == crtc);
    }
}

/// Nothing is laid out but connectors that are connected.
pub proof fn lemma_only_connected_are_laid_out(
    probed: &Vec<ProbedConnector>,
    connectors: &Vec<ConnectorEncoders>,
    configuration: DisplayConfiguration,
    handle: u32,
)
    requires
        call_ensures(display_configuration, (probed, connectors), configuration),
        configuration.map@.dom().contains(handle),
    ensures
        (exists|i: int|
            #![trigger probed@[i]]
            0 <= i < probed.len() && probed@[i].handle == handle && probed@[i].connected) || (
        exists|i: int|
            #![trigger connectors@[i]]
            0 <= i < connectors.len() && connectors@[i].handle == handle
                && connectors@[i].connected),
{
    lemma_established(probed@);
    if !established(probed@).dom().contains(handle) {
        lemma_only_connected_are_added(connectors@, established(probed@), handle);
    } else {
        let i = choose|i: int|
            #![trigger probed@[i]]
            0 <= i < probed@.len() && probed@[i].handle == handle && probed@[i].connected
                && probed@[i].crtc is Some && probed@[i].crtc == established(probed@)[handle];
        assert(probed@[i].connected);
    }
}

proof fn lemma_only_connected_are_added(
    connectors: Seq<ConnectorEncoders>,
    known: Map<u32, Option<u32>>,
    handle: u32,
)
    requires
        matched(connectors, known).dom().contains(handle),
        !known.dom().contains(handle),
    ensures
        exists|i: int|
            #![trigger connectors[i]]
            0 <= i < connectors.len() && connectors[i].handle == handle && connectors[i].connected,
    decreases connectors.len(),
{
    if connectors.len() > 0 {
        let rest = connectors.drop_last();
        if matched(rest, known).dom().contains(handle) {
            lemma_only_connected_are_added(rest, known, handle);
            let i = choose|i: int|
                #![trigger rest[i]]
                0 <= i < rest.len() && rest[i].handle == handle && rest[i].connected;
            assert(connectors[i] == rest[i]);
        } else {
            assert(connectors[connectors.len() - 1].handle == handle);
        }
    }
}

proof fn lemma_pushed_twice(
    rest: Seq<PropertyChange>,
    first: PropertyChange,
    second: PropertyChange,
    change: PropertyChange,
)
    ensures
        rest.push(first).push(second).contains(change) <==> rest.contains(change) || change == first
            || change == second,
{
    let all = rest.push(first).push(second);
    if rest.contains(change) {
        let i = choose|i: int| 0 <= i < rest.len() && rest[i] == change;
        assert(all[i] == change);
    }
    assert(all[rest.len() as int] == first);
    assert(all[rest.len() as int + 1] == second);
}

proof fn lemma_plane_resets(
    planes: Seq<PlaneState>,
    chosen: spec_fn(PlaneState) -> bool,
    change: PropertyChange,
)
    ensures
        plane_resets(planes, chosen).contains(change) <==> exists|i: int|
            #![trigger planes[i]]
            0 <= i < planes.len() && chosen(planes[i]) && change.object == planes[i].handle && (
            change.property == ResetProperty::CrtcId && change.value == ResetValue::NoCrtc
                || change.property == ResetProperty::FbId && change.value
                == ResetValue::NoFramebuffer),
    decreases planes.len(),
{
    if planes.len() > 0 {
        let rest = planes.drop_last();
        let last = planes.last();
        lemma_plane_resets(rest, chosen, change);
        lemma_pushed_twice(
            plane_resets(rest, chosen),
            no_crtc(last.handle),
            no_framebuffer(last.handle),
            change,
        );
        assert(planes[planes.len() - 1] == last);
        assert(forall|i: int| 0 <= i < rest.len() ==> #[trigger] rest[i] == planes[i]);
        assert(forall|i: int|
            #![trigger planes[i]]
            0 <= i < rest.len() ==> rest[i] == planes[i]);
        if plane_resets(rest, chosen).contains(change) {
            let i = choose|i: int|
                #![trigger rest[i]]
                0 <= i < rest.len() && chosen(rest[i]) && change.object == rest[i].handle;
            assert(planes[i] == rest[i]);
        }
    }
}

/// An overlay or cursor plane is taken off its CRTC and its framebuffer off the plane
/// exactly where it was left on a CRTC that stays on; nothing else is changed.
pub proof fn lemma_leftover_planes_are_detached(
    planes: &Vec<PlaneState>,
    cleanup: &Vec<u32>,
    changes: Vec<PropertyChange>,
    change: PropertyChange,
)
    requires
        call_ensures(cleanup_planes, (planes, cleanup), changes),
    ensures
        changes@.contains(change) <==> exists|i: int|
            #![trigger planes@[i]]
            0 <= i < planes.len() && !planes@[i].primary && (planes@[i].crtc matches Some(crtc)
                && !cleanup@.contains(crtc)) && change.object == planes@[i].handle && (
            change.property == ResetProperty::CrtcId && change.value == ResetValue::NoCrtc
                || change.property == ResetProperty::FbId && change.value
                == ResetValue::NoFramebuffer),
{
    lemma_plane_resets(planes@, |plane: PlaneState| is_leftover(plane, cleanup@), change);
}

proof fn lemma_connector_resets(
    connectors: Seq<ProbedConnector>,
    crtcs: Seq<u32>,
    change: PropertyChange,
)
    ensures
        connector_resets(connectors, crtcs).contains(change) <==> exists|i: int|
            #![trigger connectors[i]]
            0 <= i < connectors.len() && (connectors[i].crtc matches Some(crtc) && crtcs.contains(
                crtc,
            )) && change == (PropertyChange {
                object: connectors[i].handle,
                property: ResetProperty::CrtcId,
                value: ResetValue::NoCrtc,
            }),
    decreases connectors.len(),
{
    if connectors.len() > 0 {
        let rest = connectors.drop_last();
        let before = connector_resets(rest, crtcs);
        let after = connector_resets(connectors, crtcs);
        lemma_connector_resets(rest, crtcs, change);
        assert(connectors[connectors.len() - 1] == connectors.last());
        assert(forall|i: int|
            #![trigger connectors[i]]
            0 <= i < rest.len() ==> rest[i] == connectors[i]);
        if before.contains(change) {
            let i = choose|i: int|
                #![trigger rest[i]]
                0 <= i < rest.len() && (rest[i].crtc matches Some(crtc) && crtcs.contains(crtc))
                    && change == (PropertyChange {
                    object: rest[i].handle,
                    property: ResetProperty::CrtcId,
                    value: ResetValue::NoCrtc,
                });
            assert(connectors[i] == rest[i]);
            let k = choose|k: int| 0 <= k < before.len() && before[k] == change;
            assert(after[k] == change);
        }
        if connectors.last().crtc matches Some(crtc) && crtcs.contains(crtc) {
            assert(after[before.len() as int] == no_crtc(connectors.last().handle));
        }
        if after.contains(change) && !before.contains(change) {
            let k = choose|k: int| 0 <= k < after.len() && after[k] == change;
            if k < before.len() {
                assert(before[k] == change);
            }
        }
    }
}

proof fn lemma_crtc_resets(crtcs: Seq<u32>, change: PropertyChange)
    ensures
        crtc_resets(crtcs).contains(change) <==> crtcs.contains(change.object) && (change.property
            == ResetProperty::Active && change.value == ResetValue::Boolean(false)
            || change.property == ResetProperty::ModeId && change.value == ResetValue::Unknown(0)),
    decreases crtcs.len(),
{
    if crtcs.len() > 0 {
        let rest = crtcs.drop_last();
        lemma_crtc_resets(rest, change);
        lemma_pushed_twice(
            crtc_resets(rest),
            PropertyChange {
                object: crtcs.last(),
                property: ResetProperty::Active,
                value: ResetValue::Boolean(false),
            },
            PropertyChange {
                object: crtcs.last(),
                property: ResetProperty::ModeId,
                value: ResetValue::Unknown(0),
            },
            change,
        );
        assert(crtcs[crtcs.len() - 1] == crtcs.last());
        if rest.contains(change.object) {
            let i = choose|i: int| 0 <= i < rest.len() && rest[i] == change.object;
            assert(crtcs[i] == change.object);
        }
        if crtcs.contains(change.object) {
            let i = choose|i: int| 0 <= i < crtcs.len() && crtcs[i] == change.object;
            if i < rest.len() {
                assert(rest[i] == change.object);
            }
        }
    }
}

/// Switching CRTCs off makes each of them inactive without a mode, takes every
/// connector and every plane that is on one of them off it, and changes nothing else;
/// without atomic modesetting each of them is cleared, and without CRTCs nothing is
/// done.
pub proof fn lemma_disabled_crtcs_drive_nothing(
    crtcs: &Vec<u32>,
    atomic: bool,
    connectors: &Vec<ProbedConnector>,
    planes: &Vec<PlaneState>,
    shutdown: CrtcShutdown,
    change: PropertyChange,
)
    requires
        call_ensures(disable_crtcs, (crtcs, atomic, connectors, planes), shutdown),
    ensures
        shutdown is Nothing <==> crtcs.len() == 0,
        shutdown is Legacy <==> crtcs.len() > 0 && !atomic,
        shutdown matches CrtcShutdown::Legacy(handles) ==> handles@ == crtcs@,
        shutdown matches CrtcShutdown::Atomic(changes) ==> {
            &&& crtcs@.contains(change.object) && change.property == ResetProperty::Active
                && change.value == ResetValue::Boolean(false) ==> changes@.contains(change)
            &&& crtcs@.contains(change.object) && change.property == ResetProperty::ModeId
                && change.value == ResetValue::Unknown(0) ==> changes@.contains(change)
            &&& (exists|i: int|
                #![trigger connectors@[i]]
                0 <= i < connectors.len() && (connectors@[i].crtc matches Some(crtc)
                    && crtcs@.contains(crtc)) && change == (PropertyChange {
                    object: connectors@[i].handle,
                    property: ResetProperty::CrtcId,
                    value: ResetValue::NoCrtc,
                })) ==> changes@.contains(change)
            &&& (exists|i: int|
                #![trigger planes@[i]]
                0 <= i < planes.len() && (planes@[i].crtc matches Some(crtc) && crtcs@.contains(
                    crtc,
                )) && change.object == planes@[i].handle && (change.property
                    == ResetProperty::CrtcId && change.value == ResetValue::NoCrtc
                    || change.property == ResetProperty::FbId && change.value
                    == ResetValue::NoFramebuffer)) ==> changes@.contains(change)
            &&& changes@.contains(change) ==> {
                ||| crtcs@.contains(change.object) && change.property == ResetProperty::Active
                    && change.value == ResetValue::Boolean(false)
                ||| crtcs@.contains(change.object) && change.property == ResetProperty::ModeId
                    && change.value == ResetValue::Unknown(0)
                ||| exists|i: int|
                    #![trigger connectors@[i]]
                    0 <= i < connectors.len() && (connectors@[i].crtc matches Some(crtc)
                        && crtcs@.contains(crtc)) && change == (PropertyChange {
                        object: connectors@[i].handle,
                        property: ResetProperty::CrtcId,
                        value: ResetValue::NoCrtc,
                    })
                ||| exists|i: int|
                    #![trigger planes@[i]]
                    0 <= i < planes.len() && (planes@[i].crtc matches Some(crtc)
                        && crtcs@.contains(crtc)) && change.object == planes@[i].handle && (
                    change.property == ResetProperty::CrtcId && change.value == ResetValue::NoCrtc
                        || change.property == ResetProperty::FbId && change.value
                        == ResetValue::NoFramebuffer)
            }
        },
{
    let chosen = |plane: PlaneState| shown_on(plane, crtcs@);
    let first = connector_resets(connectors@, crtcs@);
    let second = plane_resets(planes@, chosen);
    let third = crtc_resets(crtcs@);
    lemma_connector_resets(connectors@, crtcs@, change);
    lemma_plane_resets(planes@, chosen, change);
    lemma_crtc_resets(crtcs@, change);
    lemma_joined(first, second, change);
    lemma_joined(first + second, third, change);
}

proof fn lemma_joined(a: Seq<PropertyChange>, b: Seq<PropertyChange>, change: PropertyChange)
    ensures
        (a + b).contains(change) <==> a.contains(change) || b.contains(change),
{
    if a.contains(change) {
        let i = choose|i: int| 0 <= i < a.len() && a[i] == change;
        assert((a + b)[i] == change);
    }
    if b.contains(change) {
        let i = choose|i: int| 0 <= i < b.len() && b[i] == change;
        assert((a + b)[a.len() as int + i] == change);
    }
    if (a + b).contains(change) {
        let i = choose|i: int| 0 <= i < (a + b).len() && (a + b)[i] == change;
        if i < a.len() {
            assert(a[i] == change);
        } else {
            assert(b[i - a.len()] == change);
        }
    }
}

/// Each property is written under the name that the kernel has for it.
pub proof fn lemma_kernel_names(property: ResetProperty, name: &'static str)
    requires
        call_ensures(ResetProperty::name, (property,), name),
    ensures
        property is CrtcId ==> name@ == "CRTC_ID"@,
        property is FbId ==> name@ == "FB_ID"@,
        property is Active ==> name@ == "ACTIVE"@,
        property is ModeId ==> name@ == "MODE_ID"@,
{
}

/// A connector has the CRTC that was last set for it; setting one leaves all others, and
/// a CRTC is in use exactly while a connector has it.
pub proof fn lemma_connectors_keep_their_crtc(
    map: &mut CrtcMap,
    handle: u32,
    crtc: Option<u32>,
    own: Option<Option<u32>>,
    other: u32,
    before: Option<Option<u32>>,
    after: Option<Option<u32>>,
    wanted: u32,
    in_use: bool,
    empty: CrtcMap,
    nothing: Option<Option<u32>>,
    unused: bool,
)
    requires
        call_ensures(CrtcMap::insert, (map, handle, crtc), ()),
        call_ensures(CrtcMap::get, (&*final(map), handle), own),
        call_ensures(CrtcMap::get, (&*old(map), other), before),
        call_ensures(CrtcMap::get, (&*final(map), other), after),
        call_ensures(CrtcMap::has_crtc, (&*final(map), wanted), in_use),
        call_ensures(CrtcMap::new, (), empty),
        call_ensures(CrtcMap::get, (&empty, handle), nothing),
        call_ensures(CrtcMap::has_crtc, (&empty, wanted), unused),
    ensures
        own == Some(crtc),
        other != handle ==> after == before,
        crtc == Some(wanted) ==> in_use,
        after == Some(Some(wanted)) ==> in_use,
        nothing is None,
        !unused,
{
    assert(final(map)@.dom().contains(handle));
    if after == Some(Some(wanted)) {
        assert(final(map)@.dom().contains(other));
    }
}

/// The list of connectors holds each once, with its CRTC.
pub proof fn lemma_listed_connectors(
    map: &CrtcMap,
    entries: Vec<(u32, Option<u32>)>,
    i: int,
    crtc: Option<Option<u32>>,
)
    requires
        call_ensures(CrtcMap::to_vec, (map,), entries),
        0 <= i < entries.len(),
        call_ensures(CrtcMap::get, (map, entries@[i].0), crtc),
    ensures
        crtc == Some(entries@[i].1),
{
    assert forall|j: int, k: int| 0 <= j < k < entries@.len() implies entries@[j].0
        != entries@[k].0 by {
        assert(entries[j].0 != entries[k].0);
    }
    lemma_entries_map(entries@);
}

} // verus!
