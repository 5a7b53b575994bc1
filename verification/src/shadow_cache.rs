//! What is kept of window shadows between frames.
use crate::geometry::{Rectangle, Size};
use crate::shadow::{shadow_identity, NinePatchMargins, ShadowIdentity};
use vstd::prelude::*;

verus! {

/// Corner radii, clockwise from the top left.
#[derive(Debug, Clone, Copy, PartialEq, Eq, Structural)]
pub struct CornerRadii {
    pub top_left: u8,
    pub top_right: u8,
    pub bottom_right: u8,
    pub bottom_left: u8,
}

/// What a nine-patch texture depends on. The scale is given by its bits.
#[derive(Debug, Clone, Copy, PartialEq, Eq, Structural)]
pub struct NinePatchKey {
    /// The renderer's context.
    pub context: u64,
    pub radius: CornerRadii,
    pub scale_bits: u64,
    pub dark_mode: bool,
}

/// A texture that was made before.
#[derive(Debug, Clone, Copy, PartialEq, Eq, Structural)]
pub struct CachedNinePatch {
    pub texture: u64,
    /// The kind of renderer that the texture belongs to.
    pub texture_kind: u32,
    pub size: Size,
    pub margins: NinePatchMargins,
}

/// The nine-patch textures that were made before.
#[derive(Debug)]
pub struct NinePatchCache {
    entries: Vec<(NinePatchKey, CachedNinePatch)>,
}

/// No key occurs twice in `entries`.
pub open spec fn each_key_once(entries: Seq<(NinePatchKey, CachedNinePatch)>) -> bool {
    forall|i: int, j: int|
        0 <= i < j < entries.len() ==> (#[trigger] entries[i]).0 != (#[trigger] entries[j]).0
}

/// The entries as a map.
pub open spec fn textures(entries: Seq<(NinePatchKey, CachedNinePatch)>) -> Map<
    NinePatchKey,
    CachedNinePatch,
>
    decreases entries.len(),
{
    if entries.len() == 0 {
        Map::empty()
    } else {
        textures(entries.drop_last()).insert(entries.last().0, entries.last().1)
    }
}

/// Replacing the entry of a key replaces what the map has for it.
proof fn lemma_textures_update(
    entries: Seq<(NinePatchKey, CachedNinePatch)>,
    at: int,
    cached: CachedNinePatch,
)
    requires
        0 <= at < entries.len(),
        each_key_once(entries),
    ensures
        textures(entries.update(at, (entries[at].0, cached))) == textures(entries).insert(
            entries[at].0,
            cached,
        ),
        each_key_once(entries.update(at, (entries[at].0, cached))),
    decreases entries.len(),
{
    let key = entries[at].0;
    let rest = entries.drop_last();
    let replaced = entries.update(at, (key, cached));
    if at == rest.len() {
        assert(replaced.drop_last() =~= rest);
    } else {
        lemma_textures_update(rest, at, cached);
        assert(replaced.drop_last() =~= rest.update(at, (key, cached)));
        assert(entries[at].0 != entries[entries.len() - 1].0);
        assert(replaced.last() == entries.last());
    }
    assert(textures(replaced) =~= textures(entries).insert(key, cached));
}

impl View for NinePatchCache {
    type V = Map<NinePatchKey, CachedNinePatch>;

    closed spec fn view(&self) -> Map<NinePatchKey, CachedNinePatch> {
        textures(self.entries@)
    }
}

impl NinePatchCache {
    /// No key occurs twice.
    #[verifier::type_invariant]
    closed spec fn wf(self) -> bool {
        each_key_once(self.entries@)
    }

    /// An empty cache.
    pub fn new() -> (cache: NinePatchCache)
        ensures
            cache@ == Map::<NinePatchKey, CachedNinePatch>::empty(),
    {
        NinePatchCache { entries: Vec::new() }
    }

    /// The texture for a key, if there is one of the wanted kind.
    pub fn get(&self, key: NinePatchKey, texture_kind: u32) -> (cached: Option<CachedNinePatch>)
        ensures
            cached == if self@.dom().contains(key) && self@[key].texture_kind == texture_kind {
                Some(self@[key])
            } else {
                None
            },
    {
        let mut i: usize = self.entries.len();
        assert(self.entries@.take(i as int) =~= self.entries@);
        while i > 0
            invariant
                i <= self.entries.len(),
                textures(self.entries@.take(i as int)).dom().contains(key) == self@.dom().contains(
                    key,
                ),
                self@.dom().contains(key) ==> textures(self.entries@.take(i as int))[key]
                    == self@[key],
            decreases i,
        {
            i = i - 1;
            proof {
                assert(self.entries@.take(i + 1).drop_last() =~= self.entries@.take(i as int));
                assert(self.entries@.take(i + 1).last() == self.entries@[i as int]);
            }
            if self.entries[i].0 == key {
                let found: CachedNinePatch = self.entries[i].1;
                return if found.texture_kind == texture_kind {
                    Some(found)
                } else {
                    None
                };
            }
        }
        assert(self.entries@.take(0) =~= Seq::empty());
        None
    }

    /// Keeps a texture, in place of one that was kept under the same key.
    pub fn insert(&mut self, key: NinePatchKey, cached: CachedNinePatch)
        ensures
            final(self)@ == old(self)@.insert(key, cached),
    {
        proof {
            use_type_invariant(&*self);
        }
        let mut at: usize = 0;
        while at < self.entries.len() && self.entries[at].0 != key
            invariant
                at <= self.entries.len(),
                forall|j: int| 0 <= j < at ==> (#[trigger] self.entries@[j]).0 != key,
            decreases self.entries.len() - at,
        {
            at = at + 1;
        }
        let mut entries: Vec<(NinePatchKey, CachedNinePatch)> = Vec::new();
        std::mem::swap(&mut self.entries, &mut entries);
        let ghost before = entries@;
        if at < entries.len() {
            proof {
                lemma_textures_update(before, at as int, cached);
            }
            entries.set(at, (key, cached));
        } else {
            entries.push((key, cached));
            assert(entries@.drop_last() =~= before);
        }
        self.entries = entries;
    }
}

/// What a shadow is drawn with, but for its scale and opacity.
#[derive(Debug, Clone, Copy, PartialEq, Eq, Structural)]
pub struct ShadowParameters {
    pub geo: Rectangle,
    pub radius: CornerRadii,
    pub dark_mode: bool,
}

/// The shadow of a window. Windows are named by an id.
#[derive(Debug, Clone, Copy, PartialEq, Eq, Structural)]
pub struct WindowShadow {
    pub window: u64,
    pub params: ShadowParameters,
    pub identity: ShadowIdentity,
}

/// The shadows of all windows.
#[derive(Debug)]
pub struct WindowShadows {
    entries: Vec<WindowShadow>,
}

/// The shadows of windows that are alive.
pub open spec fn of_alive(entries: Seq<WindowShadow>, alive: Seq<u64>) -> Seq<WindowShadow>
    decreases entries.len(),
{
    if entries.len() == 0 {
        Seq::empty()
    } else {
        let rest = of_alive(entries.drop_last(), alive);
        if alive.contains(entries.last().window) {
            rest.push(entries.last())
        } else {
            rest
        }
    }
}

/// Where the shadow of a window stands from `from` on, or the number of entries.
pub open spec fn place_of(entries: Seq<WindowShadow>, window: u64, from: int) -> int
    decreases entries.len() - from,
{
    if from < 0 || from >= entries.len() {
        entries.len() as int
    } else if entries[from].window == window {
        from
    } else {
        place_of(entries, window, from + 1)
    }
}

/// No window has two shadows in `entries`.
pub open spec fn each_window_once(entries: Seq<WindowShadow>) -> bool {
    forall|i: int, j: int|
        0 <= i < j < entries.len() ==> (#[trigger] entries[i]).window != (
        #[trigger] entries[j]).window
}

/// The shadow that follows from the last one of a window, if it had one.
pub open spec fn next_shadow(
    last: Option<WindowShadow>,
    window: u64,
    params: ShadowParameters,
    look_changed: bool,
    new_id: u64,
) -> WindowShadow {
    WindowShadow {
        window,
        params,
        identity: match last {
            None => ShadowIdentity { id: new_id, commit: 0 },
            Some(shadow) => if shadow.params != params || look_changed {
                ShadowIdentity {
                    id: shadow.identity.id,
                    commit: if shadow.identity.commit == usize::MAX {
                        0
                    } else {
                        (shadow.identity.commit + 1) as usize
                    },
                }
            } else {
                shadow.identity
            },
        },
    }
}

/// The shadows once that of a window was brought up to date.
pub open spec fn updated(
    entries: Seq<WindowShadow>,
    alive: Seq<u64>,
    window: u64,
    params: ShadowParameters,
    look_changed: bool,
    new_id: u64,
) -> Seq<WindowShadow> {
    let kept = of_alive(entries, alive);
    let place = place_of(kept, window, 0);
    if 0 <= place < kept.len() {
        kept.update(place, next_shadow(Some(kept[place]), window, params, look_changed, new_id))
    } else {
        kept.push(next_shadow(None, window, params, look_changed, new_id))
    }
}

proof fn lemma_of_alive(entries: Seq<WindowShadow>, alive: Seq<u64>)
    ensures
        forall|i: int|
            0 <= i < of_alive(entries, alive).len() ==> entries.contains(
                #[trigger] of_alive(entries, alive)[i],
            ) && alive.contains(of_alive(entries, alive)[i].window),
        each_window_once(entries) ==> each_window_once(of_alive(entries, alive)),
    decreases entries.len(),
{
    if entries.len() > 0 {
        let rest = entries.drop_last();
        let kept = of_alive(rest, alive);
        let left = of_alive(entries, alive);
        lemma_of_alive(rest, alive);
        assert forall|i: int| 0 <= i < left.len() implies entries.contains(#[trigger] left[i])
            && alive.contains(left[i].window) by {
            if i < kept.len() {
                assert(left[i] == kept[i]);
                let j = choose|j: int| 0 <= j < rest.len() && rest[j] == kept[i];
                assert(entries[j] == left[i]);
            } else {
                assert(entries[entries.len() - 1] == left[i]);
            }
        }
        if each_window_once(entries) {
            assert forall|i: int, j: int| 0 <= i < j < left.len() implies (
            #[trigger] left[i]).window != (#[trigger] left[j]).window by {
                assert(left[i] == kept[i]);
                if j < kept.len() {
                    assert(left[j] == kept[j]);
                } else {
                    let k = choose|k: int| 0 <= k < rest.len() && rest[k] == kept[i];
                    assert(entries[k].window != entries[entries.len() - 1].window);
                }
            }
        }
    }
}

impl View for WindowShadows {
    type V = Seq<WindowShadow>;

    closed spec fn view(&self) -> Seq<WindowShadow> {
        self.entries@
    }
}

fn holds_window(windows: &Vec<u64>, window: u64) -> (found: bool)
    ensures
        found == windows@.contains(window),
{
    for i in 0..windows.len()
        invariant
            forall|j: int| 0 <= j < i ==> windows[j] != window,
    {
        if windows[i] == window {
            return true;
        }
    }
    false
}

impl WindowShadows {
    /// No window has two shadows.
    #[verifier::type_invariant]
    closed spec fn wf(self) -> bool {
        each_window_once(self.entries@)
    }

    /// No shadow yet.
    pub fn new() -> (shadows: WindowShadows)
        ensures
            shadows@ == Seq::<WindowShadow>::empty(),
    {
        WindowShadows { entries: Vec::new() }
    }

    /// Brings the shadow of a window up to date and forgets those of windows that
    /// are gone. `look_changed` says whether its scale or opacity changed; a changed
    /// shadow keeps its id and gets another commit. Returns its identity.
    pub fn update(
        &mut self,
        alive: &Vec<u64>,
        window: u64,
        params: ShadowParameters,
        look_changed: bool,
        new_id: u64,
    ) -> (identity: ShadowIdentity)
        ensures
            final(self)@ == updated(old(self)@, alive@, window, params, look_changed, new_id),
            ({
                let kept = of_alive(old(self)@, alive@);
                let place = place_of(kept, window, 0);
                identity == next_shadow(
                    if 0 <= place < kept.len() {
                        Some(kept[place])
                    } else {
                        None
                    },
                    window,
                    params,
                    look_changed,
                    new_id,
                ).identity
            }),
    {
        proof {
            use_type_invariant(&*self);
            lemma_of_alive(self.entries@, alive@);
        }
        let ghost entries = self.entries@;
        let mut kept: Vec<WindowShadow> = Vec::new();
        assert(entries.take(0) =~= Seq::empty());
        for i in 0..self.entries.len()
            invariant
                entries == self.entries@,
                entries == old(self)@,
                kept@ == of_alive(entries.take(i as int), alive@),
        {
            proof {
                assert(entries.take(i + 1).drop_last() =~= entries.take(i as int));
                assert(entries.take(i + 1).last() == entries[i as int]);
            }
            if holds_window(alive, self.entries[i].window) {
                kept.push(self.entries[i]);
            }
        }
        assert(entries.take(entries.len() as int) =~= entries);
        let mut place: usize = 0;
        while place < kept.len() && kept[place].window != window
            invariant
                place <= kept.len(),
                forall|j: int| 0 <= j < place ==> (#[trigger] kept@[j]).window != window,
                place_of(kept@, window, 0) == place_of(kept@, window, place as int),
            decreases kept.len() - place,
        {
            place = place + 1;
        }
        let identity: ShadowIdentity = if place < kept.len() {
            let last: WindowShadow = kept[place];
            let changed: bool = last.params != params || look_changed;
            shadow_identity(Some(last.identity), changed, new_id)
        } else {
            shadow_identity(None, true, new_id)
        };
        let shadow: WindowShadow = WindowShadow { window, params, identity };
        if place < kept.len() {
            kept.set(place, shadow);
        } else {
            kept.push(shadow);
        }
        self.entries = kept;
        identity
    }
}

/// A shadow that does not change keeps its identity, and one that does keeps its
/// id, so that only changes are drawn again.
pub proof fn lemma_shadow_keeps_its_id(
    shadow: WindowShadow,
    params: ShadowParameters,
    look_changed: bool,
    new_id: u64,
)
    ensures
        next_shadow(Some(shadow), shadow.window, params, look_changed, new_id).identity.id
            == shadow.identity.id,
        next_shadow(Some(shadow), shadow.window, shadow.params, false, new_id) == shadow,
        shadow.params != params || look_changed ==> next_shadow(
            Some(shadow),
            shadow.window,
            params,
            look_changed,
            new_id,
        ).identity.commit != shadow.identity.commit,
{
}

/// What the pixel shader drew the shadow of a window with.
#[derive(Debug, Clone, Copy, PartialEq, Eq, Structural)]
pub struct PixelShadow {
    pub window: u64,
    pub params: ShadowParameters,
}

/// The shadows that the pixel shader drew.
#[derive(Debug)]
pub struct PixelShadows {
    entries: Vec<PixelShadow>,
}

/// The entries as a map.
spec fn drawn(entries: Seq<PixelShadow>) -> Map<u64, ShadowParameters>
    decreases entries.len(),
{
    if entries.len() == 0 {
        Map::empty()
    } else {
        drawn(entries.drop_last()).insert(entries.last().window, entries.last().params)
    }
}

/// No window has two shadows in `entries`.
spec fn each_drawn_once(entries: Seq<PixelShadow>) -> bool {
    forall|i: int, j: int|
        0 <= i < j < entries.len() ==> (#[trigger] entries[i]).window != (
        #[trigger] entries[j]).window
}

/// The shadows of windows that are alive, but for one window.
spec fn alive_others(entries: Seq<PixelShadow>, alive: Seq<u64>, window: u64) -> Seq<PixelShadow>
    decreases entries.len(),
{
    if entries.len() == 0 {
        Seq::empty()
    } else {
        let rest = alive_others(entries.drop_last(), alive, window);
        if alive.contains(entries.last().window) && entries.last().window != window {
            rest.push(entries.last())
        } else {
            rest
        }
    }
}

proof fn lemma_alive_others(entries: Seq<PixelShadow>, alive: Seq<u64>, window: u64, other: u64)
    ensures
        drawn(alive_others(entries, alive, window)).dom().contains(other) == (drawn(
            entries,
        ).dom().contains(other) && alive.contains(other) && other != window),
        drawn(alive_others(entries, alive, window)).dom().contains(other) ==> drawn(
            alive_others(entries, alive, window),
        )[other] == drawn(entries)[other],
    decreases entries.len(),
{
    if entries.len() > 0 {
        let rest = alive_others(entries.drop_last(), alive, window);
        lemma_alive_others(entries.drop_last(), alive, window, other);
        if alive.contains(entries.last().window) && entries.last().window != window {
            assert(rest.push(entries.last()).drop_last() =~= rest);
        }
    }
}

proof fn lemma_alive_others_once(entries: Seq<PixelShadow>, alive: Seq<u64>, window: u64)
    requires
        each_drawn_once(entries),
    ensures
        each_drawn_once(alive_others(entries, alive, window)),
        forall|i: int|
            0 <= i < alive_others(entries, alive, window).len() ==> entries.contains(
                #[trigger] alive_others(entries, alive, window)[i],
            ) && alive_others(entries, alive, window)[i].window != window,
    decreases entries.len(),
{
    if entries.len() > 0 {
        let rest = entries.drop_last();
        let kept = alive_others(rest, alive, window);
        let left = alive_others(entries, alive, window);
        lemma_alive_others_once(rest, alive, window);
        assert forall|i: int| 0 <= i < left.len() implies entries.contains(#[trigger] left[i])
            && left[i].window != window by {
            if i < kept.len() {
                assert(left[i] == kept[i]);
                let j = choose|j: int| 0 <= j < rest.len() && rest[j] == kept[i];
                assert(entries[j] == left[i]);
            } else {
                assert(entries[entries.len() - 1] == left[i]);
            }
        }
        assert forall|i: int, j: int| 0 <= i < j < left.len() implies (#[trigger] left[i]).window
            != (#[trigger] left[j]).window by {
            assert(left[i] == kept[i]);
            if j < kept.len() {
                assert(left[j] == kept[j]);
            } else {
                let k = choose|k: int| 0 <= k < rest.len() && rest[k] == kept[i];
                assert(entries[k].window != entries[entries.len() - 1].window);
            }
        }
    }
}

impl View for PixelShadows {
    type V = Map<u64, ShadowParameters>;

    closed spec fn view(&self) -> Map<u64, ShadowParameters> {
        drawn(self.entries@)
    }
}

impl PixelShadows {
    /// No window has two shadows.
    #[verifier::type_invariant]
    closed spec fn wf(self) -> bool {
        each_drawn_once(self.entries@)
    }

    /// No shadow yet.
    pub fn new() -> (shadows: PixelShadows)
        ensures
            shadows@ == Map::<u64, ShadowParameters>::empty(),
    {
        PixelShadows { entries: Vec::new() }
    }

    /// Looks at the shadow of a window before it is drawn, and forgets those of
    /// windows that are gone. `look_changed` says whether its scale or opacity
    /// changed. Returns whether the shadow has to be built anew: what was built
    /// before is used again only where nothing changed.
    pub fn update(
        &mut self,
        alive: &Vec<u64>,
        window: u64,
        params: ShadowParameters,
        look_changed: bool,
    ) -> (build: bool)
        ensures
            build == !(old(self)@.dom().contains(window) && alive@.contains(window)
                && old(self)@[window] == params && !look_changed),
            forall|other: u64| #[trigger]
                final(self)@.dom().contains(other) <==> other == window || (
                old(self)@.dom().contains(other) && alive@.contains(other)),
            final(self)@[window] == params,
            forall|other: u64| #[trigger]
                final(self)@.dom().contains(other) && other != window ==> final(self)@[other]
                    == old(self)@[other],
    {
        proof {
            use_type_invariant(&*self);
            lemma_alive_others_once(self.entries@, alive@, window);
        }
        let ghost entries = self.entries@;
        let mut kept: Vec<PixelShadow> = Vec::new();
        let mut build: bool = true;
        assert(entries.take(0) =~= Seq::empty());
        for i in 0..self.entries.len()
            invariant
                entries == self.entries@,
                entries == old(self).entries@,
                kept@ == alive_others(entries.take(i as int), alive@, window),
                build == !(drawn(entries.take(i as int)).dom().contains(window)
                    && alive@.contains(window) && drawn(entries.take(i as int))[window] == params
                    && !look_changed),
        {
            proof {
                assert(entries.take(i + 1).drop_last() =~= entries.take(i as int));
                assert(entries.take(i + 1).last() == entries[i as int]);
            }
            let shadow: PixelShadow = self.entries[i];
            let is_alive: bool = holds_window(alive, shadow.window);
            if shadow.window == window {
                build = !is_alive || shadow.params != params || look_changed;
            } else if is_alive {
                kept.push(shadow);
            }
        }
        assert(entries.take(entries.len() as int) =~= entries);
        let ghost others = kept@;
        kept.push(PixelShadow { window, params });
        proof {
            assert(kept@.drop_last() =~= others);
            assert forall|other: u64|
                #![trigger drawn(kept@).dom().contains(other)]
                {
                    &&& drawn(kept@).dom().contains(other) == (other == window || (drawn(
                        entries,
                    ).dom().contains(other) && alive@.contains(other)))
                    &&& drawn(kept@).dom().contains(other) && other != window ==> drawn(
                        kept@,
                    )[other] == drawn(entries)[other]
                } by {
                lemma_alive_others(entries, alive@, window, other);
            }
        }
        self.entries = kept;
        build
    }
}

/// A texture is found again under its key, for the kind of renderer that it belongs
/// to; keeping one for a key replaces the one before and leaves all others.
pub proof fn lemma_textures_are_found_by_their_key(
    cache: &mut NinePatchCache,
    key: NinePatchKey,
    cached: CachedNinePatch,
    kind: u32,
    found: Option<CachedNinePatch>,
    other: NinePatchKey,
    before: Option<CachedNinePatch>,
    after: Option<CachedNinePatch>,
    empty: NinePatchCache,
    nothing: Option<CachedNinePatch>,
)
    requires
        call_ensures(NinePatchCache::insert, (cache, key, cached), ()),
        call_ensures(NinePatchCache::get, (&*final(cache), key, kind), found),
        call_ensures(NinePatchCache::get, (&*old(cache), other, kind), before),
        call_ensures(NinePatchCache::get, (&*final(cache), other, kind), after),
        call_ensures(NinePatchCache::new, (), empty),
        call_ensures(NinePatchCache::get, (&empty, key, kind), nothing),
    ensures
        kind == cached.texture_kind ==> found == Some(cached),
        kind != cached.texture_kind ==> found is None,
        other != key ==> after == before,
        nothing is None,
{
}

proof fn lemma_alive_shadows(entries: Seq<WindowShadow>, alive: Seq<u64>, shadow: WindowShadow)
    ensures
        of_alive(entries, alive).contains(shadow) <==> entries.contains(shadow) && alive.contains(
            shadow.window,
        ),
    decreases entries.len(),
{
    if entries.len() > 0 {
        let rest = entries.drop_last();
        let before = of_alive(rest, alive);
        let after = of_alive(entries, alive);
        lemma_alive_shadows(rest, alive, shadow);
        if before.contains(shadow) {
            let i = choose|i: int| 0 <= i < before.len() && before[i] == shadow;
            assert(after[i] == shadow);
        }
        if rest.contains(shadow) {
            let i = choose|i: int| 0 <= i < rest.len() && rest[i] == shadow;
            assert(entries[i] == shadow);
        }
        assert(entries[entries.len() - 1] == entries.last());
        if alive.contains(entries.last().window) {
            assert(after[after.len() - 1] == entries.last());
        }
        if after.contains(shadow) && !before.contains(shadow) {
            let i = choose|i: int| 0 <= i < after.len() && after[i] == shadow;
            if i < before.len() {
                assert(before[i] == shadow);
            }
        }
        if entries.contains(shadow) && !rest.contains(shadow) {
            let i = choose|i: int| 0 <= i < entries.len() && entries[i] == shadow;
            if i < rest.len() {
                assert(rest[i] == shadow);
            }
        }
    }
}

proof fn lemma_place_of(entries: Seq<WindowShadow>, window: u64, from: int)
    requires
        0 <= from <= entries.len(),
    ensures
        from <= place_of(entries, window, from) <= entries.len(),
        place_of(entries, window, from) < entries.len() ==> entries[place_of(
            entries,
            window,
            from,
        )].window == window,
        forall|i: int|
            from <= i < place_of(entries, window, from) ==> (#[trigger] entries[i]).window
                != window,
    decreases entries.len() - from,
{
    if from < entries.len() && entries[from].window != window {
        lemma_place_of(entries, window, from + 1);
    }
}

/// The shadow of a window that is alive keeps its id, and its commit unless something
/// about it changed; a window without one gets a new one; and the shadows of other
/// windows stay exactly where those are alive.
pub proof fn lemma_shadows_are_brought_up_to_date(
    shadows: &mut WindowShadows,
    alive: &Vec<u64>,
    window: u64,
    params: ShadowParameters,
    look_changed: bool,
    new_id: u64,
    identity: ShadowIdentity,
    last: WindowShadow,
    other: WindowShadow,
)
    requires
        each_window_once(old(shadows)@),
        call_ensures(
            WindowShadows::update,
            (shadows, alive, window, params, look_changed, new_id),
            identity,
        ),
        last.window == window,
        other.window != window,
    ensures
        final(shadows)@.contains(WindowShadow { window, params, identity }),
        final(shadows)@.contains(other) <==> old(shadows)@.contains(other) && alive@.contains(
            other.window,
        ),
        old(shadows)@.contains(last) && alive@.contains(window) ==> {
            &&& identity.id == last.identity.id
            &&& last.params == params && !look_changed ==> identity.commit == last.identity.commit
            &&& last.params != params || look_changed ==> identity.commit != last.identity.commit
                && (last.identity.commit < usize::MAX ==> identity.commit == last.identity.commit
                + 1)
        },
        !alive@.contains(window) || (forall|i: int|
            0 <= i < old(shadows)@.len() ==> (#[trigger] old(shadows)@[i]).window != window)
            ==> identity.id == new_id && identity.commit == 0,
{
    let before = old(shadows)@;
    let kept = of_alive(before, alive@);
    let after = final(shadows)@;
    let place = place_of(kept, window, 0);
    let shadow = WindowShadow { window, params, identity };
    lemma_of_alive(before, alive@);
    lemma_place_of(kept, window, 0);
    lemma_alive_shadows(before, alive@, other);
    lemma_alive_shadows(before, alive@, last);
    if place < kept.len() {
        assert(after[place] == shadow);
        lemma_alive_shadows(before, alive@, kept[place]);
        assert(kept.contains(kept[place]));
        let k = choose|k: int| 0 <= k < before.len() && before[k] == kept[place];
        assert(before[k].window == window);
    } else {
        assert(after[kept.len() as int] == shadow);
    }
    if kept.contains(last) {
        let i = choose|i: int| 0 <= i < kept.len() && kept[i] == last;
        if i < place {
            assert(kept[i].window != window);
        } else if place < i {
            assert(kept[place].window != kept[i].window);
        }
        assert(kept[place] == last);
    }
    if kept.contains(other) {
        let i = choose|i: int| 0 <= i < kept.len() && kept[i] == other;
        assert(i != place);
        assert(after[i] == other);
    }
    if after.contains(other) {
        let i = choose|i: int| 0 <= i < after.len() && after[i] == other;
        assert(i != place);
        assert(kept[i] == other);
    }
    if !alive@.contains(window) && place < kept.len() {
        assert(alive@.contains(kept[place].window));
    }
}

/// What the pixel shader built is used again exactly while its window lives and nothing
/// about it changed; and the next look finds what was drawn last.
pub proof fn lemma_unchanged_shadows_are_used_again(
    shadows: &mut PixelShadows,
    alive: &Vec<u64>,
    window: u64,
    params: ShadowParameters,
    look_changed: bool,
    build: bool,
    next: &mut PixelShadows,
    next_alive: &Vec<u64>,
    next_params: ShadowParameters,
    next_changed: bool,
    build_again: bool,
    empty: PixelShadows,
    first: &mut PixelShadows,
    build_first: bool,
)
    requires
        call_ensures(
            PixelShadows::update,
            (shadows, alive, window, params, look_changed),
            build,
        ),
        (*old(next))@ == (*final(shadows))@,
        call_ensures(
            PixelShadows::update,
            (next, next_alive, window, next_params, next_changed),
            build_again,
        ),
        call_ensures(PixelShadows::new, (), empty),
        *old(first) == empty,
        call_ensures(
            PixelShadows::update,
            (first, alive, window, params, look_changed),
            build_first,
        ),
    ensures
        look_changed ==> build,
        !alive@.contains(window) ==> build,
        build_first,
        !build_again <==> next_alive@.contains(window) && next_params == params && !next_changed,
{
}

/// Looking at one window's shadow forgets those of windows that are gone, and leaves
/// the others as they were drawn.
pub proof fn lemma_other_pixel_shadows_stay(
    shadows: &mut PixelShadows,
    alive: &Vec<u64>,
    window: u64,
    params: ShadowParameters,
    look_changed: bool,
    build: bool,
    other: u64,
)
    requires
        call_ensures(
            PixelShadows::update,
            (shadows, alive, window, params, look_changed),
            build,
        ),
        other != window,
    ensures
        final(shadows)@.dom().contains(other) <==> old(shadows)@.dom().contains(other)
            && alive@.contains(other),
        old(shadows)@.dom().contains(other) && alive@.contains(other) ==> final(shadows)@[other]
            == old(shadows)@[other],
{
    assert(final(shadows)@.dom().contains(other) <==> old(shadows)@.dom().contains(other)
        && alive@.contains(other));
}

} // verus!
