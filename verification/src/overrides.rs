//! Runtime overrides from the live configuration, per output and global.
use crate::policy::ReferenceWhiteRange;
use crate::text::same_text;
use vstd::prelude::*;

verus! {

/// The value of the first entry called `name`.
pub open spec fn lookup<T>(entries: Seq<(String, T)>, name: Seq<char>) -> Option<T>
    decreases entries.len(),
{
    if entries.len() == 0 {
        None
    } else if entries[0].0@ == name {
        Some(entries[0].1)
    } else {
        lookup(entries.drop_first(), name)
    }
}

fn find_entry<T: Copy>(entries: &Vec<(String, T)>, name: &str) -> (value: Option<T>)
    ensures
        value == lookup(entries@, name@),
{
    let mut i: usize = 0;
    proof {
        assert(entries@.subrange(0, entries@.len() as int) == entries@);
    }
    while i < entries.len()
        invariant
            i <= entries.len(),
            lookup(entries@, name@) == lookup(
                entries@.subrange(i as int, entries@.len() as int),
                name@,
            ),
        decreases entries.len() - i,
    {
        let ghost rest = entries@.subrange(i as int, entries@.len() as int);
        if same_text(entries[i].0.as_str(), name) {
            return Some(entries[i].1);
        }
        proof {
            assert(rest.drop_first() == entries@.subrange(i + 1, entries@.len() as int));
        }
        i = i + 1;
    }
    None
}

/// The overrides in force. Per-output entries are found by connector name.
#[derive(Debug)]
pub struct RuntimeOverrides {
    allow_tearing: bool,
    allow_tearing_outputs: Vec<(String, bool)>,
    hdr_enabled_outputs: Vec<(String, bool)>,
    /// Zero means unset.
    hdr_reference_white: u16,
    hdr_reference_white_outputs: Vec<(String, u16)>,
}

/// What a [`RuntimeOverrides`] holds.
pub struct RuntimeOverridesView {
    pub allow_tearing: bool,
    pub allow_tearing_outputs: Seq<(String, bool)>,
    pub hdr_enabled_outputs: Seq<(String, bool)>,
    pub hdr_reference_white: u16,
    pub hdr_reference_white_outputs: Seq<(String, u16)>,
}

impl View for RuntimeOverrides {
    type V = RuntimeOverridesView;

    closed spec fn view(&self) -> RuntimeOverridesView {
        RuntimeOverridesView {
            allow_tearing: self.allow_tearing,
            allow_tearing_outputs: self.allow_tearing_outputs@,
            hdr_enabled_outputs: self.hdr_enabled_outputs@,
            hdr_reference_white: self.hdr_reference_white,
            hdr_reference_white_outputs: self.hdr_reference_white_outputs@,
        }
    }
}

impl RuntimeOverridesView {
    /// Whether tearing is allowed on a connector: its own entry, or else the
    /// global value.
    pub open spec fn tearing(self, connector: Seq<char>) -> bool {
        match lookup(self.allow_tearing_outputs, connector) {
            Some(allow) => allow,
            None => self.allow_tearing,
        }
    }

    /// The global reference white, if it is set.
    pub open spec fn global_white(self) -> Option<u16> {
        if self.hdr_reference_white == 0 {
            None
        } else {
            Some(self.hdr_reference_white)
        }
    }

    /// The reference white of a connector: its own entry, or else the global one.
    pub open spec fn white(self, connector: Seq<char>) -> Option<u16> {
        match lookup(self.hdr_reference_white_outputs, connector) {
            Some(white) => Some(white),
            None => self.global_white(),
        }
    }

    /// Every reference white lies in the range, or is unset.
    pub open spec fn whites_within(self, range: ReferenceWhiteRange) -> bool {
        &&& self.hdr_reference_white == 0 || range.min <= self.hdr_reference_white <= range.max
        &&& forall|i: int|
            0 <= i < self.hdr_reference_white_outputs.len() ==> range.min <= (
            #[trigger] self.hdr_reference_white_outputs[i]).1 <= range.max
    }
}

impl Default for RuntimeOverrides {
    fn default() -> (overrides: Self)
        ensures
            overrides@ == (RuntimeOverridesView {
                allow_tearing: true,
                allow_tearing_outputs: Seq::empty(),
                hdr_enabled_outputs: Seq::empty(),
                hdr_reference_white: 0,
                hdr_reference_white_outputs: Seq::empty(),
            }),
    {
        RuntimeOverrides {
            allow_tearing: true,
            allow_tearing_outputs: Vec::new(),
            hdr_enabled_outputs: Vec::new(),
            hdr_reference_white: 0,
            hdr_reference_white_outputs: Vec::new(),
        }
    }
}

/// Sets whether clients' async presentation hints are honored.
pub fn set_allow_tearing(overrides: &mut RuntimeOverrides, allow: bool)
    ensures
        final(overrides)@ == (RuntimeOverridesView { allow_tearing: allow, ..old(overrides)@ }),
{
    overrides.allow_tearing = allow;
}

/// Whether clients' async presentation hints are honored.
pub fn allow_tearing(overrides: &RuntimeOverrides) -> (allow: bool)
    ensures
        allow == overrides@.allow_tearing,
{
    overrides.allow_tearing
}

/// Replaces the per-output tearing overrides.
pub fn set_allow_tearing_outputs(overrides: &mut RuntimeOverrides, map: Vec<(String, bool)>)
    ensures
        final(overrides)@ == (RuntimeOverridesView {
            allow_tearing_outputs: map@,
            ..old(overrides)@
        }),
{
    overrides.allow_tearing_outputs = map;
}

/// Whether tearing is allowed on a connector.
pub fn tearing_allowed_for(overrides: &RuntimeOverrides, connector: &str) -> (allowed: bool)
    ensures
        allowed == overrides@.tearing(connector@),
{
    match find_entry(&overrides.allow_tearing_outputs, connector) {
        Some(allow) => allow,
        None => allow_tearing(overrides),
    }
}

/// Replaces the per-output HDR toggles.
pub fn set_hdr_enabled_outputs(overrides: &mut RuntimeOverrides, map: Vec<(String, bool)>)
    ensures
        final(overrides)@ == (RuntimeOverridesView {
            hdr_enabled_outputs: map@,
            ..old(overrides)@
        }),
{
    overrides.hdr_enabled_outputs = map;
}

/// The HDR toggle of a connector. `None` leaves the choice to the output
/// configuration and the environment.
pub fn hdr_enabled_override(overrides: &RuntimeOverrides, connector: &str) -> (enabled: Option<
    bool,
>)
    ensures
        enabled == lookup(overrides@.hdr_enabled_outputs, connector@),
{
    find_entry(&overrides.hdr_enabled_outputs, connector)
}

/// Sets or clears the global reference white; a value is held to the range.
pub fn set_hdr_reference_white_override(
    overrides: &mut RuntimeOverrides,
    value: Option<u16>,
    range: ReferenceWhiteRange,
)
    requires
        range.wf(),
    ensures
        final(overrides)@ == (RuntimeOverridesView {
            hdr_reference_white: match value {
                Some(white) => range.spec_clamp(white),
                None => 0,
            },
            ..old(overrides)@
        }),
        old(overrides)@.whites_within(range) ==> final(overrides)@.whites_within(range),
{
    overrides.hdr_reference_white =
    match value {
        Some(white) => range.clamp_white(white),
        None => 0,
    };
}

/// The global reference white, if it is set.
pub fn hdr_reference_white_override(overrides: &RuntimeOverrides) -> (white: Option<u16>)
    ensures
        white == overrides@.global_white(),
{
    if overrides.hdr_reference_white == 0 {
        None
    } else {
        Some(overrides.hdr_reference_white)
    }
}

/// Replaces the per-output reference whites; each is held to the range.
pub fn set_hdr_reference_white_outputs(
    overrides: &mut RuntimeOverrides,
    map: Vec<(String, u16)>,
    range: ReferenceWhiteRange,
)
    requires
        range.wf(),
    ensures
        final(overrides)@ == (RuntimeOverridesView {
            hdr_reference_white_outputs: final(overrides)@.hdr_reference_white_outputs,
            ..old(overrides)@
        }),
        final(overrides)@.hdr_reference_white_outputs.len() == map.len(),
        forall|i: int|
            #![trigger map@[i]]
            0 <= i < map.len() ==> {
                &&& final(overrides)@.hdr_reference_white_outputs[i].0@ == map@[i].0@
                &&& final(overrides)@.hdr_reference_white_outputs[i].1 == range.spec_clamp(
                    map@[i].1,
                )
            },
        old(overrides)@.whites_within(range) ==> final(overrides)@.whites_within(range),
{
    let mut clamped: Vec<(String, u16)> = Vec::new();
    for i in 0..map.len()
        invariant
            range.wf(),
            clamped.len() == i,
            forall|j: int|
                #![trigger map@[j]]
                0 <= j < i ==> clamped@[j].0@ == map@[j].0@ && clamped@[j].1 == range.spec_clamp(
                    map@[j].1,
                ),
    {
        clamped.push((map[i].0.clone(), range.clamp_white(map[i].1)));
    }
    overrides.hdr_reference_white_outputs = clamped;
    assert forall|i: int| 0 <= i < clamped.len() implies range.min <= (
    #[trigger] clamped@[i]).1 <= range.max by {
        assert(clamped@[i].1 == range.spec_clamp(map@[i].1));
    }
}

/// The effective reference white of one output: its own entry wins over the
/// global value. The panel's own ceiling is applied where frames are encoded.
pub fn hdr_reference_white_for(overrides: &RuntimeOverrides, connector: &str) -> (white: Option<
    u16,
>)
    ensures
        white == overrides@.white(connector@),
{
    match find_entry(&overrides.hdr_reference_white_outputs, connector) {
        Some(white) => Some(white),
        None => hdr_reference_white_override(overrides),
    }
}

/// While all stored whites lie in the range, so does the effective one of
/// every connector.
pub proof fn lemma_effective_white_is_bounded(
    overrides: RuntimeOverridesView,
    connector: Seq<char>,
    range: ReferenceWhiteRange,
)
    requires
        overrides.whites_within(range),
    ensures
        overrides.white(connector) matches Some(white) ==> range.min <= white <= range.max,
{
    lemma_lookup_is_an_entry(overrides.hdr_reference_white_outputs, connector);
}

/// A value that is found belongs to an entry of that name.
pub proof fn lemma_lookup_is_an_entry<T>(entries: Seq<(String, T)>, name: Seq<char>)
    ensures
        lookup(entries, name) matches Some(value) ==> exists|i: int|
            0 <= i < entries.len() && (#[trigger] entries[i]).0@ == name && entries[i].1 == value,
        lookup(entries, name) is None ==> forall|i: int|
            0 <= i < entries.len() ==> (#[trigger] entries[i]).0@ != name,
    decreases entries.len(),
{
    if entries.len() > 0 && entries[0].0@ != name {
        let rest = entries.drop_first();
        lemma_lookup_is_an_entry(rest, name);
        if let Some(value) = lookup(rest, name) {
            let i = choose|i: int|
                0 <= i < rest.len() && (#[trigger] rest[i]).0@ == name && rest[i].1 == value;
            assert(entries[i + 1] == rest[i]);
        } else {
            assert forall|i: int| 0 <= i < entries.len() implies (#[trigger] entries[i]).0@
                != name by {
                if i > 0 {
                    assert(rest[i - 1] == entries[i]);
                }
            }
        }
    }
}

/// Whether tearing is allowed on a connector is what its own entry says, whatever holds
/// elsewhere, and without one what holds everywhere.
pub proof fn lemma_own_tearing_entry_wins(
    overrides: &mut RuntimeOverrides,
    map: Vec<(String, bool)>,
    everywhere: bool,
    connector: &str,
    allowed: bool,
    i: int,
)
    requires
        call_ensures(set_allow_tearing_outputs, (overrides, map), ()),
        call_ensures(allow_tearing, (&*final(overrides),), everywhere),
        call_ensures(tearing_allowed_for, (&*final(overrides), connector), allowed),
        0 <= i <= map.len(),
        forall|j: int| 0 <= j < i ==> (#[trigger] map@[j]).0@ != connector@,
    ensures
        i < map.len() && map@[i].0@ == connector@ ==> allowed == map@[i].1,
        i == map.len() ==> allowed == everywhere,
{
    lemma_lookup_first(map@, connector@, i);
}

proof fn lemma_lookup_first<T>(entries: Seq<(String, T)>, name: Seq<char>, i: int)
    requires
        0 <= i <= entries.len(),
        forall|j: int| 0 <= j < i ==> (#[trigger] entries[j]).0@ != name,
    ensures
        i < entries.len() && entries[i].0@ == name ==> lookup(entries, name) == Some(entries[i].1),
        i == entries.len() ==> lookup(entries, name) is None,
    decreases entries.len(),
{
    if entries.len() > 0 && i > 0 {
        let rest = entries.drop_first();
        assert(entries[0].0@ != name);
        assert forall|j: int| 0 <= j < i - 1 implies (#[trigger] rest[j]).0@ != name by {
            assert(rest[j] == entries[j + 1]);
        }
        lemma_lookup_first(rest, name, i - 1);
        if i < entries.len() {
            assert(rest[i - 1] == entries[i]);
        }
    }
}

/// What is set everywhere holds everywhere, and leaves the entries of connectors alone.
pub proof fn lemma_tearing_everywhere(
    overrides: &mut RuntimeOverrides,
    allow: bool,
    everywhere: bool,
    connector: &str,
    before: bool,
    after: bool,
)
    requires
        call_ensures(set_allow_tearing, (overrides, allow), ()),
        call_ensures(allow_tearing, (&*final(overrides),), everywhere),
        call_ensures(tearing_allowed_for, (&*old(overrides), connector), before),
        call_ensures(tearing_allowed_for, (&*final(overrides), connector), after),
    ensures
        everywhere == allow,
        after == allow || after == before,
{
}

/// HDR is switched for a connector exactly where it has an entry, as that says.
pub proof fn lemma_hdr_toggle_is_per_connector(
    overrides: &mut RuntimeOverrides,
    map: Vec<(String, bool)>,
    connector: &str,
    enabled: Option<bool>,
    i: int,
)
    requires
        call_ensures(set_hdr_enabled_outputs, (overrides, map), ()),
        call_ensures(hdr_enabled_override, (&*final(overrides), connector), enabled),
        0 <= i <= map.len(),
        forall|j: int| 0 <= j < i ==> (#[trigger] map@[j]).0@ != connector@,
    ensures
        i < map.len() && map@[i].0@ == connector@ ==> enabled == Some(map@[i].1),
        i == map.len() ==> enabled is None,
{
    lemma_lookup_first(map@, connector@, i);
}

/// The global reference white reads back as it was set, within the range, and can be
/// cleared.
pub proof fn lemma_global_white_reads_back(
    overrides: &mut RuntimeOverrides,
    value: Option<u16>,
    range: ReferenceWhiteRange,
    white: Option<u16>,
)
    requires
        0 < range.min <= range.max,
        call_ensures(set_hdr_reference_white_override, (overrides, value, range), ()),
        call_ensures(hdr_reference_white_override, (&*final(overrides),), white),
    ensures
        value is None <==> white is None,
        value matches Some(wanted) ==> (white matches Some(own) && range.min <= own <= range.max && (
        range.min <= wanted <= range.max ==> own == wanted) && (wanted < range.min ==> own
            == range.min) && (wanted > range.max ==> own == range.max)),
{
}

/// The reference white of a connector is its own entry, within the range, and without
/// one the global white.
pub proof fn lemma_own_white_wins(
    overrides: &mut RuntimeOverrides,
    map: Vec<(String, u16)>,
    range: ReferenceWhiteRange,
    everywhere: Option<u16>,
    connector: &str,
    white: Option<u16>,
    i: int,
)
    requires
        range.min <= range.max,
        call_ensures(set_hdr_reference_white_outputs, (overrides, map, range), ()),
        call_ensures(hdr_reference_white_override, (&*final(overrides),), everywhere),
        call_ensures(hdr_reference_white_for, (&*final(overrides), connector), white),
        0 <= i <= map.len(),
        forall|j: int| 0 <= j < i ==> (#[trigger] map@[j]).0@ != connector@,
    ensures
        i == map.len() ==> white == everywhere,
        i < map.len() && map@[i].0@ == connector@ ==> (white matches Some(own) && range.min <= own
            <= range.max && (range.min <= map@[i].1 <= range.max ==> own == map@[i].1) && (map@[i].1
            < range.min ==> own == range.min) && (map@[i].1 > range.max ==> own == range.max)),
{
    let stored = final(overrides)@.hdr_reference_white_outputs;
    assert forall|j: int| 0 <= j < i implies (#[trigger] stored[j]).0@ != connector@ by {
        assert(stored[j].0@ == map@[j].0@);
    }
    if i < map.len() {
        assert(stored[i].0@ == map@[i].0@);
    }
    lemma_lookup_first(stored, connector@, i);
}

/// Each override is set without touching the others.
pub proof fn lemma_overrides_are_independent(
    tearing: &mut RuntimeOverrides,
    allow: bool,
    toggles: &mut RuntimeOverrides,
    map: Vec<(String, bool)>,
    white: &mut RuntimeOverrides,
    value: Option<u16>,
    range: ReferenceWhiteRange,
)
    requires
        range.min <= range.max,
        call_ensures(set_allow_tearing, (tearing, allow), ()),
        call_ensures(set_hdr_enabled_outputs, (toggles, map), ()),
        call_ensures(set_hdr_reference_white_override, (white, value, range), ()),
    ensures
        final(tearing)@.allow_tearing_outputs == old(tearing)@.allow_tearing_outputs,
        final(tearing)@.hdr_enabled_outputs == old(tearing)@.hdr_enabled_outputs,
        final(tearing)@.hdr_reference_white == old(tearing)@.hdr_reference_white,
        final(tearing)@.hdr_reference_white_outputs == old(tearing)@.hdr_reference_white_outputs,
        final(toggles)@.allow_tearing == old(toggles)@.allow_tearing,
        final(toggles)@.allow_tearing_outputs == old(toggles)@.allow_tearing_outputs,
        final(toggles)@.hdr_reference_white == old(toggles)@.hdr_reference_white,
        final(white)@.allow_tearing == old(white)@.allow_tearing,
        final(white)@.hdr_enabled_outputs == old(white)@.hdr_enabled_outputs,
        final(white)@.hdr_reference_white_outputs == old(white)@.hdr_reference_white_outputs,
{
}

/// Without overrides tearing is allowed everywhere, and nothing else is overridden.
pub proof fn lemma_no_overrides(
    overrides: RuntimeOverrides,
    connector: &str,
    tearing: bool,
    hdr: Option<bool>,
    white: Option<u16>,
)
    requires
        call_ensures(RuntimeOverrides::default, (), overrides),
        call_ensures(tearing_allowed_for, (&overrides, connector), tearing),
        call_ensures(hdr_enabled_override, (&overrides, connector), hdr),
        call_ensures(hdr_reference_white_for, (&overrides, connector), white),
    ensures
        tearing,
        hdr is None,
        white is None,
{
}

} // verus!
