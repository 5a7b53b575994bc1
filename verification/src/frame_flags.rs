//! Which planes a frame may use.
use crate::policy::{find_variable, is_enabled, parse_bool_token, variable};
use vstd::prelude::*;

verus! {

/// How a frame may be put on the planes of an output.
#[derive(Debug, Clone, Copy, PartialEq, Eq, Structural)]
pub struct FrameFlags {
    /// Elements in the swapchain's format may use the primary plane.
    pub allow_primary_plane_scanout: bool,
    /// Elements in any format may use the primary plane.
    pub allow_primary_plane_scanout_any: bool,
    /// Elements may use overlay planes.
    pub allow_overlay_plane_scanout: bool,
    /// Elements may use cursor planes.
    pub allow_cursor_plane_scanout: bool,
    /// A frame that only moves the cursor is empty.
    pub skip_cursor_only_updates: bool,
    /// Frames follow a fullscreen surface.
    pub fullscreen_pacing: bool,
}

impl FrameFlags {
    /// No flag.
    pub open spec fn none() -> FrameFlags {
        FrameFlags {
            allow_primary_plane_scanout: false,
            allow_primary_plane_scanout_any: false,
            allow_overlay_plane_scanout: false,
            allow_cursor_plane_scanout: false,
            skip_cursor_only_updates: false,
            fullscreen_pacing: false,
        }
    }

    /// Every kind of plane, in the swapchain's format.
    pub open spec fn standard() -> FrameFlags {
        FrameFlags {
            allow_primary_plane_scanout: true,
            allow_overlay_plane_scanout: true,
            allow_cursor_plane_scanout: true,
            ..FrameFlags::none()
        }
    }

    /// The flags that are in `self` or in `other`.
    pub open spec fn plus(self, other: FrameFlags) -> FrameFlags {
        FrameFlags {
            allow_primary_plane_scanout: self.allow_primary_plane_scanout
                || other.allow_primary_plane_scanout,
            allow_primary_plane_scanout_any: self.allow_primary_plane_scanout_any
                || other.allow_primary_plane_scanout_any,
            allow_overlay_plane_scanout: self.allow_overlay_plane_scanout
                || other.allow_overlay_plane_scanout,
            allow_cursor_plane_scanout: self.allow_cursor_plane_scanout
                || other.allow_cursor_plane_scanout,
            skip_cursor_only_updates: self.skip_cursor_only_updates
                || other.skip_cursor_only_updates,
            fullscreen_pacing: self.fullscreen_pacing || other.fullscreen_pacing,
        }
    }

    /// The flags of `self` that are not in `other`.
    pub open spec fn without(self, other: FrameFlags) -> FrameFlags {
        FrameFlags {
            allow_primary_plane_scanout: self.allow_primary_plane_scanout
                && !other.allow_primary_plane_scanout,
            allow_primary_plane_scanout_any: self.allow_primary_plane_scanout_any
                && !other.allow_primary_plane_scanout_any,
            allow_overlay_plane_scanout: self.allow_overlay_plane_scanout
                && !other.allow_overlay_plane_scanout,
            allow_cursor_plane_scanout: self.allow_cursor_plane_scanout
                && !other.allow_cursor_plane_scanout,
            skip_cursor_only_updates: self.skip_cursor_only_updates
                && !other.skip_cursor_only_updates,
            fullscreen_pacing: self.fullscreen_pacing && !other.fullscreen_pacing,
        }
    }

    /// The primary plane in the swapchain's format, and overlay planes.
    pub open spec fn composited_planes() -> FrameFlags {
        FrameFlags {
            allow_primary_plane_scanout: true,
            allow_overlay_plane_scanout: true,
            ..FrameFlags::none()
        }
    }

    /// The primary plane in any format, and overlay planes.
    pub open spec fn direct_planes() -> FrameFlags {
        FrameFlags {
            allow_primary_plane_scanout_any: true,
            ..FrameFlags::composited_planes()
        }
    }

    /// Overlay planes.
    pub open spec fn overlay_planes() -> FrameFlags {
        FrameFlags { allow_overlay_plane_scanout: true, ..FrameFlags::none() }
    }

    /// No flag.
    pub fn empty() -> (flags: FrameFlags)
        ensures
            flags == FrameFlags::none(),
    {
        FrameFlags {
            allow_primary_plane_scanout: false,
            allow_primary_plane_scanout_any: false,
            allow_overlay_plane_scanout: false,
            allow_cursor_plane_scanout: false,
            skip_cursor_only_updates: false,
            fullscreen_pacing: false,
        }
    }

    /// The flags that are in `self` or in `other`.
    pub fn union(self, other: FrameFlags) -> (flags: FrameFlags)
        ensures
            flags == self.plus(other),
    {
        FrameFlags {
            allow_primary_plane_scanout: self.allow_primary_plane_scanout
                || other.allow_primary_plane_scanout,
            allow_primary_plane_scanout_any: self.allow_primary_plane_scanout_any
                || other.allow_primary_plane_scanout_any,
            allow_overlay_plane_scanout: self.allow_overlay_plane_scanout
                || other.allow_overlay_plane_scanout,
            allow_cursor_plane_scanout: self.allow_cursor_plane_scanout
                || other.allow_cursor_plane_scanout,
            skip_cursor_only_updates: self.skip_cursor_only_updates
                || other.skip_cursor_only_updates,
            fullscreen_pacing: self.fullscreen_pacing || other.fullscreen_pacing,
        }
    }

    /// The flags of `self` that are not in `other`.
    pub fn difference(self, other: FrameFlags) -> (flags: FrameFlags)
        ensures
            flags == self.without(other),
    {
        FrameFlags {
            allow_primary_plane_scanout: self.allow_primary_plane_scanout
                && !other.allow_primary_plane_scanout,
            allow_primary_plane_scanout_any: self.allow_primary_plane_scanout_any
                && !other.allow_primary_plane_scanout_any,
            allow_overlay_plane_scanout: self.allow_overlay_plane_scanout
                && !other.allow_overlay_plane_scanout,
            allow_cursor_plane_scanout: self.allow_cursor_plane_scanout
                && !other.allow_cursor_plane_scanout,
            skip_cursor_only_updates: self.skip_cursor_only_updates
                && !other.skip_cursor_only_updates,
            fullscreen_pacing: self.fullscreen_pacing && !other.fullscreen_pacing,
        }
    }

    /// Whether every flag of `other` is in `self`.
    pub fn contains(self, other: FrameFlags) -> (all: bool)
        ensures
            all == (self.plus(other) == self),
    {
        self.union(other) == self
    }
}

impl Default for FrameFlags {
    fn default() -> (flags: Self)
        ensures
            flags == FrameFlags::standard(),
    {
        FrameFlags {
            allow_primary_plane_scanout: true,
            allow_overlay_plane_scanout: true,
            allow_cursor_plane_scanout: true,
            ..FrameFlags::empty()
        }
    }
}

/// Reads whether a variable is set to a word for "yes"; `None` where it is unset.
pub fn bool_var(environment: &Vec<(String, String)>, name: &str) -> (value: Option<bool>)
    ensures
        value == match variable(environment@, name@) {
            None => None,
            Some(text) => Some(is_enabled(Some(text))),
        },
{
    match find_variable(environment, name) {
        Some(text) => Some(parse_bool_token(text)),
        None => None,
    }
}

/// Switches for debugging and for drivers with broken planes.
#[derive(Debug, Clone, Copy, PartialEq, Eq, Structural)]
pub struct RenderSwitches {
    pub fullscreen_skip_other_surface: bool,
    pub fullscreen_skip_other_surface_always: bool,
    pub disable_direct_scanout: bool,
    pub disable_cursor_plane: bool,
    pub disable_overlay_scanout: bool,
}

/// Whether a variable is set to a word for "yes", or `default` where it is unset.
pub open spec fn switch_of(
    environment: Seq<(String, String)>,
    name: Seq<char>,
    default: bool,
) -> bool {
    match variable(environment, name) {
        None => default,
        Some(text) => is_enabled(Some(text)),
    }
}

impl RenderSwitches {
    /// Reads the switches from the variables of an environment.
    pub fn from_environment(environment: &Vec<(String, String)>) -> (switches: RenderSwitches)
        ensures
            switches.fullscreen_skip_other_surface == switch_of(
                environment@,
                "COSMIC_FULLSCREEN_SKIP_OTHER_SURFACE"@,
                true,
            ),
            switches.fullscreen_skip_other_surface_always == switch_of(
                environment@,
                "COSMIC_FULLSCREEN_SKIP_OTHER_SURFACE_ALWAYS"@,
                false,
            ),
            switches.disable_direct_scanout == switch_of(
                environment@,
                "COSMIC_DISABLE_DIRECT_SCANOUT"@,
                false,
            ),
            switches.disable_cursor_plane == switch_of(
                environment@,
                "COSMIC_DISABLE_CURSOR_PLANE"@,
                false,
            ),
            switches.disable_overlay_scanout == switch_of(
                environment@,
                "COSMIC_DISABLE_OVERLAY_SCANOUT"@,
                false,
            ),
    {
        RenderSwitches {
            fullscreen_skip_other_surface: bool_var(
                environment,
                "COSMIC_FULLSCREEN_SKIP_OTHER_SURFACE",
            ).unwrap_or(true),
            fullscreen_skip_other_surface_always: bool_var(
                environment,
                "COSMIC_FULLSCREEN_SKIP_OTHER_SURFACE_ALWAYS",
            ).unwrap_or(false),
            disable_direct_scanout: bool_var(
                environment,
                "COSMIC_DISABLE_DIRECT_SCANOUT",
            ).unwrap_or(false),
            disable_cursor_plane: bool_var(environment, "COSMIC_DISABLE_CURSOR_PLANE").unwrap_or(
                false,
            ),
            disable_overlay_scanout: bool_var(
                environment,
                "COSMIC_DISABLE_OVERLAY_SCANOUT",
            ).unwrap_or(false),
        }
    }

    /// The flags that the switches take away on an SDR output.
    pub open spec fn disabled(self) -> FrameFlags {
        let planes = if self.disable_direct_scanout {
            FrameFlags::direct_planes()
        } else if self.disable_overlay_scanout {
            FrameFlags::overlay_planes()
        } else {
            FrameFlags::none()
        };
        FrameFlags { allow_cursor_plane_scanout: self.disable_cursor_plane, ..planes }
    }

    /// The flags that the switches take away on an SDR output.
    fn disabled_flags(self) -> (flags: FrameFlags)
        ensures
            flags == self.disabled(),
    {
        FrameFlags {
            allow_primary_plane_scanout: self.disable_direct_scanout,
            allow_primary_plane_scanout_any: self.disable_direct_scanout,
            allow_overlay_plane_scanout: self.disable_direct_scanout
                || self.disable_overlay_scanout,
            allow_cursor_plane_scanout: self.disable_cursor_plane,
            skip_cursor_only_updates: false,
            fullscreen_pacing: false,
        }
    }

    /// The flags that a client of the output may not change: those that HDR
    /// encoding rules out, or those that the switches take away.
    pub open spec fn withheld(self, hdr_enabled: bool) -> FrameFlags {
        let planes = if hdr_enabled {
            FrameFlags::composited_planes()
        } else if self.disable_direct_scanout {
            FrameFlags::direct_planes()
        } else {
            FrameFlags::none()
        };
        FrameFlags {
            allow_overlay_plane_scanout: planes.allow_overlay_plane_scanout
                || self.disable_overlay_scanout,
            allow_cursor_plane_scanout: self.disable_cursor_plane,
            ..planes
        }
    }

    fn withheld_flags(self, hdr_enabled: bool) -> (flags: FrameFlags)
        ensures
            flags == self.withheld(hdr_enabled),
    {
        FrameFlags {
            allow_primary_plane_scanout: hdr_enabled || self.disable_direct_scanout,
            allow_primary_plane_scanout_any: !hdr_enabled && self.disable_direct_scanout,
            allow_overlay_plane_scanout: hdr_enabled || self.disable_direct_scanout
                || self.disable_overlay_scanout,
            allow_cursor_plane_scanout: self.disable_cursor_plane,
            skip_cursor_only_updates: false,
            fullscreen_pacing: false,
        }
    }
}

/// The flags of an output that is resumed: without those that are disabled.
pub fn flags_on_resume(flags: FrameFlags, switches: RenderSwitches) -> (resumed: FrameFlags)
    ensures
        resumed == flags.without(switches.disabled()),
{
    flags.difference(switches.disabled_flags())
}

/// The flags of an output whose HDR encoding was switched.
pub open spec fn hdr_switched(
    flags: FrameFlags,
    enabled: bool,
    switches: RenderSwitches,
) -> FrameFlags {
    if enabled {
        flags.without(FrameFlags::composited_planes())
    } else {
        flags.plus(FrameFlags::standard()).without(switches.disabled())
    }
}

/// Switches HDR encoding: with it, everything that the compositor draws has to
/// be encoded, so elements cannot be put on planes as they are; without it, the
/// usual planes are back.
pub fn flags_on_hdr(flags: FrameFlags, enabled: bool, switches: RenderSwitches) -> (switched:
    FrameFlags)
    ensures
        switched == hdr_switched(flags, enabled, switches),
{
    if enabled {
        flags.difference(
            FrameFlags {
                allow_primary_plane_scanout: true,
                allow_overlay_plane_scanout: true,
                ..FrameFlags::empty()
            },
        )
    } else {
        flags.union(FrameFlags::default()).difference(switches.disabled_flags())
    }
}

/// The flags of an output once `wanted` were allowed or forbidden.
pub open spec fn flags_allowed(
    flags: FrameFlags,
    hdr_enabled: bool,
    switches: RenderSwitches,
    allow: bool,
    wanted: FrameFlags,
) -> FrameFlags {
    let usable = wanted.without(switches.withheld(hdr_enabled));
    let changed = if allow {
        flags.plus(usable)
    } else {
        flags.without(usable)
    };
    if hdr_enabled {
        changed.without(FrameFlags::composited_planes())
    } else {
        changed
    }
}

/// Allows or forbids flags on an output, as far as its encoding and the
/// switches leave a choice.
pub fn allow_frame_flags(
    flags: FrameFlags,
    hdr_enabled: bool,
    switches: RenderSwitches,
    allow: bool,
    wanted: FrameFlags,
) -> (changed: FrameFlags)
    ensures
        changed == flags_allowed(flags, hdr_enabled, switches, allow, wanted),
{
    let usable: FrameFlags = wanted.difference(switches.withheld_flags(hdr_enabled));
    let changed: FrameFlags = if allow {
        flags.union(usable)
    } else {
        flags.difference(usable)
    };
    if hdr_enabled {
        changed.difference(
            FrameFlags {
                allow_primary_plane_scanout: true,
                allow_overlay_plane_scanout: true,
                ..FrameFlags::empty()
            },
        )
    } else {
        changed
    }
}

/// No element bypasses the encoding of an HDR output on a primary plane in the
/// swapchain's format or on an overlay plane.
pub open spec fn flags_fit_encoding(flags: FrameFlags, hdr_enabled: bool) -> bool {
    hdr_enabled ==> !flags.allow_primary_plane_scanout && !flags.allow_overlay_plane_scanout
}

/// Whatever is switched, allowed or resumed, the flags fit the encoding.
pub proof fn lemma_flags_fit_encoding(
    flags: FrameFlags,
    hdr_enabled: bool,
    switches: RenderSwitches,
    allow: bool,
    wanted: FrameFlags,
)
    ensures
        flags_fit_encoding(hdr_switched(flags, hdr_enabled, switches), hdr_enabled),
        flags_fit_encoding(
            flags_allowed(flags, hdr_enabled, switches, allow, wanted),
            hdr_enabled,
        ),
        flags_fit_encoding(flags, hdr_enabled) ==> flags_fit_encoding(
            flags.without(switches.disabled()),
            hdr_enabled,
        ),
{
}

/// Disabling direct scanout takes away primary and overlay planes, but leaves
/// the cursor plane to its own switch.
pub proof fn lemma_direct_scanout_keeps_cursor_plane(flags: FrameFlags, switches: RenderSwitches)
    requires
        switches.disable_direct_scanout,
    ensures
        !flags.without(switches.disabled()).allow_primary_plane_scanout,
        !flags.without(switches.disabled()).allow_primary_plane_scanout_any,
        !flags.without(switches.disabled()).allow_overlay_plane_scanout,
        flags.without(switches.disabled()).allow_cursor_plane_scanout == (
        flags.allow_cursor_plane_scanout && !switches.disable_cursor_plane),
{
}

/// A flag is in the union of two sets exactly when it is in one of them, in their
/// difference exactly when it is in the first alone, and a set contains another
/// exactly when adding that changes nothing.
pub proof fn lemma_flags_are_sets(
    a: FrameFlags,
    b: FrameFlags,
    union: FrameFlags,
    difference: FrameFlags,
    all: bool,
    empty: FrameFlags,
)
    requires
        call_ensures(FrameFlags::union, (a, b), union),
        call_ensures(FrameFlags::difference, (a, b), difference),
        call_ensures(FrameFlags::contains, (a, b), all),
        call_ensures(FrameFlags::empty, (), empty),
    ensures
        union.allow_primary_plane_scanout <==> a.allow_primary_plane_scanout || b.allow_primary_plane_scanout,
        union.allow_primary_plane_scanout_any <==> a.allow_primary_plane_scanout_any || b.allow_primary_plane_scanout_any,
        union.allow_overlay_plane_scanout <==> a.allow_overlay_plane_scanout || b.allow_overlay_plane_scanout,
        union.allow_cursor_plane_scanout <==> a.allow_cursor_plane_scanout || b.allow_cursor_plane_scanout,
        union.skip_cursor_only_updates <==> a.skip_cursor_only_updates || b.skip_cursor_only_updates,
        union.fullscreen_pacing <==> a.fullscreen_pacing || b.fullscreen_pacing,
        difference.allow_primary_plane_scanout <==> a.allow_primary_plane_scanout && !b.allow_primary_plane_scanout,
        difference.allow_primary_plane_scanout_any <==> a.allow_primary_plane_scanout_any && !b.allow_primary_plane_scanout_any,
        difference.allow_overlay_plane_scanout <==> a.allow_overlay_plane_scanout && !b.allow_overlay_plane_scanout,
        difference.allow_cursor_plane_scanout <==> a.allow_cursor_plane_scanout && !b.allow_cursor_plane_scanout,
        difference.skip_cursor_only_updates <==> a.skip_cursor_only_updates && !b.skip_cursor_only_updates,
        difference.fullscreen_pacing <==> a.fullscreen_pacing && !b.fullscreen_pacing,
        all && b.allow_primary_plane_scanout ==> a.allow_primary_plane_scanout,
        all && b.allow_primary_plane_scanout_any ==> a.allow_primary_plane_scanout_any,
        all && b.allow_overlay_plane_scanout ==> a.allow_overlay_plane_scanout,
        all && b.allow_cursor_plane_scanout ==> a.allow_cursor_plane_scanout,
        all && b.skip_cursor_only_updates ==> a.skip_cursor_only_updates,
        all && b.fullscreen_pacing ==> a.fullscreen_pacing,
        !empty.allow_primary_plane_scanout,
        !empty.allow_primary_plane_scanout_any,
        !empty.allow_overlay_plane_scanout,
        !empty.allow_cursor_plane_scanout,
        !empty.skip_cursor_only_updates,
        !empty.fullscreen_pacing,
        (b.allow_primary_plane_scanout ==> a.allow_primary_plane_scanout) && (b.allow_primary_plane_scanout_any ==> a.allow_primary_plane_scanout_any) && (b.allow_overlay_plane_scanout ==> a.allow_overlay_plane_scanout) && (b.allow_cursor_plane_scanout ==> a.allow_cursor_plane_scanout) && (b.skip_cursor_only_updates ==> a.skip_cursor_only_updates) && (b.fullscreen_pacing ==> a.fullscreen_pacing) ==> all,
{
}

/// A resumed output uses each plane that it used before, unless a switch is against it.
pub proof fn lemma_resumed_flags(
    flags: FrameFlags,
    switches: RenderSwitches,
    resumed: FrameFlags,
)
    requires
        call_ensures(flags_on_resume, (flags, switches), resumed),
    ensures
        resumed.allow_primary_plane_scanout <==> flags.allow_primary_plane_scanout
            && !switches.disable_direct_scanout,
        resumed.allow_primary_plane_scanout_any <==> flags.allow_primary_plane_scanout_any
            && !switches.disable_direct_scanout,
        resumed.allow_overlay_plane_scanout <==> flags.allow_overlay_plane_scanout
            && !switches.disable_direct_scanout && !switches.disable_overlay_scanout,
        resumed.allow_cursor_plane_scanout <==> flags.allow_cursor_plane_scanout
            && !switches.disable_cursor_plane,
        resumed.skip_cursor_only_updates == flags.skip_cursor_only_updates,
        resumed.fullscreen_pacing == flags.fullscreen_pacing,
{
}

/// Switching HDR on takes the primary plane in the swapchain's format and overlay
/// planes away, and nothing else; switching it off brings every plane back that no
/// switch is against.
pub proof fn lemma_flags_follow_hdr(
    flags: FrameFlags,
    enabled: bool,
    switches: RenderSwitches,
    switched: FrameFlags,
)
    requires
        call_ensures(flags_on_hdr, (flags, enabled, switches), switched),
    ensures
        enabled ==> switched == (FrameFlags {
            allow_primary_plane_scanout: false,
            allow_overlay_plane_scanout: false,
            ..flags
        }),
        !enabled ==> {
            &&& switched.allow_primary_plane_scanout <==> !switches.disable_direct_scanout
            &&& switched.allow_primary_plane_scanout_any <==> flags.allow_primary_plane_scanout_any
                && !switches.disable_direct_scanout
            &&& switched.allow_overlay_plane_scanout <==> !switches.disable_direct_scanout
                && !switches.disable_overlay_scanout
            &&& switched.allow_cursor_plane_scanout <==> !switches.disable_cursor_plane
            &&& switched.skip_cursor_only_updates == flags.skip_cursor_only_updates
            &&& switched.fullscreen_pacing == flags.fullscreen_pacing
        },
{
}

/// Allowing or forbidding flags changes those that are wanted and no others, and of
/// these only what neither the encoding nor a switch withholds; an HDR output stays
/// without the planes that bypass its encoding.
pub proof fn lemma_flags_change_as_wanted(
    flags: FrameFlags,
    hdr_enabled: bool,
    switches: RenderSwitches,
    allow: bool,
    wanted: FrameFlags,
    changed: FrameFlags,
)
    requires
        call_ensures(allow_frame_flags, (flags, hdr_enabled, switches, allow, wanted), changed),
    ensures
        hdr_enabled ==> !changed.allow_primary_plane_scanout
            && !changed.allow_overlay_plane_scanout,
        !hdr_enabled && (!wanted.allow_primary_plane_scanout || switches.disable_direct_scanout)
            ==> changed.allow_primary_plane_scanout == flags.allow_primary_plane_scanout,
        !hdr_enabled && wanted.allow_primary_plane_scanout && !switches.disable_direct_scanout
            ==> changed.allow_primary_plane_scanout == allow,
        !wanted.allow_primary_plane_scanout_any || (!hdr_enabled
            && switches.disable_direct_scanout) ==> changed.allow_primary_plane_scanout_any
            == flags.allow_primary_plane_scanout_any,
        wanted.allow_primary_plane_scanout_any && (hdr_enabled || !switches.disable_direct_scanout)
            ==> changed.allow_primary_plane_scanout_any == allow,
        !hdr_enabled && (!wanted.allow_overlay_plane_scanout || switches.disable_direct_scanout
            || switches.disable_overlay_scanout) ==> changed.allow_overlay_plane_scanout
            == flags.allow_overlay_plane_scanout,
        !hdr_enabled && wanted.allow_overlay_plane_scanout && !switches.disable_direct_scanout
            && !switches.disable_overlay_scanout ==> changed.allow_overlay_plane_scanout == allow,
        !wanted.allow_cursor_plane_scanout || switches.disable_cursor_plane
            ==> changed.allow_cursor_plane_scanout == flags.allow_cursor_plane_scanout,
        wanted.allow_cursor_plane_scanout && !switches.disable_cursor_plane
            ==> changed.allow_cursor_plane_scanout == allow,
        wanted.skip_cursor_only_updates ==> changed.skip_cursor_only_updates == allow,
        !wanted.skip_cursor_only_updates ==> changed.skip_cursor_only_updates
            == flags.skip_cursor_only_updates,
        wanted.fullscreen_pacing ==> changed.fullscreen_pacing == allow,
        !wanted.fullscreen_pacing ==> changed.fullscreen_pacing == flags.fullscreen_pacing,
{
}

/// Each switch is the variable of its name: updates of others wait for a fullscreen
/// surface unless that is switched off, and any other switch is off unless it is
/// switched on.
pub proof fn lemma_switches_are_their_variables(
    environment: &Vec<(String, String)>,
    switches: RenderSwitches,
    fullscreen_skip_other_surface: Option<&str>,
    fullscreen_skip_other_surface_always: Option<&str>,
    disable_direct_scanout: Option<&str>,
    disable_cursor_plane: Option<&str>,
    disable_overlay_scanout: Option<&str>,
    word: &str,
    yes: bool,
)
    requires
        call_ensures(RenderSwitches::from_environment, (environment,), switches),
        call_ensures(
            find_variable,
            (environment, "COSMIC_FULLSCREEN_SKIP_OTHER_SURFACE"),
            fullscreen_skip_other_surface,
        ),
        call_ensures(
            find_variable,
            (environment, "COSMIC_FULLSCREEN_SKIP_OTHER_SURFACE_ALWAYS"),
            fullscreen_skip_other_surface_always,
        ),
        call_ensures(
            find_variable,
            (environment, "COSMIC_DISABLE_DIRECT_SCANOUT"),
            disable_direct_scanout,
        ),
        call_ensures(
            find_variable,
            (environment, "COSMIC_DISABLE_CURSOR_PLANE"),
            disable_cursor_plane,
        ),
        call_ensures(
            find_variable,
            (environment, "COSMIC_DISABLE_OVERLAY_SCANOUT"),
            disable_overlay_scanout,
        ),
        call_ensures(parse_bool_token, (word,), yes),
    ensures
        fullscreen_skip_other_surface is None ==> switches.fullscreen_skip_other_surface,
        fullscreen_skip_other_surface matches Some(text) ==> (text@ == word@ ==> switches.fullscreen_skip_other_surface == yes),
        fullscreen_skip_other_surface_always is None ==> !switches.fullscreen_skip_other_surface_always,
        fullscreen_skip_other_surface_always matches Some(text) ==> (text@ == word@ ==> switches.fullscreen_skip_other_surface_always == yes),
        disable_direct_scanout is None ==> !switches.disable_direct_scanout,
        disable_direct_scanout matches Some(text) ==> (text@ == word@ ==> switches.disable_direct_scanout == yes),
        disable_cursor_plane is None ==> !switches.disable_cursor_plane,
        disable_cursor_plane matches Some(text) ==> (text@ == word@ ==> switches.disable_cursor_plane == yes),
        disable_overlay_scanout is None ==> !switches.disable_overlay_scanout,
        disable_overlay_scanout matches Some(text) ==> (text@ == word@ ==> switches.disable_overlay_scanout == yes),
{
}

/// A variable is read as yes or no where it is set, and not at all otherwise.
pub proof fn lemma_variable_is_read_where_set(
    environment: &Vec<(String, String)>,
    name: &str,
    value: Option<bool>,
    text: Option<&str>,
    word: &str,
    yes: bool,
)
    requires
        call_ensures(bool_var, (environment, name), value),
        call_ensures(find_variable, (environment, name), text),
        call_ensures(parse_bool_token, (word,), yes),
    ensures
        value is Some <==> text is Some,
        text matches Some(own) ==> (own@ == word@ ==> value == Some(yes)),
{
}

/// An output uses every kind of plane to begin with, in the swapchain's format, and
/// nothing else.
pub proof fn lemma_usual_flags(flags: FrameFlags)
    requires
        call_ensures(FrameFlags::default, (), flags),
    ensures
        flags.allow_primary_plane_scanout && flags.allow_overlay_plane_scanout
            && flags.allow_cursor_plane_scanout,
        !flags.allow_primary_plane_scanout_any && !flags.skip_cursor_only_updates
            && !flags.fullscreen_pacing,
{
}

} // verus!
