//! The HDR policy of a session, read from environment values.
use crate::text::{
    ascii_lowercase, eq_ignore_ascii_case, lowercase, parse_u16, parse_u64, pieces, same_text,
    split_on, to_lowercase, trimmed, unsigned_value,
};
use vstd::prelude::*;

verus! {

/// The reference white used where none is configured, in cd/m².
pub const DEFAULT_REFERENCE_WHITE: u16 = 203;

/// The default of both shutdown delays, in milliseconds.
pub const DEFAULT_DELAY_MS: u64 = 5_000;

/// The range that configured reference whites are held to, in cd/m².
#[derive(Debug, Clone, Copy, PartialEq, Eq, Structural)]
pub struct ReferenceWhiteRange {
    pub min: u16,
    pub max: u16,
}

impl ReferenceWhiteRange {
    /// A range holds at least one value.
    pub open spec fn wf(self) -> bool {
        self.min <= self.max
    }

    /// The value of the range that is closest to `white`.
    pub open spec fn spec_clamp(self, white: u16) -> u16 {
        if white < self.min {
            self.min
        } else if white > self.max {
            self.max
        } else {
            white
        }
    }

    /// The value of the range that is closest to `white`.
    pub fn clamp_white(self, white: u16) -> (clamped: u16)
        requires
            self.wf(),
        ensures
            clamped == self.spec_clamp(white),
            self.min <= clamped <= self.max,
    {
        if white < self.min {
            self.min
        } else if white > self.max {
            self.max
        } else {
            white
        }
    }
}

/// Whether a lower-case text says "yes".
pub open spec fn is_true_token(lower: Seq<char>) -> bool {
    lower == "1"@ || lower == "true"@ || lower == "yes"@ || lower == "y"@
}

/// Whether a lower-case text is one of the words for "yes".
pub fn is_true_word(lower: &str) -> (yes: bool)
    ensures
        yes == is_true_token(lower@),
{
    same_text(lower, "1") || same_text(lower, "true") || same_text(lower, "yes") || same_text(
        lower,
        "y",
    )
}

/// Whether `value` says "yes", in any case.
pub fn parse_bool_token(value: &str) -> (yes: bool)
    ensures
        yes == is_true_token(lowercase(value@)),
        (forall|i: int| 0 <= i < value@.len() ==> value@[i] as u32 <= 127) ==> yes
            == is_true_token(ascii_lowercase(value@)),
{
    let lower: String = to_lowercase(value);
    is_true_word(lower.as_str())
}

/// How SDR content is decoded before HDR encoding.
#[derive(Debug)]
pub enum SdrGamma {
    /// The usual display gamma.
    Display,
    /// The piecewise sRGB curve.
    Srgb,
    /// The pure power written in this text, if it is a number.
    Power(String),
}

/// The HDR policy of a session.
#[derive(Debug)]
pub struct HdrPolicy {
    /// HDR support is on unless it was switched off for debugging.
    pub experiment_enabled: bool,
    pub require_active: bool,
    pub isolate_output: bool,
    /// Comma-separated connector names.
    pub output: Option<String>,
    pub reference_white: u16,
    pub sdr_gamma: SdrGamma,
    /// How far colors are stretched to the panel's native gamut, as written.
    pub gamut_stretch: Option<String>,
    /// Send the panel's EDID luminance values instead of zeros.
    pub metadata_luminance_from_panel: bool,
    /// In milliseconds.
    pub safe_exit_grace: u64,
    /// In milliseconds.
    pub teardown_timeout: u64,
}

/// The value of the first variable called `name`.
pub open spec fn variable(environment: Seq<(String, String)>, name: Seq<char>) -> Option<Seq<char>>
    decreases environment.len(),
{
    if environment.len() == 0 {
        None
    } else if environment[0].0@ == name {
        Some(environment[0].1@)
    } else {
        variable(environment.drop_first(), name)
    }
}

/// The value of the first variable called `name`.
pub fn find_variable<'a>(environment: &'a Vec<(String, String)>, name: &str) -> (value: Option<
    &'a str,
>)
    ensures
        value is Some <==> variable(environment@, name@) is Some,
        value matches Some(text) ==> variable(environment@, name@) == Some(text@),
{
    let mut i: usize = 0;
    proof {
        assert(environment@.subrange(0, environment@.len() as int) == environment@);
    }
    while i < environment.len()
        invariant
            i <= environment.len(),
            variable(environment@, name@) == variable(
                environment@.subrange(i as int, environment@.len() as int),
                name@,
            ),
        decreases environment.len() - i,
    {
        let ghost rest = environment@.subrange(i as int, environment@.len() as int);
        if same_text(environment[i].0.as_str(), name) {
            return Some(environment[i].1.as_str());
        }
        proof {
            assert(rest.drop_first() == environment@.subrange(i + 1, environment@.len() as int));
        }
        i = i + 1;
    }
    None
}

/// Whether a variable is set to a word for "yes".
pub open spec fn is_enabled(value: Option<Seq<char>>) -> bool {
    value matches Some(text) && is_true_token(lowercase(text))
}

/// `value` in milliseconds, or `default`, held to the range.
pub open spec fn bounded_ms(value: Option<Seq<char>>, default: u64, min: u64, max: u64) -> int {
    let wanted: int = match value {
        Some(text) => match unsigned_value(text, 10, u64::MAX as nat) {
            Some(number) => number as int,
            None => default as int,
        },
        None => default as int,
    };
    if wanted < min {
        min as int
    } else if wanted > max {
        max as int
    } else {
        wanted
    }
}

fn enabled(value: Option<&str>) -> (yes: bool)
    ensures
        yes == is_enabled(text_of(value)),
{
    match value {
        Some(text) => parse_bool_token(text),
        None => false,
    }
}

/// The text behind an optional string slice.
pub open spec fn text_of(value: Option<&str>) -> Option<Seq<char>> {
    match value {
        Some(text) => Some(text@),
        None => None,
    }
}

fn bounded_milliseconds(value: Option<&str>, default: u64, min: u64, max: u64) -> (ms: u64)
    requires
        min <= max,
    ensures
        ms == bounded_ms(text_of(value), default, min, max),
{
    let wanted: u64 = match value {
        Some(text) => match parse_u64(text) {
            Some(number) => number,
            None => default,
        },
        None => default,
    };
    if wanted < min {
        min
    } else if wanted > max {
        max
    } else {
        wanted
    }
}

/// The reference white that a variable asks for, within the range.
pub open spec fn wanted_reference_white(
    value: Option<Seq<char>>,
    range: ReferenceWhiteRange,
) -> u16 {
    match value {
        Some(text) => match unsigned_value(text, 10, u16::MAX as nat) {
            Some(number) => range.spec_clamp(number as u16),
            None => range.spec_clamp(DEFAULT_REFERENCE_WHITE),
        },
        None => range.spec_clamp(DEFAULT_REFERENCE_WHITE),
    }
}

/// Whether `gamma` is what a variable asks for.
pub open spec fn is_wanted_gamma(gamma: SdrGamma, value: Option<Seq<char>>) -> bool {
    match value {
        None => gamma is Display,
        Some(text) => if ascii_lowercase(text) == ascii_lowercase("srgb"@) {
            gamma is Srgb
        } else {
            gamma matches SdrGamma::Power(power) && power@ == trimmed(text)
        },
    }
}

/// The text behind an optional string.
pub open spec fn string_of(value: Option<String>) -> Option<Seq<char>> {
    match value {
        Some(text) => Some(text@),
        None => None,
    }
}

/// The names in a comma-separated list: trimmed, without empty ones.
pub open spec fn listed_names(list: Seq<char>) -> Seq<Seq<char>> {
    named(pieces(list, ','))
}

/// The trimmed pieces that are not empty.
pub open spec fn named(parts: Seq<Seq<char>>) -> Seq<Seq<char>>
    decreases parts.len(),
{
    if parts.len() == 0 {
        Seq::empty()
    } else {
        let rest = named(parts.drop_last());
        if trimmed(parts.last()).len() > 0 {
            rest.push(trimmed(parts.last()))
        } else {
            rest
        }
    }
}

impl HdrPolicy {
    /// The connectors that this policy names.
    pub open spec fn names(self) -> Seq<Seq<char>> {
        match self.output {
            Some(list) => listed_names(list@),
            None => listed_names(Seq::empty()),
        }
    }

    /// Whether this is the policy of an environment.
    pub open spec fn is_read_from(
        self,
        environment: Seq<(String, String)>,
        range: ReferenceWhiteRange,
    ) -> bool {
        &&& self.experiment_enabled == (variable(environment, "COSMIC_HDR_EXPERIMENT"@) is None
            || is_enabled(variable(environment, "COSMIC_HDR_EXPERIMENT"@)))
        &&& self.require_active == is_enabled(
            variable(environment, "COSMIC_HDR_REQUIRE_ACTIVE"@),
        )
        &&& self.isolate_output == is_enabled(
            variable(environment, "COSMIC_HDR_ISOLATE_OUTPUT"@),
        )
        &&& string_of(self.output) == variable(environment, "COSMIC_HDR_OUTPUT"@)
        &&& self.reference_white == wanted_reference_white(
            variable(environment, "COSMIC_HDR_REFERENCE_WHITE"@),
            range,
        )
        &&& is_wanted_gamma(self.sdr_gamma, variable(environment, "COSMIC_HDR_SDR_GAMMA"@))
        &&& string_of(self.gamut_stretch) == match variable(
            environment,
            "COSMIC_HDR_GAMUT_STRETCH"@,
        ) {
            Some(text) => Some(trimmed(text)),
            None => None,
        }
        &&& self.metadata_luminance_from_panel == (variable(
            environment,
            "COSMIC_HDR_METADATA_LUMINANCE"@,
        ) matches Some(text) && ascii_lowercase(text) == ascii_lowercase("panel"@))
        &&& self.safe_exit_grace == bounded_ms(
            variable(environment, "COSMIC_HDR_SAFE_EXIT_GRACE_MS"@),
            DEFAULT_DELAY_MS,
            1_000,
            15_000,
        )
        &&& self.teardown_timeout == bounded_ms(
            variable(environment, "COSMIC_HDR_TEARDOWN_TIMEOUT_MS"@),
            DEFAULT_DELAY_MS,
            100,
            15_000,
        )
    }

    /// Reads the policy from the variables of an environment.
    pub fn from_lookup(
        environment: &Vec<(String, String)>,
        range: ReferenceWhiteRange,
    ) -> (policy: HdrPolicy)
        requires
            range.wf(),
        ensures
            policy.is_read_from(environment@, range),
    {
        let experiment_enabled: bool = match find_variable(environment, "COSMIC_HDR_EXPERIMENT") {
            Some(value) => parse_bool_token(value),
            None => true,
        };
        let output: Option<String> = match find_variable(environment, "COSMIC_HDR_OUTPUT") {
            Some(value) => Some(value.to_owned()),
            None => None,
        };
        let white: Option<u16> = match find_variable(environment, "COSMIC_HDR_REFERENCE_WHITE") {
            Some(value) => parse_u16(value),
            None => None,
        };
        let sdr_gamma: SdrGamma = match find_variable(environment, "COSMIC_HDR_SDR_GAMMA") {
            None => SdrGamma::Display,
            Some(value) => if eq_ignore_ascii_case(value, "srgb") {
                SdrGamma::Srgb
            } else {
                SdrGamma::Power(value.trim().to_owned())
            },
        };
        let gamut_stretch: Option<String> = match find_variable(
            environment,
            "COSMIC_HDR_GAMUT_STRETCH",
        ) {
            Some(value) => Some(value.trim().to_owned()),
            None => None,
        };
        let metadata_luminance_from_panel: bool = match find_variable(
            environment,
            "COSMIC_HDR_METADATA_LUMINANCE",
        ) {
            Some(value) => eq_ignore_ascii_case(value, "panel"),
            None => false,
        };
        HdrPolicy {
            experiment_enabled,
            require_active: enabled(find_variable(environment, "COSMIC_HDR_REQUIRE_ACTIVE")),
            isolate_output: enabled(find_variable(environment, "COSMIC_HDR_ISOLATE_OUTPUT")),
            output,
            reference_white: match white {
                Some(white) => range.clamp_white(white),
                None => range.clamp_white(DEFAULT_REFERENCE_WHITE),
            },
            sdr_gamma,
            gamut_stretch,
            metadata_luminance_from_panel,
            safe_exit_grace: bounded_milliseconds(
                find_variable(environment, "COSMIC_HDR_SAFE_EXIT_GRACE_MS"),
                DEFAULT_DELAY_MS,
                1_000,
                15_000,
            ),
            teardown_timeout: bounded_milliseconds(
                find_variable(environment, "COSMIC_HDR_TEARDOWN_TIMEOUT_MS"),
                DEFAULT_DELAY_MS,
                100,
                15_000,
            ),
        }
    }

    /// The connectors that this policy names, in order.
    pub fn outputs<'a>(&'a self) -> (names: Vec<&'a str>)
        ensures
            names.len() == self.names().len(),
            forall|i: int| 0 <= i < names.len() ==> (#[trigger] names[i])@ == self.names()[i],
    {
        let list: &'a str = match &self.output {
            Some(list) => list.as_str(),
            None => "",
        };
        proof {
            reveal_strlit("");
            assert(""@ =~= Seq::empty());
        }
        let parts: Vec<&'a str> = split_on(list, ',');
        let ghost all = pieces(list@, ',');
        let mut names: Vec<&'a str> = Vec::new();
        assert(all.take(0) =~= Seq::empty());
        for i in 0..parts.len()
            invariant
                parts.len() == all.len(),
                forall|j: int| 0 <= j < parts.len() ==> (#[trigger] parts[j])@ == all[j],
                names.len() == named(all.take(i as int)).len(),
                forall|j: int|
                    0 <= j < names.len() ==> (#[trigger] names[j])@ == named(
                        all.take(i as int),
                    )[j],
        {
            assert(all.take(i + 1).drop_last() =~= all.take(i as int));
            assert(all.take(i + 1).last() == all[i as int]);
            let name: &'a str = parts[i].trim();
            if !name.is_empty() {
                names.push(name);
            }
        }
        assert(all.take(all.len() as int) =~= all);
        names
    }

    /// Whether this policy names the connector.
    pub fn output_requested(&self, name: &str) -> (requested: bool)
        ensures
            requested == self.names().contains(name@),
    {
        let names: Vec<&str> = self.outputs();
        for i in 0..names.len()
            invariant
                names.len() == self.names().len(),
                forall|j: int| 0 <= j < names.len() ==> (#[trigger] names[j])@ == self.names()[j],
                forall|j: int| 0 <= j < i ==> self.names()[j] != name@,
        {
            if same_text(names[i], name) {
                assert(self.names()[i as int] == name@);
                return true;
            }
        }
        false
    }

    /// The first named connector. Strict mode fails closed only when this one
    /// cannot activate.
    pub fn primary_output(&self) -> (name: Option<&str>)
        ensures
            name is Some <==> self.names().len() > 0,
            name matches Some(text) ==> text@ == self.names()[0] && self.names().contains(text@),
    {
        let names: Vec<&str> = self.outputs();
        if names.len() > 0 {
            assert(self.names()[0] == names[0]@);
            Some(names[0])
        } else {
            None
        }
    }
}

/// Every policy keeps its bounds, whatever the environment holds.
pub proof fn lemma_policy_is_bounded(
    policy: HdrPolicy,
    environment: Seq<(String, String)>,
    range: ReferenceWhiteRange,
)
    requires
        range.wf(),
        policy.is_read_from(environment, range),
    ensures
        range.min <= policy.reference_white <= range.max,
        1_000 <= policy.safe_exit_grace <= 15_000,
        100 <= policy.teardown_timeout <= 15_000,
{
}

/// With nothing set, HDR support is on and nothing is required or isolated.
pub proof fn lemma_default_policy(policy: HdrPolicy, range: ReferenceWhiteRange)
    requires
        range.wf(),
        policy.is_read_from(Seq::empty(), range),
    ensures
        policy.experiment_enabled,
        !policy.require_active,
        !policy.isolate_output,
        policy.output is None,
        policy.reference_white == range.spec_clamp(DEFAULT_REFERENCE_WHITE),
        policy.sdr_gamma is Display,
        policy.gamut_stretch is None,
        !policy.metadata_luminance_from_panel,
        policy.safe_exit_grace == DEFAULT_DELAY_MS,
        policy.teardown_timeout == DEFAULT_DELAY_MS,
{
}

/// No listed name is empty.
pub proof fn lemma_names_are_not_empty(parts: Seq<Seq<char>>)
    ensures
        forall|i: int| 0 <= i < named(parts).len() ==> (#[trigger] named(parts)[i]).len() > 0,
    decreases parts.len(),
{
    if parts.len() > 0 {
        let rest = named(parts.drop_last());
        lemma_names_are_not_empty(parts.drop_last());
        assert forall|i: int| 0 <= i < named(parts).len() implies (#[trigger] named(
            parts,
        )[i]).len() > 0 by {
            if i < rest.len() {
                assert(named(parts)[i] == rest[i]);
            }
        }
    }
}

/// Whether no variable before `i` is called `name`.
pub open spec fn none_before(
    environment: Seq<(String, String)>,
    name: Seq<char>,
    i: int,
) -> bool {
    0 <= i <= environment.len() && forall|j: int|
        0 <= j < i ==> (#[trigger] environment[j]).0@ != name
}

/// A variable has the value that it is first given, and none where it is not given.
pub proof fn lemma_first_value_counts(
    environment: &Vec<(String, String)>,
    name: &str,
    value: Option<&str>,
    i: int,
)
    requires
        call_ensures(find_variable, (environment, name), value),
        none_before(environment@, name@, i),
    ensures
        i == environment.len() ==> value is None,
        i < environment.len() && environment@[i].0@ == name@ ==> (value matches Some(text) && text@
            == environment@[i].1@),
{
    lemma_variable(environment@, name@, i);
}

proof fn lemma_variable(environment: Seq<(String, String)>, name: Seq<char>, i: int)
    requires
        none_before(environment, name, i),
    ensures
        i == environment.len() ==> variable(environment, name) is None,
        i < environment.len() && environment[i].0@ == name ==> variable(environment, name) == Some(
            environment[i].1@,
        ),
    decreases environment.len(),
{
    if environment.len() > 0 && i > 0 {
        let rest = environment.drop_first();
        assert(environment[0].0@ != name);
        assert forall|j: int| 0 <= j < i - 1 implies (#[trigger] rest[j]).0@ != name by {
            assert(rest[j] == environment[j + 1]);
        }
        lemma_variable(rest, name, i - 1);
        if i < environment.len() {
            assert(rest[i - 1] == environment[i]);
        }
    }
}

/// A value in ASCII says "yes" exactly when it is, in any case, one of the four words
/// for it.
pub proof fn lemma_words_for_yes(
    value: &str,
    yes: bool,
    one: bool,
    true_word: bool,
    yes_word: bool,
    y: bool,
)
    requires
        forall|i: int| 0 <= i < value@.len() ==> value@[i] as u32 <= 127,
        call_ensures(parse_bool_token, (value,), yes),
        call_ensures(eq_ignore_ascii_case, (value, "1"), one),
        call_ensures(eq_ignore_ascii_case, (value, "true"), true_word),
        call_ensures(eq_ignore_ascii_case, (value, "yes"), yes_word),
        call_ensures(eq_ignore_ascii_case, (value, "y"), y),
    ensures
        yes <==> one || true_word || yes_word || y,
{
    reveal_strlit("1");
    reveal_strlit("true");
    reveal_strlit("yes");
    reveal_strlit("y");
    assert(ascii_lowercase("1"@) =~= "1"@);
    assert(ascii_lowercase("true"@) =~= "true"@);
    assert(ascii_lowercase("yes"@) =~= "yes"@);
    assert(ascii_lowercase("y"@) =~= "y"@);
}

/// A configured white is kept within the range and moved to its nearer end otherwise.
pub proof fn lemma_white_is_held_to_the_range(
    range: ReferenceWhiteRange,
    white: u16,
    clamped: u16,
)
    requires
        range.min <= range.max,
        call_ensures(ReferenceWhiteRange::clamp_white, (range, white), clamped),
    ensures
        range.min <= clamped <= range.max,
        range.min <= white <= range.max ==> clamped == white,
        white < range.min ==> clamped == range.min,
        white > range.max ==> clamped == range.max,
{
}

/// The switches of the policy are the variables of their names: HDR support is on
/// unless it is switched off, and anything else is off unless it is switched on.
pub proof fn lemma_policy_switches(
    environment: &Vec<(String, String)>,
    range: ReferenceWhiteRange,
    policy: HdrPolicy,
    experiment: Option<&str>,
    require_active: Option<&str>,
    isolate: Option<&str>,
    word: &str,
    yes: bool,
)
    requires
        range.min <= range.max,
        call_ensures(HdrPolicy::from_lookup, (environment, range), policy),
        call_ensures(find_variable, (environment, "COSMIC_HDR_EXPERIMENT"), experiment),
        call_ensures(find_variable, (environment, "COSMIC_HDR_REQUIRE_ACTIVE"), require_active),
        call_ensures(find_variable, (environment, "COSMIC_HDR_ISOLATE_OUTPUT"), isolate),
        call_ensures(parse_bool_token, (word,), yes),
    ensures
        experiment is None ==> policy.experiment_enabled,
        experiment matches Some(text) ==> (text@ == word@ ==> policy.experiment_enabled == yes),
        require_active is None ==> !policy.require_active,
        require_active matches Some(text) ==> (text@ == word@ ==> policy.require_active == yes),
        isolate is None ==> !policy.isolate_output,
        isolate matches Some(text) ==> (text@ == word@ ==> policy.isolate_output == yes),
{
}

/// The numbers of the policy are the variables of their names where they hold numbers,
/// within their bounds; else the reference white is 203 cd/m² as far as the range
/// allows, and both delays are five seconds.
pub proof fn lemma_policy_numbers(
    environment: &Vec<(String, String)>,
    range: ReferenceWhiteRange,
    policy: HdrPolicy,
    white: Option<&str>,
    grace: Option<&str>,
    timeout: Option<&str>,
)
    requires
        range.min <= range.max,
        call_ensures(HdrPolicy::from_lookup, (environment, range), policy),
        call_ensures(find_variable, (environment, "COSMIC_HDR_REFERENCE_WHITE"), white),
        call_ensures(find_variable, (environment, "COSMIC_HDR_SAFE_EXIT_GRACE_MS"), grace),
        call_ensures(find_variable, (environment, "COSMIC_HDR_TEARDOWN_TIMEOUT_MS"), timeout),
    ensures
        range.min <= policy.reference_white <= range.max,
        (white is None || (white matches Some(text) && unsigned_value(text@, 10, u16::MAX as nat)
            is None)) && range.min <= 203 <= range.max ==> policy.reference_white == 203,
        white matches Some(text) ==> (unsigned_value(text@, 10, u16::MAX as nat) matches Some(n)
            ==> (range.min <= n <= range.max ==> policy.reference_white == n) && (n < range.min
            ==> policy.reference_white == range.min) && (n > range.max ==> policy.reference_white
            == range.max)),
        1_000 <= policy.safe_exit_grace <= 15_000,
        grace is None ==> policy.safe_exit_grace == 5_000,
        grace matches Some(text) ==> (unsigned_value(text@, 10, u64::MAX as nat) is None
            ==> policy.safe_exit_grace == 5_000),
        grace matches Some(text) ==> (unsigned_value(text@, 10, u64::MAX as nat) matches Some(n)
            ==> (1_000 <= n <= 15_000 ==> policy.safe_exit_grace == n) && (n < 1_000
            ==> policy.safe_exit_grace == 1_000) && (n > 15_000 ==> policy.safe_exit_grace
            == 15_000)),
        100 <= policy.teardown_timeout <= 15_000,
        timeout is None ==> policy.teardown_timeout == 5_000,
        timeout matches Some(text) ==> (unsigned_value(text@, 10, u64::MAX as nat) is None
            ==> policy.teardown_timeout == 5_000),
        timeout matches Some(text) ==> (unsigned_value(text@, 10, u64::MAX as nat) matches Some(n)
            ==> (100 <= n <= 15_000 ==> policy.teardown_timeout == n) && (n < 100
            ==> policy.teardown_timeout == 100) && (n > 15_000 ==> policy.teardown_timeout
            == 15_000)),
{
}

/// The texts of the policy are the variables of their names: the outputs as they are
/// written, the gamma and the stretch without whitespace around them.
pub proof fn lemma_policy_texts(
    environment: &Vec<(String, String)>,
    range: ReferenceWhiteRange,
    policy: HdrPolicy,
    output: Option<&str>,
    gamma: Option<&str>,
    stretch: Option<&str>,
    luminance: Option<&str>,
    word: &str,
    is_srgb: bool,
    is_panel: bool,
)
    requires
        range.min <= range.max,
        call_ensures(HdrPolicy::from_lookup, (environment, range), policy),
        call_ensures(find_variable, (environment, "COSMIC_HDR_OUTPUT"), output),
        call_ensures(find_variable, (environment, "COSMIC_HDR_SDR_GAMMA"), gamma),
        call_ensures(find_variable, (environment, "COSMIC_HDR_GAMUT_STRETCH"), stretch),
        call_ensures(find_variable, (environment, "COSMIC_HDR_METADATA_LUMINANCE"), luminance),
        call_ensures(eq_ignore_ascii_case, (word, "srgb"), is_srgb),
        call_ensures(eq_ignore_ascii_case, (word, "panel"), is_panel),
    ensures
        output is Some <==> policy.output is Some,
        output matches Some(text) ==> (policy.output matches Some(own) && own@ == text@),
        gamma is None ==> policy.sdr_gamma is Display,
        gamma matches Some(text) ==> (text@ == word@ ==> (policy.sdr_gamma is Srgb <==> is_srgb)
            && (!is_srgb ==> (policy.sdr_gamma matches SdrGamma::Power(power) && power@ == trimmed(
            text@,
        )))),
        stretch is Some <==> policy.gamut_stretch is Some,
        stretch matches Some(text) ==> (policy.gamut_stretch matches Some(own) && own@ == trimmed(
            text@,
        )),
        luminance is None ==> !policy.metadata_luminance_from_panel,
        luminance matches Some(text) ==> (text@ == word@ ==> policy.metadata_luminance_from_panel
            == is_panel),
{
}

/// A policy names exactly the non-empty pieces of its list, without the whitespace
/// around them; a connector is requested exactly when it is named, and the primary one
/// is the first.
pub proof fn lemma_policy_names_its_outputs(
    policy: &HdrPolicy,
    names: Vec<&str>,
    name: &str,
    requested: bool,
    primary: Option<&str>,
    parts: Vec<&str>,
    list: &str,
    i: int,
)
    requires
        call_ensures(HdrPolicy::outputs, (policy,), names),
        call_ensures(HdrPolicy::output_requested, (policy, name), requested),
        call_ensures(HdrPolicy::primary_output, (policy,), primary),
        policy.output matches Some(own) && own@ == list@,
        call_ensures(split_on, (list, ','), parts),
    ensures
        requested <==> exists|j: int|
            0 <= j < parts.len() && #[trigger] trimmed(parts@[j]@) == name@ && name@.len() > 0,
        requested <==> exists|j: int| 0 <= j < names.len() && (#[trigger] names@[j])@ == name@,
        primary is Some <==> names.len() > 0,
        primary matches Some(text) ==> text@ == names@[0]@,
        0 <= i < parts.len() && trimmed(parts@[i]@).len() > 0 && (forall|j: int|
            0 <= j < i ==> (#[trigger] trimmed(parts@[j]@)).len() == 0) ==> (primary matches Some(
            text,
        ) && text@ == trimmed(parts@[i]@)),
{
    let all = pieces(list@, ',');
    assert(policy.names() == named(all));
    lemma_named(all, name@, i);
    assert forall|j: int| 0 <= j < parts.len() implies (#[trigger] parts@[j])@ == all[j] by {
        assert(parts[j]@ == all[j]);
    }
    if exists|j: int| 0 <= j < all.len() && #[trigger] trimmed(all[j]) == name@ && name@.len() > 0 {
        let j = choose|j: int|
            0 <= j < all.len() && #[trigger] trimmed(all[j]) == name@ && name@.len() > 0;
        assert(trimmed(parts@[j]@) == name@);
    }
    if exists|j: int|
        0 <= j < parts.len() && #[trigger] trimmed(parts@[j]@) == name@ && name@.len() > 0 {
        let j = choose|j: int|
            0 <= j < parts.len() && #[trigger] trimmed(parts@[j]@) == name@ && name@.len() > 0;
        assert(trimmed(all[j]) == name@);
    }
    if requested {
        let j = choose|j: int| 0 <= j < policy.names().len() && policy.names()[j] == name@;
        assert(names[j]@ == name@);
        assert(names@[j]@ == name@);
    }
    if exists|j: int| 0 <= j < names.len() && (#[trigger] names@[j])@ == name@ {
        let j = choose|j: int| 0 <= j < names.len() && (#[trigger] names@[j])@ == name@;
        assert(names[j]@ == policy.names()[j]);
    }
    if names.len() > 0 {
        assert(names[0]@ == policy.names()[0]);
    }
    if 0 <= i < parts.len() && trimmed(parts@[i]@).len() > 0 && (forall|j: int|
        0 <= j < i ==> (#[trigger] trimmed(parts@[j]@)).len() == 0) {
        assert forall|j: int| 0 <= j < i implies (#[trigger] trimmed(all[j])).len() == 0 by {
            assert(trimmed(parts@[j]@).len() == 0);
        }
    }
}

proof fn lemma_named(parts: Seq<Seq<char>>, name: Seq<char>, i: int)
    ensures
        named(parts).contains(name) <==> exists|j: int|
            0 <= j < parts.len() && #[trigger] trimmed(parts[j]) == name && name.len() > 0,
        0 <= i < parts.len() && trimmed(parts[i]).len() > 0 && (forall|j: int|
            0 <= j < i ==> (#[trigger] trimmed(parts[j])).len() == 0) ==> named(parts).len() > 0
            && named(parts)[0] == trimmed(parts[i]),
        (forall|j: int| 0 <= j < parts.len() ==> (#[trigger] trimmed(parts[j])).len() == 0)
            ==> named(parts).len() == 0,
    decreases parts.len(),
{
    if parts.len() > 0 {
        let rest = parts.drop_last();
        let before = named(rest);
        let after = named(parts);
        lemma_named(rest, name, i);
        assert(forall|j: int| 0 <= j < rest.len() ==> trimmed(rest[j]) == #[trigger] trimmed(parts[j]));
        assert(forall|j: int| 0 <= j < rest.len() ==> #[trigger] trimmed(rest[j]) == trimmed(parts[j]));
        let last = trimmed(parts.last());
        assert(trimmed(parts[parts.len() - 1]) == last);
        if before.contains(name) {
            let k = choose|k: int| 0 <= k < before.len() && before[k] == name;
            assert(after[k] == name);
            let j = choose|j: int|
                0 <= j < rest.len() && #[trigger] trimmed(rest[j]) == name && name.len() > 0;
            assert(trimmed(parts[j]) == name);
        }
        if last.len() > 0 {
            assert(after[before.len() as int] == last);
        }
        if after.contains(name) && !before.contains(name) {
            let k = choose|k: int| 0 <= k < after.len() && after[k] == name;
            if k < before.len() {
                assert(before[k] == name);
            }
        }
        if exists|j: int|
            0 <= j < parts.len() && #[trigger] trimmed(parts[j]) == name && name.len() > 0 {
            let j = choose|j: int|
                0 <= j < parts.len() && #[trigger] trimmed(parts[j]) == name && name.len() > 0;
            if j < rest.len() {
                assert(trimmed(rest[j]) == name);
            }
        }
    }
}

/// The four lower-case words for "yes", and no others.
pub proof fn lemma_lower_case_words(word: &str, yes: bool)
    requires
        call_ensures(is_true_word, (word,), yes),
    ensures
        yes <==> word@ == "1"@ || word@ == "true"@ || word@ == "yes"@ || word@ == "y"@,
{
}

} // verus!
