//! Text helpers: the string operations that the configuration values need.
use vstd::prelude::*;
use vstd::string::*;

verus! {

/// Whether `c` has the Unicode property `White_Space`.
pub open spec fn is_whitespace(c: char) -> bool {
    let code = c as u32;
    ||| 0x09 <= code <= 0x0d
    ||| code == 0x20
    ||| code == 0x85
    ||| code == 0xa0
    ||| code == 0x1680
    ||| 0x2000 <= code <= 0x200a
    ||| code == 0x2028
    ||| code == 0x2029
    ||| code == 0x202f
    ||| code == 0x205f
    ||| code == 0x3000
}

/// `s` without its leading whitespace.
pub open spec fn trimmed_start(s: Seq<char>) -> Seq<char>
    decreases s.len(),
{
    if s.len() > 0 && is_whitespace(s[0]) {
        trimmed_start(s.drop_first())
    } else {
        s
    }
}

/// `s` without its trailing whitespace.
pub open spec fn trimmed_end(s: Seq<char>) -> Seq<char>
    decreases s.len(),
{
    if s.len() > 0 && is_whitespace(s.last()) {
        trimmed_end(s.drop_last())
    } else {
        s
    }
}

/// `s` without leading and trailing whitespace.
pub open spec fn trimmed(s: Seq<char>) -> Seq<char> {
    trimmed_end(trimmed_start(s))
}

/// `str::trim` removes leading and trailing whitespace, as Unicode's
/// `White_Space` property defines it.
pub assume_specification[ str::trim ](s: &str) -> (r: &str)
    ensures
        r@ == trimmed(s@),
;

/// Whether `s` begins with `prefix`.
pub open spec fn has_prefix(s: Seq<char>, prefix: Seq<char>) -> bool {
    prefix.len() <= s.len() && s.subrange(0, prefix.len() as int) == prefix
}

/// The position of the first `c` in `s` at or after `from`, or the length of `s`.
pub open spec fn find_from(s: Seq<char>, c: char, from: int) -> int
    decreases s.len() - from,
{
    if from < 0 || from >= s.len() {
        s.len() as int
    } else if s[from] == c {
        from
    } else {
        find_from(s, c, from + 1)
    }
}

/// The position of the first `c` in `s`, or the length of `s`.
pub open spec fn find(s: Seq<char>, c: char) -> int {
    find_from(s, c, 0)
}

/// The pieces of `s` between occurrences of `sep`: one more than there are
/// separators.
pub open spec fn pieces(s: Seq<char>, sep: char) -> Seq<Seq<char>>
    decreases s.len(),
{
    let at = find(s, sep);
    if 0 <= at < s.len() {
        seq![s.subrange(0, at)] + pieces(s.subrange(at + 1, s.len() as int), sep)
    } else {
        seq![s]
    }
}

/// The position that is found holds the character, and no earlier one does.
pub proof fn lemma_find_from(s: Seq<char>, c: char, from: int)
    requires
        0 <= from <= s.len(),
    ensures
        from <= find_from(s, c, from) <= s.len(),
        find_from(s, c, from) < s.len() ==> s[find_from(s, c, from)] == c,
        forall|i: int| from <= i < find_from(s, c, from) ==> s[i] != c,
    decreases s.len() - from,
{
    if from < s.len() && s[from] != c {
        lemma_find_from(s, c, from + 1);
    }
}

/// A text has at least one piece, and no piece holds the separator.
pub proof fn lemma_pieces(s: Seq<char>, sep: char)
    ensures
        pieces(s, sep).len() >= 1,
        forall|i: int|
            0 <= i < pieces(s, sep).len() ==> !(#[trigger] pieces(s, sep)[i]).contains(sep),
    decreases s.len(),
{
    lemma_find_from(s, sep, 0);
    let at = find(s, sep);
    if 0 <= at < s.len() {
        lemma_pieces(s.subrange(at + 1, s.len() as int), sep);
        let rest = pieces(s.subrange(at + 1, s.len() as int), sep);
        assert forall|i: int| 0 <= i < pieces(s, sep).len() implies !(
        #[trigger] pieces(s, sep)[i]).contains(sep) by {
            if i > 0 {
                assert(pieces(s, sep)[i] == rest[i - 1]);
            }
        }
    }
}

/// Whether two texts are the same.
pub fn same_text(a: &str, b: &str) -> (same: bool)
    ensures
        same == (a@ == b@),
{
    let a: String = a.to_owned();
    let b: String = b.to_owned();
    a == b
}

/// The characters of `s`.
pub fn chars_of(s: &str) -> (chars: Vec<char>)
    ensures
        chars@ == s@,
{
    let mut chars: Vec<char> = Vec::new();
    for c in it: s.chars()
        invariant
            it.seq() == s@,
            chars@ == s@.take(it.index()),
    {
        chars.push(c);
        assert(s@.take(it.index() + 1) == s@.take(it.index()).push(c));
    }
    assert(s@.take(s@.len() as int) == s@);
    chars
}

/// Whether `s` begins with `prefix`.
pub fn starts_with(s: &str, prefix: &str) -> (found: bool)
    ensures
        found == has_prefix(s@, prefix@),
{
    let s_len: usize = s.unicode_len();
    let prefix_len: usize = prefix.unicode_len();
    if prefix_len > s_len {
        return false;
    }
    same_text(s.substring_char(0, prefix_len), prefix)
}

/// The position of the first `c` in `s`, or the length of `s`.
pub fn position_of(s: &str, c: char) -> (at: usize)
    ensures
        at == find(s@, c),
        at <= s@.len(),
{
    let chars: Vec<char> = chars_of(s);
    let mut at: usize = 0;
    while at < chars.len() && chars[at] != c
        invariant
            at <= chars.len(),
            chars@ == s@,
            find(s@, c) == find_from(s@, c, at as int),
        decreases chars.len() - at,
    {
        at = at + 1;
    }
    at
}

/// The pieces of `s` between occurrences of `sep`.
pub fn split_on<'a>(s: &'a str, sep: char) -> (parts: Vec<&'a str>)
    ensures
        parts@.len() == pieces(s@, sep).len(),
        forall|i: int| 0 <= i < parts.len() ==> (#[trigger] parts[i])@ == pieces(s@, sep)[i],
{
    let mut parts: Vec<&'a str> = Vec::new();
    let mut rest: &'a str = s;
    loop
        invariant
            pieces(s@, sep).len() == parts.len() + pieces(rest@, sep).len(),
            forall|i: int| 0 <= i < parts.len() ==> (#[trigger] parts[i])@ == pieces(s@, sep)[i],
            forall|i: int|
                0 <= i < pieces(rest@, sep).len() ==> (#[trigger] pieces(rest@, sep)[i]) == pieces(
                    s@,
                    sep,
                )[parts.len() + i],
        decreases rest@.len(),
    {
        let ghost before = rest@;
        let ghost done = parts@;
        let len: usize = rest.unicode_len();
        let at: usize = position_of(rest, sep);
        assert(pieces(before, sep)[0] == pieces(s@, sep)[done.len() as int]);
        if at == len {
            assert(pieces(before, sep) == seq![before]);
            parts.push(rest);
            return parts;
        }
        parts.push(rest.substring_char(0, at));
        rest = rest.substring_char(at + 1, len);
        assert(pieces(before, sep) == seq![before.subrange(0, at as int)] + pieces(rest@, sep));
        assert forall|i: int| 0 <= i < pieces(rest@, sep).len() implies (#[trigger] pieces(
            rest@,
            sep,
        )[i]) == pieces(s@, sep)[parts.len() + i] by {
            assert(pieces(before, sep)[i + 1] == pieces(rest@, sep)[i]);
        }
    }
}

/// Whether `part` stands somewhere in `s`.
pub open spec fn holds_text(s: Seq<char>, part: Seq<char>) -> bool {
    exists|at: int|
        0 <= at <= s.len() - part.len() && #[trigger] s.subrange(at, at + part.len()) == part
}

/// Whether `part` stands somewhere in `s`.
pub fn contains_text(s: &str, part: &str) -> (found: bool)
    ensures
        found == holds_text(s@, part@),
{
    let chars: Vec<char> = chars_of(s);
    let wanted: Vec<char> = chars_of(part);
    if wanted.len() > chars.len() {
        return false;
    }
    let mut at: usize = 0;
    while at <= chars.len() - wanted.len()
        invariant
            chars@ == s@,
            wanted@ == part@,
            wanted.len() <= chars.len(),
            at <= chars.len() - wanted.len() + 1,
            forall|j: int| 0 <= j < at ==> #[trigger] s@.subrange(j, j + part@.len()) != part@,
        decreases chars.len() + 1 - at,
    {
        let mut same: usize = 0;
        while same < wanted.len() && chars[at + same] == wanted[same]
            invariant
                chars@ == s@,
                wanted@ == part@,
                at + wanted.len() <= chars.len(),
                same <= wanted.len(),
                forall|j: int| 0 <= j < same ==> s@[at + j] == part@[j],
            decreases wanted.len() - same,
        {
            same = same + 1;
        }
        if same == wanted.len() {
            assert(s@.subrange(at as int, at + part@.len()) =~= part@);
            return true;
        }
        assert(s@.subrange(at as int, at + part@.len())[same as int] != part@[same as int]);
        if at == chars.len() - wanted.len() {
            return false;
        }
        at = at + 1;
    }
    false
}

/// The ASCII lower case of `c`; other characters are unchanged.
pub open spec fn ascii_lower(c: char) -> char {
    if 'A' <= c <= 'Z' {
        ((c as u8 + 32) as u8) as char
    } else {
        c
    }
}

/// The ASCII lower case of `s`.
pub open spec fn ascii_lowercase(s: Seq<char>) -> Seq<char> {
    s.map_values(|c: char| ascii_lower(c))
}

fn ascii_lower_char(c: char) -> (lower: char)
    ensures
        lower == ascii_lower(c),
{
    if 'A' <= c && c <= 'Z' {
        ((c as u8 + 32) as u8) as char
    } else {
        c
    }
}

/// Whether two texts are the same up to ASCII case.
pub fn eq_ignore_ascii_case(a: &str, b: &str) -> (same: bool)
    ensures
        same == (ascii_lowercase(a@) == ascii_lowercase(b@)),
{
    let a_chars: Vec<char> = chars_of(a);
    let b_chars: Vec<char> = chars_of(b);
    if a_chars.len() != b_chars.len() {
        assert(ascii_lowercase(a@).len() != ascii_lowercase(b@).len());
        return false;
    }
    for i in 0..a_chars.len()
        invariant
            a_chars@ == a@,
            b_chars@ == b@,
            a_chars.len() == b_chars.len(),
            forall|j: int| 0 <= j < i ==> ascii_lower(a@[j]) == ascii_lower(b@[j]),
    {
        if ascii_lower_char(a_chars[i]) != ascii_lower_char(b_chars[i]) {
            assert(ascii_lowercase(a@)[i as int] != ascii_lowercase(b@)[i as int]);
            return false;
        }
    }
    assert(ascii_lowercase(a@) =~= ascii_lowercase(b@));
    true
}

/// What `str::to_lowercase` returns for a text.
pub uninterp spec fn lowercase(s: Seq<char>) -> Seq<char>;

/// `str::to_lowercase` gives the Unicode lower case of a text, which for an
/// ASCII text is its ASCII lower case. What it does to other characters is
/// named, not stated.
#[verifier::external_body]
pub(crate) fn to_lowercase(s: &str) -> (lower: String)
    ensures
        lower@ == lowercase(s@),
        (forall|i: int| 0 <= i < s@.len() ==> s@[i] as u32 <= 127) ==> lower@ == ascii_lowercase(
            s@,
        ),
{
    s.to_lowercase()
}

/// The value of one digit in `radix`, for a radix up to 36.
pub open spec fn digit_value(c: char, radix: nat) -> Option<nat> {
    let code = c as u32;
    let value: int = if '0' <= c <= '9' {
        code - '0' as u32
    } else if 'a' <= c <= 'z' {
        code - 'a' as u32 + 10
    } else if 'A' <= c <= 'Z' {
        code - 'A' as u32 + 10
    } else {
        radix as int
    };
    if value < radix {
        Some(value as nat)
    } else {
        None
    }
}

/// The number that the digits of `s` write in `radix`, if all are digits.
pub open spec fn digits_value(s: Seq<char>, radix: nat) -> Option<nat>
    decreases s.len(),
{
    if s.len() == 0 {
        Some(0)
    } else {
        match (digits_value(s.drop_last(), radix), digit_value(s.last(), radix)) {
            (Some(high), Some(low)) => Some(high * radix + low),
            _ => None,
        }
    }
}

/// The unsigned number that `s` writes in `radix`: an optional `+`, then at
/// least one digit, and a value of at most `max`.
pub open spec fn unsigned_value(s: Seq<char>, radix: nat, max: nat) -> Option<nat> {
    let digits = if s.len() > 0 && s[0] == '+' {
        s.drop_first()
    } else {
        s
    };
    if digits.len() == 0 {
        None
    } else {
        match digits_value(digits, radix) {
            Some(value) if value <= max => Some(value),
            _ => None,
        }
    }
}

/// `str::parse::<u16>` reads an unsigned decimal number, and fails on anything
/// else and on numbers that do not fit.
#[verifier::external_body]
pub(crate) fn parse_u16(s: &str) -> (value: Option<u16>)
    ensures
        value is Some <==> unsigned_value(s@, 10, u16::MAX as nat) is Some,
        value matches Some(v) ==> unsigned_value(s@, 10, u16::MAX as nat) == Some(v as nat),
{
    s.parse::<u16>().ok()
}

/// `str::parse::<u32>` reads an unsigned decimal number, and fails on anything
/// else and on numbers that do not fit.
#[verifier::external_body]
pub(crate) fn parse_u32(s: &str) -> (value: Option<u32>)
    ensures
        value is Some <==> unsigned_value(s@, 10, u32::MAX as nat) is Some,
        value matches Some(v) ==> unsigned_value(s@, 10, u32::MAX as nat) == Some(v as nat),
{
    s.parse::<u32>().ok()
}

/// `str::parse::<u64>` reads an unsigned decimal number, and fails on anything
/// else and on numbers that do not fit.
#[verifier::external_body]
pub(crate) fn parse_u64(s: &str) -> (value: Option<u64>)
    ensures
        value is Some <==> unsigned_value(s@, 10, u64::MAX as nat) is Some,
        value matches Some(v) ==> unsigned_value(s@, 10, u64::MAX as nat) == Some(v as nat),
{
    s.parse::<u64>().ok()
}

/// `u32::from_str_radix` with radix 16 reads an unsigned hexadecimal number
/// without a prefix, and fails on anything else and on numbers that do not fit.
#[verifier::external_body]
pub(crate) fn parse_hex_u32(s: &str) -> (value: Option<u32>)
    ensures
        value is Some <==> unsigned_value(s@, 16, u32::MAX as nat) is Some,
        value matches Some(v) ==> unsigned_value(s@, 16, u32::MAX as nat) == Some(v as nat),
{
    u32::from_str_radix(s, 16).ok()
}

/// The decimal digits of `n`, without leading zeros.
pub open spec fn decimal(n: nat) -> Seq<char>
    decreases n,
{
    if n < 10 {
        seq![(('0' as u8 + n) as u8) as char]
    } else {
        decimal(n / 10).push((('0' as u8 + n % 10) as u8) as char)
    }
}

/// The text of a single decimal digit.
fn digit_text(n: u32) -> (text: &'static str)
    requires
        n < 10,
    ensures
        text@ == decimal(n as nat),
{
    proof {
        reveal_strlit("0");
        reveal_strlit("1");
        reveal_strlit("2");
        reveal_strlit("3");
        reveal_strlit("4");
        reveal_strlit("5");
        reveal_strlit("6");
        reveal_strlit("7");
        reveal_strlit("8");
        reveal_strlit("9");
    }
    let text: &'static str = match n {
        0 => "0",
        1 => "1",
        2 => "2",
        3 => "3",
        4 => "4",
        5 => "5",
        6 => "6",
        7 => "7",
        8 => "8",
        _ => "9",
    };
    assert(text@ =~= decimal(n as nat));
    text
}

/// Writes `n` in decimal.
pub fn decimal_text(n: u32) -> (text: String)
    ensures
        text@ == decimal(n as nat),
    decreases n,
{
    if n < 10 {
        String::from_str(digit_text(n))
    } else {
        let mut text: String = decimal_text(n / 10);
        text.append(digit_text(n % 10));
        assert(text@ =~= decimal(n as nat));
        text
    }
}

/// The pieces with the separator between them.
pub open spec fn joined(parts: Seq<Seq<char>>, sep: char) -> Seq<char>
    decreases parts.len(),
{
    if parts.len() == 0 {
        Seq::empty()
    } else if parts.len() == 1 {
        parts[0]
    } else {
        parts[0] + seq![sep] + joined(parts.drop_first(), sep)
    }
}

/// Splitting loses nothing: the pieces, put together with the separator between them,
/// are the text, and no piece holds the separator.
pub proof fn lemma_split_text_can_be_joined(s: &str, sep: char, parts: Vec<&str>, i: int)
    requires
        call_ensures(split_on, (s, sep), parts),
    ensures
        parts.len() >= 1,
        joined(Seq::new(parts@.len(), |j: int| parts@[j]@), sep) == s@,
        0 <= i < parts.len() ==> !parts@[i]@.contains(sep),
{
    lemma_pieces(s@, sep);
    lemma_joined_pieces(s@, sep);
    assert(Seq::new(parts@.len(), |j: int| parts@[j]@) =~= pieces(s@, sep));
    if 0 <= i < parts.len() {
        assert(parts[i]@ == pieces(s@, sep)[i]);
    }
}

proof fn lemma_joined_pieces(s: Seq<char>, sep: char)
    ensures
        joined(pieces(s, sep), sep) == s,
    decreases s.len(),
{
    lemma_find_from(s, sep, 0);
    let at = find(s, sep);
    let all = pieces(s, sep);
    if 0 <= at < s.len() {
        let tail = s.subrange(at + 1, s.len() as int);
        lemma_joined_pieces(tail, sep);
        lemma_pieces(tail, sep);
        assert(all.drop_first() =~= pieces(tail, sep));
        assert(s.subrange(0, at) + seq![sep] + tail =~= s);
    }
}

/// A character is found where it first stands, and not found where it does not stand.
pub proof fn lemma_character_is_found(s: &str, c: char, at: usize)
    requires
        call_ensures(position_of, (s, c), at),
    ensures
        at <= s@.len(),
        at < s@.len() ==> s@[at as int] == c,
        forall|i: int| 0 <= i < at ==> s@[i] != c,
{
    lemma_find_from(s@, c, 0);
}

/// A text begins with another, or holds it somewhere, exactly when their characters
/// agree there; and two texts are the same exactly when all of them do.
pub proof fn lemma_texts_agree_by_characters(
    s: &str,
    part: &str,
    begins: bool,
    holds: bool,
    same: bool,
    at: int,
)
    requires
        call_ensures(starts_with, (s, part), begins),
        call_ensures(contains_text, (s, part), holds),
        call_ensures(same_text, (s, part), same),
    ensures
        begins <==> part@.len() <= s@.len() && forall|i: int|
            0 <= i < part@.len() ==> s@[i] == #[trigger] part@[i],
        same <==> s@.len() == part@.len() && forall|i: int|
            0 <= i < part@.len() ==> s@[i] == #[trigger] part@[i],
        begins ==> holds,
        0 <= at && at + part@.len() <= s@.len() && (forall|i: int|
            0 <= i < part@.len() ==> s@[at + i] == #[trigger] part@[i]) ==> holds,
        holds ==> exists|place: int|
            0 <= place && place + part@.len() <= s@.len() && #[trigger] s@.subrange(
                place,
                place + part@.len(),
            ) == part@,
{
    if part@.len() <= s@.len() {
        let front = s@.subrange(0, part@.len() as int);
        assert forall|i: int| 0 <= i < part@.len() implies front[i] == #[trigger] s@[i] by {}
        if forall|i: int| 0 <= i < part@.len() ==> s@[i] == #[trigger] part@[i] {
            assert(front =~= part@);
        }
        if begins {
            assert forall|i: int| 0 <= i < part@.len() implies s@[i] == #[trigger] part@[i] by {
                assert(front[i] == s@[i]);
            }
            assert(s@.subrange(0int, 0int + part@.len()) == part@);
        }
    }
    if s@.len() == part@.len() && (forall|i: int|
        0 <= i < part@.len() ==> s@[i] == #[trigger] part@[i]) {
        assert(s@ =~= part@);
    }
    if 0 <= at && at + part@.len() <= s@.len() && (forall|i: int|
        0 <= i < part@.len() ==> s@[at + i] == #[trigger] part@[i]) {
        assert(s@.subrange(at, at + part@.len()) =~= part@);
    }
}

/// Two texts are the same up to case exactly when they are as long, and each character
/// is the same or the same ASCII letter in the other case.
pub proof fn lemma_case_is_ignored(a: &str, b: &str, same: bool)
    requires
        call_ensures(eq_ignore_ascii_case, (a, b), same),
    ensures
        same <==> a@.len() == b@.len() && forall|i: int|
            0 <= i < a@.len() ==> {
                let x = #[trigger] a@[i];
                let y = b@[i];
                x == y || ('A' <= x <= 'Z' && y as u32 == x as u32 + 32) || ('A' <= y <= 'Z'
                    && x as u32 == y as u32 + 32)
            },
{
    let left = ascii_lowercase(a@);
    let right = ascii_lowercase(b@);
    if a@.len() == b@.len() {
        assert forall|i: int| 0 <= i < a@.len() implies (left[i] == right[i] <==> {
            let x = #[trigger] a@[i];
            let y = b@[i];
            x == y || ('A' <= x <= 'Z' && y as u32 == x as u32 + 32) || ('A' <= y <= 'Z' && x as u32
                == y as u32 + 32)
        }) by {}
        if forall|i: int|
            0 <= i < a@.len() ==> {
                let x = #[trigger] a@[i];
                let y = b@[i];
                x == y || ('A' <= x <= 'Z' && y as u32 == x as u32 + 32) || ('A' <= y <= 'Z'
                    && x as u32 == y as u32 + 32)
            } {
            assert(left =~= right);
        }
        if left == right {
            assert forall|i: int| 0 <= i < a@.len() implies {
                let x = #[trigger] a@[i];
                let y = b@[i];
                x == y || ('A' <= x <= 'Z' && y as u32 == x as u32 + 32) || ('A' <= y <= 'Z'
                    && x as u32 == y as u32 + 32)
            } by {
                assert(left[i] == right[i]);
            }
        }
    } else {
        assert(left.len() == a@.len() && right.len() == b@.len());
    }
}

proof fn lemma_decimal_value(n: nat)
    ensures
        digits_value(decimal(n), 10) == Some(n),
        decimal(n).len() > 0,
        decimal(n)[0] == '0' ==> n == 0,
        forall|i: int| 0 <= i < decimal(n).len() ==> '0' <= #[trigger] decimal(n)[i] <= '9',
    decreases n,
{
    if n < 10 {
        let text = decimal(n);
        assert(text.drop_last() =~= Seq::empty());
        assert(digits_value(text.drop_last(), 10) == Some(0nat));
    } else {
        lemma_decimal_value(n / 10);
        let text = decimal(n);
        assert(text.drop_last() =~= decimal(n / 10));
        assert(text[0] == decimal(n / 10)[0]);
        assert forall|i: int| 0 <= i < text.len() implies '0' <= #[trigger] text[i] <= '9' by {
            if i < decimal(n / 10).len() {
                assert(text[i] == decimal(n / 10)[i]);
            }
        }
    }
}

/// A number that was written can be read back: its digits write it, without a sign and
/// without leading zeros.
pub proof fn lemma_written_number_reads_back(n: u32, text: String)
    requires
        call_ensures(decimal_text, (n,), text),
    ensures
        unsigned_value(text@, 10, u32::MAX as nat) == Some(n as nat),
        text@.len() > 0,
        text@[0] == '0' ==> n == 0,
        forall|i: int| 0 <= i < text@.len() ==> '0' <= #[trigger] text@[i] <= '9',
{
    lemma_decimal_value(n as nat);
}

/// The characters of a text are its characters, in order.
pub proof fn lemma_characters(s: &str, chars: Vec<char>, i: int)
    requires
        call_ensures(chars_of, (s,), chars),
    ensures
        chars.len() == s@.len(),
        0 <= i < chars.len() ==> chars@[i] == s@[i],
{
}

} // verus!
