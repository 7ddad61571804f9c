//! Validation of service names and versions.

use crate::text::{
    all_digits, append_decimal, chars_of, decimal, is_digit, split_on, split_ranges,
};
use vstd::prelude::*;
use vstd::slice::slice_subrange;
use vstd::string::*;
use vstd::utf8::*;

verus! {

/// The text of a string literal that denotes a text: in quotes, with escapes. It
/// names what [`quoted`] returns.
pub uninterp spec fn quoted_text(text: Seq<char>) -> Seq<char>;

/// `format!` with the `Debug` form of `str`. The contract says that the result
/// is a function of the text; how single characters are escaped is not said.
#[verifier::external_body]
pub(crate) fn quoted(text: &str) -> (s: String)
    ensures
        s@ == quoted_text(text@),
{
    format!("{:?}", text)
}

/// What is wrong with a service name or a version.
#[derive(Clone, Copy, Debug, PartialEq, Eq, Structural)]
pub enum NameFlaw {
    /// A service name without characters.
    EmptyName,
    /// A service name of more than sixty-four bytes.
    LongName,
    /// A service name with an upper-case letter.
    UpperCase,
    /// A service name with another character.
    ForeignCharacter,
    /// A version without characters.
    EmptyVersion,
    /// A version without three numbers.
    Core,
    /// A version with a number that is none.
    Number,
    /// A version whose pre-release suffix is empty.
    EmptySuffix,
    /// A version whose pre-release suffix holds another character.
    SuffixCharacter,
}

impl NameFlaw {
    /// The flaw in words.
    pub open spec fn text(self) -> Seq<char> {
        match self {
            NameFlaw::EmptyName => "service name must be at least 1 character"@,
            NameFlaw::LongName => "service name must be 64 characters or fewer"@,
            NameFlaw::UpperCase => "uppercase letters are forbidden (case-only collisions with lowercase names would silently merge under Windows named-pipe semantics)"@,
            NameFlaw::ForeignCharacter => "only lowercase ASCII letters, digits, and '-' allowed"@,
            NameFlaw::EmptyVersion => "version must not be empty"@,
            NameFlaw::Core => "version core must be MAJOR.MINOR.PATCH"@,
            NameFlaw::Number => "MAJOR/MINOR/PATCH must be non-empty digits"@,
            NameFlaw::EmptySuffix => "pre-release suffix after '-' must not be empty"@,
            NameFlaw::SuffixCharacter => "pre-release tail allows only [a-z0-9.]"@,
        }
    }

    /// The flaw in words.
    pub fn reason(self) -> (s: &'static str)
        ensures
            s@ == self.text(),
    {
        match self {
            NameFlaw::EmptyName => "service name must be at least 1 character",
            NameFlaw::LongName => "service name must be 64 characters or fewer",
            NameFlaw::UpperCase => "uppercase letters are forbidden (case-only collisions with lowercase names would silently merge under Windows named-pipe semantics)",
            NameFlaw::ForeignCharacter => "only lowercase ASCII letters, digits, and '-' allowed",
            NameFlaw::EmptyVersion => "version must not be empty",
            NameFlaw::Core => "version core must be MAJOR.MINOR.PATCH",
            NameFlaw::Number => "MAJOR/MINOR/PATCH must be non-empty digits",
            NameFlaw::EmptySuffix => "pre-release suffix after '-' must not be empty",
            NameFlaw::SuffixCharacter => "pre-release tail allows only [a-z0-9.]",
        }
    }
}

/// Why a registration name or a broker path cannot be used.
#[derive(Clone, Debug, PartialEq, Eq)]
pub enum PipePathError {
    /// A name failed validation.
    InvalidName {
        /// The name.
        name: String,
        /// Why it was rejected.
        reason: &'static str,
    },
    /// A derived path is too long for the host.
    PathTooLong {
        /// Length of the path.
        len: usize,
        /// Longest path of the host.
        max: usize,
        /// Name of the limit.
        limit_label: &'static str,
    },
}

impl PipePathError {
    /// Text of this error.
    pub open spec fn text(self) -> Seq<char> {
        match self {
            PipePathError::InvalidName { name, reason } => invalid_name_text(
                quoted_text(name@),
                reason@,
            ),
            PipePathError::PathTooLong { len, max, limit_label } => "derived path exceeds "@
                + limit_label@ + " ("@ + decimal(len as nat) + " > "@ + decimal(max as nat) + ")"@,
        }
    }

    /// Text of this error.
    pub fn message(&self) -> (s: String)
        ensures
            s@ == self.text(),
    {
        match self {
            PipePathError::InvalidName { name, reason } => invalid_name_message(
                quoted(name.as_str()).as_str(),
                reason,
            ),
            PipePathError::PathTooLong { len, max, limit_label } => {
                let mut s: String = "derived path exceeds ".to_owned();
                s.append(limit_label);
                s.append(" (");
                append_decimal(&mut s, *len as u128);
                s.append(" > ");
                append_decimal(&mut s, *max as u128);
                s.append(")");
                s
            },
        }
    }
}

/// The text about a name, given the name in quotes.
pub open spec fn invalid_name_text(quoted_name: Seq<char>, reason: Seq<char>) -> Seq<char> {
    "invalid name "@ + quoted_name + ": "@ + reason
}

/// The text about a name, given the name in quotes.
pub fn invalid_name_message(quoted_name: &str, reason: &str) -> (s: String)
    ensures
        s@ == invalid_name_text(quoted_name@, reason@),
{
    let mut s: String = "invalid name ".to_owned();
    s.append(quoted_name);
    s.append(": ");
    s.append(reason);
    s
}

/// Whether a character may stand in a service name.
pub open spec fn name_character(c: char) -> bool {
    ('a' <= c && c <= 'z') || ('0' <= c && c <= '9') || c == '-'
}

/// The flaw of the first character that may not stand in a service name.
pub open spec fn character_flaw(name: Seq<char>) -> Option<NameFlaw>
    decreases name.len(),
{
    if name.len() == 0 {
        None
    } else {
        match character_flaw(name.drop_last()) {
            Some(flaw) => Some(flaw),
            None => if name_character(name.last()) {
                None
            } else if 'A' <= name.last() && name.last() <= 'Z' {
                Some(NameFlaw::UpperCase)
            } else {
                Some(NameFlaw::ForeignCharacter)
            },
        }
    }
}

/// The flaw of a service name.
pub open spec fn name_flaw(name: Seq<char>) -> Option<NameFlaw> {
    if name.len() == 0 {
        Some(NameFlaw::EmptyName)
    } else if encode_utf8(name).len() > 64 {
        Some(NameFlaw::LongName)
    } else {
        character_flaw(name)
    }
}

/// Whether an error reports a flaw of a name.
pub open spec fn reports_flaw(e: PipePathError, name: Seq<char>, flaw: NameFlaw) -> bool {
    match e {
        PipePathError::InvalidName { name: n, reason } => n@ == name && reason@ == flaw.text(),
        PipePathError::PathTooLong { .. } => false,
    }
}

fn flawed(name: &str, flaw: NameFlaw) -> (e: PipePathError)
    ensures
        reports_flaw(e, name@, flaw),
{
    PipePathError::InvalidName { name: name.to_owned(), reason: flaw.reason() }
}

proof fn lemma_character_flaw_prefix(name: Seq<char>, n: int)
    requires
        0 <= n <= name.len(),
        character_flaw(name.take(n)) is Some,
    ensures
        character_flaw(name) == character_flaw(name.take(n)),
    decreases name.len() - n,
{
    if n < name.len() {
        assert(name.take(n + 1).drop_last() =~= name.take(n));
        lemma_character_flaw_prefix(name, n + 1);
    } else {
        assert(name.take(n) =~= name);
    }
}

/// Validates a service name: one to sixty-four lower-case letters, digits and
/// hyphens.
pub fn validate_service_name(name: &str) -> (r: Result<(), PipePathError>)
    ensures
        match r {
            Ok(()) => name_flaw(name@) is None,
            Err(e) => name_flaw(name@) matches Some(flaw) && reports_flaw(e, name@, flaw),
        },
{
    let chars = chars_of(name);
    if chars.len() == 0 {
        return Err(flawed(name, NameFlaw::EmptyName));
    }
    if name.as_bytes().len() > 64 {
        return Err(flawed(name, NameFlaw::LongName));
    }
    let mut i: usize = 0;
    assert(chars@.take(0) =~= Seq::<char>::empty());
    while i < chars.len()
        invariant
            i <= chars@.len(),
            chars@ == name@,
            name@.len() > 0,
            encode_utf8(name@).len() <= 64,
            character_flaw(chars@.take(i as int)) is None,
        decreases chars@.len() - i,
    {
        let c: char = chars[i];
        proof {
            assert(chars@.take(i as int + 1).drop_last() =~= chars@.take(i as int));
            assert(chars@.take(i as int + 1).last() == c);
        }
        if !(('a' <= c && c <= 'z') || ('0' <= c && c <= '9') || c == '-') {
            proof {
                lemma_character_flaw_prefix(chars@, i as int + 1);
            }
            if 'A' <= c && c <= 'Z' {
                return Err(flawed(name, NameFlaw::UpperCase));
            }
            return Err(flawed(name, NameFlaw::ForeignCharacter));
        }
        i = i + 1;
    }
    assert(chars@.take(chars@.len() as int) =~= chars@);
    Ok(())
}

/// A service name is valid exactly if it has one to sixty-four characters, all
/// of them lower-case letters, digits or hyphens.
pub proof fn law_name_grammar(name: Seq<char>)
    ensures
        name_flaw(name) is None <==> {
            &&& 1 <= name.len() <= 64
            &&& forall|i: int| 0 <= i < name.len() ==> name_character(#[trigger] name[i])
        },
{
    lemma_character_flaw_none(name);
    if forall|i: int| 0 <= i < name.len() ==> name_character(#[trigger] name[i]) {
        assert(is_ascii_chars(name)) by {
            assert forall|i: int| 0 <= i < name.len() implies 0 <= #[trigger] name[i] as nat
                <= 127 by {
                assert(name_character(name[i]));
            }
        }
        is_ascii_chars_encode_utf8(name);
    }
}

proof fn lemma_character_flaw_none(name: Seq<char>)
    ensures
        character_flaw(name) is None <==> forall|i: int|
            0 <= i < name.len() ==> name_character(#[trigger] name[i]),
    decreases name.len(),
{
    if name.len() > 0 {
        let front = name.drop_last();
        lemma_character_flaw_none(front);
        if character_flaw(name) is None {
            assert forall|i: int| 0 <= i < name.len() implies name_character(
                #[trigger] name[i],
            ) by {
                if i < front.len() {
                    assert(front[i] == name[i]);
                }
            }
        }
        if forall|i: int| 0 <= i < name.len() ==> name_character(#[trigger] name[i]) {
            assert forall|i: int| 0 <= i < front.len() implies name_character(
                #[trigger] front[i],
            ) by {
                assert(name_character(name[i]));
            }
            assert(name_character(name[name.len() - 1]));
        }
    }
}

/// Number of characters before the first hyphen.
pub open spec fn before_hyphen(s: Seq<char>) -> nat
    decreases s.len(),
{
    if s.len() == 0 || s[0] == '-' {
        0
    } else {
        1 + before_hyphen(s.skip(1))
    }
}

/// Whether a character may stand in a pre-release suffix.
pub open spec fn suffix_character(c: char) -> bool {
    ('a' <= c && c <= 'z') || ('0' <= c && c <= '9') || c == '.'
}

/// Whether a pre-release suffix holds only what it may.
pub open spec fn clean_suffix(s: Seq<char>) -> bool {
    forall|i: int| 0 <= i < s.len() ==> suffix_character(#[trigger] s[i])
}

/// The flaw of a version.
pub open spec fn version_flaw(version: Seq<char>) -> Option<NameFlaw> {
    let at = before_hyphen(version) as int;
    let parts = split_on(version.take(at), '.');
    if version.len() == 0 {
        Some(NameFlaw::EmptyVersion)
    } else if parts.len() != 3 {
        Some(NameFlaw::Core)
    } else if !all_digits(parts[0]) || !all_digits(parts[1]) || !all_digits(parts[2]) {
        Some(NameFlaw::Number)
    } else if at == version.len() {
        None
    } else if version.skip(at + 1).len() == 0 {
        Some(NameFlaw::EmptySuffix)
    } else if !clean_suffix(version.skip(at + 1)) {
        Some(NameFlaw::SuffixCharacter)
    } else {
        None
    }
}

proof fn lemma_before_hyphen(s: Seq<char>, at: int)
    requires
        0 <= at <= s.len(),
        forall|j: int| 0 <= j < at ==> s[j] != '-',
        at < s.len() ==> s[at] == '-',
    ensures
        before_hyphen(s) == at,
    decreases at,
{
    if at > 0 {
        let rest = s.skip(1);
        assert forall|j: int| 0 <= j < at - 1 implies rest[j] != '-' by {
            assert(rest[j] == s[j + 1]);
        }
        if at < s.len() {
            assert(rest[at - 1] == s[at]);
        }
        lemma_before_hyphen(rest, at - 1);
    }
}

fn digits_only(chars: &[char]) -> (b: bool)
    ensures
        b == all_digits(chars@),
{
    if chars.len() == 0 {
        return false;
    }
    let mut i: usize = 0;
    while i < chars.len()
        invariant
            i <= chars@.len(),
            forall|j: int| 0 <= j < i ==> is_digit(#[trigger] chars@[j]),
        decreases chars@.len() - i,
    {
        let c: char = chars[i];
        if !('0' <= c && c <= '9') {
            assert(!is_digit(chars@[i as int]));
            return false;
        }
        i = i + 1;
    }
    true
}

fn suffix_is_clean(chars: &[char]) -> (b: bool)
    ensures
        b == clean_suffix(chars@),
{
    let mut i: usize = 0;
    while i < chars.len()
        invariant
            i <= chars@.len(),
            forall|j: int| 0 <= j < i ==> suffix_character(#[trigger] chars@[j]),
        decreases chars@.len() - i,
    {
        let c: char = chars[i];
        if !(('a' <= c && c <= 'z') || ('0' <= c && c <= '9') || c == '.') {
            assert(!suffix_character(chars@[i as int]));
            return false;
        }
        i = i + 1;
    }
    true
}

/// Validates a version: three numbers with points between them, and optionally a
/// hyphen and a suffix of lower-case letters, digits and points.
pub fn validate_version(version: &str) -> (r: Result<(), PipePathError>)
    ensures
        match r {
            Ok(()) => version_flaw(version@) is None,
            Err(e) => version_flaw(version@) matches Some(flaw) && reports_flaw(
                e,
                version@,
                flaw,
            ),
        },
{
    let chars = chars_of(version);
    if chars.len() == 0 {
        return Err(flawed(version, NameFlaw::EmptyVersion));
    }
    let mut at: usize = 0;
    while at < chars.len() && chars[at] != '-'
        invariant
            at <= chars@.len(),
            forall|j: int| 0 <= j < at ==> chars@[j] != '-',
        ensures
            at <= chars@.len(),
            forall|j: int| 0 <= j < at ==> chars@[j] != '-',
            at < chars@.len() ==> chars@[at as int] == '-',
        decreases chars@.len() - at,
    {
        at = at + 1;
    }
    proof {
        lemma_before_hyphen(version@, at as int);
    }
    let core = slice_subrange(chars.as_slice(), 0, at);
    assert(core@ =~= version@.take(at as int));
    let ranges = split_ranges(core, '.');
    let ghost parts = split_on(version@.take(at as int), '.');
    if ranges.len() != 3 {
        return Err(flawed(version, NameFlaw::Core));
    }
    assert(ranges@[0].0 <= ranges@[0].1 <= core@.len());
    assert(ranges@[1].0 <= ranges@[1].1 <= core@.len());
    assert(ranges@[2].0 <= ranges@[2].1 <= core@.len());
    if !digits_only(slice_subrange(core, ranges[0].0, ranges[0].1)) || !digits_only(
        slice_subrange(core, ranges[1].0, ranges[1].1),
    ) || !digits_only(slice_subrange(core, ranges[2].0, ranges[2].1)) {
        return Err(flawed(version, NameFlaw::Number));
    }
    if at == chars.len() {
        return Ok(());
    }
    let tail = slice_subrange(chars.as_slice(), at + 1, chars.len());
    assert(tail@ =~= version@.skip(at as int + 1));
    if tail.len() == 0 {
        return Err(flawed(version, NameFlaw::EmptySuffix));
    }
    if !suffix_is_clean(tail) {
        return Err(flawed(version, NameFlaw::SuffixCharacter));
    }
    Ok(())
}

/// Three numbers with points between them.
pub open spec fn core_text(major: Seq<char>, minor: Seq<char>, patch: Seq<char>) -> Seq<char> {
    major.push('.') + minor.push('.') + patch
}

proof fn lemma_split_plain(s: Seq<char>, tail: Seq<char>, separator: char)
    requires
        forall|i: int| 0 <= i < tail.len() ==> tail[i] != separator,
    ensures
        split_on(s + tail, separator) == split_on(s, separator).drop_last().push(
            split_on(s, separator).last() + tail,
        ),
    decreases tail.len(),
{
    crate::text::lemma_split_nonempty(s, separator);
    let parts = split_on(s, separator);
    if tail.len() == 0 {
        assert(s + tail =~= s);
        assert(parts.last() + tail =~= parts.last());
        assert(parts =~= parts.drop_last().push(parts.last()));
    } else {
        let shorter = tail.drop_last();
        lemma_split_plain(s, shorter, separator);
        assert((s + tail).drop_last() =~= s + shorter);
        assert((s + tail).last() == tail.last());
        let before = split_on(s + shorter, separator);
        assert(before.last() == parts.last() + shorter);
        assert((parts.last() + shorter).push(tail.last()) =~= parts.last() + tail);
        assert(before.drop_last() =~= parts.drop_last());
    }
}

proof fn lemma_split_core(major: Seq<char>, minor: Seq<char>, patch: Seq<char>)
    requires
        all_digits(major),
        all_digits(minor),
        all_digits(patch),
    ensures
        split_on(core_text(major, minor, patch), '.') == seq![major, minor, patch],
{
    let none = Seq::<char>::empty();
    let one = major.push('.');
    let two = one + minor.push('.');
    assert forall|i: int| 0 <= i < major.len() implies major[i] != '.' by {
        assert(is_digit(major[i]));
    }
    assert forall|i: int| 0 <= i < minor.len() implies minor[i] != '.' by {
        assert(is_digit(minor[i]));
    }
    assert forall|i: int| 0 <= i < patch.len() implies patch[i] != '.' by {
        assert(is_digit(patch[i]));
    }
    lemma_split_plain(none, major, '.');
    assert(none + major =~= major);
    assert(split_on(major, '.') =~= seq![major]);
    assert(one.drop_last() =~= major);
    assert(split_on(one, '.') =~= seq![major, none]);
    lemma_split_plain(one, minor, '.');
    assert(split_on(one + minor, '.') =~= seq![major, minor]);
    assert(two.drop_last() =~= one + minor);
    assert(split_on(two, '.') =~= seq![major, minor, none]);
    lemma_split_plain(two, patch, '.');
    assert(split_on(two + patch, '.') =~= seq![major, minor, patch]);
}

/// The parts with separators between them.
pub open spec fn rejoined(parts: Seq<Seq<char>>, separator: char) -> Seq<char>
    decreases parts.len(),
{
    if parts.len() == 0 {
        Seq::empty()
    } else if parts.len() == 1 {
        parts[0]
    } else {
        rejoined(parts.drop_last(), separator).push(separator) + parts.last()
    }
}

proof fn lemma_rejoined(s: Seq<char>, separator: char)
    ensures
        rejoined(split_on(s, separator), separator) == s,
    decreases s.len(),
{
    if s.len() > 0 {
        let front = s.drop_last();
        let parts = split_on(front, separator);
        lemma_rejoined(front, separator);
        crate::text::lemma_split_nonempty(front, separator);
        if s.last() == separator {
            let more = parts.push(Seq::empty());
            assert(more.drop_last() =~= parts);
            assert(rejoined(more, separator) =~= s);
        } else {
            let grown = parts.drop_last().push(parts.last().push(s.last()));
            if parts.len() == 1 {
                assert(grown.len() == 1);
                assert(rejoined(grown, separator) =~= s);
            } else {
                assert(grown.drop_last() =~= parts.drop_last());
                let head = rejoined(parts.drop_last(), separator).push(separator);
                assert(front == head + parts.last());
                assert(grown.last() == parts.last().push(s.last()));
                assert(rejoined(grown, separator) == head + parts.last().push(s.last()));
                assert(head + parts.last().push(s.last()) =~= front.push(s.last()));
                assert(s =~= front.push(s.last()));
            }
        }
    }
}

/// A version is valid exactly if it is three numbers with points between them,
/// alone or with a hyphen and a suffix that is not empty.
pub proof fn law_version_grammar(version: Seq<char>)
    ensures
        version_flaw(version) is None <==> exists|
            major: Seq<char>,
            minor: Seq<char>,
            patch: Seq<char>,
            suffix: Option<Seq<char>>,
        | #[trigger]
            is_version(version, major, minor, patch, suffix),
{
    if version_flaw(version) is None {
        let at = before_hyphen(version) as int;
        let core = version.take(at);
        let parts = split_on(core, '.');
        lemma_hyphen_position(version);
        lemma_rejoined(core, '.');
        reveal_with_fuel(rejoined, 4);
        assert(parts.drop_last().drop_last() =~= seq![parts[0]]);
        assert(core =~= core_text(parts[0], parts[1], parts[2]));
        if at == version.len() {
            assert(core =~= version);
            assert(is_version(version, parts[0], parts[1], parts[2], None));
        } else {
            let suffix = version.skip(at + 1);
            assert(version =~= core.push('-') + suffix);
            assert(is_version(version, parts[0], parts[1], parts[2], Some(suffix)));
        }
    }
    if exists|
        major: Seq<char>,
        minor: Seq<char>,
        patch: Seq<char>,
        suffix: Option<Seq<char>>,
    | #[trigger]
        is_version(version, major, minor, patch, suffix) {
        let (major, minor, patch, suffix) = choose|
            major: Seq<char>,
            minor: Seq<char>,
            patch: Seq<char>,
            suffix: Option<Seq<char>>,
        | #[trigger]
            is_version(version, major, minor, patch, suffix);
        let core = core_text(major, minor, patch);
        lemma_split_core(major, minor, patch);
        assert forall|j: int| 0 <= j < core.len() implies core[j] != '-' by {
            let n = major.len() as int;
            let m = n + 1 + minor.len();
            if j < n {
                assert(core[j] == major[j] && is_digit(major[j]));
            } else if n < j < m {
                assert(core[j] == minor[j - n - 1] && is_digit(minor[j - n - 1]));
            } else if m < j {
                assert(core[j] == patch[j - m - 1] && is_digit(patch[j - m - 1]));
            }
        }
        match suffix {
            None => {
                lemma_before_hyphen(version, core.len() as int);
                assert(version.take(core.len() as int) =~= core);
            },
            Some(tail) => {
                assert forall|j: int| 0 <= j < core.len() implies version[j] != '-' by {
                    assert(version[j] == core[j]);
                }
                lemma_before_hyphen(version, core.len() as int);
                assert(version.take(core.len() as int) =~= core);
                assert(version.skip(core.len() as int + 1) =~= tail);
            },
        }
    }
}

/// Whether a version consists of the given numbers and suffix.
pub open spec fn is_version(
    version: Seq<char>,
    major: Seq<char>,
    minor: Seq<char>,
    patch: Seq<char>,
    suffix: Option<Seq<char>>,
) -> bool {
    &&& all_digits(major)
    &&& all_digits(minor)
    &&& all_digits(patch)
    &&& match suffix {
        None => version == core_text(major, minor, patch),
        Some(tail) => tail.len() > 0 && clean_suffix(tail) && version == core_text(
            major,
            minor,
            patch,
        ).push('-') + tail,
    }
}

proof fn lemma_hyphen_position(s: Seq<char>)
    ensures
        before_hyphen(s) <= s.len(),
        before_hyphen(s) < s.len() ==> s[before_hyphen(s) as int] == '-',
    decreases s.len(),
{
    if s.len() > 0 && s[0] != '-' {
        lemma_hyphen_position(s.skip(1));
    }
}

/// Letters from a to z, digits and hyphens may stand in a service name, and nothing
/// else; in a pre-release suffix a point takes the place of the hyphen.
pub proof fn law_allowed_characters(c: char)
    ensures
        name_character(c) <==> (97 <= c as int <= 122 || 48 <= c as int <= 57 || c as int == 45),
        suffix_character(c) <==> (97 <= c as int <= 122 || 48 <= c as int <= 57 || c as int == 46),
{
}

/// A name without characters and a name of more than sixty-four bytes are reported
/// as such. Any other name is rejected for its first character that may not stand
/// there, and an upper-case letter is told from the rest.
pub proof fn law_the_first_flaw_is_reported(name: Seq<char>, at: int)
    ensures
        name.len() == 0 ==> name_flaw(name) == Some(NameFlaw::EmptyName),
        encode_utf8(name).len() > 64 ==> name_flaw(name) == Some(NameFlaw::LongName),
        0 <= at < name.len() && encode_utf8(name).len() <= 64 && !name_character(name[at]) && (
        forall|j: int| 0 <= j < at ==> name_character(#[trigger] name[j])) ==> name_flaw(name)
            == Some(
            if 65 <= name[at] as int <= 90 {
                NameFlaw::UpperCase
            } else {
                NameFlaw::ForeignCharacter
            },
        ),
{
    if name.len() == 0 {
        lemma_empty_text(name);
    }
    if 0 <= at < name.len() && !name_character(name[at]) && (forall|j: int|
        0 <= j < at ==> name_character(#[trigger] name[j])) {
        let front = name.take(at + 1);
        assert(front.drop_last() =~= name.take(at));
        assert(front.last() == name[at]);
        lemma_character_flaw_none(name.take(at));
        assert(character_flaw(front) is Some);
        lemma_character_flaw_prefix(name, at + 1);
    }
}

proof fn lemma_empty_text(text: Seq<char>)
    requires
        text.len() == 0,
    ensures
        encode_utf8(text).len() == 0,
{
    assert(text =~= Seq::empty());
    assert(encode_utf8(Seq::empty()).len() == 0);
}

/// A version is rejected for the first thing that is wrong with it: that it is
/// empty, that it has not three parts, that a part is no number, that the suffix
/// after the hyphen is empty, or that it holds what it may not.
pub proof fn law_the_first_flaw_of_a_version_is_reported(
    major: Seq<char>,
    minor: Seq<char>,
    patch: Seq<char>,
    suffix: Seq<char>,
)
    requires
        all_digits(major),
        all_digits(minor),
        all_digits(patch),
    ensures
        version_flaw(Seq::empty()) == Some(NameFlaw::EmptyVersion),
        version_flaw(major) == Some(NameFlaw::Core),
        version_flaw(major.push('.') + minor) == Some(NameFlaw::Core),
        version_flaw(core_text(major, minor, patch)) is None,
        version_flaw(core_text(major, minor, patch).push('-') + suffix) == (if suffix.len() == 0 {
            Some(NameFlaw::EmptySuffix)
        } else if exists|i: int|
            0 <= i < suffix.len() && !suffix_character(#[trigger] suffix[i]) {
            Some(NameFlaw::SuffixCharacter)
        } else {
            None::<NameFlaw>
        }),
{
    let core = core_text(major, minor, patch);
    assert(forall|i: int| 0 <= i < core.len() ==> core[i] != '-');
    lemma_before_hyphen(core, core.len() as int);
    assert(core.take(core.len() as int) =~= core);
    lemma_split_core(major, minor, patch);
    let full = core.push('-') + suffix;
    lemma_before_hyphen(full, core.len() as int);
    assert(full.take(core.len() as int) =~= core);
    assert(full.skip(core.len() as int + 1) =~= suffix);
    lemma_before_hyphen(major, major.len() as int);
    assert(major.take(major.len() as int) =~= major);
    let none = Seq::<char>::empty();
    assert(none + major =~= major);
    lemma_split_plain(none, major, '.');
    let front = major.push('.');
    assert(front.drop_last() =~= major);
    lemma_split_plain(front, minor, '.');
    let two = front + minor;
    assert(forall|i: int| 0 <= i < two.len() ==> two[i] != '-');
    lemma_before_hyphen(two, two.len() as int);
    assert(two.take(two.len() as int) =~= two);
}

/// An error about a name shows the name and says the flaw in words, and is never an
/// error about a path.
pub proof fn law_flaws_are_reported_with_their_name(
    e: PipePathError,
    name: Seq<char>,
    flaw: NameFlaw,
)
    requires
        reports_flaw(e, name, flaw),
    ensures
        e is InvalidName,
        e->InvalidName_name@ == name,
        e->reason@ == flaw.text(),
        flaw.text().is_suffix_of(e.text()),
{
}

} // verus!
