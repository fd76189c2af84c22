//! Versions that are read with a pattern of the caller: each capture group
//! of the pattern is one number of the version. The groups of a pattern are
//! either all named or all anonymous.

use crate::text::{
    append_str, chars_of, decimal_chars, decimal_text, same_text, string_of, u32_numeral,
};
use crate::version::component::VersionComponent;
use crate::version::standard::component_of;
use std::num::ParseIntError;
use vstd::prelude::*;

verus! {

/// `regex::Error`: why a pattern is no regular expression. Nothing is known
/// of a value of this type.
#[verifier::external_type_specification]
#[verifier::external_body]
pub struct ExRegexError(regex::Error);

/// A version read with a pattern: the numbers of its groups, each under the
/// name of its group, or under the number of its group where the groups are
/// anonymous. No name stands twice.
#[derive(Debug, PartialEq)]
pub struct ExtendedVersion {
    pub components: Vec<(String, VersionComponent)>,
}

/// Why a text is no version of a pattern.
#[derive(Debug, PartialEq)]
pub enum ParseVersionErrorKind {
    /// The pattern is no regular expression.
    InvalidRegex(regex::Error),
    /// The pattern has both named and anonymous capture groups.
    NonUniformCaptureGroups,
    /// The text does not match the pattern.
    NoMatch,
    /// A named group took no part in the match, or what it matched is no
    /// number.
    GroupDidNotMatch(String),
    /// What an anonymous group matched is no number.
    ParseComponent(ParseIntError),
}

/// A text that is no version of a pattern, and why.
#[derive(Debug, PartialEq)]
#[non_exhaustive]
pub struct ParseVersionError {
    pub version_string: String,
    pub kind: ParseVersionErrorKind,
}

/// The names of the capture groups of a pattern as `regex` tells them, the
/// group of the whole match first; `None` where the pattern is no regular
/// expression.
pub uninterp spec fn group_names_of(pattern: Seq<char>) -> Option<Seq<Option<Seq<char>>>>;

/// What the capture groups of a pattern hold in the first match that
/// `regex` finds in a text, the whole match first; `None` where the pattern is
/// no regular expression or the text does not match.
pub uninterp spec fn captures_of(pattern: Seq<char>, text: Seq<char>) -> Option<
    Seq<Option<Seq<char>>>,
>;

/// Optional strings as optional texts.
pub open spec fn optional_texts(v: Seq<Option<String>>) -> Seq<Option<Seq<char>>> {
    v.map_values(
        |o: Option<String>|
            match o {
                Some(s) => Some(s@),
                None => None,
            },
    )
}

/// `regex::Regex::new` and `Regex::capture_names`: the name of each capture
/// group of the pattern in the order of the groups, `None` for a group
/// without a name; the error of `Regex::new` where the pattern is no regular
/// expression. The same pattern always gives the same names.
#[verifier::external_body]
pub(crate) fn group_names(pattern: &str) -> (r: Result<Vec<Option<String>>, regex::Error>)
    ensures
        match group_names_of(pattern@) {
            Some(n) => r is Ok && optional_texts(r->Ok_0@) == n,
            None => r is Err,
        },
{
    let re = regex::Regex::new(pattern)?;
    Ok(re.capture_names().map(|n| n.map(|s| s.to_string())).collect())
}

/// `regex::Regex::new` and `Regex::captures`: for the first match of the
/// pattern in the text, what each capture group matched, in the order of the
/// groups, `None` for a group that took no part; `None` where the pattern is
/// no regular expression or the text does not match. The same pattern and
/// text always give the same captures.
#[verifier::external_body]
pub(crate) fn captures(pattern: &str, text: &str) -> (r: Option<Vec<Option<String>>>)
    ensures
        match captures_of(pattern@, text@) {
            Some(c) => r is Some && optional_texts(r->Some_0@) == c,
            None => r is None,
        },
{
    let re = regex::Regex::new(pattern).ok()?;
    let found = re.captures(text)?;
    Some(found.iter().map(|m| m.map(|m| m.as_str().to_string())).collect())
}

/// Numbers under names, as plain values.
pub open spec fn named_models(v: Seq<(String, VersionComponent)>) -> Seq<
    (Seq<char>, VersionComponent),
> {
    v.map_values(|p: (String, VersionComponent)| (p.0@, p.1))
}

impl View for ExtendedVersion {
    type V = Seq<(Seq<char>, VersionComponent)>;

    open spec fn view(&self) -> Seq<(Seq<char>, VersionComponent)> {
        named_models(self.components@)
    }
}

/// The first place from `from` on at which `key` stands, or the length of
/// the list.
pub open spec fn key_place(
    entries: Seq<(Seq<char>, VersionComponent)>,
    key: Seq<char>,
    from: int,
) -> int
    decreases entries.len() - from,
{
    if from < 0 || from >= entries.len() {
        entries.len() as int
    } else if entries[from].0 == key {
        from
    } else {
        key_place(entries, key, from + 1)
    }
}

/// The list with `value` under `key`: in the place of the number that stood
/// under `key`, or at the end where none did.
pub open spec fn put(
    entries: Seq<(Seq<char>, VersionComponent)>,
    key: Seq<char>,
    value: VersionComponent,
) -> Seq<(Seq<char>, VersionComponent)> {
    let at = key_place(entries, key, 0);
    if 0 <= at < entries.len() {
        entries.update(at, (key, value))
    } else {
        entries.push((key, value))
    }
}

/// What reading a text with a pattern comes to.
pub enum Outcome {
    Version(Seq<(Seq<char>, VersionComponent)>),
    InvalidRegex,
    NonUniformCaptureGroups,
    NoMatch,
    GroupDidNotMatch(Seq<char>),
    ParseComponent,
}

/// The groups after the whole match are all named or all anonymous.
pub open spec fn uniform(names: Seq<Option<Seq<char>>>) -> bool {
    forall|i: int, j: int|
        1 <= i < names.len() && 1 <= j < names.len() ==> ((#[trigger] names[i]) is Some) == ((
        #[trigger] names[j]) is Some)
}

/// The groups are named.
pub open spec fn named(names: Seq<Option<Seq<char>>>) -> bool {
    names.len() > 1 && names[1] is Some
}

/// What the group at `i` matched.
pub open spec fn group_text(caps: Seq<Option<Seq<char>>>, i: int) -> Option<Seq<char>> {
    if 0 <= i < caps.len() {
        caps[i]
    } else {
        None
    }
}

/// The numbers of the named groups from `i` on, added to `acc`. Each named
/// group must have matched a number.
pub open spec fn named_from(
    names: Seq<Option<Seq<char>>>,
    caps: Seq<Option<Seq<char>>>,
    i: int,
    acc: Seq<(Seq<char>, VersionComponent)>,
) -> Outcome
    decreases names.len() - i,
{
    if i < 0 || i >= names.len() {
        Outcome::Version(acc)
    } else {
        match names[i] {
            None => named_from(names, caps, i + 1, acc),
            Some(name) => match group_text(caps, i) {
                Some(t) => if u32_numeral(t) {
                    named_from(names, caps, i + 1, put(acc, name, component_of(t)))
                } else {
                    Outcome::GroupDidNotMatch(name)
                },
                None => Outcome::GroupDidNotMatch(name),
            },
        }
    }
}

/// The numbers of the anonymous groups from `i` on, added to `acc`, each
/// under the number of its group. A group that took no part in the match is
/// passed over; what a group matched must be a number.
pub open spec fn anonymous_from(
    caps: Seq<Option<Seq<char>>>,
    i: int,
    acc: Seq<(Seq<char>, VersionComponent)>,
) -> Outcome
    decreases caps.len() - i,
{
    if i < 0 || i >= caps.len() {
        Outcome::Version(acc)
    } else {
        match caps[i] {
            None => anonymous_from(caps, i + 1, acc),
            Some(t) => if u32_numeral(t) {
                anonymous_from(caps, i + 1, put(acc, decimal_text(i as nat), component_of(t)))
            } else {
                Outcome::ParseComponent
            },
        }
    }
}

/// What the names of the groups of a pattern and what they matched in a text
/// come to.
pub open spec fn outcome_of(
    names: Option<Seq<Option<Seq<char>>>>,
    caps: Option<Seq<Option<Seq<char>>>>,
) -> Outcome {
    match names {
        None => Outcome::InvalidRegex,
        Some(n) => if !uniform(n) {
            Outcome::NonUniformCaptureGroups
        } else {
            match caps {
                None => Outcome::NoMatch,
                Some(c) => if named(n) {
                    named_from(n, c, 0, Seq::empty())
                } else {
                    anonymous_from(c, 1, Seq::empty())
                },
            }
        },
    }
}

/// Whether a result says what `o` says.
pub open spec fn agrees(r: Result<ExtendedVersion, ParseVersionError>, o: Outcome) -> bool {
    match o {
        Outcome::Version(v) => r is Ok && r->Ok_0@ == v,
        Outcome::InvalidRegex => r is Err && r->Err_0.kind is InvalidRegex,
        Outcome::NonUniformCaptureGroups => r is Err && r->Err_0.kind is NonUniformCaptureGroups,
        Outcome::NoMatch => r is Err && r->Err_0.kind is NoMatch,
        Outcome::GroupDidNotMatch(name) => r is Err && r->Err_0.kind is GroupDidNotMatch
            && r->Err_0.kind->GroupDidNotMatch_0@ == name,
        Outcome::ParseComponent => r is Err && r->Err_0.kind is ParseComponent,
    }
}

/// Whether the groups after the whole match are all named or all anonymous.
fn is_uniform(names: &Vec<Option<String>>) -> (r: bool)
    ensures
        r == uniform(optional_texts(names@)),
{
    let ghost n = optional_texts(names@);
    let mut i: usize = 2;
    while i < names.len()
        invariant
            2 <= i,
            n == optional_texts(names@),
            forall|k: int| 1 <= k < i && k < n.len() ==> ((#[trigger] n[k]) is Some) == (n[1] is Some),
        decreases names.len() - i,
    {
        assert(n[i as int] is Some == names@[i as int] is Some);
        assert(n[1] is Some == names@[1] is Some);
        if names[i].is_some() != names[1].is_some() {
            return false;
        }
        i += 1;
    }
    assert forall|a: int, b: int| 1 <= a < n.len() && 1 <= b < n.len() implies ((
    #[trigger] n[a]) is Some) == ((#[trigger] n[b]) is Some) by {
        assert((n[a] is Some) == (n[1] is Some));
        assert((n[b] is Some) == (n[1] is Some));
    }
    true
}

/// Puts `value` under `key`.
fn put_in(entries: &mut Vec<(String, VersionComponent)>, key: String, value: VersionComponent)
    ensures
        named_models(final(entries)@) == put(named_models(old(entries)@), key@, value),
{
    let ghost start = named_models(entries@);
    let mut at: usize = 0;
    while at < entries.len() && !same_text(entries[at].0.as_str(), key.as_str())
        invariant
            at <= entries.len(),
            entries@ == old(entries)@,
            start == named_models(entries@),
            key_place(start, key@, 0) == key_place(start, key@, at as int),
        decreases entries.len() - at,
    {
        assert(start[at as int].0 == entries@[at as int].0@);
        at += 1;
    }
    if at < entries.len() {
        assert(start[at as int].0 == entries@[at as int].0@);
        entries.set(at, (key, value));
        assert(named_models(entries@) =~= start.update(at as int, (key@, value)));
    } else {
        entries.push((key, value));
        assert(named_models(entries@) =~= start.push((key@, value)));
    }
}

/// Reads what a group matched as a number.
fn number(text: &str) -> (r: Result<VersionComponent, ParseIntError>)
    ensures
        r is Ok <==> u32_numeral(text@),
        r matches Ok(c) ==> c == component_of(text@),
{
    VersionComponent::parse(text)
}

impl ParseVersionErrorKind {
    /// What went wrong, in words.
    pub open spec fn message(self) -> Seq<char> {
        match self {
            ParseVersionErrorKind::InvalidRegex(_) => "invalid regex"@,
            ParseVersionErrorKind::NonUniformCaptureGroups =>
                "regex has both named and anonymous capture groups"@,
            ParseVersionErrorKind::NoMatch => "version string did not match the regex"@,
            ParseVersionErrorKind::GroupDidNotMatch(name) => "named group `"@ + name@
                + "` did not match"@,
            ParseVersionErrorKind::ParseComponent(_) => "version component is not a valid integer"@,
        }
    }

    /// What went wrong, in words.
    pub fn to_string(&self) -> (r: String)
        ensures
            r@ == self.message(),
    {
        match self {
            ParseVersionErrorKind::InvalidRegex(_) => "invalid regex".to_owned(),
            ParseVersionErrorKind::NonUniformCaptureGroups => {
                "regex has both named and anonymous capture groups".to_owned()
            },
            ParseVersionErrorKind::NoMatch => "version string did not match the regex".to_owned(),
            ParseVersionErrorKind::GroupDidNotMatch(name) => {
                let mut r = chars_of("named group `");
                append_str(&mut r, name.as_str());
                append_str(&mut r, "` did not match");
                string_of(&r)
            },
            ParseVersionErrorKind::ParseComponent(_) => {
                "version component is not a valid integer".to_owned()
            },
        }
    }
}

impl ParseVersionError {
    pub fn new(version_string: String, kind: ParseVersionErrorKind) -> (r: Self)
        ensures
            r.version_string == version_string,
            r.kind == kind,
    {
        ParseVersionError { version_string, kind }
    }

    /// The error in words.
    pub open spec fn message(self) -> Seq<char> {
        "failed to parse `"@ + self.version_string@ + "` as extended version"@
    }

    /// The error in words.
    pub fn to_string(&self) -> (r: String)
        ensures
            r@ == self.message(),
    {
        let mut r = chars_of("failed to parse `");
        append_str(&mut r, self.version_string.as_str());
        append_str(&mut r, "` as extended version");
        string_of(&r)
    }
}

impl ExtendedVersion {
    /// The numbers of the named groups.
    fn from_named(
        version_string: &str,
        names: &Vec<Option<String>>,
        caps: &Vec<Option<String>>,
    ) -> (r: Result<Self, ParseVersionError>)
        ensures
            agrees(
                r,
                named_from(optional_texts(names@), optional_texts(caps@), 0, Seq::empty()),
            ),
            r matches Err(e) ==> e.version_string@ == version_string@,
    {
        let ghost n = optional_texts(names@);
        let ghost c = optional_texts(caps@);
        let mut components: Vec<(String, VersionComponent)> = Vec::new();
        let mut i: usize = 0;
        assert(named_models(components@) =~= Seq::empty());
        while i < names.len()
            invariant
                i <= names.len(),
                n == optional_texts(names@),
                c == optional_texts(caps@),
                named_from(n, c, 0, Seq::empty()) == named_from(
                    n,
                    c,
                    i as int,
                    named_models(components@),
                ),
            decreases names.len() - i,
        {
            assert(n[i as int] is Some == names@[i as int] is Some);
            match &names[i] {
                None => {},
                Some(name) => {
                    assert(n[i as int] == Some(name@));
                    let text = if i < caps.len() {
                        assert(c[i as int] is Some == caps@[i as int] is Some);
                        match &caps[i] {
                            Some(t) => {
                                assert(c[i as int] == Some(t@));
                                Some(t)
                            },
                            None => None,
                        }
                    } else {
                        None
                    };
                    let read = match text {
                        Some(t) => match number(t.as_str()) {
                            Ok(v) => Some(v),
                            Err(_) => None,
                        },
                        None => None,
                    };
                    match read {
                        Some(v) => {
                            put_in(&mut components, name.clone(), v);
                        },
                        None => {
                            return Err(
                                ParseVersionError {
                                    version_string: version_string.to_owned(),
                                    kind: ParseVersionErrorKind::GroupDidNotMatch(name.clone()),
                                },
                            );
                        },
                    }
                },
            }
            i += 1;
        }
        Ok(ExtendedVersion { components })
    }

    /// The numbers of the anonymous groups.
    fn from_anonymous(version_string: &str, caps: &Vec<Option<String>>) -> (r: Result<
        Self,
        ParseVersionError,
    >)
        ensures
            agrees(r, anonymous_from(optional_texts(caps@), 1, Seq::empty())),
            r matches Err(e) ==> e.version_string@ == version_string@,
    {
        let ghost c = optional_texts(caps@);
        let mut components: Vec<(String, VersionComponent)> = Vec::new();
        let mut i: usize = 1;
        assert(named_models(components@) =~= Seq::empty());
        while i < caps.len()
            invariant
                1 <= i,
                c == optional_texts(caps@),
                anonymous_from(c, 1, Seq::empty()) == anonymous_from(
                    c,
                    i as int,
                    named_models(components@),
                ),
            decreases caps.len() - i,
        {
            assert(c[i as int] is Some == caps@[i as int] is Some);
            match &caps[i] {
                None => {},
                Some(t) => {
                    assert(c[i as int] == Some(t@));
                    match number(t.as_str()) {
                        Ok(v) => {
                            put_in(&mut components, string_of(&decimal_chars(i as u64)), v);
                        },
                        Err(e) => {
                            return Err(
                                ParseVersionError {
                                    version_string: version_string.to_owned(),
                                    kind: ParseVersionErrorKind::ParseComponent(e),
                                },
                            );
                        },
                    }
                },
            }
            i += 1;
        }
        Ok(ExtendedVersion { components })
    }

    /// The version that the names of the groups of a pattern and what they
    /// matched in a text come to.
    pub fn from_groups(
        version_string: &str,
        names: Result<Vec<Option<String>>, regex::Error>,
        caps: Option<Vec<Option<String>>>,
    ) -> (r: Result<Self, ParseVersionError>)
        ensures
            agrees(
                r,
                outcome_of(
                    match names {
                        Ok(n) => Some(optional_texts(n@)),
                        Err(_) => None,
                    },
                    match caps {
                        Some(c) => Some(optional_texts(c@)),
                        None => None,
                    },
                ),
            ),
            r matches Err(e) ==> e.version_string@ == version_string@,
    {
        let names = match names {
            Ok(n) => n,
            Err(e) => {
                return Err(
                    ParseVersionError {
                        version_string: version_string.to_owned(),
                        kind: ParseVersionErrorKind::InvalidRegex(e),
                    },
                );
            },
        };
        if !is_uniform(&names) {
            return Err(
                ParseVersionError {
                    version_string: version_string.to_owned(),
                    kind: ParseVersionErrorKind::NonUniformCaptureGroups,
                },
            );
        }
        let caps = match caps {
            Some(c) => c,
            None => {
                return Err(
                    ParseVersionError {
                        version_string: version_string.to_owned(),
                        kind: ParseVersionErrorKind::NoMatch,
                    },
                );
            },
        };
        let is_named = names.len() > 1 && names[1].is_some();
        assert(names.len() > 1 ==> (optional_texts(names@)[1] is Some == names@[1] is Some));
        if is_named {
            Self::from_named(version_string, &names, &caps)
        } else {
            Self::from_anonymous(version_string, &caps)
        }
    }

    /// Reads a text as a version with a pattern.
    pub fn parse(version_string: &str, regex: &str) -> (r: Result<Self, ParseVersionError>)
        ensures
            agrees(
                r,
                outcome_of(group_names_of(regex@), captures_of(regex@, version_string@)),
            ),
            r matches Err(e) ==> e.version_string@ == version_string@,
    {
        let names = group_names(regex);
        let caps = captures(regex, version_string);
        Self::from_groups(version_string, names, caps)
    }

    /// The number under a name.
    pub fn get(&self, name: &str) -> (r: Option<VersionComponent>)
        ensures
            match r {
                Some(c) => 0 <= key_place(self@, name@, 0) < self@.len() && self@[key_place(
                    self@,
                    name@,
                    0,
                )].1 == c,
                None => key_place(self@, name@, 0) == self@.len(),
            },
    {
        let mut i: usize = 0;
        while i < self.components.len()
            invariant
                i <= self.components.len(),
                key_place(self@, name@, 0) == key_place(self@, name@, i as int),
            decreases self.components.len() - i,
        {
            assert(self@[i as int].0 == self.components@[i as int].0@);
            if same_text(self.components[i].0.as_str(), name) {
                assert(self@[i as int].1 == self.components@[i as int].1);
                return Some(self.components[i].1);
            }
            i += 1;
        }
        None
    }
}

} // verus!
