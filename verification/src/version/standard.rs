//! Versions written as one to three numbers separated by dots, and nothing
//! else.

use crate::text::{
    append_chars, append_str, chars_of, decimal_chars, decimal_text, decimal_value, split_chars,
    split_on, string_of, texts, u32_numeral, unsigned_digits,
};
use crate::version::component::VersionComponent;
use std::num::ParseIntError;
use std::str::FromStr;
use vstd::prelude::*;

verus! {

/// A version of one to three numbers, called major, minor and patch. Each
/// may be written with leading zeros.
#[derive(Clone, Copy, Debug, PartialEq, Eq, Structural)]
pub struct StandardVersion {
    pub major: VersionComponent,
    pub minor: Option<VersionComponent>,
    pub patch: Option<VersionComponent>,
}

/// The number of a version that an update changes.
#[derive(Clone, Copy, Debug, PartialEq, Eq, Hash, Structural)]
pub enum StandardUpdateType {
    Major,
    Minor,
    Patch,
}

/// Why a text is no version.
#[derive(Debug, PartialEq)]
pub enum ParseVersionErrorKind {
    /// A number of the version could not be read.
    ParseComponent(ParseIntError),
    /// The text is not made of numbers separated by dots.
    IncorrectFormat,
    /// The text holds this many numbers, which is more than three.
    TooManyComponents(usize),
}

/// A text that is no version, and why.
#[derive(Debug, PartialEq)]
#[non_exhaustive]
pub struct ParseVersionError {
    pub version_string: String,
    pub kind: ParseVersionErrorKind,
}

/// The component that the numeral `t` is read as.
pub open spec fn component_of(t: Seq<char>) -> VersionComponent {
    VersionComponent {
        value: decimal_value(unsigned_digits(t)) as u32,
        length: (t.len() % 256) as u8,
    }
}

/// One of the pieces is empty.
pub open spec fn has_empty(pieces: Seq<Seq<char>>) -> bool {
    exists|i: int| 0 <= i < pieces.len() && (#[trigger] pieces[i]).len() == 0
}

/// What reading a text as a version comes to.
pub enum Outcome {
    Version(StandardVersion),
    IncorrectFormat,
    ParseComponent,
    TooManyComponents(nat),
}

/// What the pieces between the dots of a text are read as. An empty piece
/// makes the format incorrect; then the first three pieces must be numerals,
/// from left to right; then a fourth piece is one too many.
pub open spec fn outcome_of(pieces: Seq<Seq<char>>) -> Outcome {
    if has_empty(pieces) {
        Outcome::IncorrectFormat
    } else if !u32_numeral(pieces[0]) {
        Outcome::ParseComponent
    } else if pieces.len() >= 2 && !u32_numeral(pieces[1]) {
        Outcome::ParseComponent
    } else if pieces.len() >= 3 && !u32_numeral(pieces[2]) {
        Outcome::ParseComponent
    } else if pieces.len() > 3 {
        Outcome::TooManyComponents(pieces.len())
    } else {
        Outcome::Version(
            StandardVersion {
                major: component_of(pieces[0]),
                minor: if pieces.len() >= 2 {
                    Some(component_of(pieces[1]))
                } else {
                    None
                },
                patch: if pieces.len() >= 3 {
                    Some(component_of(pieces[2]))
                } else {
                    None
                },
            },
        )
    }
}

/// What a text is read as.
pub open spec fn outcome(s: Seq<char>) -> Outcome {
    outcome_of(split_on(s, '.'))
}

/// Whether a result of reading says what `o` says.
pub open spec fn agrees(r: Result<StandardVersion, ParseVersionError>, o: Outcome) -> bool {
    match o {
        Outcome::Version(v) => r == Ok::<StandardVersion, ParseVersionError>(v),
        Outcome::IncorrectFormat => r is Err && r->Err_0.kind is IncorrectFormat,
        Outcome::ParseComponent => r is Err && r->Err_0.kind is ParseComponent,
        Outcome::TooManyComponents(n) => r is Err && r->Err_0.kind
            == ParseVersionErrorKind::TooManyComponents(n as usize),
    }
}

impl ParseVersionErrorKind {
    /// What went wrong, in words.
    pub open spec fn message(self) -> Seq<char> {
        match self {
            ParseVersionErrorKind::IncorrectFormat => "version string is incorrectly formatted"@,
            ParseVersionErrorKind::ParseComponent(_) => "version component is not a valid integer"@,
            ParseVersionErrorKind::TooManyComponents(n) =>
                "expected up to three version components, received "@ + decimal_text(n as nat),
        }
    }

    /// What went wrong, in words.
    pub fn to_string(&self) -> (r: String)
        ensures
            r@ == self.message(),
    {
        match self {
            ParseVersionErrorKind::IncorrectFormat => {
                "version string is incorrectly formatted".to_owned()
            },
            ParseVersionErrorKind::ParseComponent(_) => {
                "version component is not a valid integer".to_owned()
            },
            ParseVersionErrorKind::TooManyComponents(n) => {
                let mut r = chars_of("expected up to three version components, received ");
                append_chars(&mut r, &decimal_chars(*n as u64));
                string_of(&r)
            },
        }
    }
}

impl ParseVersionError {
    pub fn new(version_string: String, kind: ParseVersionErrorKind) -> (r: Self)
        ensures
            r.version_string == version_string,
            r.kind == kind,
    {
        ParseVersionError { version_string, kind }
    }

    /// The error in words.
    pub open spec fn message(self) -> Seq<char> {
        "failed to parse `"@ + self.version_string@ + "` as standard version"@
    }

    /// The error in words.
    pub fn to_string(&self) -> (r: String)
        ensures
            r@ == self.message(),
    {
        let mut r = chars_of("failed to parse `");
        append_str(&mut r, self.version_string.as_str());
        append_str(&mut r, "` as standard version");
        string_of(&r)
    }
}

/// Whether one of the pieces is empty.
fn any_empty(pieces: &Vec<Vec<char>>) -> (r: bool)
    ensures
        r == has_empty(texts(pieces@)),
{
    let mut i: usize = 0;
    while i < pieces.len()
        invariant
            i <= pieces.len(),
            forall|k: int| 0 <= k < i ==> (#[trigger] texts(pieces@)[k]).len() != 0,
        decreases pieces.len() - i,
    {
        if pieces[i].len() == 0 {
            assert(texts(pieces@)[i as int].len() == 0);
            return true;
        }
        assert(texts(pieces@)[i as int].len() != 0);
        i += 1;
    }
    false
}

/// Reads one piece as a component.
fn component(piece: &Vec<char>) -> (r: Result<VersionComponent, ParseIntError>)
    ensures
        r is Ok <==> u32_numeral(piece@),
        r matches Ok(c) ==> c == component_of(piece@),
{
    let s = string_of(piece);
    VersionComponent::parse(s.as_str())
}

impl StandardVersion {
    /// Reads a version: one to three numerals separated by dots.
    pub fn parse(s: &str) -> (r: Result<Self, ParseVersionError>)
        ensures
            agrees(r, outcome(s@)),
            r matches Err(e) ==> e.version_string@ == s@,
    {
        let v = chars_of(s);
        let pieces = split_chars(&v, '.');
        let ghost p = texts(pieces@);
        if any_empty(&pieces) {
            return Err(
                ParseVersionError {
                    version_string: s.to_owned(),
                    kind: ParseVersionErrorKind::IncorrectFormat,
                },
            );
        }
        assert(p[0] == pieces@[0]@);
        let major = match component(&pieces[0]) {
            Ok(c) => c,
            Err(e) => {
                return Err(
                    ParseVersionError {
                        version_string: s.to_owned(),
                        kind: ParseVersionErrorKind::ParseComponent(e),
                    },
                );
            },
        };
        let minor = if pieces.len() >= 2 {
            assert(p[1] == pieces@[1]@);
            match component(&pieces[1]) {
                Ok(c) => Some(c),
                Err(e) => {
                    return Err(
                        ParseVersionError {
                            version_string: s.to_owned(),
                            kind: ParseVersionErrorKind::ParseComponent(e),
                        },
                    );
                },
            }
        } else {
            None
        };
        let patch = if pieces.len() >= 3 {
            assert(p[2] == pieces@[2]@);
            match component(&pieces[2]) {
                Ok(c) => Some(c),
                Err(e) => {
                    return Err(
                        ParseVersionError {
                            version_string: s.to_owned(),
                            kind: ParseVersionErrorKind::ParseComponent(e),
                        },
                    );
                },
            }
        } else {
            None
        };
        if pieces.len() > 3 {
            return Err(
                ParseVersionError {
                    version_string: s.to_owned(),
                    kind: ParseVersionErrorKind::TooManyComponents(pieces.len()),
                },
            );
        }
        Ok(StandardVersion { major, minor, patch })
    }
}

impl FromStr for StandardVersion {
    type Err = ParseVersionError;

    /// Reads a version, as `parse` does.
    fn from_str(s: &str) -> (r: Result<Self, ParseVersionError>)
        ensures
            agrees(r, outcome(s@)),
            r matches Err(e) ==> e.version_string@ == s@,
    {
        StandardVersion::parse(s)
    }
}

} // verus!
