//! The version model: what a tag says about the version of an image.

pub mod component;
pub mod extended;
pub mod scan;
pub mod semver;
pub mod standard;
pub mod tag;

use crate::status::{Status, StatusModel};
use crate::version::tag::{classified, parsed, tag_order, StandardVersion, TagModel};
use std::cmp::Ordering;
use vstd::prelude::*;

verus! {

/// How the version of an image is told from its tag.
#[derive(Clone, Copy, Debug, PartialEq, Eq, Structural)]
pub enum VersionType {
    /// Tell the kind of version from the tag itself.
    Auto,
    Standard,
    Extended,
    Date,
    Digest,
}

/// The kinds of tag that hold a version.
#[derive(Clone, Copy, Debug, PartialEq, Eq, Structural)]
pub enum TagType {
    Standard,
    Extended,
}

/// The version of an image, whatever its kind. `Unknown` stands for a tag
/// that holds no version; such an image is compared by digest.
#[derive(Debug, PartialEq)]
#[non_exhaustive]
pub enum Version {
    Unknown,
    Semver(StandardVersion),
}

impl View for Version {
    type V = Option<TagModel>;

    open spec fn view(&self) -> Option<TagModel> {
        match self {
            Version::Unknown => None,
            Version::Semver(v) => Some(v@),
        }
    }
}

impl Default for Version {
    fn default() -> (r: Self)
        ensures
            r@ is None,
    {
        Version::Unknown
    }
}

/// How two versions of any kind compare: an unknown version compares with
/// nothing, not even with another unknown one.
pub open spec fn version_order(a: Option<TagModel>, b: Option<TagModel>) -> Option<Ordering> {
    match (a, b) {
        (Some(x), Some(y)) => tag_order(x, y),
        _ => None,
    }
}

/// What a remote version of any kind means for an image that runs the local
/// one. A version that is unknown on either side tells nothing.
pub open spec fn version_classified(
    remote: Option<TagModel>,
    local: Option<TagModel>,
) -> StatusModel {
    match (remote, local) {
        (Some(r), Some(l)) => classified(r, l),
        _ => StatusModel::Unknown("tag does not exist"@),
    }
}

impl Version {
    /// What this version, found at the registry, means for an image that
    /// runs `base`.
    pub fn to_status(&self, base: &Version) -> (r: Status)
        ensures
            r@ == version_classified(self@, base@),
    {
        match (self, base) {
            (Version::Semver(a), Version::Semver(b)) => a.to_status(b),
            _ => Status::Unknown("tag does not exist".to_owned()),
        }
    }

    /// Reads the tag as a version of numbers separated by dots.
    pub fn from_standard(tag: &str) -> (r: Result<Self, ()>)
        ensures
            r is Ok <==> parsed(tag@) is Some,
            r matches Ok(v) ==> v@ == parsed(tag@),
    {
        match StandardVersion::from_tag(tag) {
            Ok(version) => Ok(Version::Semver(version)),
            Err(e) => Err(e),
        }
    }

    /// The template of the version, if it has one.
    pub fn format_string(&self) -> (r: Option<String>)
        ensures
            match self@ {
                Some(m) => r is Some && r.unwrap()@ == m.template(),
                None => r is None,
            },
    {
        match self {
            Version::Semver(v) => Some(v.format_str()),
            Version::Unknown => None,
        }
    }

    /// Reads the version of a tag; `Unknown` when the tag holds none. The
    /// kind of tag, where it is given, must be one that can be read.
    pub fn from(tag: &str, tag_type: Option<&TagType>) -> (r: Self)
        requires
            tag_type matches Some(t) ==> t is Standard,
        ensures
            r@ == parsed(tag@),
    {
        match Self::from_standard(tag) {
            Ok(v) => v,
            Err(_) => Version::Unknown,
        }
    }

    /// The kind of tag that the version was read from.
    pub fn tag_type(&self) -> (r: Option<TagType>)
        ensures
            r == if self@ is Some {
                Some(TagType::Standard)
            } else {
                None
            },
    {
        match self {
            Version::Semver(_) => Some(TagType::Standard),
            Version::Unknown => None,
        }
    }

    /// The version as numbers separated by dots, if it is one.
    pub fn as_standard(&self) -> (r: Option<&StandardVersion>)
        ensures
            match self@ {
                Some(m) => r is Some && r.unwrap()@ == m,
                None => r is None,
            },
    {
        match self {
            Version::Semver(s) => Some(s),
            _ => None,
        }
    }

    /// A copy of the version.
    pub fn duplicate(&self) -> (r: Self)
        ensures
            r@ == self@,
    {
        match self {
            Version::Semver(s) => Version::Semver(s.duplicate()),
            Version::Unknown => Version::Unknown,
        }
    }
}

impl PartialOrd for Version {
    fn partial_cmp(&self, other: &Self) -> (r: Option<Ordering>) {
        match (self, other) {
            (Version::Semver(a), Version::Semver(b)) => a.partial_cmp(b),
            _ => None,
        }
    }
}

impl vstd::std_specs::cmp::PartialOrdSpecImpl for Version {
    open spec fn obeys_partial_cmp_spec() -> bool {
        true
    }

    open spec fn partial_cmp_spec(&self, other: &Self) -> Option<Ordering> {
        version_order(self@, other@)
    }
}

} // verus!
