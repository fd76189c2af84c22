//! The report on one image: what is written out for it, and what is read
//! back from the report of another instance.

use crate::reference::{Parts, PartsModel};
use crate::status::{Status, StatusModel};
use crate::text::{
    append_str, chars_of, copy_optional, copy_strings, find, find_char, optional,
    same_text, slice_chars, string_of, strings,
};
use vstd::prelude::*;

verus! {

/// A newer version of an image.
#[derive(Debug, PartialEq)]
pub struct VersionUpdateInfo {
    /// `major`, `minor` or `patch`.
    pub version_update_type: String,
    pub new_tag: String,
    pub current_version: String,
    pub new_version: String,
}

/// The digests of an image, here and at the registry.
#[derive(Debug, PartialEq)]
pub struct DigestUpdateInfo {
    pub local_digests: Vec<String>,
    pub remote_digest: Option<String>,
}

/// How an image was compared, and with what.
#[derive(Debug, PartialEq)]
pub enum UpdateInfo {
    /// Nothing was compared.
    Nothing,
    Version(VersionUpdateInfo),
    Digest(DigestUpdateInfo),
}

/// What came of a check.
#[derive(Debug, PartialEq)]
pub struct UpdateResult {
    pub has_update: Option<bool>,
    pub info: UpdateInfo,
    pub error: Option<String>,
}

/// The report on one image.
#[derive(Debug, PartialEq)]
pub struct Update {
    pub reference: String,
    pub parts: Parts,
    /// Where to read about the image.
    pub url: Option<String>,
    pub result: UpdateResult,
    /// The time that the check took, in milliseconds.
    pub time: u32,
    /// The instance that checked the image, when it was another one.
    pub server: Option<String>,
    /// The containers that run the image.
    pub used_by: Vec<String>,
    /// The status; it is not written out, and a report that was read back
    /// holds the unknown status with an empty reason in its place.
    pub status: Status,
}

pub struct VersionUpdateModel {
    pub version_update_type: Seq<char>,
    pub new_tag: Seq<char>,
    pub current_version: Seq<char>,
    pub new_version: Seq<char>,
}

pub struct DigestUpdateModel {
    pub local_digests: Seq<Seq<char>>,
    pub remote_digest: Option<Seq<char>>,
}

pub enum UpdateInfoModel {
    Nothing,
    Version(VersionUpdateModel),
    Digest(DigestUpdateModel),
}

pub struct UpdateResultModel {
    pub has_update: Option<bool>,
    pub info: UpdateInfoModel,
    pub error: Option<Seq<char>>,
}

pub struct UpdateModel {
    pub reference: Seq<char>,
    pub parts: PartsModel,
    pub url: Option<Seq<char>>,
    pub result: UpdateResultModel,
    pub time: u32,
    pub server: Option<Seq<char>>,
    pub used_by: Seq<Seq<char>>,
    pub status: StatusModel,
}

impl View for VersionUpdateInfo {
    type V = VersionUpdateModel;

    open spec fn view(&self) -> VersionUpdateModel {
        VersionUpdateModel {
            version_update_type: self.version_update_type@,
            new_tag: self.new_tag@,
            current_version: self.current_version@,
            new_version: self.new_version@,
        }
    }
}

impl View for DigestUpdateInfo {
    type V = DigestUpdateModel;

    open spec fn view(&self) -> DigestUpdateModel {
        DigestUpdateModel {
            local_digests: strings(self.local_digests@),
            remote_digest: optional(self.remote_digest),
        }
    }
}

impl View for UpdateInfo {
    type V = UpdateInfoModel;

    open spec fn view(&self) -> UpdateInfoModel {
        match self {
            UpdateInfo::Nothing => UpdateInfoModel::Nothing,
            UpdateInfo::Version(v) => UpdateInfoModel::Version(v@),
            UpdateInfo::Digest(d) => UpdateInfoModel::Digest(d@),
        }
    }
}

impl View for UpdateResult {
    type V = UpdateResultModel;

    open spec fn view(&self) -> UpdateResultModel {
        UpdateResultModel {
            has_update: self.has_update,
            info: self.info@,
            error: optional(self.error),
        }
    }
}

impl View for Update {
    type V = UpdateModel;

    open spec fn view(&self) -> UpdateModel {
        UpdateModel {
            reference: self.reference@,
            parts: self.parts@,
            url: optional(self.url),
            result: self.result@,
            time: self.time,
            server: optional(self.server),
            used_by: strings(self.used_by@),
            status: self.status@,
        }
    }
}

/// The kind of update that a word stands for.
pub open spec fn update_kind(word: Seq<char>) -> Option<StatusModel> {
    if word == "major"@ {
        Some(StatusModel::UpdateMajor)
    } else if word == "minor"@ {
        Some(StatusModel::UpdateMinor)
    } else if word == "patch"@ {
        Some(StatusModel::UpdatePatch)
    } else {
        None
    }
}

impl UpdateResultModel {
    /// The status that the result tells, when it tells one: an update of
    /// the kind that the comparison names, none, or the error.
    pub open spec fn told(self) -> Option<StatusModel> {
        match self.has_update {
            Some(true) => match self.info {
                UpdateInfoModel::Version(v) => update_kind(v.version_update_type),
                UpdateInfoModel::Digest(_) => Some(StatusModel::UpdateAvailable),
                UpdateInfoModel::Nothing => None,
            },
            Some(false) => Some(StatusModel::UpToDate),
            None => match self.error {
                Some(e) => Some(StatusModel::Unknown(e)),
                None => None,
            },
        }
    }
}

impl UpdateModel {
    /// The status says nothing: it is unknown, with an empty reason.
    pub open spec fn unset(self) -> bool {
        self.status matches StatusModel::Unknown(reason) && reason.len() == 0
    }

    /// The report tells a status: it holds one, or its result tells one.
    pub open spec fn well_formed(self) -> bool {
        self.unset() ==> self.result.told() is Some
    }

    /// The status of the report: the one it holds, or, where that says
    /// nothing, the one that its result tells.
    pub open spec fn status(self) -> StatusModel {
        if self.unset() {
            self.result.told().unwrap()
        } else {
            self.status
        }
    }
}

impl UpdateModel {
    /// The reference of the image that takes the place of this one in an
    /// upgrade. For a newer version it is the reference up to its first
    /// colon, and then the new tag; for a newer digest it is the reference
    /// itself. There is none where nothing was compared, or where the
    /// reference of a newer version holds no colon.
    pub open spec fn upgrade_target(self) -> Option<Seq<char>> {
        match self.result.info {
            UpdateInfoModel::Nothing => None,
            UpdateInfoModel::Digest(_) => Some(self.reference),
            UpdateInfoModel::Version(v) => {
                let colon = find(self.reference, ':', 0);
                if colon < self.reference.len() {
                    Some(self.reference.subrange(0, colon) + seq![':'] + v.new_tag)
                } else {
                    None
                }
            },
        }
    }
}

impl Update {
    /// The reference of the image that takes the place of this one in an
    /// upgrade.
    pub fn new_image(&self) -> (r: Option<String>)
        ensures
            optional(r) == self@.upgrade_target(),
    {
        match &self.result.info {
            UpdateInfo::Nothing => None,
            UpdateInfo::Digest(_) => Some(self.reference.clone()),
            UpdateInfo::Version(v) => {
                let reference = chars_of(self.reference.as_str());
                let colon = find_char(&reference, ':', 0);
                if colon < reference.len() {
                    let mut target = slice_chars(&reference, 0, colon);
                    target.push(':');
                    append_str(&mut target, v.new_tag.as_str());
                    Some(string_of(&target))
                } else {
                    None
                }
            },
        }
    }
}

impl VersionUpdateInfo {
    pub fn duplicate(&self) -> (r: Self)
        ensures
            r@ == self@,
    {
        VersionUpdateInfo {
            version_update_type: self.version_update_type.clone(),
            new_tag: self.new_tag.clone(),
            current_version: self.current_version.clone(),
            new_version: self.new_version.clone(),
        }
    }
}

impl DigestUpdateInfo {
    pub fn duplicate(&self) -> (r: Self)
        ensures
            r@ == self@,
    {
        DigestUpdateInfo {
            local_digests: copy_strings(&self.local_digests),
            remote_digest: copy_optional(&self.remote_digest),
        }
    }
}

impl UpdateInfo {
    pub fn duplicate(&self) -> (r: Self)
        ensures
            r@ == self@,
    {
        match self {
            UpdateInfo::Nothing => UpdateInfo::Nothing,
            UpdateInfo::Version(v) => UpdateInfo::Version(v.duplicate()),
            UpdateInfo::Digest(d) => UpdateInfo::Digest(d.duplicate()),
        }
    }
}

impl UpdateResult {
    pub fn duplicate(&self) -> (r: Self)
        ensures
            r@ == self@,
    {
        UpdateResult {
            has_update: self.has_update,
            info: self.info.duplicate(),
            error: copy_optional(&self.error),
        }
    }

    /// The status that the result tells, when it tells one.
    pub fn told(&self) -> (r: Option<Status>)
        ensures
            match self@.told() {
                Some(s) => r is Some && r.unwrap()@ == s,
                None => r is None,
            },
    {
        match self.has_update {
            Some(true) => match &self.info {
                UpdateInfo::Version(v) => {
                    let word = v.version_update_type.as_str();
                    if same_text(word, "major") {
                        Some(Status::UpdateMajor)
                    } else if same_text(word, "minor") {
                        Some(Status::UpdateMinor)
                    } else if same_text(word, "patch") {
                        Some(Status::UpdatePatch)
                    } else {
                        None
                    }
                },
                UpdateInfo::Digest(_) => Some(Status::UpdateAvailable),
                UpdateInfo::Nothing => None,
            },
            Some(false) => Some(Status::UpToDate),
            None => match &self.error {
                Some(e) => Some(Status::Unknown(e.clone())),
                None => None,
            },
        }
    }
}

impl Update {
    /// A copy of the report.
    pub fn duplicate(&self) -> (r: Self)
        ensures
            r@ == self@,
    {
        Update {
            reference: self.reference.clone(),
            parts: self.parts.duplicate(),
            url: copy_optional(&self.url),
            result: self.result.duplicate(),
            time: self.time,
            server: copy_optional(&self.server),
            used_by: copy_strings(&self.used_by),
            status: self.status.duplicate(),
        }
    }

    /// Whether the status of the report says nothing.
    pub fn is_unset(&self) -> (r: bool)
        ensures
            r == self@.unset(),
    {
        match &self.status {
            Status::Unknown(s) => s.as_str().unicode_len() == 0,
            _ => false,
        }
    }

    /// Whether the report tells a status.
    pub fn is_well_formed(&self) -> (r: bool)
        ensures
            r == self@.well_formed(),
    {
        if self.is_unset() {
            self.result.told().is_some()
        } else {
            true
        }
    }

    /// The status of the report.
    pub fn get_status(&self) -> (r: Status)
        requires
            self@.well_formed(),
        ensures
            r@ == self@.status(),
    {
        if self.is_unset() {
            match self.result.told() {
                Some(s) => s,
                None => Status::default(),
            }
        } else {
            self.status.duplicate()
        }
    }
}

} // verus!
