//! The outcome of a check.

use vstd::prelude::*;

verus! {

/// What a check found out about an image. The variants stand in the order
/// in which results are listed.
#[derive(Clone, Debug, PartialEq, Eq, PartialOrd, Ord)]
pub enum Status {
    UpdateMajor,
    UpdateMinor,
    UpdatePatch,
    UpdateAvailable,
    UpToDate,
    Unknown(String),
}

/// A status with its reason as plain text.
pub enum StatusModel {
    UpdateMajor,
    UpdateMinor,
    UpdatePatch,
    UpdateAvailable,
    UpToDate,
    Unknown(Seq<char>),
}

impl StatusModel {
    /// The place of a status in a listing: major updates first, unknown last.
    pub open spec fn rank(self) -> nat {
        match self {
            StatusModel::UpdateMajor => 0,
            StatusModel::UpdateMinor => 1,
            StatusModel::UpdatePatch => 2,
            StatusModel::UpdateAvailable => 3,
            StatusModel::UpToDate => 4,
            StatusModel::Unknown(_) => 5,
        }
    }

    /// `Some(true)` for an update, `Some(false)` for none, `None` when
    /// nothing is known.
    pub open spec fn has_update(self) -> Option<bool> {
        match self {
            StatusModel::UpToDate => Some(false),
            StatusModel::Unknown(_) => None,
            _ => Some(true),
        }
    }

    /// The words that stand for the status in a listing.
    pub open spec fn label(self) -> Seq<char> {
        match self {
            StatusModel::UpdateMajor => "Major update"@,
            StatusModel::UpdateMinor => "Minor update"@,
            StatusModel::UpdatePatch => "Patch update"@,
            StatusModel::UpdateAvailable => "Update available"@,
            StatusModel::UpToDate => "Up to date"@,
            StatusModel::Unknown(_) => "Unknown"@,
        }
    }
}

impl View for Status {
    type V = StatusModel;

    open spec fn view(&self) -> StatusModel {
        match self {
            Status::UpdateMajor => StatusModel::UpdateMajor,
            Status::UpdateMinor => StatusModel::UpdateMinor,
            Status::UpdatePatch => StatusModel::UpdatePatch,
            Status::UpdateAvailable => StatusModel::UpdateAvailable,
            Status::UpToDate => StatusModel::UpToDate,
            Status::Unknown(reason) => StatusModel::Unknown(reason@),
        }
    }
}

impl Default for Status {
    fn default() -> (r: Self)
        ensures
            r@ == StatusModel::Unknown(Seq::<char>::empty()),
    {
        Status::Unknown(String::new())
    }
}

impl Status {
    /// Whether there is an update, as far as it is known.
    pub fn to_option_bool(&self) -> (r: Option<bool>)
        ensures
            r == self@.has_update(),
    {
        match self {
            Status::UpToDate => Some(false),
            Status::Unknown(_) => None,
            _ => Some(true),
        }
    }

    /// The place of the status in a listing.
    pub fn rank(&self) -> (r: u8)
        ensures
            r == self@.rank(),
    {
        match self {
            Status::UpdateMajor => 0,
            Status::UpdateMinor => 1,
            Status::UpdatePatch => 2,
            Status::UpdateAvailable => 3,
            Status::UpToDate => 4,
            Status::Unknown(_) => 5,
        }
    }

    /// The words that stand for the status in a listing.
    pub fn to_string(&self) -> (r: String)
        ensures
            r@ == self@.label(),
    {
        let label: &str = match self {
            Status::UpdateMajor => "Major update",
            Status::UpdateMinor => "Minor update",
            Status::UpdatePatch => "Patch update",
            Status::UpdateAvailable => "Update available",
            Status::UpToDate => "Up to date",
            Status::Unknown(_) => "Unknown",
        };
        label.to_owned()
    }

    /// A copy of the status.
    pub fn duplicate(&self) -> (r: Self)
        ensures
            r@ == self@,
    {
        match self {
            Status::UpdateMajor => Status::UpdateMajor,
            Status::UpdateMinor => Status::UpdateMinor,
            Status::UpdatePatch => Status::UpdatePatch,
            Status::UpdateAvailable => Status::UpdateAvailable,
            Status::UpToDate => Status::UpToDate,
            Status::Unknown(reason) => Status::Unknown(reason.clone()),
        }
    }
}

} // verus!
