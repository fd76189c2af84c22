//! An image: what is known of it here, and what a check has found out.

use crate::http::ErrorKind;
use crate::reference::{is_splittable, parts_of, split_model, splittable, Parts, PartsModel};
use crate::status::{Status, StatusModel};
use crate::text::{
    append_chars, chars_of, contains_text, copy_optional, copy_strings, find, find_char, has_char, optional,
    slice_chars, string_of, strings,
};
use crate::update::{
    DigestUpdateInfo, DigestUpdateModel, Update, UpdateInfo as Comparison, UpdateInfoModel,
    UpdateModel, UpdateResult, UpdateResultModel, VersionUpdateInfo, VersionUpdateModel,
};
use crate::version::tag::{parsed, TagModel};
use crate::version::{version_classified, TagType, Version};
use vstd::prelude::*;

verus! {

/// What is known of an image here.
#[derive(Debug, PartialEq)]
pub struct Info {
    pub local_digests: Vec<String>,
    pub version: Version,
    pub url: Option<String>,
    /// The containers that run the image.
    pub used_by: Vec<String>,
}

/// What a check has found out about an image.
#[derive(Debug, PartialEq)]
pub struct UpdateInfo {
    pub remote_digest: Option<String>,
    pub latest_version: Option<Version>,
}

/// An image and all that is known of it.
#[derive(Debug, PartialEq)]
pub struct Image {
    pub reference: String,
    pub parts: Parts,
    pub info: Info,
    pub update_info: UpdateInfo,
    pub error: Option<String>,
    pub time_ms: u32,
}

/// An image as plain values.
pub struct ImageModel {
    pub reference: Seq<char>,
    pub parts: PartsModel,
    pub local_digests: Seq<Seq<char>>,
    pub version: Option<TagModel>,
    pub url: Option<Seq<char>>,
    pub used_by: Seq<Seq<char>>,
    pub remote_digest: Option<Seq<char>>,
    pub latest_version: Option<Option<TagModel>>,
    pub error: Option<Seq<char>>,
    pub time_ms: u32,
}

/// The view of an optional version.
pub open spec fn optional_version(o: Option<Version>) -> Option<Option<TagModel>> {
    match o {
        Some(v) => Some(v@),
        None => None,
    }
}

impl View for Image {
    type V = ImageModel;

    open spec fn view(&self) -> ImageModel {
        ImageModel {
            reference: self.reference@,
            parts: self.parts@,
            local_digests: strings(self.info.local_digests@),
            version: self.info.version@,
            url: optional(self.info.url),
            used_by: strings(self.info.used_by@),
            remote_digest: optional(self.update_info.remote_digest),
            latest_version: optional_version(self.update_info.latest_version),
            error: optional(self.error),
            time_ms: self.time_ms,
        }
    }
}

/// The word for a kind of update.
pub open spec fn kind_word(s: StatusModel) -> Seq<char> {
    match s {
        StatusModel::UpdateMajor => "major"@,
        StatusModel::UpdateMinor => "minor"@,
        _ => "patch"@,
    }
}

impl ImageModel {
    /// The image has been checked: there is an error, a remote version or a
    /// remote digest.
    pub open spec fn checked(self) -> bool {
        self.error is Some || self.latest_version is Some || self.remote_digest is Some
    }

    /// The image is compared by version: its tag holds one.
    pub open spec fn versioned(self) -> bool {
        self.version is Some
    }

    /// The status of a checked image. An error makes it unknown. A remote
    /// version is held against the local one. Otherwise the image is up to
    /// date when the remote digest is among the local ones, and has an update
    /// when it is not.
    pub open spec fn status(self) -> StatusModel {
        match self.error {
            Some(e) => StatusModel::Unknown(e),
            None => match self.latest_version {
                Some(latest) => version_classified(latest, self.version),
                None => if self.local_digests.contains(self.remote_digest.unwrap()) {
                    StatusModel::UpToDate
                } else {
                    StatusModel::UpdateAvailable
                },
            },
        }
    }

    /// How the image was compared, and with what: nothing where the status
    /// is unknown or up to date, the versions for an update of a version,
    /// and the digests otherwise.
    pub open spec fn comparison(self) -> UpdateInfoModel {
        match self.status() {
            StatusModel::Unknown(_) => UpdateInfoModel::Nothing,
            StatusModel::UpToDate => UpdateInfoModel::Nothing,
            StatusModel::UpdateAvailable => UpdateInfoModel::Digest(
                DigestUpdateModel {
                    local_digests: self.local_digests,
                    remote_digest: self.remote_digest,
                },
            ),
            kind => UpdateInfoModel::Version(
                VersionUpdateModel {
                    version_update_type: kind_word(kind),
                    new_tag: self.latest_version.unwrap().unwrap().rendered(),
                    current_version: self.version.unwrap().numbers(),
                    new_version: self.latest_version.unwrap().unwrap().numbers(),
                },
            ),
        }
    }

    /// The report on the image.
    pub open spec fn report(self) -> UpdateModel {
        UpdateModel {
            reference: self.reference,
            parts: self.parts,
            url: self.url,
            result: UpdateResultModel {
                has_update: self.status().has_update(),
                info: self.comparison(),
                error: self.error,
            },
            time: self.time_ms,
            server: None,
            used_by: self.used_by,
            status: self.status(),
        }
    }
}

/// The digest in the name of a pulled image, `repository@digest`: the text
/// between the first `@` and the next one.
pub open spec fn digest_of(name: Seq<char>) -> Option<Seq<char>> {
    let at = find(name, '@', 0);
    if at < name.len() {
        Some(name.subrange(at + 1, find(name, '@', at + 1)))
    } else {
        None
    }
}

/// The digests in the names of a pulled image; names without one are left
/// out.
pub open spec fn digests_of(names: Seq<Seq<char>>) -> Seq<Seq<char>>
    decreases names.len(),
{
    if names.len() == 0 {
        Seq::empty()
    } else {
        match digest_of(names.last()) {
            Some(d) => digests_of(names.drop_last()).push(d),
            None => digests_of(names.drop_last()),
        }
    }
}

/// An image can be made from what the container runtime tells of it: it has
/// a tag and a digest, and its first tag names no digest.
pub open spec fn describes(tags: Seq<Seq<char>>, digests: Seq<Seq<char>>) -> bool {
    tags.len() > 0 && digests.len() > 0 && !tags[0].contains('@')
}

/// The image that the container runtime describes.
pub open spec fn described(
    tags: Seq<Seq<char>>,
    digests: Seq<Seq<char>>,
    url: Option<Seq<char>>,
) -> ImageModel {
    ImageModel {
        reference: tags[0],
        parts: split_model(tags[0]),
        local_digests: digests_of(digests),
        version: parsed(split_model(tags[0]).tag),
        url,
        used_by: Seq::empty(),
        remote_digest: None,
        latest_version: None,
        error: None,
        time_ms: 0,
    }
}

/// The image that a reference names, of which nothing is known here.
pub open spec fn referred(reference: Seq<char>) -> ImageModel {
    ImageModel {
        reference,
        parts: split_model(reference),
        local_digests: Seq::empty(),
        version: parsed(split_model(reference).tag),
        url: None,
        used_by: Seq::empty(),
        remote_digest: None,
        latest_version: None,
        error: None,
        time_ms: 0,
    }
}

/// The texts of an optional vector of strings.
pub open spec fn optional_strings(o: Option<Vec<String>>) -> Option<Seq<Seq<char>>> {
    match o {
        Some(v) => Some(strings(v@)),
        None => None,
    }
}

/// What a container runtime tells of an image.
pub trait InspectData {
    /// The references that the image goes by.
    fn tags(&self) -> Option<Vec<String>>;

    /// The names of the image with its digests, `repository@digest`.
    fn digests(&self) -> Option<Vec<String>>;

    /// Where to read about the image.
    fn url(&self) -> Option<String>;
}

/// The image that is made of what a container runtime tells: none where it
/// tells no tags or no digests, where these describe no image, or where the
/// first tag cannot be split.
pub open spec fn inspected(
    tags: Option<Seq<Seq<char>>>,
    digests: Option<Seq<Seq<char>>>,
    url: Option<Seq<char>>,
) -> Option<ImageModel> {
    match (tags, digests) {
        (Some(t), Some(d)) => if describes(t, d) && splittable(t[0]) {
            Some(described(t, d, url))
        } else {
            None
        },
        _ => None,
    }
}

/// The text of `s` before the first `c`.
fn text_before(s: &str, c: char) -> (r: Vec<char>)
    ensures
        r@ == s@.subrange(0, find(s@, c, 0)),
{
    let v = chars_of(s);
    let i = find_char(&v, c, 0);
    slice_chars(&v, 0, i)
}

/// The reference of a pulled image, `repository:tag@digest`, without its
/// digest.
pub open spec fn without_digest(reference: Seq<char>) -> Seq<char> {
    reference.subrange(0, find(reference, '@', 0))
}

/// The name under which a pulled image, `repository:tag@digest`, holds its
/// digest: the reference up to its first colon or `@`, and then the digest
/// with its `@`. There is none where the reference names no digest.
pub open spec fn digest_name(reference: Seq<char>) -> Option<Seq<char>> {
    let at = find(reference, '@', 0);
    let colon = find(reference, ':', 0);
    if at < reference.len() {
        Some(
            reference.subrange(0, if colon < at { colon } else { at }) + reference.subrange(
                at,
                reference.len() as int,
            ),
        )
    } else {
        None
    }
}

/// The reference of a pulled image without its digest.
pub fn pulled_tag(reference: &str) -> (r: String)
    ensures
        r@ == without_digest(reference@),
{
    string_of(&text_before(reference, '@'))
}

/// The name under which a pulled image holds its digest.
pub fn pulled_name(reference: &str) -> (r: Option<String>)
    ensures
        optional(r) == digest_name(reference@),
{
    let v = chars_of(reference);
    let at = find_char(&v, '@', 0);
    if at < v.len() {
        let colon = find_char(&v, ':', 0);
        let end = if colon < at {
            colon
        } else {
            at
        };
        let mut name = slice_chars(&v, 0, end);
        append_chars(&mut name, &slice_chars(&v, at, v.len()));
        Some(string_of(&name))
    } else {
        None
    }
}

/// The tags that a reference to an image in use tells, `repository:tag@digest`:
/// its one tag is what stands before the digest.
pub open spec fn reference_tags(reference: Seq<char>) -> Seq<Seq<char>> {
    seq![without_digest(reference)]
}

/// The digests that such a reference tells: its digest under the name of its
/// repository, and none where the reference names no digest.
pub open spec fn reference_digests(reference: Seq<char>) -> Seq<Seq<char>> {
    match digest_name(reference) {
        Some(name) => seq![name],
        None => Seq::empty(),
    }
}

impl InspectData for String {
    /// The one tag of a reference to an image in use.
    fn tags(&self) -> (r: Option<Vec<String>>)
        ensures
            optional_strings(r) == Some(reference_tags(self@)),
    {
        let mut v: Vec<String> = Vec::new();
        v.push(pulled_tag(self.as_str()));
        assert(strings(v@) =~= seq![without_digest(self@)]);
        Some(v)
    }

    /// The digest of a reference to an image in use, under the name of its
    /// repository.
    fn digests(&self) -> (r: Option<Vec<String>>)
        ensures
            optional_strings(r) == Some(reference_digests(self@)),
    {
        let mut r: Vec<String> = Vec::new();
        match pulled_name(self.as_str()) {
            Some(name) => {
                r.push(name);
                assert(strings(r@) =~= seq![name@]);
            },
            None => {
                assert(strings(r@) =~= Seq::<Seq<char>>::empty());
            },
        }
        Some(r)
    }

    /// A reference tells no address.
    fn url(&self) -> (r: Option<String>)
        ensures
            r is None,
    {
        None
    }
}

/// The digest in the name of a pulled image.
pub fn digest_in(name: &str) -> (r: Option<String>)
    ensures
        optional(r) == digest_of(name@),
{
    let v = chars_of(name);
    let at = find_char(&v, '@', 0);
    if at < v.len() {
        let end = find_char(&v, '@', at + 1);
        Some(string_of(&slice_chars(&v, at + 1, end)))
    } else {
        None
    }
}

/// The digests in the names of a pulled image.
pub fn digests_in(names: &Vec<String>) -> (r: Vec<String>)
    ensures
        strings(r@) == digests_of(strings(names@)),
{
    let mut r: Vec<String> = Vec::new();
    let mut i: usize = 0;
    while i < names.len()
        invariant
            i <= names.len(),
            strings(r@) == digests_of(strings(names@.subrange(0, i as int))),
        decreases names.len() - i,
    {
        let ghost before = strings(names@.subrange(0, i as int));
        let ghost now = strings(names@.subrange(0, i + 1));
        assert(now.drop_last() =~= before);
        assert(now.last() == names@[i as int]@);
        let ghost kept = r@;
        match digest_in(names[i].as_str()) {
            Some(d) => {
                r.push(d);
                assert(strings(r@) =~= strings(kept).push(d@));
            },
            None => {},
        }
        i += 1;
    }
    assert(names@.subrange(0, names.len() as int) =~= names@);
    r
}

impl Image {
    /// The image that the container runtime describes by its tags, digests
    /// and address.
    pub fn from_inspect_parts(
        tags: &Vec<String>,
        digests: &Vec<String>,
        url: Option<String>,
        tag_type: Option<&TagType>,
    ) -> (r: Option<Self>)
        requires
            tag_type matches Some(t) ==> t is Standard,
            tags.len() > 0 ==> splittable(tags@[0]@),
        ensures
            r is Some <==> describes(strings(tags@), strings(digests@)),
            r matches Some(image) ==> image@ == described(
                strings(tags@),
                strings(digests@),
                optional(url),
            ),
    {
        if tags.len() == 0 || digests.len() == 0 {
            return None;
        }
        assert(strings(tags@)[0] == tags@[0]@);
        let reference = tags[0].clone();
        if has_char(&chars_of(reference.as_str()), '@') {
            return None;
        }
        let parts = parts_of(reference.as_str());
        let version = Version::from(parts.tag.as_str(), tag_type);
        let image = Image {
            reference,
            parts,
            info: Info { local_digests: digests_in(digests), version, url, used_by: Vec::new() },
            update_info: UpdateInfo { remote_digest: None, latest_version: None },
            error: None,
            time_ms: 0,
        };
        assert(image@.used_by =~= Seq::<Seq<char>>::empty());
        Some(image)
    }

    /// The image that is made of what a container runtime has told: its
    /// tags, its digests and its address.
    pub fn from_inspect_results(
        tags: Option<Vec<String>>,
        digests: Option<Vec<String>>,
        url: Option<String>,
        tag_type: Option<&TagType>,
    ) -> (r: Option<Self>)
        requires
            tag_type matches Some(t) ==> t is Standard,
        ensures
            match inspected(optional_strings(tags), optional_strings(digests), optional(url)) {
                Some(m) => r is Some && r.unwrap()@ == m,
                None => r is None,
            },
    {
        let tags = match tags {
            Some(t) => t,
            None => {
                return None;
            },
        };
        let digests = match digests {
            Some(d) => d,
            None => {
                return None;
            },
        };
        if tags.len() > 0 {
            assert(strings(tags@)[0] == tags@[0]@);
            if !is_splittable(tags[0].as_str()) {
                return None;
            }
        }
        Self::from_inspect_parts(&tags, &digests, url, tag_type)
    }

    /// The image that a container runtime describes; none when the runtime
    /// tells no tag that can be split, or no digest. Whatever the runtime
    /// tells, an image that is made goes by a reference without a digest, has
    /// the parts of that reference and the version of its tag, and is not
    /// checked yet.
    pub fn from_inspect_data<T: InspectData>(image: &T, tag_type: Option<&TagType>) -> (r: Option<
        Self,
    >)
        requires
            tag_type matches Some(t) ==> t is Standard,
        ensures
            r matches Some(i) ==> {
                &&& splittable(i@.reference)
                &&& !i@.reference.contains('@')
                &&& i@.parts == split_model(i@.reference)
                &&& i@.version == parsed(i@.parts.tag)
                &&& i@.used_by.len() == 0
                &&& !i@.checked()
                &&& i@.time_ms == 0
            },
    {
        let tags = image.tags();
        let digests = image.digests();
        let url = image.url();
        Self::from_inspect_results(tags, digests, url, tag_type)
    }

    /// The image that a reference names. Its tag must hold a version: with
    /// neither a version nor a digest there is nothing to compare, and the
    /// format of the tag counts as unrecognized.
    pub fn from_reference(reference: &str, tag_type: Option<&TagType>) -> (r: Result<
        Self,
        ErrorKind,
    >)
        requires
            tag_type matches Some(t) ==> t is Standard,
            splittable(reference@),
        ensures
            r is Ok <==> referred(reference@).versioned(),
            r matches Ok(image) ==> image@ == referred(reference@),
            r matches Err(e) ==> e == ErrorKind::UnrecognizedTagFormat,
    {
        let parts = parts_of(reference);
        let version = Version::from(parts.tag.as_str(), tag_type);
        match version {
            Version::Semver(_) => {
                let image = Image {
                    reference: reference.to_owned(),
                    parts,
                    info: Info {
                        local_digests: Vec::new(),
                        version,
                        url: None,
                        used_by: Vec::new(),
                    },
                    update_info: UpdateInfo { remote_digest: None, latest_version: None },
                    error: None,
                    time_ms: 0,
                };
                assert(image@.used_by =~= Seq::<Seq<char>>::empty());
                assert(image@.local_digests =~= Seq::<Seq<char>>::empty());
                Ok(image)
            },
            _ => Err(ErrorKind::UnrecognizedTagFormat),
        }
    }

    /// A copy of the image.
    pub fn duplicate(&self) -> (r: Self)
        ensures
            r@ == self@,
    {
        Image {
            reference: self.reference.clone(),
            parts: self.parts.duplicate(),
            info: Info {
                local_digests: copy_strings(&self.info.local_digests),
                version: self.info.version.duplicate(),
                url: copy_optional(&self.info.url),
                used_by: copy_strings(&self.info.used_by),
            },
            update_info: UpdateInfo {
                remote_digest: copy_optional(&self.update_info.remote_digest),
                latest_version: match &self.update_info.latest_version {
                    Some(v) => Some(v.duplicate()),
                    None => None,
                },
            },
            error: copy_optional(&self.error),
            time_ms: self.time_ms,
        }
    }

    /// Whether the image is compared by version.
    pub fn is_versioned(&self) -> (r: bool)
        ensures
            r == self@.versioned(),
    {
        match self.info.version {
            Version::Semver(_) => true,
            _ => false,
        }
    }

    /// The status of a checked image.
    pub fn has_update(&self) -> (r: Status)
        requires
            self@.checked(),
        ensures
            r@ == self@.status(),
    {
        match &self.error {
            Some(e) => Status::Unknown(e.clone()),
            None => match &self.update_info.latest_version {
                Some(latest) => latest.to_status(&self.info.version),
                None => match &self.update_info.remote_digest {
                    Some(d) => if contains_text(&self.info.local_digests, d.as_str()) {
                        Status::UpToDate
                    } else {
                        Status::UpdateAvailable
                    },
                    None => Status::default(),
                },
            },
        }
    }

    /// The report on a checked image.
    pub fn to_update(&self) -> (r: Update)
        requires
            self@.checked(),
        ensures
            r@ == self@.report(),
    {
        let status = self.has_update();
        let info = match &status {
            Status::Unknown(_) => Comparison::Nothing,
            Status::UpToDate => Comparison::Nothing,
            Status::UpdateAvailable => Comparison::Digest(
                DigestUpdateInfo {
                    local_digests: copy_strings(&self.info.local_digests),
                    remote_digest: copy_optional(&self.update_info.remote_digest),
                },
            ),
            kind => {
                let word: &str = match kind {
                    Status::UpdateMajor => "major",
                    Status::UpdateMinor => "minor",
                    _ => "patch",
                };
                match (&self.update_info.latest_version, &self.info.version) {
                    (Some(Version::Semver(latest)), Version::Semver(local)) => Comparison::Version(
                        VersionUpdateInfo {
                            version_update_type: word.to_owned(),
                            new_tag: latest.to_string(),
                            current_version: string_of(&local.numbers()),
                            new_version: string_of(&latest.numbers()),
                        },
                    ),
                    _ => Comparison::Nothing,
                }
            },
        };
        Update {
            reference: self.reference.clone(),
            parts: self.parts.duplicate(),
            url: copy_optional(&self.info.url),
            result: UpdateResult {
                has_update: status.to_option_bool(),
                info,
                error: copy_optional(&self.error),
            },
            time: self.time_ms,
            server: None,
            used_by: copy_strings(&self.info.used_by),
            status,
        }
    }
}

/// An image that is compared by digest alone is up to date exactly when the
/// digest at the registry is one of its own, and has an update otherwise.
pub proof fn lemma_digest_status(image: ImageModel)
    requires
        image.error is None,
        image.latest_version is None,
        image.remote_digest is Some,
    ensures
        image.status() == StatusModel::UpToDate <==> image.local_digests.contains(
            image.remote_digest.unwrap(),
        ),
        image.status() == StatusModel::UpdateAvailable <==> !image.local_digests.contains(
            image.remote_digest.unwrap(),
        ),
{
}

/// An image with an error has the unknown status, with the error as its
/// reason, whatever else is known of it.
pub proof fn lemma_error_status(image: ImageModel)
    requires
        image.error is Some,
    ensures
        image.status() == StatusModel::Unknown(image.error.unwrap()),
        image.report().result.has_update is None,
        image.report().result.info is Nothing,
{
}

/// The report on a checked image tells the status of the image, and tells
/// it as the status of the report wherever that is not the unknown status with
/// an empty reason.
pub proof fn lemma_report_status(image: ImageModel)
    ensures
        image.report().status == image.status(),
        image.report().result.has_update == image.status().has_update(),
        !image.report().unset() ==> image.report().status() == image.status(),
{
}

/// The report on a checked image tells a status.
pub proof fn lemma_report_well_formed(image: ImageModel)
    ensures
        image.report().well_formed(),
{
    reveal_strlit("tag does not exist");
}

} // verus!
