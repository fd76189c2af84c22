//! The check of one image, step by step: each step takes the answer to the
//! last request and gives the next request or the result.
//!
//! An image whose tag holds a version goes through the pages of the list of
//! tags of its repository and is compared with the best version found there;
//! when that is its own version and its digests are known, its digest is
//! compared as well. Any other image is compared by digest alone.

use crate::client::{
    digest_model, digest_read, headers_with, make_headers, manifest_address, manifest_url,
    page_model, page_read, read_digest, read_page, tags_address, tags_url, TagPage, TagPageModel,
    ACCEPT_MANIFESTS,
};
use crate::config::UpdateType;
use crate::http::{Failure, Reply, Request, RequestError, RequestMethod, RequestModel};
use crate::image::{Image, ImageModel, UpdateInfo};
use crate::text::{append_str, chars_of, optional, same_text, string_of, strings};
use crate::version::tag::{parsed, tag_order, StandardVersion, StandardVersionPart, TagModel};
use crate::version::Version;
use std::cmp::Ordering;
use vstd::prelude::*;

verus! {

/// What a check is waiting for.
#[derive(Clone, Copy, Debug, PartialEq, Eq, Structural)]
pub enum Phase {
    /// A page of the list of tags.
    Tags,
    /// The digest of the manifest.
    Digest,
}

/// A check that is under way.
#[derive(Debug)]
pub struct Check {
    pub image: Image,
    pub token: Option<String>,
    pub protocol: String,
    pub ignore: UpdateType,
    pub phase: Phase,
    /// The request whose answer the check is waiting for.
    pub request: Request,
    /// The versions found so far, none twice.
    pub tags: Vec<StandardVersion>,
}

/// What a step comes to: a check that waits for the answer to its request,
/// or the image with the result of the check.
#[derive(Debug)]
pub enum Step {
    Ask(Check),
    Done(Image),
}

/// Versions as plain values.
pub open spec fn tag_models(v: Seq<StandardVersion>) -> Seq<TagModel> {
    v.map_values(|t: StandardVersion| t@)
}

pub struct CheckModel {
    pub image: ImageModel,
    pub token: Option<Seq<char>>,
    pub protocol: Seq<char>,
    pub ignore: UpdateType,
    pub phase: Phase,
    pub request: RequestModel,
    pub tags: Seq<TagModel>,
}

pub enum StepModel {
    Ask(CheckModel),
    Done(ImageModel),
}

impl View for Check {
    type V = CheckModel;

    open spec fn view(&self) -> CheckModel {
        CheckModel {
            image: self.image@,
            token: optional(self.token),
            protocol: self.protocol@,
            ignore: self.ignore,
            phase: self.phase,
            request: self.request@,
            tags: tag_models(self.tags@),
        }
    }
}

impl View for Step {
    type V = StepModel;

    open spec fn view(&self) -> StepModel {
        match self {
            Step::Ask(c) => StepModel::Ask(c@),
            Step::Done(i) => StepModel::Done(i@),
        }
    }
}

/// The sum of two times, or the longest time that can be told where the sum
/// is longer.
pub open spec fn added(a: u32, b: u32) -> u32 {
    if a + b > u32::MAX {
        u32::MAX
    } else {
        (a + b) as u32
    }
}

/// The request for a page of tags.
pub open spec fn tags_question(url: Seq<char>, token: Option<Seq<char>>) -> RequestModel {
    RequestModel {
        method: RequestMethod::GET,
        url,
        headers: headers_with("application/json"@, token),
        ignore_401: false,
    }
}

/// The request for the digest of a manifest.
pub open spec fn digest_question(url: Seq<char>, token: Option<Seq<char>>) -> RequestModel {
    RequestModel {
        method: RequestMethod::HEAD,
        url,
        headers: headers_with(ACCEPT_MANIFESTS@, token),
        ignore_401: false,
    }
}

/// The image after a step that took `elapsed` milliseconds.
pub open spec fn timed(image: ImageModel, elapsed: u32) -> ImageModel {
    ImageModel { time_ms: added(image.time_ms, elapsed), ..image }
}

/// The image after a step that failed.
pub open spec fn failed(image: ImageModel, words: Seq<char>, elapsed: u32) -> ImageModel {
    ImageModel { error: Some(words), ..timed(image, elapsed) }
}

/// How a check begins: with the first page of tags for an image whose tag
/// holds a version, and with the digest for any other.
pub open spec fn begun(
    image: ImageModel,
    token: Option<Seq<char>>,
    protocol: Seq<char>,
    ignore: UpdateType,
) -> CheckModel {
    if image.versioned() {
        CheckModel {
            image,
            token,
            protocol,
            ignore,
            phase: Phase::Tags,
            request: tags_question(tags_address(protocol, image.parts), token),
            tags: Seq::empty(),
        }
    } else {
        CheckModel {
            image,
            token,
            protocol,
            ignore,
            phase: Phase::Digest,
            request: digest_question(manifest_address(protocol, image.parts), token),
            tags: Seq::empty(),
        }
    }
}

/// A remote version counts for an image that runs `base`: it compares with
/// `base`, and it does not differ from it in a number whose updates are not
/// to be told.
pub open spec fn counts(candidate: TagModel, base: TagModel, ignore: UpdateType) -> bool {
    &&& tag_order(candidate, base) is Some
    &&& match ignore {
        UpdateType::Nothing => true,
        UpdateType::Major => candidate.major == base.major,
        UpdateType::Minor => candidate.major == base.major && candidate.minor == base.minor,
        UpdateType::Patch => candidate.major == base.major && candidate.minor == base.minor
            && candidate.patch == base.patch,
    }
}

/// The versions among the tags of a page that count, in the order of the
/// page.
pub open spec fn selected(tags: Seq<Seq<char>>, base: TagModel, ignore: UpdateType) -> Seq<
    TagModel,
>
    decreases tags.len(),
{
    if tags.len() == 0 {
        Seq::empty()
    } else {
        let rest = selected(tags.drop_last(), base, ignore);
        match parsed(tags.last()) {
            Some(m) => if counts(m, base, ignore) {
                rest.push(m)
            } else {
                rest
            },
            None => rest,
        }
    }
}

/// The versions found so far together with new ones, none twice.
pub open spec fn joined(have: Seq<TagModel>, new: Seq<TagModel>) -> Seq<TagModel>
    decreases new.len(),
{
    if new.len() == 0 {
        have
    } else {
        let u = joined(have, new.drop_last());
        if u.contains(new.last()) {
            u
        } else {
            u.push(new.last())
        }
    }
}

/// Of two versions the first is kept: it is the greater one, or the two do
/// not compare.
pub open spec fn keeps_first(a: TagModel, b: TagModel) -> bool {
    match tag_order(a, b) {
        Some(Ordering::Greater) => true,
        Some(_) => false,
        None => true,
    }
}

/// The two versions are equal in the order of versions.
pub open spec fn same_rank(a: TagModel, b: TagModel) -> bool {
    tag_order(a, b) == Some(Ordering::Equal)
}

/// The best of the versions: going from the first to the last, a version
/// replaces the best one so far when it is greater or equal.
pub open spec fn best_of(tags: Seq<TagModel>) -> Option<TagModel>
    decreases tags.len(),
{
    if tags.len() == 0 {
        None
    } else {
        match best_of(tags.drop_last()) {
            None => Some(tags.last()),
            Some(b) => if keeps_first(b, tags.last()) {
                Some(b)
            } else {
                Some(tags.last())
            },
        }
    }
}

/// What is said of an image whose repository holds no version that counts.
pub open spec fn no_tags_message(image: ImageModel) -> Seq<char> {
    "Image "@ + image.reference + " has no remote version tags! Local tag: "@ + image.parts.tag
}

/// How a check ends its list of tags. Without a version that counts the
/// image fails. When the best version is the one that the image runs and the
/// digests of the image are known, the digest is asked for. Otherwise the
/// best version is the result.
pub open spec fn concluded(check: CheckModel, elapsed: u32) -> StepModel {
    match best_of(check.tags) {
        None => StepModel::Done(failed(check.image, no_tags_message(check.image), elapsed)),
        Some(best) => if same_rank(best, check.image.version.unwrap())
            && check.image.local_digests.len() > 0 {
            StepModel::Ask(
                CheckModel {
                    image: timed(check.image, elapsed),
                    phase: Phase::Digest,
                    request: digest_question(
                        manifest_address(check.protocol, check.image.parts),
                        check.token,
                    ),
                    ..check
                },
            )
        } else {
            StepModel::Done(
                ImageModel { latest_version: Some(Some(best)), ..timed(check.image, elapsed) },
            )
        },
    }
}

/// The step after a page of tags. A failure ends the check. The versions of
/// the page that count join those found before; then the next page is asked
/// for where the page names one, and the list is ended where it names none.
pub open spec fn after_page(
    check: CheckModel,
    page: Result<TagPageModel, Seq<char>>,
    elapsed: u32,
) -> StepModel {
    match page {
        Err(words) => StepModel::Done(failed(check.image, words, elapsed)),
        Ok(p) => {
            let tags = joined(
                check.tags,
                selected(p.tags, check.image.version.unwrap(), check.ignore),
            );
            match p.next {
                Some(next) => StepModel::Ask(
                    CheckModel {
                        image: timed(check.image, elapsed),
                        request: tags_question(next, check.token),
                        tags,
                        ..check
                    },
                ),
                None => concluded(CheckModel { tags, ..check }, elapsed),
            }
        },
    }
}

/// The step after the digest: the end of the check, with the digest or with
/// the failure.
pub open spec fn after_digest(
    check: CheckModel,
    digest: Result<Seq<char>, Seq<char>>,
    elapsed: u32,
) -> StepModel {
    match digest {
        Err(words) => StepModel::Done(failed(check.image, words, elapsed)),
        Ok(d) => StepModel::Done(
            ImageModel { remote_digest: Some(d), ..timed(check.image, elapsed) },
        ),
    }
}

/// The step after the answer to the request of a check: the answer is read
/// as a page of tags or as a digest, whichever the check is waiting for.
pub open spec fn stepped(check: CheckModel, outcome: Result<Reply, Failure>, elapsed: u32) -> StepModel {
    match check.phase {
        Phase::Tags => after_page(
            check,
            page_read(check.request, check.token is Some, outcome),
            elapsed,
        ),
        Phase::Digest => after_digest(
            check,
            digest_read(check.request, check.token is Some, outcome),
            elapsed,
        ),
    }
}

/// The sum of two times, held at the longest time that can be told.
pub fn add_time(a: u32, b: u32) -> (r: u32)
    ensures
        r == added(a, b),
{
    if a > 0xffff_ffff - b {
        0xffff_ffff
    } else {
        a + b
    }
}

/// Whether two parts are the same.
fn same_part(a: &Option<StandardVersionPart>, b: &Option<StandardVersionPart>) -> (r: bool)
    ensures
        r == (*a == *b),
{
    match (a, b) {
        (None, None) => true,
        (Some(x), Some(y)) => x.value == y.value && x.length == y.length,
        _ => false,
    }
}

/// Whether two versions are the same, text around them included.
pub fn same_version(a: &StandardVersion, b: &StandardVersion) -> (r: bool)
    ensures
        r == (a@ == b@),
{
    a.major.value == b.major.value && a.major.length == b.major.length && same_part(
        &a.minor,
        &b.minor,
    ) && same_part(&a.patch, &b.patch) && same_text(a.prefix.as_str(), b.prefix.as_str())
        && same_text(a.suffix.as_str(), b.suffix.as_str())
}

/// Whether a remote version counts.
pub fn is_counted(candidate: &StandardVersion, base: &StandardVersion, ignore: UpdateType) -> (r:
    bool)
    ensures
        r == counts(candidate@, base@, ignore),
{
    if candidate.partial_cmp(base).is_none() {
        return false;
    }
    let major = candidate.major.value == base.major.value && candidate.major.length
        == base.major.length;
    match ignore {
        UpdateType::Nothing => true,
        UpdateType::Major => major,
        UpdateType::Minor => major && same_part(&candidate.minor, &base.minor),
        UpdateType::Patch => major && same_part(&candidate.minor, &base.minor) && same_part(
            &candidate.patch,
            &base.patch,
        ),
    }
}

/// Whether the first of two versions is kept.
pub fn is_kept_first(a: &StandardVersion, b: &StandardVersion) -> (r: bool)
    ensures
        r == keeps_first(a@, b@),
{
    match a.partial_cmp(b) {
        Some(Ordering::Greater) => true,
        Some(_) => false,
        None => true,
    }
}

/// Whether two versions are equal in the order of versions.
pub fn is_same_rank(a: &StandardVersion, b: &StandardVersion) -> (r: bool)
    ensures
        r == same_rank(a@, b@),
{
    match a.partial_cmp(b) {
        Some(Ordering::Equal) => true,
        _ => false,
    }
}

/// The versions among the tags of a page that count.
pub fn select_tags(tags: &Vec<String>, base: &StandardVersion, ignore: UpdateType) -> (r: Vec<
    StandardVersion,
>)
    ensures
        tag_models(r@) == selected(strings(tags@), base@, ignore),
{
    let mut r: Vec<StandardVersion> = Vec::new();
    let mut i: usize = 0;
    assert(strings(tags@.subrange(0, 0)) =~= Seq::<Seq<char>>::empty());
    assert(tag_models(r@) =~= Seq::<TagModel>::empty());
    while i < tags.len()
        invariant
            i <= tags.len(),
            tag_models(r@) == selected(strings(tags@.subrange(0, i as int)), base@, ignore),
        decreases tags.len() - i,
    {
        let ghost now = strings(tags@.subrange(0, i + 1));
        assert(now.drop_last() =~= strings(tags@.subrange(0, i as int)));
        assert(now.last() == tags@[i as int]@);
        match StandardVersion::from_tag(tags[i].as_str()) {
            Ok(v) => {
                if is_counted(&v, base, ignore) {
                    let ghost before = r@;
                    r.push(v);
                    assert(tag_models(r@) =~= tag_models(before).push(v@));
                }
            },
            Err(_) => {},
        }
        i += 1;
    }
    assert(tags@.subrange(0, tags.len() as int) =~= tags@);
    r
}

/// Whether one of the versions is the same as `x`.
pub fn holds_version(v: &Vec<StandardVersion>, x: &StandardVersion) -> (r: bool)
    ensures
        r == tag_models(v@).contains(x@),
{
    let mut i: usize = 0;
    while i < v.len()
        invariant
            i <= v.len(),
            forall|k: int| 0 <= k < i ==> tag_models(v@)[k] != x@,
        decreases v.len() - i,
    {
        if same_version(&v[i], x) {
            assert(tag_models(v@)[i as int] == x@);
            return true;
        }
        i += 1;
    }
    false
}

/// Adds new versions to those found so far, none twice.
pub fn join_tags(have: Vec<StandardVersion>, new: Vec<StandardVersion>) -> (r: Vec<
    StandardVersion,
>)
    ensures
        tag_models(r@) == joined(tag_models(have@), tag_models(new@)),
{
    let ghost start = tag_models(have@);
    let ghost all = tag_models(new@);
    let mut r = have;
    let mut i: usize = 0;
    assert(all.subrange(0, 0) =~= Seq::<TagModel>::empty());
    while i < new.len()
        invariant
            i <= new.len(),
            all == tag_models(new@),
            tag_models(r@) == joined(start, all.subrange(0, i as int)),
        decreases new.len() - i,
    {
        let ghost now = all.subrange(0, i + 1);
        assert(now.drop_last() =~= all.subrange(0, i as int));
        assert(now.last() == new@[i as int]@);
        if !holds_version(&r, &new[i]) {
            let ghost before = r@;
            r.push(new[i].duplicate());
            assert(tag_models(r@) =~= tag_models(before).push(new@[i as int]@));
        }
        i += 1;
    }
    assert(all.subrange(0, new.len() as int) =~= all);
    r
}

/// The place of the best of the versions.
pub fn best_index(tags: &Vec<StandardVersion>) -> (r: Option<usize>)
    ensures
        match best_of(tag_models(tags@)) {
            Some(b) => r is Some && r.unwrap() < tags.len() && tags@[r.unwrap() as int]@ == b,
            None => r is None,
        },
{
    if tags.len() == 0 {
        return None;
    }
    let ghost all = tag_models(tags@);
    let mut best: usize = 0;
    let mut i: usize = 1;
    assert(all.subrange(0, 1).drop_last() =~= Seq::<TagModel>::empty());
    assert(best_of(all.subrange(0, 1).drop_last()) is None);
    assert(all.subrange(0, 1).last() == tags@[0]@);
    while i < tags.len()
        invariant
            1 <= i <= tags.len(),
            best < i,
            all == tag_models(tags@),
            best_of(all.subrange(0, i as int)) == Some(tags@[best as int]@),
        decreases tags.len() - i,
    {
        let ghost now = all.subrange(0, i + 1);
        assert(now.drop_last() =~= all.subrange(0, i as int));
        assert(now.last() == tags@[i as int]@);
        if !is_kept_first(&tags[best], &tags[i]) {
            best = i;
        }
        i += 1;
    }
    assert(all.subrange(0, tags.len() as int) =~= all);
    Some(best)
}

/// The request for a page of tags.
pub fn tags_request(url: String, token: &Option<String>) -> (r: Request)
    ensures
        r@ == tags_question(url@, optional(*token)),
{
    Request {
        method: RequestMethod::GET,
        url,
        headers: make_headers("application/json", token),
        ignore_401: false,
    }
}

/// The request for the digest of a manifest.
pub fn digest_request(url: String, token: &Option<String>) -> (r: Request)
    ensures
        r@ == digest_question(url@, optional(*token)),
{
    Request {
        method: RequestMethod::HEAD,
        url,
        headers: make_headers(ACCEPT_MANIFESTS, token),
        ignore_401: false,
    }
}

/// The image after a step that took `elapsed` milliseconds.
fn with_time(image: Image, elapsed: u32) -> (r: Image)
    ensures
        r@ == timed(image@, elapsed),
{
    let time_ms = add_time(image.time_ms, elapsed);
    Image {
        reference: image.reference,
        parts: image.parts,
        info: image.info,
        update_info: image.update_info,
        error: image.error,
        time_ms,
    }
}

/// The image after a step that failed.
fn with_error(image: Image, words: String, elapsed: u32) -> (r: Image)
    ensures
        r@ == failed(image@, words@, elapsed),
{
    let time_ms = add_time(image.time_ms, elapsed);
    Image {
        reference: image.reference,
        parts: image.parts,
        info: image.info,
        update_info: image.update_info,
        error: Some(words),
        time_ms,
    }
}

/// What is said of an image whose repository holds no version that counts.
fn no_tags_words(image: &Image) -> (r: String)
    ensures
        r@ == no_tags_message(image@),
{
    let mut r = chars_of("Image ");
    append_str(&mut r, image.reference.as_str());
    append_str(&mut r, " has no remote version tags! Local tag: ");
    append_str(&mut r, image.parts.tag.as_str());
    string_of(&r)
}

impl Check {
    /// A check is in order when it waits for tags only for an image whose
    /// tag holds a version.
    pub open spec fn well_formed(self) -> bool {
        self.phase == Phase::Tags ==> self@.image.versioned()
    }

    /// Begins the check of an image.
    pub fn begin(image: Image, token: Option<String>, protocol: &str, ignore: UpdateType) -> (r:
        Check)
        ensures
            r@ == begun(image@, optional(token), protocol@, ignore),
            r.well_formed(),
    {
        if image.is_versioned() {
            let request = tags_request(tags_url(protocol, &image.parts), &token);
            let c = Check {
                image,
                token,
                protocol: protocol.to_owned(),
                ignore,
                phase: Phase::Tags,
                request,
                tags: Vec::new(),
            };
            assert(c@.tags =~= Seq::<TagModel>::empty());
            c
        } else {
            let request = digest_request(manifest_url(protocol, &image.parts), &token);
            let c = Check {
                image,
                token,
                protocol: protocol.to_owned(),
                ignore,
                phase: Phase::Digest,
                request,
                tags: Vec::new(),
            };
            assert(c@.tags =~= Seq::<TagModel>::empty());
            c
        }
    }

    /// Ends the list of tags.
    fn conclude(self, elapsed: u32) -> (r: Step)
        requires
            self@.image.versioned(),
        ensures
            r@ == concluded(self@, elapsed),
            r matches Step::Ask(c) ==> c.well_formed(),
    {
        match best_index(&self.tags) {
            None => {
                let words = no_tags_words(&self.image);
                Step::Done(with_error(self.image, words, elapsed))
            },
            Some(at) => {
                let base = match &self.image.info.version {
                    Version::Semver(v) => v,
                    _ => {
                        return Step::Done(self.image);
                    },
                };
                if is_same_rank(&self.tags[at], base) && self.image.info.local_digests.len() > 0 {
                    let request = digest_request(
                        manifest_url(self.protocol.as_str(), &self.image.parts),
                        &self.token,
                    );
                    Step::Ask(
                        Check {
                            image: with_time(self.image, elapsed),
                            token: self.token,
                            protocol: self.protocol,
                            ignore: self.ignore,
                            phase: Phase::Digest,
                            request,
                            tags: self.tags,
                        },
                    )
                } else {
                    let best = self.tags[at].duplicate();
                    let time_ms = add_time(self.image.time_ms, elapsed);
                    Step::Done(
                        Image {
                            reference: self.image.reference,
                            parts: self.image.parts,
                            info: self.image.info,
                            update_info: UpdateInfo {
                                remote_digest: self.image.update_info.remote_digest,
                                latest_version: Some(Version::Semver(best)),
                            },
                            error: self.image.error,
                            time_ms,
                        },
                    )
                }
            },
        }
    }

    /// The step after a page of tags.
    pub fn on_page(self, page: Result<TagPage, RequestError>, elapsed: u32) -> (r: Step)
        requires
            self@.image.versioned(),
        ensures
            r@ == after_page(self@, page_model(page), elapsed),
            r matches Step::Ask(c) ==> c.well_formed(),
    {
        match page {
            Err(e) => Step::Done(with_error(self.image, e.message, elapsed)),
            Ok(p) => {
                let found = match &self.image.info.version {
                    Version::Semver(base) => select_tags(&p.tags, base, self.ignore),
                    _ => Vec::new(),
                };
                let tags = join_tags(self.tags, found);
                match p.next {
                    Some(next) => {
                        let request = tags_request(next, &self.token);
                        Step::Ask(
                            Check {
                                image: with_time(self.image, elapsed),
                                token: self.token,
                                protocol: self.protocol,
                                ignore: self.ignore,
                                phase: self.phase,
                                request,
                                tags,
                            },
                        )
                    },
                    None => {
                        let c = Check {
                            image: self.image,
                            token: self.token,
                            protocol: self.protocol,
                            ignore: self.ignore,
                            phase: self.phase,
                            request: self.request,
                            tags,
                        };
                        c.conclude(elapsed)
                    },
                }
            },
        }
    }

    /// The step after the digest.
    pub fn on_digest(self, digest: Result<String, RequestError>, elapsed: u32) -> (r: Step)
        ensures
            r@ == after_digest(self@, digest_model(digest), elapsed),
            r is Done,
    {
        match digest {
            Err(e) => Step::Done(with_error(self.image, e.message, elapsed)),
            Ok(d) => {
                let time_ms = add_time(self.image.time_ms, elapsed);
                Step::Done(
                    Image {
                        reference: self.image.reference,
                        parts: self.image.parts,
                        info: self.image.info,
                        update_info: UpdateInfo {
                            remote_digest: Some(d),
                            latest_version: self.image.update_info.latest_version,
                        },
                        error: self.image.error,
                        time_ms,
                    },
                )
            },
        }
    }

    /// The step after the answer to the request of the check, which took
    /// `elapsed` milliseconds: the answer is read as a page of tags or as a
    /// digest, whichever the check is waiting for.
    pub fn proceed(self, outcome: Result<Reply, Failure>, elapsed: u32) -> (r: Step)
        requires
            self.well_formed(),
        ensures
            r@ == stepped(self@, outcome, elapsed),
            r matches Step::Ask(c) ==> c.well_formed(),
            self.phase == Phase::Digest ==> r is Done,
            failure_kind(self, outcome) is Some ==> r is Done && r->Done_0@.error is Some,
    {
        let sent = self.token.is_some();
        match self.phase {
            Phase::Tags => {
                let page = read_page(&self.request, sent, &outcome);
                self.on_page(page, elapsed)
            },
            Phase::Digest => {
                let digest = read_digest(&self.request, sent, &outcome);
                self.on_digest(digest, elapsed)
            },
        }
    }
}

/// The kind of failure in which the request of a check ended, if it failed.
pub open spec fn failure_kind(check: Check, outcome: Result<Reply, Failure>) -> Option<
    crate::http::ErrorKind,
> {
    crate::http::failure_of(outcome, check.request.ignore_401, check.token is Some)
}

/// A page that names a next page has that page asked for, by a request of
/// the same kind; a page that names none ends the list of tags: the check is
/// done or goes on to the digest.
pub proof fn lemma_page_step(check: CheckModel, page: TagPageModel, elapsed: u32)
    ensures
        page.next matches Some(next) ==> after_page(check, Ok(page), elapsed) matches StepModel::Ask(
            c,
        ) && c.phase == check.phase && c.request == tags_question(next, check.token),
        page.next is None ==> match after_page(check, Ok(page), elapsed) {
            StepModel::Ask(c) => c.phase == Phase::Digest,
            StepModel::Done(_) => true,
        },
{
}

/// A failure ends the check with its words as the error of the image.
pub proof fn lemma_failure_step(check: CheckModel, words: Seq<char>, elapsed: u32)
    ensures
        after_page(check, Err(words), elapsed) == StepModel::Done(
            failed(check.image, words, elapsed),
        ),
        after_digest(check, Err(words), elapsed) == StepModel::Done(
            failed(check.image, words, elapsed),
        ),
        failed(check.image, words, elapsed).status() == crate::status::StatusModel::Unknown(words),
{
}

/// The best of the versions is one of them.
pub proof fn lemma_best_member(tags: Seq<TagModel>)
    ensures
        tags.len() > 0 ==> best_of(tags) is Some && tags.contains(best_of(tags).unwrap()),
        tags.len() == 0 ==> best_of(tags) is None,
    decreases tags.len(),
{
    if tags.len() > 0 {
        let t = tags.drop_last();
        lemma_best_member(t);
        if t.len() > 0 {
            let b = best_of(t).unwrap();
            let k = choose|k: int| 0 <= k < t.len() && t[k] == b;
            assert(tags[k] == b);
        }
        assert(tags[tags.len() - 1] == tags.last());
    }
}

/// Joining adds nothing twice: where no version stood twice before, none
/// does after; and the versions after are those before and the new ones.
pub proof fn lemma_joined(have: Seq<TagModel>, new: Seq<TagModel>)
    requires
        forall|i: int, j: int| 0 <= i < j < have.len() ==> have[i] != have[j],
    ensures
        forall|i: int, j: int|
            0 <= i < j < joined(have, new).len() ==> joined(have, new)[i] != joined(have, new)[j],
        forall|x: TagModel| joined(have, new).contains(x) <==> have.contains(x) || new.contains(x),
    decreases new.len(),
{
    if new.len() > 0 {
        let t = new.drop_last();
        let u = joined(have, t);
        let r = joined(have, new);
        lemma_joined(have, t);
        assert forall|x: TagModel| r.contains(x) <==> have.contains(x) || new.contains(x) by {
            if r.contains(x) {
                let m = choose|m: int| 0 <= m < r.len() && r[m] == x;
                if m < u.len() {
                    assert(u[m] == x);
                    assert(u.contains(x));
                    if t.contains(x) {
                        let k = choose|k: int| 0 <= k < t.len() && t[k] == x;
                        assert(new[k] == x);
                    }
                } else {
                    assert(new[new.len() - 1] == x);
                }
            }
            if have.contains(x) {
                assert(u.contains(x));
                let m = choose|m: int| 0 <= m < u.len() && u[m] == x;
                assert(r[m] == x);
            }
            if new.contains(x) {
                let k = choose|k: int| 0 <= k < new.len() && new[k] == x;
                if k < t.len() {
                    assert(t[k] == x);
                    assert(t.contains(x));
                    assert(u.contains(x));
                    let m = choose|m: int| 0 <= m < u.len() && u[m] == x;
                    assert(r[m] == x);
                } else {
                    if u.contains(x) {
                        let m = choose|m: int| 0 <= m < u.len() && u[m] == x;
                        assert(r[m] == x);
                    } else {
                        assert(r[u.len() as int] == x);
                    }
                }
            }
        }
    } else {
        assert forall|x: TagModel| joined(have, new).contains(x) <==> have.contains(x)
            || new.contains(x) by {
            if new.contains(x) {
                let k = choose|k: int| 0 <= k < new.len() && new[k] == x;
            }
        }
    }
}

/// `a` is greater than `b` or equal to it in the order of versions.
pub open spec fn at_least(a: TagModel, b: TagModel) -> bool {
    match tag_order(a, b) {
        Some(Ordering::Less) => false,
        Some(_) => true,
        None => false,
    }
}

/// A version that is at least a second one, which is at least a third, is
/// at least the third.
pub proof fn lemma_at_least_trans(a: TagModel, b: TagModel, c: TagModel)
    requires
        at_least(a, b),
        at_least(b, c),
    ensures
        at_least(a, c),
{
}

/// Among versions that all compare with each other, the best one is at
/// least each of them.
pub proof fn lemma_best_greatest(tags: Seq<TagModel>)
    requires
        forall|i: int, j: int|
            0 <= i < tags.len() && 0 <= j < tags.len() ==> tag_order(
                #[trigger] tags[i],
                #[trigger] tags[j],
            ) is Some,
    ensures
        forall|i: int|
            0 <= i < tags.len() ==> at_least(best_of(tags).unwrap(), #[trigger] tags[i]),
    decreases tags.len(),
{
    if tags.len() > 0 {
        let t = tags.drop_last();
        let x = tags.last();
        assert forall|i: int, j: int| 0 <= i < t.len() && 0 <= j < t.len() implies tag_order(
            #[trigger] t[i],
            #[trigger] t[j],
        ) is Some by {
            assert(t[i] == tags[i]);
            assert(t[j] == tags[j]);
        }
        lemma_best_greatest(t);
        lemma_best_member(t);
        lemma_best_member(tags);
        let best = best_of(tags).unwrap();
        assert(tag_order(x, x) is Some);
        if t.len() > 0 {
            let b = best_of(t).unwrap();
            let k = choose|k: int| 0 <= k < t.len() && t[k] == b;
            assert(tags[k] == b);
            assert(tag_order(tags[k], tags[tags.len() - 1]) is Some);
            assert(at_least(best, b));
            assert(at_least(best, x));
            assert forall|i: int| 0 <= i < tags.len() implies at_least(best, #[trigger] tags[i]) by {
                if i < t.len() {
                    assert(t[i] == tags[i]);
                    assert(at_least(b, t[i]));
                    lemma_at_least_trans(best, b, tags[i]);
                }
            }
        }
    }
}

} // verus!
