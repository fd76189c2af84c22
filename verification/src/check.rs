//! The check of many images: which images are checked, how they are grouped
//! by registry, and how the results of this and of other instances come
//! together.

use crate::client::{distinct, distinct_texts};
use crate::config::{excluded, ignored, is_excluded, is_ignored, Config};
use crate::http::{Failure, Reply};
use crate::image::{lemma_report_well_formed, Image, ImageModel};
use crate::sort::{image_models, update_models};
use crate::text::{
    append_str, chars_of, copy_optional, copy_strings, has_char, is_prefix, same_text,
    slice_chars, starts_with, string_of, strings,
};
use crate::update::{Update, UpdateModel};
use vstd::prelude::*;

verus! {

/// The images of one registry, by their places in the list of images.
#[derive(Debug, PartialEq, Eq)]
pub struct Group {
    pub registry: String,
    pub members: Vec<usize>,
}

/// The registries of images, in the order of the images.
pub open spec fn registries(images: Seq<ImageModel>) -> Seq<Seq<char>> {
    images.map_values(|i: ImageModel| i.parts.registry)
}

/// The repositories of images, in the order of the images.
pub open spec fn repositories(images: Seq<ImageModel>) -> Seq<Seq<char>> {
    images.map_values(|i: ImageModel| i.parts.repository)
}

/// The places at which `registry` stands in a list of registries, in rising
/// order.
pub open spec fn places(regs: Seq<Seq<char>>, registry: Seq<char>) -> Seq<usize>
    decreases regs.len(),
{
    if regs.len() == 0 {
        Seq::empty()
    } else {
        let rest = places(regs.drop_last(), registry);
        if regs.last() == registry {
            rest.push((regs.len() - 1) as usize)
        } else {
            rest
        }
    }
}

/// The registries of groups.
pub open spec fn group_names(groups: Seq<Group>) -> Seq<Seq<char>> {
    groups.map_values(|g: Group| g.registry@)
}

/// The groups are those of the images: one group for each registry, in the
/// order in which the registries first occur, and in each group the places of
/// the images of its registry.
pub open spec fn grouped(groups: Seq<Group>, images: Seq<ImageModel>) -> bool {
    &&& group_names(groups) == distinct(registries(images))
    &&& forall|k: int|
        0 <= k < groups.len() ==> (#[trigger] groups[k]).members@ == places(
            registries(images),
            groups[k].registry@,
        )
}

/// An image is checked unless its registry is ignored or its reference
/// starts with a prefix that is excluded.
pub open spec fn wanted(image: ImageModel, config: Config) -> bool {
    !ignored(config.registries@, image.parts.registry) && !excluded(
        strings(config.images.exclude@),
        image.reference,
    )
}

/// The images that are checked, in the order of the images.
pub open spec fn survivors(images: Seq<ImageModel>, config: Config) -> Seq<ImageModel>
    decreases images.len(),
{
    if images.len() == 0 {
        Seq::empty()
    } else {
        let rest = survivors(images.drop_last(), config);
        if wanted(images.last(), config) {
            rest.push(images.last())
        } else {
            rest
        }
    }
}

/// The registries of the images, as strings.
fn registry_names(images: &Vec<Image>) -> (r: Vec<String>)
    ensures
        strings(r@) == registries(image_models(images@)),
{
    let mut r: Vec<String> = Vec::new();
    let mut i: usize = 0;
    while i < images.len()
        invariant
            i <= images.len(),
            r.len() == i,
            forall|k: int| 0 <= k < i ==> (#[trigger] r@[k])@ == images@[k]@.parts.registry,
        decreases images.len() - i,
    {
        r.push(images[i].parts.registry.clone());
        i += 1;
    }
    assert(strings(r@) =~= registries(image_models(images@)));
    r
}

/// The places at which `registry` stands among `names`.
fn places_of(names: &Vec<String>, registry: &str) -> (r: Vec<usize>)
    ensures
        r@ == places(strings(names@), registry@),
{
    let mut r: Vec<usize> = Vec::new();
    let mut i: usize = 0;
    assert(strings(names@.subrange(0, 0)) =~= Seq::<Seq<char>>::empty());
    while i < names.len()
        invariant
            i <= names.len(),
            r@ == places(strings(names@.subrange(0, i as int)), registry@),
        decreases names.len() - i,
    {
        let ghost now = strings(names@.subrange(0, i + 1));
        assert(now.drop_last() =~= strings(names@.subrange(0, i as int)));
        assert(now.last() == names@[i as int]@);
        if same_text(names[i].as_str(), registry) {
            r.push(i);
        }
        i += 1;
    }
    assert(names@.subrange(0, names.len() as int) =~= names@);
    r
}

/// Groups the images by registry.
pub fn partition(images: &Vec<Image>) -> (r: Vec<Group>)
    ensures
        grouped(r@, image_models(images@)),
{
    let names = registry_names(images);
    let firsts = distinct_texts(&names);
    let mut r: Vec<Group> = Vec::new();
    let mut k: usize = 0;
    while k < firsts.len()
        invariant
            k <= firsts.len(),
            r.len() == k,
            strings(names@) == registries(image_models(images@)),
            forall|j: int| 0 <= j < k ==> (#[trigger] r@[j]).registry@ == firsts@[j]@,
            forall|j: int|
                0 <= j < k ==> (#[trigger] r@[j]).members@ == places(
                    strings(names@),
                    r@[j].registry@,
                ),
        decreases firsts.len() - k,
    {
        let members = places_of(&names, firsts[k].as_str());
        r.push(Group { registry: firsts[k].clone(), members });
        k += 1;
    }
    assert(group_names(r@) =~= strings(firsts@));
    r
}

/// Whether an image is checked.
pub fn is_wanted(image: &Image, config: &Config) -> (r: bool)
    ensures
        r == wanted(image@, *config),
{
    !is_ignored(image.parts.registry.as_str(), &config.registries) && !is_excluded(
        &config.images.exclude,
        image.reference.as_str(),
    )
}

/// The images that are checked.
pub fn worklist(images: Vec<Image>, config: &Config) -> (r: Vec<Image>)
    ensures
        image_models(r@) == survivors(image_models(images@), *config),
{
    let ghost all = image_models(images@);
    let mut r: Vec<Image> = Vec::new();
    let mut i: usize = 0;
    assert(all.subrange(0, 0) =~= Seq::<ImageModel>::empty());
    assert(image_models(r@) =~= Seq::<ImageModel>::empty());
    while i < images.len()
        invariant
            i <= images.len(),
            all == image_models(images@),
            image_models(r@) == survivors(all.subrange(0, i as int), *config),
        decreases images.len() - i,
    {
        let ghost now = all.subrange(0, i + 1);
        assert(now.drop_last() =~= all.subrange(0, i as int));
        assert(now.last() == images@[i as int]@);
        if is_wanted(&images[i], config) {
            let ghost before = r@;
            r.push(images[i].duplicate());
            assert(image_models(r@) =~= image_models(before).push(images@[i as int]@));
        }
        i += 1;
    }
    assert(all.subrange(0, images.len() as int) =~= all);
    r
}

/// The repositories of the images of a group, in the order of the images.
pub open spec fn group_repositories(images: Seq<ImageModel>, members: Seq<usize>) -> Seq<
    Seq<char>,
> {
    Seq::new(members.len(), |k: int| images[members[k] as int].parts.repository)
}

/// The repositories of the images of a group.
pub fn repositories_of(images: &Vec<Image>, members: &Vec<usize>) -> (r: Vec<String>)
    requires
        forall|k: int| 0 <= k < members.len() ==> (#[trigger] members@[k]) < images.len(),
    ensures
        strings(r@) == group_repositories(image_models(images@), members@),
{
    let mut r: Vec<String> = Vec::new();
    let mut k: usize = 0;
    while k < members.len()
        invariant
            k <= members.len(),
            r.len() == k,
            forall|j: int| 0 <= j < members.len() ==> (#[trigger] members@[j]) < images.len(),
            forall|j: int|
                0 <= j < k ==> (#[trigger] r@[j])@ == images@[members@[j] as int]@.parts.repository,
        decreases members.len() - k,
    {
        r.push(images[members[k]].parts.repository.clone());
        k += 1;
    }
    assert(strings(r@) =~= group_repositories(image_models(images@), members@));
    r
}

/// Every place of a registry is a place in the list.
pub proof fn lemma_places(regs: Seq<Seq<char>>, registry: Seq<char>)
    requires
        regs.len() <= usize::MAX,
    ensures
        forall|k: int|
            0 <= k < places(regs, registry).len() ==> (#[trigger] places(regs, registry)[k])
                < regs.len() && regs[places(regs, registry)[k] as int] == registry,
        forall|i: int|
            0 <= i < regs.len() && regs[i] == registry ==> places(regs, registry).contains(
                i as usize,
            ),
    decreases regs.len(),
{
    if regs.len() > 0 {
        let t = regs.drop_last();
        lemma_places(t, registry);
        let p = places(regs, registry);
        let q = places(t, registry);
        assert forall|k: int| 0 <= k < p.len() implies (#[trigger] p[k]) < regs.len() && regs[p[k] as int]
            == registry by {
            if k < q.len() {
                assert(p[k] == q[k]);
                assert(t[q[k] as int] == registry);
            }
        }
        assert forall|i: int| 0 <= i < regs.len() && regs[i] == registry implies p.contains(
            i as usize,
        ) by {
            if i < t.len() {
                assert(t[i] == registry);
                assert(q.contains(i as usize));
                let m = choose|m: int| 0 <= m < q.len() && q[m] == i as usize;
                assert(p[m] == i as usize);
            } else {
                assert(p[p.len() - 1] == i as usize);
            }
        }
    }
}

/// The text of `s` without the slashes at its end.
pub open spec fn trimmed(s: Seq<char>) -> Seq<char>
    decreases s.len(),
{
    if s.len() > 0 && s.last() == '/' {
        trimmed(s.drop_last())
    } else {
        s
    }
}

/// The address under which another instance answers: its own address,
/// without slashes at the end and with `https://` in front where it names no
/// protocol, and then `/api/v3/`.
pub open spec fn server_address(url: Seq<char>) -> Seq<char> {
    if is_prefix("http://"@, url) || is_prefix("https://"@, url) {
        trimmed(url) + "/api/v3/"@
    } else {
        "https://"@ + trimmed(url) + "/api/v3/"@
    }
}

/// The text of `s` without the slashes at its end.
fn trim_end(s: &str) -> (r: Vec<char>)
    ensures
        r@ == trimmed(s@),
{
    let v = chars_of(s);
    let mut n: usize = v.len();
    assert(v@.subrange(0, n as int) =~= v@);
    while n > 0 && v[n - 1] == '/'
        invariant
            n <= v.len(),
            trimmed(v@) == trimmed(v@.subrange(0, n as int)),
        decreases n,
    {
        assert(v@.subrange(0, n as int).drop_last() =~= v@.subrange(0, n - 1));
        n -= 1;
    }
    slice_chars(&v, 0, n)
}

/// The address under which another instance answers.
pub fn server_base_url(url: &str) -> (r: String)
    ensures
        r@ == server_address(url@),
{
    let named = starts_with(url, "http://") || starts_with(url, "https://");
    let mut r: Vec<char> = Vec::new();
    if !named {
        append_str(&mut r, "https://");
    } else {
        assert(r@ =~= Seq::<char>::empty());
    }
    let ghost head = r@;
    let t = trim_end(url);
    crate::text::append_chars(&mut r, &t);
    append_str(&mut r, "/api/v3/");
    assert(r@ =~= head + trimmed(url@) + "/api/v3/"@);
    string_of(&r)
}

/// The address at which another instance hands out its report.
pub fn server_json_url(url: &str) -> (r: String)
    ensures
        r@ == server_address(url@) + "json"@,
{
    let mut r = chars_of(server_base_url(url).as_str());
    append_str(&mut r, "json");
    string_of(&r)
}

/// The address at which another instance is told to check again.
pub fn server_refresh_url(url: &str) -> (r: String)
    ensures
        r@ == server_address(url@) + "refresh"@,
{
    let mut r = chars_of(server_base_url(url).as_str());
    append_str(&mut r, "refresh");
    string_of(&r)
}

/// Whether another instance answered: it did when an answer came and its
/// status is 200.
pub fn peer_answered(outcome: &Result<Reply, Failure>) -> (r: bool)
    ensures
        r == (outcome matches Ok(reply) && reply.status == 200),
{
    match outcome {
        Ok(reply) => reply.status == 200,
        Err(_) => false,
    }
}

/// A report of another instance as it is taken over: under the name of that
/// instance, and with the status that it tells.
pub open spec fn adopted(u: UpdateModel, server: Seq<char>) -> UpdateModel {
    UpdateModel { server: Some(server), status: u.status(), ..u }
}

/// Takes over the reports of another instance: each under the name of that
/// instance and with the status that it tells, in the order in which they
/// came.
pub fn adopt(updates: Vec<Update>, server: &str) -> (r: Vec<Update>)
    requires
        forall|i: int| 0 <= i < updates.len() ==> (#[trigger] updates@[i])@.well_formed(),
    ensures
        r.len() == updates.len(),
        forall|i: int| 0 <= i < r.len() ==> (#[trigger] r@[i])@ == adopted(updates@[i]@, server@),
{
    let mut r: Vec<Update> = Vec::new();
    let mut i: usize = 0;
    while i < updates.len()
        invariant
            i <= updates.len(),
            r.len() == i,
            forall|k: int| 0 <= k < updates.len() ==> (#[trigger] updates@[k])@.well_formed(),
            forall|k: int| 0 <= k < i ==> (#[trigger] r@[k])@ == adopted(updates@[k]@, server@),
        decreases updates.len() - i,
    {
        let u = &updates[i];
        r.push(
            Update {
                reference: u.reference.clone(),
                parts: u.parts.duplicate(),
                url: copy_optional(&u.url),
                result: u.result.duplicate(),
                time: u.time,
                server: Some(server.to_owned()),
                used_by: copy_strings(&u.used_by),
                status: u.get_status(),
            },
        );
        i += 1;
    }
    r
}

/// Puts the reports of other instances behind those of this one.
pub fn merge(local: Vec<Update>, remote: Vec<Update>) -> (r: Vec<Update>)
    ensures
        update_models(r@) == update_models(local@) + update_models(remote@),
{
    let mut r = local;
    let mut i: usize = 0;
    while i < remote.len()
        invariant
            i <= remote.len(),
            update_models(r@) == update_models(local@) + update_models(
                remote@.subrange(0, i as int),
            ),
        decreases remote.len() - i,
    {
        let ghost before = r@;
        r.push(remote[i].duplicate());
        i += 1;
        assert(update_models(r@) =~= update_models(local@) + update_models(
            remote@.subrange(0, i as int),
        )) by {
            assert(update_models(r@) =~= update_models(before).push(remote@[i - 1]@));
            assert(update_models(remote@.subrange(0, i as int)) =~= update_models(
                remote@.subrange(0, i - 1),
            ).push(remote@[i - 1]@));
        }
    }
    assert(remote@.subrange(0, remote.len() as int) =~= remote@);
    r
}

/// The reports on checked images, in the order of the images.
pub fn reports(images: &Vec<Image>) -> (r: Vec<Update>)
    requires
        forall|i: int| 0 <= i < images.len() ==> (#[trigger] images@[i])@.checked(),
    ensures
        r.len() == images.len(),
        forall|i: int| 0 <= i < r.len() ==> (#[trigger] r@[i])@ == images@[i]@.report(),
        forall|i: int| 0 <= i < r.len() ==> (#[trigger] r@[i])@.well_formed(),
{
    let mut r: Vec<Update> = Vec::new();
    let mut i: usize = 0;
    while i < images.len()
        invariant
            i <= images.len(),
            r.len() == i,
            forall|k: int| 0 <= k < images.len() ==> (#[trigger] images@[k])@.checked(),
            forall|k: int| 0 <= k < i ==> (#[trigger] r@[k])@ == images@[k]@.report(),
            forall|k: int| 0 <= k < i ==> (#[trigger] r@[k])@.well_formed(),
        decreases images.len() - i,
    {
        proof {
            lemma_report_well_formed(images@[i as int]@);
        }
        r.push(images[i].to_update());
        i += 1;
    }
    r
}

/// The reference under which the image of a container is looked up: the
/// name of the image, with the tag `latest` where it names no tag.
pub open spec fn in_use_name(image: Seq<char>) -> Seq<char> {
    if image.contains(':') {
        image
    } else {
        image + ":latest"@
    }
}

/// The reference under which the image of a container is looked up.
pub fn in_use_reference(image: &str) -> (r: String)
    ensures
        r@ == in_use_name(image@),
{
    let mut v = chars_of(image);
    if !has_char(&v, ':') {
        append_str(&mut v, ":latest");
    }
    string_of(&v)
}

} // verus!
