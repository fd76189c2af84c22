//! References: the names that images go by, such as
//! `ghcr.io/sergi0g/cup:latest`.

use crate::text::{
    append_chars, chars_of, find, find_char, has_char, same_chars, slice_chars, string_of,
};
use vstd::prelude::*;

verus! {

/// The registry of an image that names none.
pub const DEFAULT_REGISTRY: &'static str = "registry-1.docker.io";

/// The three parts of a reference.
#[derive(Debug, PartialEq, Eq)]
pub struct Parts {
    pub registry: String,
    pub repository: String,
    pub tag: String,
}

/// The parts of a reference as plain text.
pub struct PartsModel {
    pub registry: Seq<char>,
    pub repository: Seq<char>,
    pub tag: Seq<char>,
}

impl View for Parts {
    type V = PartsModel;

    open spec fn view(&self) -> PartsModel {
        PartsModel { registry: self.registry@, repository: self.repository@, tag: self.tag@ }
    }
}

impl Default for Parts {
    fn default() -> (r: Self)
        ensures
            r@ == (PartsModel {
                registry: Seq::<char>::empty(),
                repository: Seq::<char>::empty(),
                tag: Seq::<char>::empty(),
            }),
    {
        Parts { registry: String::new(), repository: String::new(), tag: String::new() }
    }
}

impl Parts {
    /// A copy of the parts.
    pub fn duplicate(&self) -> (r: Self)
        ensures
            r@ == self@,
    {
        Parts {
            registry: self.registry.clone(),
            repository: self.repository.clone(),
            tag: self.tag.clone(),
        }
    }
}

/// The text of `s` before the first `c`, all of `s` when it holds none.
pub open spec fn before(s: Seq<char>, c: char) -> Seq<char> {
    s.subrange(0, find(s, c, 0))
}

/// The first piece of a reference names a registry: it is `localhost`, or it
/// holds a dot or a colon.
pub open spec fn names_registry(head: Seq<char>) -> bool {
    head == "localhost"@ || head.contains('.') || head.contains(':')
}

/// The registry of a reference and what follows it. A reference has a
/// registry when it holds a slash and the text before the first slash names
/// one; otherwise the registry is the default one and all of the reference
/// follows.
pub open spec fn registry_and_rest(s: Seq<char>) -> (Seq<char>, Seq<char>) {
    let i = find(s, '/', 0);
    if 0 <= i < s.len() && names_registry(s.subrange(0, i)) {
        (s.subrange(0, i), s.subrange(i + 1, s.len() as int))
    } else {
        (DEFAULT_REGISTRY@, s)
    }
}

/// The repository and tag of a reference, without a digest: what follows the
/// registry, up to the first `@`.
pub open spec fn name_and_tag(s: Seq<char>) -> Seq<char> {
    before(registry_and_rest(s).1, '@')
}

/// A reference can be split when at most one colon stands between its
/// registry and its digest.
pub open spec fn splittable(s: Seq<char>) -> bool {
    let rt = name_and_tag(s);
    let colon = find(rt, ':', 0);
    colon < rt.len() ==> find(rt, ':', colon + 1) == rt.len()
}

/// The parts of a reference. A repository of one piece at the default
/// registry stands under `library/`; a reference without a tag has the tag
/// `latest`.
pub open spec fn split_model(s: Seq<char>) -> PartsModel {
    let registry = registry_and_rest(s).0;
    let rt = name_and_tag(s);
    let colon = find(rt, ':', 0);
    let name = rt.subrange(0, colon);
    PartsModel {
        registry,
        repository: if !name.contains('/') && registry == DEFAULT_REGISTRY@ {
            "library/"@ + name
        } else {
            name
        },
        tag: if colon < rt.len() {
            rt.subrange(colon + 1, rt.len() as int)
        } else {
            "latest"@
        },
    }
}

/// Whether the first piece of a reference names a registry.
fn head_names_registry(head: &Vec<char>) -> (r: bool)
    ensures
        r == names_registry(head@),
{
    same_chars(head, &chars_of("localhost")) || has_char(head, '.') || has_char(head, ':')
}

/// The repository and tag of a reference with its registry.
fn leading(v: &Vec<char>) -> (r: (Vec<char>, Vec<char>))
    ensures
        r.0@ == registry_and_rest(v@).0,
        r.1@ == name_and_tag(v@),
{
    let i = find_char(v, '/', 0);
    let (registry, rest) = if i < v.len() {
        let head = slice_chars(v, 0, i);
        if head_names_registry(&head) {
            (head, slice_chars(v, i + 1, v.len()))
        } else {
            (chars_of(DEFAULT_REGISTRY), slice_chars(v, 0, v.len()))
        }
    } else {
        (chars_of(DEFAULT_REGISTRY), slice_chars(v, 0, v.len()))
    };
    assert(v@.subrange(0, v.len() as int) =~= v@);
    let at = find_char(&rest, '@', 0);
    (registry, slice_chars(&rest, 0, at))
}

/// Whether a reference can be split.
pub fn is_splittable(reference: &str) -> (r: bool)
    ensures
        r == splittable(reference@),
{
    let v = chars_of(reference);
    let (_, rt) = leading(&v);
    let colon = find_char(&rt, ':', 0);
    if colon < rt.len() {
        find_char(&rt, ':', colon + 1) == rt.len()
    } else {
        true
    }
}

/// Splits a reference into registry, repository and tag. For example,
/// `ghcr.io/sergi0g/cup:latest` becomes `ghcr.io`, `sergi0g/cup` and `latest`.
pub fn split(reference: &str) -> (r: (String, String, String))
    requires
        splittable(reference@),
    ensures
        r.0@ == split_model(reference@).registry,
        r.1@ == split_model(reference@).repository,
        r.2@ == split_model(reference@).tag,
{
    let v = chars_of(reference);
    let (registry, rt) = leading(&v);
    let colon = find_char(&rt, ':', 0);
    let name = slice_chars(&rt, 0, colon);
    let repository = if !has_char(&name, '/') && same_chars(&registry, &chars_of(DEFAULT_REGISTRY)) {
        let mut r = chars_of("library/");
        append_chars(&mut r, &name);
        r
    } else {
        name
    };
    let tag = if colon < rt.len() {
        slice_chars(&rt, colon + 1, rt.len())
    } else {
        chars_of("latest")
    };
    (string_of(&registry), string_of(&repository), string_of(&tag))
}

/// The parts of a reference.
pub fn parts_of(reference: &str) -> (r: Parts)
    requires
        splittable(reference@),
    ensures
        r@ == split_model(reference@),
{
    let (registry, repository, tag) = split(reference);
    Parts { registry, repository, tag }
}

} // verus!
