//! The `Link` header, by which a registry names the next page of a list.

use crate::text::{optional, same_text};
use vstd::prelude::*;

verus! {

/// One link of a `Link` header: its relation, in lower case, and its target
/// as an absolute address.
#[derive(Debug, PartialEq, Eq)]
pub struct Link {
    pub rel: String,
    pub target: String,
}

/// A link as plain text.
pub struct LinkModel {
    pub rel: Seq<char>,
    pub target: Seq<char>,
}

impl View for Link {
    type V = LinkModel;

    open spec fn view(&self) -> LinkModel {
        LinkModel { rel: self.rel@, target: self.target@ }
    }
}

/// Links as plain text.
pub open spec fn link_models(v: Seq<Link>) -> Seq<LinkModel> {
    v.map_values(|l: Link| l@)
}

/// The links that `http_link::parse_link_header` reads from a header value
/// with the address `base` as its base, or `None` where `base` is no
/// address or the header cannot be read.
pub uninterp spec fn links_of(header: Seq<char>, base: Seq<char>) -> Option<Seq<LinkModel>>;

/// `http_link::parse_link_header`, with `base` read by `url::Url::parse`:
/// the links of the header in the order in which they are written, one for
/// each relation of each target, with the target made absolute against
/// `base`; `None` where `base` is no address or the header cannot be read.
/// The same header and base always give the same links.
#[verifier::external_body]
pub(crate) fn parse_links(header: &str, base: &str) -> (r: Option<Vec<Link>>)
    ensures
        match links_of(header@, base@) {
            Some(l) => r is Some && link_models(r.unwrap()@) == l,
            None => r is None,
        },
{
    let base = url::Url::parse(base).ok()?;
    let links = http_link::parse_link_header(header, &base).ok()?;
    Some(links.into_iter().map(|l| Link { rel: l.rel, target: l.target.to_string() }).collect())
}

/// The target of the first of the links from `from` on whose relation is
/// `next`.
pub open spec fn next_from(links: Seq<LinkModel>, from: int) -> Option<Seq<char>>
    decreases links.len() - from,
{
    if from < 0 || from >= links.len() {
        None
    } else if links[from].rel == "next"@ {
        Some(links[from].target)
    } else {
        next_from(links, from + 1)
    }
}

/// The address of the next page that a header names: `Err` where the header
/// cannot be read, and no address where none of its links has the relation
/// `next`.
pub open spec fn next_page(found: Option<Seq<LinkModel>>) -> Result<Option<Seq<char>>, ()> {
    match found {
        None => Err(()),
        Some(links) => Ok(next_from(links, 0)),
    }
}

/// Whether a result says what `m` says.
pub open spec fn same_page(r: Result<Option<String>, ()>, m: Result<Option<Seq<char>>, ()>) -> bool {
    match m {
        Ok(t) => r is Ok && optional(r->Ok_0) == t,
        Err(_) => r is Err,
    }
}

/// The address of the next page among the links that were read.
pub fn select_next(found: &Option<Vec<Link>>) -> (r: Result<Option<String>, ()>)
    ensures
        same_page(
            r,
            next_page(
                match *found {
                    Some(l) => Some(link_models(l@)),
                    None => None,
                },
            ),
        ),
{
    match found {
        None => Err(()),
        Some(links) => {
            let mut i: usize = 0;
            while i < links.len()
                invariant
                    *found == Some(*links),
                    i <= links.len(),
                    next_from(link_models(links@), 0) == next_from(link_models(links@), i as int),
                decreases links.len() - i,
            {
                assert(link_models(links@)[i as int] == links@[i as int]@);
                if same_text(links[i].rel.as_str(), "next") {
                    let target = links[i].target.clone();
                    assert(next_from(link_models(links@), i as int) == Some(target@));
                    return Ok(Some(target));
                }
                i += 1;
            }
            Ok(None)
        },
    }
}

/// The address of the next page that a `Link` header names, made absolute
/// against the address of the page that came with it.
pub fn parse_link(link: &str, base: &str) -> (r: Result<Option<String>, ()>)
    ensures
        same_page(r, next_page(links_of(link@, base@))),
{
    let found = parse_links(link, base);
    select_next(&found)
}

} // verus!
