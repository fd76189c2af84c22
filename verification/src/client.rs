//! What is asked of a registry and how its answers are read: the probe for
//! authorization, the token, the digest of a manifest and the list of tags.

use crate::challenge::{
    bearer_of, challenges_of, pairs, parse_www_authenticate, Challenge, ChallengeError,
    ChallengeModel,
};
use crate::http::{
    check_outcome, describe, failure_of, message, ErrorKind, Failure, Reply, Request,
    RequestError, RequestMethod, RequestModel,
};
use crate::json::{json_of, parse_value, text_list_member, text_member, JsonValue};
use crate::link::{links_of, next_page, parse_link};
use crate::reference::{Parts, PartsModel};
use crate::text::{append_str, chars_of, contains_text, optional, string_of, strings};
use vstd::prelude::*;

verus! {

/// The kinds of manifest that are asked for, so that the digest is the one
/// that a pull would record.
pub const ACCEPT_MANIFESTS: &'static str =
    "application/vnd.docker.distribution.manifest.v2+json, application/vnd.docker.distribution.manifest.list.v2+json, application/vnd.oci.image.index.v1+json";

/// The address of the root of a registry, where it tells whether it wants
/// authorization.
pub open spec fn probe_address(protocol: Seq<char>, registry: Seq<char>) -> Seq<char> {
    protocol + "://"@ + registry + "/v2/"@
}

/// The address of the manifest of an image.
pub open spec fn manifest_address(protocol: Seq<char>, parts: PartsModel) -> Seq<char> {
    protocol + "://"@ + parts.registry + "/v2/"@ + parts.repository + "/manifests/"@ + parts.tag
}

/// The address of the list of tags of a repository.
pub open spec fn tags_address(protocol: Seq<char>, parts: PartsModel) -> Seq<char> {
    protocol + "://"@ + parts.registry + "/v2/"@ + parts.repository + "/tags/list"@
}

/// What is sent as authorization with a token.
pub open spec fn bearer(token: Seq<char>) -> Seq<char> {
    "Bearer "@ + token
}

/// The headers of a request: what is accepted, and the authorization where
/// there is a token.
pub open spec fn headers_with(accept: Seq<char>, token: Option<Seq<char>>) -> Seq<
    (Seq<char>, Seq<char>),
> {
    match token {
        Some(t) => seq![("Accept"@, accept), ("Authorization"@, bearer(t))],
        None => seq![("Accept"@, accept)],
    }
}

/// What is sent as authorization with a token, if there is one.
pub fn to_bearer_string(token: &Option<&str>) -> (r: Option<String>)
    ensures
        match *token {
            Some(t) => r is Some && r.unwrap()@ == bearer(t@),
            None => r is None,
        },
{
    match token {
        Some(t) => {
            let mut r = chars_of("Bearer ");
            append_str(&mut r, t);
            Some(string_of(&r))
        },
        None => None,
    }
}

/// The headers of a request.
pub fn make_headers(accept: &str, token: &Option<String>) -> (r: Vec<(String, String)>)
    ensures
        pairs(r@) == headers_with(accept@, optional(*token)),
{
    let mut r: Vec<(String, String)> = Vec::new();
    r.push(("Accept".to_owned(), accept.to_owned()));
    match token {
        Some(t) => {
            let sent = to_bearer_string(&Some(t.as_str()));
            match sent {
                Some(value) => {
                    r.push(("Authorization".to_owned(), value));
                },
                None => {},
            }
            assert(pairs(r@) =~= headers_with(accept@, optional(*token)));
        },
        None => {
            assert(pairs(r@) =~= headers_with(accept@, optional(*token)));
        },
    }
    r
}

/// The address of the root of a registry.
pub fn probe_url(protocol: &str, registry: &str) -> (r: String)
    ensures
        r@ == probe_address(protocol@, registry@),
{
    let mut r = chars_of(protocol);
    append_str(&mut r, "://");
    append_str(&mut r, registry);
    append_str(&mut r, "/v2/");
    string_of(&r)
}

/// The address of the manifest of an image.
pub fn manifest_url(protocol: &str, parts: &Parts) -> (r: String)
    ensures
        r@ == manifest_address(protocol@, parts@),
{
    let mut r = chars_of(protocol);
    append_str(&mut r, "://");
    append_str(&mut r, parts.registry.as_str());
    append_str(&mut r, "/v2/");
    append_str(&mut r, parts.repository.as_str());
    append_str(&mut r, "/manifests/");
    append_str(&mut r, parts.tag.as_str());
    string_of(&r)
}

/// The address of the list of tags of a repository.
pub fn tags_url(protocol: &str, parts: &Parts) -> (r: String)
    ensures
        r@ == tags_address(protocol@, parts@),
{
    let mut r = chars_of(protocol);
    append_str(&mut r, "://");
    append_str(&mut r, parts.registry.as_str());
    append_str(&mut r, "/v2/");
    append_str(&mut r, parts.repository.as_str());
    append_str(&mut r, "/tags/list");
    string_of(&r)
}

/// The probe of a registry: a plain request for its root, for which the
/// status 401 is an answer.
pub fn probe_request(protocol: &str, registry: &str) -> (r: Request)
    ensures
        r@ == (RequestModel {
            method: RequestMethod::GET,
            url: probe_address(protocol@, registry@),
            headers: Seq::empty(),
            ignore_401: true,
        }),
{
    let r = Request {
        method: RequestMethod::GET,
        url: probe_url(protocol, registry),
        headers: Vec::new(),
        ignore_401: true,
    };
    assert(pairs(r.headers@) =~= Seq::empty());
    r
}

/// What a probe tells, given the challenges that its header holds: a
/// challenge where the status is 401, and that no authorization is wanted on
/// any other status and where no answer came. With the status 401 the header
/// must be there and hold a challenge that can be answered.
pub open spec fn probed(
    outcome: Result<Reply, Failure>,
) -> Result<Option<ChallengeModel>, ChallengeError> {
    match outcome {
        Ok(reply) => if reply.status == 401 {
            match reply.www_authenticate {
                Some(header) => match bearer_of(challenges_of(header@)) {
                    Ok(c) => Ok(Some(c)),
                    Err(e) => Err(e),
                },
                None => Err(ChallengeError::Malformed),
            }
        } else {
            Ok(None)
        },
        Err(_) => Ok(None),
    }
}

/// Whether the result of a probe says what `m` says.
pub open spec fn same_probe(
    r: Result<Option<Challenge>, ChallengeError>,
    m: Result<Option<ChallengeModel>, ChallengeError>,
) -> bool {
    match m {
        Ok(Some(c)) => r is Ok && r->Ok_0 is Some && r->Ok_0->Some_0@ == c,
        Ok(None) => r is Ok && r->Ok_0 is None,
        Err(e) => r == Err::<Option<Challenge>, ChallengeError>(e),
    }
}

/// What a probe tells, given what its header was read as.
pub fn read_probe_with(status: Option<u16>, challenge: Option<Result<Challenge, ChallengeError>>) -> (r:
    Result<Option<Challenge>, ChallengeError>)
    ensures
        r == (if status == Some(401u16) {
            match challenge {
                Some(Ok(c)) => Ok::<Option<Challenge>, ChallengeError>(Some(c)),
                Some(Err(e)) => Err(e),
                None => Err(ChallengeError::Malformed),
            }
        } else {
            Ok(None)
        }),
{
    match status {
        Some(401) => match challenge {
            Some(Ok(c)) => Ok(Some(c)),
            Some(Err(e)) => Err(e),
            None => Err(ChallengeError::Malformed),
        },
        _ => Ok(None),
    }
}

/// What a probe tells.
pub fn read_probe(outcome: &Result<Reply, Failure>) -> (r: Result<
    Option<Challenge>,
    ChallengeError,
>)
    ensures
        same_probe(r, probed(*outcome)),
{
    match outcome {
        Ok(reply) => {
            let challenge = if reply.status == 401 {
                match &reply.www_authenticate {
                    Some(header) => Some(parse_www_authenticate(header.as_str())),
                    None => None,
                }
            } else {
                None
            };
            read_probe_with(Some(reply.status), challenge)
        },
        Err(_) => read_probe_with(None, None),
    }
}

/// The texts of `s` without repetitions, each where it stands first.
pub open spec fn distinct(s: Seq<Seq<char>>) -> Seq<Seq<char>>
    decreases s.len(),
{
    if s.len() == 0 {
        Seq::empty()
    } else {
        let d = distinct(s.drop_last());
        if d.contains(s.last()) {
            d
        } else {
            d.push(s.last())
        }
    }
}

/// One scope for each repository: the right to pull from it.
pub open spec fn scopes(repositories: Seq<Seq<char>>) -> Seq<char>
    decreases repositories.len(),
{
    if repositories.len() == 0 {
        Seq::empty()
    } else {
        scopes(repositories.drop_last()) + "&scope=repository:"@ + repositories.last() + ":pull"@
    }
}

/// The address at which a token is asked for: the realm, the service, and
/// one scope for each distinct repository.
pub open spec fn token_address(challenge: ChallengeModel, repositories: Seq<Seq<char>>) -> Seq<
    char,
> {
    challenge.realm + "?service="@ + challenge.service + scopes(distinct(repositories))
}

/// The headers of the request for a token: the credentials, where there are
/// any.
pub open spec fn token_headers(credentials: Option<Seq<char>>) -> Seq<(Seq<char>, Seq<char>)> {
    match credentials {
        Some(c) => seq![("Authorization"@, "Basic "@ + c)],
        None => Seq::empty(),
    }
}

/// The texts without repetitions have the same members, and none twice.
pub proof fn lemma_distinct(s: Seq<Seq<char>>)
    ensures
        forall|x: Seq<char>| distinct(s).contains(x) <==> s.contains(x),
        forall|i: int, j: int|
            0 <= i < j < distinct(s).len() ==> distinct(s)[i] != distinct(s)[j],
        distinct(s).len() <= s.len(),
    decreases s.len(),
{
    if s.len() > 0 {
        let t = s.drop_last();
        let d = distinct(t);
        lemma_distinct(t);
        assert forall|x: Seq<char>| distinct(s).contains(x) <==> s.contains(x) by {
            if s.contains(x) {
                let k = choose|k: int| 0 <= k < s.len() && s[k] == x;
                if k < t.len() {
                    assert(t[k] == x);
                    assert(t.contains(x));
                    assert(d.contains(x));
                    let m = choose|m: int| 0 <= m < d.len() && d[m] == x;
                    assert(distinct(s)[m] == x);
                } else {
                    if !d.contains(x) {
                        assert(distinct(s)[d.len() as int] == x);
                    }
                }
            }
            if distinct(s).contains(x) {
                let m = choose|m: int| 0 <= m < distinct(s).len() && distinct(s)[m] == x;
                if m < d.len() {
                    assert(d[m] == x);
                    assert(d.contains(x));
                    assert(t.contains(x));
                    let k = choose|k: int| 0 <= k < t.len() && t[k] == x;
                    assert(s[k] == x);
                } else {
                    assert(s[s.len() - 1] == x);
                }
            }
        }
    }
}

/// The texts of `v` without repetitions.
pub fn distinct_texts(v: &Vec<String>) -> (r: Vec<String>)
    ensures
        strings(r@) == distinct(strings(v@)),
{
    let mut r: Vec<String> = Vec::new();
    let mut i: usize = 0;
    assert(strings(v@.subrange(0, 0)) =~= Seq::<Seq<char>>::empty());
    while i < v.len()
        invariant
            i <= v.len(),
            strings(r@) == distinct(strings(v@.subrange(0, i as int))),
        decreases v.len() - i,
    {
        let ghost now = strings(v@.subrange(0, i + 1));
        assert(now.drop_last() =~= strings(v@.subrange(0, i as int)));
        assert(now.last() == v@[i as int]@);
        if !contains_text(&r, v[i].as_str()) {
            let ghost before = r@;
            r.push(v[i].clone());
            assert(strings(r@) =~= strings(before).push(v@[i as int]@));
        }
        i += 1;
    }
    assert(v@.subrange(0, v.len() as int) =~= v@);
    r
}

/// The address at which a token is asked for.
pub fn token_url(challenge: &Challenge, repositories: &Vec<String>) -> (r: String)
    ensures
        r@ == token_address(challenge@, strings(repositories@)),
{
    let mut r = chars_of(challenge.realm.as_str());
    append_str(&mut r, "?service=");
    append_str(&mut r, challenge.service.as_str());
    let ghost head = r@;
    let wanted = distinct_texts(repositories);
    let mut i: usize = 0;
    assert(strings(wanted@.subrange(0, 0)) =~= Seq::<Seq<char>>::empty());
    assert(r@ =~= head + scopes(strings(wanted@.subrange(0, 0))));
    while i < wanted.len()
        invariant
            i <= wanted.len(),
            r@ == head + scopes(strings(wanted@.subrange(0, i as int))),
        decreases wanted.len() - i,
    {
        let ghost now = strings(wanted@.subrange(0, i + 1));
        assert(now.drop_last() =~= strings(wanted@.subrange(0, i as int)));
        assert(now.last() == wanted@[i as int]@);
        let ghost before = r@;
        append_str(&mut r, "&scope=repository:");
        append_str(&mut r, wanted[i].as_str());
        append_str(&mut r, ":pull");
        assert(r@ =~= head + scopes(now));
        i += 1;
    }
    assert(wanted@.subrange(0, wanted.len() as int) =~= wanted@);
    string_of(&r)
}

/// The one request by which a token is asked for all the repositories of a
/// registry.
pub fn token_request(
    challenge: &Challenge,
    repositories: &Vec<String>,
    credentials: &Option<String>,
) -> (r: Request)
    ensures
        r@ == (RequestModel {
            method: RequestMethod::GET,
            url: token_address(challenge@, strings(repositories@)),
            headers: token_headers(optional(*credentials)),
            ignore_401: false,
        }),
{
    let mut headers: Vec<(String, String)> = Vec::new();
    match credentials {
        Some(c) => {
            let mut value = chars_of("Basic ");
            append_str(&mut value, c.as_str());
            headers.push(("Authorization".to_owned(), string_of(&value)));
            assert(pairs(headers@) =~= token_headers(optional(*credentials)));
        },
        None => {
            assert(pairs(headers@) =~= token_headers(optional(*credentials)));
        },
    }
    Request {
        method: RequestMethod::GET,
        url: token_url(challenge, repositories),
        headers,
        ignore_401: false,
    }
}

/// The token that a body was read as: the member `token` of its object,
/// which must be a string.
pub open spec fn token_in(value: Option<JsonValue>) -> Option<Seq<char>> {
    match value {
        Some(v) => text_member(v, "token"@),
        None => None,
    }
}

/// The tags that a body was read as: the member `tags` of its object, which
/// must be an array of strings.
pub open spec fn tags_in(value: Option<JsonValue>) -> Option<Seq<Seq<char>>> {
    match value {
        Some(v) => text_list_member(v, "tags"@),
        None => None,
    }
}

/// The token in a body that was read as JSON.
pub fn find_token(value: &Option<JsonValue>) -> (r: Option<String>)
    ensures
        optional(r) == token_in(*value),
{
    match value {
        Some(v) => v.text_at("token"),
        None => None,
    }
}

/// The tags in a body that was read as JSON.
pub fn find_tags(value: &Option<JsonValue>) -> (r: Option<Vec<String>>)
    ensures
        match tags_in(*value) {
            Some(t) => r is Some && strings(r.unwrap()@) == t,
            None => r is None,
        },
{
    match value {
        Some(v) => v.text_list_at("tags"),
        None => None,
    }
}

/// What is made of the answer to a request: the failure of the request, a
/// malformed response where the answer lacks what was asked for, or what was
/// asked for.
pub fn read_answer<T>(
    request: &Request,
    token_sent: bool,
    outcome: &Result<Reply, Failure>,
    found: Option<T>,
) -> (r: Result<T, RequestError>)
    ensures
        match failure_of(*outcome, request.ignore_401, token_sent) {
            Some(kind) => r is Err && r->Err_0.kind == kind && r->Err_0.message@ == message(
                kind,
                request.method,
                request.url@,
                *outcome,
            ),
            None => match found {
                Some(x) => r == Ok::<T, RequestError>(x),
                None => r is Err && r->Err_0.kind == ErrorKind::MalformedServerResponse
                    && r->Err_0.message@ == message(
                    ErrorKind::MalformedServerResponse,
                    request.method,
                    request.url@,
                    *outcome,
                ),
            },
        },
{
    match check_outcome(outcome, request.ignore_401, token_sent) {
        Some(kind) => Err(
            RequestError {
                kind,
                message: describe(kind, request.method, request.url.as_str(), outcome),
            },
        ),
        None => match found {
            Some(x) => Ok(x),
            None => Err(
                RequestError {
                    kind: ErrorKind::MalformedServerResponse,
                    message: describe(
                        ErrorKind::MalformedServerResponse,
                        request.method,
                        request.url.as_str(),
                        outcome,
                    ),
                },
            ),
        },
    }
}

/// The token in the answer to a request for one.
pub fn read_token(request: &Request, outcome: &Result<Reply, Failure>) -> (r: Result<
    String,
    RequestError,
>)
    ensures
        r is Ok <==> failure_of(*outcome, request.ignore_401, false) is None && token_in(
            json_of(outcome->Ok_0.body@),
        ) is Some,
        r matches Ok(t) ==> Some(t@) == token_in(json_of(outcome->Ok_0.body@)),
        r matches Err(e) ==> e.kind == (match failure_of(*outcome, request.ignore_401, false) {
            Some(kind) => kind,
            None => ErrorKind::MalformedServerResponse,
        }),
        digest_model(r) == token_read(request@, *outcome),
{
    let found = match outcome {
        Ok(reply) => find_token(&parse_value(reply.body.as_str())),
        Err(_) => None,
    };
    read_answer(request, false, outcome, found)
}

/// The digest in the answer to a request for a manifest.
pub fn read_digest(request: &Request, token_sent: bool, outcome: &Result<Reply, Failure>) -> (r:
    Result<String, RequestError>)
    ensures
        r is Ok <==> failure_of(*outcome, request.ignore_401, token_sent) is None
            && outcome->Ok_0.digest is Some,
        r matches Ok(d) ==> Some(d@) == optional(outcome->Ok_0.digest),
        r matches Err(e) ==> e.kind == (match failure_of(
            *outcome,
            request.ignore_401,
            token_sent,
        ) {
            Some(kind) => kind,
            None => ErrorKind::MalformedServerResponse,
        }) && e.message@ == message(e.kind, request.method, request.url@, *outcome),
        digest_model(r) == digest_read(request@, token_sent, *outcome),
{
    let found = match outcome {
        Ok(reply) => match &reply.digest {
            Some(d) => Some(d.clone()),
            None => None,
        },
        Err(_) => None,
    };
    read_answer(request, token_sent, outcome, found)
}

/// One page of a list of tags, and the address of the next page where there
/// is one.
#[derive(Debug, PartialEq, Eq)]
pub struct TagPage {
    pub tags: Vec<String>,
    pub next: Option<String>,
}

/// A page as plain text.
pub struct TagPageModel {
    pub tags: Seq<Seq<char>>,
    pub next: Option<Seq<char>>,
}

impl View for TagPage {
    type V = TagPageModel;

    open spec fn view(&self) -> TagPageModel {
        TagPageModel { tags: strings(self.tags@), next: optional(self.next) }
    }
}

/// The page that an answer holds: its tags, and the address that its `Link`
/// header names as next, made absolute against the address that was asked.
/// Nothing where the body or the header cannot be read.
pub open spec fn page_in(reply: Reply, url: Seq<char>) -> Option<TagPageModel> {
    match tags_in(json_of(reply.body@)) {
        Some(tags) => match reply.link {
            Some(link) => match next_page(links_of(link@, url)) {
                Ok(next) => Some(TagPageModel { tags, next }),
                Err(_) => None,
            },
            None => Some(TagPageModel { tags, next: None }),
        },
        None => None,
    }
}

/// The page that an answer holds.
pub fn find_page(reply: &Reply, url: &str) -> (r: Option<TagPage>)
    ensures
        match page_in(*reply, url@) {
            Some(p) => r is Some && r.unwrap()@ == p,
            None => r is None,
        },
{
    let tags = match find_tags(&parse_value(reply.body.as_str())) {
        Some(t) => t,
        None => {
            return None;
        },
    };
    match &reply.link {
        Some(link) => match parse_link(link.as_str(), url) {
            Ok(next) => Some(TagPage { tags, next }),
            Err(_) => None,
        },
        None => Some(TagPage { tags, next: None }),
    }
}

/// The page in the answer to a request for a list of tags.
pub fn read_page(request: &Request, token_sent: bool, outcome: &Result<Reply, Failure>) -> (r:
    Result<TagPage, RequestError>)
    ensures
        r is Ok <==> failure_of(*outcome, request.ignore_401, token_sent) is None && page_in(
            outcome->Ok_0,
            request.url@,
        ) is Some,
        r matches Ok(p) ==> Some(p@) == page_in(outcome->Ok_0, request.url@),
        r matches Err(e) ==> e.kind == (match failure_of(
            *outcome,
            request.ignore_401,
            token_sent,
        ) {
            Some(kind) => kind,
            None => ErrorKind::MalformedServerResponse,
        }) && e.message@ == message(e.kind, request.method, request.url@, *outcome),
        page_model(r) == page_read(request@, token_sent, *outcome),
{
    let found = match outcome {
        Ok(reply) => find_page(reply, request.url.as_str()),
        Err(_) => None,
    };
    read_answer(request, token_sent, outcome, found)
}

/// A page or the words of a failure, as plain text.
pub open spec fn page_model(page: Result<TagPage, RequestError>) -> Result<
    TagPageModel,
    Seq<char>,
> {
    match page {
        Ok(p) => Ok(p@),
        Err(e) => Err(e.message@),
    }
}

/// A digest or the words of a failure, as plain text.
pub open spec fn digest_model(digest: Result<String, RequestError>) -> Result<
    Seq<char>,
    Seq<char>,
> {
    match digest {
        Ok(d) => Ok(d@),
        Err(e) => Err(e.message@),
    }
}

/// What the answer to a request for tags is read as: the words of the
/// failure where the request failed, the page that the answer holds, or the
/// words for a malformed response where it holds none.
pub open spec fn page_read(
    request: RequestModel,
    token_sent: bool,
    outcome: Result<Reply, Failure>,
) -> Result<TagPageModel, Seq<char>> {
    match failure_of(outcome, request.ignore_401, token_sent) {
        Some(kind) => Err(message(kind, request.method, request.url, outcome)),
        None => match page_in(outcome->Ok_0, request.url) {
            Some(p) => Ok(p),
            None => Err(
                message(ErrorKind::MalformedServerResponse, request.method, request.url, outcome),
            ),
        },
    }
}

/// What the answer to a request for a manifest is read as: the words of the
/// failure where the request failed, the digest that the answer names, or
/// the words for a malformed response where it names none.
pub open spec fn digest_read(
    request: RequestModel,
    token_sent: bool,
    outcome: Result<Reply, Failure>,
) -> Result<Seq<char>, Seq<char>> {
    match failure_of(outcome, request.ignore_401, token_sent) {
        Some(kind) => Err(message(kind, request.method, request.url, outcome)),
        None => match outcome->Ok_0.digest {
            Some(d) => Ok(d@),
            None => Err(
                message(ErrorKind::MalformedServerResponse, request.method, request.url, outcome),
            ),
        },
    }
}

/// What the answer to a request for a token is read as.
pub open spec fn token_read(
    request: RequestModel,
    outcome: Result<Reply, Failure>,
) -> Result<Seq<char>, Seq<char>> {
    match failure_of(outcome, request.ignore_401, false) {
        Some(kind) => Err(message(kind, request.method, request.url, outcome)),
        None => match token_in(json_of(outcome->Ok_0.body@)) {
            Some(t) => Ok(t),
            None => Err(
                message(ErrorKind::MalformedServerResponse, request.method, request.url, outcome),
            ),
        },
    }
}

} // verus!
