//! The challenge that a registry answers with when it wants a token.

use crate::text::{optional, same_text};
use vstd::prelude::*;

verus! {

/// One challenge of a `WWW-Authenticate` header: a scheme and its
/// parameters, each a name and a value as the header writes it.
#[derive(Debug, PartialEq, Eq)]
pub struct HeaderChallenge {
    pub scheme: String,
    pub params: Vec<(String, String)>,
}

/// A challenge as plain text.
pub struct HeaderChallengeModel {
    pub scheme: Seq<char>,
    pub params: Seq<(Seq<char>, Seq<char>)>,
}

/// Pairs of strings as pairs of texts.
pub open spec fn pairs(v: Seq<(String, String)>) -> Seq<(Seq<char>, Seq<char>)> {
    v.map_values(|p: (String, String)| (p.0@, p.1@))
}

impl View for HeaderChallenge {
    type V = HeaderChallengeModel;

    open spec fn view(&self) -> HeaderChallengeModel {
        HeaderChallengeModel { scheme: self.scheme@, params: pairs(self.params@) }
    }
}

/// Challenges as plain text.
pub open spec fn challenge_models(v: Seq<HeaderChallenge>) -> Seq<HeaderChallengeModel> {
    v.map_values(|c: HeaderChallenge| c@)
}

/// The challenges that `http_auth::parse_challenges` reads from a header
/// value, or `None` where it finds a syntax error.
pub uninterp spec fn challenges_of(header: Seq<char>) -> Option<Seq<HeaderChallengeModel>>;

/// `http_auth::parse_challenges`: the challenges of a header value in the
/// order in which they are written, each with its scheme and with its
/// parameters as name and escaped value (`ParamValue::as_escaped`); `None`
/// on a syntax error. The same header always gives the same challenges.
#[verifier::external_body]
pub(crate) fn parse_challenges(header: &str) -> (r: Option<Vec<HeaderChallenge>>)
    ensures
        match challenges_of(header@) {
            Some(c) => r is Some && challenge_models(r.unwrap()@) == c,
            None => r is None,
        },
{
    let found = http_auth::parse_challenges(header).ok()?;
    let lift = |c: &http_auth::ChallengeRef| HeaderChallenge {
        scheme: c.scheme.to_string(),
        params: c.params.iter().map(|(k, v)| (k.to_string(), v.as_escaped().to_string())).collect(),
    };
    Some(found.iter().map(lift).collect())
}

/// Where to ask for a token, and for which service.
#[derive(Debug, PartialEq, Eq)]
pub struct Challenge {
    pub realm: String,
    pub service: String,
}

pub struct ChallengeModel {
    pub realm: Seq<char>,
    pub service: Seq<char>,
}

impl View for Challenge {
    type V = ChallengeModel;

    open spec fn view(&self) -> ChallengeModel {
        ChallengeModel { realm: self.realm@, service: self.service@ }
    }
}

/// Why a header gives no challenge to answer.
#[derive(Clone, Copy, Debug, PartialEq, Eq, Structural)]
pub enum ChallengeError {
    /// The header cannot be read, holds no challenge, or its challenge lacks
    /// the realm or the service.
    Malformed,
    /// The first challenge is of another scheme than `Bearer`.
    UnsupportedScheme,
}

/// The value of the first of the parameters from `from` on that goes by the
/// name `key`.
pub open spec fn param_from(
    params: Seq<(Seq<char>, Seq<char>)>,
    key: Seq<char>,
    from: int,
) -> Option<Seq<char>>
    decreases params.len() - from,
{
    if from < 0 || from >= params.len() {
        None
    } else if params[from].0 == key {
        Some(params[from].1)
    } else {
        param_from(params, key, from + 1)
    }
}

/// The challenge to answer among those of a header: the first one, which
/// must be of the scheme `Bearer` and name a realm and a service.
pub open spec fn bearer_of(found: Option<Seq<HeaderChallengeModel>>) -> Result<
    ChallengeModel,
    ChallengeError,
> {
    match found {
        None => Err(ChallengeError::Malformed),
        Some(list) => if list.len() == 0 {
            Err(ChallengeError::Malformed)
        } else if list[0].scheme != "Bearer"@ {
            Err(ChallengeError::UnsupportedScheme)
        } else {
            match (
                param_from(list[0].params, "realm"@, 0),
                param_from(list[0].params, "service"@, 0),
            ) {
                (Some(realm), Some(service)) => Ok(ChallengeModel { realm, service }),
                _ => Err(ChallengeError::Malformed),
            }
        },
    }
}

/// Whether a result says what `m` says.
pub open spec fn same_challenge(
    r: Result<Challenge, ChallengeError>,
    m: Result<ChallengeModel, ChallengeError>,
) -> bool {
    match m {
        Ok(c) => r is Ok && r->Ok_0@ == c,
        Err(e) => r == Err::<Challenge, ChallengeError>(e),
    }
}

impl HeaderChallenge {
    /// The value of the first parameter that goes by the name `key`.
    pub fn param(&self, key: &str) -> (r: Option<String>)
        ensures
            optional(r) == param_from(self@.params, key@, 0),
    {
        let mut i: usize = 0;
        while i < self.params.len()
            invariant
                i <= self.params.len(),
                param_from(self@.params, key@, 0) == param_from(self@.params, key@, i as int),
            decreases self.params.len() - i,
        {
            assert(self@.params[i as int] == (self.params@[i as int].0@, self.params@[i as int].1@));
            if same_text(self.params[i].0.as_str(), key) {
                return Some(self.params[i].1.clone());
            }
            i += 1;
        }
        None
    }
}

/// The challenge to answer among those that were read from a header.
pub fn select_bearer(found: &Option<Vec<HeaderChallenge>>) -> (r: Result<Challenge, ChallengeError>)
    ensures
        same_challenge(
            r,
            bearer_of(
                match *found {
                    Some(list) => Some(challenge_models(list@)),
                    None => None,
                },
            ),
        ),
{
    match found {
        None => Err(ChallengeError::Malformed),
        Some(list) => {
            if list.len() == 0 {
                return Err(ChallengeError::Malformed);
            }
            assert(challenge_models(list@)[0] == list@[0]@);
            if !same_text(list[0].scheme.as_str(), "Bearer") {
                return Err(ChallengeError::UnsupportedScheme);
            }
            match (list[0].param("realm"), list[0].param("service")) {
                (Some(realm), Some(service)) => Ok(Challenge { realm, service }),
                _ => Err(ChallengeError::Malformed),
            }
        },
    }
}

/// Reads the challenge of a `WWW-Authenticate` header.
pub fn parse_www_authenticate(www_auth: &str) -> (r: Result<Challenge, ChallengeError>)
    ensures
        same_challenge(r, bearer_of(challenges_of(www_auth@))),
{
    let found = parse_challenges(www_auth);
    select_bearer(&found)
}

} // verus!
