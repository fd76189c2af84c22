//! What is asked of a registry, what comes back, and what counts as a
//! failure.

use crate::challenge::pairs;
use crate::text::{append_chars, append_str, chars_of, decimal_chars, decimal_text, string_of};
use vstd::prelude::*;

verus! {

/// The methods that are used.
#[derive(Clone, Copy, Debug, PartialEq, Eq, Structural)]
pub enum RequestMethod {
    GET,
    HEAD,
}

impl RequestMethod {
    /// The name of the method.
    pub open spec fn name(self) -> Seq<char> {
        match self {
            RequestMethod::GET => "GET"@,
            RequestMethod::HEAD => "HEAD"@,
        }
    }

    /// The name of the method.
    pub fn to_string(&self) -> (r: String)
        ensures
            r@ == self.name(),
    {
        match self {
            RequestMethod::GET => "GET".to_owned(),
            RequestMethod::HEAD => "HEAD".to_owned(),
        }
    }
}

/// A request. A header is a name and a value.
#[derive(Debug, PartialEq, Eq)]
pub struct Request {
    pub method: RequestMethod,
    pub url: String,
    pub headers: Vec<(String, String)>,
    /// Whether the status 401 counts as an answer rather than a failure.
    pub ignore_401: bool,
}

/// A request as plain values.
pub struct RequestModel {
    pub method: RequestMethod,
    pub url: Seq<char>,
    pub headers: Seq<(Seq<char>, Seq<char>)>,
    pub ignore_401: bool,
}

impl View for Request {
    type V = RequestModel;

    open spec fn view(&self) -> RequestModel {
        RequestModel {
            method: self.method,
            url: self.url@,
            headers: pairs(self.headers@),
            ignore_401: self.ignore_401,
        }
    }
}

/// Why no answer came.
#[derive(Debug, PartialEq, Eq)]
pub enum Failure {
    /// No connection could be made.
    Connect,
    /// The connection timed out.
    Timeout,
    /// The request failed again after the last retry.
    Retries,
    /// Anything else, in the words of the transport.
    Other(String),
}

/// What is read of an answer.
#[derive(Debug, PartialEq, Eq)]
pub struct Reply {
    pub status: u16,
    /// The header `WWW-Authenticate`.
    pub www_authenticate: Option<String>,
    /// The header `Docker-Content-Digest`.
    pub digest: Option<String>,
    /// The header `Link`.
    pub link: Option<String>,
    pub body: String,
}

/// The kinds of failure.
#[derive(Clone, Copy, Debug, PartialEq, Eq, Structural)]
pub enum ErrorKind {
    /// The registry wants authorization and none was sent.
    AuthRequired,
    /// The registry turned the token down.
    AuthRejected,
    NotFound,
    ConnectionFailed,
    Timeout,
    RetriesExhausted,
    /// A header or a field is missing, or the body is no JSON.
    MalformedServerResponse,
    /// The tag holds no version and there is no digest to go by.
    UnrecognizedTagFormat,
    /// The registry answered with the status 502.
    Unavailable,
    /// The registry answered with another status above 400, or the transport
    /// failed in another way.
    Unexpected,
}

/// The kind of failure that a status stands for, if it stands for one.
/// The status 401 is a failure unless it is asked for; it means that the
/// token was turned down where one was sent, and that one is wanted where
/// none was.
pub open spec fn status_failure(status: u16, ignore_401: bool, token_sent: bool) -> Option<
    ErrorKind,
> {
    if status == 404 {
        Some(ErrorKind::NotFound)
    } else if status == 401 {
        if ignore_401 {
            None
        } else if token_sent {
            Some(ErrorKind::AuthRejected)
        } else {
            Some(ErrorKind::AuthRequired)
        }
    } else if status == 502 {
        Some(ErrorKind::Unavailable)
    } else if status <= 400 {
        None
    } else {
        Some(ErrorKind::Unexpected)
    }
}

/// The kind of failure that a failure of the transport stands for.
pub open spec fn transport_failure(f: Failure) -> ErrorKind {
    match f {
        Failure::Connect => ErrorKind::ConnectionFailed,
        Failure::Timeout => ErrorKind::Timeout,
        Failure::Retries => ErrorKind::RetriesExhausted,
        Failure::Other(_) => ErrorKind::Unexpected,
    }
}

/// The kind of failure in which a request ended, if it failed.
pub open spec fn failure_of(
    outcome: Result<Reply, Failure>,
    ignore_401: bool,
    token_sent: bool,
) -> Option<ErrorKind> {
    match outcome {
        Ok(reply) => status_failure(reply.status, ignore_401, token_sent),
        Err(f) => Some(transport_failure(f)),
    }
}

/// What is said of a failure after the method and the address.
pub open spec fn detail(kind: ErrorKind, method: RequestMethod, outcome: Result<Reply, Failure>) -> Seq<
    char,
> {
    match kind {
        ErrorKind::NotFound => "Not found!"@,
        ErrorKind::AuthRequired | ErrorKind::AuthRejected =>
            "Unauthorized! Please configure authentication for this registry or if you have already done so, please make sure it is correct."@,
        ErrorKind::Unavailable =>
            "The registry is currently unavailabile (returned status code 502)."@,
        ErrorKind::ConnectionFailed => "Connection failed!"@,
        ErrorKind::Timeout => "Connection timed out!"@,
        ErrorKind::RetriesExhausted => "Connection failed after 3 retries!"@,
        ErrorKind::MalformedServerResponse => "Server returned invalid response!"@,
        ErrorKind::UnrecognizedTagFormat => "Unrecognized tag format!"@,
        ErrorKind::Unexpected => "Unexpected error: "@ + (match outcome {
            Ok(reply) => match method {
                RequestMethod::GET => reply.body@,
                RequestMethod::HEAD => "Recieved status code "@ + decimal_text(reply.status as nat),
            },
            Err(Failure::Other(words)) => words@,
            Err(_) => Seq::empty(),
        }),
    }
}

/// The words for a failed request: the method, the address and what went
/// wrong.
pub open spec fn message(
    kind: ErrorKind,
    method: RequestMethod,
    url: Seq<char>,
    outcome: Result<Reply, Failure>,
) -> Seq<char> {
    method.name() + seq![' '] + url + seq![':', ' '] + detail(kind, method, outcome)
}

/// A request that failed.
#[derive(Debug, PartialEq, Eq)]
pub struct RequestError {
    pub kind: ErrorKind,
    pub message: String,
}

/// The kind of failure that a status stands for.
pub fn check_status(status: u16, ignore_401: bool, token_sent: bool) -> (r: Option<ErrorKind>)
    ensures
        r == status_failure(status, ignore_401, token_sent),
{
    if status == 404 {
        Some(ErrorKind::NotFound)
    } else if status == 401 {
        if ignore_401 {
            None
        } else if token_sent {
            Some(ErrorKind::AuthRejected)
        } else {
            Some(ErrorKind::AuthRequired)
        }
    } else if status == 502 {
        Some(ErrorKind::Unavailable)
    } else if status <= 400 {
        None
    } else {
        Some(ErrorKind::Unexpected)
    }
}

/// The kind of failure in which a request ended, if it failed.
pub fn check_outcome(outcome: &Result<Reply, Failure>, ignore_401: bool, token_sent: bool) -> (r:
    Option<ErrorKind>)
    ensures
        r == failure_of(*outcome, ignore_401, token_sent),
{
    match outcome {
        Ok(reply) => check_status(reply.status, ignore_401, token_sent),
        Err(Failure::Connect) => Some(ErrorKind::ConnectionFailed),
        Err(Failure::Timeout) => Some(ErrorKind::Timeout),
        Err(Failure::Retries) => Some(ErrorKind::RetriesExhausted),
        Err(Failure::Other(_)) => Some(ErrorKind::Unexpected),
    }
}

/// What is said of a failure after the method and the address.
fn detail_chars(kind: ErrorKind, method: RequestMethod, outcome: &Result<Reply, Failure>) -> (r:
    Vec<char>)
    ensures
        r@ == detail(kind, method, *outcome),
{
    match kind {
        ErrorKind::NotFound => chars_of("Not found!"),
        ErrorKind::AuthRequired | ErrorKind::AuthRejected => chars_of(
            "Unauthorized! Please configure authentication for this registry or if you have already done so, please make sure it is correct.",
        ),
        ErrorKind::Unavailable => chars_of(
            "The registry is currently unavailabile (returned status code 502).",
        ),
        ErrorKind::ConnectionFailed => chars_of("Connection failed!"),
        ErrorKind::Timeout => chars_of("Connection timed out!"),
        ErrorKind::RetriesExhausted => chars_of("Connection failed after 3 retries!"),
        ErrorKind::MalformedServerResponse => chars_of("Server returned invalid response!"),
        ErrorKind::UnrecognizedTagFormat => chars_of("Unrecognized tag format!"),
        ErrorKind::Unexpected => {
            let mut r = chars_of("Unexpected error: ");
            match outcome {
                Ok(reply) => match method {
                    RequestMethod::GET => {
                        append_str(&mut r, reply.body.as_str());
                    },
                    RequestMethod::HEAD => {
                        let mut tail = chars_of("Recieved status code ");
                        append_chars(&mut tail, &decimal_chars(reply.status as u64));
                        append_chars(&mut r, &tail);
                    },
                },
                Err(Failure::Other(words)) => {
                    append_str(&mut r, words.as_str());
                },
                Err(_) => {
                    assert(r@ =~= "Unexpected error: "@ + Seq::<char>::empty());
                },
            }
            r
        },
    }
}

/// The words for a failed request.
pub fn describe(
    kind: ErrorKind,
    method: RequestMethod,
    url: &str,
    outcome: &Result<Reply, Failure>,
) -> (r: String)
    ensures
        r@ == message(kind, method, url@, *outcome),
{
    let mut r = chars_of(method.to_string().as_str());
    r.push(' ');
    append_str(&mut r, url);
    r.push(':');
    r.push(' ');
    let ghost head = r@;
    assert(head =~= method.name() + seq![' '] + url@ + seq![':', ' ']);
    append_chars(&mut r, &detail_chars(kind, method, outcome));
    string_of(&r)
}

/// Tells an answer from a failure: the answer itself, or the failure with
/// its words.
pub fn settle(
    method: RequestMethod,
    url: &str,
    ignore_401: bool,
    token_sent: bool,
    outcome: Result<Reply, Failure>,
) -> (r: Result<Reply, RequestError>)
    ensures
        match failure_of(outcome, ignore_401, token_sent) {
            Some(kind) => r is Err && r->Err_0.kind == kind && r->Err_0.message@ == message(
                kind,
                method,
                url@,
                outcome,
            ),
            None => outcome is Ok && r == Ok::<Reply, RequestError>(outcome->Ok_0),
        },
{
    match check_outcome(&outcome, ignore_401, token_sent) {
        Some(kind) => Err(RequestError { kind, message: describe(kind, method, url, &outcome) }),
        None => match outcome {
            Ok(reply) => Ok(reply),
            Err(_) => Err(RequestError { kind: ErrorKind::Unexpected, message: String::new() }),
        },
    }
}

} // verus!
