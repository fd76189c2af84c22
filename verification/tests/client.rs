use cup::challenge::{parse_www_authenticate, select_bearer, Challenge, ChallengeError, HeaderChallenge};
use cup::client::{
    distinct_texts, find_page, find_tags, find_token, manifest_url, probe_request, probe_url,
    read_digest, read_page, read_probe, read_token, tags_url, to_bearer_string, token_request,
    token_url, TagPage, ACCEPT_MANIFESTS,
};
use cup::http::{
    check_status, describe, settle, ErrorKind, Failure, Reply, Request, RequestError,
    RequestMethod,
};
use cup::json::{parse_json, JsonValue};
use cup::link::{parse_link, select_next, Link};
use cup::reference::parts_of;

fn reply(status: u16, body: &str) -> Reply {
    Reply {
        status,
        www_authenticate: None,
        digest: None,
        link: None,
        body: body.to_string(),
    }
}

fn challenge() -> Challenge {
    Challenge {
        realm: "https://auth.docker.io/token".to_string(),
        service: "registry.docker.io".to_string(),
    }
}

fn strings(v: &[&str]) -> Vec<String> {
    v.iter().map(|s| s.to_string()).collect()
}

#[test]
fn token_batching() {
    let repositories = strings(&["library/nginx", "library/redis", "sergi0g/cup"]);
    let request = token_request(&challenge(), &repositories, &None);
    assert_eq!(request.method, RequestMethod::GET);
    assert_eq!(
        request.url,
        "https://auth.docker.io/token?service=registry.docker.io&scope=repository:library/nginx:pull&scope=repository:library/redis:pull&scope=repository:sergi0g/cup:pull"
    );
    assert_eq!(request.url.matches("&scope=").count(), 3);
    assert!(request.headers.is_empty());
    assert!(!request.ignore_401);
}

#[test]
fn token_scope_for_each_distinct_repository() {
    let repositories = strings(&["a/b", "c/d", "a/b", "a/b", "e", "c/d"]);
    assert_eq!(distinct_texts(&repositories), strings(&["a/b", "c/d", "e"]));
    assert_eq!(
        token_url(&challenge(), &repositories),
        "https://auth.docker.io/token?service=registry.docker.io&scope=repository:a/b:pull&scope=repository:c/d:pull&scope=repository:e:pull"
    );
    assert_eq!(
        token_url(&challenge(), &[].to_vec()),
        "https://auth.docker.io/token?service=registry.docker.io"
    );
}

#[test]
fn token_credentials() {
    let request = token_request(&challenge(), &strings(&["a"]), &Some("dXNlcjpwYXNz".to_string()));
    assert_eq!(
        request.headers,
        vec![("Authorization".to_string(), "Basic dXNlcjpwYXNz".to_string())]
    );
}

#[test]
fn token_from_answer() {
    let request = token_request(&challenge(), &strings(&["a"]), &None);
    assert_eq!(
        read_token(&request, &Ok(reply(200, r#"{"token": "abc", "expires_in": 300}"#))),
        Ok("abc".to_string())
    );
    for body in ["", "not json", "{}", r#"{"token": 5}"#, r#"["token"]"#, r#"{"Token": "x"}"#] {
        let e = read_token(&request, &Ok(reply(200, body))).unwrap_err();
        assert_eq!(e.kind, ErrorKind::MalformedServerResponse);
    }
    let e = read_token(&request, &Ok(reply(401, r#"{"token": "abc"}"#))).unwrap_err();
    assert_eq!(e.kind, ErrorKind::AuthRequired);
    let e = read_token(&request, &Err(Failure::Retries)).unwrap_err();
    assert_eq!(e.kind, ErrorKind::RetriesExhausted);
    assert_eq!(
        e.message,
        format!("GET {}: Connection failed after 3 retries!", request.url)
    );
}

#[test]
fn addresses() {
    let parts = parts_of("ghcr.io/sergi0g/cup:v3");
    assert_eq!(probe_url("https", "ghcr.io"), "https://ghcr.io/v2/");
    assert_eq!(probe_url("http", "localhost:5000"), "http://localhost:5000/v2/");
    assert_eq!(
        manifest_url("https", &parts),
        "https://ghcr.io/v2/sergi0g/cup/manifests/v3"
    );
    assert_eq!(tags_url("https", &parts), "https://ghcr.io/v2/sergi0g/cup/tags/list");
    assert_eq!(
        ACCEPT_MANIFESTS,
        "application/vnd.docker.distribution.manifest.v2+json, application/vnd.docker.distribution.manifest.list.v2+json, application/vnd.oci.image.index.v1+json"
    );
    assert_eq!(to_bearer_string(&Some("abc")), Some("Bearer abc".to_string()));
    assert_eq!(to_bearer_string(&None), None);
}

#[test]
fn probe() {
    let request = probe_request("https", "ghcr.io");
    assert_eq!(
        request,
        Request {
            method: RequestMethod::GET,
            url: "https://ghcr.io/v2/".to_string(),
            headers: vec![],
            ignore_401: true
        }
    );
    assert_eq!(read_probe(&Ok(reply(200, ""))), Ok(None));
    let mut wants = reply(401, "");
    wants.www_authenticate = Some(
        r#"Bearer realm="https://ghcr.io/token",service="ghcr.io",scope="repository:user/image:pull""#
            .to_string(),
    );
    assert_eq!(
        read_probe(&Ok(wants)),
        Ok(Some(Challenge {
            realm: "https://ghcr.io/token".to_string(),
            service: "ghcr.io".to_string()
        }))
    );
    // Without the header there is nothing to answer.
    assert_eq!(read_probe(&Ok(reply(401, ""))), Err(ChallengeError::Malformed));
    // Any other status and any failure: go on without authorization.
    assert_eq!(read_probe(&Ok(reply(404, ""))), Ok(None));
    assert_eq!(read_probe(&Ok(reply(500, ""))), Ok(None));
    assert_eq!(read_probe(&Err(Failure::Connect)), Ok(None));
    assert_eq!(read_probe(&Err(Failure::Other("broken".to_string()))), Ok(None));
}

#[test]
fn challenges() {
    assert_eq!(
        parse_www_authenticate(r#"Bearer realm="https://auth.docker.io/token",service="registry.docker.io""#),
        Ok(challenge())
    );
    assert_eq!(
        parse_www_authenticate(r#"Bearer service="s", realm="r""#),
        Ok(Challenge { realm: "r".to_string(), service: "s".to_string() })
    );
    assert_eq!(
        parse_www_authenticate(r#"Basic realm="Registry""#),
        Err(ChallengeError::UnsupportedScheme)
    );
    assert_eq!(
        parse_www_authenticate(r#"Bearer realm="https://auth.docker.io/token""#),
        Err(ChallengeError::Malformed)
    );
    assert_eq!(parse_www_authenticate(r#"Bearer realm="unclosed"#), Err(ChallengeError::Malformed));
    assert_eq!(parse_www_authenticate(""), Err(ChallengeError::Malformed));
    // Only the first challenge counts.
    assert_eq!(
        parse_www_authenticate(r#"Basic realm="x", Bearer realm="r",service="s""#),
        Err(ChallengeError::UnsupportedScheme)
    );
    assert_eq!(select_bearer(&None), Err(ChallengeError::Malformed));
    assert_eq!(select_bearer(&Some(vec![])), Err(ChallengeError::Malformed));
    let twice = HeaderChallenge {
        scheme: "Bearer".to_string(),
        params: vec![
            ("realm".to_string(), "first".to_string()),
            ("service".to_string(), "s".to_string()),
            ("realm".to_string(), "second".to_string()),
        ],
    };
    assert_eq!(twice.param("realm"), Some("first".to_string()));
    assert_eq!(twice.param("scope"), None);
    assert_eq!(
        select_bearer(&Some(vec![twice])),
        Ok(Challenge { realm: "first".to_string(), service: "s".to_string() })
    );
}

#[test]
fn links() {
    let base = "https://ghcr.io/v2/sergi0g/cup/tags/list";
    assert_eq!(
        parse_link(r#"</v2/sergi0g/cup/tags/list?last=v1&n=100>; rel="next""#, base),
        Ok(Some("https://ghcr.io/v2/sergi0g/cup/tags/list?last=v1&n=100".to_string()))
    );
    assert_eq!(
        parse_link(r#"<https://other.example/next>; rel="next""#, base),
        Ok(Some("https://other.example/next".to_string()))
    );
    assert_eq!(
        parse_link(r#"<?page=2>; rel="prev", <?page=4>; rel="NEXT""#, base),
        Ok(Some("https://ghcr.io/v2/sergi0g/cup/tags/list?page=4".to_string()))
    );
    assert_eq!(parse_link(r#"</a>; rel="prev""#, base), Ok(None));
    assert_eq!(parse_link("/a", base), Err(()));
    assert_eq!(parse_link(r#"</a>; rel="next""#, "not an address"), Err(()));
    assert_eq!(select_next(&None), Err(()));
    assert_eq!(select_next(&Some(vec![])), Ok(None));
    assert_eq!(
        select_next(&Some(vec![
            Link { rel: "last".to_string(), target: "a".to_string() },
            Link { rel: "next".to_string(), target: "b".to_string() },
            Link { rel: "next".to_string(), target: "c".to_string() },
        ])),
        Ok(Some("b".to_string()))
    );
}

#[test]
fn json_members() {
    let value = JsonValue::Object(vec![
        ("name".to_string(), JsonValue::Text("cup".to_string())),
        (
            "tags".to_string(),
            JsonValue::Array(vec![
                JsonValue::Text("1".to_string()),
                JsonValue::Text("2".to_string()),
            ]),
        ),
        ("n".to_string(), JsonValue::Number("5".to_string())),
        ("name".to_string(), JsonValue::Text("second".to_string())),
    ]);
    assert_eq!(value.member("n"), Some(&JsonValue::Number("5".to_string())));
    assert_eq!(value.member("missing"), None);
    assert_eq!(value.text_at("name"), Some("cup".to_string()));
    assert_eq!(value.text_at("n"), None);
    assert_eq!(value.text_at("tags"), None);
    assert_eq!(value.text_list_at("tags"), Some(strings(&["1", "2"])));
    assert_eq!(value.text_list_at("name"), None);
    assert_eq!(JsonValue::Null.member("a"), None);
    assert_eq!(JsonValue::Array(vec![]).as_text_list(), Some(vec![]));
    assert_eq!(
        JsonValue::Array(vec![JsonValue::Text("a".to_string()), JsonValue::Bool(true)])
            .as_text_list(),
        None
    );
    assert_eq!(
        parse_json(r#"{"b": [1.5, "x", null, true], "a": {}}"#),
        Some(JsonValue::Object(vec![
            ("a".to_string(), JsonValue::Object(vec![])),
            (
                "b".to_string(),
                JsonValue::Array(vec![
                    JsonValue::Number("1.5".to_string()),
                    JsonValue::Text("x".to_string()),
                    JsonValue::Null,
                    JsonValue::Bool(true),
                ])
            ),
        ]))
    );
    assert_eq!(parse_json("{"), None);
    assert_eq!(parse_json(r#""only text""#), Some(JsonValue::Text("only text".to_string())));
    assert_eq!(find_token(&None), None);
    assert_eq!(find_tags(&None), None);
    assert_eq!(find_tags(&Some(value)), Some(strings(&["1", "2"])));
}

#[test]
fn pages() {
    let url = "https://ghcr.io/v2/sergi0g/cup/tags/list";
    let mut page = reply(200, r#"{"name": "sergi0g/cup", "tags": ["v1", "v2", "latest"]}"#);
    assert_eq!(
        find_page(&page, url),
        Some(TagPage { tags: strings(&["v1", "v2", "latest"]), next: None })
    );
    page.link = Some(r#"</v2/sergi0g/cup/tags/list?last=latest>; rel="next""#.to_string());
    assert_eq!(
        find_page(&page, url),
        Some(TagPage {
            tags: strings(&["v1", "v2", "latest"]),
            next: Some("https://ghcr.io/v2/sergi0g/cup/tags/list?last=latest".to_string())
        })
    );
    page.link = Some("nonsense".to_string());
    assert_eq!(find_page(&page, url), None);
    assert_eq!(find_page(&reply(200, r#"{"tags": null}"#), url), None);
    assert_eq!(find_page(&reply(200, r#"{"tags": ["a", 1]}"#), url), None);
    assert_eq!(
        find_page(&reply(200, r#"{"tags": []}"#), url),
        Some(TagPage { tags: vec![], next: None })
    );

    let request = Request {
        method: RequestMethod::GET,
        url: url.to_string(),
        headers: vec![],
        ignore_401: false,
    };
    assert_eq!(
        read_page(&request, false, &Ok(reply(200, r#"{"tags": ["v1"]}"#))),
        Ok(TagPage { tags: strings(&["v1"]), next: None })
    );
    assert_eq!(
        read_page(&request, true, &Ok(reply(401, r#"{"tags": ["v1"]}"#))).unwrap_err().kind,
        ErrorKind::AuthRejected
    );
    assert_eq!(
        read_page(&request, false, &Ok(reply(200, "{"))),
        Err(RequestError {
            kind: ErrorKind::MalformedServerResponse,
            message: format!("GET {url}: Server returned invalid response!")
        })
    );
}

#[test]
fn digests() {
    let request = Request {
        method: RequestMethod::HEAD,
        url: "https://ghcr.io/v2/sergi0g/cup/manifests/latest".to_string(),
        headers: vec![],
        ignore_401: false,
    };
    let mut found = reply(200, "");
    found.digest = Some("sha256:abc".to_string());
    assert_eq!(read_digest(&request, false, &Ok(found)), Ok("sha256:abc".to_string()));
    assert_eq!(
        read_digest(&request, false, &Ok(reply(200, ""))).unwrap_err().kind,
        ErrorKind::MalformedServerResponse
    );
    assert_eq!(
        read_digest(&request, false, &Ok(reply(401, ""))).unwrap_err().kind,
        ErrorKind::AuthRequired
    );
    assert_eq!(
        read_digest(&request, true, &Ok(reply(401, ""))).unwrap_err().kind,
        ErrorKind::AuthRejected
    );
    assert_eq!(
        read_digest(&request, true, &Ok(reply(404, ""))),
        Err(RequestError {
            kind: ErrorKind::NotFound,
            message: "HEAD https://ghcr.io/v2/sergi0g/cup/manifests/latest: Not found!".to_string()
        })
    );
    assert_eq!(
        read_digest(&request, true, &Err(Failure::Connect)).unwrap_err().kind,
        ErrorKind::ConnectionFailed
    );
    assert_eq!(
        read_digest(&request, true, &Err(Failure::Timeout)).unwrap_err().kind,
        ErrorKind::Timeout
    );
}

#[test]
fn statuses() {
    assert_eq!(check_status(200, false, false), None);
    assert_eq!(check_status(302, false, false), None);
    assert_eq!(check_status(400, false, false), None);
    assert_eq!(check_status(401, true, false), None);
    assert_eq!(check_status(401, false, false), Some(ErrorKind::AuthRequired));
    assert_eq!(check_status(401, false, true), Some(ErrorKind::AuthRejected));
    assert_eq!(check_status(404, true, true), Some(ErrorKind::NotFound));
    assert_eq!(check_status(502, false, false), Some(ErrorKind::Unavailable));
    assert_eq!(check_status(403, false, false), Some(ErrorKind::Unexpected));
    assert_eq!(check_status(500, false, false), Some(ErrorKind::Unexpected));
}

#[test]
fn failures_in_words() {
    let url = "https://ghcr.io/v2/";
    let words = |kind, method, outcome: &Result<Reply, Failure>| describe(kind, method, url, outcome);
    let none = Err(Failure::Connect);
    assert_eq!(
        words(ErrorKind::AuthRequired, RequestMethod::GET, &none),
        "GET https://ghcr.io/v2/: Unauthorized! Please configure authentication for this registry or if you have already done so, please make sure it is correct."
    );
    assert_eq!(
        words(ErrorKind::Unavailable, RequestMethod::HEAD, &none),
        "HEAD https://ghcr.io/v2/: The registry is currently unavailabile (returned status code 502)."
    );
    assert_eq!(
        words(ErrorKind::Timeout, RequestMethod::GET, &none),
        "GET https://ghcr.io/v2/: Connection timed out!"
    );
    assert_eq!(
        words(ErrorKind::ConnectionFailed, RequestMethod::GET, &none),
        "GET https://ghcr.io/v2/: Connection failed!"
    );
    assert_eq!(
        words(ErrorKind::UnrecognizedTagFormat, RequestMethod::GET, &none),
        "GET https://ghcr.io/v2/: Unrecognized tag format!"
    );
    assert_eq!(
        settle(RequestMethod::HEAD, url, false, false, Ok(reply(503, "down"))),
        Err(RequestError {
            kind: ErrorKind::Unexpected,
            message: "HEAD https://ghcr.io/v2/: Unexpected error: Recieved status code 503".to_string()
        })
    );
    assert_eq!(
        settle(RequestMethod::GET, url, false, false, Ok(reply(503, "down"))),
        Err(RequestError {
            kind: ErrorKind::Unexpected,
            message: "GET https://ghcr.io/v2/: Unexpected error: down".to_string()
        })
    );
    assert_eq!(
        settle(RequestMethod::GET, url, false, false, Err(Failure::Other("tls".to_string()))),
        Err(RequestError {
            kind: ErrorKind::Unexpected,
            message: "GET https://ghcr.io/v2/: Unexpected error: tls".to_string()
        })
    );
    assert_eq!(
        settle(RequestMethod::GET, url, true, false, Ok(reply(401, "x"))),
        Ok(reply(401, "x"))
    );
    assert_eq!(RequestMethod::GET.to_string(), "GET");
    assert_eq!(RequestMethod::HEAD.to_string(), "HEAD");
}
