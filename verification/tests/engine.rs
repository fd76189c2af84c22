use cup::config::UpdateType;
use cup::engine::{
    add_time, best_index, is_counted, join_tags, select_tags, Check, Phase, Step,
};
use cup::http::{ErrorKind, Failure, Reply, RequestError, RequestMethod};
use cup::client::TagPage;
use cup::image::Image;
use cup::status::Status;
use cup::update::UpdateInfo;
use cup::version::tag::StandardVersion;
use cup::version::Version;

fn page(tags: &[&str], next: Option<&str>) -> Reply {
    let list: Vec<String> = tags.iter().map(|t| format!("\"{t}\"")).collect();
    Reply {
        status: 200,
        www_authenticate: None,
        digest: None,
        link: next.map(|n| format!("<{n}>; rel=\"next\"")),
        body: format!("{{\"name\": \"x\", \"tags\": [{}]}}", list.join(", ")),
    }
}

fn manifest(digest: &str) -> Reply {
    Reply {
        status: 200,
        www_authenticate: None,
        digest: Some(digest.to_string()),
        link: None,
        body: String::new(),
    }
}

fn read(tag: &str) -> StandardVersion {
    StandardVersion::from_tag(tag).unwrap()
}

fn strings(v: &[&str]) -> Vec<String> {
    v.iter().map(|s| s.to_string()).collect()
}

fn local(reference: &str, digests: &[&str]) -> Image {
    if digests.is_empty() {
        return Image::from_reference(reference, None).unwrap();
    }
    let names: Vec<String> = digests.iter().map(|d| format!("repo@{d}")).collect();
    Image::from_inspect_parts(&strings(&[reference]), &names, None, None).unwrap()
}

/// Runs a check against the answers given, and tells the addresses that were asked.
fn run(check: Check, answers: Vec<Result<Reply, Failure>>) -> (Image, Vec<(RequestMethod, String)>) {
    let mut asked = Vec::new();
    let mut check = check;
    let mut answers = answers.into_iter();
    loop {
        asked.push((check.request.method, check.request.url.clone()));
        let answer = answers.next().expect("the check asked more often than it was answered");
        match check.proceed(answer, 10) {
            Step::Ask(next) => check = next,
            Step::Done(image) => {
                assert!(answers.next().is_none(), "the check ended before the last answer");
                return (image, asked);
            }
        }
    }
}

#[test]
fn end_to_end() {
    let image = local("nginx:1.25.2", &["sha256:here"]);
    let check = Check::begin(image, None, "https", UpdateType::Nothing);
    assert_eq!(check.phase, Phase::Tags);
    let (image, asked) = run(
        check,
        vec![Ok(page(&["1.25.2", "1.25.3", "1.26.0", "latest"], None))],
    );
    assert_eq!(
        asked,
        vec![(
            RequestMethod::GET,
            "https://registry-1.docker.io/v2/library/nginx/tags/list".to_string()
        )]
    );
    assert_eq!(image.update_info.latest_version, Some(Version::Semver(read("1.26.0"))));
    assert_eq!(image.info.version.format_string(), Some("{}.{}.{}".to_string()));
    // The major numbers are equal and the minor number is greater.
    assert_eq!(image.has_update(), Status::UpdateMinor);
    assert_eq!(image.time_ms, 10);
    let update = image.to_update();
    assert_eq!(update.result.has_update, Some(true));
    match update.result.info {
        UpdateInfo::Version(info) => {
            assert_eq!(info.version_update_type, "minor");
            assert_eq!(info.new_tag, "1.26.0");
            assert_eq!(info.current_version, "1.25.2");
            assert_eq!(info.new_version, "1.26.0");
        }
        other => panic!("{other:?}"),
    }

    let image = local("nginx:1.25.2", &["sha256:here"]);
    let check = Check::begin(image, None, "https", UpdateType::Nothing);
    let (image, _) = run(check, vec![Ok(page(&["1.25.2", "1.25.3"], None))]);
    assert_eq!(image.update_info.latest_version, Some(Version::Semver(read("1.25.3"))));
    assert_eq!(image.has_update(), Status::UpdatePatch);

    let image = local("nginx:1.25.2", &["sha256:here"]);
    let check = Check::begin(image, None, "https", UpdateType::Nothing);
    let (image, _) = run(check, vec![Ok(page(&["1.25.2", "2.0.0", "1.26.0"], None))]);
    assert_eq!(image.has_update(), Status::UpdateMajor);
}

#[test]
fn pagination_termination() {
    let image = local("ghcr.io/sergi0g/cup:v1.0", &[]);
    let check = Check::begin(image, Some("secret".to_string()), "https", UpdateType::Nothing);
    assert_eq!(
        check.request.headers,
        vec![
            ("Accept".to_string(), "application/json".to_string()),
            ("Authorization".to_string(), "Bearer secret".to_string())
        ]
    );
    let first = "https://ghcr.io/v2/sergi0g/cup/tags/list";
    let (image, asked) = run(
        check,
        vec![
            Ok(page(&["v1.0", "v1.1", "latest"], Some("/v2/sergi0g/cup/tags/list?last=latest"))),
            Ok(page(&["v1.1", "v1.2", "1.9"], Some("?last=1.9"))),
            Ok(page(&["v1.2", "v1.0", "v1.3"], None)),
        ],
    );
    assert_eq!(
        asked,
        vec![
            (RequestMethod::GET, first.to_string()),
            (RequestMethod::GET, format!("{first}?last=latest")),
            (RequestMethod::GET, format!("{first}?last=1.9")),
        ]
    );
    assert_eq!(image.update_info.latest_version, Some(Version::Semver(read("v1.3"))));
    assert_eq!(image.error, None);
    assert_eq!(image.time_ms, 30);
}

#[test]
fn pages_are_joined_without_repetition() {
    let image = local("ghcr.io/sergi0g/cup:v1.0", &[]);
    let mut check = Check::begin(image, None, "https", UpdateType::Nothing);
    let pages = [
        TagPage { tags: strings(&["v1.0", "v1.1", "latest"]), next: Some("a".to_string()) },
        TagPage { tags: strings(&["v1.1", "v1.2", "1.9"]), next: Some("b".to_string()) },
    ];
    for p in pages {
        check = match check.on_page(Ok(p), 0) {
            Step::Ask(c) => c,
            Step::Done(i) => panic!("{i:?}"),
        };
    }
    assert_eq!(check.tags, vec![read("v1.0"), read("v1.1"), read("v1.2")]);
    assert_eq!(check.request.url, "b");
    let last = TagPage { tags: strings(&["v1.2", "v1.0", "v1.3"]), next: None };
    match check.on_page(Ok(last), 0) {
        Step::Done(image) => {
            assert_eq!(image.update_info.latest_version, Some(Version::Semver(read("v1.3"))))
        }
        Step::Ask(c) => panic!("{c:?}"),
    }
}

#[test]
fn a_link_to_the_same_page_is_followed() {
    let image = local("ghcr.io/sergi0g/cup:v1.0", &[]);
    let check = Check::begin(image, None, "https", UpdateType::Nothing);
    let same = "https://ghcr.io/v2/sergi0g/cup/tags/list";
    let (image, asked) = run(
        check,
        vec![
            Ok(page(&["v1.1"], Some(same))),
            Ok(page(&["v1.1"], Some(same))),
            Ok(page(&["v1.1"], None)),
        ],
    );
    assert_eq!(asked.len(), 3);
    assert_eq!(image.has_update(), Status::UpdateMinor);
}

#[test]
fn digest_fallback() {
    let image = local("nginx:latest", &["sha256:one", "sha256:two"]);
    assert_eq!(image.info.version, Version::Unknown);
    let check = Check::begin(image, Some("secret".to_string()), "https", UpdateType::Nothing);
    assert_eq!(check.phase, Phase::Digest);
    assert_eq!(
        check.request.headers,
        vec![
            ("Accept".to_string(), cup::client::ACCEPT_MANIFESTS.to_string()),
            ("Authorization".to_string(), "Bearer secret".to_string())
        ]
    );
    let (image, asked) = run(check, vec![Ok(manifest("sha256:two"))]);
    assert_eq!(
        asked,
        vec![(
            RequestMethod::HEAD,
            "https://registry-1.docker.io/v2/library/nginx/manifests/latest".to_string()
        )]
    );
    assert_eq!(image.has_update(), Status::UpToDate);
    let update = image.to_update();
    assert_eq!(update.result.has_update, Some(false));
    assert_eq!(update.result.info, UpdateInfo::Nothing);

    let image = local("nginx:latest", &["sha256:one", "sha256:two"]);
    let check = Check::begin(image, None, "http", UpdateType::Nothing);
    assert_eq!(
        check.request.url,
        "http://registry-1.docker.io/v2/library/nginx/manifests/latest"
    );
    let (image, _) = run(check, vec![Ok(manifest("sha256:three"))]);
    assert_eq!(image.has_update(), Status::UpdateAvailable);
    let update = image.to_update();
    assert_eq!(update.result.has_update, Some(true));
    match update.result.info {
        UpdateInfo::Digest(info) => {
            assert_eq!(info.local_digests, strings(&["sha256:one", "sha256:two"]));
            assert_eq!(info.remote_digest, Some("sha256:three".to_string()));
        }
        other => panic!("{other:?}"),
    }
}

#[test]
fn equal_tag_falls_back_to_the_digest() {
    let image = local("nginx:1.25", &["sha256:old"]);
    let check = Check::begin(image, None, "https", UpdateType::Nothing);
    let (image, asked) = run(
        check,
        vec![Ok(page(&["1.24", "1.25", "latest"], None)), Ok(manifest("sha256:new"))],
    );
    assert_eq!(
        asked,
        vec![
            (
                RequestMethod::GET,
                "https://registry-1.docker.io/v2/library/nginx/tags/list".to_string()
            ),
            (
                RequestMethod::HEAD,
                "https://registry-1.docker.io/v2/library/nginx/manifests/1.25".to_string()
            ),
        ]
    );
    assert_eq!(image.update_info.latest_version, None);
    assert_eq!(image.has_update(), Status::UpdateAvailable);
    assert_eq!(image.time_ms, 20);

    // Without a local digest the tag is the result.
    let image = Image::from_reference("nginx:1.25", None).unwrap();
    let check = Check::begin(image, None, "https", UpdateType::Nothing);
    let (image, asked) = run(check, vec![Ok(page(&["1.24", "1.25"], None))]);
    assert_eq!(asked.len(), 1);
    assert_eq!(image.has_update(), Status::UpToDate);
}

#[test]
fn a_failure_ends_the_check_of_the_image() {
    let answers: Vec<(Result<Reply, Failure>, &str)> = vec![
        (Err(Failure::Connect), "Connection failed!"),
        (Err(Failure::Timeout), "Connection timed out!"),
        (Ok(Reply { status: 404, ..page(&[], None) }), "Not found!"),
        (
            Ok(Reply { status: 200, body: "<html>".to_string(), ..page(&[], None) }),
            "Server returned invalid response!",
        ),
    ];
    for (answer, words) in answers {
        let image = local("nginx:1.25.2", &["sha256:here"]);
        let check = Check::begin(image, None, "https", UpdateType::Nothing);
        let (image, asked) = run(check, vec![answer]);
        assert_eq!(asked.len(), 1);
        let expected =
            format!("GET https://registry-1.docker.io/v2/library/nginx/tags/list: {words}");
        assert_eq!(image.error, Some(expected.clone()));
        assert_eq!(image.has_update(), Status::Unknown(expected.clone()));
        let update = image.to_update();
        assert_eq!(update.result.has_update, None);
        assert_eq!(update.result.error, Some(expected));
        assert_eq!(update.result.info, UpdateInfo::Nothing);
    }

    let image = local("nginx:latest", &["sha256:here"]);
    let check = Check::begin(image, Some("t".to_string()), "https", UpdateType::Nothing);
    let (image, _) = run(check, vec![Ok(Reply { status: 401, ..manifest("sha256:x") })]);
    assert!(image.error.unwrap().contains("Unauthorized!"));

    let image = local("nginx:latest", &["sha256:here"]);
    let check = Check::begin(image, None, "https", UpdateType::Nothing);
    let failed = check.on_digest(
        Err(RequestError { kind: ErrorKind::NotFound, message: "gone".to_string() }),
        5,
    );
    match failed {
        Step::Done(image) => {
            assert_eq!(image.error, Some("gone".to_string()));
            assert_eq!(image.time_ms, 5);
        }
        Step::Ask(c) => panic!("{c:?}"),
    }
}

#[test]
fn no_tag_that_counts() {
    let image = local("ghcr.io/sergi0g/cup:v1.0", &["sha256:here"]);
    let check = Check::begin(image, None, "https", UpdateType::Nothing);
    let (image, _) = run(check, vec![Ok(page(&["latest", "1.0", "stable"], None))]);
    assert_eq!(
        image.error,
        Some("Image ghcr.io/sergi0g/cup:v1.0 has no remote version tags! Local tag: v1.0".to_string())
    );
    assert!(matches!(image.has_update(), Status::Unknown(_)));
}

#[test]
fn tags_that_count() {
    let base = read("1.25.2");
    let tags = strings(&["1.25.2", "latest", "1.26.0", "2.0.0", "1.25.9", "v1.25.3", "1.25", "01.25.2"]);
    let names = |v: Vec<StandardVersion>| -> Vec<String> { v.iter().map(|t| t.to_string()).collect() };
    assert_eq!(
        names(select_tags(&tags, &base, UpdateType::Nothing)),
        strings(&["1.25.2", "1.26.0", "2.0.0", "1.25.9"])
    );
    assert_eq!(
        names(select_tags(&tags, &base, UpdateType::Major)),
        strings(&["1.25.2", "1.26.0", "1.25.9"])
    );
    assert_eq!(
        names(select_tags(&tags, &base, UpdateType::Minor)),
        strings(&["1.25.2", "1.25.9"])
    );
    assert_eq!(names(select_tags(&tags, &base, UpdateType::Patch)), strings(&["1.25.2"]));
    assert!(is_counted(&read("1.26.0"), &base, UpdateType::Nothing));
    assert!(!is_counted(&read("1.26.0"), &base, UpdateType::Minor));
    assert!(!is_counted(&read("1.26"), &base, UpdateType::Nothing));

    let image = local("nginx:1.25.2", &[]);
    let check = Check::begin(image, None, "https", UpdateType::Major);
    let (image, _) = run(check, vec![Ok(page(&["1.25.2", "1.26.0", "2.0.0"], None))]);
    assert_eq!(image.has_update(), Status::UpdateMinor);
}

#[test]
fn best_of_the_tags() {
    let tags: Vec<StandardVersion> =
        ["1.2.3", "1.10.0", "1.9.9", "1.10.0"].iter().map(|t| read(t)).collect();
    assert_eq!(best_index(&tags), Some(3));
    assert_eq!(best_index(&Vec::new()), None);
    assert_eq!(best_index(&vec![read("3")]), Some(0));
    // A version that does not compare with the best one so far is passed over.
    let mixed: Vec<StandardVersion> = ["2.5", "2.07", "2.4"].iter().map(|t| read(t)).collect();
    assert_eq!(best_index(&mixed), Some(0));
    let joined = join_tags(vec![read("1"), read("2")], vec![read("2"), read("3"), read("3"), read("1")]);
    assert_eq!(joined, vec![read("1"), read("2"), read("3")]);
}

#[test]
fn times_add_up_to_the_longest_time() {
    assert_eq!(add_time(1, 2), 3);
    assert_eq!(add_time(u32::MAX, 0), u32::MAX);
    assert_eq!(add_time(u32::MAX - 1, 1), u32::MAX);
    assert_eq!(add_time(u32::MAX - 1, 2), u32::MAX);
    assert_eq!(add_time(u32::MAX, u32::MAX), u32::MAX);
}
