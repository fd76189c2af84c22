use cup::check::{
    adopt, in_use_reference, is_wanted, merge, partition, peer_answered, reports, repositories_of,
    server_base_url, server_json_url, server_refresh_url, worklist, Group,
};
use cup::client::{token_request};
use cup::challenge::Challenge;
use cup::config::{
    find_registry, get_protocol, is_excluded, is_ignored, Config, ImageConfig, RegistryConfig,
    Theme, UpdateType,
};
use cup::http::{Failure, Reply};
use cup::image::Image;
use cup::reference::Parts;
use cup::sort::sort_update_vec;
use cup::status::Status;
use cup::update::{
    DigestUpdateInfo, Update, UpdateInfo, UpdateResult, VersionUpdateInfo,
};

fn image(reference: &str) -> Image {
    let digests = vec!["repo@sha256:abc".to_string()];
    Image::from_inspect_parts(&vec![reference.to_string()], &digests, None, None).unwrap()
}

fn config() -> Config {
    let mut config = Config::new();
    config.registries = vec![
        (
            "localhost:5000".to_string(),
            RegistryConfig { authentication: None, insecure: true, ignore: false },
        ),
        (
            "quay.io".to_string(),
            RegistryConfig { authentication: Some("abc".to_string()), insecure: false, ignore: true },
        ),
    ];
    config.images = ImageConfig {
        extra: vec![],
        exclude: vec!["ghcr.io/immich".to_string(), "private".to_string()],
    };
    config
}

#[test]
fn images_are_grouped_by_registry() {
    let images = vec![
        image("nginx:1.25"),
        image("ghcr.io/sergi0g/cup:v3"),
        image("redis"),
        image("ghcr.io/other/thing"),
        image("localhost:5000/a"),
        image("library/busybox:1"),
    ];
    assert_eq!(
        partition(&images),
        vec![
            Group { registry: "registry-1.docker.io".to_string(), members: vec![0, 2, 5] },
            Group { registry: "ghcr.io".to_string(), members: vec![1, 3] },
            Group { registry: "localhost:5000".to_string(), members: vec![4] },
        ]
    );
    assert_eq!(partition(&vec![]), vec![]);
    assert_eq!(
        repositories_of(&images, &vec![0, 2, 5]),
        vec!["library/nginx".to_string(), "library/redis".to_string(), "library/busybox".to_string()]
    );
}

#[test]
fn one_token_request_for_the_images_of_a_registry() {
    let images = vec![
        image("ghcr.io/a/one:1"),
        image("nginx"),
        image("ghcr.io/a/two:1"),
        image("ghcr.io/b/three:1"),
        image("ghcr.io/a/one:2"),
    ];
    let groups = partition(&images);
    assert_eq!(groups.len(), 2);
    let wanted = Challenge { realm: "https://ghcr.io/token".to_string(), service: "ghcr.io".to_string() };
    let request = token_request(&wanted, &repositories_of(&images, &groups[0].members), &None);
    assert_eq!(
        request.url,
        "https://ghcr.io/token?service=ghcr.io&scope=repository:a/one:pull&scope=repository:a/two:pull&scope=repository:b/three:pull"
    );
}

#[test]
fn ignored_and_excluded_images_are_not_checked() {
    let config = config();
    assert!(is_wanted(&image("nginx"), &config));
    assert!(is_wanted(&image("ghcr.io/sergi0g/cup"), &config));
    assert!(!is_wanted(&image("quay.io/some/image"), &config));
    assert!(!is_wanted(&image("ghcr.io/immich-app/server:v1"), &config));
    assert!(!is_wanted(&image("private.example/image"), &config));
    assert!(is_wanted(&image("localhost:5000/private"), &config));
    let images = vec![
        image("quay.io/some/image"),
        image("nginx"),
        image("ghcr.io/immich-app/server:v1"),
        image("localhost:5000/a"),
    ];
    let left = worklist(images, &config);
    let references: Vec<&str> = left.iter().map(|i| i.reference.as_str()).collect();
    assert_eq!(references, vec!["nginx", "localhost:5000/a"]);
    assert!(is_excluded(&vec!["".to_string()], "anything"));
    assert!(!is_excluded(&vec![], "anything"));
    assert!(!is_excluded(&vec!["nginx:1".to_string()], "nginx"));
}

#[test]
fn settings_of_registries() {
    let config = config();
    assert_eq!(get_protocol("localhost:5000", &config.registries), "http");
    assert_eq!(get_protocol("quay.io", &config.registries), "https");
    assert_eq!(get_protocol("ghcr.io", &config.registries), "https");
    assert!(is_ignored("quay.io", &config.registries));
    assert!(!is_ignored("localhost:5000", &config.registries));
    assert!(!is_ignored("ghcr.io", &config.registries));
    assert_eq!(
        find_registry(&config.registries, "quay.io").unwrap().authentication,
        Some("abc".to_string())
    );
    assert_eq!(find_registry(&config.registries, "quay.io:443"), None);
    let fresh = Config::new();
    assert_eq!(fresh.version, 3);
    assert!(fresh.is_supported());
    assert_eq!(fresh.theme, Theme::Default);
    assert_eq!(fresh.ignore_update_type, UpdateType::Nothing);
    assert_eq!(fresh, Config::default());
    assert_eq!(Theme::default(), Theme::Default);
    assert_eq!(UpdateType::default(), UpdateType::Nothing);
    assert_eq!(
        RegistryConfig::default(),
        RegistryConfig { authentication: None, insecure: false, ignore: false }
    );
    let mut old = Config::new();
    old.version = 2;
    assert!(!old.is_supported());
}

#[test]
fn addresses_of_other_instances() {
    assert_eq!(server_base_url("cup.example.com"), "https://cup.example.com/api/v3/");
    assert_eq!(server_base_url("http://10.0.0.2:8000///"), "http://10.0.0.2:8000/api/v3/");
    assert_eq!(server_base_url("https://cup.example.com/"), "https://cup.example.com/api/v3/");
    assert_eq!(server_base_url(""), "https:///api/v3/");
    assert_eq!(server_json_url("cup.example.com/"), "https://cup.example.com/api/v3/json");
    assert_eq!(server_refresh_url("http://a"), "http://a/api/v3/refresh");
    let reply = |status| Reply {
        status,
        www_authenticate: None,
        digest: None,
        link: None,
        body: String::new(),
    };
    assert!(peer_answered(&Ok(reply(200))));
    assert!(!peer_answered(&Ok(reply(204))));
    assert!(!peer_answered(&Ok(reply(500))));
    assert!(!peer_answered(&Err(Failure::Timeout)));
}

fn read_back(reference: &str, has_update: Option<bool>, info: UpdateInfo, error: Option<&str>) -> Update {
    Update {
        reference: reference.to_string(),
        parts: Parts::default(),
        url: None,
        result: UpdateResult { has_update, info, error: error.map(|e| e.to_string()) },
        time: 7,
        server: None,
        used_by: vec![],
        status: Status::default(),
    }
}

fn version_info(kind: &str) -> UpdateInfo {
    UpdateInfo::Version(VersionUpdateInfo {
        version_update_type: kind.to_string(),
        new_tag: "2".to_string(),
        current_version: "1".to_string(),
        new_version: "2".to_string(),
    })
}

fn digest_info() -> UpdateInfo {
    UpdateInfo::Digest(DigestUpdateInfo { local_digests: vec![], remote_digest: None })
}

#[test]
fn status_of_a_report_that_was_read_back() {
    assert_eq!(read_back("a", Some(true), version_info("major"), None).get_status(), Status::UpdateMajor);
    assert_eq!(read_back("a", Some(true), version_info("minor"), None).get_status(), Status::UpdateMinor);
    assert_eq!(read_back("a", Some(true), version_info("patch"), None).get_status(), Status::UpdatePatch);
    assert_eq!(read_back("a", Some(true), digest_info(), None).get_status(), Status::UpdateAvailable);
    assert_eq!(read_back("a", Some(false), UpdateInfo::Nothing, None).get_status(), Status::UpToDate);
    assert_eq!(
        read_back("a", None, UpdateInfo::Nothing, Some("down")).get_status(),
        Status::Unknown("down".to_string())
    );
    // A status that is held wins over the result.
    let mut held = read_back("a", Some(false), UpdateInfo::Nothing, None);
    held.status = Status::UpdateMajor;
    assert_eq!(held.get_status(), Status::UpdateMajor);
    held.status = Status::Unknown("why".to_string());
    assert_eq!(held.get_status(), Status::Unknown("why".to_string()));

    assert!(read_back("a", Some(false), UpdateInfo::Nothing, None).is_well_formed());
    assert!(!read_back("a", None, UpdateInfo::Nothing, None).is_well_formed());
    assert!(!read_back("a", Some(true), UpdateInfo::Nothing, None).is_well_formed());
    assert!(!read_back("a", Some(true), version_info("huge"), None).is_well_formed());
    assert!(held.is_well_formed());
    assert!(read_back("a", Some(false), UpdateInfo::Nothing, None).is_unset());
    assert!(!held.is_unset());
    assert_eq!(Status::default(), Status::Unknown(String::new()));
}

#[test]
fn reports_of_other_instances_are_taken_over() {
    let theirs = vec![
        read_back("b", Some(false), UpdateInfo::Nothing, None),
        read_back("a", Some(true), version_info("minor"), None),
    ];
    let adopted = adopt(theirs, "backup");
    assert_eq!(adopted.len(), 2);
    assert_eq!(adopted[0].reference, "b");
    assert_eq!(adopted[0].server, Some("backup".to_string()));
    assert_eq!(adopted[0].status, Status::UpToDate);
    assert_eq!(adopted[0].result.has_update, Some(false));
    assert_eq!(adopted[0].time, 7);
    assert_eq!(adopted[1].status, Status::UpdateMinor);
    assert_eq!(adopted[1].result.info, version_info("minor"));
    assert_eq!(adopt(vec![], "backup"), vec![]);

    let mut checked = image("nginx:latest");
    checked.update_info.remote_digest = Some("sha256:abc".to_string());
    let mut failed = image("redis:latest");
    failed.error = Some("down".to_string());
    let ours = reports(&vec![checked, failed]);
    assert_eq!(ours[0].status, Status::UpToDate);
    assert_eq!(ours[0].server, None);
    assert_eq!(ours[1].status, Status::Unknown("down".to_string()));
    let all = merge(ours, adopted);
    let references: Vec<&str> = all.iter().map(|u| u.reference.as_str()).collect();
    assert_eq!(references, vec!["nginx:latest", "redis:latest", "b", "a"]);
    let sorted = sort_update_vec(&all);
    let references: Vec<&str> = sorted.iter().map(|u| u.reference.as_str()).collect();
    assert_eq!(references, vec!["a", "b", "nginx:latest", "redis:latest"]);
    assert_eq!(sorted[0].server, Some("backup".to_string()));
}

#[test]
fn images_in_use() {
    assert_eq!(in_use_reference("nginx"), "nginx:latest");
    assert_eq!(in_use_reference("nginx:1.25"), "nginx:1.25");
    assert_eq!(in_use_reference("localhost:5000/nginx"), "localhost:5000/nginx");
}
