use cup::http::ErrorKind;
use cup::image::{
    digest_in, digests_in, pulled_name, pulled_tag, Image, Info, InspectData, UpdateInfo,
};
use cup::reference::Parts;
use cup::status::Status;
use cup::update::UpdateInfo as Comparison;
use cup::version::tag::StandardVersion;
use cup::version::{TagType, Version};

fn strings(v: &[&str]) -> Vec<String> {
    v.iter().map(|s| s.to_string()).collect()
}

#[test]
fn image_of_the_container_runtime() {
    let image = Image::from_inspect_parts(
        &strings(&["ghcr.io/sergi0g/cup:v3.1", "ghcr.io/sergi0g/cup:latest"]),
        &strings(&["ghcr.io/sergi0g/cup@sha256:one", "no digest", "x@sha256:two@more"]),
        Some("https://cup.sergi0g.dev".to_string()),
        Some(&TagType::Standard),
    )
    .unwrap();
    assert_eq!(
        image,
        Image {
            reference: "ghcr.io/sergi0g/cup:v3.1".to_string(),
            parts: Parts {
                registry: "ghcr.io".to_string(),
                repository: "sergi0g/cup".to_string(),
                tag: "v3.1".to_string()
            },
            info: Info {
                local_digests: strings(&["sha256:one", "sha256:two"]),
                version: Version::Semver(StandardVersion::from_tag("v3.1").unwrap()),
                url: Some("https://cup.sergi0g.dev".to_string()),
                used_by: vec![],
            },
            update_info: UpdateInfo { remote_digest: None, latest_version: None },
            error: None,
            time_ms: 0,
        }
    );
    assert!(image.is_versioned());
    assert_eq!(image.duplicate(), image);
}

#[test]
fn image_that_cannot_be_made() {
    let digests = strings(&["a@sha256:one"]);
    assert_eq!(Image::from_inspect_parts(&vec![], &digests, None, None), None);
    assert_eq!(Image::from_inspect_parts(&strings(&["nginx"]), &vec![], None, None), None);
    assert_eq!(
        Image::from_inspect_parts(&strings(&["nginx@sha256:one"]), &digests, None, None),
        None
    );
    // A reference with neither a version nor a digest.
    assert_eq!(
        Image::from_reference("nginx:latest", None),
        Err(ErrorKind::UnrecognizedTagFormat)
    );
    assert_eq!(Image::from_reference("nginx", None), Err(ErrorKind::UnrecognizedTagFormat));
    let named = Image::from_reference("nginx:1.25-alpine", None).unwrap();
    assert_eq!(named.parts.repository, "library/nginx");
    assert_eq!(named.info.local_digests, Vec::<String>::new());
    assert_eq!(named.info.version.format_string(), Some("{}.{}-alpine".to_string()));
}

#[test]
fn image_in_use_by_reference() {
    let reference = "ghcr.io/sergi0g/cup:v3@sha256:abc".to_string();
    assert_eq!(reference.tags(), Some(strings(&["ghcr.io/sergi0g/cup:v3"])));
    assert_eq!(reference.digests(), Some(strings(&["ghcr.io/sergi0g/cup@sha256:abc"])));
    assert_eq!(reference.url(), None);
    let image = Image::from_inspect_data(&reference, None).unwrap();
    assert_eq!(image.reference, "ghcr.io/sergi0g/cup:v3");
    assert_eq!(image.info.local_digests, strings(&["sha256:abc"]));
    assert_eq!(image.parts.tag, "v3");

    assert_eq!(pulled_tag("localhost:5000/a:1@sha256:abc"), "localhost:5000/a:1");
    assert_eq!(pulled_name("localhost:5000/a:1@sha256:abc"), Some("localhost@sha256:abc".to_string()));
    assert_eq!(pulled_name("a@b@c"), Some("a@b@c".to_string()));
    assert_eq!(pulled_name("a"), None);

    let plain = "nginx:1.25".to_string();
    assert_eq!(plain.tags(), Some(strings(&["nginx:1.25"])));
    assert_eq!(plain.digests(), Some(vec![]));
    assert_eq!(Image::from_inspect_data(&plain, None), None);
    assert_eq!(Image::from_inspect_data(&"a:b:c@sha256:abc".to_string(), None), None);
    // The trait's own methods are what the registry's name and the tag come from.
    let local = "localhost:5000/a:1.2@sha256:abc".to_string();
    let image = Image::from_inspect_data(&local, Some(&TagType::Standard)).unwrap();
    assert_eq!(image.reference, "localhost:5000/a:1.2");
    assert_eq!(image.parts.registry, "localhost:5000");
    assert_eq!(image.parts.tag, "1.2");
    assert_eq!(image.info.local_digests, strings(&["sha256:abc"]));
    assert_eq!(image.info.url, None);
}

#[test]
fn image_of_what_was_told() {
    let tags = || Some(strings(&["nginx:1.25"]));
    let digests = || Some(strings(&["nginx@sha256:one"]));
    let image = Image::from_inspect_results(tags(), digests(), Some("u".to_string()), None).unwrap();
    assert_eq!(image.reference, "nginx:1.25");
    assert_eq!(image.parts.repository, "library/nginx");
    assert_eq!(image.info.local_digests, strings(&["sha256:one"]));
    assert_eq!(image.info.url, Some("u".to_string()));
    assert_eq!(Image::from_inspect_results(None, digests(), None, None), None);
    assert_eq!(Image::from_inspect_results(tags(), None, None, None), None);
    assert_eq!(Image::from_inspect_results(Some(vec![]), digests(), None, None), None);
    assert_eq!(Image::from_inspect_results(tags(), Some(vec![]), None, None), None);
    assert_eq!(
        Image::from_inspect_results(Some(strings(&["a:b:c"])), digests(), None, None),
        None
    );
    assert_eq!(
        Image::from_inspect_results(Some(strings(&["a@sha256:x"])), digests(), None, None),
        None
    );
}

#[test]
fn digest_names() {
    assert_eq!(digest_in("nginx@sha256:abc"), Some("sha256:abc".to_string()));
    assert_eq!(digest_in("nginx@sha256:abc@rest"), Some("sha256:abc".to_string()));
    assert_eq!(digest_in("nginx@"), Some(String::new()));
    assert_eq!(digest_in("nginx"), None);
    assert_eq!(digests_in(&strings(&["a", "b@1", "c", "d@2"])), strings(&["1", "2"]));
}

fn checked(local: &[&str], remote: Option<&str>, latest: Option<&str>, error: Option<&str>) -> Image {
    Image {
        reference: "nginx:1.2.3".to_string(),
        parts: Parts::default(),
        info: Info {
            local_digests: strings(local),
            version: Version::from("1.2.3", None),
            url: None,
            used_by: vec![],
        },
        update_info: UpdateInfo {
            remote_digest: remote.map(|d| d.to_string()),
            latest_version: latest.map(|t| Version::from(t, None)),
        },
        error: error.map(|e| e.to_string()),
        time_ms: 42,
    }
}

#[test]
fn status_of_a_checked_image() {
    assert_eq!(checked(&["a", "b"], Some("b"), None, None).has_update(), Status::UpToDate);
    assert_eq!(checked(&["a", "b"], Some("c"), None, None).has_update(), Status::UpdateAvailable);
    assert_eq!(checked(&[], Some("c"), None, None).has_update(), Status::UpdateAvailable);
    assert_eq!(checked(&["a"], None, Some("1.2.4"), None).has_update(), Status::UpdatePatch);
    // The version comes before the digest, and the error before both.
    assert_eq!(checked(&["a"], Some("a"), Some("2.0.0"), None).has_update(), Status::UpdateMajor);
    assert_eq!(
        checked(&["a"], Some("a"), Some("2.0.0"), Some("down")).has_update(),
        Status::Unknown("down".to_string())
    );
    assert_eq!(
        checked(&["a"], None, Some("latest"), None).has_update(),
        Status::Unknown("tag does not exist".to_string())
    );
}

#[test]
fn report_on_a_checked_image() {
    let update = checked(&["a"], None, Some("2.0.0"), None).to_update();
    assert_eq!(update.reference, "nginx:1.2.3");
    assert_eq!(update.time, 42);
    assert_eq!(update.server, None);
    assert_eq!(update.status, Status::UpdateMajor);
    assert_eq!(update.get_status(), Status::UpdateMajor);
    assert_eq!(update.result.has_update, Some(true));
    assert_eq!(update.result.error, None);
    match &update.result.info {
        Comparison::Version(info) => {
            assert_eq!(info.version_update_type, "major");
            assert_eq!(info.new_tag, "2.0.0");
            assert_eq!(info.current_version, "1.2.3");
            assert_eq!(info.new_version, "2.0.0");
        }
        other => panic!("{other:?}"),
    }
    // The report tells its status even when the status is left out.
    let mut bare = update.duplicate();
    bare.status = Status::default();
    assert_eq!(bare.get_status(), Status::UpdateMajor);

    let older = checked(&["a"], None, Some("1.0.0"), None).to_update();
    assert_eq!(older.result.has_update, None);
    assert_eq!(older.result.info, Comparison::Nothing);
    assert_eq!(older.status, Status::Unknown("tag does not exist".to_string()));
    assert!(older.is_well_formed());

    let same = checked(&["a"], None, Some("1.2.3"), None).to_update();
    assert_eq!(same.result.has_update, Some(false));
    assert_eq!(same.result.info, Comparison::Nothing);
}
