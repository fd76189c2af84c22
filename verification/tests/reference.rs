use cup::reference::{is_splittable, parts_of, split, Parts, DEFAULT_REGISTRY};

#[test]
fn reference() {
    assert_eq!(split("alpine"                                               ), (String::from(DEFAULT_REGISTRY         ), String::from("library/alpine"                ), String::from("latest")));
    assert_eq!(split("alpine:latest"                                        ), (String::from(DEFAULT_REGISTRY         ), String::from("library/alpine"                ), String::from("latest")));
    assert_eq!(split("library/alpine"                                       ), (String::from(DEFAULT_REGISTRY         ), String::from("library/alpine"                ), String::from("latest")));
    assert_eq!(split("localhost/test"                                       ), (String::from("localhost"              ), String::from("test"                          ), String::from("latest")));
    assert_eq!(split("localhost:1234/test"                                  ), (String::from("localhost:1234"         ), String::from("test"                          ), String::from("latest")));
    assert_eq!(split("test:1234/idk"                                        ), (String::from("test:1234"              ), String::from("idk"                           ), String::from("latest")));
    assert_eq!(split("alpine:3.7"                                           ), (String::from(DEFAULT_REGISTRY         ), String::from("library/alpine"                ), String::from("3.7"   )));
    assert_eq!(split("docker.example.com/examplerepo/alpine:3.7"            ), (String::from("docker.example.com"     ), String::from("examplerepo/alpine"            ), String::from("3.7"   )));
    assert_eq!(split("docker.example.com/examplerepo/alpine/test2:3.7"      ), (String::from("docker.example.com"     ), String::from("examplerepo/alpine/test2"      ), String::from("3.7"   )));
    assert_eq!(split("docker.example.com/examplerepo/alpine/test2/test3:3.7"), (String::from("docker.example.com"     ), String::from("examplerepo/alpine/test2/test3"), String::from("3.7"   )));
    assert_eq!(split("docker.example.com:5000/examplerepo/alpine:latest"    ), (String::from("docker.example.com:5000"), String::from("examplerepo/alpine"            ), String::from("latest")));
    assert_eq!(split("portainer/portainer:latest"                           ), (String::from(DEFAULT_REGISTRY         ), String::from("portainer/portainer"           ), String::from("latest")));
}

#[test]
fn reference_with_digest() {
    assert_eq!(
        split("ghcr.io/sergi0g/cup:v3@sha256:abcdef"),
        ("ghcr.io".to_string(), "sergi0g/cup".to_string(), "v3".to_string())
    );
    assert_eq!(
        split("alpine@sha256:abcdef"),
        (DEFAULT_REGISTRY.to_string(), "library/alpine".to_string(), "latest".to_string())
    );
}

#[test]
fn reference_default_registry_by_name() {
    assert_eq!(
        split("registry-1.docker.io/alpine"),
        (DEFAULT_REGISTRY.to_string(), "library/alpine".to_string(), "latest".to_string())
    );
    assert_eq!(DEFAULT_REGISTRY, "registry-1.docker.io");
}

#[test]
fn reference_that_cannot_be_split() {
    assert!(is_splittable("alpine:3.7"));
    assert!(is_splittable("localhost:1234/test:1"));
    assert!(is_splittable("a:b@c:d:e"));
    assert!(!is_splittable("a:b:c"));
    assert!(!is_splittable("alpine:1:2@sha256:abc"));
    // A colon in the first piece makes it a registry.
    assert!(is_splittable("a:b/c:d"));
    assert!(!is_splittable("x/a:b:c"));
}

#[test]
fn reference_parts() {
    assert_eq!(
        parts_of("ghcr.io/sergi0g/cup:latest"),
        Parts {
            registry: "ghcr.io".to_string(),
            repository: "sergi0g/cup".to_string(),
            tag: "latest".to_string()
        }
    );
    assert_eq!(
        Parts::default(),
        Parts { registry: String::new(), repository: String::new(), tag: String::new() }
    );
}
