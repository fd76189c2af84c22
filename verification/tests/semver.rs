use cup::status::Status;
use cup::version::semver::{get_version, SemVer};

#[test]
fn semver() {
    assert_eq!(get_version("5.3.2"                   ), Some(SemVer { major: 5,  minor: Some(3),   patch: Some(2)  }));
    assert_eq!(get_version("14"                      ), Some(SemVer { major: 14, minor: Some(0),   patch: Some(0)  }));
    assert_eq!(get_version("v0.107.53"               ), Some(SemVer { major: 0,  minor: Some(107), patch: Some(53) }));
    assert_eq!(get_version("12-alpine"               ), Some(SemVer { major: 12, minor: Some(0),   patch: Some(0)  }));
    assert_eq!(get_version("0.9.5-nginx"             ), Some(SemVer { major: 0,  minor: Some(9),   patch: Some(5)  }));
    assert_eq!(get_version("v27.0"                   ), Some(SemVer { major: 27, minor: Some(0),   patch: Some(0)  }));
    assert_eq!(get_version("16.1"                    ), Some(SemVer { major: 16, minor: Some(1),   patch: Some(0)  }));
    assert_eq!(get_version("version-1.5.6"           ), Some(SemVer { major: 1,  minor: Some(5),   patch: Some(6)  }));
    assert_eq!(get_version("15.4-alpine"             ), Some(SemVer { major: 15, minor: Some(4),   patch: Some(0)  }));
    assert_eq!(get_version("pg14-v0.2.0"             ), Some(SemVer { major: 0,  minor: Some(2),   patch: Some(0)  }));
    assert_eq!(get_version("18-jammy-full.s6-v0.88.0"), Some(SemVer { major: 0,  minor: Some(88),  patch: Some(0)  }));
    assert_eq!(get_version("fpm-2.1.0-prod"          ), Some(SemVer { major: 2,  minor: Some(1),   patch: Some(0)  }));
    assert_eq!(get_version("7.3.3.50"                ), Some(SemVer { major: 7,  minor: Some(3),   patch: Some(3)  }));
    assert_eq!(get_version("1.21.11-0"               ), Some(SemVer { major: 1,  minor: Some(21),  patch: Some(11) }));
    assert_eq!(get_version("4.1.2.1-full"            ), Some(SemVer { major: 4,  minor: Some(1),   patch: Some(2)  }));
    assert_eq!(get_version("v4.0.3-ls215"            ), Some(SemVer { major: 4,  minor: Some(0),   patch: Some(3)  }));
}

#[test]
fn semver_without_a_number() {
    assert_eq!(get_version("latest"), None);
    assert_eq!(get_version(""), None);
}

#[test]
fn semver_zero_ends_a_number() {
    // A zero is a number of its own, so `007` holds three versions of one number.
    assert_eq!(get_version("007"), Some(SemVer { major: 0, minor: Some(0), patch: Some(0) }));
    // The minor number ends at its zero; the best version is `24.0`.
    assert_eq!(get_version("24.04.11"), Some(SemVer { major: 24, minor: Some(0), patch: Some(0) }));
    // Leading zeros of the last number do not count.
    assert_eq!(get_version("1.2.0034"), Some(SemVer { major: 1, minor: Some(2), patch: Some(34) }));
}

#[test]
fn semver_too_large() {
    assert_eq!(get_version("2147483647"), Some(SemVer { major: 2147483647, minor: Some(0), patch: Some(0) }));
    assert_eq!(get_version("2147483648"), None);
    assert_eq!(get_version("1.99999999999"), None);
}

#[test]
fn semver_status() {
    let v = |a: i32, b: i32, c: i32| SemVer { major: a, minor: Some(b), patch: Some(c) };
    assert_eq!(v(2, 0, 0).to_status(&v(1, 9, 9)), Status::UpdateMajor);
    assert_eq!(v(1, 9, 0).to_status(&v(1, 5, 7)), Status::UpdateMinor);
    assert_eq!(v(1, 2, 4).to_status(&v(1, 2, 3)), Status::UpdatePatch);
    assert_eq!(v(1, 2, 3).to_status(&v(1, 2, 3)), Status::UpToDate);
    assert_eq!(
        v(1, 2, 2).to_status(&v(1, 2, 3)),
        Status::Unknown("tag does not exist".to_string())
    );
    assert_eq!(v(1, 2, 4).partial_cmp(&v(1, 2, 3)), Some(std::cmp::Ordering::Greater));
    assert_eq!(v(1, 2, 4).compare(&v(1, 3, 0)), std::cmp::Ordering::Less);
}
