use cup::status::Status;
use cup::version::tag::{StandardVersion, StandardVersionPart};
use cup::version::{TagType, Version};
use std::cmp::Ordering;

fn part(value: u32, length: u8) -> StandardVersionPart {
    StandardVersionPart { value, length }
}

fn version(
    major: StandardVersionPart,
    minor: Option<StandardVersionPart>,
    patch: Option<StandardVersionPart>,
    prefix: &str,
    suffix: &str,
) -> StandardVersion {
    StandardVersion {
        major,
        minor,
        patch,
        prefix: prefix.to_string(),
        suffix: suffix.to_string(),
    }
}

fn read(tag: &str) -> StandardVersion {
    StandardVersion::from_tag(tag).unwrap()
}

#[test]
fn standard_version() {
    assert_eq!(StandardVersion::from_tag("5.3.2"), Ok(version(part(5, 0), Some(part(3, 0)), Some(part(2, 0)), "", "")));
    assert_eq!(StandardVersion::from_tag("14"), Ok(version(part(14, 0), None, None, "", "")));
    assert_eq!(StandardVersion::from_tag("v0.107.53"), Ok(version(part(0, 0), Some(part(107, 0)), Some(part(53, 0)), "v", "")));
    assert_eq!(StandardVersion::from_tag("12-alpine"), Ok(version(part(12, 0), None, None, "", "-alpine")));
    assert_eq!(StandardVersion::from_tag("0.9.5-nginx"), Ok(version(part(0, 0), Some(part(9, 0)), Some(part(5, 0)), "", "-nginx")));
    assert_eq!(StandardVersion::from_tag("v27.0"), Ok(version(part(27, 0), Some(part(0, 0)), None, "v", "")));
    assert_eq!(StandardVersion::from_tag("16.1"), Ok(version(part(16, 0), Some(part(1, 0)), None, "", "")));
    assert_eq!(StandardVersion::from_tag("version-1.5.6"), Ok(version(part(1, 0), Some(part(5, 0)), Some(part(6, 0)), "version-", "")));
    assert_eq!(StandardVersion::from_tag("15.4-alpine"), Ok(version(part(15, 0), Some(part(4, 0)), None, "", "-alpine")));
    assert_eq!(StandardVersion::from_tag("pg14-v0.2.0"), Ok(version(part(0, 0), Some(part(2, 0)), Some(part(0, 0)), "pg14-v", "")));
    assert_eq!(StandardVersion::from_tag("18-jammy-full.s6-v0.88.0"), Ok(version(part(0, 0), Some(part(88, 0)), Some(part(0, 0)), "18-jammy-full.s6-v", "")));
    assert_eq!(StandardVersion::from_tag("fpm-2.1.0-prod"), Ok(version(part(2, 0), Some(part(1, 0)), Some(part(0, 0)), "fpm-", "-prod")));
    assert_eq!(StandardVersion::from_tag("7.3.3.50"), Ok(version(part(7, 0), Some(part(3, 0)), Some(part(3, 0)), "", ".50")));
    assert_eq!(StandardVersion::from_tag("1.21.11-0"), Ok(version(part(1, 0), Some(part(21, 0)), Some(part(11, 0)), "", "-0")));
    assert_eq!(StandardVersion::from_tag("4.1.2.1-full"), Ok(version(part(4, 0), Some(part(1, 0)), Some(part(2, 0)), "", ".1-full")));
    assert_eq!(StandardVersion::from_tag("v4.0.3-ls215"), Ok(version(part(4, 0), Some(part(0, 0)), Some(part(3, 0)), "v", "-ls215")));
    assert_eq!(StandardVersion::from_tag("24.04.11.2.1"), Ok(version(part(24, 0), Some(part(4, 2)), Some(part(11, 0)), "", ".2.1")));
    assert_eq!(StandardVersion::from_tag("example15-test"), Ok(version(part(15, 0), None, None, "example", "-test")));
    assert_eq!(StandardVersion::from_tag("watch-the-dot-5.3.2.careful"), Ok(version(part(5, 0), Some(part(3, 0)), Some(part(2, 0)), "watch-the-dot-", ".careful")));
}

#[test]
fn version_part() {
    assert_eq!(
        StandardVersionPart {
            value: 21,
            length: 4
        }
        .to_string(),
        String::from("0021")
    );
}

#[test]
fn tag_templates() {
    assert_eq!(read("5.3.2").format_str(), "{}.{}.{}");
    assert_eq!(read("14").format_str(), "{}");
    assert_eq!(read("v0.107.53").format_str(), "v{}.{}.{}");
    assert_eq!(read("12-alpine").format_str(), "{}-alpine");
    assert_eq!(read("v27.0").format_str(), "v{}.{}");
    assert_eq!(read("18-jammy-full.s6-v0.88.0").format_str(), "18-jammy-full.s6-v{}.{}.{}");
    assert_eq!(read("7.3.3.50").format_str(), "{}.{}.{}.50");
    assert_eq!(read("24.04.11.2.1").format_str(), "{}.{}.{}.2.1");
    assert_eq!(read("example15-test").format_str(), "example{}-test");
}

#[test]
fn tag_round_trip() {
    let tags = [
        "v0.107.53",
        "5.3.2",
        "14",
        "12-alpine",
        "24.04.11.2.1",
        "01.28.04",
        "0",
        "00",
        "0.0.0",
        "1.",
        "1..2",
        "a.1.b",
        "{}1.2",
        "x-007.010-y",
        "18-jammy-full.s6-v0.88.0",
        "4294967295.4294967295",
    ];
    for tag in tags {
        assert_eq!(read(tag).to_string(), tag);
    }
    let v = read("v0.107.53");
    assert_eq!(
        (v.major, v.minor, v.patch),
        (part(0, 0), Some(part(107, 0)), Some(part(53, 0)))
    );
}

#[test]
fn tag_without_a_version() {
    assert_eq!(StandardVersion::from_tag("latest"), Err(()));
    assert_eq!(StandardVersion::from_tag(""), Err(()));
    assert_eq!(StandardVersion::from_tag("..."), Err(()));
}

#[test]
fn tag_number_too_large() {
    assert_eq!(StandardVersion::from_tag("4294967296"), Err(()));
    assert_eq!(StandardVersion::from_tag("1.2.99999999999"), Err(()));
    // Only the numbers of the version that is chosen have to fit.
    assert_eq!(read("99999999999-1.2").major, part(1, 0));
    // A width of more than 255 characters cannot be kept.
    let long = format!("0{}", "1".repeat(255));
    assert_eq!(StandardVersion::from_tag(&long), Err(()));
    let fits = format!("0{}", "0".repeat(254));
    assert_eq!(read(&fits).major, part(0, 255));
}

#[test]
fn tag_most_numbers_wins_then_first() {
    assert_eq!(read("1-2.3-4.5.6-7.8.9").to_string(), "1-2.3-4.5.6-7.8.9");
    assert_eq!(read("1-2.3-4.5.6-7.8.9").major, part(4, 0));
    assert_eq!(read("1.2-3.4").major, part(1, 0));
    assert_eq!(read("1-2").major, part(1, 0));
    // A dot that no digit follows ends the version.
    assert_eq!(read("1.x.2.3").prefix, "1.x.");
    assert_eq!(read("1.").minor, None);
}

#[test]
fn tag_widths() {
    assert_eq!(read("0").major, part(0, 0));
    assert_eq!(read("00").major, part(0, 2));
    assert_eq!(read("007").major, part(7, 3));
    assert_eq!(read("10").major, part(10, 0));
    assert_eq!(part(4, 2).to_string(), "04");
    assert_eq!(part(123, 2).to_string(), "123");
    assert_eq!(part(0, 0).to_string(), "0");
    assert_eq!(StandardVersionPart::from_split("0021"), part(21, 4));
    assert_eq!(StandardVersionPart::from_split("0"), part(0, 0));
    assert_eq!(StandardVersionPart::default(), part(0, 0));
}

#[test]
fn part_two_and_zero_two_do_not_compare() {
    let plain = StandardVersionPart::from_split("2");
    let padded = StandardVersionPart::from_split("02");
    assert_eq!(plain.partial_cmp(&padded), None);
    assert_eq!(padded.partial_cmp(&plain), None);
    assert!(!(plain < padded));
    assert!(!(plain > padded));
    assert!(plain != padded);
    assert_eq!(part(2, 0).partial_cmp(&part(3, 0)), Some(Ordering::Less));
    assert_eq!(part(3, 2).partial_cmp(&part(3, 2)), Some(Ordering::Equal));
}

#[test]
fn tag_order() {
    assert_eq!(read("1.2.4").partial_cmp(&read("1.2.3")), Some(Ordering::Greater));
    assert_eq!(read("1.2.3").partial_cmp(&read("1.10.0")), Some(Ordering::Less));
    assert_eq!(read("v1.2").partial_cmp(&read("v1.2")), Some(Ordering::Equal));
    // Other text around the version, or another number of numbers.
    assert_eq!(read("v1.2").partial_cmp(&read("1.2")), None);
    assert_eq!(read("1.2").partial_cmp(&read("1.2.0")), None);
    assert_eq!(read("1.2-alpine").partial_cmp(&read("1.3-slim")), None);
    // Other widths.
    assert_eq!(read("1.02").partial_cmp(&read("1.2")), None);
    // The major number decides before a width further on is looked at.
    assert_eq!(read("2.02").partial_cmp(&read("1.2")), Some(Ordering::Greater));
}

#[test]
fn classification_table() {
    let status = |local: &str, remote: &str| read(remote).to_status(&read(local));
    assert_eq!(status("1.2.3", "1.2.4"), Status::UpdatePatch);
    assert_eq!(status("1.2", "2.0"), Status::UpdateMajor);
    assert_eq!(status("1.5", "1.9"), Status::UpdateMinor);
    assert_eq!(status("2.0.0", "2.0.0"), Status::UpToDate);
    assert_eq!(status("1.25.2", "1.26.0"), Status::UpdateMinor);
    assert_eq!(status("3", "4"), Status::UpdateMajor);
    let missing = Status::Unknown("tag does not exist".to_string());
    assert_eq!(status("1.2.4", "1.2.3"), missing);
    assert_eq!(status("2.0", "1.9"), missing);
    assert_eq!(status("v1.2", "1.3"), missing);
    assert_eq!(status("1.02", "1.3"), missing);
}

#[test]
fn version_of_any_kind() {
    let v = Version::from("v1.2.3", None);
    assert_eq!(v.format_string(), Some("v{}.{}.{}".to_string()));
    assert_eq!(v.tag_type(), Some(TagType::Standard));
    assert_eq!(v.as_standard(), Some(&read("v1.2.3")));
    let unknown = Version::from("latest", Some(&TagType::Standard));
    assert_eq!(unknown, Version::Unknown);
    assert_eq!(unknown.format_string(), None);
    assert_eq!(unknown.tag_type(), None);
    assert_eq!(unknown.as_standard(), None);
    assert_eq!(Version::default(), Version::Unknown);
    assert_eq!(Version::from_standard("latest"), Err(()));
    assert_eq!(unknown.partial_cmp(&unknown), None);
    assert_eq!(unknown.partial_cmp(&v), None);
    assert_eq!(v.partial_cmp(&Version::from("v1.2.4", None)), Some(Ordering::Less));
    assert_eq!(
        Version::from("v1.3.0", None).to_status(&v),
        Status::UpdateMinor
    );
    assert_eq!(
        v.to_status(&unknown),
        Status::Unknown("tag does not exist".to_string())
    );
}
