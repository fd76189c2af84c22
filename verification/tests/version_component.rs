use cup::version::component::VersionComponent;
use std::str::FromStr;

#[test]
fn parse_from_string_slice() {
    let version_component = "0021";
    assert_eq!(
        VersionComponent::from_str(version_component).unwrap(),
        VersionComponent {
            value: 21,
            length: 4
        }
    );
}

#[test]
fn stringify() {
    let version_component = VersionComponent {
        value: 21,
        length: 4,
    };
    assert_eq!(version_component.to_string(), "0021");
}

#[test]
fn sort_components_with_equal_length() {
    let component_a = VersionComponent {
        value: 5,
        length: 2,
    };

    let component_b = VersionComponent {
        value: 7,
        length: 2,
    };

    assert_eq!(
        component_a.partial_cmp(&component_b),
        Some(std::cmp::Ordering::Less)
    )
}

#[test]
fn sort_components_with_different_length() {
    let component_a = VersionComponent {
        value: 5,
        length: 2,
    };

    let component_b = VersionComponent {
        value: 7,
        length: 1,
    };

    assert_eq!(component_a.partial_cmp(&component_b), None)
}

#[test]
fn component_compares_both_ways() {
    let small = VersionComponent { value: 5, length: 2 };
    let large = VersionComponent { value: 7, length: 2 };
    assert_eq!(large.partial_cmp(&small), Some(std::cmp::Ordering::Greater));
    assert_eq!(small.partial_cmp(&small), Some(std::cmp::Ordering::Equal));
    assert!(small < large);
}

#[test]
fn component_two_and_zero_two_do_not_compare() {
    let plain = VersionComponent::from_str("2").unwrap();
    let padded = VersionComponent::from_str("02").unwrap();
    assert_eq!(plain, VersionComponent { value: 2, length: 1 });
    assert_eq!(padded, VersionComponent { value: 2, length: 2 });
    assert_eq!(plain.partial_cmp(&padded), None);
    assert_eq!(padded.partial_cmp(&plain), None);
    assert!(!(plain < padded) && !(plain > padded));
}

#[test]
fn component_rejects_what_is_no_number() {
    assert!(VersionComponent::from_str("").is_err());
    assert!(VersionComponent::from_str("1a").is_err());
    assert!(VersionComponent::from_str("-1").is_err());
    assert!(VersionComponent::from_str(" 1").is_err());
    assert!(VersionComponent::from_str("4294967296").is_err());
    assert_eq!(
        VersionComponent::from_str("4294967295").unwrap(),
        VersionComponent { value: 4294967295, length: 10 }
    );
    assert_eq!(
        VersionComponent::from_str("+7").unwrap(),
        VersionComponent { value: 7, length: 2 }
    );
}

#[test]
fn component_text_is_not_shortened() {
    assert_eq!(VersionComponent { value: 12345, length: 2 }.to_string(), "12345");
    assert_eq!(VersionComponent { value: 0, length: 0 }.to_string(), "0");
    assert_eq!(VersionComponent { value: 0, length: 3 }.to_string(), "000");
}
