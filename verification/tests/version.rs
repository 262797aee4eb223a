use std::cmp::Ordering;
use keystate_core::{Error, Version};

#[test]
fn parses_three_part_versions() {
    assert_eq!("26.0.4".parse::<Version>().unwrap(), Version::new(26, 0, 4));
    assert_eq!("0.1.0".parse::<Version>().unwrap(), Version::new(0, 1, 0));
    assert!("26.0".parse::<Version>().is_err());
    assert!("26.0.beta".parse::<Version>().is_err());
    assert!("".parse::<Version>().is_err());
}

#[test]
fn orders_lexically_by_component() {
    assert!(Version::new(1, 10, 0) > Version::new(1, 9, 9));
    assert!(Version::new(25, 0, 0) < Version::new(26, 0, 0));
}

#[test]
fn displays_and_roundtrips() {
    let v = Version::new(24, 8, 1);
    assert_eq!(v.to_string(), "24.8.1");
    assert_eq!(v.to_string().parse::<Version>().unwrap(), v);
}

fn reason_of(input: &str) -> (String, String) {
    match Version::parse(input) {
        Err(Error::InvalidVersion { input, reason }) => (input, reason),
        other => panic!("expected an invalid version, got {:?}", other),
    }
}

#[test]
fn parse_errors_name_input_and_reason() {
    assert_eq!(
        reason_of("26.0"),
        ("26.0".to_string(), "expected major.minor.patch, got 2 component(s)".to_string())
    );
    assert_eq!(
        reason_of(""),
        ("".to_string(), "expected major.minor.patch, got 1 component(s)".to_string())
    );
    assert_eq!(
        reason_of("26.0.beta"),
        ("26.0.beta".to_string(), "each component must be a non-negative integer".to_string())
    );
    assert_eq!(
        reason_of("1.2.-3"),
        ("1.2.-3".to_string(), "each component must be a non-negative integer".to_string())
    );
    assert_eq!(
        reason_of("18446744073709551616.0.0"),
        (
            "18446744073709551616.0.0".to_string(),
            "each component must be a non-negative integer".to_string()
        )
    );
}

#[test]
fn parse_trims_only_the_whole_input() {
    assert_eq!(Version::parse("  1.2.3\n").unwrap(), Version::new(1, 2, 3));
    assert_eq!(
        reason_of(" 1 . 2 .3 "),
        (" 1 . 2 .3 ".to_string(), "each component must be a non-negative integer".to_string())
    );
    assert_eq!(Version::parse("+7.0.0").unwrap(), Version::new(7, 0, 0));
    assert_eq!(
        Version::parse("18446744073709551615.0.0").unwrap(),
        Version::new(18446744073709551615, 0, 0)
    );
}

#[test]
fn default_version_is_zero() {
    assert_eq!(Version::default(), Version::new(0, 0, 0));
    assert_eq!(Version::default().to_string(), "0.0.0");
}

#[test]
fn orders_by_major_then_minor_then_patch() {
    assert_eq!(Version::new(2, 0, 0).partial_cmp(&Version::new(1, 99, 99)), Some(Ordering::Greater));
    assert_eq!(Version::new(1, 2, 3).partial_cmp(&Version::new(1, 2, 4)), Some(Ordering::Less));
    assert_eq!(Version::new(1, 2, 3).partial_cmp(&Version::new(1, 2, 3)), Some(Ordering::Equal));
    assert_eq!(Version::new(1, 3, 0).cmp(&Version::new(1, 2, 9)), Ordering::Greater);
    assert!(Version::new(0, 0, 1) >= Version::new(0, 0, 1));
    assert!(Version::new(0, 1, 0) <= Version::new(1, 0, 0));
}

#[test]
fn surrounding_white_space_is_what_std_calls_white_space() {
    for code in 0u32..0x3100 {
        let c = char::from_u32(code).unwrap();
        let input = format!("{c}1.2.3{c}");
        let parsed = Version::parse(&input);
        if c.is_whitespace() {
            assert_eq!(parsed.unwrap(), Version::new(1, 2, 3), "U+{code:04X}");
        } else if c.is_ascii_digit() {
            assert!(parsed.map(|v| v != Version::new(1, 2, 3)).unwrap_or(true));
        } else {
            assert!(parsed.is_err(), "U+{code:04X}");
        }
    }
}
