use sysand::purl::{
    FieldKind, SysandPurlError, is_normalized_field, is_valid_field, is_valid_name,
    is_valid_publisher, normalize_field, parse_sysand_purl,
};

#[test]
fn publisher_rules() {
    assert!(is_valid_publisher("Test Publisher"));
    assert!(is_valid_publisher("acme"));
    assert!(!is_valid_publisher("ab"));
    assert!(!is_valid_publisher("-acme"));
    assert!(!is_valid_publisher("acme-"));
    assert!(!is_valid_publisher("ac--me"));
    assert!(!is_valid_publisher("acme.corp"));
    assert!(!is_valid_publisher(&"a".repeat(51)));
    assert!(is_valid_publisher(&"a".repeat(50)));
}

#[test]
fn name_rules_allow_dots() {
    assert!(is_valid_name("project.one"));
    assert!(is_valid_name("Project One"));
    assert!(!is_valid_name("project..one"));
    assert!(!is_valid_name(".project"));
    assert!(is_valid_field("project.one", FieldKind::Name));
    assert!(!is_valid_field("project.one", FieldKind::Publisher));
}

#[test]
fn normalization_lowercases_and_hyphenates() {
    assert_eq!(normalize_field("Test Publisher"), "test-publisher");
    assert_eq!(normalize_field("Project One"), "project-one");
    assert_eq!(normalize_field(&normalize_field("Project One")), "project-one");
    assert!(is_normalized_field("project-one", FieldKind::Name));
    assert!(!is_normalized_field("Project One", FieldKind::Name));
}

#[test]
fn sysand_purl_parsing() {
    assert_eq!(
        parse_sysand_purl("pkg:sysand/acme/dep").ok().flatten(),
        Some(("acme".to_string(), "dep".to_string()))
    );
    assert!(matches!(parse_sysand_purl("https://example.com/x"), Ok(None)));
    assert!(matches!(parse_sysand_purl("pkg:sysand/acme"), Err(SysandPurlError::SegmentCount)));
    assert!(matches!(
        parse_sysand_purl("pkg:sysand/a/b/c"),
        Err(SysandPurlError::SegmentCount)
    ));
    assert!(matches!(
        parse_sysand_purl("pkg:sysand/Acme/dep"),
        Err(SysandPurlError::InvalidPublisher(p)) if p == "Acme"
    ));
    assert!(matches!(
        parse_sysand_purl("pkg:sysand/acme/d"),
        Err(SysandPurlError::InvalidName(n)) if n == "d"
    ));
}
