use sysand::http_index::{MissingPolicy, check_status, iri_path_segments, parse_pkg_sysand_iri};
use sysand::index_location::{PathEncoding, percent_encode};
use sysand::purl::{normalize_field, parse_sysand_purl};

#[test]
fn unreserved_paths_expand_verbatim() {
    assert_eq!(percent_encode("abc-._~XYZ09"), "abc-._~XYZ09");
    assert_eq!(PathEncoding::Encoded.encode("project.kpar"), "project.kpar");
}

#[test]
fn encoded_paths_never_hold_a_slash() {
    for p in ["a/b", "../../etc/passwd", "x y/z?q#f", "ü/ß"] {
        let e = percent_encode(p);
        assert!(!e.contains('/'));
        assert!(e.chars().all(|c| c.is_ascii_alphanumeric() || "-._~%".contains(c)));
    }
}

#[test]
fn routes_never_leave_the_index() {
    for iri in ["pkg:sysand/acme/dep", "pkg:sysand/../..", "../../x", "pkg:sysand/acme/..", "urn:a/b"] {
        for seg in iri_path_segments(iri) {
            assert!(!seg.is_empty());
            assert!(!seg.contains('/'));
            assert!(seg != "." && seg != "..");
        }
    }
}

#[test]
fn strict_and_routing_parsers_agree() {
    for iri in ["pkg:sysand/acme/dep", "pkg:sysand/Acme/dep", "pkg:sysand/acme", "https://x/y"] {
        let strict = parse_sysand_purl(iri).ok().flatten();
        assert_eq!(strict, parse_pkg_sysand_iri(iri));
    }
}

#[test]
fn normalization_is_idempotent() {
    for s in ["Test Publisher", "project one", "ALREADY-normal"] {
        assert_eq!(normalize_field(&normalize_field(s)), normalize_field(s));
    }
}

#[test]
fn required_documents_are_never_absent() {
    for status in [200u16, 204, 301, 404, 410, 500] {
        assert!(!matches!(check_status("u", status, MissingPolicy::RequirePresent), Ok(false)));
    }
}

#[test]
fn escapes_are_percent_and_two_upper_case_digits() {
    assert_eq!(percent_encode("a b/ü\u{7f}"), "a%20b%2F%C3%BC%7F");
}
