use sysand::http_index::{VersionEntry, VersionsJson, validate_versions};
use sysand::index_store::UsageRaw;
use sysand::indexed_remote::{
    DriftField, DriftValue, IndexedRemoteProjectError, checksum_canonical_hex, reconcile_fetched, usages_equal,
};
use sysand::url_model::ParsedUrl;

fn usage(r: &str, c: Option<&str>) -> UsageRaw {
    UsageRaw { resource: r.to_string(), version_constraint: c.map(str::to_string) }
}

fn advertised() -> sysand::http_index::AdvertisedVersion {
    let doc = VersionsJson {
        versions: vec![VersionEntry {
            version: "1.0.0".to_string(),
            usage: vec![usage("pkg:sysand/acme/dep", Some("^1"))],
            project_digest: format!("sha256:{}", "a".repeat(64)),
            kpar_size: 3,
            kpar_digest: format!("sha256:{}", "b".repeat(64)),
        }],
    };
    let url = ParsedUrl::parse("https://example.com/versions.json").ok().unwrap();
    validate_versions(&url, doc).ok().unwrap().remove(0)
}

#[test]
fn matching_fetch_is_accepted() {
    let a = advertised();
    let fetched = vec![usage("pkg:sysand/acme/dep", Some("^1"))];
    assert!(reconcile_fetched("u", &a, "1.0.0", &fetched, None).is_ok());
    assert!(reconcile_fetched("u", &a, "1.0.0", &fetched, Some(&"a".repeat(64))).is_ok());
}

#[test]
fn drift_is_refused() {
    let a = advertised();
    let fetched = vec![usage("pkg:sysand/acme/dep", Some("^1"))];
    assert!(matches!(
        reconcile_fetched("u", &a, "1.0.1", &fetched, None),
        Err(IndexedRemoteProjectError::AdvertisedMetadataDrift {
            field: DriftField::Version,
            advertised: DriftValue::Text(advertised),
            fetched: DriftValue::Text(fetched),
            ..
        }) if advertised == "1.0.0" && fetched == "1.0.1"
    ));
    let other = vec![usage("pkg:sysand/acme/dep", None)];
    assert!(matches!(
        reconcile_fetched("u", &a, "1.0.0", &other, None),
        Err(IndexedRemoteProjectError::AdvertisedMetadataDrift {
            field: DriftField::Usage,
            advertised: DriftValue::Usages(adv),
            fetched: DriftValue::Usages(got),
            ..
        }) if adv.len() == 1 && adv[0].version_constraint.as_deref() == Some("^1")
            && got.len() == 1 && got[0].version_constraint.is_none()
    ));
    assert!(matches!(
        reconcile_fetched("u", &a, "1.0.0", &fetched, Some(&"c".repeat(64))),
        Err(IndexedRemoteProjectError::AdvertisedDigestDrift { expected, .. }) if expected == "a".repeat(64)
    ));
}

#[test]
fn canonical_digest_before_and_after_download() {
    let a = advertised();
    assert_eq!(checksum_canonical_hex("u", &a, false, None).ok().unwrap(), Some("a".repeat(64)));
    assert_eq!(checksum_canonical_hex("u", &a, true, None).ok().unwrap(), None);
    assert_eq!(
        checksum_canonical_hex("u", &a, true, Some("a".repeat(64))).ok().unwrap(),
        Some("a".repeat(64))
    );
    assert!(matches!(
        checksum_canonical_hex("u", &a, true, Some("d".repeat(64))),
        Err(IndexedRemoteProjectError::AdvertisedDigestDrift { .. })
    ));
}

#[test]
fn usage_lists_compare_in_order() {
    let a = vec![usage("x", None), usage("y", Some("1"))];
    let b = vec![usage("y", Some("1")), usage("x", None)];
    assert!(usages_equal(&a, &a));
    assert!(!usages_equal(&a, &b));
    assert!(!usages_equal(&a, &vec![]));
}
