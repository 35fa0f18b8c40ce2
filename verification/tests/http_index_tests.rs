use sysand::http_index::VersionsCache;
use sysand::http_index::{
    AdvertisedVersion, DigestField, HTTPIndexEnvironmentAsync, HTTPIndexEnvironmentError,
    HttpFetchError, IndexJson, IndexProject, MissingPolicy, Sha256HexDigest, VersionEntry,
    VersionsJson, check_status, index_uris, iri_path_segments, parse_pkg_sysand_iri,
    require_index, select_advertised, validate_versions, version_strings,
};
use sysand::url_model::ParsedUrl;

fn url(s: &str) -> ParsedUrl {
    ParsedUrl::parse(s).ok().unwrap()
}

fn digest(c: char) -> String {
    format!("sha256:{}", c.to_string().repeat(64))
}

fn entry(version: &str) -> VersionEntry {
    VersionEntry {
        version: version.to_string(),
        usage: vec![],
        project_digest: digest('a'),
        kpar_size: 7,
        kpar_digest: digest('B'),
    }
}

fn validated(versions: &[&str]) -> Vec<AdvertisedVersion> {
    let doc = VersionsJson { versions: versions.iter().map(|v| entry(v)).collect() };
    validate_versions(&url("https://example.com/versions.json"), doc).ok().unwrap()
}

#[test]
fn digests_are_validated_and_lowercased() {
    let d = Sha256HexDigest::try_from(&format!("sha256:{}", "AB".repeat(32))).ok().unwrap();
    assert_eq!(d.as_hex(), "ab".repeat(32));
    assert!(Sha256HexDigest::try_from("sha256:abc").is_err());
    assert!(Sha256HexDigest::try_from(&format!("md5:{}", "a".repeat(64))).is_err());
    assert!(Sha256HexDigest::try_from(&format!("sha256:{}", "g".repeat(64))).is_err());
    assert!(Sha256HexDigest::try_from(&"a".repeat(64)).is_err());
}

#[test]
fn validated_entries_keep_wire_order() {
    let vs = validated(&["2.0.0", "1.0.0", "1.0.0-rc.1"]);
    assert_eq!(version_strings(&vs), vec!["2.0.0", "1.0.0", "1.0.0-rc.1"]);
    assert_eq!(vs[0].kpar_size, 7);
    assert_eq!(vs[0].project_digest.as_hex(), "a".repeat(64));
    assert_eq!(vs[0].kpar_digest.as_hex(), "b".repeat(64));
}

#[test]
fn duplicate_versions_are_refused() {
    let doc = VersionsJson { versions: vec![entry("1.0.0"), entry("0.9.0"), entry("1.0.0")] };
    match validate_versions(&url("https://example.com/versions.json"), doc) {
        Err(HTTPIndexEnvironmentError::DuplicateVersion { url, version }) => {
            assert_eq!(url, "https://example.com/versions.json");
            assert_eq!(version, "1.0.0");
        }
        _ => panic!("expected a duplicate"),
    }
}

#[test]
fn malformed_entries_are_refused_in_order() {
    let mut bad_digest = entry("1.0.0");
    bad_digest.project_digest = "sha256:zz".to_string();
    let doc = VersionsJson { versions: vec![bad_digest, entry("1.0")] };
    assert!(matches!(
        validate_versions(&url("https://example.com/versions.json"), doc),
        Err(HTTPIndexEnvironmentError::InvalidVersionEntry { field: DigestField::ProjectDigest, value, .. }) if value == "sha256:zz"
    ));
    let mut bad_kpar = entry("1.0.0");
    bad_kpar.kpar_digest = "x".to_string();
    let doc = VersionsJson { versions: vec![bad_kpar] };
    assert!(matches!(
        validate_versions(&url("https://example.com/versions.json"), doc),
        Err(HTTPIndexEnvironmentError::InvalidVersionEntry { field: DigestField::KparDigest, .. })
    ));
    let doc = VersionsJson { versions: vec![entry("1.0")] };
    assert!(matches!(
        validate_versions(&url("https://example.com/versions.json"), doc),
        Err(HTTPIndexEnvironmentError::InvalidSemverVersion { value, .. }) if value == "1.0"
    ));
}

#[test]
fn sysand_identifiers_route_by_publisher_and_name() {
    assert_eq!(iri_path_segments("pkg:sysand/acme/dep"), vec!["acme", "dep"]);
    assert_eq!(
        parse_pkg_sysand_iri("pkg:sysand/acme/dep"),
        Some(("acme".to_string(), "dep".to_string()))
    );
    assert_eq!(parse_pkg_sysand_iri("pkg:sysand/Acme/dep"), None);
}

#[test]
fn other_identifiers_route_by_hash() {
    assert_eq!(
        iri_path_segments("urn:kpar:test-lib"),
        vec!["_iri", "3b588ce8c460fbf505e766e94dd328b1b6abb2a61bf85429d4caac9a1fed72eb"]
    );
    assert_eq!(
        iri_path_segments("pkg:sysand/Acme/dep"),
        vec!["_iri", "15570a2b7fdadf87d73cad8a9755d314ee735dd75e331ce6092ce852a7c16bb0"]
    );
}

#[test]
fn document_urls_of_an_index() {
    let env = HTTPIndexEnvironmentAsync { base_url: url("https://example.com/index") };
    assert_eq!(env.root_url().as_str(), "https://example.com/index/");
    assert_eq!(env.index_url().ok().unwrap().as_str(), "https://example.com/index/index.json");
    assert_eq!(
        env.versions_url("pkg:sysand/acme/dep").ok().unwrap().as_str(),
        "https://example.com/index/acme/dep/versions.json"
    );
    assert_eq!(
        env.kpar_url("pkg:sysand/acme/dep", "1.0.0").ok().unwrap().as_str(),
        "https://example.com/index/acme/dep/1.0.0/project.kpar"
    );
    assert_eq!(
        env.project_json_url("pkg:sysand/acme/dep", "1.0.0").ok().unwrap().as_str(),
        "https://example.com/index/acme/dep/1.0.0/.project.json"
    );
    assert_eq!(
        env.meta_json_url("urn:kpar:test-lib", "2.0.0").ok().unwrap().as_str(),
        "https://example.com/index/_iri/3b588ce8c460fbf505e766e94dd328b1b6abb2a61bf85429d4caac9a1fed72eb/2.0.0/.meta.json"
    );
    let bare = HTTPIndexEnvironmentAsync { base_url: url("https://example.com") };
    assert_eq!(bare.root_url().as_str(), "https://example.com/");
}

#[test]
fn response_statuses() {
    assert!(matches!(check_status("u", 404, MissingPolicy::AllowNotFound), Ok(false)));
    assert!(matches!(
        check_status("u", 404, MissingPolicy::RequirePresent),
        Err(HttpFetchError::BadHttpStatus { status: 404, .. })
    ));
    assert!(matches!(check_status("u", 200, MissingPolicy::RequirePresent), Ok(true)));
    assert!(matches!(check_status("u", 204, MissingPolicy::AllowNotFound), Ok(true)));
    assert!(matches!(
        check_status("u", 500, MissingPolicy::AllowNotFound),
        Err(HttpFetchError::BadHttpStatus { status: 500, .. })
    ));
}

#[test]
fn the_root_document_must_exist() {
    let u = url("https://example.com/index.json");
    assert!(matches!(
        require_index(&u, None),
        Err(HTTPIndexEnvironmentError::Fetch(HttpFetchError::BadHttpStatus { status: 404, .. }))
    ));
    let doc = IndexJson { projects: vec![IndexProject { iri: "pkg:sysand/acme/dep".to_string() }] };
    let doc = require_index(&u, Some(doc)).ok().unwrap();
    assert_eq!(index_uris(doc), vec!["pkg:sysand/acme/dep"]);
}

#[test]
fn selecting_an_advertised_version() {
    let vs = validated(&["2.0.0", "1.0.0"]);
    let u = url("https://example.com/versions.json");
    assert!(matches!(select_advertised(&u, Some(&vs), "1.0.0"), Ok(1)));
    assert!(matches!(
        select_advertised(&u, Some(&vs), "3.0.0"),
        Err(HTTPIndexEnvironmentError::VersionNotInIndex { version, .. }) if version == "3.0.0"
    ));
    assert!(matches!(
        select_advertised(&u, None, "1.0.0"),
        Err(HTTPIndexEnvironmentError::Fetch(HttpFetchError::BadHttpStatus { status: 404, .. }))
    ));
}

#[test]
fn documents_are_fetched_once_per_project() {
    let mut cache = VersionsCache::new();
    assert!(cache.cached("pkg:sysand/acme/dep").is_none());
    cache.store("pkg:sysand/acme/dep", None);
    assert!(matches!(cache.cached("pkg:sysand/acme/dep"), Some(None)));
    cache.store("pkg:sysand/acme/dep", Some(validated(&["1.0.0"])));
    assert!(matches!(cache.cached("pkg:sysand/acme/dep"), Some(None)));
    cache.store("urn:x", Some(validated(&["2.0.0", "1.0.0"])));
    match cache.cached("urn:x") {
        Some(Some(vs)) => assert_eq!(vs.len(), 2),
        _ => panic!("expected the stored document"),
    }
}

#[test]
fn a_fetched_document_is_requested_once_and_a_rejected_one_again() {
    let env = HTTPIndexEnvironmentAsync { base_url: url("https://example.com/index/") };
    let mut cache = VersionsCache::new();
    let target = cache.fetch_target(&env, "pkg:sysand/acme/dep").ok().unwrap().unwrap();
    assert_eq!(target.as_str(), "https://example.com/index/acme/dep/versions.json");

    let bad = VersionsJson { versions: vec![entry("1.0.0"), entry("1.0.0")] };
    assert!(matches!(
        cache.ingest("pkg:sysand/acme/dep", &target, Some(bad)),
        Err(HTTPIndexEnvironmentError::DuplicateVersion { .. })
    ));
    assert!(cache.fetch_target(&env, "pkg:sysand/acme/dep").ok().unwrap().is_some());

    let good = VersionsJson { versions: vec![entry("2.0.0"), entry("1.0.0")] };
    cache.ingest("pkg:sysand/acme/dep", &target, Some(good)).ok().unwrap();
    assert!(cache.fetch_target(&env, "pkg:sysand/acme/dep").ok().unwrap().is_none());
    match cache.cached("pkg:sysand/acme/dep") {
        Some(Some(vs)) => assert_eq!(vs.len(), 2),
        _ => panic!("expected the first valid answer"),
    }

    cache.ingest("urn:missing", &target, None).ok().unwrap();
    assert!(cache.fetch_target(&env, "urn:missing").ok().unwrap().is_none());
    assert!(matches!(cache.cached("urn:missing"), Some(None)));
}

#[test]
fn client_errors_read_as_messages() {
    let bad = VersionsJson { versions: vec![entry("1.0.0"), entry("1.0.0")] };
    let e = validate_versions(&url("https://example.com/v.json"), bad).err().unwrap();
    assert_eq!(e.message(), "versions.json at `https://example.com/v.json` lists version `1.0.0` more than once");
    let e = HTTPIndexEnvironmentError::Fetch(HttpFetchError::BadHttpStatus {
        url: "https://example.com/x".to_string(),
        status: 404,
    });
    assert_eq!(e.message(), "HTTP request to `https://example.com/x` returned status 404");
}
