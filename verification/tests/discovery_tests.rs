use sysand::discovery::{
    DiscoveryError, DiscoveryField, HttpBaseUrlShapeError, IndexConfigRaw, ResolvedEndpoints,
    config_url, discovery_location, validate_http_base_url_shape,
};
use sysand::index_location::IndexLocation;
use sysand::url_model::ParsedUrl;

fn loc(s: &str) -> IndexLocation {
    IndexLocation::parse(s).ok().unwrap()
}

fn api(e: &ResolvedEndpoints) -> Option<String> {
    e.api_root.as_ref().map(|u| u.as_str().to_string())
}

#[test]
fn base_url_shapes() {
    let ok = ParsedUrl::parse("https://example.com/").ok().unwrap();
    assert!(validate_http_base_url_shape(&ok).is_ok());
    let ftp = ParsedUrl::parse("ftp://example.com/").ok().unwrap();
    assert_eq!(validate_http_base_url_shape(&ftp), Err(HttpBaseUrlShapeError::UnsupportedScheme));
    let user = ParsedUrl::parse("https://me@example.com/").ok().unwrap();
    assert_eq!(validate_http_base_url_shape(&user), Err(HttpBaseUrlShapeError::Userinfo));
}

#[test]
fn discovery_document_location() {
    let root = discovery_location(&loc("https://example.com/idx")).ok().unwrap();
    assert_eq!(
        config_url(&root).ok().unwrap().as_str(),
        "https://example.com/idx/sysand-index-config.json"
    );
    assert!(matches!(
        discovery_location(&loc("ftp://example.com/idx")),
        Err(DiscoveryError::UnsupportedScheme { field: DiscoveryField::DiscoveryRoot, .. })
    ));
    let template = discovery_location(&loc("https://example.com/files/{path}/raw")).ok().unwrap();
    assert_eq!(
        config_url(&template).ok().unwrap().as_str(),
        "https://example.com/files/sysand-index-config.json/raw"
    );
}

#[test]
fn without_a_document_the_roots_are_flat() {
    let root = discovery_location(&loc("https://example.com/idx")).ok().unwrap();
    let cfg = config_url(&root).ok().unwrap();
    let e = ResolvedEndpoints::from_config(&cfg, root, None).ok().unwrap();
    assert_eq!(e.index_root.to_string(), "https://example.com/idx/");
    assert_eq!(api(&e), Some("https://example.com/idx/".to_string()));

    let template = discovery_location(&loc("https://example.com/files/{path}/raw")).ok().unwrap();
    let e = ResolvedEndpoints::flat(template);
    assert!(e.api_root.is_none());
}

#[test]
fn a_document_moves_the_roots() {
    let root = discovery_location(&loc("https://example.com/idx")).ok().unwrap();
    let cfg = config_url(&root).ok().unwrap();
    let doc = IndexConfigRaw {
        index_root: Some("https://cdn.example.com/index".to_string()),
        api_root: Some("https://api.example.com".to_string()),
    };
    let e = ResolvedEndpoints::from_config(&cfg, root, Some(doc)).ok().unwrap();
    assert_eq!(e.index_root.to_string(), "https://cdn.example.com/index/");
    assert_eq!(api(&e), Some("https://api.example.com/".to_string()));
    assert_eq!(
        e.index_url().ok().unwrap().as_str(),
        "https://cdn.example.com/index/index.json"
    );
    assert_eq!(
        e.kpar_url("pkg:sysand/acme/dep", "1.0.0").ok().unwrap().as_str(),
        "https://cdn.example.com/index/acme/dep/1.0.0/project.kpar"
    );
    assert_eq!(
        e.versions_url("pkg:sysand/acme/dep").ok().unwrap().as_str(),
        "https://cdn.example.com/index/acme/dep/versions.json"
    );
}

#[test]
fn a_template_index_root_is_read_only_without_api_root() {
    let root = discovery_location(&loc("https://example.com/files/{path}/raw")).ok().unwrap();
    let cfg = config_url(&root).ok().unwrap();
    let doc = IndexConfigRaw { index_root: None, api_root: None };
    let e = ResolvedEndpoints::from_config(&cfg, root, Some(doc)).ok().unwrap();
    assert!(e.api_root.is_none());
    assert_eq!(
        e.project_json_url("pkg:sysand/acme/dep", "1.0.0").ok().unwrap().as_str(),
        "https://example.com/files/acme%2Fdep%2F1.0.0%2F.project.json/raw"
    );
}

#[test]
fn bad_document_fields() {
    let root = discovery_location(&loc("https://example.com/idx")).ok().unwrap();
    let cfg = config_url(&root).ok().unwrap();
    let doc = IndexConfigRaw { index_root: Some("/relative".to_string()), api_root: None };
    assert!(matches!(
        ResolvedEndpoints::from_config(&cfg, root.duplicate(), Some(doc)),
        Err(DiscoveryError::RelativeUrl { field: DiscoveryField::IndexRoot, value, .. }) if value == "/relative"
    ));
    let doc = IndexConfigRaw { index_root: None, api_root: Some("ftp://api.example.com".to_string()) };
    assert!(matches!(
        ResolvedEndpoints::from_config(&cfg, root.duplicate(), Some(doc)),
        Err(DiscoveryError::UnsupportedScheme { field: DiscoveryField::ApiRoot, .. })
    ));
    let doc = IndexConfigRaw { index_root: Some("https://x/{nope}".to_string()), api_root: None };
    assert!(matches!(
        ResolvedEndpoints::from_config(&cfg, root.duplicate(), Some(doc)),
        Err(DiscoveryError::InvalidLocation { field: DiscoveryField::IndexRoot, .. })
    ));
    let doc = IndexConfigRaw { index_root: Some("http://[::1".to_string()), api_root: None };
    assert!(matches!(
        ResolvedEndpoints::from_config(&cfg, root, Some(doc)),
        Err(DiscoveryError::InvalidUrl { field: DiscoveryField::IndexRoot, .. })
    ));
}

#[test]
fn discovery_errors_read_as_messages() {
    let root = discovery_location(&loc("https://example.com/idx")).ok().unwrap();
    let cfg = config_url(&root).ok().unwrap();
    let doc = IndexConfigRaw { index_root: None, api_root: Some("ftp://api.example.com".to_string()) };
    let e = ResolvedEndpoints::from_config(&cfg, root.duplicate(), Some(doc)).err().unwrap();
    assert_eq!(
        e.message(),
        "discovery document at `https://example.com/idx/sysand-index-config.json` supplied a non-HTTP(S) URL `ftp://api.example.com/` for `api_root`; only `http` and `https` are supported"
    );
}
