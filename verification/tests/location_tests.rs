use sysand::index_location::{
    IndexLocation, IndexLocationError, IndexUrlTemplate, PathEncoding, PlaceholderHint,
    ResolveUrlError, is_template_syntax, percent_encode, validate_placeholders,
};

fn root_href(s: &str) -> String {
    match IndexLocation::parse(s).ok().unwrap() {
        IndexLocation::Root(u) => u.as_str().to_string(),
        IndexLocation::Template(_) => panic!("expected a plain URL"),
    }
}

fn resolve(loc: &str, rel: &str) -> String {
    let l = IndexLocation::parse(loc).ok().unwrap();
    l.resolve(rel).ok().unwrap().as_str().to_string()
}

#[test]
fn plain_roots_get_a_trailing_slash() {
    assert_eq!(root_href("https://index.example.com/sysand"), "https://index.example.com/sysand/");
    assert_eq!(root_href("https://index.example.com/sysand/"), "https://index.example.com/sysand/");
    assert_eq!(root_href("https://index.example.com"), "https://index.example.com/");
}

#[test]
fn plain_roots_join_relative_paths() {
    assert_eq!(
        resolve("https://index.example.com/sysand", "index.json"),
        "https://index.example.com/sysand/index.json"
    );
    assert_eq!(
        resolve("https://index.example.com/sysand", "acme/dep/versions.json"),
        "https://index.example.com/sysand/acme/dep/versions.json"
    );
}

#[test]
fn path_placeholder_encodes_slashes() {
    assert_eq!(
        resolve(
            "https://gitlab.example.com/api/v4/projects/42/repository/files/{path}/raw?ref=main",
            "acme/dep/versions.json"
        ),
        "https://gitlab.example.com/api/v4/projects/42/repository/files/acme%2Fdep%2Fversions.json/raw?ref=main"
    );
}

#[test]
fn path_raw_placeholder_keeps_slashes() {
    assert_eq!(
        resolve("https://gitea.example.com/org/repo/raw/{path_raw}?ref=main", "acme/dep/1.0.0/project.kpar"),
        "https://gitea.example.com/org/repo/raw/acme/dep/1.0.0/project.kpar?ref=main"
    );
}

#[test]
fn encodings_of_paths() {
    assert_eq!(percent_encode("acme/dep"), "acme%2Fdep");
    assert_eq!(percent_encode("a b~c.d_e-f"), "a%20b~c.d_e-f");
    assert_eq!(percent_encode("é"), "%C3%A9");
    assert_eq!(PathEncoding::Raw.encode("a b/c d"), "a%20b/c%20d");
    assert_eq!(PathEncoding::Encoded.encode("a b/c d"), "a%20b%2Fc%20d");
    assert_eq!(PathEncoding::Encoded.placeholder(), "{path}");
    assert_eq!(PathEncoding::Raw.placeholder(), "{path_raw}");
    assert_eq!(PathEncoding::Raw.encode("plain"), PathEncoding::Encoded.encode("plain"));
}

#[test]
fn template_keeps_its_text() {
    let raw = "https://example.com/files/{path}/raw";
    let t = IndexUrlTemplate::parse(raw).ok().unwrap();
    assert_eq!(t.as_str(), raw);
    assert_eq!(t.to_string(), raw);
    let l = IndexLocation::parse(raw).ok().unwrap();
    assert!(l.as_root().is_none());
    assert_eq!(l.to_string(), raw);
}

#[test]
fn template_syntax_is_any_brace() {
    assert!(is_template_syntax("https://x/{path}"));
    assert!(is_template_syntax("https://x/}"));
    assert!(!is_template_syntax("https://x/path"));
}

#[test]
fn placeholder_errors() {
    assert!(matches!(
        validate_placeholders("https://x/{pat}"),
        Err(IndexLocationError::UnknownPlaceholder { placeholder, hint: PlaceholderHint::NoHint, .. }) if placeholder == "{pat}"
    ));
    assert!(matches!(
        validate_placeholders("https://x/{PATH}"),
        Err(IndexLocationError::UnknownPlaceholder { placeholder, hint: PlaceholderHint::Path, .. }) if placeholder == "{PATH}"
    ));
    assert!(matches!(
        validate_placeholders("https://x/{Path_Raw}"),
        Err(IndexLocationError::UnknownPlaceholder { hint: PlaceholderHint::PathRaw, .. })
    ));
    assert!(matches!(
        validate_placeholders("https://x/{path}/{path_raw}"),
        Err(IndexLocationError::PlaceholderCount { count: 2, .. })
    ));
    assert!(matches!(
        validate_placeholders("https://x/}{path}"),
        Err(IndexLocationError::StrayBrace { .. })
    ));
    assert!(matches!(validate_placeholders("https://x/{path"), Err(IndexLocationError::StrayBrace { .. })));
    assert!(matches!(validate_placeholders("https://x/{pa{th}"), Err(IndexLocationError::StrayBrace { .. })));
    assert!(matches!(validate_placeholders("https://x/{path}"), Ok(PathEncoding::Encoded)));
    assert!(matches!(validate_placeholders("https://x/{path_raw}"), Ok(PathEncoding::Raw)));
}

#[test]
fn template_shape_errors() {
    assert!(matches!(
        IndexLocation::parse("https://x/{path}#frag"),
        Err(IndexLocationError::Fragment { .. })
    ));
    assert!(matches!(
        IndexLocation::parse("/relative/{path}"),
        Err(IndexLocationError::RelativeTemplate { .. })
    ));
    assert!(matches!(
        IndexLocation::parse("ftp://example.com/{path}"),
        Err(IndexLocationError::UnsupportedScheme { scheme, .. }) if scheme == "ftp"
    ));
    assert!(matches!(
        IndexLocation::parse("https://user:pw@example.com/{path}"),
        Err(IndexLocationError::Userinfo { .. })
    ));
    assert!(matches!(
        IndexLocation::parse("https://{path}.example.com/"),
        Err(IndexLocationError::InvalidTemplate { .. })
    ));
}

#[test]
fn plain_url_errors() {
    assert!(matches!(
        IndexLocation::parse("https://example.com/files/%7Bpath%7D/raw"),
        Err(IndexLocationError::PreEncodedPlaceholder { .. })
    ));
    assert!(matches!(
        IndexLocation::parse("https://example.com/files/%7bPATH_RAW%7d/raw"),
        Err(IndexLocationError::PreEncodedPlaceholder { .. })
    ));
    assert!(matches!(
        IndexLocation::parse("relative/path"),
        Err(IndexLocationError::RelativeUrl { .. })
    ));
    assert!(matches!(
        IndexLocation::parse("http://[::1"),
        Err(IndexLocationError::InvalidUrl { .. })
    ));
}

#[test]
fn non_hierarchical_roots_cannot_resolve() {
    let l = IndexLocation::parse("mailto:someone@example.com").ok().unwrap();
    assert!(l.as_root().is_some());
    assert!(matches!(l.resolve("index.json"), Err(ResolveUrlError::NotABase { .. })));
}

#[test]
fn location_errors_read_as_messages() {
    let e = validate_placeholders("https://x/{PATH}").err().unwrap();
    assert_eq!(
        e.message(),
        "index URL template `https://x/{PATH}` contains unknown placeholder `{PATH}` (did you mean `{path}`?); supported placeholders: `{path}` (percent-encoded, `/` becomes `%2F`) and `{path_raw}` (literal `/` separators)"
    );
    let e = validate_placeholders("https://x/{path}/{path_raw}").err().unwrap();
    assert_eq!(
        e.message(),
        "index URL template `https://x/{path}/{path_raw}` must contain a `{path}` or `{path_raw}` placeholder exactly once, found 2 occurrences"
    );
}
