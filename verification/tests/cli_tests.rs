use sysand::cli::{
    CloneVersionError, KparCompressionMethodCli, LogLevel, Metamodel, MetamodelKind,
    MetamodelVersion, ProjectLocator, choose_locator, config_file_for_compat, get_log_level,
    WorkspaceProject, indexes_disabled, no_deps, path_usage_hint, select_project_version, update_flags,
    workspace_alias_iris,
};
use sysand::credentials::{AuthRule, CredKind, CredentialError, classify, plan_credentials};
use sysand::error::{ErrorCode, SysandError};
use sysand::facade::KparCompressionMethod;

fn vars(pairs: &[(&str, &str)]) -> Vec<(String, String)> {
    pairs.iter().map(|(k, v)| (k.to_string(), v.to_string())).collect()
}

#[test]
fn log_levels() {
    assert_eq!(get_log_level(true, false), LogLevel::Debug);
    assert_eq!(get_log_level(false, true), LogLevel::Error);
    assert_eq!(get_log_level(false, false), LogLevel::Info);
}

#[test]
fn config_modes() {
    assert_eq!(config_file_for_compat("auto"), None);
    assert_eq!(config_file_for_compat("none"), None);
    assert_eq!(config_file_for_compat("my/sysand.toml"), Some("my/sysand.toml".to_string()));
}

#[test]
fn update_modes_and_flags() {
    assert_eq!(update_flags("manifest"), (true, true));
    assert_eq!(update_flags("lock"), (false, true));
    assert_eq!(update_flags("sync"), (false, false));
    assert!(no_deps("none"));
    assert!(!no_deps("all"));
    assert!(indexes_disabled("none"));
    assert!(!indexes_disabled("default"));
}

#[test]
fn compression_spellings() {
    assert_eq!(KparCompressionMethodCli::default(), KparCompressionMethodCli::Deflated);
    assert_eq!(KparCompressionMethodCli::Stored.to_method(), KparCompressionMethod::Stored);
    assert_eq!(
        KparCompressionMethodCli::from_method(KparCompressionMethod::Deflated),
        KparCompressionMethodCli::Deflated
    );
}

#[test]
fn metamodel_identifiers() {
    assert_eq!(MetamodelKind::SysML.as_str(), "https://www.omg.org/spec/SysML/");
    assert_eq!(MetamodelVersion::Release_20250201.as_str(), "20250201");
    assert_eq!(
        Metamodel(MetamodelKind::KerML, MetamodelVersion::Release_20250201).to_string(),
        "https://www.omg.org/spec/KerML/20250201"
    );
}

#[test]
fn clone_locators() {
    assert!(matches!(
        choose_locator(Some("pkg:sysand/acme/dep".to_string()), None, None),
        ProjectLocator::Iri(i) if i == "pkg:sysand/acme/dep"
    ));
    assert!(matches!(
        choose_locator(Some("some dir/with spaces".to_string()), None, None),
        ProjectLocator::Path(p) if p == "some dir/with spaces"
    ));
    assert!(matches!(
        choose_locator(None, None, Some("./proj".to_string())),
        ProjectLocator::Path(p) if p == "./proj"
    ));
    assert!(matches!(
        choose_locator(None, Some("urn:x:y".to_string()), None),
        ProjectLocator::Iri(i) if i == "urn:x:y"
    ));
}

#[test]
fn clone_picks_the_greatest_version() {
    let texts = vec![
        Some("1.0.0".to_string()),
        None,
        Some("2.0.0-rc.1".to_string()),
        Some("not semver".to_string()),
        Some("1.5.0".to_string()),
    ];
    let (i, v) = select_project_version("urn:x", None, &texts).ok().unwrap();
    assert_eq!(i, 2);
    assert_eq!(v.to_text(), "2.0.0-rc.1");
    let (i, _) = select_project_version("urn:x", Some("1.0.0"), &texts).ok().unwrap();
    assert_eq!(i, 0);
    assert!(matches!(
        select_project_version("urn:x", Some("3.0.0"), &texts),
        Err(CloneVersionError::MissingProjectVersion { iri, version }) if iri == "urn:x" && version == "3.0.0"
    ));
    assert!(matches!(
        select_project_version("urn:x", Some("3.0"), &texts),
        Err(CloneVersionError::InvalidRequested { .. })
    ));
    assert!(matches!(
        select_project_version("urn:x", None, &vec![None]),
        Err(CloneVersionError::MissingProject { iri }) if iri == "urn:x"
    ));
}

#[test]
fn clone_prefers_the_last_of_equal_versions() {
    let texts = vec![Some("1.0.0".to_string()), Some("1.0.0".to_string()), Some("0.1.0".to_string())];
    let (i, _) = select_project_version("urn:x", None, &texts).ok().unwrap();
    assert_eq!(i, 1);
}

#[test]
fn path_usage_failures_get_a_hint() {
    let e = SysandError::new(ErrorCode::FieldInvalid, "path usage `file:///x` not allowed");
    assert_eq!(
        path_usage_hint(&e),
        Some("path usage `file:///x` not allowed\nto build anyway, pass `--allow-path-usage`".to_string())
    );
    let other = SysandError::new(ErrorCode::BuildFailed, "path usage");
    assert_eq!(path_usage_hint(&other), None);
}

#[test]
fn credential_variables_are_classified() {
    assert!(matches!(classify("SYSAND_CRED_GH"), Some((CredKind::Pattern, n)) if n == "GH"));
    assert!(matches!(classify("SYSAND_CRED_GH_BASIC_USER"), Some((CredKind::BasicUser, n)) if n == "GH"));
    assert!(matches!(classify("SYSAND_CRED_GH_BASIC_PASS"), Some((CredKind::BasicPass, n)) if n == "GH"));
    assert!(matches!(classify("SYSAND_CRED_GH_BEARER_TOKEN"), Some((CredKind::BearerToken, n)) if n == "GH"));
    assert!(classify("PATH").is_none());
}

#[test]
fn credentials_become_rules() {
    let v = vars(&[
        ("SYSAND_CRED_GH", "https://github.com/*"),
        ("PATH", "/bin"),
        ("SYSAND_CRED_GH_BEARER_TOKEN", "tok"),
        ("SYSAND_CRED_CORP_BASIC_USER", "me"),
        ("SYSAND_CRED_CORP", "https://corp.example.com/**"),
        ("SYSAND_CRED_CORP_BASIC_PASS", "secret"),
    ]);
    let rules = plan_credentials(&v).ok().unwrap();
    assert_eq!(rules.len(), 2);
    assert!(matches!(&rules[0], AuthRule::Bearer { pattern, token } if pattern == "https://github.com/*" && token == "tok"));
    assert!(matches!(&rules[1], AuthRule::Basic { pattern, user, password }
        if pattern == "https://corp.example.com/**" && user == "me" && password == "secret"));
}

#[test]
fn later_variables_win() {
    let v = vars(&[
        ("SYSAND_CRED_A", "first"),
        ("SYSAND_CRED_A_BEARER_TOKEN", "t"),
        ("SYSAND_CRED_A", "second"),
    ]);
    let rules = plan_credentials(&v).ok().unwrap();
    assert!(matches!(&rules[0], AuthRule::Bearer { pattern, .. } if pattern == "second"));
}

#[test]
fn incomplete_credentials_are_refused() {
    assert!(matches!(
        plan_credentials(&vars(&[("SYSAND_CRED_A", "p")])),
        Err(CredentialError::NoScheme { name, pattern }) if name == "A" && pattern == "p"
    ));
    assert!(matches!(
        plan_credentials(&vars(&[("SYSAND_CRED_A", "p"), ("SYSAND_CRED_A_BASIC_USER", "u")])),
        Err(CredentialError::PartialBasic { name }) if name == "A"
    ));
    assert!(matches!(
        plan_credentials(&vars(&[("SYSAND_CRED_A_BEARER_TOKEN", "t")])),
        Err(CredentialError::MissingPattern { name }) if name == "A"
    ));
    assert!(plan_credentials(&vars(&[("HOME", "/root")])).ok().unwrap().is_empty());
}

#[test]
fn lock_uses_the_aliases_of_the_workspace_project_at_the_path() {
    let ws = vec![
        WorkspaceProject { path: "a".to_string(), iris: vec!["urn:x".to_string()] },
        WorkspaceProject { path: "b/c".to_string(), iris: vec!["urn:y".to_string(), "urn:z".to_string()] },
        WorkspaceProject { path: "b/c".to_string(), iris: vec!["urn:later".to_string()] },
    ];
    assert_eq!(
        workspace_alias_iris(Some(&ws), "b//c"),
        Some(vec!["urn:y".to_string(), "urn:z".to_string()])
    );
    assert_eq!(workspace_alias_iris(Some(&ws), "a"), Some(vec!["urn:x".to_string()]));
    assert_eq!(workspace_alias_iris(Some(&ws), "d"), None);
    assert_eq!(workspace_alias_iris(None, "a"), None);
}
