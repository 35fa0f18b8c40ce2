use sysand::facade::remove;
use sysand::index_store::UsageRaw;
use sysand::bindings::{compression_from_option, language_from_option, parse_compression};
use sysand::error::ErrorCode;
use sysand::facade::{
    KparCompressionMethod, SymbolLanguage, add, check_local_version, compression_to_internal,
    InitRequest, add_to_manifest, check_init_version, check_install_iri, init, install_project,
    install_usage, list, select_candidate, source_add_settings,
};
use sysand::types::{
    ChecksumMode, Compression, DepsMode, IndexModeOption, IndexSymbols, InitOptions, Language,
    SourceAddOptions, UpdateMode, UsageAddOptions,
};

#[test]
fn option_defaults() {
    assert_eq!(UpdateMode::default(), UpdateMode::Sync);
    assert_eq!(DepsMode::default(), DepsMode::All);
    assert_eq!(IndexModeOption::default(), IndexModeOption::Default);
    assert_eq!(ChecksumMode::default(), ChecksumMode::NoChecksum);
    assert_eq!(IndexSymbols::default(), IndexSymbols::On);
    assert_eq!(Language::default(), Language::Auto);
    assert_eq!(Compression::default(), Compression::Deflated);
    let u = UsageAddOptions::default();
    assert_eq!(u.update, UpdateMode::Sync);
    assert!(!u.include_std);
}

#[test]
fn compressions_this_build_supports() {
    assert_eq!(compression_to_internal(Compression::Stored).ok(), Some(KparCompressionMethod::Stored));
    assert_eq!(compression_to_internal(Compression::Deflated).ok(), Some(KparCompressionMethod::Deflated));
    let e = compression_to_internal(Compression::Zstd).err().unwrap();
    assert_eq!(e.code, ErrorCode::FieldInvalid);
    assert_eq!(e.message, "zstd compression requires the kpar-zstd feature");
    let e = compression_to_internal(Compression::Bzip2).err().unwrap();
    assert_eq!(e.message, "bzip2 compression requires the kpar-bzip2 feature");
}

#[test]
fn source_settings() {
    let s = source_add_settings(SourceAddOptions::default());
    assert!(!s.compute_checksum);
    assert!(s.index_symbols);
    assert_eq!(s.force_format, None);
    let s = source_add_settings(SourceAddOptions {
        checksum: ChecksumMode::Sha256,
        index_symbols: IndexSymbols::Off,
        language: Language::Kerml,
    });
    assert!(s.compute_checksum);
    assert!(!s.index_symbols);
    assert_eq!(s.force_format, Some(SymbolLanguage::KerML));
}

#[test]
fn init_defaults() {
    let r = init(InitOptions::default());
    assert_eq!(r.name, "");
    assert_eq!(r.version, "0.0.1");
    assert!(!r.no_semver);
    assert!(r.no_spdx);
    let r = init(InitOptions {
        name: Some("demo".to_string()),
        publisher: Some("acme".to_string()),
        version: Some("1.2.3".to_string()),
        license: Some("MIT".to_string()),
        allow_non_spdx: true,
    });
    assert_eq!(r.name, "demo");
    assert_eq!(r.version, "1.2.3");
    assert_eq!(r.publisher.as_deref(), Some("acme"));
    assert!(!r.no_spdx);
}

#[test]
fn listing_and_adding() {
    let entries = list(vec![("urn:a".to_string(), Some("1.0.0".to_string())), ("urn:b".to_string(), None)]);
    assert_eq!(entries.len(), 2);
    assert_eq!(entries[0].iri, "urn:a");
    assert_eq!(entries[0].version.as_deref(), Some("1.0.0"));
    assert!(entries[1].version.is_none());
    let u = add("pkg:sysand/acme/dep", Some(">=1"));
    assert_eq!(u.resource, "pkg:sysand/acme/dep");
    assert_eq!(u.version_constraint.as_deref(), Some(">=1"));
    assert!(add("urn:x", None).version_constraint.is_none());
}

#[test]
fn candidate_selection() {
    let vs = vec![Some("0.5.0".to_string()), None, Some("1.2.0".to_string()), Some("1.3.0".to_string())];
    assert_eq!(select_candidate("urn:x", None, &vs).ok(), Some(3));
    assert_eq!(select_candidate("urn:x", Some(">=1"), &vs).ok(), Some(2));
    let e = select_candidate("urn:x", Some(">=2"), &vs).err().unwrap();
    assert_eq!(e.code, ErrorCode::VersionNotInIndex);
    assert_eq!(e.message, "no matching version found for `urn:x`");
    let e = select_candidate("urn:x", Some("not a req"), &vs).err().unwrap();
    assert_eq!(e.code, ErrorCode::VersionInvalid);
    let e = select_candidate("urn:y", None, &vec![]).err().unwrap();
    assert_eq!(e.message, "no matching version found for `urn:y`");
}

#[test]
fn latest_release_is_chosen_without_requirement() {
    let vs = vec![Some("2.0.0-rc.1".to_string()), Some("1.0.0".to_string())];
    assert_eq!(select_candidate("urn:x", None, &vs).ok(), Some(1));
    let vs = vec![Some("1.0.0".to_string()), Some("1.10.0".to_string()), Some("1.9.3".to_string())];
    assert_eq!(select_candidate("urn:x", None, &vs).ok(), Some(1));
    let vs = vec![Some("1.0.0".to_string()), Some("1.0.0".to_string())];
    assert_eq!(select_candidate("urn:x", None, &vs).ok(), Some(0));
    let vs = vec![Some("1.0.0-alpha".to_string()), Some("1.0.0-beta".to_string()), Some("junk".to_string())];
    assert_eq!(select_candidate("urn:x", None, &vs).ok(), Some(1));
    let vs = vec![None, Some("junk".to_string())];
    assert_eq!(select_candidate("urn:x", None, &vs).ok(), Some(0));
}

#[test]
fn local_version_checks() {
    assert!(check_local_version("/p", None, Some("1.0.0")).is_ok());
    assert!(check_local_version("/p", Some(">=2"), None).is_ok());
    assert!(check_local_version("/p", Some(">=2"), Some("junk")).is_ok());
    assert!(check_local_version("/p", Some(">=1"), Some("1.0.0")).is_ok());
    let e = check_local_version("/p", Some(">=2"), Some("1.0.0")).err().unwrap();
    assert_eq!(e.code, ErrorCode::VersionInvalid);
    assert_eq!(e.message, "project at `/p` has version `1.0.0` which does not match `>=2`");
    let e = check_local_version("/p", Some("=>2"), Some("1.0.0")).err().unwrap();
    assert_eq!(e.code, ErrorCode::VersionInvalid);
}

#[test]
fn binding_names() {
    assert_eq!(parse_compression("stored").ok(), Some(Compression::Stored));
    assert_eq!(parse_compression("Zstd").ok(), Some(Compression::Zstd));
    let e = parse_compression("lz4").err().unwrap();
    assert_eq!(e.code, ErrorCode::FieldInvalid);
    assert_eq!(e.message, "unknown compression: LZ4");
    assert_eq!(compression_from_option(None), Ok(Compression::Deflated));
    assert_eq!(compression_from_option(Some("XZ")), Ok(Compression::Xz));
    assert_eq!(compression_from_option(Some("Brotli")), Err("unknown compression: brotli".to_string()));
    assert_eq!(language_from_option(None), Ok(Language::Auto));
    assert_eq!(language_from_option(Some("kerml")), Ok(Language::Kerml));
    assert_eq!(language_from_option(Some("KerML")), Err("unknown language: KerML".to_string()));
}

#[test]
fn removing_usages() {
    let u = |r: &str| UsageRaw { resource: r.to_string(), version_constraint: None };
    let mut usages = vec![u("urn:a"), u("urn:b"), u("urn:a")];
    let removed = remove(&mut usages, "urn:a").ok().unwrap();
    assert_eq!(removed.len(), 2);
    assert_eq!(usages.len(), 1);
    assert_eq!(usages[0].resource, "urn:b");
    let e = remove(&mut usages, "urn:a").err().unwrap();
    assert_eq!(e.code, ErrorCode::UsageNotFound);
    assert_eq!(e.message, "usage not found");
    assert_eq!(e.context.as_deref(), Some("urn:a"));
    assert_eq!(usages.len(), 1);
}

#[test]
fn failed_installation_is_an_environment_conflict() {
    assert!(install_project(Ok(())).is_ok());
    let e = install_project(Err("project `urn:x` is already installed".to_string())).err().unwrap();
    assert_eq!(e.code, ErrorCode::EnvConflict);
    assert_eq!(e.message, "project `urn:x` is already installed");
    assert_eq!(e.context, None);
}

#[test]
fn install_checks_the_iri_then_the_requirement() {
    assert!(check_install_iri("pkg:sysand/acme/lib").is_ok());
    let e = check_install_iri("not an iri").err().unwrap();
    assert_eq!(e.code, ErrorCode::IriInvalid);
    assert_eq!(e.message, "unexpected character at index 3");
    let e = check_install_iri("urn:a b").err().unwrap();
    assert_eq!(e.code, ErrorCode::IriInvalid);
    assert_eq!(e.message, "unexpected character at index 5");

    let u = install_usage("urn:x", Some(">=1.0")).ok().unwrap();
    assert_eq!(u.resource, "urn:x");
    assert_eq!(u.version_constraint.as_deref(), Some(">=1.0"));
    assert!(install_usage("urn:x", None).ok().unwrap().version_constraint.is_none());
    assert_eq!(install_usage("urn:x", Some("=>1")).err().unwrap().code, ErrorCode::VersionInvalid);
    assert_eq!(install_usage("no iri", Some("=>1")).err().unwrap().code, ErrorCode::IriInvalid);
}

#[test]
fn init_refuses_a_version_that_is_not_semver() {
    let req = |version: &str, no_semver: bool| InitRequest {
        name: "p".to_string(),
        publisher: None,
        version: version.to_string(),
        no_semver,
        license: None,
        no_spdx: true,
    };
    assert!(check_init_version(&req("0.0.1", false)).is_ok());
    let e = check_init_version(&req("1.0", false)).err().unwrap();
    assert_eq!(e.code, ErrorCode::VersionInvalid);
    assert_eq!(e.context.as_deref(), Some("1.0"));
    assert_eq!(e.message, "unexpected end of input while parsing minor version number");
    assert!(check_init_version(&req("1.0", true)).is_ok());
}

#[test]
fn add_appends_a_new_usage_and_keeps_the_others() {
    let mut us = vec![UsageRaw { resource: "urn:a".to_string(), version_constraint: None }];
    assert!(add_to_manifest(&mut us, "urn:b", Some("^1")));
    assert_eq!(us.len(), 2);
    assert_eq!(us[0].resource, "urn:a");
    assert_eq!(us[1].resource, "urn:b");
    assert_eq!(us[1].version_constraint.as_deref(), Some("^1"));
    assert!(!add_to_manifest(&mut us, "urn:b", Some("^1")));
    assert_eq!(us.len(), 2);
    assert!(add_to_manifest(&mut us, "urn:b", None));
    assert_eq!(us.len(), 3);
}
