use sysand::http_index::{VersionEntry as ReaderEntry, VersionsJson as ReaderVersionsJson, iri_path_segments, validate_versions};
use sysand::index_store::{
    IndexCommandError, IndexJson, IndexProject, ProjectInfo, ProjectStatus, UsageRaw, VersionEntry,
    VersionStatus, VersionsJson, add_release, infer_sysand_purl,
};
use sysand::url_model::ParsedUrl;

fn info(name: &str, publisher: Option<&str>, version: &str) -> ProjectInfo {
    ProjectInfo {
        name: name.to_string(),
        publisher: publisher.map(str::to_string),
        version: version.to_string(),
        usage: vec![],
    }
}

fn digest(c: char) -> String {
    format!("sha256:{}", c.to_string().repeat(64))
}

fn entry(version: &str) -> VersionEntry {
    VersionEntry {
        version: version.to_string(),
        usage: vec![],
        project_digest: digest('a'),
        kpar_size: 10,
        kpar_digest: digest('b'),
        status: VersionStatus::Available,
    }
}

/// Publishes `version` of `info` into the in-memory documents the way
/// `index add` does, returning the IRI.
fn publish(
    index: &mut IndexJson,
    versions: &mut VersionsJson,
    info: &ProjectInfo,
    explicit: Option<&str>,
) -> Result<String, IndexCommandError> {
    let checks: Vec<Option<String>> = info.usage.iter().map(|_| None).collect();
    add_release(index, versions, info, explicit, &checks, b"kpar bytes", &"a".repeat(64))
}

#[test]
fn init_writes_empty_index_json() {
    let index = IndexJson::new();
    assert!(index.projects.is_empty());
}

#[test]
fn add_infers_sysand_purl_and_writes_reader_compatible_versions_json() {
    let mut index = IndexJson::new();
    let mut versions = VersionsJson::new();
    let project = info("Project One", Some("Test Publisher"), "1.0.0");

    let iri = publish(&mut index, &mut versions, &project, None).unwrap();

    assert_eq!(iri, "pkg:sysand/test-publisher/project-one");
    assert_eq!(iri_path_segments(&iri), vec!["test-publisher", "project-one"]);
    let reader = ReaderVersionsJson {
        versions: versions
            .versions
            .iter()
            .map(|e| ReaderEntry {
                version: e.version.clone(),
                usage: vec![],
                project_digest: e.project_digest.clone(),
                kpar_size: e.kpar_size,
                kpar_digest: e.kpar_digest.clone(),
            })
            .collect(),
    };
    let url = ParsedUrl::parse("https://example.com/versions.json").ok().unwrap();
    let parsed = validate_versions(&url, reader).ok().unwrap();
    assert_eq!(parsed.len(), 1);
    assert_eq!(parsed[0].version.to_text(), "1.0.0");
    assert_eq!(index.projects.len(), 1);
    assert_eq!(index.projects[0].status, ProjectStatus::Available);
    assert_eq!(versions.versions[0].kpar_size, 10);
    assert_eq!(
        versions.versions[0].kpar_digest,
        "sha256:b710a8ab02ed054ded5ce87f85be719ed6d830a360dae2ff3c7be19a1c21b319"
    );
    assert_eq!(versions.versions[0].project_digest, format!("sha256:{}", "a".repeat(64)));
}

#[test]
fn add_accepts_explicit_arbitrary_iri() {
    let mut index = IndexJson::new();
    let mut versions = VersionsJson::new();
    let project = info("Project One", Some("Test Publisher"), "1.0.0");

    let iri = publish(&mut index, &mut versions, &project, Some("https://example.com/project.kpar"))
        .unwrap();

    assert_eq!(iri, "https://example.com/project.kpar");
    let segments = iri_path_segments(&iri);
    assert_eq!(segments[0], "_iri");
    assert_eq!(segments[1].len(), 64);
}

#[test]
fn add_rejects_duplicate_version_before_overwriting_release_files() {
    let mut index = IndexJson::new();
    let mut versions = VersionsJson::new();
    let project = info("Project One", Some("Test Publisher"), "1.0.0");
    publish(&mut index, &mut versions, &project, None).unwrap();

    let err = publish(&mut index, &mut versions, &project, None).err().unwrap();

    assert!(matches!(err, IndexCommandError::DuplicateVersion { .. }));
    assert_eq!(versions.versions.len(), 1);
}

#[test]
fn add_sorts_versions_by_semver_precedence() {
    let mut index = IndexJson::new();
    let mut versions = VersionsJson::new();
    let beta = info("Project One", Some("Test Publisher"), "10.0.0-beta.1");
    let release = info("Project One", Some("Test Publisher"), "10.0.0");

    publish(&mut index, &mut versions, &beta, None).unwrap();
    publish(&mut index, &mut versions, &release, None).unwrap();

    assert_eq!(versions.versions[0].version, "10.0.0");
    assert_eq!(versions.versions[1].version, "10.0.0-beta.1");
}

#[test]
fn yank_marks_version_and_keeps_release_files() {
    let mut index = IndexJson::new();
    let mut versions = VersionsJson::new();
    let project = info("Project One", Some("Test Publisher"), "1.0.0");
    let iri = publish(&mut index, &mut versions, &project, None).unwrap();

    versions.yank(&iri, "1.0.0").unwrap();

    assert_eq!(versions.versions[0].status, VersionStatus::Yanked);
    versions.yank(&iri, "1.0.0").unwrap();
    assert_eq!(versions.versions[0].status, VersionStatus::Yanked);
}

#[test]
fn remove_version_marks_removed_and_deletes_release_files() {
    let mut index = IndexJson::new();
    let mut versions = VersionsJson::new();
    let project = info("Project One", Some("Test Publisher"), "1.0.0");
    let iri = publish(&mut index, &mut versions, &project, None).unwrap();

    let dir = versions.remove_version(&iri, "1.0.0").ok().unwrap();

    assert_eq!(dir, "1.0.0");
    assert_eq!(versions.versions[0].status, VersionStatus::Removed);
    assert!(matches!(
        versions.yank(&iri, "1.0.0"),
        Err(IndexCommandError::VersionRemoved { .. })
    ));
}

#[test]
fn remove_project_cascades_versions_and_marks_project_removed() {
    let mut index = IndexJson::new();
    let mut versions = VersionsJson::new();
    let v1 = info("Project One", Some("Test Publisher"), "1.0.0");
    let v2 = info("Project One", Some("Test Publisher"), "2.0.0");
    let iri = publish(&mut index, &mut versions, &v1, None).unwrap();
    publish(&mut index, &mut versions, &v2, None).unwrap();

    index.mark_removed(&iri).unwrap();
    let dirs = versions.remove_all();

    assert_eq!(index.projects[0].status, ProjectStatus::Removed);
    assert_eq!(versions.versions[0].version, "2.0.0");
    assert_eq!(versions.versions[0].status, VersionStatus::Removed);
    assert_eq!(versions.versions[1].status, VersionStatus::Removed);
    assert_eq!(dirs, vec!["2.0.0".to_string(), "1.0.0".to_string()]);
}

#[test]
fn removed_project_refuses_new_releases() {
    let mut index = IndexJson::new();
    let mut versions = VersionsJson::new();
    let v1 = info("Project One", Some("Test Publisher"), "1.0.0");
    let iri = publish(&mut index, &mut versions, &v1, None).unwrap();
    index.mark_removed(&iri).unwrap();

    let v2 = info("Project One", Some("Test Publisher"), "2.0.0");
    let err = publish(&mut index, &mut versions, &v2, None).err().unwrap();

    assert!(matches!(err, IndexCommandError::ProjectRemoved { .. }));
}

#[test]
fn inference_needs_a_valid_publisher_and_name() {
    assert!(matches!(
        infer_sysand_purl(&info("Project One", None, "1.0.0")),
        Err(IndexCommandError::MissingPublisher)
    ));
    assert!(matches!(
        infer_sysand_purl(&info("Project One", Some("x"), "1.0.0")),
        Err(IndexCommandError::InvalidPublisher(_))
    ));
    assert!(matches!(
        infer_sysand_purl(&info("P", Some("Test Publisher"), "1.0.0")),
        Err(IndexCommandError::InvalidName(_))
    ));
}

#[test]
fn versions_with_build_metadata_are_refused() {
    let mut index = IndexJson::new();
    let mut versions = VersionsJson::new();
    let project = info("Project One", Some("Test Publisher"), "1.0.0+build");
    assert!(matches!(
        publish(&mut index, &mut versions, &project, None),
        Err(IndexCommandError::VersionBuildMetadata { .. })
    ));
    let project = info("Project One", Some("Test Publisher"), "not-a-version");
    assert!(matches!(
        publish(&mut index, &mut versions, &project, None),
        Err(IndexCommandError::InvalidVersion { .. })
    ));
}

#[test]
fn existing_documents_must_be_newest_first() {
    let mut versions = VersionsJson::new();
    versions.versions.push(entry("1.0.0"));
    versions.versions.push(entry("2.0.0"));
    assert!(matches!(
        versions.validate_existing(),
        Err(IndexCommandError::VersionsOutOfOrder { .. })
    ));
    versions.sort_newest_first().unwrap();
    assert_eq!(versions.versions[0].version, "2.0.0");
    assert!(versions.validate_existing().is_ok());
}

#[test]
fn every_written_versions_json_reads_back_in_order() {
    let mut index = IndexJson::new();
    let mut versions = VersionsJson::new();
    for v in ["1.0.0", "2.0.0-rc.1", "0.3.0", "2.0.0"] {
        publish(&mut index, &mut versions, &info("Lib", Some("Acme"), v), None).unwrap();
    }
    versions.yank("pkg:sysand/acme/lib", "0.3.0").unwrap();
    versions.remove_version("pkg:sysand/acme/lib", "1.0.0").unwrap();
    let reader = ReaderVersionsJson {
        versions: versions
            .versions
            .iter()
            .map(|e| ReaderEntry {
                version: e.version.clone(),
                usage: vec![],
                project_digest: e.project_digest.clone(),
                kpar_size: e.kpar_size,
                kpar_digest: e.kpar_digest.clone(),
            })
            .collect(),
    };
    let url = ParsedUrl::parse("https://example.com/versions.json").ok().unwrap();
    let parsed = validate_versions(&url, reader).ok().unwrap();
    let texts: Vec<String> = parsed.iter().map(|a| a.version.to_text()).collect();
    assert_eq!(texts, vec!["2.0.0", "2.0.0-rc.1", "1.0.0", "0.3.0"]);
    assert_eq!(parsed[0].project_digest.as_hex(), "a".repeat(64));
    assert_eq!(
        parsed[0].kpar_digest.as_hex(),
        "b710a8ab02ed054ded5ce87f85be719ed6d830a360dae2ff3c7be19a1c21b319"
    );
}

#[test]
fn add_refuses_an_unsorted_existing_versions_json_and_changes_nothing() {
    let mut index = IndexJson::new();
    let mut versions = VersionsJson { versions: vec![entry("1.0.0"), entry("2.0.0")] };
    let err = publish(&mut index, &mut versions, &info("Lib", Some("Acme"), "3.0.0"), None)
        .err()
        .unwrap();
    assert!(matches!(
        err,
        IndexCommandError::VersionsOutOfOrder { ref previous, ref current }
            if previous == "1.0.0" && current == "2.0.0"
    ));
    assert!(index.projects.is_empty());
    let texts: Vec<&str> = versions.versions.iter().map(|e| e.version.as_str()).collect();
    assert_eq!(texts, vec!["1.0.0", "2.0.0"]);
}

#[test]
fn add_refuses_an_invalid_existing_entry_before_registering() {
    let mut index = IndexJson::new();
    let mut versions = VersionsJson { versions: vec![entry("not-a-version")] };
    let err = publish(&mut index, &mut versions, &info("Lib", Some("Acme"), "1.0.0"), None)
        .err()
        .unwrap();
    assert!(matches!(err, IndexCommandError::InvalidVersion { ref version, .. } if version == "not-a-version"));
    assert!(index.projects.is_empty());
    assert_eq!(versions.versions.len(), 1);
}

#[test]
fn add_refuses_a_release_with_an_invalid_usage() {
    let mut index = IndexJson::new();
    let mut versions = VersionsJson::new();
    let mut project = info("Lib", Some("Acme"), "1.0.0");
    project.usage = vec![
        UsageRaw { resource: "pkg:sysand/acme/ok".to_string(), version_constraint: None },
        UsageRaw { resource: "pkg:sysand/acme/bad".to_string(), version_constraint: Some("=>1".to_string()) },
    ];
    let checks = vec![None, Some("unexpected character '>'".to_string())];
    let err = add_release(&mut index, &mut versions, &project, None, &checks, b"kpar bytes", &"a".repeat(64))
        .err()
        .unwrap();
    assert!(matches!(
        err,
        IndexCommandError::InvalidUsage { ref resource, ref message }
            if resource == "pkg:sysand/acme/bad" && message == "unexpected character '>'"
    ));
    assert!(index.projects.is_empty());
    assert!(versions.versions.is_empty());
}

#[test]
fn add_to_a_removed_project_changes_nothing() {
    let mut index = IndexJson {
        projects: vec![IndexProject { iri: "pkg:sysand/acme/lib".to_string(), status: ProjectStatus::Removed }],
    };
    let mut versions = VersionsJson::new();
    let err = publish(&mut index, &mut versions, &info("Lib", Some("Acme"), "1.0.0"), None)
        .err()
        .unwrap();
    assert!(matches!(err, IndexCommandError::ProjectRemoved { ref iri } if iri == "pkg:sysand/acme/lib"));
    assert_eq!(index.projects.len(), 1);
    assert_eq!(index.projects[0].status, ProjectStatus::Removed);
    assert!(versions.versions.is_empty());
}

#[test]
fn index_errors_read_as_messages() {
    let e = IndexCommandError::VersionsOutOfOrder { previous: "1.0.0".to_string(), current: "2.0.0".to_string() };
    assert_eq!(e.message(), "versions.json is not in descending semver order: `1.0.0` precedes `2.0.0`");
    let e = IndexCommandError::DuplicateVersion { iri: "urn:x".to_string(), version: "1.0.0".to_string() };
    assert_eq!(e.message(), "version `1.0.0` of `urn:x` already exists in this index");
    assert_eq!(
        IndexCommandError::MissingPublisher.message(),
        "missing publisher in project info, required when `--iri` is not provided"
    );
    let e = IndexCommandError::InvalidUsage { resource: "urn:y".to_string(), message: "bad".to_string() };
    assert_eq!(e.message(), "usage of `urn:y` is invalid for an index: bad");
}
