use sysand::http_index::iri_path_segments;
use sysand::index_store::{IndexJson, ProjectInfo, VersionsJson, add_release};

#[test]
fn index_init_creates_index_json() {
    let index = IndexJson::new();
    assert!(index.projects.is_empty());
}

#[test]
fn index_add_accepts_explicit_iri_for_existing_kpar() {
    let mut index = IndexJson::new();
    let mut versions = VersionsJson::new();
    let info = ProjectInfo {
        name: "Test Lib".to_string(),
        publisher: None,
        version: "0.1.0".to_string(),
        usage: vec![],
    };
    let iri = add_release(&mut index, &mut versions, &info, Some("urn:kpar:test-lib"), &vec![], b"zip", &"0".repeat(64))
        .ok()
        .unwrap();
    assert_eq!(iri, "urn:kpar:test-lib");
    assert_eq!(iri_path_segments(&iri)[0], "_iri");
    assert_eq!(index.projects[0].iri, "urn:kpar:test-lib");
    assert_eq!(versions.versions[0].version, "0.1.0");
}
