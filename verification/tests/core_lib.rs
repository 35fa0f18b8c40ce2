use sysand::error::{ErrorCode, SysandError, code_for_http_status};

#[test]
fn placeholder_test() {
    assert_eq!(1, 1);
}

#[test]
fn error_code_kebab_spelling() {
    assert_eq!(ErrorCode::ProjectNotFound.as_kebab_str(), "project-not-found");
    assert_eq!(ErrorCode::PathNotAWorkspace.as_kebab_str(), "path-not-a-workspace");
    assert_eq!(ErrorCode::UsageAlreadyExists.as_kebab_str(), "usage-already-exists");
    assert_eq!(ErrorCode::IoError.as_kebab_str(), "io-error");
    assert_eq!(ErrorCode::IriInvalid.as_kebab_str(), "iri-invalid");
    assert_eq!(ErrorCode::Internal.as_kebab_str(), "internal");
    assert_eq!(ErrorCode::LockStale.to_string(), "lock-stale");
}

#[test]
fn error_code_spellings_are_distinct() {
    let codes = [
        ErrorCode::ProjectNotFound,
        ErrorCode::WorkspaceNotFound,
        ErrorCode::PathNotFound,
        ErrorCode::PathNotAProject,
        ErrorCode::PathNotAWorkspace,
        ErrorCode::ConfigNotFound,
        ErrorCode::ConfigInvalid,
        ErrorCode::SchemaInvalid,
        ErrorCode::FieldRequired,
        ErrorCode::FieldInvalid,
        ErrorCode::VersionInvalid,
        ErrorCode::LicenseInvalid,
        ErrorCode::UsageNotFound,
        ErrorCode::UsageAlreadyExists,
        ErrorCode::UsageCycle,
        ErrorCode::EnvNotFound,
        ErrorCode::EnvCorrupted,
        ErrorCode::EnvConflict,
        ErrorCode::IndexUnreachable,
        ErrorCode::ProjectNotInIndex,
        ErrorCode::VersionNotInIndex,
        ErrorCode::BuildFailed,
        ErrorCode::LockStale,
        ErrorCode::ResolutionFailed,
        ErrorCode::IriInvalid,
        ErrorCode::AuthFailed,
        ErrorCode::IoError,
        ErrorCode::Internal,
    ];
    for (i, a) in codes.iter().enumerate() {
        for (j, b) in codes.iter().enumerate() {
            if i != j {
                assert_ne!(a.as_kebab_str(), b.as_kebab_str());
            }
        }
    }
}

#[test]
fn sysand_error_without_context() {
    let e = SysandError::new(ErrorCode::FieldRequired, "missing .meta.json");
    assert_eq!(e.code, ErrorCode::FieldRequired);
    assert_eq!(e.message, "missing .meta.json");
    assert!(e.context.is_none());
    assert_eq!(e.to_string(), "[field-required] missing .meta.json");
}

#[test]
fn sysand_error_with_context() {
    let e = SysandError::with_context(ErrorCode::EnvConflict, "project already exists", "/tmp/p");
    assert_eq!(e.context.as_deref(), Some("/tmp/p"));
    assert_eq!(e.to_string(), "[env-conflict] project already exists (/tmp/p)");
}

#[test]
fn http_status_codes_map_to_error_codes() {
    assert_eq!(code_for_http_status(401), ErrorCode::AuthFailed);
    assert_eq!(code_for_http_status(403), ErrorCode::AuthFailed);
    assert_eq!(code_for_http_status(404), ErrorCode::ProjectNotInIndex);
    assert_eq!(code_for_http_status(400), ErrorCode::ProjectNotInIndex);
    assert_eq!(code_for_http_status(499), ErrorCode::ProjectNotInIndex);
    assert_eq!(code_for_http_status(500), ErrorCode::IndexUnreachable);
    assert_eq!(code_for_http_status(302), ErrorCode::IndexUnreachable);
}
