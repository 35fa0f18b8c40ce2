//! The error type of the library's public operations: a flat code and a
//! message, with optional context.

use vstd::prelude::*;

use crate::text::{chars_of, concat_chars, string_from_chars};

verus! {

/// The kind of a failure. Flat: no hierarchy. The same codes are used by
/// every binding; some spell them in kebab case (`project-not-found`).
#[derive(Debug, Clone, Copy, PartialEq, Eq, Hash, Structural)]
pub enum ErrorCode {
    // Discovery and paths
    ProjectNotFound,
    WorkspaceNotFound,
    PathNotFound,
    PathNotAProject,
    PathNotAWorkspace,
    // Configuration
    ConfigNotFound,
    ConfigInvalid,
    // Schema and validation
    SchemaInvalid,
    FieldRequired,
    FieldInvalid,
    VersionInvalid,
    LicenseInvalid,
    // Usages
    UsageNotFound,
    UsageAlreadyExists,
    UsageCycle,
    // Environments
    EnvNotFound,
    EnvCorrupted,
    EnvConflict,
    // Indexes and network
    IndexUnreachable,
    ProjectNotInIndex,
    VersionNotInIndex,
    // Builds
    BuildFailed,
    // Lockfiles
    LockStale,
    // Resolution
    ResolutionFailed,
    IriInvalid,
    // Authentication
    AuthFailed,
    // Generic
    IoError,
    Internal,
}

/// The kebab-case spelling of an error code.
pub open spec fn kebab_text(code: ErrorCode) -> Seq<char> {
    match code {
        ErrorCode::ProjectNotFound => seq!['p', 'r', 'o', 'j', 'e', 'c', 't', '-', 'n', 'o', 't', '-', 'f', 'o', 'u', 'n', 'd'],
        ErrorCode::WorkspaceNotFound => seq!['w', 'o', 'r', 'k', 's', 'p', 'a', 'c', 'e', '-', 'n', 'o', 't', '-', 'f', 'o', 'u', 'n', 'd'],
        ErrorCode::PathNotFound => seq!['p', 'a', 't', 'h', '-', 'n', 'o', 't', '-', 'f', 'o', 'u', 'n', 'd'],
        ErrorCode::PathNotAProject => seq!['p', 'a', 't', 'h', '-', 'n', 'o', 't', '-', 'a', '-', 'p', 'r', 'o', 'j', 'e', 'c', 't'],
        ErrorCode::PathNotAWorkspace => seq!['p', 'a', 't', 'h', '-', 'n', 'o', 't', '-', 'a', '-', 'w', 'o', 'r', 'k', 's', 'p', 'a', 'c', 'e'],
        ErrorCode::ConfigNotFound => seq!['c', 'o', 'n', 'f', 'i', 'g', '-', 'n', 'o', 't', '-', 'f', 'o', 'u', 'n', 'd'],
        ErrorCode::ConfigInvalid => seq!['c', 'o', 'n', 'f', 'i', 'g', '-', 'i', 'n', 'v', 'a', 'l', 'i', 'd'],
        ErrorCode::SchemaInvalid => seq!['s', 'c', 'h', 'e', 'm', 'a', '-', 'i', 'n', 'v', 'a', 'l', 'i', 'd'],
        ErrorCode::FieldRequired => seq!['f', 'i', 'e', 'l', 'd', '-', 'r', 'e', 'q', 'u', 'i', 'r', 'e', 'd'],
        ErrorCode::FieldInvalid => seq!['f', 'i', 'e', 'l', 'd', '-', 'i', 'n', 'v', 'a', 'l', 'i', 'd'],
        ErrorCode::VersionInvalid => seq!['v', 'e', 'r', 's', 'i', 'o', 'n', '-', 'i', 'n', 'v', 'a', 'l', 'i', 'd'],
        ErrorCode::LicenseInvalid => seq!['l', 'i', 'c', 'e', 'n', 's', 'e', '-', 'i', 'n', 'v', 'a', 'l', 'i', 'd'],
        ErrorCode::UsageNotFound => seq!['u', 's', 'a', 'g', 'e', '-', 'n', 'o', 't', '-', 'f', 'o', 'u', 'n', 'd'],
        ErrorCode::UsageAlreadyExists => seq!['u', 's', 'a', 'g', 'e', '-', 'a', 'l', 'r', 'e', 'a', 'd', 'y', '-', 'e', 'x', 'i', 's', 't', 's'],
        ErrorCode::UsageCycle => seq!['u', 's', 'a', 'g', 'e', '-', 'c', 'y', 'c', 'l', 'e'],
        ErrorCode::EnvNotFound => seq!['e', 'n', 'v', '-', 'n', 'o', 't', '-', 'f', 'o', 'u', 'n', 'd'],
        ErrorCode::EnvCorrupted => seq!['e', 'n', 'v', '-', 'c', 'o', 'r', 'r', 'u', 'p', 't', 'e', 'd'],
        ErrorCode::EnvConflict => seq!['e', 'n', 'v', '-', 'c', 'o', 'n', 'f', 'l', 'i', 'c', 't'],
        ErrorCode::IndexUnreachable => seq!['i', 'n', 'd', 'e', 'x', '-', 'u', 'n', 'r', 'e', 'a', 'c', 'h', 'a', 'b', 'l', 'e'],
        ErrorCode::ProjectNotInIndex => seq!['p', 'r', 'o', 'j', 'e', 'c', 't', '-', 'n', 'o', 't', '-', 'i', 'n', '-', 'i', 'n', 'd', 'e', 'x'],
        ErrorCode::VersionNotInIndex => seq!['v', 'e', 'r', 's', 'i', 'o', 'n', '-', 'n', 'o', 't', '-', 'i', 'n', '-', 'i', 'n', 'd', 'e', 'x'],
        ErrorCode::BuildFailed => seq!['b', 'u', 'i', 'l', 'd', '-', 'f', 'a', 'i', 'l', 'e', 'd'],
        ErrorCode::LockStale => seq!['l', 'o', 'c', 'k', '-', 's', 't', 'a', 'l', 'e'],
        ErrorCode::ResolutionFailed => seq!['r', 'e', 's', 'o', 'l', 'u', 't', 'i', 'o', 'n', '-', 'f', 'a', 'i', 'l', 'e', 'd'],
        ErrorCode::IriInvalid => seq!['i', 'r', 'i', '-', 'i', 'n', 'v', 'a', 'l', 'i', 'd'],
        ErrorCode::AuthFailed => seq!['a', 'u', 't', 'h', '-', 'f', 'a', 'i', 'l', 'e', 'd'],
        ErrorCode::IoError => seq!['i', 'o', '-', 'e', 'r', 'r', 'o', 'r'],
        ErrorCode::Internal => seq!['i', 'n', 't', 'e', 'r', 'n', 'a', 'l'],
    }
}

/// The error code a kebab-case spelling names, if any.
pub open spec fn code_of_kebab(s: Seq<char>) -> Option<ErrorCode> {
    if s == kebab_text(ErrorCode::ProjectNotFound) {
        Some(ErrorCode::ProjectNotFound)
    } else if s == kebab_text(ErrorCode::WorkspaceNotFound) {
        Some(ErrorCode::WorkspaceNotFound)
    } else if s == kebab_text(ErrorCode::PathNotFound) {
        Some(ErrorCode::PathNotFound)
    } else if s == kebab_text(ErrorCode::PathNotAProject) {
        Some(ErrorCode::PathNotAProject)
    } else if s == kebab_text(ErrorCode::PathNotAWorkspace) {
        Some(ErrorCode::PathNotAWorkspace)
    } else if s == kebab_text(ErrorCode::ConfigNotFound) {
        Some(ErrorCode::ConfigNotFound)
    } else if s == kebab_text(ErrorCode::ConfigInvalid) {
        Some(ErrorCode::ConfigInvalid)
    } else if s == kebab_text(ErrorCode::SchemaInvalid) {
        Some(ErrorCode::SchemaInvalid)
    } else if s == kebab_text(ErrorCode::FieldRequired) {
        Some(ErrorCode::FieldRequired)
    } else if s == kebab_text(ErrorCode::FieldInvalid) {
        Some(ErrorCode::FieldInvalid)
    } else if s == kebab_text(ErrorCode::VersionInvalid) {
        Some(ErrorCode::VersionInvalid)
    } else if s == kebab_text(ErrorCode::LicenseInvalid) {
        Some(ErrorCode::LicenseInvalid)
    } else if s == kebab_text(ErrorCode::UsageNotFound) {
        Some(ErrorCode::UsageNotFound)
    } else if s == kebab_text(ErrorCode::UsageAlreadyExists) {
        Some(ErrorCode::UsageAlreadyExists)
    } else if s == kebab_text(ErrorCode::UsageCycle) {
        Some(ErrorCode::UsageCycle)
    } else if s == kebab_text(ErrorCode::EnvNotFound) {
        Some(ErrorCode::EnvNotFound)
    } else if s == kebab_text(ErrorCode::EnvCorrupted) {
        Some(ErrorCode::EnvCorrupted)
    } else if s == kebab_text(ErrorCode::EnvConflict) {
        Some(ErrorCode::EnvConflict)
    } else if s == kebab_text(ErrorCode::IndexUnreachable) {
        Some(ErrorCode::IndexUnreachable)
    } else if s == kebab_text(ErrorCode::ProjectNotInIndex) {
        Some(ErrorCode::ProjectNotInIndex)
    } else if s == kebab_text(ErrorCode::VersionNotInIndex) {
        Some(ErrorCode::VersionNotInIndex)
    } else if s == kebab_text(ErrorCode::BuildFailed) {
        Some(ErrorCode::BuildFailed)
    } else if s == kebab_text(ErrorCode::LockStale) {
        Some(ErrorCode::LockStale)
    } else if s == kebab_text(ErrorCode::ResolutionFailed) {
        Some(ErrorCode::ResolutionFailed)
    } else if s == kebab_text(ErrorCode::IriInvalid) {
        Some(ErrorCode::IriInvalid)
    } else if s == kebab_text(ErrorCode::AuthFailed) {
        Some(ErrorCode::AuthFailed)
    } else if s == kebab_text(ErrorCode::IoError) {
        Some(ErrorCode::IoError)
    } else if s == kebab_text(ErrorCode::Internal) {
        Some(ErrorCode::Internal)
    } else {
        None
    }
}

/// Every code is read back from its kebab-case spelling, so distinct codes
/// have distinct spellings on every binding surface.
#[verifier::rlimit(50)]
pub proof fn lemma_kebab_round_trip(code: ErrorCode)
    ensures
        code_of_kebab(kebab_text(code)) == Some(code),
{
}

impl ErrorCode {
    /// The kebab-case spelling of the code (`project-not-found`).
    pub fn as_kebab_str(self) -> (r: &'static str)
        ensures
            r@ == kebab_text(self),
    {
        match self {
            ErrorCode::ProjectNotFound => {
                proof {
                    reveal_strlit("project-not-found");
                    assert("project-not-found"@ =~= kebab_text(self));
                }
                "project-not-found"
            },
            ErrorCode::WorkspaceNotFound => {
                proof {
                    reveal_strlit("workspace-not-found");
                    assert("workspace-not-found"@ =~= kebab_text(self));
                }
                "workspace-not-found"
            },
            ErrorCode::PathNotFound => {
                proof {
                    reveal_strlit("path-not-found");
                    assert("path-not-found"@ =~= kebab_text(self));
                }
                "path-not-found"
            },
            ErrorCode::PathNotAProject => {
                proof {
                    reveal_strlit("path-not-a-project");
                    assert("path-not-a-project"@ =~= kebab_text(self));
                }
                "path-not-a-project"
            },
            ErrorCode::PathNotAWorkspace => {
                proof {
                    reveal_strlit("path-not-a-workspace");
                    assert("path-not-a-workspace"@ =~= kebab_text(self));
                }
                "path-not-a-workspace"
            },
            ErrorCode::ConfigNotFound => {
                proof {
                    reveal_strlit("config-not-found");
                    assert("config-not-found"@ =~= kebab_text(self));
                }
                "config-not-found"
            },
            ErrorCode::ConfigInvalid => {
                proof {
                    reveal_strlit("config-invalid");
                    assert("config-invalid"@ =~= kebab_text(self));
                }
                "config-invalid"
            },
            ErrorCode::SchemaInvalid => {
                proof {
                    reveal_strlit("schema-invalid");
                    assert("schema-invalid"@ =~= kebab_text(self));
                }
                "schema-invalid"
            },
            ErrorCode::FieldRequired => {
                proof {
                    reveal_strlit("field-required");
                    assert("field-required"@ =~= kebab_text(self));
                }
                "field-required"
            },
            ErrorCode::FieldInvalid => {
                proof {
                    reveal_strlit("field-invalid");
                    assert("field-invalid"@ =~= kebab_text(self));
                }
                "field-invalid"
            },
            ErrorCode::VersionInvalid => {
                proof {
                    reveal_strlit("version-invalid");
                    assert("version-invalid"@ =~= kebab_text(self));
                }
                "version-invalid"
            },
            ErrorCode::LicenseInvalid => {
                proof {
                    reveal_strlit("license-invalid");
                    assert("license-invalid"@ =~= kebab_text(self));
                }
                "license-invalid"
            },
            ErrorCode::UsageNotFound => {
                proof {
                    reveal_strlit("usage-not-found");
                    assert("usage-not-found"@ =~= kebab_text(self));
                }
                "usage-not-found"
            },
            ErrorCode::UsageAlreadyExists => {
                proof {
                    reveal_strlit("usage-already-exists");
                    assert("usage-already-exists"@ =~= kebab_text(self));
                }
                "usage-already-exists"
            },
            ErrorCode::UsageCycle => {
                proof {
                    reveal_strlit("usage-cycle");
                    assert("usage-cycle"@ =~= kebab_text(self));
                }
                "usage-cycle"
            },
            ErrorCode::EnvNotFound => {
                proof {
                    reveal_strlit("env-not-found");
                    assert("env-not-found"@ =~= kebab_text(self));
                }
                "env-not-found"
            },
            ErrorCode::EnvCorrupted => {
                proof {
                    reveal_strlit("env-corrupted");
                    assert("env-corrupted"@ =~= kebab_text(self));
                }
                "env-corrupted"
            },
            ErrorCode::EnvConflict => {
                proof {
                    reveal_strlit("env-conflict");
                    assert("env-conflict"@ =~= kebab_text(self));
                }
                "env-conflict"
            },
            ErrorCode::IndexUnreachable => {
                proof {
                    reveal_strlit("index-unreachable");
                    assert("index-unreachable"@ =~= kebab_text(self));
                }
                "index-unreachable"
            },
            ErrorCode::ProjectNotInIndex => {
                proof {
                    reveal_strlit("project-not-in-index");
                    assert("project-not-in-index"@ =~= kebab_text(self));
                }
                "project-not-in-index"
            },
            ErrorCode::VersionNotInIndex => {
                proof {
                    reveal_strlit("version-not-in-index");
                    assert("version-not-in-index"@ =~= kebab_text(self));
                }
                "version-not-in-index"
            },
            ErrorCode::BuildFailed => {
                proof {
                    reveal_strlit("build-failed");
                    assert("build-failed"@ =~= kebab_text(self));
                }
                "build-failed"
            },
            ErrorCode::LockStale => {
                proof {
                    reveal_strlit("lock-stale");
                    assert("lock-stale"@ =~= kebab_text(self));
                }
                "lock-stale"
            },
            ErrorCode::ResolutionFailed => {
                proof {
                    reveal_strlit("resolution-failed");
                    assert("resolution-failed"@ =~= kebab_text(self));
                }
                "resolution-failed"
            },
            ErrorCode::IriInvalid => {
                proof {
                    reveal_strlit("iri-invalid");
                    assert("iri-invalid"@ =~= kebab_text(self));
                }
                "iri-invalid"
            },
            ErrorCode::AuthFailed => {
                proof {
                    reveal_strlit("auth-failed");
                    assert("auth-failed"@ =~= kebab_text(self));
                }
                "auth-failed"
            },
            ErrorCode::IoError => {
                proof {
                    reveal_strlit("io-error");
                    assert("io-error"@ =~= kebab_text(self));
                }
                "io-error"
            },
            ErrorCode::Internal => {
                proof {
                    reveal_strlit("internal");
                    assert("internal"@ =~= kebab_text(self));
                }
                "internal"
            },
        }
    }

    /// The code as text, the same as its kebab-case spelling.
    pub fn to_string(self) -> (r: String)
        ensures
            r@ == kebab_text(self),
    {
        self.as_kebab_str().to_string()
    }
}

/// The error of every public operation: a code, a message, and optionally
/// the path, IRI or input it concerns.
pub struct SysandError {
    pub code: ErrorCode,
    pub message: String,
    pub context: Option<String>,
}

/// The plain content of a [`SysandError`].
pub struct SysandErrorView {
    pub code: ErrorCode,
    pub message: Seq<char>,
    pub context: Option<Seq<char>>,
}

impl View for SysandError {
    type V = SysandErrorView;

    open spec fn view(&self) -> SysandErrorView {
        SysandErrorView {
            code: self.code,
            message: self.message@,
            context: match self.context {
                Some(c) => Some(c@),
                None => None,
            },
        }
    }
}

/// How an error reads: `[code] message`, then ` (context)` when there is a
/// context.
pub open spec fn error_text(e: SysandErrorView) -> Seq<char> {
    let head = seq!['['] + kebab_text(e.code) + seq![']', ' '] + e.message;
    match e.context {
        Some(c) => head + seq![' ', '('] + c + seq![')'],
        None => head,
    }
}

impl SysandError {
    /// An error without context.
    pub fn new(code: ErrorCode, message: &str) -> (r: SysandError)
        ensures
            r@ == (SysandErrorView { code, message: message@, context: None }),
    {
        SysandError { code, message: message.to_string(), context: None }
    }

    /// An error about a given path, IRI or input.
    pub fn with_context(code: ErrorCode, message: &str, context: &str) -> (r: SysandError)
        ensures
            r@ == (SysandErrorView { code, message: message@, context: Some(context@) }),
    {
        SysandError { code, message: message.to_string(), context: Some(context.to_string()) }
    }

    /// The error as text: `[code] message`, then ` (context)` when there is
    /// a context.
    pub fn to_string(&self) -> (r: String)
        ensures
            r@ == error_text(self@),
    {
        let mut out: Vec<char> = Vec::new();
        out.push('[');
        let out = concat_chars(&out, &chars_of(self.code.as_kebab_str()));
        let mut out = out;
        out.push(']');
        out.push(' ');
        let mut out = concat_chars(&out, &chars_of(self.message.as_str()));
        let ghost head = out@;
        assert(head =~= seq!['['] + kebab_text(self.code) + seq![']', ' '] + self.message@);
        match &self.context {
            Some(c) => {
                out.push(' ');
                out.push('(');
                let mut out = concat_chars(&out, &chars_of(c.as_str()));
                out.push(')');
                assert(out@ =~= head + seq![' ', '('] + c@ + seq![')']);
                string_from_chars(out.as_slice())
            },
            None => string_from_chars(out.as_slice()),
        }
    }
}

/// The code for a refused HTTP download: 401 and 403 are authentication
/// failures, other client errors mean the project is not in the index, and
/// anything else means the index could not be reached.
pub open spec fn http_status_code_kind(status: u16) -> ErrorCode {
    if status == 401 || status == 403 {
        ErrorCode::AuthFailed
    } else if 400 <= status && status <= 499 {
        ErrorCode::ProjectNotInIndex
    } else {
        ErrorCode::IndexUnreachable
    }
}

/// The error code for a download answered with a non-success HTTP status.
pub fn code_for_http_status(status: u16) -> (r: ErrorCode)
    ensures
        r == http_status_code_kind(status),
{
    if status == 401 || status == 403 {
        ErrorCode::AuthFailed
    } else if 400 <= status && status <= 499 {
        ErrorCode::ProjectNotInIndex
    } else {
        ErrorCode::IndexUnreachable
    }
}

} // verus!
