//! The documents of a sysand package index (`index.json` and the per-project
//! `versions.json`) and the rules by which publishing, yanking and removal
//! change them. Reading and writing the files is left to the caller.

use vstd::prelude::*;

use crate::purl::{
    FieldKind, PurlOutcome, SysandPurlError, is_alnum, is_separator,
    lemma_normalize_keeps_valid, normalized, parse_sysand_purl,
    pkg_sysand_parts, pkg_sysand_prefix, pkg_sysand_prefix_chars, purl_outcome,
    single_slash_at, valid_field,
};
use crate::http_index::{
    AdvertisedView, HttpIndexErrorView, VersionEntryView, digest_parse, entry_outcome,
    is_first_duplicate, is_hex_digit, is_lower_hex_digit, sha256_hex, sha256_prefix,
    validated_entries, versions_outcome,
};
use crate::text::{
    ascii_lowercase, chars_of, concat_chars, join_strs, joined, str_equal, str_views, string_from_chars,
};
use crate::versions::{
    SemVer, VersionView, compare_versions, parse_semver, semver_order, semver_parse, version_text,
};

verus! {

/// Whether a project listed in `index.json` is still offered.
#[derive(Clone, Copy, Debug, PartialEq, Eq, Structural)]
pub enum ProjectStatus {
    Available,
    Removed,
}

impl ProjectStatus {
    /// Available projects are written without a `status` field.
    pub fn is_available(&self) -> (r: bool)
        ensures
            r == (*self is Available),
    {
        matches!(self, ProjectStatus::Available)
    }
}

/// Whether a version listed in `versions.json` is offered, yanked (kept but
/// not to be chosen) or removed (its release files deleted).
#[derive(Clone, Copy, Debug, PartialEq, Eq, Structural)]
pub enum VersionStatus {
    Available,
    Yanked,
    Removed,
}

impl VersionStatus {
    /// Available versions are written without a `status` field.
    pub fn is_available(&self) -> (r: bool)
        ensures
            r == (*self is Available),
    {
        matches!(self, VersionStatus::Available)
    }
}

/// One project entry of `index.json`.
pub struct IndexProject {
    pub iri: String,
    pub status: ProjectStatus,
}

/// The `index.json` document: every project the index has ever listed.
pub struct IndexJson {
    pub projects: Vec<IndexProject>,
}

/// A usage (dependency) of a project as written in its manifest.
pub struct UsageRaw {
    pub resource: String,
    pub version_constraint: Option<String>,
}

/// One entry of `versions.json`.
pub struct VersionEntry {
    pub version: String,
    pub usage: Vec<UsageRaw>,
    pub project_digest: String,
    pub kpar_size: u64,
    pub kpar_digest: String,
    pub status: VersionStatus,
}

/// The `versions.json` document of one project, newest version first.
pub struct VersionsJson {
    pub versions: Vec<VersionEntry>,
}

/// Why an index operation was refused.
#[derive(Debug)]
pub enum IndexCommandError {
    AlreadyExists(String),
    KparNotFound(String),
    MissingInfo { path: String },
    MissingMeta { path: String },
    MissingPublisher,
    InvalidPublisher(String),
    InvalidName(String),
    MalformedSysandPurl(SysandPurlError),
    InvalidVersion { version: String, message: String },
    InvalidUsage { resource: String, message: String },
    VersionBuildMetadata { version: String },
    ProjectRemoved { iri: String },
    ProjectNotFound { iri: String },
    VersionNotFound { iri: String, version: String },
    VersionRemoved { iri: String, version: String },
    DuplicateVersion { iri: String, version: String },
    DuplicateExistingVersion { version: String },
    VersionsOutOfOrder { previous: String, current: String },
}

/// The plain content of an index error.
pub enum IndexErrorView {
    AlreadyExists(Seq<char>),
    KparNotFound(Seq<char>),
    MissingInfo { path: Seq<char> },
    MissingMeta { path: Seq<char> },
    MissingPublisher,
    InvalidPublisher(Seq<char>),
    InvalidName(Seq<char>),
    MalformedSysandPurl(PurlOutcome),
    InvalidVersion { version: Seq<char>, message: Seq<char> },
    InvalidUsage { resource: Seq<char>, message: Seq<char> },
    VersionBuildMetadata { version: Seq<char> },
    ProjectRemoved { iri: Seq<char> },
    ProjectNotFound { iri: Seq<char> },
    VersionNotFound { iri: Seq<char>, version: Seq<char> },
    VersionRemoved { iri: Seq<char>, version: Seq<char> },
    DuplicateVersion { iri: Seq<char>, version: Seq<char> },
    DuplicateExistingVersion { version: Seq<char> },
    VersionsOutOfOrder { previous: Seq<char>, current: Seq<char> },
}

/// The plain content of a sysand IRI error.
pub open spec fn purl_error_view(e: SysandPurlError) -> PurlOutcome {
    match e {
        SysandPurlError::SegmentCount => PurlOutcome::SegmentCount,
        SysandPurlError::InvalidPublisher(p) => PurlOutcome::InvalidPublisher(p@),
        SysandPurlError::InvalidName(n) => PurlOutcome::InvalidName(n@),
    }
}

impl View for IndexCommandError {
    type V = IndexErrorView;

    open spec fn view(&self) -> IndexErrorView {
        match self {
            IndexCommandError::AlreadyExists(p) => IndexErrorView::AlreadyExists(p@),
            IndexCommandError::KparNotFound(p) => IndexErrorView::KparNotFound(p@),
            IndexCommandError::MissingInfo { path } => IndexErrorView::MissingInfo { path: path@ },
            IndexCommandError::MissingMeta { path } => IndexErrorView::MissingMeta { path: path@ },
            IndexCommandError::MissingPublisher => IndexErrorView::MissingPublisher,
            IndexCommandError::InvalidPublisher(p) => IndexErrorView::InvalidPublisher(p@),
            IndexCommandError::InvalidName(n) => IndexErrorView::InvalidName(n@),
            IndexCommandError::MalformedSysandPurl(e) => IndexErrorView::MalformedSysandPurl(
                purl_error_view(*e),
            ),
            IndexCommandError::InvalidVersion { version, message } => IndexErrorView::InvalidVersion {
                version: version@,
                message: message@,
            },
            IndexCommandError::InvalidUsage { resource, message } => IndexErrorView::InvalidUsage {
                resource: resource@,
                message: message@,
            },
            IndexCommandError::VersionBuildMetadata { version } => IndexErrorView::VersionBuildMetadata {
                version: version@,
            },
            IndexCommandError::ProjectRemoved { iri } => IndexErrorView::ProjectRemoved { iri: iri@ },
            IndexCommandError::ProjectNotFound { iri } => IndexErrorView::ProjectNotFound { iri: iri@ },
            IndexCommandError::VersionNotFound { iri, version } => IndexErrorView::VersionNotFound {
                iri: iri@,
                version: version@,
            },
            IndexCommandError::VersionRemoved { iri, version } => IndexErrorView::VersionRemoved {
                iri: iri@,
                version: version@,
            },
            IndexCommandError::DuplicateVersion { iri, version } => IndexErrorView::DuplicateVersion {
                iri: iri@,
                version: version@,
            },
            IndexCommandError::DuplicateExistingVersion { version } => IndexErrorView::DuplicateExistingVersion {
                version: version@,
            },
            IndexCommandError::VersionsOutOfOrder { previous, current } => IndexErrorView::VersionsOutOfOrder {
                previous: previous@,
                current: current@,
            },
        }
    }
}

/// How the library describes a sysand identifier that does not parse.
pub open spec fn purl_error_text(o: PurlOutcome) -> Seq<char> {
    match o {
        PurlOutcome::InvalidPublisher(p) => joined(seq!["invalid publisher `"@, p, "`"@]),
        PurlOutcome::InvalidName(n) => joined(seq!["invalid name `"@, n, "`"@]),
        _ => "expected `pkg:sysand/<publisher>/<name>`"@,
    }
}

fn purl_error_message(e: &SysandPurlError) -> (r: String)
    ensures
        r@ == purl_error_text(purl_error_view(*e)),
{
    match e {
        SysandPurlError::SegmentCount => "expected `pkg:sysand/<publisher>/<name>`".to_string(),
        SysandPurlError::InvalidPublisher(p) => {
            let parts = vec!["invalid publisher `", p.as_str(), "`"];
            assert(str_views(parts@) =~= seq!["invalid publisher `"@, p@, "`"@]);
            join_strs(&parts)
        },
        SysandPurlError::InvalidName(n) => {
            let parts = vec!["invalid name `", n.as_str(), "`"];
            assert(str_views(parts@) =~= seq!["invalid name `"@, n@, "`"@]);
            join_strs(&parts)
        },
    }
}

/// The message of an index error, as the command line shows it.
pub open spec fn index_error_message(e: IndexErrorView) -> Seq<char> {
    match e {
        IndexErrorView::AlreadyExists(p) => joined(seq!["index file already exists at `"@, p, "`"@]),
        IndexErrorView::KparNotFound(p) => joined(seq!["KPAR file not found at `"@, p, "`"@]),
        IndexErrorView::MissingInfo { path } => joined(seq!["missing project info in KPAR file at `"@, path, "`"@]),
        IndexErrorView::MissingMeta { path } => joined(seq!["missing project metadata in KPAR file at `"@, path, "`"@]),
        IndexErrorView::MissingPublisher => joined(seq!["missing publisher in project info, required when `--iri` is not provided"@]),
        IndexErrorView::InvalidPublisher(p) => joined(seq!["publisher field `"@, p, "` cannot be converted to a valid `pkg:sysand` publisher"@]),
        IndexErrorView::InvalidName(n) => joined(seq!["name field `"@, n, "` cannot be converted to a valid `pkg:sysand` name"@]),
        IndexErrorView::InvalidVersion { version, message } => joined(seq!["version `"@, version, "` is invalid for an index: "@, message]),
        IndexErrorView::InvalidUsage { resource, message } => joined(seq!["usage of `"@, resource, "` is invalid for an index: "@, message]),
        IndexErrorView::VersionBuildMetadata { version } => joined(seq!["version `"@, version, "` is invalid for an index: build metadata (`+...`) is forbidden"@]),
        IndexErrorView::ProjectRemoved { iri } => joined(seq!["project `"@, iri, "` has already been removed from this index"@]),
        IndexErrorView::ProjectNotFound { iri } => joined(seq!["project `"@, iri, "` is not in this index"@]),
        IndexErrorView::VersionNotFound { iri, version } => joined(seq!["version `"@, version, "` of `"@, iri, "` is not in this index"@]),
        IndexErrorView::VersionRemoved { iri, version } => joined(seq!["version `"@, version, "` of `"@, iri, "` has already been removed"@]),
        IndexErrorView::DuplicateVersion { iri, version } => joined(seq!["version `"@, version, "` of `"@, iri, "` already exists in this index"@]),
        IndexErrorView::DuplicateExistingVersion { version } => joined(seq!["versions.json lists version `"@, version, "` more than once"@]),
        IndexErrorView::VersionsOutOfOrder { previous, current } => joined(seq!["versions.json is not in descending semver order: `"@, previous, "` precedes `"@, current, "`"@]),
        IndexErrorView::MalformedSysandPurl(o) => "malformed `pkg:sysand` IRI: "@ + purl_error_text(o),
    }
}

impl IndexCommandError {
    /// The error's message.
    pub fn message(&self) -> (r: String)
        ensures
            r@ == index_error_message(self@),
    {
        match self {
            IndexCommandError::AlreadyExists(p) => {
                let parts = vec!["index file already exists at `", p.as_str(), "`"];
                assert(str_views(parts@) =~= seq!["index file already exists at `"@, p@, "`"@]);
                join_strs(&parts)
            },
            IndexCommandError::KparNotFound(p) => {
                let parts = vec!["KPAR file not found at `", p.as_str(), "`"];
                assert(str_views(parts@) =~= seq!["KPAR file not found at `"@, p@, "`"@]);
                join_strs(&parts)
            },
            IndexCommandError::MissingInfo { path } => {
                let parts = vec!["missing project info in KPAR file at `", path.as_str(), "`"];
                assert(str_views(parts@) =~= seq!["missing project info in KPAR file at `"@, path@, "`"@]);
                join_strs(&parts)
            },
            IndexCommandError::MissingMeta { path } => {
                let parts = vec!["missing project metadata in KPAR file at `", path.as_str(), "`"];
                assert(str_views(parts@) =~= seq!["missing project metadata in KPAR file at `"@, path@, "`"@]);
                join_strs(&parts)
            },
            IndexCommandError::MissingPublisher => {
                let parts = vec!["missing publisher in project info, required when `--iri` is not provided"];
                assert(str_views(parts@) =~= seq!["missing publisher in project info, required when `--iri` is not provided"@]);
                join_strs(&parts)
            },
            IndexCommandError::InvalidPublisher(p) => {
                let parts = vec!["publisher field `", p.as_str(), "` cannot be converted to a valid `pkg:sysand` publisher"];
                assert(str_views(parts@) =~= seq!["publisher field `"@, p@, "` cannot be converted to a valid `pkg:sysand` publisher"@]);
                join_strs(&parts)
            },
            IndexCommandError::InvalidName(n) => {
                let parts = vec!["name field `", n.as_str(), "` cannot be converted to a valid `pkg:sysand` name"];
                assert(str_views(parts@) =~= seq!["name field `"@, n@, "` cannot be converted to a valid `pkg:sysand` name"@]);
                join_strs(&parts)
            },
            IndexCommandError::InvalidVersion { version, message } => {
                let parts = vec!["version `", version.as_str(), "` is invalid for an index: ", message.as_str()];
                assert(str_views(parts@) =~= seq!["version `"@, version@, "` is invalid for an index: "@, message@]);
                join_strs(&parts)
            },
            IndexCommandError::InvalidUsage { resource, message } => {
                let parts = vec!["usage of `", resource.as_str(), "` is invalid for an index: ", message.as_str()];
                assert(str_views(parts@) =~= seq!["usage of `"@, resource@, "` is invalid for an index: "@, message@]);
                join_strs(&parts)
            },
            IndexCommandError::VersionBuildMetadata { version } => {
                let parts = vec!["version `", version.as_str(), "` is invalid for an index: build metadata (`+...`) is forbidden"];
                assert(str_views(parts@) =~= seq!["version `"@, version@, "` is invalid for an index: build metadata (`+...`) is forbidden"@]);
                join_strs(&parts)
            },
            IndexCommandError::ProjectRemoved { iri } => {
                let parts = vec!["project `", iri.as_str(), "` has already been removed from this index"];
                assert(str_views(parts@) =~= seq!["project `"@, iri@, "` has already been removed from this index"@]);
                join_strs(&parts)
            },
            IndexCommandError::ProjectNotFound { iri } => {
                let parts = vec!["project `", iri.as_str(), "` is not in this index"];
                assert(str_views(parts@) =~= seq!["project `"@, iri@, "` is not in this index"@]);
                join_strs(&parts)
            },
            IndexCommandError::VersionNotFound { iri, version } => {
                let parts = vec!["version `", version.as_str(), "` of `", iri.as_str(), "` is not in this index"];
                assert(str_views(parts@) =~= seq!["version `"@, version@, "` of `"@, iri@, "` is not in this index"@]);
                join_strs(&parts)
            },
            IndexCommandError::VersionRemoved { iri, version } => {
                let parts = vec!["version `", version.as_str(), "` of `", iri.as_str(), "` has already been removed"];
                assert(str_views(parts@) =~= seq!["version `"@, version@, "` of `"@, iri@, "` has already been removed"@]);
                join_strs(&parts)
            },
            IndexCommandError::DuplicateVersion { iri, version } => {
                let parts = vec!["version `", version.as_str(), "` of `", iri.as_str(), "` already exists in this index"];
                assert(str_views(parts@) =~= seq!["version `"@, version@, "` of `"@, iri@, "` already exists in this index"@]);
                join_strs(&parts)
            },
            IndexCommandError::DuplicateExistingVersion { version } => {
                let parts = vec!["versions.json lists version `", version.as_str(), "` more than once"];
                assert(str_views(parts@) =~= seq!["versions.json lists version `"@, version@, "` more than once"@]);
                join_strs(&parts)
            },
            IndexCommandError::VersionsOutOfOrder { previous, current } => {
                let parts = vec!["versions.json is not in descending semver order: `", previous.as_str(), "` precedes `", current.as_str(), "`"];
                assert(str_views(parts@) =~= seq!["versions.json is not in descending semver order: `"@, previous@, "` precedes `"@, current@, "`"@]);
                join_strs(&parts)
            },
            IndexCommandError::MalformedSysandPurl(e) => {
                let mut out = String::new();
                out.append("malformed `pkg:sysand` IRI: ");
                let detail = purl_error_message(e);
                out.append(detail.as_str());
                out
            },
        }
    }
}

/// The version a text denotes in an index: a semantic version without
/// build metadata.
pub open spec fn index_version(s: Seq<char>) -> Option<VersionView> {
    match semver_parse(s) {
        Ok(v) => if v.build.len() == 0 { Some(v) } else { None },
        Err(_) => None,
    }
}

/// The error reported for a text that is not an index version.
pub open spec fn version_error(s: Seq<char>) -> IndexErrorView {
    match semver_parse(s) {
        Err(m) => IndexErrorView::InvalidVersion { version: s, message: m },
        Ok(_) => IndexErrorView::VersionBuildMetadata { version: s },
    }
}

/// Parses `version` as an index version: a semantic version (by the
/// `semver` crate) whose build metadata (`+...`) is empty.
pub fn parse_version(version: &str) -> (r: Result<SemVer, IndexCommandError>)
    ensures
        r matches Ok(v) ==> index_version(version@) == Some(v@) && canonical_text(v@) == version@,
        r matches Err(e) ==> index_version(version@) is None && e@ == version_error(version@),
{
    match parse_semver(version) {
        Err(message) => Err(
            IndexCommandError::InvalidVersion { version: version.to_owned(), message },
        ),
        Ok(v) => {
            if v.has_no_build() {
                Ok(v)
            } else {
                Err(IndexCommandError::VersionBuildMetadata { version: version.to_owned() })
            }
        },
    }
}

/// The version texts of a list of entries.
pub open spec fn version_texts(vs: Seq<VersionEntry>) -> Seq<Seq<char>> {
    Seq::new(vs.len(), |i: int| vs[i].version@)
}

/// What is wrong with the adjacent pair at `k`, `k + 1`, if anything: an
/// entry that is not an index version, or a pair not in strictly
/// descending order.
pub open spec fn window_problem(vs: Seq<Seq<char>>, k: int) -> Option<IndexErrorView> {
    if index_version(vs[k]) is None {
        Some(version_error(vs[k]))
    } else if index_version(vs[k + 1]) is None {
        Some(version_error(vs[k + 1]))
    } else if semver_order(index_version(vs[k])->0, index_version(vs[k + 1])->0) <= 0 {
        Some(IndexErrorView::VersionsOutOfOrder { previous: vs[k], current: vs[k + 1] })
    } else {
        None
    }
}

/// The outcome of checking the adjacent pairs from `k` on: the first
/// problem found, or success.
pub open spec fn order_check_from(vs: Seq<Seq<char>>, k: int) -> Option<IndexErrorView>
    decreases vs.len() - k,
{
    if k < 0 || k + 1 >= vs.len() {
        None
    } else {
        match window_problem(vs, k) {
            Some(e) => Some(e),
            None => order_check_from(vs, k + 1),
        }
    }
}

/// Every entry is an index version and each is strictly newer than the next.
pub open spec fn strictly_descending(vs: Seq<Seq<char>>) -> bool {
    &&& forall|i: int| 0 <= i < vs.len() ==> #[trigger] index_version(vs[i]) is Some
    &&& forall|i: int, j: int|
        0 <= i < j < vs.len() ==> semver_order(
            #[trigger] index_version(vs[i])->0,
            #[trigger] index_version(vs[j])->0,
        ) > 0
}

/// The version at position `m` of a list of index version texts.
pub open spec fn key_at(vs: Seq<Seq<char>>, m: int) -> VersionView {
    index_version(vs[m])->0
}

/// The entry at `m` is strictly newer than the one after it.
pub open spec fn newer_than_next(vs: Seq<Seq<char>>, m: int) -> bool {
    semver_order(key_at(vs, m), key_at(vs, m + 1)) > 0
}

/// The entry after `m` is strictly older than the one at `m`.
pub open spec fn older_than_previous(vs: Seq<Seq<char>>, m: int) -> bool {
    semver_order(key_at(vs, m + 1), key_at(vs, m)) < 0
}

/// Whatever the entry after `m` is at least as new as, the entry at `m` is
/// strictly newer than.
pub open spec fn dominates_through_next(vs: Seq<Seq<char>>, m: int, c: VersionView) -> bool {
    semver_order(key_at(vs, m + 1), c) >= 0 ==> semver_order(key_at(vs, m), c) > 0
}

proof fn lemma_order_check_ok_adjacent(vs: Seq<Seq<char>>, k: int, m: int)
    requires
        0 <= k,
        order_check_from(vs, k) is None,
        k <= m,
        m + 1 < vs.len(),
    ensures
        window_problem(vs, m) is None,
    decreases m - k,
{
    if k < m {
        lemma_order_check_ok_adjacent(vs, k + 1, m);
    }
}

impl VersionsJson {
    /// Checks that the entries are in strictly descending semantic-version
    /// order; reports the first adjacent pair that is not (or whose text is
    /// not an index version). Lists of fewer than two entries pass.
    pub fn validate_order(&self) -> (r: Result<(), IndexCommandError>)
        ensures
            r is Ok <==> order_check_from(version_texts(self.versions@), 0) is None,
            r matches Err(e) ==> order_check_from(version_texts(self.versions@), 0) == Some(e@),
            r is Ok && self.versions@.len() >= 2 ==> strictly_descending(
                version_texts(self.versions@),
            ),
            r is Ok ==> distinct_versions(version_texts(self.versions@)),
    {
        let ghost vs = version_texts(self.versions@);
        let n = self.versions.len();
        if n < 2 {
            return Ok(());
        }
        let mut k: usize = 0;
        while k + 1 < n
            invariant
                n == self.versions@.len(),
                n >= 2,
                vs == version_texts(self.versions@),
                k + 1 <= n,
                order_check_from(vs, 0) == order_check_from(vs, k as int),
                forall|j: int| 0 <= j < k ==> #[trigger] index_version(vs[j]) is Some,
                k > 0 ==> index_version(vs[k as int]) is Some,
                forall|j: int, c: VersionView|
                    0 <= j < k ==> #[trigger] dominates_through_next(vs, j, c),
                forall|j: int| 0 <= j < k ==> #[trigger] newer_than_next(vs, j),
                forall|j: int| 0 <= j < k ==> #[trigger] older_than_previous(vs, j),
            decreases n - k,
        {
            let prev = parse_version(self.versions[k].version.as_str());
            let prev = match prev {
                Ok(v) => v,
                Err(e) => {
                    return Err(e);
                },
            };
            let cur = parse_version(self.versions[k + 1].version.as_str());
            let cur = match cur {
                Ok(v) => v,
                Err(e) => {
                    return Err(e);
                },
            };
            let c = compare_versions(&prev, &cur);
            if c <= 0 {
                return Err(
                    IndexCommandError::VersionsOutOfOrder {
                        previous: self.versions[k].version.clone(),
                        current: self.versions[k + 1].version.clone(),
                    },
                );
            }
            proof {
                assert(prev@ == key_at(vs, k as int));
                assert(cur@ == key_at(vs, k + 1));
                assert forall|cv: VersionView| #[trigger] dominates_through_next(vs, k as int, cv) by {
                    if semver_order(cur@, cv) >= 0 {
                        assert(semver_order(prev@, cv) > 0);
                    }
                }
                assert(newer_than_next(vs, k as int));
                assert(older_than_previous(vs, k as int));
            }
            k = k + 1;
        }
        proof {
            assert forall|i: int, j: int| 0 <= i < j < vs.len() implies semver_order(
                #[trigger] index_version(vs[i])->0,
                #[trigger] index_version(vs[j])->0,
            ) > 0 by {
                lemma_descending_chain(vs, i, j);
            }
            assert forall|i: int, j: int| 0 <= i < j < vs.len() implies #[trigger] index_version(
                vs[i],
            ) != #[trigger] index_version(vs[j]) by {
                if j == i + 1 {
                    assert(newer_than_next(vs, i));
                    assert(older_than_previous(vs, i));
                } else {
                    assert(semver_order(index_version(vs[i + 1])->0, index_version(vs[j])->0) > 0);
                    assert(older_than_previous(vs, i));
                }
            }
        }
        Ok(())
    }
}

proof fn lemma_descending_chain(vs: Seq<Seq<char>>, i: int, j: int)
    requires
        0 <= i < j < vs.len(),
        forall|m: int| 0 <= m < vs.len() ==> #[trigger] index_version(vs[m]) is Some,
        forall|m: int, c: VersionView|
            0 <= m < vs.len() - 1 ==> #[trigger] dominates_through_next(vs, m, c),
        forall|m: int| 0 <= m < vs.len() - 1 ==> #[trigger] newer_than_next(vs, m),
    ensures
        semver_order(index_version(vs[i])->0, index_version(vs[j])->0) > 0,
    decreases j - i,
{
    if j == i + 1 {
        assert(newer_than_next(vs, i));
    } else {
        lemma_descending_chain(vs, i + 1, j);
        let c = key_at(vs, j);
        assert(dominates_through_next(vs, i, c));
    }
}


/// Every text is an index version.
pub open spec fn all_index_versions(vs: Seq<Seq<char>>) -> bool {
    forall|i: int| 0 <= i < vs.len() ==> #[trigger] index_version(vs[i]) is Some
}

/// The position of the first text that is not an index version.
pub open spec fn is_first_invalid(vs: Seq<Seq<char>>, i: int) -> bool {
    &&& 0 <= i < vs.len()
    &&& index_version(vs[i]) is None
    &&& forall|j: int| 0 <= j < i ==> #[trigger] index_version(vs[j]) is Some
}

/// No two entries denote the same version.
pub open spec fn distinct_versions(vs: Seq<Seq<char>>) -> bool {
    forall|i: int, j: int|
        0 <= i < j < vs.len() ==> #[trigger] index_version(vs[i]) != #[trigger] index_version(
            vs[j],
        )
}

/// Every text is an index version written as the `semver` crate writes it.
pub open spec fn canonical_texts(vs: Seq<Seq<char>>) -> bool {
    forall|i: int|
        0 <= i < vs.len() ==> #[trigger] index_version(vs[i]) is Some && canonical_text(
            index_version(vs[i])->0,
        ) == vs[i]
}

/// `p` lists each position below `n` exactly once.
pub open spec fn is_index_permutation(p: Seq<int>, n: int) -> bool {
    &&& p.len() == n
    &&& forall|k: int| 0 <= k < n ==> 0 <= #[trigger] p[k] < n
    &&& forall|a: int, b: int| 0 <= a < b < n ==> #[trigger] p[a] != #[trigger] p[b]
}

/// `a` holds the elements of `b`, each once, in some order.
pub open spec fn permutation_of<T>(a: Seq<T>, b: Seq<T>) -> bool {
    exists|p: Seq<int>|
        is_index_permutation(p, b.len() as int) && a.len() == b.len() && forall|k: int|
            0 <= k < a.len() ==> a[k] == b[#[trigger] p[k]]
}

/// Parses every entry's version; the error is that of the first entry that
/// is not an index version.
fn parse_all(entries: &Vec<VersionEntry>) -> (r: Result<Vec<SemVer>, IndexCommandError>)
    ensures
        r matches Ok(keys) ==> keys@.len() == entries@.len() && all_index_versions(
            version_texts(entries@),
        ) && forall|k: int|
            0 <= k < keys@.len() ==> index_version(entries@[k].version@) == Some(
                #[trigger] keys@[k]@,
            ),
        r matches Err(e) ==> exists|i: int|
            is_first_invalid(version_texts(entries@), i) && e@ == version_error(
                version_texts(entries@)[i],
            ),
{
    let ghost vs = version_texts(entries@);
    let mut keys: Vec<SemVer> = Vec::new();
    let mut i: usize = 0;
    while i < entries.len()
        invariant
            i <= entries@.len(),
            vs == version_texts(entries@),
            keys@.len() == i,
            forall|k: int| 0 <= k < i ==> index_version(entries@[k].version@) == Some(
                #[trigger] keys@[k]@,
            ),
        decreases entries@.len() - i,
    {
        match parse_version(entries[i].version.as_str()) {
            Ok(v) => {
                keys.push(v);
            },
            Err(e) => {
                assert(is_first_invalid(vs, i as int)) by {
                    assert forall|j: int| 0 <= j < i implies #[trigger] index_version(vs[j]) is Some by {
                        assert(index_version(entries@[j].version@) == Some(keys@[j]@));
                    }
                }
                return Err(e);
            },
        }
        i = i + 1;
    }
    assert forall|j: int| 0 <= j < vs.len() implies #[trigger] index_version(vs[j]) is Some by {
        assert(index_version(entries@[j].version@) == Some(keys@[j]@));
    }
    Ok(keys)
}

/// The plain values of a list of versions.
pub open spec fn key_views(keys: Seq<SemVer>) -> Seq<VersionView> {
    keys.map_values(|k: SemVer| k@)
}

/// Keys in non-increasing order.
pub open spec fn non_increasing(keys: Seq<VersionView>) -> bool {
    forall|a: int, b: int|
        0 <= a < b < keys.len() ==> semver_order(#[trigger] keys[a], #[trigger] keys[b]) >= 0
}

/// Adjacent keys that compare equal are equal.
pub open spec fn adjacent_equal_means_same(keys: Seq<VersionView>, a: int) -> bool {
    semver_order(keys[a], keys[a + 1]) == 0 ==> keys[a] == keys[a + 1]
}

/// The position at which `key` goes among `keys` (newest first, after every
/// key at least as new).
fn insertion_point(keys: &Vec<SemVer>, key: &SemVer) -> (p: usize)
    requires
        non_increasing(key_views(keys@)),
    ensures
        p <= keys@.len(),
        forall|q: int| 0 <= q < p ==> semver_order(#[trigger] keys@[q]@, key@) >= 0,
        forall|q: int| 0 <= q < p ==> semver_order(key@, #[trigger] keys@[q]@) <= 0,
        p > 0 ==> (semver_order(keys@[p - 1]@, key@) == 0 ==> keys@[p - 1]@ == key@),
        forall|q: int| p <= q < keys@.len() ==> semver_order(key@, #[trigger] keys@[q]@) > 0,
{
    let ghost kv = key_views(keys@);
    let mut p: usize = 0;
    while p < keys.len()
        invariant
            p <= keys@.len(),
            kv == key_views(keys@),
            non_increasing(kv),
            forall|q: int| 0 <= q < p ==> semver_order(#[trigger] keys@[q]@, key@) >= 0,
            forall|q: int| 0 <= q < p ==> semver_order(key@, #[trigger] keys@[q]@) <= 0,
            p > 0 ==> (semver_order(keys@[p - 1]@, key@) == 0 ==> keys@[p - 1]@ == key@),
        decreases keys@.len() - p,
    {
        let c = compare_versions(key, &keys[p]);
        if c > 0 {
            assert forall|q: int| p <= q < keys@.len() implies semver_order(
                key@,
                #[trigger] keys@[q]@,
            ) > 0 by {
                if q > p {
                    assert(kv[p as int] == keys@[p as int]@);
                    assert(kv[q] == keys@[q]@);
                    assert(semver_order(kv[p as int], kv[q]) >= 0);
                }
            }
            return p;
        }
        p = p + 1;
    }
    p
}

impl VersionsJson {
    /// Sorts the entries newest first by semantic-version precedence (a
    /// stable sort), then checks the order. Fails on the first entry that is
    /// not an index version, leaving the list unchanged, or when two entries
    /// denote the same version.
    pub fn sort_newest_first(&mut self) -> (r: Result<(), IndexCommandError>)
        ensures
            all_index_versions(version_texts(old(self).versions@)) && distinct_versions(
                version_texts(old(self).versions@),
            ) ==> r is Ok,
            r is Ok ==> permutation_of(final(self).versions@, old(self).versions@)
                && strictly_descending(version_texts(final(self).versions@)) && distinct_versions(
                version_texts(final(self).versions@),
            ),
            r matches Err(e) ==> (exists|i: int|
                is_first_invalid(version_texts(old(self).versions@), i) && e@ == version_error(
                    version_texts(old(self).versions@)[i],
                ) && final(self).versions@ == old(self).versions@) || (all_index_versions(
                version_texts(old(self).versions@),
            ) && !distinct_versions(version_texts(old(self).versions@)) && permutation_of(
                final(self).versions@,
                old(self).versions@,
            ) && Some(e@) == order_check_from(version_texts(final(self).versions@), 0)),
    {
        let ghost orig = self.versions@;
        let ghost ov = version_texts(orig);
        let keys_in = match parse_all(&self.versions) {
            Ok(k) => k,
            Err(e) => {
                return Err(e);
            },
        };
        let n = self.versions.len();
        let mut src = Vec::new();
        std::mem::swap(&mut src, &mut self.versions);
        let mut src_keys = keys_in;
        let mut out: Vec<VersionEntry> = Vec::new();
        let mut keys: Vec<SemVer> = Vec::new();
        let ghost mut perm: Seq<int> = Seq::empty();
        let mut i: usize = 0;
        while i < n
            invariant
                n == orig.len(),
                ov == version_texts(orig),
                all_index_versions(ov),
                i <= n,
                src@ == orig.skip(i as int),
                src_keys@.len() == n - i,
                forall|k: int|
                    0 <= k < src_keys@.len() ==> index_version(src@[k].version@) == Some(
                        #[trigger] src_keys@[k]@,
                    ),
                out@.len() == i,
                keys@.len() == i,
                perm.len() == i,
                forall|k: int| 0 <= k < i ==> 0 <= #[trigger] perm[k] < i,
                forall|a: int, b: int| 0 <= a < b < i ==> #[trigger] perm[a] != #[trigger] perm[b],
                forall|k: int| 0 <= k < i ==> out@[k] == orig[#[trigger] perm[k]],
                forall|k: int| 0 <= k < i ==> index_version(out@[k].version@) == Some(
                    #[trigger] keys@[k]@,
                ),
                non_increasing(key_views(keys@)),
                forall|a: int|
                    0 <= a < i - 1 ==> #[trigger] adjacent_equal_means_same(
                        key_views(keys@),
                        a,
                    ),
            decreases n - i,
        {
            let entry = src.remove(0);
            let key = src_keys.remove(0);
            proof {
                assert(src@ =~= orig.skip(i + 1));
                assert(entry == orig[i as int]);
            }
            let ghost kv_old = key_views(keys@);
            let p = insertion_point(&keys, &key);
            let ghost key_view = key@;
            out.insert(p, entry);
            keys.insert(p, key);
            proof {
                perm = perm.insert(p as int, i as int);
                let kv = key_views(keys@);
                assert(kv =~= kv_old.insert(p as int, key_view));
                assert forall|a: int, b: int| 0 <= a < b < kv.len() implies semver_order(
                    #[trigger] kv[a],
                    #[trigger] kv[b],
                ) >= 0 by {
                    if b < p {
                        assert(kv[a] == kv_old[a] && kv[b] == kv_old[b]);
                    } else if b == p {
                        assert(kv[a] == keys@[a]@);
                    } else if a == p {
                        assert(kv[b] == keys@[b]@);
                        assert(kv_old[b - 1] == kv[b]);
                    } else if a < p {
                        assert(kv[a] == kv_old[a] && kv[b] == kv_old[b - 1]);
                    } else {
                        assert(kv[a] == kv_old[a - 1] && kv[b] == kv_old[b - 1]);
                    }
                }
                assert forall|a: int| 0 <= a < i + 1 - 1 implies #[trigger] adjacent_equal_means_same(kv, a) by {
                    if a + 1 < p {
                        assert(adjacent_equal_means_same(kv_old, a));
                    } else if a + 1 == p {
                        assert(kv[a] == kv_old[a]);
                    } else if a == p {
                        assert(kv[a + 1] == kv_old[a]);
                    } else {
                        assert(adjacent_equal_means_same(kv_old, a - 1));
                    }
                }
                assert forall|k: int| 0 <= k < i + 1 implies out@[k] == orig[#[trigger] perm[k]] by {
                    if k > p {
                        assert(perm[k] == perm.remove(p as int)[k - 1]);
                    }
                }
            }
            i = i + 1;
        }
        self.versions = out;
        let ghost fv = version_texts(self.versions@);
        proof {
            assert(is_index_permutation(perm, n as int));
            assert(permutation_of(self.versions@, orig));
            assert forall|k: int| 0 <= k < n implies key_at(fv, k) == #[trigger] keys@[k]@ by {
                assert(index_version(self.versions@[k].version@) == Some(keys@[k]@));
            }
            assert forall|k: int| 0 <= k < n implies #[trigger] index_version(fv[k]) is Some by {
                assert(index_version(self.versions@[k].version@) == Some(keys@[k]@));
            }
        }
        let checked = self.validate_order();
        match checked {
            Ok(()) => Ok(()),
            Err(e) => {
                proof {
                    let kv = key_views(keys@);
                    assert forall|k: int| 0 <= k < n implies #[trigger] index_version(fv[k]) is Some by {
                        assert(key_at(fv, k) == keys@[k]@);
                    }
                    let a = lemma_first_problem_is_tie(fv, kv, 0);
                    let x = perm[a];
                    let y = perm[a + 1];
                    assert(ov[x] == fv[a] && ov[y] == fv[a + 1]);
                    if x < y {
                        assert(index_version(ov[x]) == index_version(ov[y]));
                    } else {
                        assert(index_version(ov[y]) == index_version(ov[x]));
                    }
                }
                Err(e)
            },
        }
    }
}

/// In a sorted, fully valid list whose order check fails, the failure is
/// two adjacent entries denoting the same version.
proof fn lemma_first_problem_is_tie(fv: Seq<Seq<char>>, kv: Seq<VersionView>, k: int) -> (a: int)
    requires
        0 <= k,
        order_check_from(fv, k) is Some,
        kv.len() == fv.len(),
        forall|j: int| 0 <= j < fv.len() ==> #[trigger] index_version(fv[j]) is Some,
        forall|j: int| 0 <= j < fv.len() ==> key_at(fv, j) == #[trigger] kv[j],
        non_increasing(kv),
        forall|j: int| 0 <= j < kv.len() - 1 ==> #[trigger] adjacent_equal_means_same(kv, j),
    ensures
        k <= a < fv.len() - 1,
        index_version(fv[a]) == index_version(fv[a + 1]),
    decreases fv.len() - k,
{
    if window_problem(fv, k) is Some {
        assert(index_version(fv[k]) is Some);
        assert(index_version(fv[k + 1]) is Some);
        assert(kv[k] == key_at(fv, k) && kv[k + 1] == key_at(fv, k + 1));
        assert(semver_order(kv[k], kv[k + 1]) >= 0);
        assert(adjacent_equal_means_same(kv, k));
        k
    } else {
        lemma_first_problem_is_tie(fv, kv, k + 1)
    }
}


/// The problem found at entry `i` of an existing `versions.json`: a text
/// that is not an index version, or one already listed earlier.
pub open spec fn existing_problem_at(vs: Seq<Seq<char>>, i: int) -> Option<IndexErrorView> {
    if index_version(vs[i]) is None {
        Some(version_error(vs[i]))
    } else if exists|j: int| 0 <= j < i && vs[j] == vs[i] {
        Some(IndexErrorView::DuplicateExistingVersion { version: vs[i] })
    } else {
        None
    }
}

/// The outcome of checking an existing `versions.json` from entry `i` on:
/// the first per-entry problem, else the order check.
pub open spec fn existing_check_from(vs: Seq<Seq<char>>, i: int) -> Option<IndexErrorView>
    decreases vs.len() - i,
{
    if i < 0 || i >= vs.len() {
        order_check_from(vs, 0)
    } else {
        match existing_problem_at(vs, i) {
            Some(e) => Some(e),
            None => existing_check_from(vs, i + 1),
        }
    }
}

/// The first position whose text equals `v`, if any.
fn position_of_text(entries: &Vec<VersionEntry>, upto: usize, v: &str) -> (r: Option<usize>)
    requires
        upto <= entries@.len(),
    ensures
        r matches Some(j) ==> j < upto && entries@[j as int].version@ == v@,
        r is None ==> forall|j: int| 0 <= j < upto ==> entries@[j].version@ != v@,
{
    let mut j: usize = 0;
    while j < upto
        invariant
            upto <= entries@.len(),
            j <= upto,
            forall|m: int| 0 <= m < j ==> entries@[m].version@ != v@,
        decreases upto - j,
    {
        if str_equal(entries[j].version.as_str(), v) {
            return Some(j);
        }
        j = j + 1;
    }
    None
}

impl VersionsJson {
    /// An empty version list.
    pub fn new() -> (r: VersionsJson)
        ensures
            r.versions@.len() == 0,
            well_formed_versions(r.versions@),
    {
        let r = VersionsJson { versions: Vec::new() };
        proof {
            lemma_empty_versions_well_formed();
            assert(r.versions@ =~= Seq::<VersionEntry>::empty());
        }
        r
    }

    /// Checks a `versions.json` read back from an index: every version is an
    /// index version, none is listed twice, and the order is strictly
    /// descending. Reports the first problem.
    pub fn validate_existing(&self) -> (r: Result<(), IndexCommandError>)
        ensures
            r is Ok <==> existing_check_from(version_texts(self.versions@), 0) is None,
            r matches Err(e) ==> existing_check_from(version_texts(self.versions@), 0) == Some(
                e@,
            ),
            r is Ok ==> strictly_descending(version_texts(self.versions@)) && distinct_versions(
                version_texts(self.versions@),
            ) && canonical_texts(version_texts(self.versions@)),
    {
        let ghost vs = version_texts(self.versions@);
        let n = self.versions.len();
        let mut i: usize = 0;
        while i < n
            invariant
                n == self.versions@.len(),
                vs == version_texts(self.versions@),
                i <= n,
                existing_check_from(vs, 0) == existing_check_from(vs, i as int),
                forall|j: int|
                    0 <= j < i ==> #[trigger] index_version(vs[j]) is Some && canonical_text(
                        index_version(vs[j])->0,
                    ) == vs[j],
            decreases n - i,
        {
            match parse_version(self.versions[i].version.as_str()) {
                Err(e) => {
                    return Err(e);
                },
                Ok(_) => {},
            }
            match position_of_text(&self.versions, i, self.versions[i].version.as_str()) {
                Some(j) => {
                    assert(vs[j as int] == vs[i as int]);
                    return Err(
                        IndexCommandError::DuplicateExistingVersion {
                            version: self.versions[i].version.clone(),
                        },
                    );
                },
                None => {
                    assert(!exists|j: int| 0 <= j < i && vs[j] == vs[i as int]);
                },
            }
            i = i + 1;
        }
        let r = self.validate_order();
        proof {
            if r is Ok && n < 2 {
                assert forall|a: int| 0 <= a < vs.len() implies #[trigger] index_version(vs[a]) is Some by {}
            }
        }
        r
    }

    /// Whether an entry's text is exactly `version`.
    pub fn lists_version_text(&self, version: &str) -> (r: bool)
        ensures
            r == exists|k: int| 0 <= k < self.versions@.len() && self.versions@[k].version@ == version@,
    {
        position_of_text(&self.versions, self.versions.len(), version).is_some()
    }

    /// The first entry whose text is an index version equal to `version`.
    pub fn version_mut(&self, version: &SemVer) -> (r: Option<usize>)
        ensures
            r matches Some(k) ==> k < self.versions@.len() && index_version(
                self.versions@[k as int].version@,
            ) == Some(version@) && forall|j: int|
                0 <= j < k ==> index_version(#[trigger] self.versions@[j].version@) != Some(
                    version@,
                ),
            r is None ==> forall|j: int|
                0 <= j < self.versions@.len() ==> index_version(
                    #[trigger] self.versions@[j].version@,
                ) != Some(version@),
    {
        let mut k: usize = 0;
        while k < self.versions.len()
            invariant
                k <= self.versions@.len(),
                forall|j: int|
                    0 <= j < k ==> index_version(#[trigger] self.versions@[j].version@) != Some(
                        version@,
                    ),
            decreases self.versions@.len() - k,
        {
            match parse_version(self.versions[k].version.as_str()) {
                Ok(v) => {
                    if compare_versions(&v, version) == 0 {
                        return Some(k);
                    }
                },
                Err(_) => {},
            }
            k = k + 1;
        }
        None
    }
}


/// The plain content of the error a result carries, if any.
pub open spec fn err_view_of<T>(r: Result<T, IndexCommandError>) -> Option<IndexErrorView> {
    match r {
        Ok(_) => None,
        Err(e) => Some(e@),
    }
}

/// An entry with its status replaced.
pub open spec fn with_status(e: VersionEntry, status: VersionStatus) -> VersionEntry {
    VersionEntry { status, ..e }
}

/// Whether `k` is the first entry denoting version `v`.
pub open spec fn is_first_version_pos(vs: Seq<VersionEntry>, v: VersionView, k: int) -> bool {
    &&& 0 <= k < vs.len()
    &&& index_version(vs[k].version@) == Some(v)
    &&& forall|j: int| 0 <= j < k ==> index_version(#[trigger] vs[j].version@) != Some(v)
}

/// Changing the status of the entry of a version keeps it the entry that
/// later operations on that version find, with the new status: after a
/// removal every yank of the version is refused, and after a yank a second
/// yank changes nothing.
pub proof fn lemma_status_change_is_seen(
    vs: Seq<VersionEntry>,
    v: VersionView,
    k: int,
    status: VersionStatus,
)
    requires
        is_first_version_pos(vs, v, k),
    ensures
        is_first_version_pos(vs.update(k, with_status(vs[k], status)), v, k),
        vs.update(k, with_status(vs[k], status))[k].status == status,
{
    let ws = vs.update(k, with_status(vs[k], status));
    assert forall|j: int| 0 <= j < k implies index_version(#[trigger] ws[j].version@) != Some(v) by {
        assert(ws[j] == vs[j]);
    }
}

/// No entry denotes version `v`.
pub open spec fn lacks_version(vs: Seq<VersionEntry>, v: VersionView) -> bool {
    forall|j: int| 0 <= j < vs.len() ==> index_version(#[trigger] vs[j].version@) != Some(v)
}

/// The canonical text of an index version.
pub open spec fn canonical_text(v: VersionView) -> Seq<char> {
    crate::versions::version_text(v)
}

impl VersionsJson {
    fn set_status(&mut self, k: usize, status: VersionStatus)
        requires
            k < old(self).versions@.len(),
        ensures
            final(self).versions@ == old(self).versions@.update(
                k as int,
                with_status(old(self).versions@[k as int], status),
            ),
    {
        let mut e = self.versions.remove(k);
        e.status = status;
        self.versions.insert(k, e);
        assert(self.versions@ =~= old(self).versions@.update(
            k as int,
            with_status(old(self).versions@[k as int], status),
        ));
    }

    /// Marks `version` of project `iri` as yanked: it stays listed and its
    /// files stay, but it should no longer be chosen. Yanking a yanked
    /// version changes nothing; a removed version cannot be yanked.
    pub fn yank(&mut self, iri: &str, version: &str) -> (r: Result<(), IndexCommandError>)
        ensures
            well_formed_versions(old(self).versions@) ==> well_formed_versions(final(self).versions@),
            index_version(version@) is None ==> err_view_of(r) == Some(version_error(version@)) && final(self).versions@ == old(self).versions@,
            index_version(version@) matches Some(v) ==> {
                &&& lacks_version(old(self).versions@, v) ==> err_view_of(r) == Some((IndexErrorView::VersionNotFound { iri: iri@, version: canonical_text(v) })) && final(self).versions@ == old(self).versions@
                &&& forall|k: int|
                    #[trigger] is_first_version_pos(old(self).versions@, v, k) ==> match old(self).versions@[k].status {
                        VersionStatus::Available => r is Ok && final(self).versions@ == old(self).versions@.update(
                            k,
                            with_status(old(self).versions@[k], VersionStatus::Yanked),
                        ),
                        VersionStatus::Yanked => r is Ok && final(self).versions@ == old(self).versions@,
                        VersionStatus::Removed => err_view_of(r) == Some((IndexErrorView::VersionRemoved {
                            iri: iri@,
                            version: canonical_text(v),
                        })) && final(self).versions@ == old(self).versions@,
                    }
            },
    {
        let parsed = match parse_version(version) {
            Ok(v) => v,
            Err(e) => {
                return Err(e);
            },
        };
        let version_string = parsed.to_text();
        match self.version_mut(&parsed) {
            None => Err(
                IndexCommandError::VersionNotFound { iri: iri.to_owned(), version: version_string },
            ),
            Some(k) => {
                proof {
                    assert forall|m: int| #[trigger]
                        is_first_version_pos(old(self).versions@, parsed@, m) implies m == k by {
                        if m < k {
                            assert(index_version(self.versions@[m].version@) != Some(parsed@));
                        } else if m > k {
                            assert(index_version(self.versions@[k as int].version@) != Some(parsed@));
                        }
                    }
                }
                match self.versions[k].status {
                    VersionStatus::Available => {
                        self.set_status(k, VersionStatus::Yanked);
                        proof {
                            if well_formed_versions(old(self).versions@) {
                                lemma_status_change_keeps_well_formed(
                                    old(self).versions@,
                                    k as int,
                                    VersionStatus::Yanked,
                                );
                            }
                        }
                        Ok(())
                    },
                    VersionStatus::Yanked => Ok(()),
                    VersionStatus::Removed => Err(
                        IndexCommandError::VersionRemoved {
                            iri: iri.to_owned(),
                            version: version_string,
                        },
                    ),
                }
            },
        }
    }

    /// Marks `version` of project `iri` as removed and returns its canonical
    /// text (the directory whose release files are to be deleted).
    pub fn remove_version(&mut self, iri: &str, version: &str) -> (r: Result<String, IndexCommandError>)
        ensures
            well_formed_versions(old(self).versions@) ==> well_formed_versions(final(self).versions@),
            index_version(version@) is None ==> err_view_of(r) == Some(version_error(version@)) && final(self).versions@ == old(self).versions@,
            index_version(version@) matches Some(v) ==> {
                &&& lacks_version(old(self).versions@, v) ==> err_view_of(r) == Some((IndexErrorView::VersionNotFound { iri: iri@, version: canonical_text(v) })) && final(self).versions@ == old(self).versions@
                &&& forall|k: int|
                    #[trigger] is_first_version_pos(old(self).versions@, v, k) ==> (r matches Ok(t)
                        && t@ == canonical_text(v)) && final(self).versions@ == old(
                        self).versions@.update(k, with_status(old(self).versions@[k], VersionStatus::Removed))
            },
    {
        let parsed = match parse_version(version) {
            Ok(v) => v,
            Err(e) => {
                return Err(e);
            },
        };
        let version_string = parsed.to_text();
        match self.version_mut(&parsed) {
            None => Err(
                IndexCommandError::VersionNotFound { iri: iri.to_owned(), version: version_string },
            ),
            Some(k) => {
                proof {
                    assert forall|m: int| #[trigger]
                        is_first_version_pos(old(self).versions@, parsed@, m) implies m == k by {
                        if m < k {
                            assert(index_version(self.versions@[m].version@) != Some(parsed@));
                        } else if m > k {
                            assert(index_version(self.versions@[k as int].version@) != Some(parsed@));
                        }
                    }
                }
                self.set_status(k, VersionStatus::Removed);
                proof {
                    if well_formed_versions(old(self).versions@) {
                        lemma_status_change_keeps_well_formed(
                            old(self).versions@,
                            k as int,
                            VersionStatus::Removed,
                        );
                    }
                }
                Ok(version_string)
            },
        }
    }

    /// Marks every version as removed (the cascade of removing a project)
    /// and returns the version texts whose release files are to be deleted.
    pub fn remove_all(&mut self) -> (r: Vec<String>)
        ensures
            final(self).versions@.len() == old(self).versions@.len(),
            forall|k: int|
                0 <= k < old(self).versions@.len() ==> #[trigger] final(self).versions@[k]
                    == with_status(old(self).versions@[k], VersionStatus::Removed),
            r@.len() == old(self).versions@.len(),
            forall|k: int| 0 <= k < r@.len() ==> #[trigger] r@[k]@ == old(self).versions@[k].version@,
            well_formed_versions(old(self).versions@) ==> well_formed_versions(final(self).versions@),
    {
        let mut texts: Vec<String> = Vec::new();
        let mut k: usize = 0;
        while k < self.versions.len()
            invariant
                k <= self.versions@.len(),
                self.versions@.len() == old(self).versions@.len(),
                forall|j: int|
                    0 <= j < k ==> #[trigger] self.versions@[j] == with_status(
                        old(self).versions@[j],
                        VersionStatus::Removed,
                    ),
                forall|j: int| k <= j < self.versions@.len() ==> #[trigger] self.versions@[j] == old(self).versions@[j],
                texts@.len() == k,
                forall|j: int| 0 <= j < k ==> #[trigger] texts@[j]@ == old(self).versions@[j].version@,
            decreases self.versions@.len() - k,
        {
            texts.push(self.versions[k].version.clone());
            self.set_status(k, VersionStatus::Removed);
            k = k + 1;
        }
        proof {
            if well_formed_versions(old(self).versions@) {
                let ws = old(self).versions@;
                let us = self.versions@;
                assert forall|j: int| 0 <= j < us.len() implies #[trigger] version_texts(us)[j]
                    == version_texts(ws)[j] by {
                    assert(us[j] == with_status(ws[j], VersionStatus::Removed));
                }
                assert(version_texts(us) =~= version_texts(ws));
                assert forall|j: int| 0 <= j < us.len() implies #[trigger] digests_written(us[j]) by {
                    assert(us[j] == with_status(ws[j], VersionStatus::Removed));
                    assert(digests_written(ws[j]));
                }
            }
        }
        texts
    }

    /// Refuses a release whose version text `version` is already listed.
    pub fn check_not_listed(&self, iri: &str, version: &str) -> (r: Result<(), IndexCommandError>)
        ensures
            r is Ok <==> !exists|k: int|
                0 <= k < self.versions@.len() && self.versions@[k].version@ == version@,
            r matches Err(e) ==> e@ == (IndexErrorView::DuplicateVersion {
                iri: iri@,
                version: version@,
            }),
    {
        if self.lists_version_text(version) {
            Err(
                IndexCommandError::DuplicateVersion {
                    iri: iri.to_owned(),
                    version: version.to_owned(),
                },
            )
        } else {
            Ok(())
        }
    }

    /// Adds a release entry and restores newest-first order.
    pub fn append_release(&mut self, entry: VersionEntry) -> (r: Result<(), IndexCommandError>)
        ensures
            all_index_versions(version_texts(old(self).versions@.push(entry))) && distinct_versions(
                version_texts(old(self).versions@.push(entry)),
            ) ==> r is Ok,
            r is Ok ==> permutation_of(final(self).versions@, old(self).versions@.push(entry))
                && strictly_descending(version_texts(final(self).versions@)) && distinct_versions(
                version_texts(final(self).versions@),
            ),
            r matches Err(e) ==> (exists|i: int|
                is_first_invalid(version_texts(old(self).versions@.push(entry)), i) && e@
                    == version_error(version_texts(old(self).versions@.push(entry))[i])
                    && final(self).versions@ == old(self).versions@.push(entry)) || (
            all_index_versions(version_texts(old(self).versions@.push(entry)))
                && !distinct_versions(version_texts(old(self).versions@.push(entry)))
                && permutation_of(final(self).versions@, old(self).versions@.push(entry)) && Some(
                e@,
            ) == order_check_from(version_texts(final(self).versions@), 0)),
    {
        self.versions.push(entry);
        self.sort_newest_first()
    }
}

impl IndexJson {
    /// An index that lists no project.
    pub fn new() -> (r: IndexJson)
        ensures
            r.projects@.len() == 0,
    {
        IndexJson { projects: Vec::new() }
    }

    /// The first project entry with exactly this IRI.
    pub fn project_mut(&self, iri: &str) -> (r: Option<usize>)
        ensures
            r matches Some(k) ==> k < self.projects@.len() && self.projects@[k as int].iri@ == iri@
                && forall|j: int| 0 <= j < k ==> #[trigger] self.projects@[j].iri@ != iri@,
            r is None ==> forall|j: int|
                0 <= j < self.projects@.len() ==> #[trigger] self.projects@[j].iri@ != iri@,
    {
        let mut k: usize = 0;
        while k < self.projects.len()
            invariant
                k <= self.projects@.len(),
                forall|j: int| 0 <= j < k ==> #[trigger] self.projects@[j].iri@ != iri@,
            decreases self.projects@.len() - k,
        {
            if str_equal(self.projects[k].iri.as_str(), iri) {
                return Some(k);
            }
            k = k + 1;
        }
        None
    }

    /// Lists `iri` as available for a new release: a project already listed
    /// stays listed, a new one is appended, a removed one is refused.
    pub fn register_release(&mut self, iri: &str) -> (r: Result<(), IndexCommandError>)
        ensures
            registers(old(self).projects@, final(self).projects@, iri@, err_view_of(r)),
    {
        match self.project_mut(iri) {
            Some(k) => {
                if matches!(self.projects[k].status, ProjectStatus::Removed) {
                    proof {
                        assert forall|m: int| #[trigger]
                            is_first_project_pos(old(self).projects@, iri@, m) implies m == k by {
                            if m > k {
                                assert(old(self).projects@[k as int].iri@ == iri@);
                            }
                        }
                    }
                    return Err(IndexCommandError::ProjectRemoved { iri: iri.to_owned() });
                }
                proof {
                    assert forall|m: int| #[trigger]
                        is_first_project_pos(old(self).projects@, iri@, m) implies m == k by {
                        if m > k {
                            assert(old(self).projects@[k as int].iri@ == iri@);
                        }
                    }
                }
                Ok(())
            },
            None => {
                self.projects.push(
                    IndexProject { iri: iri.to_owned(), status: ProjectStatus::Available },
                );
                assert(self.projects@.drop_last() =~= old(self).projects@);
                Ok(())
            },
        }
    }

    /// Marks project `iri` as removed.
    pub fn mark_removed(&mut self, iri: &str) -> (r: Result<(), IndexCommandError>)
        ensures
            (forall|j: int|
                0 <= j < old(self).projects@.len() ==> #[trigger] old(self).projects@[j].iri@
                    != iri@) ==> err_view_of(r) == Some((IndexErrorView::ProjectNotFound {
                iri: iri@,
            })) && final(self).projects@ == old(self).projects@,
            forall|k: int|
                0 <= k < old(self).projects@.len() && old(self).projects@[k].iri@ == iri@ && (
                forall|j: int| 0 <= j < k ==> #[trigger] old(self).projects@[j].iri@ != iri@)
                    ==> r is Ok && final(self).projects@ == old(self).projects@.update(
                    k,
                    IndexProject { status: ProjectStatus::Removed, ..old(self).projects@[k] },
                ),
    {
        match self.project_mut(iri) {
            None => Err(IndexCommandError::ProjectNotFound { iri: iri.to_owned() }),
            Some(k) => {
                let mut p = self.projects.remove(k);
                p.status = ProjectStatus::Removed;
                self.projects.insert(k, p);
                proof {
                    assert forall|m: int|
                        0 <= m < old(self).projects@.len() && old(self).projects@[m].iri@ == iri@
                            && (forall|j: int|
                            0 <= j < m ==> #[trigger] old(self).projects@[j].iri@ != iri@)
                            implies m == k by {
                        if m > k {
                            assert(old(self).projects@[k as int].iri@ == iri@);
                        }
                    }
                    assert(self.projects@ =~= old(self).projects@.update(
                        k as int,
                        IndexProject { status: ProjectStatus::Removed, ..old(self).projects@[k as int] },
                    ));
                }
                Ok(())
            },
        }
    }
}


/// The project information of an interchange project manifest
/// (`.project.json`) that publishing reads.
pub struct ProjectInfo {
    pub name: String,
    pub publisher: Option<String>,
    pub version: String,
    pub usage: Vec<UsageRaw>,
}

/// The first project entry with this IRI is at `k`.
pub open spec fn is_first_project_pos(ps: Seq<IndexProject>, iri: Seq<char>, k: int) -> bool {
    &&& 0 <= k < ps.len()
    &&& ps[k].iri@ == iri
    &&& forall|j: int| 0 <= j < k ==> #[trigger] ps[j].iri@ != iri
}

/// A project listed somewhere has a first listing.
proof fn lemma_listed_project_has_first(ps: Seq<IndexProject>, iri: Seq<char>, j: int)
    requires
        0 <= j < ps.len(),
        ps[j].iri@ == iri,
    ensures
        exists|k: int| is_first_project_pos(ps, iri, k),
    decreases j,
{
    if exists|m: int| 0 <= m < j && ps[m].iri@ == iri {
        let m = choose|m: int| 0 <= m < j && ps[m].iri@ == iri;
        lemma_listed_project_has_first(ps, iri, m);
    } else {
        assert(is_first_project_pos(ps, iri, j));
    }
}

/// Marking a project removed keeps it the entry that later registrations
/// find, now removed: every later release of it is refused.
pub proof fn lemma_removed_project_is_seen(ps: Seq<IndexProject>, iri: Seq<char>, k: int)
    requires
        is_first_project_pos(ps, iri, k),
    ensures
        is_first_project_pos(
            ps.update(k, IndexProject { status: ProjectStatus::Removed, ..ps[k] }),
            iri,
            k,
        ),
        ps.update(k, IndexProject { status: ProjectStatus::Removed, ..ps[k] })[k].status
            == ProjectStatus::Removed,
{
    let qs = ps.update(k, IndexProject { status: ProjectStatus::Removed, ..ps[k] });
    assert forall|j: int| 0 <= j < k implies #[trigger] qs[j].iri@ != iri by {
        assert(qs[j] == ps[j]);
    }
}

/// The effect of listing `iri` for a new release (`err` is the error
/// reported, if any): a new IRI is appended as available, an available one
/// leaves the list as it was, a removed one is refused with the list
/// unchanged.
pub open spec fn registers(
    before: Seq<IndexProject>,
    after: Seq<IndexProject>,
    iri: Seq<char>,
    err: Option<IndexErrorView>,
) -> bool {
    &&& (forall|j: int| 0 <= j < before.len() ==> #[trigger] before[j].iri@ != iri) ==> {
        &&& err is None
        &&& after.len() == before.len() + 1
        &&& after.drop_last() == before
        &&& after.last().iri@ == iri
        &&& after.last().status == ProjectStatus::Available
    }
    &&& forall|k: int|
        #[trigger] is_first_project_pos(before, iri, k) ==> match before[k].status {
            ProjectStatus::Removed => err == Some(IndexErrorView::ProjectRemoved { iri })
                && after == before,
            ProjectStatus::Available => err is None && after == before,
        }
}

/// The `pkg:sysand` IRI derived from a publisher and a name.
pub open spec fn sysand_purl(publisher: Seq<char>, name: Seq<char>) -> Seq<char> {
    pkg_sysand_prefix() + normalized(publisher) + seq!['/'] + normalized(name)
}

/// What inferring an IRI from project information yields.
pub open spec fn inferred_iri(publisher: Option<Seq<char>>, name: Seq<char>) -> Result<
    Seq<char>,
    IndexErrorView,
> {
    match publisher {
        None => Err(IndexErrorView::MissingPublisher),
        Some(p) => if !valid_field(p, FieldKind::Publisher) {
            Err(IndexErrorView::InvalidPublisher(p))
        } else if !valid_field(name, FieldKind::Name) {
            Err(IndexErrorView::InvalidName(name))
        } else {
            Ok(sysand_purl(p, name))
        },
    }
}

/// The publisher of project information as plain text.
pub open spec fn publisher_view(info: &ProjectInfo) -> Option<Seq<char>> {
    match info.publisher {
        Some(p) => Some(p@),
        None => None,
    }
}

/// The plain content of a text-or-error result.
pub open spec fn text_result_view(r: Result<String, IndexCommandError>) -> Result<
    Seq<char>,
    IndexErrorView,
> {
    match r {
        Ok(t) => Ok(t@),
        Err(e) => Err(e@),
    }
}

fn append_chars(out: &mut Vec<char>, more: &Vec<char>)
    ensures
        final(out)@ == old(out)@ + more@,
{
    let mut i: usize = 0;
    while i < more.len()
        invariant
            i <= more@.len(),
            out@ == old(out)@ + more@.take(i as int),
        decreases more@.len() - i,
    {
        out.push(more[i]);
        i = i + 1;
        assert(out@ =~= old(out)@ + more@.take(i as int));
    }
    assert(more@.take(more@.len() as int) =~= more@);
}

/// Derives the `pkg:sysand/<publisher>/<name>` IRI of a project from its
/// publisher and name, both of which must be valid (they are normalized on
/// the way in).
pub fn infer_sysand_purl(info: &ProjectInfo) -> (r: Result<String, IndexCommandError>)
    ensures
        text_result_view(r) == inferred_iri(publisher_view(info), info.name@),
{
    let publisher = match &info.publisher {
        Some(p) => p,
        None => {
            return Err(IndexCommandError::MissingPublisher);
        },
    };
    if !crate::purl::is_valid_publisher(publisher.as_str()) {
        return Err(IndexCommandError::InvalidPublisher(publisher.clone()));
    }
    if !crate::purl::is_valid_name(info.name.as_str()) {
        return Err(IndexCommandError::InvalidName(info.name.clone()));
    }
    let mut out = pkg_sysand_prefix_chars();
    let np = chars_of(crate::purl::normalize_field(publisher.as_str()).as_str());
    append_chars(&mut out, &np);
    out.push('/');
    let nn = chars_of(crate::purl::normalize_field(info.name.as_str()).as_str());
    append_chars(&mut out, &nn);
    assert(out@ =~= sysand_purl(publisher@, info.name@));
    Ok(string_from_chars(out.as_slice()))
}

pub proof fn lemma_valid_field_has_no_slash(s: Seq<char>, kind: FieldKind)
    requires
        valid_field(s, kind),
    ensures
        forall|i: int| 0 <= i < s.len() ==> #[trigger] normalized(s)[i] != '/',
{
    assert forall|i: int| 0 <= i < s.len() implies #[trigger] normalized(s)[i] != '/' by {
        let c = s[i];
        if 0 < i < s.len() - 1 && !is_alnum(c) {
            assert(is_separator(c, kind));
        }
        if 'A' <= c && c <= 'Z' {
            assert((c as u32) + 32 <= 'z' as u32);
        }
    }
}

/// An IRI inferred from a valid publisher and name is read back by the
/// index client as exactly that normalized publisher and name: published
/// projects land where readers look for them.
pub proof fn lemma_inferred_iri_is_routable(publisher: Seq<char>, name: Seq<char>)
    requires
        valid_field(publisher, FieldKind::Publisher),
        valid_field(name, FieldKind::Name),
    ensures
        pkg_sysand_parts(sysand_purl(publisher, name)) == Some(
            (normalized(publisher), normalized(name)),
        ),
        purl_outcome(sysand_purl(publisher, name)) == PurlOutcome::Parts(
            normalized(publisher),
            normalized(name),
        ),
{
    let np = normalized(publisher);
    let nn = normalized(name);
    let iri = sysand_purl(publisher, name);
    let pre = pkg_sysand_prefix();
    assert(iri.take(pre.len() as int) =~= pre);
    let rest = iri.skip(pre.len() as int);
    assert(rest =~= np + seq!['/'] + nn);
    lemma_valid_field_has_no_slash(publisher, FieldKind::Publisher);
    lemma_valid_field_has_no_slash(name, FieldKind::Name);
    let k = np.len() as int;
    assert(single_slash_at(rest, k)) by {
        assert forall|j: int| 0 <= j < rest.len() && j != k implies #[trigger] rest[j] != '/' by {
            if j < k {
                assert(rest[j] == np[j]);
            } else {
                assert(rest[j] == nn[j - k - 1]);
            }
        }
    }
    let c = choose|m: int| single_slash_at(rest, m);
    assert(single_slash_at(rest, c));
    if c != k {
        assert(rest[c] == '/');
    }
    assert(rest.take(k) =~= np);
    assert(rest.skip(k + 1) =~= nn);
    lemma_normalize_keeps_valid(publisher, FieldKind::Publisher);
    lemma_normalize_keeps_valid(name, FieldKind::Name);
}

/// Checks an IRI given explicitly for a release: any IRI is accepted except
/// a malformed `pkg:sysand` one.
pub fn validate_explicit_iri(iri: &str) -> (r: Result<(), IndexCommandError>)
    ensures
        r is Ok <==> (purl_outcome(iri@) is NotSysand || purl_outcome(iri@) is Parts),
        r matches Err(e) ==> e@ == IndexErrorView::MalformedSysandPurl(purl_outcome(iri@)),
{
    match parse_sysand_purl(iri) {
        Ok(_) => Ok(()),
        Err(e) => Err(IndexCommandError::MalformedSysandPurl(e)),
    }
}

/// The text of an explicitly given IRI, once checked.
pub fn validated_iri_string(iri: &str) -> (r: Result<String, IndexCommandError>)
    ensures
        r matches Ok(t) ==> t@ == iri@ && (purl_outcome(iri@) is NotSysand || purl_outcome(
            iri@,
        ) is Parts),
        r matches Err(e) ==> e@ == IndexErrorView::MalformedSysandPurl(purl_outcome(iri@)) && !(
        purl_outcome(iri@) is NotSysand || purl_outcome(iri@) is Parts),
{
    validate_explicit_iri(iri)?;
    Ok(iri.to_owned())
}

/// What choosing the IRI of a release yields: the explicit IRI, which must
/// not be a malformed `pkg:sysand` IRI, or the inferred one; then the
/// version must be an index version.
pub open spec fn release_outcome(
    publisher: Option<Seq<char>>,
    name: Seq<char>,
    version: Seq<char>,
    explicit: Option<Seq<char>>,
) -> Result<Seq<char>, IndexErrorView> {
    let iri = match explicit {
        Some(e) => if purl_outcome(e) is NotSysand || purl_outcome(e) is Parts {
            Ok(e)
        } else {
            Err(IndexErrorView::MalformedSysandPurl(purl_outcome(e)))
        },
        None => inferred_iri(publisher, name),
    };
    match iri {
        Err(x) => Err(x),
        Ok(t) => match index_version(version) {
            Some(_) => Ok(t),
            None => Err(version_error(version)),
        },
    }
}

/// The IRI under which a release is published: the explicit one if given
/// (it must not be a malformed `pkg:sysand` IRI), otherwise the one inferred
/// from the publisher and name. The version must be an index version.
pub fn release_iri(info: &ProjectInfo, explicit_iri: Option<&str>) -> (r: Result<
    String,
    IndexCommandError,
>)
    ensures
        text_result_view(r) == release_outcome(
            publisher_view(info),
            info.name@,
            info.version@,
            match explicit_iri {
                Some(e) => Some(e@),
                None => None,
            },
        ),
        r is Ok ==> canonical_text(index_version(info.version@)->0) == info.version@,
{
    let iri = match explicit_iri {
        Some(e) => validated_iri_string(e)?,
        None => infer_sysand_purl(info)?,
    };
    parse_version(info.version.as_str())?;
    Ok(iri)
}

/// Admits a new release of `version` under `iri`: the text must not be
/// listed already and the project must not have been removed; the project
/// is listed in the index if it was not.
pub fn admit_release(
    index: &mut IndexJson,
    versions: &VersionsJson,
    iri: &str,
    version: &str,
) -> (r: Result<(), IndexCommandError>)
    ensures
        (exists|k: int|
            0 <= k < versions.versions@.len() && versions.versions@[k].version@ == version@)
            ==> err_view_of(r) == Some(IndexErrorView::DuplicateVersion { iri: iri@, version: version@ })
            && final(index).projects@ == old(index).projects@,
        !(exists|k: int|
            0 <= k < versions.versions@.len() && versions.versions@[k].version@ == version@)
            ==> registers(old(index).projects@, final(index).projects@, iri@, err_view_of(r)),
{
    versions.check_not_listed(iri, version)?;
    index.register_release(iri)
}

/// The `versions.json` entry of a new release: its digests are written
/// with the `sha256:` prefix, and it starts out available.
pub fn release_entry(
    version: &str,
    usage: Vec<UsageRaw>,
    project_digest_hex: &str,
    kpar_size: u64,
    kpar_digest_hex: &str,
) -> (r: VersionEntry)
    ensures
        r.version@ == version@,
        r.usage@ == usage@,
        r.project_digest@ == "sha256:"@ + project_digest_hex@,
        r.kpar_size == kpar_size,
        r.kpar_digest@ == "sha256:"@ + kpar_digest_hex@,
        r.status == VersionStatus::Available,
{
    let prefix = chars_of("sha256:");
    let pd = concat_chars(&prefix, &chars_of(project_digest_hex));
    let kd = concat_chars(&prefix, &chars_of(kpar_digest_hex));
    VersionEntry {
        version: version.to_string(),
        usage,
        project_digest: string_from_chars(pd.as_slice()),
        kpar_size,
        kpar_digest: string_from_chars(kd.as_slice()),
        status: VersionStatus::Available,
    }
}

/// The text of an optional explicit IRI.
pub open spec fn explicit_view(explicit_iri: Option<&str>) -> Option<Seq<char>> {
    match explicit_iri {
        Some(e) => Some(e@),
        None => None,
    }
}

/// `i` is the first usage whose check reported a problem.
pub open spec fn is_first_usage_problem(checks: Seq<Option<String>>, i: int) -> bool {
    &&& 0 <= i < checks.len()
    &&& checks[i] is Some
    &&& forall|j: int| 0 <= j < i ==> #[trigger] checks[j] is None
}

/// Every usage passed its check.
pub open spec fn usages_pass(checks: Seq<Option<String>>) -> bool {
    forall|j: int| 0 <= j < checks.len() ==> #[trigger] checks[j] is None
}

/// Whether `versions` lists `version` by its exact text.
pub open spec fn lists_text(vs: Seq<VersionEntry>, version: Seq<char>) -> bool {
    exists|k: int| 0 <= k < vs.len() && vs[k].version@ == version
}

/// A valid list, extended by an entry of a new canonical version text, is
/// still a list of distinct index versions.
proof fn lemma_push_stays_distinct(ws: Seq<VersionEntry>, e: VersionEntry)
    requires
        canonical_texts(version_texts(ws)),
        distinct_versions(version_texts(ws)),
        index_version(e.version@) is Some,
        canonical_text(index_version(e.version@)->0) == e.version@,
        !lists_text(ws, e.version@),
    ensures
        all_index_versions(version_texts(ws.push(e))),
        distinct_versions(version_texts(ws.push(e))),
{
    let vt = version_texts(ws);
    let ut = version_texts(ws.push(e));
    assert forall|k: int| 0 <= k < ws.len() implies #[trigger] ut[k] == vt[k] by {}
    assert(ut[ws.len() as int] == e.version@);
    assert forall|k: int| 0 <= k < ut.len() implies #[trigger] index_version(ut[k]) is Some by {
        if k < ws.len() {
            assert(index_version(vt[k]) is Some);
        }
    }
    assert forall|i: int, j: int| 0 <= i < j < ut.len() implies #[trigger] index_version(ut[i])
        != #[trigger] index_version(ut[j]) by {
        if j < ws.len() {
            assert(index_version(vt[i]) != index_version(vt[j]));
        } else {
            assert(ut[i] == vt[i]);
            assert(index_version(vt[i]) is Some);
            if index_version(ut[i]) == index_version(ut[j]) {
                assert(vt[i] == ws[i].version@);
                assert(ws[i].version@ == e.version@);
            }
        }
    }
}

/// Publishes a release into the in-memory documents of an index, as
/// `index add` does once the archive has been read. In order: the IRI is
/// chosen and the version checked, the usages must have passed their checks
/// (`usage_checks` holds, for each usage of `info`, the problem its check
/// reported, if any), the existing `versions.json` must be valid, the
/// version must not be listed already and the project must not have been
/// removed. Then the project is listed and the entry (the archive's size and
/// SHA-256 digest, the canonical project digest) is added in newest-first
/// order. On every error both documents are left as they were. Returns the
/// IRI.
pub fn add_release(
    index: &mut IndexJson,
    versions: &mut VersionsJson,
    info: &ProjectInfo,
    explicit_iri: Option<&str>,
    usage_checks: &Vec<Option<String>>,
    kpar: &[u8],
    project_digest_hex: &str,
) -> (r: Result<String, IndexCommandError>)
    requires
        is_lower_hex_digest(project_digest_hex@),
        usage_checks@.len() == info.usage@.len(),
    ensures
        r is Err ==> final(index).projects@ == old(index).projects@ && final(versions).versions@
            == old(versions).versions@,
        release_outcome(publisher_view(info), info.name@, info.version@, explicit_view(explicit_iri))
            is Err ==> text_result_view(r) == release_outcome(
            publisher_view(info),
            info.name@,
            info.version@,
            explicit_view(explicit_iri),
        ),
        release_outcome(publisher_view(info), info.name@, info.version@, explicit_view(explicit_iri))
            matches Ok(t) ==> {
            &&& forall|i: int| #[trigger]
                is_first_usage_problem(usage_checks@, i) ==> err_view_of(r) == Some(
                    IndexErrorView::InvalidUsage {
                        resource: info.usage@[i].resource@,
                        message: usage_checks@[i]->Some_0@,
                    },
                )
            &&& usages_pass(usage_checks@) ==> match existing_check_from(
                version_texts(old(versions).versions@),
                0,
            ) {
                Some(e) => err_view_of(r) == Some(e),
                None => {
                    &&& lists_text(old(versions).versions@, info.version@) ==> err_view_of(r)
                        == Some(IndexErrorView::DuplicateVersion { iri: t, version: info.version@ })
                    &&& !lists_text(old(versions).versions@, info.version@) ==> registers(
                        old(index).projects@,
                        final(index).projects@,
                        t,
                        err_view_of(r),
                    )
                },
            }
        },
        r matches Ok(t) ==> release_outcome(
            publisher_view(info),
            info.name@,
            info.version@,
            explicit_view(explicit_iri),
        ) == Ok::<Seq<char>, IndexErrorView>(t@) && registers(
            old(index).projects@,
            final(index).projects@,
            t@,
            None,
        ) && (exists|e: VersionEntry|
            #[trigger] permutation_of(final(versions).versions@, old(versions).versions@.push(e))
                && e.version@ == info.version@ && e.usage@ == info.usage@ && e.project_digest@
                == "sha256:"@ + project_digest_hex@ && e.kpar_size == kpar@.len() && e.kpar_digest@
                == "sha256:"@ + sha256_hex(kpar@) && e.status == VersionStatus::Available)
            && strictly_descending(version_texts(final(versions).versions@)) && distinct_versions(
            version_texts(final(versions).versions@),
        ),
        r is Ok && well_formed_versions(old(versions).versions@) ==> well_formed_versions(
            final(versions).versions@,
        ),
{
    let iri = match release_iri(info, explicit_iri) {
        Ok(t) => t,
        Err(e) => return Err(e),
    };
    let n: usize = usage_checks.len();
    let mut i: usize = 0;
    while i < n
        invariant
            n == usage_checks@.len(),
            n == info.usage@.len(),
            i <= n,
            forall|j: int| 0 <= j < i ==> #[trigger] usage_checks@[j] is None,
            release_outcome(publisher_view(info), info.name@, info.version@, explicit_view(explicit_iri))
                == Ok::<Seq<char>, IndexErrorView>(iri@),
            index.projects@ == old(index).projects@,
            versions.versions@ == old(versions).versions@,
        decreases n - i,
    {
        match &usage_checks[i] {
            Some(m) => {
                proof {
                    assert forall|k: int| #[trigger] is_first_usage_problem(usage_checks@, k) implies k
                        == i by {
                        if k < i {
                            assert(usage_checks@[k] is None);
                        } else if k > i {
                            assert(usage_checks@[i as int] is None);
                        }
                    }
                }
                return Err(
                    IndexCommandError::InvalidUsage {
                        resource: info.usage[i].resource.clone(),
                        message: m.clone(),
                    },
                );
            },
            None => {},
        }
        i = i + 1;
    }
    assert(!exists|k: int| is_first_usage_problem(usage_checks@, k));
    match versions.validate_existing() {
        Ok(()) => {},
        Err(e) => return Err(e),
    }
    let listed = versions.lists_version_text(info.version.as_str());
    assert(listed == lists_text(versions.versions@, info.version@));
    match admit_release(index, versions, iri.as_str(), info.version.as_str()) {
        Ok(()) => {},
        Err(e) => {
            proof {
                let ps = old(index).projects@;
                if !listed && exists|j: int| 0 <= j < ps.len() && ps[j].iri@ == iri@ {
                    let j = choose|j: int| 0 <= j < ps.len() && ps[j].iri@ == iri@;
                    lemma_listed_project_has_first(ps, iri@, j);
                    let k = choose|k: int| is_first_project_pos(ps, iri@, k);
                    assert(is_first_project_pos(ps, iri@, k));
                }
            }
            return Err(e);
        },
    }
    let size: u64 = kpar.len() as u64;
    let digest = crate::http_index::sha256_hex_of(kpar);
    let usage = crate::indexed_remote::copy_usages(&info.usage);
    let entry = release_entry(info.version.as_str(), usage, project_digest_hex, size, digest.as_str());
    let ghost e = entry;
    proof {
        reveal_strlit("sha256:");
        assert(("sha256:"@ + project_digest_hex@).take(7) =~= sha256_prefix());
        assert(("sha256:"@ + project_digest_hex@).skip(7) =~= project_digest_hex@);
        assert(("sha256:"@ + digest@).take(7) =~= sha256_prefix());
        assert(("sha256:"@ + digest@).skip(7) =~= digest@);
        assert(digests_written(e));
    }
    let ghost before = versions.versions@;
    proof {
        lemma_push_stays_distinct(before, e);
    }
    match versions.append_release(entry) {
        Ok(()) => {},
        Err(err) => return Err(err),
    }
    proof {
        let all = before.push(e);
        let p = choose|p: Seq<int>|
            is_index_permutation(p, all.len() as int) && versions.versions@.len() == all.len()
                && forall|k: int|
                0 <= k < versions.versions@.len() ==> versions.versions@[k] == all[#[trigger] p[k]];
        let ft = version_texts(versions.versions@);
        let at = version_texts(all);
        assert forall|k: int| 0 <= k < ft.len() implies #[trigger] index_version(ft[k]) is Some
            && canonical_text(index_version(ft[k])->0) == ft[k] by {
            assert(versions.versions@[k] == all[p[k]]);
            assert(ft[k] == all[p[k]].version@);
            if p[k] < before.len() {
                assert(all[p[k]] == before[p[k]]);
                assert(version_texts(before)[p[k]] == before[p[k]].version@);
                assert(index_version(version_texts(before)[p[k]]) is Some);
            }
        }
        if well_formed_versions(before) {
            assert forall|k: int| 0 <= k < versions.versions@.len() implies #[trigger] digests_written(
                versions.versions@[k],
            ) by {
                assert(versions.versions@[k] == all[p[k]]);
                if p[k] < before.len() {
                    assert(digests_written(before[p[k]]));
                }
            }
        }
    }
    Ok(iri)
}

/// 64 lower-case hexadecimal digits: a SHA-256 digest as the index writes it.
pub open spec fn is_lower_hex_digest(h: Seq<char>) -> bool {
    &&& h.len() == 64
    &&& forall|i: int| 0 <= i < h.len() ==> #[trigger] is_lower_hex_digit(h[i])
}

/// A digest field as the index writes it: `sha256:` and the lower-case
/// hexadecimal digest.
pub open spec fn written_digest(d: Seq<char>) -> bool {
    &&& d.len() >= 7
    &&& d.take(7) == sha256_prefix()
    &&& is_lower_hex_digest(d.skip(7))
}

/// Both digests of an entry are written in the index's form.
pub open spec fn digests_written(e: VersionEntry) -> bool {
    written_digest(e.project_digest@) && written_digest(e.kpar_digest@)
}

/// A `versions.json` as the index keeps it: index versions written in their
/// canonical form, strictly newest first, none denoting the same version
/// twice, every digest in the written form.
pub open spec fn well_formed_versions(ws: Seq<VersionEntry>) -> bool {
    &&& strictly_descending(version_texts(ws))
    &&& distinct_versions(version_texts(ws))
    &&& canonical_texts(version_texts(ws))
    &&& forall|i: int| 0 <= i < ws.len() ==> #[trigger] digests_written(ws[i])
}

/// An entry as a client reads it (the status is not read).
pub open spec fn read_view(e: VersionEntry) -> VersionEntryView {
    VersionEntryView {
        version: e.version@,
        usage: e.usage@,
        project_digest: e.project_digest@,
        kpar_size: e.kpar_size,
        kpar_digest: e.kpar_digest@,
    }
}

/// The entries of a `versions.json` as a client reads them.
pub open spec fn read_views(ws: Seq<VersionEntry>) -> Seq<VersionEntryView> {
    Seq::new(ws.len(), |i: int| read_view(ws[i]))
}

/// What a client makes of an entry the index wrote: its version parsed, its
/// digests without the prefix.
pub open spec fn accepted_view(e: VersionEntry) -> AdvertisedView {
    AdvertisedView {
        version: index_version(e.version@)->0,
        usage: e.usage@,
        project_digest: e.project_digest@.skip(7),
        kpar_size: e.kpar_size,
        kpar_digest: e.kpar_digest@.skip(7),
    }
}

/// What a client makes of every entry, in order.
pub open spec fn accepted_views(ws: Seq<VersionEntry>) -> Seq<AdvertisedView> {
    Seq::new(ws.len(), |i: int| accepted_view(ws[i]))
}

/// A digest in the written form is accepted, and reads back as its digits.
pub proof fn lemma_written_digest_is_accepted(d: Seq<char>)
    requires
        written_digest(d),
    ensures
        digest_parse(d) == Some(d.skip(7)),
{
    let hex = d.skip(7);
    assert forall|i: int| 0 <= i < hex.len() implies is_hex_digit(#[trigger] hex[i]) by {
        assert(is_lower_hex_digit(hex[i]));
    }
    assert forall|i: int| 0 <= i < hex.len() implies #[trigger] ascii_lowercase(hex)[i] == hex[i] by {
        assert(is_lower_hex_digit(hex[i]));
    }
    assert(ascii_lowercase(hex) =~= hex);
}

/// Every entry of a list whose versions are index versions and whose digests
/// are written is accepted, in order.
proof fn lemma_written_entries_validate(url: Seq<char>, ws: Seq<VersionEntry>)
    requires
        all_index_versions(version_texts(ws)),
        forall|i: int| 0 <= i < ws.len() ==> #[trigger] digests_written(ws[i]),
    ensures
        validated_entries(url, read_views(ws)) == Ok::<Seq<AdvertisedView>, HttpIndexErrorView>(
            accepted_views(ws),
        ),
    decreases ws.len(),
{
    if ws.len() > 0 {
        let init = ws.drop_last();
        assert forall|i: int| 0 <= i < version_texts(init).len() implies #[trigger] index_version(
            version_texts(init)[i],
        ) is Some by {
            assert(version_texts(init)[i] == version_texts(ws)[i]);
        }
        assert forall|i: int| 0 <= i < init.len() implies #[trigger] digests_written(init[i]) by {
            assert(init[i] == ws[i]);
        }
        lemma_written_entries_validate(url, init);
        assert(read_views(ws).drop_last() =~= read_views(init));
        let last = ws[ws.len() - 1];
        assert(read_views(ws).last() == read_view(last));
        assert(index_version(version_texts(ws)[ws.len() - 1]) is Some);
        assert(digests_written(last));
        lemma_written_digest_is_accepted(last.project_digest@);
        lemma_written_digest_is_accepted(last.kpar_digest@);
        assert(entry_outcome(url, read_view(last)) == Ok::<AdvertisedView, HttpIndexErrorView>(
            accepted_view(last),
        ));
        assert(accepted_views(init).push(accepted_view(last)) =~= accepted_views(ws));
    } else {
        assert(accepted_views(ws) =~= Seq::<AdvertisedView>::empty());
    }
}

/// What the index writes, a client reads back unchanged: a `versions.json`
/// kept as the index keeps it passes the client's validation, with one
/// accepted entry per written entry, in the written order, each carrying
/// the written version, usages, size and digests; each accepted version is
/// written back as exactly the text the index wrote.
pub proof fn lemma_written_versions_are_accepted(url: Seq<char>, ws: Seq<VersionEntry>)
    requires
        well_formed_versions(ws),
    ensures
        versions_outcome(url, read_views(ws)) == Ok::<Seq<AdvertisedView>, HttpIndexErrorView>(
            accepted_views(ws),
        ),
        forall|i: int|
            0 <= i < ws.len() ==> version_text(#[trigger] accepted_views(ws)[i].version)
                == ws[i].version@,
{
    assert forall|i: int| 0 <= i < ws.len() implies version_text(
        #[trigger] accepted_views(ws)[i].version,
    ) == ws[i].version@ by {
        assert(version_texts(ws)[i] == ws[i].version@);
        assert(index_version(version_texts(ws)[i]) is Some);
    }
    let vt = version_texts(ws);
    assert forall|i: int| 0 <= i < vt.len() implies #[trigger] index_version(vt[i]) is Some by {}
    lemma_written_entries_validate(url, ws);
    let vs = accepted_views(ws);
    assert forall|j: int| !is_first_duplicate(vs, j) by {
        if is_first_duplicate(vs, j) {
            let i = choose|i: int| 0 <= i < j && #[trigger] vs[i].version == vs[j].version;
            assert(index_version(vt[i]) != index_version(vt[j]));
            assert(index_version(vt[i]) is Some && index_version(vt[j]) is Some);
        }
    }
}

/// Every `versions.json` an index passes through is read back by a client:
/// starting from an empty list, through steps that each keep the list well
/// formed whenever it was (as `add_release`, failed or not, `yank`,
/// `remove_version` and `remove_all` all do), every state is accepted by the
/// client's validation, entry for entry and text for text.
pub proof fn lemma_every_written_state_is_accepted(url: Seq<char>, hs: Seq<Seq<VersionEntry>>, i: int)
    requires
        hs.len() > 0,
        hs[0].len() == 0,
        forall|j: int|
            0 <= j < hs.len() - 1 ==> (well_formed_versions(#[trigger] hs[j]) ==> well_formed_versions(
                hs[j + 1],
            )),
        0 <= i < hs.len(),
    ensures
        versions_outcome(url, read_views(hs[i])) == Ok::<Seq<AdvertisedView>, HttpIndexErrorView>(
            accepted_views(hs[i]),
        ),
        forall|k: int|
            0 <= k < hs[i].len() ==> version_text(#[trigger] accepted_views(hs[i])[k].version)
                == hs[i][k].version@,
{
    lemma_history_well_formed(hs, i);
    lemma_written_versions_are_accepted(url, hs[i]);
}

proof fn lemma_history_well_formed(hs: Seq<Seq<VersionEntry>>, i: int)
    requires
        hs.len() > 0,
        hs[0].len() == 0,
        forall|j: int|
            0 <= j < hs.len() - 1 ==> (well_formed_versions(#[trigger] hs[j]) ==> well_formed_versions(
                hs[j + 1],
            )),
        0 <= i < hs.len(),
    ensures
        well_formed_versions(hs[i]),
    decreases i,
{
    if i == 0 {
        lemma_empty_versions_well_formed();
        assert(hs[0] =~= Seq::<VersionEntry>::empty());
    } else {
        lemma_history_well_formed(hs, i - 1);
        assert(well_formed_versions(hs[i - 1]));
    }
}

/// An empty `versions.json` is well formed.
pub proof fn lemma_empty_versions_well_formed()
    ensures
        well_formed_versions(Seq::<VersionEntry>::empty()),
{
    assert(version_texts(Seq::<VersionEntry>::empty()) =~= Seq::<Seq<char>>::empty());
}

/// Changing the status of an entry keeps a `versions.json` well formed:
/// yanking and removing never make the file unreadable.
pub proof fn lemma_status_change_keeps_well_formed(
    ws: Seq<VersionEntry>,
    k: int,
    status: VersionStatus,
)
    requires
        well_formed_versions(ws),
        0 <= k < ws.len(),
    ensures
        well_formed_versions(ws.update(k, with_status(ws[k], status))),
{
    let us = ws.update(k, with_status(ws[k], status));
    assert(version_texts(us) =~= version_texts(ws));
    assert forall|i: int| 0 <= i < us.len() implies #[trigger] digests_written(us[i]) by {
        assert(digests_written(ws[i]));
    }
}

} // verus!
