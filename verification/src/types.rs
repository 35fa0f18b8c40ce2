//! The vocabulary of the public operations: modes, options and results.

use vstd::prelude::*;

verus! {

/// What `usage add` updates besides the manifest.
#[derive(Debug, Clone, Copy, PartialEq, Eq, Structural)]
pub enum UpdateMode {
    /// Only the `.project.json` manifest.
    Manifest,
    /// The manifest and the lockfile.
    Lock,
    /// The manifest, the lockfile and the environment.
    Sync,
}

impl Default for UpdateMode {
    fn default() -> (r: UpdateMode)
        ensures
            r == UpdateMode::Sync,
    {
        UpdateMode::Sync
    }
}

/// Whether transitive usages are fetched.
#[derive(Debug, Clone, Copy, PartialEq, Eq, Structural)]
pub enum DepsMode {
    /// All transitive dependencies.
    All,
    /// No dependency.
    NoDeps,
}

impl Default for DepsMode {
    fn default() -> (r: DepsMode)
        ensures
            r == DepsMode::All,
    {
        DepsMode::All
    }
}

/// Whether the default indexes are queried.
#[derive(Debug, Clone, Copy, PartialEq, Eq, Structural)]
pub enum IndexModeOption {
    /// The default indexes are used.
    Default,
    /// No index is used.
    NoIndexes,
}

impl Default for IndexModeOption {
    fn default() -> (r: IndexModeOption)
        ensures
            r == IndexModeOption::Default,
    {
        IndexModeOption::Default
    }
}

/// Whether source files get a checksum.
#[derive(Debug, Clone, Copy, PartialEq, Eq, Structural)]
pub enum ChecksumMode {
    /// No checksum.
    NoChecksum,
    /// A SHA-256 checksum.
    Sha256,
}

impl Default for ChecksumMode {
    fn default() -> (r: ChecksumMode)
        ensures
            r == ChecksumMode::NoChecksum,
    {
        ChecksumMode::NoChecksum
    }
}

/// Whether symbols are indexed when sources are added.
#[derive(Debug, Clone, Copy, PartialEq, Eq, Structural)]
pub enum IndexSymbols {
    /// Symbols are indexed.
    On,
    /// Symbols are not indexed.
    Off,
}

impl Default for IndexSymbols {
    fn default() -> (r: IndexSymbols)
        ensures
            r == IndexSymbols::On,
    {
        IndexSymbols::On
    }
}

/// The language of source files.
#[derive(Debug, Clone, Copy, PartialEq, Eq, Structural)]
pub enum Language {
    /// Detected from the file extension.
    Auto,
    /// SysML v2.
    Sysml,
    /// KerML.
    Kerml,
}

impl Default for Language {
    fn default() -> (r: Language)
        ensures
            r == Language::Auto,
    {
        Language::Auto
    }
}

/// How the files of a project archive are compressed.
#[derive(Debug, Clone, Copy, PartialEq, Eq, Structural)]
pub enum Compression {
    /// No compression.
    Stored,
    /// Deflate.
    Deflated,
    /// Bzip2.
    Bzip2,
    /// Zstandard.
    Zstd,
    /// XZ.
    Xz,
    /// PPMd.
    Ppmd,
}

impl Default for Compression {
    fn default() -> (r: Compression)
        ensures
            r == Compression::Deflated,
    {
        Compression::Deflated
    }
}

/// The kind of a source location.
#[derive(Debug, Clone, Copy, PartialEq, Eq, Structural)]
pub enum SourceKind {
    /// A local project whose changes are picked up live.
    Editable,
    /// A local source directory.
    LocalSrc,
    /// A local `.kpar` archive.
    LocalKpar,
    /// A package index.
    Registry,
    /// A remote source directory.
    RemoteSrc,
    /// A remote `.kpar` archive.
    RemoteKpar,
    /// A git repository.
    RemoteGit,
    /// An API endpoint.
    RemoteApi,
}

/// Options of `init`.
#[derive(Debug, Clone)]
pub struct InitOptions {
    pub name: Option<String>,
    pub publisher: Option<String>,
    pub version: Option<String>,
    pub license: Option<String>,
    pub allow_non_spdx: bool,
}

impl Default for InitOptions {
    fn default() -> (r: InitOptions)
        ensures
            r.name is None,
            r.publisher is None,
            r.version is None,
            r.license is None,
            !r.allow_non_spdx,
    {
        InitOptions { name: None, publisher: None, version: None, license: None, allow_non_spdx: false }
    }
}

/// Options of adding source files.
#[derive(Debug, Clone, Copy)]
pub struct SourceAddOptions {
    pub checksum: ChecksumMode,
    pub index_symbols: IndexSymbols,
    pub language: Language,
}

impl Default for SourceAddOptions {
    fn default() -> (r: SourceAddOptions)
        ensures
            r.checksum == ChecksumMode::NoChecksum,
            r.index_symbols == IndexSymbols::On,
            r.language == Language::Auto,
    {
        SourceAddOptions {
            checksum: ChecksumMode::NoChecksum,
            index_symbols: IndexSymbols::On,
            language: Language::Auto,
        }
    }
}

/// The indexes a command queries.
#[derive(Debug, Clone)]
pub struct IndexOptions {
    pub indexes: Vec<String>,
    pub default_indexes: Vec<String>,
    pub index_mode: IndexModeOption,
}

impl Default for IndexOptions {
    fn default() -> (r: IndexOptions)
        ensures
            r.indexes@.len() == 0,
            r.default_indexes@.len() == 0,
            r.index_mode == IndexModeOption::Default,
    {
        IndexOptions {
            indexes: Vec::new(),
            default_indexes: Vec::new(),
            index_mode: IndexModeOption::Default,
        }
    }
}

/// A source override: a kind of location and its value.
#[derive(Debug, Clone)]
pub struct SourceSpec {
    pub kind: SourceKind,
    pub value: String,
}

/// Options of `usage add`.
#[derive(Debug, Clone)]
pub struct UsageAddOptions {
    pub version_req: Option<String>,
    pub source: Option<SourceSpec>,
    pub update: UpdateMode,
    pub include_std: bool,
    pub index: IndexOptions,
}

impl Default for UsageAddOptions {
    fn default() -> (r: UsageAddOptions)
        ensures
            r.version_req is None,
            r.source is None,
            r.update == UpdateMode::Sync,
            !r.include_std,
            r.index.indexes@.len() == 0,
            r.index.default_indexes@.len() == 0,
            r.index.index_mode == IndexModeOption::Default,
    {
        UsageAddOptions {
            version_req: None,
            source: None,
            update: UpdateMode::Sync,
            include_std: false,
            index: IndexOptions::default(),
        }
    }
}

/// Options of `lock update`.
#[derive(Debug, Clone)]
pub struct LockUpdateOptions {
    pub include_std: bool,
    pub index: IndexOptions,
}

impl Default for LockUpdateOptions {
    fn default() -> (r: LockUpdateOptions)
        ensures
            !r.include_std,
            r.index.indexes@.len() == 0,
            r.index.default_indexes@.len() == 0,
            r.index.index_mode == IndexModeOption::Default,
    {
        LockUpdateOptions { include_std: false, index: IndexOptions::default() }
    }
}

/// One project installed in an environment.
#[derive(Debug, Clone)]
pub struct EnvEntry {
    /// The project's IRI.
    pub iri: String,
    /// The installed version, when known.
    pub version: Option<String>,
}

} // verus!
