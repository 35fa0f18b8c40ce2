//! The command line's vocabulary and the decisions it makes before calling
//! the library: log level, configuration mode, update mode, which project a
//! clone locator names, and which version of a project is cloned.

use vstd::prelude::*;

use crate::error::{ErrorCode, SysandError};
use crate::facade::KparCompressionMethod;
use crate::http_index::string_views;
use crate::text::{chars_of, concat_chars, contains_seq, find_chars, str_equal, string_from_chars};
use crate::versions::{SemVer, VersionView, compare_versions, parse_semver, semver_order, semver_parse};

verus! {

/// How the files of a project archive are compressed, as the command line
/// spells it.
#[derive(Debug, Clone, Copy, PartialEq, Eq, Structural)]
pub enum KparCompressionMethodCli {
    /// Store the files as is.
    Stored,
    /// Compress the files with Deflate.
    Deflated,
}

impl Default for KparCompressionMethodCli {
    fn default() -> (r: KparCompressionMethodCli)
        ensures
            r == KparCompressionMethodCli::Deflated,
    {
        KparCompressionMethodCli::Deflated
    }
}

impl KparCompressionMethodCli {
    /// The library's compression method.
    pub fn to_method(self) -> (r: KparCompressionMethod)
        ensures
            self == KparCompressionMethodCli::Stored <==> r == KparCompressionMethod::Stored,
    {
        match self {
            KparCompressionMethodCli::Stored => KparCompressionMethod::Stored,
            KparCompressionMethodCli::Deflated => KparCompressionMethod::Deflated,
        }
    }

    /// The command-line spelling of a compression method.
    pub fn from_method(m: KparCompressionMethod) -> (r: KparCompressionMethodCli)
        ensures
            r == KparCompressionMethodCli::Stored <==> m == KparCompressionMethod::Stored,
    {
        match m {
            KparCompressionMethod::Stored => KparCompressionMethodCli::Stored,
            KparCompressionMethod::Deflated => KparCompressionMethodCli::Deflated,
        }
    }
}

/// The metamodel a project is written in.
#[derive(Debug, Clone, Copy, PartialEq, Eq, Structural)]
pub enum MetamodelKind {
    /// SysML v2: `https://www.omg.org/spec/SysML/<release>`.
    SysML,
    /// KerML: `https://www.omg.org/spec/KerML/<release>`.
    KerML,
}

/// The identifier prefix of a metamodel.
pub open spec fn metamodel_prefix(k: MetamodelKind) -> Seq<char> {
    match k {
        MetamodelKind::SysML => "https://www.omg.org/spec/SysML/"@,
        MetamodelKind::KerML => "https://www.omg.org/spec/KerML/"@,
    }
}

impl MetamodelKind {
    /// The identifier prefix of SysML v2.
    pub const SYSML: &'static str = "https://www.omg.org/spec/SysML/";
    /// The identifier prefix of KerML.
    pub const KERML: &'static str = "https://www.omg.org/spec/KerML/";

    /// The identifier prefix of the metamodel.
    pub fn as_str(self) -> (r: &'static str)
        ensures
            r@ == metamodel_prefix(self),
    {
        match self {
            MetamodelKind::SysML => Self::SYSML,
            MetamodelKind::KerML => Self::KERML,
        }
    }
}

/// A release of the metamodels.
#[allow(non_camel_case_types)]
#[derive(Debug, Clone, Copy, PartialEq, Eq, Structural)]
pub enum MetamodelVersion {
    /// The 2025-02-01 release (SysML v2 / KerML release, or Beta 4).
    Release_20250201,
}

impl MetamodelVersion {
    /// The 2025-02-01 release as it appears in identifiers.
    pub const RELEASE: &'static str = "20250201";

    /// The release as it appears in identifiers.
    pub fn as_str(self) -> (r: &'static str)
        ensures
            r@ == "20250201"@,
    {
        match self {
            MetamodelVersion::Release_20250201 => Self::RELEASE,
        }
    }
}

/// A metamodel and its release.
#[derive(Debug, Clone, Copy, PartialEq, Eq, Structural)]
pub struct Metamodel(pub MetamodelKind, pub MetamodelVersion);

impl Metamodel {
    /// The metamodel's identifier: the prefix followed by the release.
    pub fn to_string(self) -> (r: String)
        ensures
            r@ == metamodel_prefix(self.0) + "20250201"@,
    {
        let s = concat_chars(&chars_of(self.0.as_str()), &chars_of(self.1.as_str()));
        string_from_chars(s.as_slice())
    }
}

/// Options of `env install`.
#[derive(Debug, Clone)]
pub struct InstallOptions {
    /// Overwrite an existing installation.
    pub allow_overwrite: bool,
    /// Install even if another version is installed.
    pub allow_multiple: bool,
    /// `all` or `none`.
    pub deps: String,
}

/// How packages and their dependencies are resolved.
#[derive(Debug, Clone)]
pub struct ResolutionOptions {
    /// Indexes used in addition to the default ones.
    pub index: Vec<String>,
    /// The default indexes.
    pub default_index: Vec<String>,
    /// `default` or `none`.
    pub index_mode: String,
    /// Whether the standard libraries are installed when depended on.
    pub include_std: bool,
}

/// Options of every command.
#[derive(Debug, Clone)]
pub struct GlobalOptions {
    pub verbose: bool,
    pub quiet: bool,
    /// `auto`, `none`, or the path of a configuration file.
    pub config: String,
}

/// Lockfile operations.
#[derive(Debug, Clone)]
pub enum LockCommand {
    /// Create or update the lockfile.
    Update { resolution_opts: ResolutionOptions },
}

/// How much is logged.
#[derive(Debug, Clone, Copy, PartialEq, Eq, Structural)]
pub enum LogLevel {
    /// Errors only.
    Error,
    /// Informational messages and above.
    Info,
    /// Debug messages and above.
    Debug,
}

/// The log level for the verbosity flags; the command line never sets both.
pub fn get_log_level(verbose: bool, quiet: bool) -> (r: LogLevel)
    requires
        !(verbose && quiet),
    ensures
        verbose ==> r == LogLevel::Debug,
        quiet ==> r == LogLevel::Error,
        !verbose && !quiet ==> r == LogLevel::Info,
{
    if verbose {
        LogLevel::Debug
    } else if quiet {
        LogLevel::Error
    } else {
        LogLevel::Info
    }
}

/// The configuration file named by `--config`: none for `auto` and `none`.
pub fn config_file_for_compat(config: &str) -> (r: Option<String>)
    ensures
        (config@ == "auto"@ || config@ == "none"@) ==> r is None,
        !(config@ == "auto"@ || config@ == "none"@) ==> r is Some && r->Some_0@ == config@,
{
    if str_equal(config, "auto") || str_equal(config, "none") {
        None
    } else {
        Some(config.to_string())
    }
}

/// What `usage add --update` skips: the lockfile for `manifest`, and the
/// environment sync for `manifest` and `lock`.
pub fn update_flags(update: &str) -> (r: (bool, bool))
    ensures
        r.0 == (update@ == "manifest"@),
        r.1 == (update@ == "manifest"@ || update@ == "lock"@),
{
    let no_lock = str_equal(update, "manifest");
    let no_sync = no_lock || str_equal(update, "lock");
    (no_lock, no_sync)
}

/// Whether a `--deps` value skips dependencies.
pub fn no_deps(deps: &str) -> (r: bool)
    ensures
        r == (deps@ == "none"@),
{
    str_equal(deps, "none")
}

/// Whether an `--index-mode` value disables indexes.
pub fn indexes_disabled(index_mode: &str) -> (r: bool)
    ensures
        r == (index_mode@ == "none"@),
{
    str_equal(index_mode, "none")
}

/// Where a project to clone comes from.
#[derive(Debug, Clone)]
pub enum ProjectLocator {
    /// A project identified by an IRI.
    Iri(String),
    /// A project directory.
    Path(String),
}

/// What `fluent_uri::Iri::parse` reports for a text: `None` when it accepts
/// the text as an IRI (RFC 3987), else the error's message.
pub uninterp spec fn iri_error(text: Seq<char>) -> Option<Seq<char>>;

/// Parses `text` as an IRI with `fluent_uri::Iri::parse` (which
/// `Iri::from_str` equals); refused exactly when the crate refuses it, with
/// the crate's message.
#[verifier::external_body]
pub(crate) fn check_iri(text: &str) -> (r: Result<(), String>)
    ensures
        match r {
            Ok(()) => iri_error(text@) is None,
            Err(m) => iri_error(text@) == Some(m@),
        },
{
    match fluent_uri::Iri::parse(text) {
        Ok(_) => Ok(()),
        Err(e) => Err(e.to_string()),
    }
}

/// The locator of a project to clone: an automatic location is an IRI when
/// it parses as one and a path otherwise; else the explicit path, else the
/// explicit IRI. The command line passes exactly one of the three.
pub fn choose_locator(auto_location: Option<String>, iri: Option<String>, path: Option<String>) -> (r:
    ProjectLocator)
    requires
        auto_location is Some || iri is Some || path is Some,
    ensures
        match auto_location {
            Some(a) => if iri_error(a@) is None {
                r matches ProjectLocator::Iri(i) && i@ == a@
            } else {
                r matches ProjectLocator::Path(p) && p@ == a@
            },
            None => match path {
                Some(p0) => r matches ProjectLocator::Path(p) && p@ == p0@,
                None => r matches ProjectLocator::Iri(i) && i@ == iri->Some_0@,
            },
        },
{
    match auto_location {
        Some(a) => {
            if check_iri(a.as_str()).is_ok() {
                ProjectLocator::Iri(a)
            } else {
                ProjectLocator::Path(a)
            }
        },
        None => match path {
            Some(p) => ProjectLocator::Path(p),
            None => match iri {
                Some(i) => ProjectLocator::Iri(i),
                None => ProjectLocator::Iri(String::new()),
            },
        },
    }
}

/// Why no version of a project can be cloned.
pub enum CloneVersionError {
    /// The requested version is not a semantic version.
    InvalidRequested { version: String, message: String },
    /// No candidate has the requested version.
    MissingProjectVersion { iri: String, version: String },
    /// No candidate has a usable version.
    MissingProject { iri: String },
}

/// The version a candidate offers: its version text must parse, and must
/// equal the requested version when one is requested.
pub open spec fn candidate_version(requested: Option<VersionView>, text: Option<Seq<char>>) -> Option<
    VersionView,
> {
    match text {
        None => None,
        Some(t) => match semver_parse(t) {
            Err(_) => None,
            Ok(v) => match requested {
                Some(q) => if v == q {
                    Some(v)
                } else {
                    None
                },
                None => Some(v),
            },
        },
    }
}

/// The versions offered by the candidates, in resolution order.
pub open spec fn candidate_versions(requested: Option<VersionView>, texts: Seq<Option<String>>) -> Seq<
    Option<VersionView>,
> {
    Seq::new(
        texts.len(),
        |i: int|
            candidate_version(
                requested,
                match texts[i] {
                    Some(t) => Some(t@),
                    None => None,
                },
            ),
    )
}

/// `i` is the candidate with the greatest version, the last one among
/// candidates of equal greatest version.
pub open spec fn is_latest(cs: Seq<Option<VersionView>>, i: int) -> bool {
    &&& 0 <= i < cs.len()
    &&& cs[i] is Some
    &&& forall|k: int|
        0 <= k < cs.len() && k != i && #[trigger] cs[k] is Some ==> semver_order(
            cs[i]->Some_0,
            cs[k]->Some_0,
        ) >= 0 && (k > i ==> semver_order(cs[i]->Some_0, cs[k]->Some_0) > 0)
}

/// Picks the version of a project to clone among the resolved candidates,
/// given by the version text of each (`None` when a candidate has no usable
/// project information): the greatest semantic version, or exactly the
/// requested one.
pub fn select_project_version(
    iri: &str,
    requested: Option<&str>,
    texts: &Vec<Option<String>>,
) -> (r: Result<(usize, SemVer), CloneVersionError>)
    ensures
        match requested {
            Some(q) => match semver_parse(q@) {
                Err(m) => r matches Err(CloneVersionError::InvalidRequested { version, message })
                    && version@ == q@ && message@ == m,
                Ok(qv) => match r {
                    Ok((i, v)) => is_latest(candidate_versions(Some(qv), texts@), i as int)
                        && v@ == qv,
                    Err(CloneVersionError::MissingProjectVersion { iri: e_iri, version }) => e_iri@
                        == iri@ && version@ == q@ && forall|k: int|
                        0 <= k < texts@.len() ==> #[trigger] candidate_versions(Some(qv), texts@)[k] is None,
                    Err(_) => false,
                },
            },
            None => match r {
                Ok((i, v)) => is_latest(candidate_versions(None, texts@), i as int) && Some(v@)
                    == candidate_versions(None, texts@)[i as int],
                Err(CloneVersionError::MissingProject { iri: e_iri }) => e_iri@ == iri@ && forall|
                    k: int,
                | 0 <= k < texts@.len() ==> #[trigger] candidate_versions(None, texts@)[k] is None,
                Err(_) => false,
            },
        },
{
    let req: Option<SemVer> = match requested {
        Some(q) => match parse_semver(q) {
            Ok(v) => Some(v),
            Err(message) => {
                return Err(CloneVersionError::InvalidRequested { version: q.to_string(), message });
            },
        },
        None => None,
    };
    let ghost rq: Option<VersionView> = match &req {
        Some(v) => Some(v@),
        None => None,
    };
    let ghost cs = candidate_versions(rq, texts@);
    let n: usize = texts.len();
    let mut parsed: Vec<Option<SemVer>> = Vec::new();
    let mut i: usize = 0;
    while i < n
        invariant
            n == texts@.len(),
            i <= n,
            cs == candidate_versions(rq, texts@),
            rq == match req {
                Some(v) => Some(v@),
                None => None::<VersionView>,
            },
            parsed@.len() == i,
            forall|k: int|
                0 <= k < i ==> #[trigger] cs[k] == match parsed@[k] {
                    Some(v) => Some(v@),
                    None => None::<VersionView>,
                },
        decreases n - i,
    {
        let entry: Option<SemVer> = match &texts[i] {
            None => None,
            Some(t) => match parse_semver(t.as_str()) {
                Err(_) => None,
                Ok(v) => match &req {
                    Some(q) => if compare_versions(&v, q) == 0 {
                        Some(v)
                    } else {
                        None
                    },
                    None => Some(v),
                },
            },
        };
        parsed.push(entry);
        i = i + 1;
    }
    let mut best: Option<usize> = None;
    let mut c: usize = 0;
    while c < n
        invariant
            n == parsed@.len(),
            n == cs.len(),
            c <= n,
            forall|k: int|
                0 <= k < n ==> #[trigger] cs[k] == match parsed@[k] {
                    Some(v) => Some(v@),
                    None => None::<VersionView>,
                },
            best is None ==> forall|k: int| 0 <= k < c ==> #[trigger] cs[k] is None,
            best matches Some(b) ==> b < c && cs[b as int] is Some && forall|k: int|
                0 <= k < c && k != b && #[trigger] cs[k] is Some ==> semver_order(
                    cs[b as int]->Some_0,
                    cs[k]->Some_0,
                ) >= 0 && (k > b ==> semver_order(cs[b as int]->Some_0, cs[k]->Some_0) > 0),
        decreases n - c,
    {
        match &parsed[c] {
            None => {},
            Some(vc) => {
                match best {
                    None => {
                        best = Some(c);
                    },
                    Some(b) => {
                        let vb = match &parsed[b] {
                            Some(v) => v,
                            None => {
                                proof {
                                    assert(cs[b as int] is Some);
                                }
                                vc
                            },
                        };
                        let r = compare_versions(vc, vb);
                        if r >= 0 {
                            best = Some(c);
                        }
                    },
                }
            },
        }
        c = c + 1;
    }
    match best {
        None => {
            match requested {
                Some(q) => Err(
                    CloneVersionError::MissingProjectVersion {
                        iri: iri.to_string(),
                        version: q.to_string(),
                    },
                ),
                None => Err(CloneVersionError::MissingProject { iri: iri.to_string() }),
            }
        },
        Some(b) => {
            let chosen = match &parsed[b] {
                Some(v) => v.duplicate(),
                None => {
                    proof {
                        assert(cs[b as int] is Some);
                    }
                    return Err(CloneVersionError::MissingProject { iri: iri.to_string() });
                },
            };
            proof {
                if let Some(qv) = rq {
                    assert(cs[b as int] == candidate_version(
                        rq,
                        match texts@[b as int] {
                            Some(t) => Some(t@),
                            None => None,
                        },
                    ));
                }
            }
            Ok((b, chosen))
        },
    }
}

/// The message of a build failure caused by a path usage, extended with how
/// to build anyway; `None` for any other failure.
pub fn path_usage_hint(err: &SysandError) -> (r: Option<String>)
    ensures
        (err.code == ErrorCode::FieldInvalid && contains_seq(err.message@, "path usage"@)) ==> r
            is Some && r->Some_0@ == err.message@ + "\nto build anyway, pass `--allow-path-usage`"@,
        !(err.code == ErrorCode::FieldInvalid && contains_seq(err.message@, "path usage"@)) ==> r
            is None,
{
    if err.code != ErrorCode::FieldInvalid {
        return None;
    }
    if find_chars(&chars_of(err.message.as_str()), &chars_of("path usage")).is_none() {
        return None;
    }
    let m = concat_chars(
        &chars_of(err.message.as_str()),
        &chars_of("\nto build anyway, pass `--allow-path-usage`"),
    );
    Some(string_from_chars(m.as_slice()))
}

/// Where the configuration comes from, as `--config` says.
#[derive(Debug, Clone)]
pub enum ConfigChoice {
    /// Discovered from the project.
    Auto,
    /// No configuration.
    NoConfig,
    /// This file, merged with the discovered configuration.
    File(String),
}

/// The configuration source for a `--config` value.
pub fn config_choice(config: &str) -> (r: ConfigChoice)
    ensures
        config@ == "none"@ ==> r is NoConfig,
        config@ == "auto"@ ==> r is Auto,
        config@ != "none"@ && config@ != "auto"@ ==> (r matches ConfigChoice::File(p) && p@
            == config@),
{
    proof {
        reveal_strlit("none");
        reveal_strlit("auto");
        assert("none"@[0] != "auto"@[0]);
    }
    if str_equal(config, "none") {
        ConfigChoice::NoConfig
    } else if str_equal(config, "auto") {
        ConfigChoice::Auto
    } else {
        ConfigChoice::File(config.to_string())
    }
}

/// Checks that a project cloned from a path has the requested version,
/// compared as text.
pub fn check_clone_version(requested: Option<&str>, project_version: &str) -> (r: Result<(), String>)
    ensures
        match requested {
            None => r is Ok,
            Some(v) => if v@ == project_version@ {
                r is Ok
            } else {
                r is Err && r->Err_0@ == "given version "@ + v@ + " does not match project version "@
                    + project_version@
            },
        },
{
    let v = match requested {
        None => return Ok(()),
        Some(v) => v,
    };
    if str_equal(v, project_version) {
        return Ok(());
    }
    let m = concat_chars(&chars_of("given version "), &chars_of(v));
    let m = concat_chars(&m, &chars_of(" does not match project version "));
    let m = concat_chars(&m, &chars_of(project_version));
    Err(string_from_chars(m.as_slice()))
}

/// Whether two paths are equal as `camino::Utf8Path` values, which compare
/// them component by component.
pub uninterp spec fn same_path(a: Seq<char>, b: Seq<char>) -> bool;

/// Compares two paths with `PartialEq` of `camino::Utf8Path`. The result is
/// exactly that comparison's for the two texts; which texts it equates
/// (repeated separators, `.` components) is left to the crate.
#[verifier::external_body]
fn paths_equal(a: &str, b: &str) -> (r: bool)
    ensures
        r == same_path(a@, b@),
{
    camino::Utf8Path::new(a) == camino::Utf8Path::new(b)
}

/// A project of the current workspace: its path and the IRIs it is also
/// known by.
pub struct WorkspaceProject {
    pub path: String,
    pub iris: Vec<String>,
}

/// `k` is the first workspace project at `path`.
pub open spec fn is_first_at_path(ps: Seq<WorkspaceProject>, path: Seq<char>, k: int) -> bool {
    &&& 0 <= k < ps.len()
    &&& same_path(ps[k].path@, path)
    &&& forall|j: int| 0 <= j < k ==> !same_path(#[trigger] ps[j].path@, path)
}

/// A copy of a list of strings.
fn copy_strings(v: &Vec<String>) -> (r: Vec<String>)
    ensures
        string_views(r@) == string_views(v@),
{
    let mut out: Vec<String> = Vec::new();
    let mut i: usize = 0;
    while i < v.len()
        invariant
            i <= v@.len(),
            out@.len() == i,
            forall|k: int| 0 <= k < i ==> #[trigger] out@[k]@ == v@[k]@,
        decreases v@.len() - i,
    {
        out.push(v[i].clone());
        i = i + 1;
    }
    assert(string_views(out@) =~= string_views(v@));
    out
}

/// The IRIs under which the project at `path` is locked: those the current
/// workspace (if any) lists for its first project at that path; `None` with
/// no workspace or no project there.
pub fn workspace_alias_iris(workspace: Option<&Vec<WorkspaceProject>>, path: &str) -> (r: Option<
    Vec<String>,
>)
    ensures
        workspace is None ==> r is None,
        forall|k: int|
            workspace is Some && #[trigger] is_first_at_path(workspace->Some_0@, path@, k) ==> r is Some
                && string_views(r->Some_0@) == string_views(workspace->Some_0@[k].iris@),
        workspace is Some && (forall|k: int|
            0 <= k < workspace->Some_0@.len() ==> !same_path(
                #[trigger] workspace->Some_0@[k].path@,
                path@,
            )) ==> r is None,
{
    let ps = match workspace {
        None => return None,
        Some(ps) => ps,
    };
    let mut i: usize = 0;
    while i < ps.len()
        invariant
            i <= ps@.len(),
            workspace == Some(ps),
            forall|j: int| 0 <= j < i ==> !same_path(#[trigger] ps@[j].path@, path@),
        decreases ps@.len() - i,
    {
        if paths_equal(ps[i].path.as_str(), path) {
            proof {
                assert(same_path(ps@[i as int].path@, path@));
                assert(same_path(workspace->Some_0@[i as int].path@, path@));
                assert forall|k: int| #[trigger] is_first_at_path(ps@, path@, k) implies k == i by {
                    if k > i {
                        assert(same_path(ps@[i as int].path@, path@));
                    }
                }
            }
            return Some(copy_strings(&ps[i].iris));
        }
        i = i + 1;
    }
    None
}

} // verus!
