//! The decisions of the public operations: how their options map onto the
//! commands, and which candidate a version requirement selects.

use vstd::prelude::*;

use crate::error::{ErrorCode, SysandError, SysandErrorView};
use crate::cli::{check_iri, iri_error};
use crate::index_store::UsageRaw;
use crate::indexed_remote::{UsageView, usage_equal, usage_view};
use crate::text::{chars_of, concat_chars, str_equal, string_from_chars};
use crate::url_model::{ParsedUrl, UrlView, url_parse};
use crate::types::{ChecksumMode, Compression, EnvEntry, IndexSymbols, InitOptions, Language, SourceAddOptions};
use crate::versions::{
    SemVer, VersionView, compare_versions, parse_semver, parse_version_req, requirement_matches, semver_parse,
    semver_order, version_req_admits, version_req_error, version_req_text, version_text,
};

verus! {

/// The archive compression methods this build supports.
#[derive(Debug, Clone, Copy, PartialEq, Eq, Structural)]
pub enum KparCompressionMethod {
    /// No compression.
    Stored,
    /// Deflate.
    Deflated,
}

/// The compression method of a requested compression, or the error for one
/// this build does not support.
pub fn compression_to_internal(c: Compression) -> (r: Result<KparCompressionMethod, SysandError>)
    ensures
        c == Compression::Stored ==> r == Ok::<KparCompressionMethod, SysandError>(
            KparCompressionMethod::Stored,
        ),
        c == Compression::Deflated ==> r == Ok::<KparCompressionMethod, SysandError>(
            KparCompressionMethod::Deflated,
        ),
        c == Compression::Bzip2 ==> r is Err && r->Err_0@ == (SysandErrorView {
            code: ErrorCode::FieldInvalid,
            message: "bzip2 compression requires the kpar-bzip2 feature"@,
            context: None,
        }),
        c == Compression::Zstd ==> r is Err && r->Err_0@ == (SysandErrorView {
            code: ErrorCode::FieldInvalid,
            message: "zstd compression requires the kpar-zstd feature"@,
            context: None,
        }),
        c == Compression::Xz ==> r is Err && r->Err_0@ == (SysandErrorView {
            code: ErrorCode::FieldInvalid,
            message: "xz compression requires the kpar-xz feature"@,
            context: None,
        }),
        c == Compression::Ppmd ==> r is Err && r->Err_0@ == (SysandErrorView {
            code: ErrorCode::FieldInvalid,
            message: "ppmd compression requires the kpar-ppmd feature"@,
            context: None,
        }),
{
    match c {
        Compression::Stored => Ok(KparCompressionMethod::Stored),
        Compression::Deflated => Ok(KparCompressionMethod::Deflated),
        Compression::Bzip2 => Err(
            SysandError::new(
                ErrorCode::FieldInvalid,
                "bzip2 compression requires the kpar-bzip2 feature",
            ),
        ),
        Compression::Zstd => Err(
            SysandError::new(ErrorCode::FieldInvalid, "zstd compression requires the kpar-zstd feature"),
        ),
        Compression::Xz => Err(
            SysandError::new(ErrorCode::FieldInvalid, "xz compression requires the kpar-xz feature"),
        ),
        Compression::Ppmd => Err(
            SysandError::new(ErrorCode::FieldInvalid, "ppmd compression requires the kpar-ppmd feature"),
        ),
    }
}

/// A language forced on added source files.
#[derive(Debug, Clone, Copy, PartialEq, Eq, Structural)]
pub enum SymbolLanguage {
    /// SysML v2.
    SysML,
    /// KerML.
    KerML,
}

/// How the source-adding command is run.
#[derive(Debug, Clone, Copy)]
pub struct SourceAddSettings {
    pub compute_checksum: bool,
    pub index_symbols: bool,
    /// `None` to detect the language from the file extension.
    pub force_format: Option<SymbolLanguage>,
}

/// The settings of the source-adding command for given options.
pub fn source_add_settings(opts: SourceAddOptions) -> (r: SourceAddSettings)
    ensures
        r.compute_checksum == (opts.checksum == ChecksumMode::Sha256),
        r.index_symbols == (opts.index_symbols == IndexSymbols::On),
        r.force_format == match opts.language {
            Language::Auto => None,
            Language::Sysml => Some(SymbolLanguage::SysML),
            Language::Kerml => Some(SymbolLanguage::KerML),
        },
{
    let compute_checksum = match opts.checksum {
        ChecksumMode::Sha256 => true,
        ChecksumMode::NoChecksum => false,
    };
    let index_symbols = match opts.index_symbols {
        IndexSymbols::On => true,
        IndexSymbols::Off => false,
    };
    let force_format = match opts.language {
        Language::Auto => None,
        Language::Sysml => Some(SymbolLanguage::SysML),
        Language::Kerml => Some(SymbolLanguage::KerML),
    };
    SourceAddSettings { compute_checksum, index_symbols, force_format }
}

/// How a new project is initialized.
#[derive(Debug, Clone)]
pub struct InitRequest {
    pub name: String,
    pub publisher: Option<String>,
    pub version: String,
    /// Whether the version may be something other than a semantic version.
    pub no_semver: bool,
    pub license: Option<String>,
    /// Whether the license must be an SPDX expression.
    pub no_spdx: bool,
}

/// The initialization of a new project for given options: the name
/// defaults to empty, the version to `0.0.1`; the version must be a
/// semantic version, and the license an SPDX expression unless the options
/// allow otherwise.
pub fn init(opts: InitOptions) -> (r: InitRequest)
    ensures
        r.name@ == match opts.name {
            Some(n) => n@,
            None => Seq::empty(),
        },
        r.publisher == opts.publisher,
        r.version@ == match opts.version {
            Some(v) => v@,
            None => "0.0.1"@,
        },
        !r.no_semver,
        r.license == opts.license,
        r.no_spdx == !opts.allow_non_spdx,
{
    let version = match opts.version {
        Some(v) => v,
        None => "0.0.1".to_string(),
    };
    let name = match opts.name {
        Some(n) => n,
        None => String::new(),
    };
    InitRequest {
        name,
        publisher: opts.publisher,
        version,
        no_semver: false,
        license: opts.license,
        no_spdx: !opts.allow_non_spdx,
    }
}

/// Checks the version of an initialization request: unless the request
/// allows other versions, it must be a semantic version, else the error is
/// `VersionInvalid` with the `semver` crate's message and the version as
/// context. (The license check is made by the project layer.)
pub fn check_init_version(req: &InitRequest) -> (r: Result<(), SysandError>)
    ensures
        !req.no_semver && semver_parse(req.version@) is Err ==> r is Err && r->Err_0@
            == (SysandErrorView {
            code: ErrorCode::VersionInvalid,
            message: semver_parse(req.version@)->Err_0,
            context: Some(req.version@),
        }),
        req.no_semver || semver_parse(req.version@) is Ok ==> r is Ok,
{
    if req.no_semver {
        return Ok(());
    }
    match parse_semver(req.version.as_str()) {
        Ok(_) => Ok(()),
        Err(m) => Err(
            SysandError::with_context(ErrorCode::VersionInvalid, m.as_str(), req.version.as_str()),
        ),
    }
}

/// The entries listing an environment's installed projects, in the order
/// the environment reports them.
pub fn list(installed: Vec<(String, Option<String>)>) -> (r: Vec<EnvEntry>)
    ensures
        r@.len() == installed@.len(),
        forall|i: int|
            0 <= i < r@.len() ==> #[trigger] r@[i].iri == installed@[i].0 && r@[i].version
                == installed@[i].1,
{
    let mut out: Vec<EnvEntry> = Vec::new();
    for pair in it: installed.into_iter()
        invariant
            out@.len() == it.index(),
            it.seq() == installed@,
            forall|i: int|
                0 <= i < out@.len() ==> #[trigger] out@[i].iri == it.seq()[i].0 && out@[i].version
                    == it.seq()[i].1,
    {
        let (iri, version) = pair;
        out.push(EnvEntry { iri, version });
    }
    out
}

/// The usage that adding a dependency on `iri` records.
pub fn add(iri: &str, version_req: Option<&str>) -> (r: UsageRaw)
    ensures
        r.resource@ == iri@,
        match version_req {
            Some(v) => r.version_constraint is Some && r.version_constraint->Some_0@ == v@,
            None => r.version_constraint is None,
        },
{
    UsageRaw {
        resource: iri.to_string(),
        version_constraint: match version_req {
            Some(v) => Some(v.to_string()),
            None => None,
        },
    }
}

/// The text of an optional string slice.
pub open spec fn opt_str(o: Option<&str>) -> Option<Seq<char>> {
    match o {
        Some(v) => Some(v@),
        None => None,
    }
}

/// The usage of `iri` with an optional version constraint.
pub open spec fn requested_usage(iri: Seq<char>, version_req: Option<Seq<char>>) -> UsageView {
    UsageView { resource: iri, version_constraint: version_req }
}

/// Whether some usage of `us` equals `u` (same resource and constraint).
pub open spec fn lists_usage(us: Seq<UsageRaw>, u: UsageView) -> bool {
    exists|k: int| 0 <= k < us.len() && usage_view(#[trigger] us[k]) == u
}

/// Adds the usage of `iri` (with `version_req`) to a project's manifest
/// usages and tells whether it was added: a usage equal to it already
/// listed leaves the usages unchanged; otherwise it is appended after the
/// others, which all stay.
pub fn add_to_manifest(usages: &mut Vec<UsageRaw>, iri: &str, version_req: Option<&str>) -> (r: bool)
    ensures
        lists_usage(old(usages)@, requested_usage(iri@, opt_str(version_req))) ==> !r
            && final(usages)@ == old(usages)@,
        !lists_usage(old(usages)@, requested_usage(iri@, opt_str(version_req))) ==> r
            && final(usages)@.len() == old(usages)@.len() + 1 && final(usages)@.drop_last() == old(usages)@
            && usage_view(final(usages)@.last()) == requested_usage(iri@, opt_str(version_req)),
{
    let u = self::add(iri, version_req);
    assert(usage_view(u) == requested_usage(iri@, opt_str(version_req)));
    let n: usize = usages.len();
    let mut i: usize = 0;
    while i < n
        invariant
            n == usages@.len(),
            i <= n,
            usages@ == old(usages)@,
            usage_view(u) == requested_usage(iri@, opt_str(version_req)),
            forall|k: int| 0 <= k < i ==> usage_view(#[trigger] usages@[k]) != usage_view(u),
        decreases n - i,
    {
        if usage_equal(&usages[i], &u) {
            assert(usage_view(old(usages)@[i as int]) == requested_usage(iri@, opt_str(version_req)));
            assert(lists_usage(old(usages)@, requested_usage(iri@, opt_str(version_req))));
            return false;
        }
        i = i + 1;
    }
    let ghost before = usages@;
    usages.push(u);
    assert(usages@.drop_last() =~= before);
    true
}

/// The usages of `us` that are not on `iri`, in order.
pub open spec fn usages_except(us: Seq<UsageRaw>, iri: Seq<char>) -> Seq<UsageRaw>
    decreases us.len(),
{
    if us.len() == 0 {
        Seq::empty()
    } else if us.last().resource@ == iri {
        usages_except(us.drop_last(), iri)
    } else {
        usages_except(us.drop_last(), iri).push(us.last())
    }
}

/// The usages of `us` that are on `iri`, in order.
pub open spec fn usages_on(us: Seq<UsageRaw>, iri: Seq<char>) -> Seq<UsageRaw>
    decreases us.len(),
{
    if us.len() == 0 {
        Seq::empty()
    } else if us.last().resource@ == iri {
        usages_on(us.drop_last(), iri).push(us.last())
    } else {
        usages_on(us.drop_last(), iri)
    }
}

/// Removes every usage of a project's manifest that is on `iri` and
/// returns them, in order; refused, with the usages unchanged, when none is.
pub fn remove(usages: &mut Vec<UsageRaw>, iri: &str) -> (r: Result<Vec<UsageRaw>, SysandError>)
    ensures
        usages_on(old(usages)@, iri@).len() == 0 ==> r is Err && r->Err_0@ == (SysandErrorView {
            code: ErrorCode::UsageNotFound,
            message: "usage not found"@,
            context: Some(iri@),
        }) && final(usages)@ == old(usages)@,
        usages_on(old(usages)@, iri@).len() > 0 ==> (r matches Ok(removed) && removed@
            == usages_on(old(usages)@, iri@) && final(usages)@ == usages_except(old(usages)@, iri@)),
{
    let mut kept: Vec<UsageRaw> = Vec::new();
    let mut removed: Vec<UsageRaw> = Vec::new();
    let ghost orig = usages@;
    let mut rest: Vec<UsageRaw> = Vec::new();
    std::mem::swap(&mut rest, usages);
    let n: usize = rest.len();
    let mut i: usize = 0;
    assert(orig.take(0) =~= Seq::<UsageRaw>::empty());
    while rest.len() > 0
        invariant
            n == orig.len(),
            i + rest@.len() == n,
            rest@ == orig.skip(i as int),
            kept@ == usages_except(orig.take(i as int), iri@),
            removed@ == usages_on(orig.take(i as int), iri@),
            usages@.len() == 0,
        decreases rest@.len(),
    {
        let u = rest.remove(0);
        assert(orig.take(i + 1).drop_last() =~= orig.take(i as int));
        assert(orig.take(i + 1).last() == u);
        if str_equal(u.resource.as_str(), iri) {
            removed.push(u);
        } else {
            kept.push(u);
        }
        i = i + 1;
        assert(rest@ =~= orig.skip(i as int));
    }
    assert(orig.take(n as int) =~= orig);
    if removed.len() == 0 {
        *usages = kept;
        proof {
            lemma_nothing_on_keeps_all(orig, iri@);
        }
        return Err(SysandError::with_context(ErrorCode::UsageNotFound, "usage not found", iri));
    }
    *usages = kept;
    Ok(removed)
}

/// After removing the usages on `iri`, none is left on it, and every other
/// usage is kept.
pub proof fn lemma_removed_usages_are_gone(us: Seq<UsageRaw>, iri: Seq<char>)
    ensures
        usages_on(usages_except(us, iri), iri).len() == 0,
        usages_except(us, iri).len() + usages_on(us, iri).len() == us.len(),
    decreases us.len(),
{
    if us.len() > 0 {
        lemma_removed_usages_are_gone(us.drop_last(), iri);
        let k = usages_except(us.drop_last(), iri);
        if us.last().resource@ != iri {
            assert(k.push(us.last()).drop_last() =~= k);
        }
    }
}

/// Without a usage on `iri`, removing the usages on it keeps them all.
proof fn lemma_nothing_on_keeps_all(us: Seq<UsageRaw>, iri: Seq<char>)
    requires
        usages_on(us, iri).len() == 0,
    ensures
        usages_except(us, iri) == us,
    decreases us.len(),
{
    if us.len() > 0 {
        if us.last().resource@ == iri {
            assert(usages_on(us, iri).len() > 0);
        }
        lemma_nothing_on_keeps_all(us.drop_last(), iri);
        assert(us.drop_last().push(us.last()) =~= us);
    }
}

/// The text of an optional string.
pub open spec fn opt_text(o: Option<String>) -> Option<Seq<char>> {
    match o {
        Some(s) => Some(s@),
        None => None,
    }
}

/// Whether a candidate of the given version satisfies a requirement: its
/// version must be known, parse, and be admitted.
pub open spec fn candidate_admitted(req: Seq<char>, version: Option<Seq<char>>) -> bool {
    match version {
        Some(v) => match semver_parse(v) {
            Ok(pv) => version_req_admits(req, pv),
            Err(_) => false,
        },
        None => false,
    }
}

/// `i` is the first candidate that satisfies the requirement.
pub open spec fn is_first_admitted(req: Seq<char>, versions: Seq<Option<Seq<char>>>, i: int) -> bool {
    &&& 0 <= i < versions.len()
    &&& candidate_admitted(req, versions[i])
    &&& forall|k: int| 0 <= k < i ==> !candidate_admitted(req, #[trigger] versions[k])
}

/// The message for a project with no candidate of a matching version.
pub open spec fn no_match_message(iri: Seq<char>) -> Seq<char> {
    "no matching version found for `"@ + iri + "`"@
}

/// The plain content of candidate versions.
pub open spec fn candidate_views(vs: Seq<Option<String>>) -> Seq<Option<Seq<char>>> {
    Seq::new(vs.len(), |i: int| opt_text(vs[i]))
}

/// The parsed version of a candidate, if it has one that parses.
pub open spec fn candidate_version(version: Option<Seq<char>>) -> Option<VersionView> {
    match version {
        Some(t) => match semver_parse(t) {
            Ok(v) => Some(v),
            Err(_) => None,
        },
        None => None,
    }
}

/// Whether a candidate takes part in choosing the latest version: its version
/// parses, and with `releases_only` it is no pre-release.
pub open spec fn eligible(version: Option<Seq<char>>, releases_only: bool) -> bool {
    &&& candidate_version(version) is Some
    &&& releases_only ==> candidate_version(version)->0.pre.len() == 0
}

/// `i` is the eligible candidate of the greatest version (by the order of
/// `semver::Version`), the first of them where several are equal.
pub open spec fn is_greatest(versions: Seq<Option<Seq<char>>>, i: int, releases_only: bool) -> bool {
    &&& 0 <= i < versions.len()
    &&& eligible(versions[i], releases_only)
    &&& forall|k: int|
        0 <= k < versions.len() && k != i && eligible(#[trigger] versions[k], releases_only) ==> {
            &&& semver_order(candidate_version(versions[i])->0, candidate_version(versions[k])->0) >= 0
            &&& k < i ==> semver_order(
                candidate_version(versions[i])->0,
                candidate_version(versions[k])->0,
            ) > 0
        }
}

/// Whether some candidate is eligible.
pub open spec fn has_eligible(versions: Seq<Option<Seq<char>>>, releases_only: bool) -> bool {
    exists|k: int| 0 <= k < versions.len() && eligible(#[trigger] versions[k], releases_only)
}

/// The candidate installed when no version is requested: the latest release;
/// where every parsed version is a pre-release, the latest of those; where no
/// version parses, the first candidate.
pub open spec fn is_latest_choice(versions: Seq<Option<Seq<char>>>, i: int) -> bool {
    if has_eligible(versions, true) {
        is_greatest(versions, i, true)
    } else if has_eligible(versions, false) {
        is_greatest(versions, i, false)
    } else {
        i == 0
    }
}

/// The eligible candidate of the greatest version, the first of them where
/// several are equal; `None` when no candidate is eligible.
fn greatest_eligible(versions: &Vec<Option<String>>, releases_only: bool) -> (r: Option<usize>)
    ensures
        match r {
            Some(i) => is_greatest(candidate_views(versions@), i as int, releases_only),
            None => !has_eligible(candidate_views(versions@), releases_only),
        },
{
    let ghost views = candidate_views(versions@);
    let n: usize = versions.len();
    let mut best: Option<(usize, SemVer)> = None;
    let mut i: usize = 0;
    while i < n
        invariant
            n == versions@.len(),
            i <= n,
            views == candidate_views(versions@),
            views.len() == n,
            match best {
                None => forall|k: int| 0 <= k < i ==> !eligible(#[trigger] views[k], releases_only),
                Some((b, bv)) => {
                    &&& b < i
                    &&& eligible(views[b as int], releases_only)
                    &&& candidate_version(views[b as int]) == Some(bv@)
                    &&& forall|k: int|
                        0 <= k < i && k != b && eligible(#[trigger] views[k], releases_only) ==> {
                            &&& semver_order(bv@, candidate_version(views[k])->0) >= 0
                            &&& k < b ==> semver_order(bv@, candidate_version(views[k])->0) > 0
                        }
                },
            },
        decreases n - i,
    {
        assert(views[i as int] == opt_text(versions@[i as int]));
        let parsed = match &versions[i] {
            Some(v) => match parse_semver(v.as_str()) {
                Ok(pv) => if !releases_only || pv.is_release() {
                    Some(pv)
                } else {
                    None
                },
                Err(_) => None,
            },
            None => None,
        };
        assert(parsed is Some <==> eligible(views[i as int], releases_only));
        match parsed {
            Some(pv) => {
                assert(candidate_version(views[i as int]) == Some(pv@));
                match best {
                    None => {
                        best = Some((i, pv));
                    },
                    Some((b, bv)) => {
                        let c = compare_versions(&pv, &bv);
                        if c > 0 {
                            best = Some((i, pv));
                        } else {
                            best = Some((b, bv));
                        }
                    },
                }
            },
            None => {},
        }
        i = i + 1;
    }
    match best {
        Some((b, _)) => Some(b),
        None => None,
    }
}

/// Picks, among the resolved candidates of `iri` (given by their versions,
/// in resolution order), the one to install: with `version_req`, the first
/// whose version satisfies it; without, the latest version by SemVer 2.0,
/// leaving pre-releases aside while there is a release.
pub fn select_candidate(iri: &str, version_req: Option<&str>, versions: &Vec<Option<String>>) -> (r: Result<
    usize,
    SysandError,
>)
    ensures
        match version_req {
            None => if versions@.len() > 0 {
                r is Ok && is_latest_choice(candidate_views(versions@), r->Ok_0 as int)
            } else {
                r is Err && r->Err_0@ == (SysandErrorView {
                    code: ErrorCode::VersionNotInIndex,
                    message: no_match_message(iri@),
                    context: None,
                })
            },
            Some(q) => match version_req_error(q@) {
                Some(m) => r is Err && r->Err_0@ == (SysandErrorView {
                    code: ErrorCode::VersionInvalid,
                    message: m,
                    context: None,
                }),
                None => match r {
                    Ok(i) => is_first_admitted(q@, candidate_views(versions@), i as int),
                    Err(e) => e@ == (SysandErrorView {
                        code: ErrorCode::VersionNotInIndex,
                        message: no_match_message(iri@),
                        context: None,
                    }) && forall|k: int|
                        0 <= k < versions@.len() ==> !candidate_admitted(
                            q@,
                            #[trigger] candidate_views(versions@)[k],
                        ),
                },
            },
        },
{
    proof {
        reveal_strlit("no matching version found for `");
        reveal_strlit("`");
    }
    let mut msg = chars_of("no matching version found for `");
    let msg = concat_chars(&msg, &chars_of(iri));
    let msg = concat_chars(&msg, &chars_of("`"));
    let not_found = string_from_chars(msg.as_slice());
    assert(not_found@ == no_match_message(iri@));
    let q = match version_req {
        None => {
            if versions.len() > 0 {
                match greatest_eligible(versions, true) {
                    Some(i) => return Ok(i),
                    None => {},
                }
                match greatest_eligible(versions, false) {
                    Some(i) => return Ok(i),
                    None => {},
                }
                return Ok(0);
            }
            return Err(SysandError::new(ErrorCode::VersionNotInIndex, not_found.as_str()));
        },
        Some(q) => q,
    };
    let req = match parse_version_req(q) {
        Ok(r) => r,
        Err(m) => return Err(SysandError::new(ErrorCode::VersionInvalid, m.as_str())),
    };
    let ghost views = candidate_views(versions@);
    let n: usize = versions.len();
    let mut i: usize = 0;
    while i < n
        invariant
            n == versions@.len(),
            i <= n,
            views == candidate_views(versions@),
            version_req == Some(q),
            version_req_error(q@) is None,
            req@ == q@,
            forall|k: int| 0 <= k < i ==> !candidate_admitted(q@, #[trigger] views[k]),
        decreases n - i,
    {
        assert(views[i as int] == opt_text(versions@[i as int]));
        match &versions[i] {
            Some(v) => {
                match parse_semver(v.as_str()) {
                    Ok(pv) => {
                        if requirement_matches(&req, &pv) {
                            assert(candidate_admitted(q@, views[i as int]));
                            return Ok(i);
                        }
                    },
                    Err(_) => {},
                }
            },
            None => {},
        }
        i = i + 1;
    }
    Err(SysandError::new(ErrorCode::VersionNotInIndex, not_found.as_str()))
}

/// Checks the IRI of a project to install, as `install`,
/// `install_from_path` and the resolution of a project's version do before
/// anything else: an IRI the `fluent_uri` crate refuses is `IriInvalid`,
/// with the crate's message.
pub fn check_install_iri(iri: &str) -> (r: Result<(), SysandError>)
    ensures
        match iri_error(iri@) {
            Some(m) => r is Err && r->Err_0@ == (SysandErrorView {
                code: ErrorCode::IriInvalid,
                message: m,
                context: None,
            }),
            None => r is Ok,
        },
{
    match check_iri(iri) {
        Ok(()) => Ok(()),
        Err(m) => Err(SysandError::new(ErrorCode::IriInvalid, m.as_str())),
    }
}

/// The usage that installing `iri` with its dependencies locks, after the
/// checks `install` makes before any resolution: the IRI must parse
/// (`IriInvalid`), then the version requirement, if any (`VersionInvalid`).
pub fn install_usage(iri: &str, version_req: Option<&str>) -> (r: Result<UsageRaw, SysandError>)
    ensures
        match iri_error(iri@) {
            Some(m) => r is Err && r->Err_0@ == (SysandErrorView {
                code: ErrorCode::IriInvalid,
                message: m,
                context: None,
            }),
            None => match version_req {
                None => r matches Ok(u) && u.resource@ == iri@ && u.version_constraint is None,
                Some(q) => match version_req_error(q@) {
                    Some(m) => r is Err && r->Err_0@ == (SysandErrorView {
                        code: ErrorCode::VersionInvalid,
                        message: m,
                        context: None,
                    }),
                    None => r matches Ok(u) && u.resource@ == iri@ && (u.version_constraint matches Some(
                        c,
                    ) && c@ == q@),
                },
            },
        },
{
    check_install_iri(iri)?;
    match version_req {
        Some(q) => match parse_version_req(q) {
            Ok(_) => {},
            Err(m) => return Err(SysandError::new(ErrorCode::VersionInvalid, m.as_str())),
        },
        None => {},
    }
    Ok(self::add(iri, version_req))
}

/// The result of installing a project into an environment, given what the
/// installation itself returned: a failure is reported as an environment
/// conflict carrying the installation's message.
pub fn install_project(outcome: Result<(), String>) -> (r: Result<(), SysandError>)
    ensures
        match outcome {
            Ok(()) => r is Ok,
            Err(m) => r is Err && r->Err_0@ == (SysandErrorView {
                code: ErrorCode::EnvConflict,
                message: m@,
                context: None,
            }),
        },
{
    match outcome {
        Ok(()) => Ok(()),
        Err(m) => Err(SysandError::new(ErrorCode::EnvConflict, m.as_str())),
    }
}

/// The message for a local project whose version does not satisfy the
/// requested version.
pub open spec fn version_mismatch_message(path: Seq<char>, v: VersionView, req: Seq<char>) -> Seq<
    char,
> {
    "project at `"@ + path + "` has version `"@ + version_text(v) + "` which does not match `"@
        + version_req_text(req) + "`"@
}

/// What checking a local project's version against a requested version
/// yields: no check without a request or without a project version that
/// parses; otherwise the request must parse and admit the version.
pub open spec fn version_check_outcome(
    path: Seq<char>,
    version_check: Option<Seq<char>>,
    project_version: Option<Seq<char>>,
) -> Option<SysandErrorView> {
    match version_check {
        None => None,
        Some(q) => match project_version {
            None => None,
            Some(t) => match semver_parse(t) {
                Err(_) => None,
                Ok(pv) => match version_req_error(q) {
                    Some(m) => Some(
                        SysandErrorView { code: ErrorCode::VersionInvalid, message: m, context: None },
                    ),
                    None => if version_req_admits(q, pv) {
                        None
                    } else {
                        Some(
                            SysandErrorView {
                                code: ErrorCode::VersionInvalid,
                                message: version_mismatch_message(path, pv, q),
                                context: None,
                            },
                        )
                    },
                },
            },
        },
    }
}

/// Checks the version of a local project about to be installed against a
/// requested version.
pub fn check_local_version(
    path: &str,
    version_check: Option<&str>,
    project_version: Option<&str>,
) -> (r: Result<(), SysandError>)
    ensures
        match version_check_outcome(
            path@,
            match version_check {
                Some(q) => Some(q@),
                None => None,
            },
            match project_version {
                Some(t) => Some(t@),
                None => None,
            },
        ) {
            Some(e) => r is Err && r->Err_0@ == e,
            None => r is Ok,
        },
{
    let q = match version_check {
        None => return Ok(()),
        Some(q) => q,
    };
    let t = match project_version {
        None => return Ok(()),
        Some(t) => t,
    };
    let pv = match parse_semver(t) {
        Err(_) => return Ok(()),
        Ok(pv) => pv,
    };
    let req = match parse_version_req(q) {
        Err(m) => return Err(SysandError::new(ErrorCode::VersionInvalid, m.as_str())),
        Ok(r) => r,
    };
    if requirement_matches(&req, &pv) {
        return Ok(());
    }
    proof {
        reveal_strlit("project at `");
        reveal_strlit("` has version `");
        reveal_strlit("` which does not match `");
        reveal_strlit("`");
    }
    let m = chars_of("project at `");
    let m = concat_chars(&m, &chars_of(path));
    let m = concat_chars(&m, &chars_of("` has version `"));
    let m = concat_chars(&m, &chars_of(pv.to_text().as_str()));
    let m = concat_chars(&m, &chars_of("` which does not match `"));
    let m = concat_chars(&m, &chars_of(req.to_text().as_str()));
    let m = concat_chars(&m, &chars_of("`"));
    let message = string_from_chars(m.as_slice());
    assert(message@ =~= version_mismatch_message(path@, pv@, q@));
    Err(SysandError::new(ErrorCode::VersionInvalid, message.as_str()))
}

/// The index URLs of a configuration: all of them when every one parses,
/// none at all when any does not.
pub fn config_index_urls(urls: &Vec<String>) -> (r: Option<Vec<ParsedUrl>>)
    ensures
        (forall|i: int| 0 <= i < urls@.len() ==> #[trigger] url_parse(urls@[i]@) is Ok) <==> r
            is Some,
        r matches Some(v) ==> v@.len() == urls@.len() && forall|i: int|
            0 <= i < v@.len() ==> url_parse(urls@[i]@) == Ok::<UrlView, crate::url_model::UrlErrorView>(
                #[trigger] v@[i]@,
            ),
{
    let mut out: Vec<ParsedUrl> = Vec::new();
    let n: usize = urls.len();
    let mut i: usize = 0;
    while i < n
        invariant
            n == urls@.len(),
            i <= n,
            out@.len() == i,
            forall|k: int|
                0 <= k < i ==> url_parse(urls@[k]@) == Ok::<UrlView, crate::url_model::UrlErrorView>(
                    #[trigger] out@[k]@,
                ),
        decreases n - i,
    {
        match ParsedUrl::parse(urls[i].as_str()) {
            Ok(u) => out.push(u),
            Err(_) => return None,
        }
        i = i + 1;
    }
    assert forall|k: int| 0 <= k < urls@.len() implies #[trigger] url_parse(urls@[k]@) is Ok by {
        assert(url_parse(urls@[k]@) == Ok::<UrlView, crate::url_model::UrlErrorView>(out@[k]@));
    }
    Some(out)
}

/// What building a project archive reports.
#[derive(Debug, Clone)]
pub struct BuildOutput {
    /// Where the archive was written.
    pub path: String,
    /// The project's name.
    pub name: String,
    /// The project's version.
    pub version: String,
}

/// The report of a build, given the name and version read back from the
/// built archive, which must hold a `.project.json`.
pub fn build_output(path: &str, info: Option<(String, String)>) -> (r: Result<
    BuildOutput,
    SysandError,
>)
    ensures
        match info {
            Some((n, v)) => r matches Ok(o) && o.path@ == path@ && o.name == n && o.version == v,
            None => r is Err && r->Err_0@ == (SysandErrorView {
                code: ErrorCode::FieldRequired,
                message: "built KPAR missing .project.json"@,
                context: None,
            }),
        },
{
    match info {
        Some((name, version)) => Ok(BuildOutput { path: path.to_string(), name, version }),
        None => Err(SysandError::new(ErrorCode::FieldRequired, "built KPAR missing .project.json")),
    }
}

/// The root of the project around a path, which must have been found.
pub fn located_project(root: Option<String>) -> (r: Result<String, SysandError>)
    ensures
        match root {
            Some(p) => r matches Ok(q) && q == p,
            None => r is Err && r->Err_0@ == (SysandErrorView {
                code: ErrorCode::ProjectNotFound,
                message: "no project found in parent directories"@,
                context: None,
            }),
        },
{
    match root {
        Some(p) => Ok(p),
        None => Err(SysandError::new(ErrorCode::ProjectNotFound, "no project found in parent directories")),
    }
}

/// The root of the workspace around a path, which must have been found.
pub fn located_workspace(root: Option<String>) -> (r: Result<String, SysandError>)
    ensures
        match root {
            Some(p) => r matches Ok(q) && q == p,
            None => r is Err && r->Err_0@ == (SysandErrorView {
                code: ErrorCode::WorkspaceNotFound,
                message: "no workspace found in parent directories"@,
                context: None,
            }),
        },
{
    match root {
        Some(p) => Ok(p),
        None => Err(
            SysandError::new(ErrorCode::WorkspaceNotFound, "no workspace found in parent directories"),
        ),
    }
}

} // verus!
