//! The client side of the sysand index protocol: where each document of an
//! index lives, and what the client accepts of the `versions.json` documents
//! it reads. Fetching is left to the caller; this module decides.

use sha2::Digest;
use vstd::prelude::*;
use vstd::utf8::encode_utf8;

use crate::index_store::{UsageRaw, lemma_valid_field_has_no_slash};
use crate::purl::{
    FieldKind, lemma_purl_parsers_agree, normalized_field, parse_sysand_purl,
    pkg_sysand_parts,
};
use crate::text::{
    ascii_lowercase, chars_of, join_strs, joined, str_equal, str_views, string_from_chars, to_ascii_lowercase,
};
use crate::url_model::{
    ParsedUrl, UrlError, UrlErrorView, UrlView, join_url, set_path, url_join, url_with_path,
};
use crate::versions::{SemVer, VersionView, compare_versions, parse_semver, semver_parse, version_text};

verus! {

/// An ASCII hexadecimal digit, in either case.
pub open spec fn is_hex_digit(c: char) -> bool {
    ('0' <= c && c <= '9') || ('a' <= c && c <= 'f') || ('A' <= c && c <= 'F')
}

/// `sha256:`.
pub open spec fn sha256_prefix() -> Seq<char> {
    seq!['s', 'h', 'a', '2', '5', '6', ':']
}

/// The lower-case hexadecimal digest of a `sha256:<64 hex digits>` text,
/// or `None` when the text has another shape.
pub open spec fn digest_parse(raw: Seq<char>) -> Option<Seq<char>> {
    if raw.len() >= 7 && raw.take(7) == sha256_prefix() {
        let hex = raw.skip(7);
        if hex.len() == 64 && forall|i: int| 0 <= i < hex.len() ==> is_hex_digit(#[trigger] hex[i]) {
            Some(ascii_lowercase(hex))
        } else {
            None
        }
    } else {
        None
    }
}

/// A validated SHA-256 digest: 64 lower-case hexadecimal digits, without the
/// `sha256:` prefix of the wire format.
pub struct Sha256HexDigest {
    hex: String,
}

impl View for Sha256HexDigest {
    type V = Seq<char>;

    closed spec fn view(&self) -> Seq<char> {
        self.hex@
    }
}

fn is_hex_digit_exec(c: char) -> (r: bool)
    ensures
        r == is_hex_digit(c),
{
    ('0' <= c && c <= '9') || ('a' <= c && c <= 'f') || ('A' <= c && c <= 'F')
}

impl Sha256HexDigest {
    /// Parses `sha256:<64 hex digits>`, keeping the digits in lower case.
    pub fn try_from(raw: &str) -> (r: Result<Sha256HexDigest, ()>)
        ensures
            match digest_parse(raw@) {
                Some(h) => r is Ok && r->Ok_0@ == h,
                None => r is Err,
            },
    {
        let cs = chars_of(raw);
        let n: usize = cs.len();
        if n < 7 {
            return Err(());
        }
        let mut i: usize = 0;
        proof {
            reveal_strlit("sha256:");
        }
        let prefix = chars_of("sha256:");
        assert(prefix@ =~= sha256_prefix());
        while i < 7
            invariant
                n == cs@.len(),
                cs@ == raw@,
                7 <= n,
                prefix@ == sha256_prefix(),
                i <= 7,
                forall|j: int| 0 <= j < i ==> cs@[j] == prefix@[j],
            decreases 7 - i,
        {
            if cs[i] != prefix[i] {
                assert(cs@.take(7)[i as int] != sha256_prefix()[i as int]);
                assert(cs@.take(7) != sha256_prefix());
                return Err(());
            }
            i = i + 1;
        }
        assert(cs@.take(7) =~= sha256_prefix());
        if n != 71 {
            return Err(());
        }
        let mut k: usize = 7;
        while k < n
            invariant
                n == cs@.len(),
                cs@ == raw@,
                cs@.take(7) == sha256_prefix(),
                n == 71,
                7 <= k <= n,
                forall|j: int| 7 <= j < k ==> is_hex_digit(#[trigger] cs@[j]),
            decreases n - k,
        {
            if !is_hex_digit_exec(cs[k]) {
                let ghost hex = cs@.skip(7);
                assert(hex[k - 7] == cs@[k as int]);
                assert(!is_hex_digit(hex[k - 7]));
                return Err(());
            }
            k = k + 1;
        }
        let hex = crate::purl::slice_chars(&cs, 7, n);
        assert(hex@ =~= cs@.skip(7));
        let lower = to_ascii_lowercase(&hex);
        Ok(Sha256HexDigest { hex: string_from_chars(lower.as_slice()) })
    }

    /// The 64 lower-case hexadecimal digits.
    pub fn as_hex(&self) -> (r: &str)
        ensures
            r@ == self@,
    {
        self.hex.as_str()
    }
}

/// An accepted digest is 64 lower-case hexadecimal digits.
pub proof fn lemma_digest_shape(raw: Seq<char>)
    requires
        digest_parse(raw) is Some,
    ensures
        digest_parse(raw)->Some_0.len() == 64,
        forall|i: int|
            0 <= i < 64 ==> is_lower_hex_digit(#[trigger] digest_parse(raw)->Some_0[i]),
{
    let hex = raw.skip(7);
    assert forall|i: int| 0 <= i < 64 implies is_lower_hex_digit(
        #[trigger] digest_parse(raw)->Some_0[i],
    ) by {
        assert(is_hex_digit(hex[i]));
        let c = hex[i];
        if 'A' <= c && c <= 'F' {
            assert((c as u32) + 32 <= 'f' as u32);
        }
    }
}

/// One entry of a `versions.json` document as it comes off the wire.
pub struct VersionEntry {
    pub version: String,
    pub usage: Vec<UsageRaw>,
    /// `sha256:<hex>` of the canonical project.
    pub project_digest: String,
    /// Byte length of the archive.
    pub kpar_size: u64,
    /// `sha256:<hex>` of the archive bytes.
    pub kpar_digest: String,
}

/// The plain content of a wire entry.
pub struct VersionEntryView {
    pub version: Seq<char>,
    pub usage: Seq<UsageRaw>,
    pub project_digest: Seq<char>,
    pub kpar_size: u64,
    pub kpar_digest: Seq<char>,
}

impl View for VersionEntry {
    type V = VersionEntryView;

    open spec fn view(&self) -> VersionEntryView {
        VersionEntryView {
            version: self.version@,
            usage: self.usage@,
            project_digest: self.project_digest@,
            kpar_size: self.kpar_size,
            kpar_digest: self.kpar_digest@,
        }
    }
}

/// A per-project `versions.json` document as it comes off the wire; the
/// server emits its entries newest first.
pub struct VersionsJson {
    pub versions: Vec<VersionEntry>,
}

/// A `versions.json` entry after validation: the version parsed, the
/// digests checked and stripped of their prefix.
pub struct AdvertisedVersion {
    pub version: SemVer,
    pub usage: Vec<UsageRaw>,
    pub project_digest: Sha256HexDigest,
    pub kpar_size: u64,
    pub kpar_digest: Sha256HexDigest,
}

/// The plain content of a validated entry.
pub struct AdvertisedView {
    pub version: VersionView,
    pub usage: Seq<UsageRaw>,
    pub project_digest: Seq<char>,
    pub kpar_size: u64,
    pub kpar_digest: Seq<char>,
}

impl View for AdvertisedVersion {
    type V = AdvertisedView;

    open spec fn view(&self) -> AdvertisedView {
        AdvertisedView {
            version: self.version@,
            usage: self.usage@,
            project_digest: self.project_digest@,
            kpar_size: self.kpar_size,
            kpar_digest: self.kpar_digest@,
        }
    }
}

/// Which digest field of an entry is malformed.
#[derive(Debug, Clone, Copy, PartialEq, Eq, Structural)]
pub enum DigestField {
    /// `project_digest`.
    ProjectDigest,
    /// `kpar_digest`.
    KparDigest,
}

/// Why fetching one JSON document over HTTP failed.
pub enum HttpFetchError {
    /// The request itself failed.
    Request { url: String, message: String },
    /// The server answered with a status other than success.
    BadHttpStatus { url: String, status: u16 },
    /// The body could not be read.
    Body { url: String, message: String },
    /// The body is not the expected JSON.
    JsonParse { url: String, message: String },
}

/// The plain content of an [`HttpFetchError`].
pub enum FetchErrorView {
    Request { url: Seq<char>, message: Seq<char> },
    BadHttpStatus { url: Seq<char>, status: u16 },
    Body { url: Seq<char>, message: Seq<char> },
    JsonParse { url: Seq<char>, message: Seq<char> },
}

impl View for HttpFetchError {
    type V = FetchErrorView;

    open spec fn view(&self) -> FetchErrorView {
        match self {
            HttpFetchError::Request { url, message } => FetchErrorView::Request {
                url: url@,
                message: message@,
            },
            HttpFetchError::BadHttpStatus { url, status } => FetchErrorView::BadHttpStatus {
                url: url@,
                status: *status,
            },
            HttpFetchError::Body { url, message } => FetchErrorView::Body {
                url: url@,
                message: message@,
            },
            HttpFetchError::JsonParse { url, message } => FetchErrorView::JsonParse {
                url: url@,
                message: message@,
            },
        }
    }
}

/// Why an index operation failed.
pub enum HTTPIndexEnvironmentError {
    /// A URL could not be extended with a path.
    JoinURL(String, String, UrlError),
    /// A document could not be fetched.
    Fetch(HttpFetchError),
    /// An entry holds a digest that is not `sha256:<64 hex digits>`.
    InvalidVersionEntry { url: String, version: String, field: DigestField, value: String },
    /// An entry holds a version that is not semantic-versioning syntax.
    InvalidSemverVersion { url: String, value: String, source: String },
    /// The document does not list the requested version.
    VersionNotInIndex { url: String, version: String },
    /// The document lists a version more than once.
    DuplicateVersion { url: String, version: String },
}

/// The plain content of an [`HTTPIndexEnvironmentError`].
pub enum HttpIndexErrorView {
    JoinURL(Seq<char>, Seq<char>, UrlErrorView),
    Fetch(FetchErrorView),
    InvalidVersionEntry { url: Seq<char>, version: Seq<char>, field: DigestField, value: Seq<char> },
    InvalidSemverVersion { url: Seq<char>, value: Seq<char>, source: Seq<char> },
    VersionNotInIndex { url: Seq<char>, version: Seq<char> },
    DuplicateVersion { url: Seq<char>, version: Seq<char> },
}

/// The name of a digest field as `versions.json` spells it.
pub open spec fn digest_field_name(f: DigestField) -> Seq<char> {
    match f {
        DigestField::ProjectDigest => "project_digest"@,
        DigestField::KparDigest => "kpar_digest"@,
    }
}

/// The message of a fetch error. A status is written as its number.
pub open spec fn fetch_error_message(e: FetchErrorView) -> Seq<char> {
    match e {
        FetchErrorView::Request { url, message } => joined(seq!["HTTP request to `"@, url, "` failed: "@, message]),
        FetchErrorView::BadHttpStatus { url, status } => joined(seq!["HTTP request to `"@, url, "` returned status "@, crate::versions::decimal(status as nat)]),
        FetchErrorView::Body { url, message } => joined(seq!["failed to read HTTP response body from `"@, url, "`: "@, message]),
        FetchErrorView::JsonParse { url, message } => joined(seq!["failed to parse JSON from `"@, url, "`: "@, message]),
    }
}

impl HttpFetchError {
    /// The error's message.
    pub fn message(&self) -> (r: String)
        ensures
            r@ == fetch_error_message(self@),
    {
        match self {
            HttpFetchError::Request { url, message } => {
                let parts = vec!["HTTP request to `", url.as_str(), "` failed: ", message.as_str()];
                assert(str_views(parts@) =~= seq!["HTTP request to `"@, url@, "` failed: "@, message@]);
                join_strs(&parts)
            },
            HttpFetchError::BadHttpStatus { url, status } => {
                let code = crate::versions::u64_to_decimal(*status as u64);
                let parts = vec!["HTTP request to `", url.as_str(), "` returned status ", code.as_str()];
                assert(str_views(parts@) =~= seq!["HTTP request to `"@, url@, "` returned status "@, crate::versions::decimal(*status as nat)]);
                join_strs(&parts)
            },
            HttpFetchError::Body { url, message } => {
                let parts = vec!["failed to read HTTP response body from `", url.as_str(), "`: ", message.as_str()];
                assert(str_views(parts@) =~= seq!["failed to read HTTP response body from `"@, url@, "`: "@, message@]);
                join_strs(&parts)
            },
            HttpFetchError::JsonParse { url, message } => {
                let parts = vec!["failed to parse JSON from `", url.as_str(), "`: ", message.as_str()];
                assert(str_views(parts@) =~= seq!["failed to parse JSON from `"@, url@, "`: "@, message@]);
                join_strs(&parts)
            },
        }
    }
}

/// The message of an index client error.
pub open spec fn http_index_error_message(e: HttpIndexErrorView) -> Seq<char> {
    match e {
        HttpIndexErrorView::JoinURL(u, path, e) => joined(seq!["failed to extend URL `"@, u, "` with path `"@, path, "`: "@, e.message]),
        HttpIndexErrorView::InvalidVersionEntry { url, version, field, value } => joined(seq!["versions.json at `"@, url, "` has entry for version `"@, version, "` with malformed `"@, digest_field_name(field), "` = `"@, value, "` (expected `sha256:<64-hex>`)"@]),
        HttpIndexErrorView::InvalidSemverVersion { url, value, source } => joined(seq!["versions.json at `"@, url, "` has entry with non-semver version `"@, value, "`: "@, source]),
        HttpIndexErrorView::VersionNotInIndex { url, version } => joined(seq!["versions.json at `"@, url, "` does not list version `"@, version, "`"@]),
        HttpIndexErrorView::DuplicateVersion { url, version } => joined(seq!["versions.json at `"@, url, "` lists version `"@, version, "` more than once"@]),
        HttpIndexErrorView::Fetch(f) => fetch_error_message(f),
    }
}

impl HTTPIndexEnvironmentError {
    /// The error's message.
    pub fn message(&self) -> (r: String)
        ensures
            r@ == http_index_error_message(self@),
    {
        match self {
            HTTPIndexEnvironmentError::JoinURL(u, path, e) => {
                let parts = vec!["failed to extend URL `", u.as_str(), "` with path `", path.as_str(), "`: ", e.message.as_str()];
                assert(str_views(parts@) =~= seq!["failed to extend URL `"@, u@, "` with path `"@, path@, "`: "@, e@.message]);
                join_strs(&parts)
            },
            HTTPIndexEnvironmentError::InvalidVersionEntry { url, version, field, value } => {
                let name = match field {
                    DigestField::ProjectDigest => "project_digest",
                    DigestField::KparDigest => "kpar_digest",
                };
                let parts = vec!["versions.json at `", url.as_str(), "` has entry for version `", version.as_str(), "` with malformed `", name, "` = `", value.as_str(), "` (expected `sha256:<64-hex>`)"];
                assert(str_views(parts@) =~= seq!["versions.json at `"@, url@, "` has entry for version `"@, version@, "` with malformed `"@, digest_field_name(*field), "` = `"@, value@, "` (expected `sha256:<64-hex>`)"@]);
                join_strs(&parts)
            },
            HTTPIndexEnvironmentError::InvalidSemverVersion { url, value, source } => {
                let parts = vec!["versions.json at `", url.as_str(), "` has entry with non-semver version `", value.as_str(), "`: ", source.as_str()];
                assert(str_views(parts@) =~= seq!["versions.json at `"@, url@, "` has entry with non-semver version `"@, value@, "`: "@, source@]);
                join_strs(&parts)
            },
            HTTPIndexEnvironmentError::VersionNotInIndex { url, version } => {
                let parts = vec!["versions.json at `", url.as_str(), "` does not list version `", version.as_str(), "`"];
                assert(str_views(parts@) =~= seq!["versions.json at `"@, url@, "` does not list version `"@, version@, "`"@]);
                join_strs(&parts)
            },
            HTTPIndexEnvironmentError::DuplicateVersion { url, version } => {
                let parts = vec!["versions.json at `", url.as_str(), "` lists version `", version.as_str(), "` more than once"];
                assert(str_views(parts@) =~= seq!["versions.json at `"@, url@, "` lists version `"@, version@, "` more than once"@]);
                join_strs(&parts)
            },
            HTTPIndexEnvironmentError::Fetch(f) => f.message(),
        }
    }
}

impl View for HTTPIndexEnvironmentError {
    type V = HttpIndexErrorView;

    open spec fn view(&self) -> HttpIndexErrorView {
        match self {
            HTTPIndexEnvironmentError::JoinURL(u, p, e) => HttpIndexErrorView::JoinURL(u@, p@, e@),
            HTTPIndexEnvironmentError::Fetch(e) => HttpIndexErrorView::Fetch(e@),
            HTTPIndexEnvironmentError::InvalidVersionEntry { url, version, field, value } =>
                HttpIndexErrorView::InvalidVersionEntry {
                url: url@,
                version: version@,
                field: *field,
                value: value@,
            },
            HTTPIndexEnvironmentError::InvalidSemverVersion { url, value, source } =>
                HttpIndexErrorView::InvalidSemverVersion {
                url: url@,
                value: value@,
                source: source@,
            },
            HTTPIndexEnvironmentError::VersionNotInIndex { url, version } =>
                HttpIndexErrorView::VersionNotInIndex { url: url@, version: version@ },
            HTTPIndexEnvironmentError::DuplicateVersion { url, version } =>
                HttpIndexErrorView::DuplicateVersion { url: url@, version: version@ },
        }
    }
}

/// What validating one wire entry yields: the version must parse, then the
/// project digest, then the archive digest must have the digest shape.
pub open spec fn entry_outcome(url: Seq<char>, e: VersionEntryView) -> Result<
    AdvertisedView,
    HttpIndexErrorView,
> {
    match semver_parse(e.version) {
        Err(msg) => Err(
            HttpIndexErrorView::InvalidSemverVersion { url, value: e.version, source: msg },
        ),
        Ok(v) => match digest_parse(e.project_digest) {
            None => Err(
                HttpIndexErrorView::InvalidVersionEntry {
                    url,
                    version: e.version,
                    field: DigestField::ProjectDigest,
                    value: e.project_digest,
                },
            ),
            Some(pd) => match digest_parse(e.kpar_digest) {
                None => Err(
                    HttpIndexErrorView::InvalidVersionEntry {
                        url,
                        version: e.version,
                        field: DigestField::KparDigest,
                        value: e.kpar_digest,
                    },
                ),
                Some(kd) => Ok(
                    AdvertisedView {
                        version: v,
                        usage: e.usage,
                        project_digest: pd,
                        kpar_size: e.kpar_size,
                        kpar_digest: kd,
                    },
                ),
            },
        },
    }
}

/// Validates the entries in order; the first invalid entry decides the
/// error.
pub open spec fn validated_entries(url: Seq<char>, es: Seq<VersionEntryView>) -> Result<
    Seq<AdvertisedView>,
    HttpIndexErrorView,
>
    decreases es.len(),
{
    if es.len() == 0 {
        Ok(Seq::empty())
    } else {
        match validated_entries(url, es.drop_last()) {
            Err(e) => Err(e),
            Ok(prefix) => match entry_outcome(url, es.last()) {
                Err(e) => Err(e),
                Ok(a) => Ok(prefix.push(a)),
            },
        }
    }
}

/// `j` is the first position whose version already occurs earlier.
pub open spec fn is_first_duplicate(vs: Seq<AdvertisedView>, j: int) -> bool {
    &&& 0 <= j < vs.len()
    &&& exists|i: int| 0 <= i < j && #[trigger] vs[i].version == vs[j].version
    &&& forall|k: int, i: int|
        0 <= i < k < j ==> #[trigger] vs[i].version != #[trigger] vs[k].version
}

/// The first position whose version already occurs earlier, if any.
pub open spec fn first_duplicate(vs: Seq<AdvertisedView>) -> Option<int> {
    if exists|j: int| is_first_duplicate(vs, j) {
        Some(choose|j: int| is_first_duplicate(vs, j))
    } else {
        None
    }
}

/// What the client accepts of a `versions.json` document fetched from
/// `url`: every entry validated, in wire order, and no version listed
/// twice.
pub open spec fn versions_outcome(url: Seq<char>, es: Seq<VersionEntryView>) -> Result<
    Seq<AdvertisedView>,
    HttpIndexErrorView,
> {
    match validated_entries(url, es) {
        Err(e) => Err(e),
        Ok(vs) => match first_duplicate(vs) {
            Some(j) => Err(
                HttpIndexErrorView::DuplicateVersion { url, version: version_text(vs[j].version) },
            ),
            None => Ok(vs),
        },
    }
}

/// The plain content of a list of entries.
pub open spec fn entry_views(es: Seq<VersionEntry>) -> Seq<VersionEntryView> {
    Seq::new(es.len(), |i: int| es[i]@)
}

/// The plain content of a list of validated entries.
pub open spec fn advertised_views(vs: Seq<AdvertisedVersion>) -> Seq<AdvertisedView> {
    Seq::new(vs.len(), |i: int| vs[i]@)
}

/// The plain content of a validation's result.
pub open spec fn validated_view(r: Result<Vec<AdvertisedVersion>, HTTPIndexEnvironmentError>) -> Result<
    Seq<AdvertisedView>,
    HttpIndexErrorView,
> {
    match r {
        Ok(vs) => Ok(advertised_views(vs@)),
        Err(e) => Err(e@),
    }
}

proof fn lemma_first_duplicate_unique(vs: Seq<AdvertisedView>, j: int)
    requires
        is_first_duplicate(vs, j),
    ensures
        first_duplicate(vs) == Some(j),
{
    let c = choose|m: int| is_first_duplicate(vs, m);
    assert(is_first_duplicate(vs, c));
    if c < j {
        let i = choose|i: int| 0 <= i < c && #[trigger] vs[i].version == vs[c].version;
        assert(vs[i].version != vs[c].version);
    } else if c > j {
        let i = choose|i: int| 0 <= i < j && #[trigger] vs[i].version == vs[j].version;
        assert(vs[i].version != vs[j].version);
    }
}

/// Validates one wire entry.
fn validate_entry(url: &str, entry: VersionEntry) -> (r: Result<
    AdvertisedVersion,
    HTTPIndexEnvironmentError,
>)
    ensures
        match r {
            Ok(a) => entry_outcome(url@, entry@) == Ok::<AdvertisedView, HttpIndexErrorView>(a@),
            Err(e) => entry_outcome(url@, entry@) == Err::<AdvertisedView, HttpIndexErrorView>(e@),
        },
{
    let version = match parse_semver(entry.version.as_str()) {
        Ok(v) => v,
        Err(source) => {
            return Err(
                HTTPIndexEnvironmentError::InvalidSemverVersion {
                    url: url.to_string(),
                    value: entry.version,
                    source,
                },
            );
        },
    };
    let project_digest = match Sha256HexDigest::try_from(entry.project_digest.as_str()) {
        Ok(d) => d,
        Err(()) => {
            return Err(
                HTTPIndexEnvironmentError::InvalidVersionEntry {
                    url: url.to_string(),
                    version: entry.version,
                    field: DigestField::ProjectDigest,
                    value: entry.project_digest,
                },
            );
        },
    };
    let kpar_digest = match Sha256HexDigest::try_from(entry.kpar_digest.as_str()) {
        Ok(d) => d,
        Err(()) => {
            return Err(
                HTTPIndexEnvironmentError::InvalidVersionEntry {
                    url: url.to_string(),
                    version: entry.version,
                    field: DigestField::KparDigest,
                    value: entry.kpar_digest,
                },
            );
        },
    };
    Ok(
        AdvertisedVersion {
            version,
            usage: entry.usage,
            project_digest,
            kpar_size: entry.kpar_size,
            kpar_digest,
        },
    )
}

/// Validates a `versions.json` document fetched from `url`: every version
/// is parsed, both digests of every entry are checked, the first bad entry
/// rejects the whole document, and a version listed twice rejects it too.
/// Wire order is kept.
pub fn validate_versions(url: &ParsedUrl, vs: VersionsJson) -> (r: Result<
    Vec<AdvertisedVersion>,
    HTTPIndexEnvironmentError,
>)
    ensures
        validated_view(r) == versions_outcome(url@.href, entry_views(vs.versions@)),
{
    let u = url.as_str();
    let ghost es = entry_views(vs.versions@);
    let mut out: Vec<AdvertisedVersion> = Vec::new();
    assert(es.take(0) =~= Seq::<VersionEntryView>::empty());
    assert(advertised_views(out@) =~= Seq::<AdvertisedView>::empty());
    for entry in it: vs.versions.into_iter()
        invariant
            u@ == url@.href,
            es == entry_views(it.seq()),
            validated_entries(u@, es.take(it.index() as int)) == Ok::<
                Seq<AdvertisedView>,
                HttpIndexErrorView,
            >(advertised_views(out@)),
    {
        let ghost k = it.index() as int;
        let ghost old_views = advertised_views(out@);
        assert(es.take(k + 1).drop_last() =~= es.take(k));
        assert(es[k] == entry@);
        assert(es.take(k + 1).last() == entry@);
        match validate_entry(u, entry) {
            Ok(a) => {
                let ghost av = a@;
                out.push(a);
                assert(advertised_views(out@) =~= old_views.push(av));
            },
            Err(e) => {
                proof {
                    lemma_validated_error_persists(u@, es, k + 1);
                }
                return Err(e);
            },
        }
    }
    assert(es.take(es.len() as int) =~= es);
    let n: usize = out.len();
    let mut j: usize = 0;
    while j < n
        invariant
            n == out@.len(),
            j <= n,
            u@ == url@.href,
            es == entry_views(vs.versions@),
            validated_entries(u@, es) == Ok::<Seq<AdvertisedView>, HttpIndexErrorView>(
                advertised_views(out@),
            ),
            forall|k: int, i: int|
                0 <= i < k < j ==> #[trigger] out@[i]@.version != #[trigger] out@[k]@.version,
        decreases n - j,
    {
        let mut i: usize = 0;
        while i < j
            invariant
                n == out@.len(),
                i <= j < n,
                u@ == url@.href,
                es == entry_views(vs.versions@),
                validated_entries(u@, es) == Ok::<Seq<AdvertisedView>, HttpIndexErrorView>(
                    advertised_views(out@),
                ),
                forall|k: int, m: int|
                    0 <= m < k < j ==> #[trigger] out@[m]@.version != #[trigger] out@[k]@.version,
                forall|m: int| 0 <= m < i ==> #[trigger] out@[m]@.version != out@[j as int]@.version,
            decreases j - i,
        {
            if compare_versions(&out[i].version, &out[j].version) == 0 {
                proof {
                    let vs = advertised_views(out@);
                    assert(vs[i as int].version == vs[j as int].version);
                    assert forall|k: int, m: int|
                        0 <= m < k < j implies #[trigger] vs[m].version != #[trigger] vs[k].version by {
                        assert(vs[m] == out@[m]@);
                        assert(vs[k] == out@[k]@);
                    }
                    assert(is_first_duplicate(vs, j as int));
                    lemma_first_duplicate_unique(vs, j as int);
                }
                return Err(
                    HTTPIndexEnvironmentError::DuplicateVersion {
                        url: u.to_string(),
                        version: out[j].version.to_text(),
                    },
                );
            }
            i = i + 1;
        }
        j = j + 1;
    }
    proof {
        let vs = advertised_views(out@);
        assert forall|j2: int| !is_first_duplicate(vs, j2) by {
            if is_first_duplicate(vs, j2) {
                let i2 = choose|i2: int| 0 <= i2 < j2 && #[trigger] vs[i2].version == vs[j2].version;
                assert(vs[i2] == out@[i2]@);
                assert(vs[j2] == out@[j2]@);
            }
        }
    }
    Ok(out)
}

/// Once a prefix of the entries fails validation, every longer prefix fails
/// with the same error.
proof fn lemma_validated_error_persists(url: Seq<char>, es: Seq<VersionEntryView>, k: int)
    requires
        0 <= k <= es.len(),
        validated_entries(url, es.take(k)) is Err,
    ensures
        validated_entries(url, es) == validated_entries(url, es.take(k)),
    decreases es.len() - k,
{
    if k < es.len() {
        assert(es.take(k + 1).drop_last() =~= es.take(k));
        lemma_validated_error_persists(url, es, k + 1);
    } else {
        assert(es.take(k) =~= es);
    }
}

/// A `versions.json` document the client accepts lists every version once.
pub proof fn lemma_accepted_versions_unique(url: Seq<char>, es: Seq<VersionEntryView>)
    requires
        versions_outcome(url, es) is Ok,
    ensures
        forall|i: int, j: int|
            0 <= i < j < versions_outcome(url, es)->Ok_0.len() ==> (#[trigger] versions_outcome(
                url,
                es,
            )->Ok_0[i]).version != (#[trigger] versions_outcome(url, es)->Ok_0[j]).version,
{
    let vs = versions_outcome(url, es)->Ok_0;
    assert(first_duplicate(vs) is None);
    assert forall|i: int, j: int| 0 <= i < j < vs.len() implies (#[trigger] vs[i]).version != (
    #[trigger] vs[j]).version by {
        if vs[i].version == vs[j].version {
            lemma_some_duplicate_has_first(vs, j);
        }
    }
}

/// A list in which some position repeats an earlier version has a first
/// such position.
proof fn lemma_some_duplicate_has_first(vs: Seq<AdvertisedView>, j: int)
    requires
        0 <= j < vs.len(),
        exists|i: int| 0 <= i < j && #[trigger] vs[i].version == vs[j].version,
    ensures
        first_duplicate(vs) is Some,
    decreases j,
{
    if forall|k: int, i: int| 0 <= i < k < j ==> #[trigger] vs[i].version != #[trigger] vs[k].version {
        assert(is_first_duplicate(vs, j));
    } else {
        let (k, i) = choose|k: int, i: int|
            0 <= i < k < j && #[trigger] vs[i].version == #[trigger] vs[k].version;
        lemma_some_duplicate_has_first(vs, k);
    }
}

/// `_iri`.
pub open spec fn iri_hash_segment() -> Seq<char> {
    seq!['_', 'i', 'r', 'i']
}

/// What `sha2::Sha256` makes of a byte string, written as lower-case
/// hexadecimal.
pub uninterp spec fn sha256_hex(bytes: Seq<u8>) -> Seq<char>;

/// A lower-case hexadecimal digit.
pub open spec fn is_lower_hex_digit(c: char) -> bool {
    ('0' <= c && c <= '9') || ('a' <= c && c <= 'f')
}

/// The SHA-256 digest (`sha2::Sha256::digest`) of `bytes`, formatted with
/// `{:x}`: the crate's output is 32 bytes, so the text is 64 lower-case
/// hexadecimal digits.
#[verifier::external_body]
pub(crate) fn sha256_hex_of(bytes: &[u8]) -> (r: String)
    ensures
        r@ == sha256_hex(bytes@),
        r@.len() == 64,
        forall|i: int| 0 <= i < r@.len() ==> is_lower_hex_digit(#[trigger] r@[i]),
{
    format!("{:x}", sha2::Sha256::digest(bytes))
}

/// The plain content of a list of strings.
pub open spec fn string_views(v: Seq<String>) -> Seq<Seq<char>> {
    Seq::new(v.len(), |i: int| v[i]@)
}

/// The path segments under the index root of the directory of a project:
/// `<publisher>/<name>` for a valid, normalized `pkg:sysand/<publisher>/<name>`,
/// and `_iri/<sha256 of the IRI>` for any other IRI, so that no IRI can
/// reach outside the index.
pub open spec fn route_segments(iri: Seq<char>) -> Seq<Seq<char>> {
    match pkg_sysand_parts(iri) {
        Some((p, n)) => seq![p, n],
        None => seq![iri_hash_segment(), sha256_hex(encode_utf8(iri))],
    }
}

/// A path segment that stays where it is put: non-empty, not `.` or `..`,
/// and without `/`.
pub open spec fn safe_segment(s: Seq<char>) -> bool {
    &&& s.len() > 0
    &&& s != seq!['.']
    &&& s != seq!['.', '.']
    &&& forall|i: int| 0 <= i < s.len() ==> #[trigger] s[i] != '/'
}

proof fn lemma_normalized_field_safe(s: Seq<char>, kind: FieldKind)
    requires
        normalized_field(s, kind),
    ensures
        safe_segment(s),
{
    lemma_valid_field_has_no_slash(s, kind);
    assert(s.len() >= 3);
    assert(s != seq!['.']);
    assert(s != seq!['.', '.']);
}

/// The publisher and name of an IRI that routes to `<publisher>/<name>`.
pub fn parse_pkg_sysand_iri(iri: &str) -> (r: Option<(String, String)>)
    ensures
        match r {
            Some((p, n)) => pkg_sysand_parts(iri@) == Some((p@, n@)),
            None => pkg_sysand_parts(iri@) is None,
        },
{
    proof {
        lemma_purl_parsers_agree(iri@);
    }
    match parse_sysand_purl(iri) {
        Ok(Some((p, n))) => Some((p, n)),
        _ => None,
    }
}

/// The path segments of the directory of a project under the index root.
pub fn iri_path_segments(iri: &str) -> (r: Vec<String>)
    ensures
        string_views(r@) == route_segments(iri@),
        r@.len() == 2,
        forall|i: int| 0 <= i < 2 ==> safe_segment(#[trigger] r@[i]@),
{
    match parse_pkg_sysand_iri(iri) {
        Some((p, n)) => {
            proof {
                lemma_normalized_field_safe(p@, FieldKind::Publisher);
                lemma_normalized_field_safe(n@, FieldKind::Name);
            }
            let v = vec![p, n];
            assert(string_views(v@) =~= route_segments(iri@));
            v
        },
        None => {
            proof {
                reveal_strlit("_iri");
                assert("_iri"@ =~= iri_hash_segment());
            }
            let hash = sha256_hex_of(iri.as_bytes());
            assert(hash@.len() == 64);
            assert(hash@ != seq!['.']);
            assert(hash@ != seq!['.', '.']);
            assert forall|i: int| 0 <= i < hash@.len() implies #[trigger] hash@[i] != '/' by {
                assert(is_lower_hex_digit(hash@[i]));
            }
            let v = vec!["_iri".to_string(), hash];
            assert(string_views(v@) =~= route_segments(iri@));
            assert(v@[0]@ != seq!['.']);
            assert(v@[0]@ != seq!['.', '.']);
            v
        },
    }
}

/// The root of an index as a directory: its path gets a trailing `/`.
pub open spec fn root_view(u: UrlView) -> UrlView {
    if u.path.len() == 0 {
        url_with_path(u, seq!['/'])
    } else if u.path.last() != '/' {
        url_with_path(u, u.path.push('/'))
    } else {
        u
    }
}

/// What joining `input` onto `u` yields, with the error of an index
/// operation.
pub open spec fn join_outcome(u: UrlView, input: Seq<char>) -> Result<UrlView, HttpIndexErrorView> {
    match url_join(u, input) {
        Ok(v) => Ok(v),
        Err(e) => Err(HttpIndexErrorView::JoinURL(u.href, input, e)),
    }
}

/// Joins each segment, as a directory, onto `u` in turn.
pub open spec fn join_dirs(u: UrlView, segs: Seq<Seq<char>>) -> Result<UrlView, HttpIndexErrorView>
    decreases segs.len(),
{
    if segs.len() == 0 {
        Ok(u)
    } else {
        match join_outcome(u, segs[0].push('/')) {
            Err(e) => Err(e),
            Ok(v) => join_dirs(v, segs.drop_first()),
        }
    }
}

/// The directory of a project: its route segments joined onto the root.
pub open spec fn project_dir(base: UrlView, iri: Seq<char>) -> Result<UrlView, HttpIndexErrorView> {
    join_dirs(root_view(base), route_segments(iri))
}

/// A file in the directory of one version of a project.
pub open spec fn version_file(base: UrlView, iri: Seq<char>, version: Seq<char>, file: Seq<char>) -> Result<
    UrlView,
    HttpIndexErrorView,
> {
    match project_dir(base, iri) {
        Err(e) => Err(e),
        Ok(p) => match join_outcome(p, version.push('/')) {
            Err(e) => Err(e),
            Ok(d) => join_outcome(d, file),
        },
    }
}

/// The plain content of a URL result of an index operation.
pub open spec fn index_url_view(r: Result<ParsedUrl, HTTPIndexEnvironmentError>) -> Result<
    UrlView,
    HttpIndexErrorView,
> {
    match r {
        Ok(u) => Ok(u@),
        Err(e) => Err(e@),
    }
}

/// `index.json`.
pub open spec fn index_file() -> Seq<char> {
    seq!['i', 'n', 'd', 'e', 'x', '.', 'j', 's', 'o', 'n']
}

/// `versions.json`.
pub open spec fn versions_file() -> Seq<char> {
    seq!['v', 'e', 'r', 's', 'i', 'o', 'n', 's', '.', 'j', 's', 'o', 'n']
}

/// `project.kpar`.
pub open spec fn kpar_file() -> Seq<char> {
    seq!['p', 'r', 'o', 'j', 'e', 'c', 't', '.', 'k', 'p', 'a', 'r']
}

/// `.project.json`.
pub open spec fn project_json_file() -> Seq<char> {
    seq!['.', 'p', 'r', 'o', 'j', 'e', 'c', 't', '.', 'j', 's', 'o', 'n']
}

/// `.meta.json`.
pub open spec fn meta_json_file() -> Seq<char> {
    seq!['.', 'm', 'e', 't', 'a', '.', 'j', 's', 'o', 'n']
}

/// Joins `input` onto `url`.
pub fn join_index_url(url: &ParsedUrl, input: &str) -> (r: Result<
    ParsedUrl,
    HTTPIndexEnvironmentError,
>)
    ensures
        index_url_view(r) == join_outcome(url@, input@),
{
    match join_url(url, input) {
        Ok(u) => Ok(u),
        Err(e) => Err(
            HTTPIndexEnvironmentError::JoinURL(url.as_str().to_string(), input.to_string(), e),
        ),
    }
}

/// Where the documents of an HTTP index live. The HTTP client and the
/// authentication that fetch them are held by the caller.
pub struct HTTPIndexEnvironmentAsync {
    /// The index root as configured.
    pub base_url: ParsedUrl,
}

impl HTTPIndexEnvironmentAsync {
    /// The index root with a guaranteed trailing slash on its path, so that
    /// joining treats it as a directory.
    pub fn root_url(&self) -> (r: ParsedUrl)
        ensures
            r@ == root_view(self.base_url@),
    {
        let result = self.base_url.duplicate();
        let path = chars_of(result.path());
        if path.len() == 0 {
            proof {
                reveal_strlit("/");
                assert("/"@ =~= seq!['/']);
            }
            set_path(result, "/")
        } else if path[path.len() - 1] != '/' {
            let mut p = path;
            p.push('/');
            let text = string_from_chars(p.as_slice());
            set_path(result, text.as_str())
        } else {
            result
        }
    }

    /// `index.json` under the root.
    pub fn index_url(&self) -> (r: Result<ParsedUrl, HTTPIndexEnvironmentError>)
        ensures
            index_url_view(r) == join_outcome(root_view(self.base_url@), index_file()),
    {
        proof {
            reveal_strlit("index.json");
            assert("index.json"@ =~= index_file());
        }
        join_index_url(&self.root_url(), "index.json")
    }

    /// The directory of the project identified by `iri`.
    pub fn project_url(&self, iri: &str) -> (r: Result<ParsedUrl, HTTPIndexEnvironmentError>)
        ensures
            index_url_view(r) == project_dir(self.base_url@, iri@),
    {
        let segments = iri_path_segments(iri);
        let ghost segs = string_views(segments@);
        let mut result = self.root_url();
        let n: usize = segments.len();
        let mut i: usize = 0;
        assert(segs.skip(0) =~= segs);
        while i < n
            invariant
                n == segments@.len(),
                i <= n,
                segs == string_views(segments@),
                segs == route_segments(iri@),
                join_dirs(result@, segs.skip(i as int)) == project_dir(self.base_url@, iri@),
            decreases n - i,
        {
            let mut dir = chars_of(segments[i].as_str());
            dir.push('/');
            let text = string_from_chars(dir.as_slice());
            assert(segs.skip(i as int)[0] == segments@[i as int]@);
            assert(segs.skip(i as int).drop_first() =~= segs.skip(i + 1));
            result = match join_index_url(&result, text.as_str()) {
                Ok(u) => u,
                Err(e) => return Err(e),
            };
            i = i + 1;
        }
        Ok(result)
    }

    /// A file in the directory of one version of a project.
    fn version_file_url(&self, iri: &str, version: &str, file: &str) -> (r: Result<
        ParsedUrl,
        HTTPIndexEnvironmentError,
    >)
        ensures
            index_url_view(r) == version_file(self.base_url@, iri@, version@, file@),
    {
        let base = match self.project_url(iri) {
            Ok(u) => u,
            Err(e) => return Err(e),
        };
        let mut dir = chars_of(version);
        dir.push('/');
        let text = string_from_chars(dir.as_slice());
        let d = match join_index_url(&base, text.as_str()) {
            Ok(u) => u,
            Err(e) => return Err(e),
        };
        join_index_url(&d, file)
    }

    /// The archive of one version of a project.
    pub fn kpar_url(&self, iri: &str, version: &str) -> (r: Result<
        ParsedUrl,
        HTTPIndexEnvironmentError,
    >)
        ensures
            index_url_view(r) == version_file(self.base_url@, iri@, version@, kpar_file()),
    {
        proof {
            reveal_strlit("project.kpar");
            assert("project.kpar"@ =~= kpar_file());
        }
        self.version_file_url(iri, version, "project.kpar")
    }

    /// The `.project.json` of one version of a project.
    pub fn project_json_url(&self, iri: &str, version: &str) -> (r: Result<
        ParsedUrl,
        HTTPIndexEnvironmentError,
    >)
        ensures
            index_url_view(r) == version_file(self.base_url@, iri@, version@, project_json_file()),
    {
        proof {
            reveal_strlit(".project.json");
            assert(".project.json"@ =~= project_json_file());
        }
        self.version_file_url(iri, version, ".project.json")
    }

    /// The `.meta.json` of one version of a project.
    pub fn meta_json_url(&self, iri: &str, version: &str) -> (r: Result<
        ParsedUrl,
        HTTPIndexEnvironmentError,
    >)
        ensures
            index_url_view(r) == version_file(self.base_url@, iri@, version@, meta_json_file()),
    {
        proof {
            reveal_strlit(".meta.json");
            assert(".meta.json"@ =~= meta_json_file());
        }
        self.version_file_url(iri, version, ".meta.json")
    }

    /// The `versions.json` of a project.
    pub fn versions_url(&self, iri: &str) -> (r: Result<ParsedUrl, HTTPIndexEnvironmentError>)
        ensures
            index_url_view(r) == versions_url_outcome(self.base_url@, iri@),
    {
        let base = match self.project_url(iri) {
            Ok(u) => u,
            Err(e) => return Err(e),
        };
        proof {
            reveal_strlit("versions.json");
            assert("versions.json"@ =~= versions_file());
        }
        join_index_url(&base, "versions.json")
    }
}

/// Where the `versions.json` of `iri` lies under the index root `base`.
pub open spec fn versions_url_outcome(base: UrlView, iri: Seq<char>) -> Result<UrlView, HttpIndexErrorView> {
    match project_dir(base, iri) {
        Err(e) => Err(e),
        Ok(p) => join_outcome(p, versions_file()),
    }
}

/// Whether a 404 means "no such document" or is an error.
#[derive(Debug, Clone, Copy, PartialEq, Eq, Structural)]
pub enum MissingPolicy {
    /// A 404 is a successful "the document does not exist".
    AllowNotFound,
    /// A 404 is an error.
    RequirePresent,
}

/// What a response status means for a fetch: `Ok(false)` when the document
/// is absent (a 404 that the policy allows), `Ok(true)` when the body is to
/// be read (a success status), and an error for any other status.
pub open spec fn status_outcome(url: Seq<char>, status: u16, missing: MissingPolicy) -> Result<
    bool,
    FetchErrorView,
> {
    if status == 404 && missing == MissingPolicy::AllowNotFound {
        Ok(false)
    } else if !(200 <= status && status <= 299) {
        Err(FetchErrorView::BadHttpStatus { url, status })
    } else {
        Ok(true)
    }
}

/// A document that must be present is never reported absent: under
/// `RequirePresent` a fetch either reads the body or fails.
pub proof fn lemma_required_documents_are_never_absent(url: Seq<char>, status: u16)
    ensures
        status_outcome(url, status, MissingPolicy::RequirePresent) != Ok::<bool, FetchErrorView>(
            false,
        ),
{
}

/// How a response status decides a fetch, for every status: a success
/// status (200 to 299) reads the body; a missing document is reported only
/// for a 404 where missing documents are allowed (an authentication failure
/// or any other 4xx is never taken for absence); every other status is a
/// `BadHttpStatus` error carrying the URL and the status, under either
/// policy.
pub proof fn lemma_only_404_means_absent(url: Seq<char>, status: u16, missing: MissingPolicy)
    ensures
        (status_outcome(url, status, missing) == Ok::<bool, FetchErrorView>(false)) <==> (status
            == 404 && missing == MissingPolicy::AllowNotFound),
        200 <= status <= 299 ==> status_outcome(url, status, missing) == Ok::<bool, FetchErrorView>(
            true,
        ),
        !(200 <= status <= 299) && !(status == 404 && missing == MissingPolicy::AllowNotFound)
            ==> status_outcome(url, status, missing) == Err::<bool, FetchErrorView>(
            FetchErrorView::BadHttpStatus { url, status },
        ),
{
}

/// Decides what to do with the status of a response to a document fetch.
pub fn check_status(url: &str, status: u16, missing: MissingPolicy) -> (r: Result<
    bool,
    HttpFetchError,
>)
    ensures
        match r {
            Ok(b) => status_outcome(url@, status, missing) == Ok::<bool, FetchErrorView>(b),
            Err(e) => status_outcome(url@, status, missing) == Err::<bool, FetchErrorView>(e@),
        },
{
    if status == 404 && missing == MissingPolicy::AllowNotFound {
        Ok(false)
    } else if !(200 <= status && status <= 299) {
        Err(HttpFetchError::BadHttpStatus { url: url.to_string(), status })
    } else {
        Ok(true)
    }
}

/// One project of `index.json`.
pub struct IndexProject {
    pub iri: String,
}

/// The root `index.json` document: every project IRI the index knows.
pub struct IndexJson {
    pub projects: Vec<IndexProject>,
}

/// The IRIs of an index's projects, in document order.
pub fn index_uris(index: IndexJson) -> (r: Vec<String>)
    ensures
        r@.len() == index.projects@.len(),
        forall|i: int| 0 <= i < r@.len() ==> #[trigger] r@[i] == index.projects@[i].iri,
{
    let mut out: Vec<String> = Vec::new();
    for p in it: index.projects.into_iter()
        invariant
            out@.len() == it.index(),
            it.seq() == index.projects@,
            forall|i: int| 0 <= i < out@.len() ==> #[trigger] out@[i] == it.seq()[i].iri,
    {
        out.push(p.iri);
    }
    out
}

/// The root document of an index, which must exist: a missing `index.json`
/// means the URL is not a sysand index, not an empty one.
pub fn require_index(url: &ParsedUrl, doc: Option<IndexJson>) -> (r: Result<
    IndexJson,
    HTTPIndexEnvironmentError,
>)
    ensures
        doc is Some <==> r is Ok,
        r is Err ==> r->Err_0@ == HttpIndexErrorView::Fetch(
            FetchErrorView::BadHttpStatus { url: url@.href, status: 404 },
        ),
{
    match doc {
        Some(d) => Ok(d),
        None => Err(
            HTTPIndexEnvironmentError::Fetch(
                HttpFetchError::BadHttpStatus { url: url.as_str().to_string(), status: 404 },
            ),
        ),
    }
}

/// The canonical texts of advertised versions, in document order.
pub fn version_strings(vs: &Vec<AdvertisedVersion>) -> (r: Vec<String>)
    ensures
        r@.len() == vs@.len(),
        forall|i: int| 0 <= i < r@.len() ==> #[trigger] r@[i]@ == version_text(vs@[i]@.version),
{
    let mut out: Vec<String> = Vec::new();
    let n: usize = vs.len();
    let mut i: usize = 0;
    while i < n
        invariant
            n == vs@.len(),
            i <= n,
            out@.len() == i,
            forall|k: int| 0 <= k < i ==> #[trigger] out@[k]@ == version_text(vs@[k]@.version),
        decreases n - i,
    {
        out.push(vs[i].version.to_text());
        i = i + 1;
    }
    out
}

/// `i` is the first advertised entry whose canonical version text is
/// `version`.
pub open spec fn is_first_match(vs: Seq<AdvertisedView>, version: Seq<char>, i: int) -> bool {
    &&& 0 <= i < vs.len()
    &&& version_text(vs[i].version) == version
    &&& forall|k: int| 0 <= k < i ==> version_text(#[trigger] vs[k].version) != version
}

/// Picks the advertised entry of the requested version of a project. The
/// `versions.json` is the source of truth: a missing document is a 404
/// error, and a version it does not list is refused.
pub fn select_advertised(
    versions_url: &ParsedUrl,
    versions: Option<&Vec<AdvertisedVersion>>,
    version: &str,
) -> (r: Result<usize, HTTPIndexEnvironmentError>)
    ensures
        versions is None ==> r is Err && r->Err_0@ == HttpIndexErrorView::Fetch(
            FetchErrorView::BadHttpStatus { url: versions_url@.href, status: 404 },
        ),
        versions is Some ==> match r {
            Ok(i) => is_first_match(advertised_views(versions->Some_0@), version@, i as int),
            Err(e) => e@ == HttpIndexErrorView::VersionNotInIndex {
                url: versions_url@.href,
                version: version@,
            } && forall|k: int|
                0 <= k < versions->Some_0@.len() ==> version_text(
                    #[trigger] versions->Some_0@[k]@.version,
                ) != version@,
        },
{
    let vs = match versions {
        None => {
            return Err(
                HTTPIndexEnvironmentError::Fetch(
                    HttpFetchError::BadHttpStatus {
                        url: versions_url.as_str().to_string(),
                        status: 404,
                    },
                ),
            );
        },
        Some(v) => v,
    };
    let ghost views = advertised_views(vs@);
    let n: usize = vs.len();
    let mut i: usize = 0;
    while i < n
        invariant
            n == vs@.len(),
            i <= n,
            views == advertised_views(vs@),
            versions == Some(vs),
            forall|k: int| 0 <= k < i ==> version_text(#[trigger] vs@[k]@.version) != version@,
        decreases n - i,
    {
        let text = vs[i].version.to_text();
        if str_equal(text.as_str(), version) {
            proof {
                assert forall|k: int| 0 <= k < i implies version_text(#[trigger] views[k].version)
                    != version@ by {
                    assert(views[k] == vs@[k]@);
                }
            }
            return Ok(i);
        }
        i = i + 1;
    }
    Err(
        HTTPIndexEnvironmentError::VersionNotInIndex {
            url: versions_url.as_str().to_string(),
            version: version.to_string(),
        },
    )
}

/// One cached `versions.json` of an index: the project's IRI and its
/// validated entries, or `None` when the index has no such document.
pub struct CacheEntry {
    pub iri: String,
    pub versions: Option<Vec<AdvertisedVersion>>,
}

/// The plain content of a cached document.
pub open spec fn cached_view(v: Option<Vec<AdvertisedVersion>>) -> Option<Seq<AdvertisedView>> {
    match v {
        Some(vs) => Some(advertised_views(vs@)),
        None => None,
    }
}

/// The documents of a list of cache entries, by IRI.
pub open spec fn cache_map(es: Seq<CacheEntry>) -> Map<Seq<char>, Option<Seq<AdvertisedView>>>
    decreases es.len(),
{
    if es.len() == 0 {
        Map::empty()
    } else {
        cache_map(es.drop_last()).insert(es.last().iri@, cached_view(es.last().versions))
    }
}

/// No IRI occurs twice among the entries.
pub open spec fn distinct_iris(es: Seq<CacheEntry>) -> bool {
    forall|i: int, j: int| 0 <= i < j < es.len() ==> (#[trigger] es[i]).iri@ != (#[trigger] es[j]).iri@
}

proof fn lemma_cache_map_at(es: Seq<CacheEntry>, k: int)
    requires
        distinct_iris(es),
        0 <= k < es.len(),
    ensures
        cache_map(es).dom().contains(es[k].iri@),
        cache_map(es)[es[k].iri@] == cached_view(es[k].versions),
    decreases es.len(),
{
    if k < es.len() - 1 {
        let pre = es.drop_last();
        assert(distinct_iris(pre)) by {
            assert forall|i: int, j: int| 0 <= i < j < pre.len() implies (#[trigger] pre[i]).iri@
                != (#[trigger] pre[j]).iri@ by {
                assert(pre[i] == es[i] && pre[j] == es[j]);
            }
        }
        assert(pre[k] == es[k]);
        lemma_cache_map_at(pre, k);
        assert(es[k].iri@ != es.last().iri@);
    }
}

proof fn lemma_cache_map_dom(es: Seq<CacheEntry>, iri: Seq<char>)
    requires
        forall|k: int| 0 <= k < es.len() ==> (#[trigger] es[k]).iri@ != iri,
    ensures
        !cache_map(es).dom().contains(iri),
    decreases es.len(),
{
    if es.len() > 0 {
        let pre = es.drop_last();
        assert forall|k: int| 0 <= k < pre.len() implies (#[trigger] pre[k]).iri@ != iri by {
            assert(pre[k] == es[k]);
        }
        lemma_cache_map_dom(pre, iri);
    }
}

/// The documents after storing the answer `d` for `iri`: the first answer
/// stays.
pub open spec fn stored(
    m: Map<Seq<char>, Option<Seq<AdvertisedView>>>,
    iri: Seq<char>,
    d: Option<Seq<AdvertisedView>>,
) -> Map<Seq<char>, Option<Seq<AdvertisedView>>> {
    if m.dom().contains(iri) {
        m
    } else {
        m.insert(iri, d)
    }
}

/// Once an answer for a project is stored, later answers for it are
/// ignored and every lookup sees the first one: a project's document is
/// fetched at most once per run.
pub proof fn lemma_first_answer_stays(
    m: Map<Seq<char>, Option<Seq<AdvertisedView>>>,
    iri: Seq<char>,
    first: Option<Seq<AdvertisedView>>,
    second: Option<Seq<AdvertisedView>>,
)
    requires
        !m.dom().contains(iri),
    ensures
        stored(stored(m, iri, first), iri, second) == stored(m, iri, first),
        stored(m, iri, first).dom().contains(iri),
        stored(m, iri, first)[iri] == first,
{
}

/// The `versions.json` documents fetched during one run, by IRI. Each is
/// stored once and never replaced, so every later request for the same
/// project sees the first answer, a missing document as much as a present
/// one, and the index is asked at most once per project.
pub struct VersionsCache {
    entries: Vec<CacheEntry>,
}

impl View for VersionsCache {
    type V = Map<Seq<char>, Option<Seq<AdvertisedView>>>;

    closed spec fn view(&self) -> Map<Seq<char>, Option<Seq<AdvertisedView>>> {
        cache_map(self.entries@)
    }
}

impl VersionsCache {
    /// The cache's internal consistency: each IRI is stored once.
    #[verifier::type_invariant]
    closed spec fn wf(&self) -> bool {
        distinct_iris(self.entries@)
    }

    /// An empty cache.
    pub fn new() -> (r: VersionsCache)
        ensures
            r@ == Map::<Seq<char>, Option<Seq<AdvertisedView>>>::empty(),
    {
        VersionsCache { entries: Vec::new() }
    }

    fn position(&self, iri: &str) -> (r: Option<usize>)
        requires
            self.wf(),
        ensures
            r matches Some(k) ==> k < self.entries@.len() && self.entries@[k as int].iri@ == iri@,
            r is None ==> forall|k: int|
                0 <= k < self.entries@.len() ==> (#[trigger] self.entries@[k]).iri@ != iri@,
    {
        let n: usize = self.entries.len();
        let mut i: usize = 0;
        while i < n
            invariant
                n == self.entries@.len(),
                i <= n,
                forall|k: int| 0 <= k < i ==> (#[trigger] self.entries@[k]).iri@ != iri@,
            decreases n - i,
        {
            if str_equal(self.entries[i].iri.as_str(), iri) {
                return Some(i);
            }
            i = i + 1;
        }
        None
    }

    /// The cached document of `iri`: `None` when it has not been fetched
    /// yet, else what the first fetch stored.
    pub fn cached(&self, iri: &str) -> (r: Option<Option<&Vec<AdvertisedVersion>>>)
        ensures
            r is Some <==> self@.dom().contains(iri@),
            r matches Some(d) ==> self@[iri@] == match d {
                Some(vs) => Some(advertised_views(vs@)),
                None => None::<Seq<AdvertisedView>>,
            },
    {
        proof {
            use_type_invariant(self);
        }
        match self.position(iri) {
            None => {
                proof {
                    lemma_cache_map_dom(self.entries@, iri@);
                }
                None
            },
            Some(k) => {
                proof {
                    lemma_cache_map_at(self.entries@, k as int);
                }
                match &self.entries[k].versions {
                    Some(vs) => Some(Some(vs)),
                    None => Some(None),
                }
            },
        }
    }

    /// Stores the answer of a fetch of `iri`'s document, unless an answer is
    /// already stored: the first answer stays.
    pub fn store(&mut self, iri: &str, versions: Option<Vec<AdvertisedVersion>>)
        ensures
            final(self)@ == stored(old(self)@, iri@, cached_view(versions)),
    {
        proof {
            use_type_invariant(&*self);
        }
        match self.position(iri) {
            Some(k) => {
                proof {
                    lemma_cache_map_at(self.entries@, k as int);
                }
            },
            None => {
                proof {
                    lemma_cache_map_dom(self.entries@, iri@);
                }
                let ghost before = self.entries@;
                let mut entries: Vec<CacheEntry> = Vec::new();
                std::mem::swap(&mut entries, &mut self.entries);
                let entry = CacheEntry { iri: iri.to_string(), versions };
                entries.push(entry);
                proof {
                    assert(entries@.drop_last() =~= before);
                    assert forall|i: int, j: int|
                        0 <= i < j < entries@.len() implies (#[trigger] entries@[i]).iri@
                        != (#[trigger] entries@[j]).iri@ by {
                        if j < before.len() {
                            assert(entries@[i] == before[i] && entries@[j] == before[j]);
                        } else {
                            assert(entries@[i] == before[i]);
                        }
                    }
                }
                self.entries = entries;
            },
        }
    }

    /// Where `iri`'s `versions.json` is to be fetched from, or `None` when
    /// its answer is already cached: a project's document is requested at
    /// most once per cache, whether it was found or missing.
    pub fn fetch_target(&self, env: &HTTPIndexEnvironmentAsync, iri: &str) -> (r: Result<
        Option<ParsedUrl>,
        HTTPIndexEnvironmentError,
    >)
        ensures
            self@.dom().contains(iri@) ==> r matches Ok(None),
            !self@.dom().contains(iri@) ==> match r {
                Ok(Some(u)) => index_url_view(Ok(u)) == versions_url_outcome(env.base_url@, iri@),
                Ok(None) => false,
                Err(e) => index_url_view(Err(e)) == versions_url_outcome(env.base_url@, iri@),
            },
    {
        match self.cached(iri) {
            Some(_) => Ok(None),
            None => match env.versions_url(iri) {
                Ok(u) => Ok(Some(u)),
                Err(e) => Err(e),
            },
        }
    }

    /// Takes the answer of fetching `iri`'s `versions.json` from `url`
    /// (`None` for a missing document). A present document is validated; a
    /// missing or valid one is stored as the answer (the first answer
    /// stays), a rejected one is not stored, so a later request fetches
    /// again.
    pub fn ingest(&mut self, iri: &str, url: &ParsedUrl, fetched: Option<VersionsJson>) -> (r: Result<
        (),
        HTTPIndexEnvironmentError,
    >)
        ensures
            match fetched {
                None => r is Ok && final(self)@ == stored(old(self)@, iri@, None),
                Some(vs) => match versions_outcome(url@.href, entry_views(vs.versions@)) {
                    Ok(a) => r is Ok && final(self)@ == stored(old(self)@, iri@, Some(a)),
                    Err(e) => r matches Err(x) && x@ == e && final(self)@ == old(self)@,
                },
            },
    {
        match fetched {
            None => {
                self.store(iri, None);
                Ok(())
            },
            Some(vs) => match validate_versions(url, vs) {
                Ok(validated) => {
                    self.store(iri, Some(validated));
                    Ok(())
                },
                Err(e) => Err(e),
            },
        }
    }
}

} // verus!
