//! Semantic versions and version requirements, parsed and compared by the
//! `semver` crate and carried through the library as plain values.

use vstd::prelude::*;

verus! {

#[verifier::external_type_specification]
#[verifier::external_body]
pub struct ExSemverVersion(semver::Version);

#[verifier::external_type_specification]
#[verifier::external_body]
pub struct ExSemverVersionReq(semver::VersionReq);

/// The plain content of a semantic version.
pub struct VersionView {
    pub major: u64,
    pub minor: u64,
    pub patch: u64,
    /// The pre-release identifiers as written, without the leading `-`.
    pub pre: Seq<char>,
    /// The build metadata as written, without the leading `+`.
    pub build: Seq<char>,
}

/// A parsed semantic version. Only [`parse_semver`] constructs one, so the
/// plain fields always describe the `semver::Version` held beside them.
pub struct SemVer {
    inner: semver::Version,
    major: u64,
    minor: u64,
    patch: u64,
    pre: String,
    build: String,
}

impl View for SemVer {
    type V = VersionView;

    open spec fn view(&self) -> VersionView {
        VersionView {
            major: self.spec_major(),
            minor: self.spec_minor(),
            patch: self.spec_patch(),
            pre: self.spec_pre(),
            build: self.spec_build(),
        }
    }
}

impl SemVer {
    pub closed spec fn spec_major(&self) -> u64 {
        self.major
    }

    pub closed spec fn spec_minor(&self) -> u64 {
        self.minor
    }

    pub closed spec fn spec_patch(&self) -> u64 {
        self.patch
    }

    pub closed spec fn spec_pre(&self) -> Seq<char> {
        self.pre@
    }

    pub closed spec fn spec_build(&self) -> Seq<char> {
        self.build@
    }

    /// The build metadata is empty.
    pub fn has_no_build(&self) -> (r: bool)
        ensures
            r == (self@.build.len() == 0),
    {
        self.build.as_str().is_empty()
    }

    /// The pre-release part is empty.
    pub fn is_release(&self) -> (r: bool)
        ensures
            r == (self@.pre.len() == 0),
    {
        self.pre.as_str().is_empty()
    }

    /// A copy of this version.
    #[verifier::external_body]
    pub(crate) fn duplicate(&self) -> (r: SemVer)
        ensures
            r@ == self@,
    {
        SemVer {
            inner: self.inner.clone(),
            major: self.major,
            minor: self.minor,
            patch: self.patch,
            pre: self.pre.clone(),
            build: self.build.clone(),
        }
    }

    /// The canonical text of this version (`Display` of `semver::Version`).
    pub fn to_text(&self) -> (r: String)
        ensures
            r@ == version_text(self@),
    {
        let mut out = u64_to_decimal(self.major);
        out.append(".");
        let minor = u64_to_decimal(self.minor);
        out.append(minor.as_str());
        out.append(".");
        let patch = u64_to_decimal(self.patch);
        out.append(patch.as_str());
        if !self.pre.as_str().is_empty() {
            out.append("-");
            out.append(self.pre.as_str());
        }
        if !self.build.as_str().is_empty() {
            out.append("+");
            out.append(self.build.as_str());
        }
        proof {
            reveal_strlit(".");
            reveal_strlit("-");
            reveal_strlit("+");
        }
        out
    }
}

/// The decimal digit for `d < 10`.
pub open spec fn digit_char(d: nat) -> char {
    if d == 0 { '0' }
    else if d == 1 { '1' }
    else if d == 2 { '2' }
    else if d == 3 { '3' }
    else if d == 4 { '4' }
    else if d == 5 { '5' }
    else if d == 6 { '6' }
    else if d == 7 { '7' }
    else if d == 8 { '8' }
    else { '9' }
}

/// Base-10 rendering of a natural number, without leading zeros.
pub open spec fn decimal(n: nat) -> Seq<char>
    decreases n,
{
    if n < 10 {
        seq![digit_char(n)]
    } else {
        decimal(n / 10).push(digit_char(n % 10))
    }
}

/// `major.minor.patch`, then `-pre` when there is a pre-release and `+build`
/// when there is build metadata.
pub open spec fn version_text(v: VersionView) -> Seq<char> {
    let core = decimal(v.major as nat) + seq!['.'] + decimal(v.minor as nat) + seq!['.']
        + decimal(v.patch as nat);
    let with_pre = if v.pre.len() == 0 { core } else { core + seq!['-'] + v.pre };
    if v.build.len() == 0 { with_pre } else { with_pre + seq!['+'] + v.build }
}

fn digit_of(d: u64) -> (r: char)
    requires
        d < 10,
    ensures
        r == digit_char(d as nat),
{
    if d == 0 { '0' }
    else if d == 1 { '1' }
    else if d == 2 { '2' }
    else if d == 3 { '3' }
    else if d == 4 { '4' }
    else if d == 5 { '5' }
    else if d == 6 { '6' }
    else if d == 7 { '7' }
    else if d == 8 { '8' }
    else { '9' }
}

fn decimal_chars(n: u64) -> (r: Vec<char>)
    ensures
        r@ == decimal(n as nat),
    decreases n,
{
    if n < 10 {
        let mut v: Vec<char> = Vec::new();
        v.push(digit_of(n));
        v
    } else {
        let mut v = decimal_chars(n / 10);
        v.push(digit_of(n % 10));
        v
    }
}

/// Base-10 text of an integer, without leading zeros.
pub(crate) fn u64_to_decimal(n: u64) -> (r: String)
    ensures
        r@ == decimal(n as nat),
{
    let v = decimal_chars(n);
    crate::text::string_from_chars(v.as_slice())
}

/// What `semver::Version::parse` yields for a text: the version as plain
/// values, or the text of the error it reports.
pub uninterp spec fn semver_parse(text: Seq<char>) -> Result<VersionView, Seq<char>>;

/// The plain content of a parse outcome.
pub open spec fn parse_outcome(r: Result<SemVer, String>) -> Result<VersionView, Seq<char>> {
    match r {
        Ok(v) => Ok(v@),
        Err(m) => Err(m@),
    }
}

/// Parses a semantic version with `semver::Version::parse`. The result, or
/// the rendered error message, is exactly what that function yields for
/// `text`; which texts it accepts is left to the `semver` crate (SemVer 2.0
/// syntax, no leading zeros, no whitespace). An accepted text is written back
/// unchanged by the crate's `Display`: the parser takes numbers without
/// leading zeros and keeps the pre-release and build identifiers as written,
/// which is what `version_text` renders.
#[verifier::external_body]
pub(crate) fn parse_semver(text: &str) -> (r: Result<SemVer, String>)
    ensures
        parse_outcome(r) == semver_parse(text@),
        r matches Ok(v) ==> version_text(v@) == text@,
{
    match semver::Version::parse(text) {
        Ok(v) => Ok(SemVer {
            major: v.major,
            minor: v.minor,
            patch: v.patch,
            pre: v.pre.as_str().to_string(),
            build: v.build.as_str().to_string(),
            inner: v,
        }),
        Err(e) => Err(e.to_string()),
    }
}

/// The order of `semver::Version` (`Ord::cmp`) as -1, 0 or 1.
pub uninterp spec fn semver_order(a: VersionView, b: VersionView) -> int;

/// Lexicographic comparison of the numeric triples.
pub open spec fn triple_order(a: VersionView, b: VersionView) -> int {
    if a.major != b.major {
        if a.major < b.major { -1 } else { 1 }
    } else if a.minor != b.minor {
        if a.minor < b.minor { -1 } else { 1 }
    } else if a.patch != b.patch {
        if a.patch < b.patch { -1 } else { 1 }
    } else {
        0
    }
}

/// Compares two versions with `Ord::cmp` of `semver::Version`. The crate
/// documents a total order: the numeric triple decides first; with equal
/// triples a pre-release is below the release. The contract states that
/// documentation, the laws of `Ord` (antisymmetry, transitivity through the
/// second operand) and that `Equal` means equal versions (the order and the
/// equality are both derived over all fields). How two different
/// pre-releases or build metadata compare is left unsaid.
#[verifier::external_body]
pub(crate) fn compare_versions(a: &SemVer, b: &SemVer) -> (r: i8)
    ensures
        r == semver_order(a@, b@),
        r == -1 || r == 0 || r == 1,
        (r == 0) == (a@ == b@),
        semver_order(b@, a@) == -r,
        triple_order(a@, b@) != 0 ==> r == triple_order(a@, b@),
        triple_order(a@, b@) == 0 && a@.pre.len() == 0 && b@.pre.len() != 0 ==> r == 1,
        forall|c: VersionView| #[trigger] semver_order(b@, c) <= 0 && r <= 0 ==> semver_order(a@, c) <= 0,
        forall|c: VersionView| #[trigger] semver_order(b@, c) <= 0 && r < 0 ==> semver_order(a@, c) < 0,
        forall|c: VersionView| #[trigger] semver_order(b@, c) >= 0 && r >= 0 ==> semver_order(a@, c) >= 0,
        forall|c: VersionView| #[trigger] semver_order(b@, c) >= 0 && r > 0 ==> semver_order(a@, c) > 0,
{
    match a.inner.cmp(&b.inner) {
        core::cmp::Ordering::Less => -1,
        core::cmp::Ordering::Equal => 0,
        core::cmp::Ordering::Greater => 1,
    }
}

/// A parsed version requirement such as `>=1.2, <2`.
pub struct VersionRequirement {
    inner: semver::VersionReq,
    text: String,
}

impl View for VersionRequirement {
    type V = Seq<char>;

    closed spec fn view(&self) -> Seq<char> {
        self.text@
    }
}

/// What `semver::VersionReq::parse` refuses a text with: `None` when it
/// accepts the text, else the error's message.
pub uninterp spec fn version_req_error(text: Seq<char>) -> Option<Seq<char>>;

/// Whether the requirement written as `req` admits version `v`
/// (`semver::VersionReq::matches`).
pub uninterp spec fn version_req_admits(req: Seq<char>, v: VersionView) -> bool;

/// Parses a version requirement with `semver::VersionReq::parse`; refused
/// exactly when the crate refuses the text, with the crate's message.
#[verifier::external_body]
pub(crate) fn parse_version_req(text: &str) -> (r: Result<VersionRequirement, String>)
    ensures
        match r {
            Ok(q) => version_req_error(text@) is None && q@ == text@,
            Err(m) => version_req_error(text@) == Some(m@),
        },
{
    match semver::VersionReq::parse(text) {
        Ok(q) => Ok(VersionRequirement { inner: q, text: text.to_string() }),
        Err(e) => Err(e.to_string()),
    }
}

/// How `semver::VersionReq` writes a requirement (`Display`), which may
/// differ from the text it was parsed from (`1.0` is written `^1.0`).
pub uninterp spec fn version_req_text(req: Seq<char>) -> Seq<char>;

impl VersionRequirement {
    /// The requirement as `semver::VersionReq` writes it.
    #[verifier::external_body]
    pub(crate) fn to_text(&self) -> (r: String)
        ensures
            r@ == version_req_text(self@),
    {
        self.inner.to_string()
    }
}

/// Whether `req` admits `v` (`semver::VersionReq::matches`).
#[verifier::external_body]
pub(crate) fn requirement_matches(req: &VersionRequirement, v: &SemVer) -> (r: bool)
    ensures
        r == version_req_admits(req@, v@),
{
    req.inner.matches(&v.inner)
}

} // verus!
