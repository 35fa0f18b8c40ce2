//! Validation and normalization of the publisher and name segments of
//! `pkg:sysand/<publisher>/<name>` project identifiers (Package URLs).

use vstd::prelude::*;

use crate::text::{chars_equal, chars_of, string_from_chars};

verus! {

/// The scheme prefix `pkg:sysand/` of canonical sysand project identifiers.
pub open spec fn pkg_sysand_prefix() -> Seq<char> {
    seq!['p', 'k', 'g', ':', 's', 'y', 's', 'a', 'n', 'd', '/']
}

/// The characters of `pkg:sysand/`.
pub fn pkg_sysand_prefix_chars() -> (r: Vec<char>)
    ensures
        r@ == pkg_sysand_prefix(),
{
    let r = vec!['p', 'k', 'g', ':', 's', 'y', 's', 'a', 'n', 'd', '/'];
    assert(r@ =~= pkg_sysand_prefix());
    r
}

/// Which kind of `pkg:sysand` segment to validate. Publishers disallow dots;
/// names permit dots so that dotted product names are expressible.
#[derive(Clone, Copy, Debug, PartialEq, Eq, Structural)]
pub enum FieldKind {
    Publisher,
    Name,
}

impl FieldKind {
    /// Whether `.` counts as a word separator for this kind of segment.
    pub open spec fn spec_dot_is_separator(self) -> bool {
        self is Name
    }

    pub fn dot_is_separator(self) -> (r: bool)
        ensures
            r == self.spec_dot_is_separator(),
    {
        matches!(self, FieldKind::Name)
    }
}

/// ASCII letters and digits.
pub open spec fn is_alnum(c: char) -> bool {
    ('0' <= c && c <= '9') || ('a' <= c && c <= 'z') || ('A' <= c && c <= 'Z')
}

/// The separators a segment may use between words.
pub open spec fn is_separator(c: char, kind: FieldKind) -> bool {
    c == '-' || c == ' ' || (kind.spec_dot_is_separator() && c == '.')
}

/// A valid segment: 3 to 50 ASCII characters, starting and ending with a
/// letter or digit, where every other character is a letter, a digit, or a
/// separator that has a letter or digit on both sides.
pub open spec fn valid_field(s: Seq<char>, kind: FieldKind) -> bool {
    &&& 3 <= s.len() <= 50
    &&& is_alnum(s[0])
    &&& is_alnum(s[s.len() - 1])
    &&& forall|i: int|
        0 < i < s.len() - 1 && !is_alnum(#[trigger] s[i]) ==> is_separator(s[i], kind) && is_alnum(
            s[i - 1],
        ) && is_alnum(s[i + 1])
}

/// The canonical form of one character: ASCII upper case becomes lower
/// case, a space becomes a hyphen, anything else is kept.
pub open spec fn normalize_char(c: char) -> char {
    if 'A' <= c && c <= 'Z' {
        ((c as u32) + 32) as char
    } else if c == ' ' {
        '-'
    } else {
        c
    }
}

/// The canonical form of a segment, character by character.
pub open spec fn normalized(s: Seq<char>) -> Seq<char> {
    Seq::new(s.len(), |i: int| normalize_char(s[i]))
}

/// A segment that is valid and already in canonical form.
pub open spec fn normalized_field(s: Seq<char>, kind: FieldKind) -> bool {
    valid_field(s, kind) && normalized(s) == s
}

fn char_is_alnum(c: char) -> (r: bool)
    ensures
        r == is_alnum(c),
{
    ('0' <= c && c <= '9') || ('a' <= c && c <= 'z') || ('A' <= c && c <= 'Z')
}

fn valid_field_chars(s: &Vec<char>, kind: FieldKind) -> (r: bool)
    ensures
        r == valid_field(s@, kind),
{
    let n = s.len();
    if n < 3 || n > 50 {
        return false;
    }
    if !char_is_alnum(s[0]) || !char_is_alnum(s[n - 1]) {
        return false;
    }
    let mut i: usize = 1;
    while i < n - 1
        invariant
            3 <= n <= 50,
            n == s@.len(),
            1 <= i <= n - 1,
            is_alnum(s@[0]),
            is_alnum(s@[n - 1]),
            forall|j: int|
                0 < j < i && !is_alnum(#[trigger] s@[j]) ==> is_separator(s@[j], kind) && is_alnum(
                    s@[j - 1],
                ),
        decreases n - i,
    {
        let c = s[i];
        if !char_is_alnum(c) {
            let sep = c == '-' || c == ' ' || (kind.dot_is_separator() && c == '.');
            if !sep {
                return false;
            }
            if !char_is_alnum(s[i - 1]) {
                return false;
            }
        }
        i = i + 1;
    }
    assert forall|j: int|
        0 < j < s@.len() - 1 && !is_alnum(#[trigger] s@[j]) implies is_separator(s@[j], kind)
        && is_alnum(s@[j - 1]) && is_alnum(s@[j + 1]) by {
        if !is_alnum(s@[j + 1]) {
            assert(0 < j + 1 < i);
        }
    }
    true
}

/// Validates a publisher or name field for `pkg:sysand` project IDs.
///
/// Rules: 3-50 ASCII alphanumeric characters, with single separators (space,
/// hyphen, and for `FieldKind::Name` also dot) allowed between words. Must
/// start and end with an alphanumeric character.
pub fn is_valid_field(s: &str, kind: FieldKind) -> (r: bool)
    ensures
        r == valid_field(s@, kind),
{
    let cs = chars_of(s);
    valid_field_chars(&cs, kind)
}

/// Whether `s` is a valid publisher segment.
pub fn is_valid_publisher(s: &str) -> (r: bool)
    ensures
        r == valid_field(s@, FieldKind::Publisher),
{
    is_valid_field(s, FieldKind::Publisher)
}

/// Whether `s` is a valid project name segment.
pub fn is_valid_name(s: &str) -> (r: bool)
    ensures
        r == valid_field(s@, FieldKind::Name),
{
    is_valid_field(s, FieldKind::Name)
}

fn normalize_one(c: char) -> (r: char)
    ensures
        r == normalize_char(c),
{
    if 'A' <= c && c <= 'Z' {
        let code: u8 = (c as u8) + 32;
        code as char
    } else if c == ' ' {
        '-'
    } else {
        c
    }
}

fn normalize_chars(s: &Vec<char>) -> (r: Vec<char>)
    ensures
        r@ == normalized(s@),
{
    let mut out: Vec<char> = Vec::new();
    let mut i: usize = 0;
    while i < s.len()
        invariant
            i <= s@.len(),
            out@ == normalized(s@.take(i as int)),
        decreases s@.len() - i,
    {
        out.push(normalize_one(s[i]));
        i = i + 1;
        assert(normalized(s@.take(i as int)) =~= normalized(s@.take((i - 1) as int)).push(
            normalize_char(s@[i - 1]),
        ));
    }
    assert(s@.take(s@.len() as int) =~= s@);
    out
}

/// Canonicalizes a publisher or name by lowercasing ASCII and replacing spaces
/// with hyphens. The result is what ends up embedded in a `pkg:sysand` IRI;
/// callers should validate with [`is_valid_field`] before or after calling.
pub fn normalize_field(s: &str) -> (r: String)
    ensures
        r@ == normalized(s@),
{
    let cs = chars_of(s);
    let out = normalize_chars(&cs);
    string_from_chars(out.as_slice())
}

/// Whether `s` is a valid and already-normalized publisher or name segment
/// for a `pkg:sysand` IRI: a non-normalized value (upper case, spaces) is
/// rejected even if it is valid before normalization.
pub fn is_normalized_field(s: &str, kind: FieldKind) -> (r: bool)
    ensures
        r == normalized_field(s@, kind),
{
    let cs = chars_of(s);
    if !valid_field_chars(&cs, kind) {
        return false;
    }
    let norm = normalize_chars(&cs);
    chars_equal(&norm, &cs)
}

/// Normalizing a valid segment keeps it valid, and the result is in
/// canonical form: validation may happen before or after normalization.
pub proof fn lemma_normalize_keeps_valid(s: Seq<char>, kind: FieldKind)
    requires
        valid_field(s, kind),
    ensures
        valid_field(normalized(s), kind),
        normalized_field(normalized(s), kind),
{
    let n = normalized(s);
    assert forall|i: int| 0 <= i < s.len() implies #[trigger] is_alnum(n[i]) == is_alnum(s[i]) by {
        let c = s[i];
        if 'A' <= c && c <= 'Z' {
            assert((c as u32) + 32 <= 'z' as u32);
        }
    }
    assert forall|i: int|
        0 < i < n.len() - 1 && !is_alnum(#[trigger] n[i]) implies is_separator(n[i], kind)
        && is_alnum(n[i - 1]) && is_alnum(n[i + 1]) by {
        assert(is_alnum(n[i]) == is_alnum(s[i]));
        assert(is_alnum(n[i - 1]) == is_alnum(s[i - 1]));
        assert(is_alnum(n[i + 1]) == is_alnum(s[i + 1]));
    }
    assert(is_alnum(n[0]) == is_alnum(s[0]));
    assert(is_alnum(n[n.len() - 1]) == is_alnum(s[s.len() - 1]));
    lemma_normalize_idempotent(s);
}

/// Normalizing twice is the same as normalizing once.
pub proof fn lemma_normalize_idempotent(s: Seq<char>)
    ensures
        normalized(normalized(s)) == normalized(s),
{
    let n = normalized(s);
    assert forall|i: int| 0 <= i < s.len() implies #[trigger] normalize_char(n[i]) == n[i] by {
        let c = s[i];
        if 'A' <= c && c <= 'Z' {
            assert((c as u32) + 32 <= 'z' as u32);
            assert(((c as u32) + 32) as char >= 'a');
        }
    }
    assert(normalized(n) =~= n);
}

} // verus!

verus! {

/// Whether `s` begins with `p`.
pub open spec fn has_prefix(s: Seq<char>, p: Seq<char>) -> bool {
    p.len() <= s.len() && s.take(p.len() as int) == p
}

/// `s` holds exactly one `/`, at index `k`.
pub open spec fn single_slash_at(s: Seq<char>, k: int) -> bool {
    &&& 0 <= k < s.len()
    &&& s[k] == '/'
    &&& forall|j: int| 0 <= j < s.len() && j != k ==> #[trigger] s[j] != '/'
}

/// The two parts of `s` around its only `/`, if it has exactly one.
pub open spec fn split_at_single_slash(s: Seq<char>) -> Option<(Seq<char>, Seq<char>)> {
    if exists|k: int| single_slash_at(s, k) {
        let k = choose|k: int| single_slash_at(s, k);
        Some((s.take(k), s.skip(k + 1)))
    } else {
        None
    }
}

/// The publisher and name of a `pkg:sysand/<publisher>/<name>` IRI whose two
/// segments are valid and normalized; `None` for any other IRI.
pub open spec fn pkg_sysand_parts(iri: Seq<char>) -> Option<(Seq<char>, Seq<char>)> {
    if has_prefix(iri, pkg_sysand_prefix()) {
        match split_at_single_slash(iri.skip(pkg_sysand_prefix().len() as int)) {
            Some((p, n)) => if normalized_field(p, FieldKind::Publisher) && normalized_field(
                n,
                FieldKind::Name,
            ) {
                Some((p, n))
            } else {
                None
            },
            None => None,
        }
    } else {
        None
    }
}

/// Why an IRI that starts with `pkg:sysand/` is not a well-formed sysand
/// project identifier.
#[derive(Debug)]
pub enum SysandPurlError {
    /// The part after `pkg:sysand/` is not exactly `<publisher>/<name>`.
    SegmentCount,
    /// The publisher segment is not a valid, normalized publisher.
    InvalidPublisher(String),
    /// The name segment is not a valid, normalized name.
    InvalidName(String),
}

/// The plain content of a sysand IRI parse outcome.
pub enum PurlOutcome {
    NotSysand,
    Parts(Seq<char>, Seq<char>),
    SegmentCount,
    InvalidPublisher(Seq<char>),
    InvalidName(Seq<char>),
}

/// How an IRI parses as a sysand project identifier: IRIs outside the
/// `pkg:sysand/` scheme are accepted as they are; inside it, the rest must
/// be `<publisher>/<name>` with both segments valid and normalized.
pub open spec fn purl_outcome(iri: Seq<char>) -> PurlOutcome {
    if !has_prefix(iri, pkg_sysand_prefix()) {
        PurlOutcome::NotSysand
    } else {
        match split_at_single_slash(iri.skip(pkg_sysand_prefix().len() as int)) {
            None => PurlOutcome::SegmentCount,
            Some((p, n)) => if !normalized_field(p, FieldKind::Publisher) {
                PurlOutcome::InvalidPublisher(p)
            } else if !normalized_field(n, FieldKind::Name) {
                PurlOutcome::InvalidName(n)
            } else {
                PurlOutcome::Parts(p, n)
            },
        }
    }
}

/// The plain content of what [`parse_sysand_purl`] returns.
pub open spec fn purl_result_view(r: Result<Option<(String, String)>, SysandPurlError>) -> PurlOutcome {
    match r {
        Ok(None) => PurlOutcome::NotSysand,
        Ok(Some((p, n))) => PurlOutcome::Parts(p@, n@),
        Err(SysandPurlError::SegmentCount) => PurlOutcome::SegmentCount,
        Err(SysandPurlError::InvalidPublisher(p)) => PurlOutcome::InvalidPublisher(p@),
        Err(SysandPurlError::InvalidName(n)) => PurlOutcome::InvalidName(n@),
    }
}

fn has_prefix_chars(s: &Vec<char>, p: &Vec<char>) -> (r: bool)
    ensures
        r == has_prefix(s@, p@),
{
    if p.len() > s.len() {
        return false;
    }
    let mut i: usize = 0;
    while i < p.len()
        invariant
            p@.len() <= s@.len(),
            i <= p@.len(),
            forall|j: int| 0 <= j < i ==> s@[j] == p@[j],
        decreases p@.len() - i,
    {
        if s[i] != p[i] {
            assert(s@.take(p@.len() as int)[i as int] != p@[i as int]);
            return false;
        }
        i = i + 1;
    }
    assert(s@.take(p@.len() as int) =~= p@);
    true
}

/// The characters of `s` from index `from` to index `to`.
pub fn slice_chars(s: &Vec<char>, from: usize, to: usize) -> (r: Vec<char>)
    requires
        from <= to <= s@.len(),
    ensures
        r@ == s@.subrange(from as int, to as int),
{
    let mut out: Vec<char> = Vec::new();
    let mut i = from;
    while i < to
        invariant
            from <= i <= to <= s@.len(),
            out@ == s@.subrange(from as int, i as int),
        decreases to - i,
    {
        out.push(s[i]);
        i = i + 1;
        assert(out@ =~= s@.subrange(from as int, i as int));
    }
    out
}

/// The index of the only `/` in `s`, if it holds exactly one.
fn find_single_slash(s: &Vec<char>) -> (r: Option<usize>)
    ensures
        r matches Some(k) ==> single_slash_at(s@, k as int),
        r is None ==> !exists|k: int| single_slash_at(s@, k),
{
    let mut found: Option<usize> = None;
    let mut i: usize = 0;
    while i < s.len()
        invariant
            i <= s@.len(),
            found matches Some(k) ==> k < i && s@[k as int] == '/' && forall|j: int|
                0 <= j < i && j != k ==> #[trigger] s@[j] != '/',
            found is None ==> forall|j: int| 0 <= j < i ==> #[trigger] s@[j] != '/',
        decreases s@.len() - i,
    {
        if s[i] == '/' {
            match found {
                Some(k) => {
                    assert(!single_slash_at(s@, k as int));
                    assert forall|m: int| !single_slash_at(s@, m) by {
                        if single_slash_at(s@, m) {
                            if m == k as int {
                                assert(s@[i as int] == '/');
                            } else {
                                assert(s@[k as int] == '/');
                            }
                        }
                    }
                    return None;
                },
                None => {
                    found = Some(i);
                },
            }
        }
        i = i + 1;
    }
    if found.is_none() {
        assert forall|m: int| !single_slash_at(s@, m) by {
            if single_slash_at(s@, m) {
                assert(s@[m] == '/');
            }
        }
    }
    found
}

proof fn lemma_single_slash_unique(s: Seq<char>, k: int)
    requires
        single_slash_at(s, k),
    ensures
        split_at_single_slash(s) == Some((s.take(k), s.skip(k + 1))),
{
    let c = choose|m: int| single_slash_at(s, m);
    assert(single_slash_at(s, c));
    if c != k {
        assert(s[c] == '/');
    }
}

/// Parses a `pkg:sysand/<publisher>/<name>` identifier. IRIs in any other
/// scheme are accepted unchanged (`Ok(None)`); a `pkg:sysand/` IRI must have
/// exactly two segments, both valid and already normalized.
pub fn parse_sysand_purl(iri: &str) -> (r: Result<Option<(String, String)>, SysandPurlError>)
    ensures
        purl_result_view(r) == purl_outcome(iri@),
{
    let cs = chars_of(iri);
    let prefix = pkg_sysand_prefix_chars();
    if !has_prefix_chars(&cs, &prefix) {
        return Ok(None);
    }
    let rest = slice_chars(&cs, prefix.len(), cs.len());
    assert(rest@ =~= iri@.skip(pkg_sysand_prefix().len() as int));
    match find_single_slash(&rest) {
        None => Err(SysandPurlError::SegmentCount),
        Some(k) => {
            proof {
                lemma_single_slash_unique(rest@, k as int);
            }
            let p = slice_chars(&rest, 0, k);
            let n = slice_chars(&rest, k + 1, rest.len());
            assert(p@ =~= rest@.take(k as int));
            assert(n@ =~= rest@.skip(k + 1));
            let p_ok = valid_field_chars(&p, FieldKind::Publisher) && chars_equal(
                &normalize_chars(&p),
                &p,
            );
            if !p_ok {
                return Err(SysandPurlError::InvalidPublisher(string_from_chars(p.as_slice())));
            }
            let n_ok = valid_field_chars(&n, FieldKind::Name) && chars_equal(
                &normalize_chars(&n),
                &n,
            );
            if !n_ok {
                return Err(SysandPurlError::InvalidName(string_from_chars(n.as_slice())));
            }
            Ok(Some((string_from_chars(p.as_slice()), string_from_chars(n.as_slice()))))
        },
    }
}

/// A well-formed sysand identifier parses to the same publisher and name
/// under the strict parser as under the routing parser, and the routing
/// parser sees no parts in any identifier the strict parser rejects.
pub proof fn lemma_purl_parsers_agree(iri: Seq<char>)
    ensures
        purl_outcome(iri) matches PurlOutcome::Parts(p, n) && pkg_sysand_parts(iri) == Some(
            (p, n),
        ) || !(purl_outcome(iri) is Parts),
        !(purl_outcome(iri) is Parts) ==> pkg_sysand_parts(iri) is None,
{
}

} // verus!
