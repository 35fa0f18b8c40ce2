//! User-configurable index locations: a plain base URL that relative index
//! paths are joined onto, or a URL template with exactly one `{path}` or
//! `{path_raw}` placeholder into which the relative index path is
//! substituted, percent-encoded. `{path}` encodes every byte outside RFC 3986
//! *unreserved*, `/` included; `{path_raw}` keeps `/` and encodes each
//! segment on its own.

use vstd::prelude::*;
use vstd::utf8::encode_utf8;

use crate::text::{
    ascii_lowercase, chars_equal, chars_of, concat_chars, contains_char, contains_seq, find_chars, find_either,
    first_occurrence, first_of_two, is_first_of_two, join_strs, joined, occurs_at, str_equal, str_views,
    string_from_chars,
    to_ascii_lowercase,
};
use crate::purl::slice_chars;
use crate::url_model::{
    ParsedUrl, UrlError, UrlErrorView, UrlView, http_text, https_text, join_url, parse_url, url_join, url_parse,
    url_result_view, url_with_trailing_slash, with_trailing_slash,
};

verus! {

/// RFC 3986 unreserved characters: ASCII letters, digits, `-`, `.`, `_`, `~`.
pub open spec fn is_unreserved(c: char) -> bool {
    ('0' <= c && c <= '9') || ('a' <= c && c <= 'z') || ('A' <= c && c <= 'Z') || c == '-' || c
        == '.' || c == '_' || c == '~'
}

/// RFC 3986 unreserved bytes: ASCII letters, digits, `-`, `.`, `_`, `~`.
pub open spec fn is_unreserved_byte(b: u8) -> bool {
    (48 <= b && b <= 57) || (65 <= b && b <= 90) || (97 <= b && b <= 122) || b == 45 || b == 46
        || b == 95 || b == 126
}

/// The upper-case hexadecimal digit of a value below sixteen.
pub open spec fn hex_digit(n: int) -> char {
    if n < 10 {
        ((n + 48) as u8) as char
    } else {
        ((n + 55) as u8) as char
    }
}

/// `%` followed by the two upper-case hexadecimal digits of a byte.
pub open spec fn percent_triplet(b: u8) -> Seq<char> {
    seq!['%', hex_digit(b as int / 16), hex_digit(b as int % 16)]
}

/// What one byte becomes: itself when unreserved, its triplet otherwise.
pub open spec fn encoded_byte(b: u8) -> Seq<char> {
    if is_unreserved_byte(b) {
        seq![b as char]
    } else {
        percent_triplet(b)
    }
}

/// A byte string with every byte outside RFC 3986 unreserved
/// percent-encoded.
pub open spec fn percent_encoded_bytes(bs: Seq<u8>) -> Seq<char>
    decreases bs.len(),
{
    if bs.len() == 0 {
        Seq::empty()
    } else {
        percent_encoded_bytes(bs.drop_last()) + encoded_byte(bs.last())
    }
}

/// A text percent-encoded byte by byte over its UTF-8 encoding, every byte
/// outside RFC 3986 unreserved escaped (so `/` becomes `%2F`).
pub open spec fn percent_encoded(s: Seq<char>) -> Seq<char> {
    percent_encoded_bytes(encode_utf8(s))
}

/// Every character of a percent-encoded byte string is unreserved or `%`.
pub proof fn lemma_percent_encoded_bytes_charset(bs: Seq<u8>)
    ensures
        forall|i: int|
            0 <= i < percent_encoded_bytes(bs).len() ==> is_unreserved(
                #[trigger] percent_encoded_bytes(bs)[i],
            ) || percent_encoded_bytes(bs)[i] == '%',
    decreases bs.len(),
{
    if bs.len() > 0 {
        lemma_percent_encoded_bytes_charset(bs.drop_last());
        let head = percent_encoded_bytes(bs.drop_last());
        let tail = encoded_byte(bs.last());
        let b = bs.last();
        assert forall|i: int| 0 <= i < tail.len() implies is_unreserved(#[trigger] tail[i])
            || tail[i] == '%' by {
            if is_unreserved_byte(b) {
                assert(tail[i] == b as char);
            } else {
                let hi = b as int / 16;
                let lo = b as int % 16;
                assert(0 <= hi < 16 && 0 <= lo < 16);
            }
        }
        assert forall|i: int|
            0 <= i < percent_encoded_bytes(bs).len() implies is_unreserved(
                #[trigger] percent_encoded_bytes(bs)[i],
            ) || percent_encoded_bytes(bs)[i] == '%' by {
            if i < head.len() {
                assert(percent_encoded_bytes(bs)[i] == head[i]);
            } else {
                assert(percent_encoded_bytes(bs)[i] == tail[i - head.len()]);
            }
        }
    }
}

/// The `{path}` encoding leaves only RFC 3986 unreserved characters and `%`:
/// in particular it never yields a `/`, so the whole relative path stays one
/// URL segment.
pub proof fn lemma_percent_encoded_charset(s: Seq<char>)
    ensures
        forall|i: int|
            0 <= i < percent_encoded(s).len() ==> is_unreserved(#[trigger] percent_encoded(s)[i])
                || percent_encoded(s)[i] == '%',
{
    lemma_percent_encoded_bytes_charset(encode_utf8(s));
}

/// A byte string of unreserved bytes encodes to itself, byte for character.
proof fn lemma_unreserved_bytes_unchanged(bs: Seq<u8>)
    requires
        forall|i: int| 0 <= i < bs.len() ==> is_unreserved_byte(#[trigger] bs[i]),
    ensures
        percent_encoded_bytes(bs) == Seq::new(bs.len(), |i: int| bs[i] as char),
    decreases bs.len(),
{
    if bs.len() > 0 {
        lemma_unreserved_bytes_unchanged(bs.drop_last());
        assert(percent_encoded_bytes(bs) =~= Seq::new(bs.len(), |i: int| bs[i] as char));
    } else {
        assert(percent_encoded_bytes(bs) =~= Seq::new(bs.len(), |i: int| bs[i] as char));
    }
}

/// A relative path made of RFC 3986 unreserved characters only is
/// substituted for `{path}` verbatim.
pub proof fn lemma_unreserved_text_unchanged(s: Seq<char>)
    requires
        forall|i: int| 0 <= i < s.len() ==> is_unreserved(#[trigger] s[i]),
    ensures
        percent_encoded(s) == s,
{
    assert(vstd::utf8::is_ascii_chars(s));
    vstd::utf8::is_ascii_chars_encode_utf8(s);
    let bs = encode_utf8(s);
    assert forall|i: int| 0 <= i < bs.len() implies is_unreserved_byte(#[trigger] bs[i]) by {
        assert(s[i] as u8 == bs[i]);
        assert(is_unreserved(s[i]));
    }
    lemma_unreserved_bytes_unchanged(bs);
    assert forall|i: int| 0 <= i < s.len() implies (bs[i] as char) == s[i] by {
        assert(s[i] as u8 == bs[i]);
    }
    assert(percent_encoded(s) =~= s);
}

/// Without a `/` in the relative path, `{path}` and `{path_raw}` expand
/// alike.
pub proof fn lemma_encodings_agree_without_slash(s: Seq<char>)
    requires
        !s.contains('/'),
    ensures
        raw_encoded(s) == percent_encoded(s),
{
    assert forall|k: int| !is_first_of_two(s, '/', '/', k) by {
        if is_first_of_two(s, '/', '/', k) {
            assert(s[k] == '/');
        }
    }
}

/// The upper-case hexadecimal digit of a number below 16.
fn hex_digit_exec(n: u8) -> (c: char)
    requires
        n < 16,
    ensures
        c == hex_digit(n as int),
{
    if n < 10 {
        (n + 48) as char
    } else {
        (n + 55) as char
    }
}

/// The escape of one byte: `%` and its two upper-case hexadecimal digits
/// (the form `percent_encoding::percent_encode_byte` gives).
fn percent_escape(b: u8) -> (r: Vec<char>)
    ensures
        r@ == percent_triplet(b),
{
    let mut r: Vec<char> = Vec::new();
    r.push('%');
    r.push(hex_digit_exec(b / 16));
    r.push(hex_digit_exec(b % 16));
    assert(r@ =~= percent_triplet(b));
    r
}

fn is_unreserved_exec(b: u8) -> (r: bool)
    ensures
        r == is_unreserved_byte(b),
{
    (48 <= b && b <= 57) || (65 <= b && b <= 90) || (97 <= b && b <= 122) || b == 45 || b == 46
        || b == 95 || b == 126
}

/// Percent-encodes every UTF-8 byte of `s` outside RFC 3986 unreserved.
pub fn percent_encode(s: &str) -> (r: String)
    ensures
        r@ == percent_encoded(s@),
{
    let bytes = s.as_bytes();
    let mut out: Vec<char> = Vec::new();
    let n: usize = bytes.len();
    let mut i: usize = 0;
    while i < n
        invariant
            n == bytes@.len(),
            i <= n,
            bytes@ == encode_utf8(s@),
            out@ == percent_encoded_bytes(bytes@.take(i as int)),
        decreases n - i,
    {
        let b = bytes[i];
        proof {
            assert(bytes@.take(i + 1).drop_last() =~= bytes@.take(i as int));
        }
        if is_unreserved_exec(b) {
            out.push(b as char);
        } else {
            let t = percent_escape(b);
            out = concat_chars(&out, &t);
        }
        i = i + 1;
    }
    assert(bytes@.take(n as int) =~= bytes@);
    string_from_chars(out.as_slice())
}

/// How a relative index path is encoded when substituted into a template.
#[derive(Debug, Clone, Copy, PartialEq, Eq, Structural)]
pub enum PathEncoding {
    /// `{path}`: the whole path is one percent-encoded unit, `/` becomes `%2F`.
    Encoded,
    /// `{path_raw}`: `/` stays literal, each segment is percent-encoded.
    Raw,
}

/// `{path}`.
pub open spec fn path_placeholder() -> Seq<char> {
    seq!['{', 'p', 'a', 't', 'h', '}']
}

/// `{path_raw}`.
pub open spec fn path_raw_placeholder() -> Seq<char> {
    seq!['{', 'p', 'a', 't', 'h', '_', 'r', 'a', 'w', '}']
}

/// The placeholder spelling that selects an encoding.
pub open spec fn placeholder_text(e: PathEncoding) -> Seq<char> {
    match e {
        PathEncoding::Encoded => path_placeholder(),
        PathEncoding::Raw => path_raw_placeholder(),
    }
}

/// `{path_raw}` encoding: each `/`-separated segment percent-encoded, the
/// `/` separators kept.
pub open spec fn raw_encoded(s: Seq<char>) -> Seq<char>
    decreases s.len(),
{
    match first_of_two(s, '/', '/') {
        None => percent_encoded(s),
        Some(k) => if 0 <= k < s.len() {
            percent_encoded(s.take(k)) + seq!['/'] + raw_encoded(s.skip(k + 1))
        } else {
            s
        },
    }
}

/// The text substituted for the placeholder.
pub open spec fn encoded_path(e: PathEncoding, rel_path: Seq<char>) -> Seq<char> {
    match e {
        PathEncoding::Encoded => percent_encoded(rel_path),
        PathEncoding::Raw => raw_encoded(rel_path),
    }
}

impl PathEncoding {
    /// The placeholder spelling of this encoding.
    pub fn placeholder(self) -> (r: &'static str)
        ensures
            r@ == placeholder_text(self),
    {
        match self {
            PathEncoding::Encoded => {
                proof {
                    reveal_strlit("{path}");
                }
                "{path}"
            },
            PathEncoding::Raw => {
                proof {
                    reveal_strlit("{path_raw}");
                }
                "{path_raw}"
            },
        }
    }

    /// Encodes a relative index path for substitution.
    pub fn encode(self, rel_path: &str) -> (r: String)
        ensures
            r@ == encoded_path(self, rel_path@),
    {
        match self {
            PathEncoding::Encoded => percent_encode(rel_path),
            PathEncoding::Raw => {
                let cs = chars_of(rel_path);
                let out = encode_raw_chars(&cs);
                string_from_chars(out.as_slice())
            },
        }
    }
}

fn encode_raw_chars(cs: &Vec<char>) -> (r: Vec<char>)
    ensures
        r@ == raw_encoded(cs@),
{
    let mut out: Vec<char> = Vec::new();
    let mut start: usize = 0;
    let n: usize = cs.len();
    assert(out@ + raw_encoded(cs@.skip(0)) =~= raw_encoded(cs@)) by {
        assert(cs@.skip(0) =~= cs@);
    }
    loop
        invariant
            n == cs@.len(),
            start <= cs@.len(),
            out@ + raw_encoded(cs@.skip(start as int)) == raw_encoded(cs@),
        decreases cs@.len() - start,
    {
        let ghost rest = cs@.skip(start as int);
        match find_either(cs, start, '/', '/') {
            None => {
                let seg = slice_chars(cs, start, cs.len());
                assert(seg@ =~= rest);
                let enc = percent_encode(string_from_chars(seg.as_slice()).as_str());
                let enc_chars = chars_of(enc.as_str());
                let res = concat_chars(&out, &enc_chars);
                return res;
            },
            Some(k) => {
                let ghost kk = k - start;
                proof {
                    assert(rest.take(kk) =~= cs@.subrange(start as int, k as int));
                    assert(rest.skip(kk + 1) =~= cs@.skip(k + 1));
                }
                let seg = slice_chars(cs, start, k);
                let enc = percent_encode(string_from_chars(seg.as_slice()).as_str());
                let enc_chars = chars_of(enc.as_str());
                let mut piece = concat_chars(&out, &enc_chars);
                piece.push('/');
                proof {
                    assert(piece@ + raw_encoded(cs@.skip(k + 1)) =~= out@ + raw_encoded(rest));
                }
                out = piece;
                start = k + 1;
            },
        }
    }
}


/// `path`.
pub open spec fn path_name() -> Seq<char> {
    seq!['p', 'a', 't', 'h']
}

/// `path_raw`.
pub open spec fn path_raw_name() -> Seq<char> {
    seq!['p', 'a', 't', 'h', '_', 'r', 'a', 'w']
}

/// The suggestion attached to an unknown placeholder whose name differs from
/// a supported one only in ASCII case.
#[derive(Debug, Clone, Copy, PartialEq, Eq, Structural)]
pub enum PlaceholderHint {
    /// The name is `path` in another case: did you mean `{path}`?
    Path,
    /// The name is `path_raw` in another case: did you mean `{path_raw}`?
    PathRaw,
    /// No suggestion.
    NoHint,
}

/// Why a location string is not a valid index location.
pub enum IndexLocationError {
    /// The `url` crate refused the plain URL.
    InvalidUrl { url: String, source: UrlError },
    /// The plain URL is a relative reference.
    RelativeUrl { url: String },
    /// A plain URL holds a percent-encoded `{path}` or `{path_raw}`.
    PreEncodedPlaceholder { url: String },
    /// A template holds a `{...}` token that is not a supported placeholder.
    UnknownPlaceholder { url: String, placeholder: String, hint: PlaceholderHint },
    /// A template holds a `}` before any `{`, a `{` that is never closed, or
    /// a nested `{`.
    StrayBrace { url: String },
    /// A template holds no placeholder or more than one.
    PlaceholderCount { url: String, count: usize },
    /// The template, expanded with a probe path, is refused by the `url` crate.
    InvalidTemplate { url: String, source: UrlError },
    /// The template, expanded, is a relative reference.
    RelativeTemplate { url: String },
    /// The expanded template is not `http` or `https`.
    UnsupportedScheme { url: String, scheme: String },
    /// The expanded template carries a user name or password.
    Userinfo { url: String },
    /// The template holds a `#` fragment.
    Fragment { url: String },
}

/// The plain content of an [`IndexLocationError`].
pub enum LocationErrorView {
    InvalidUrl { url: Seq<char>, source: UrlErrorView },
    RelativeUrl { url: Seq<char> },
    PreEncodedPlaceholder { url: Seq<char> },
    UnknownPlaceholder { url: Seq<char>, placeholder: Seq<char>, hint: PlaceholderHint },
    StrayBrace { url: Seq<char> },
    PlaceholderCount { url: Seq<char>, count: nat },
    InvalidTemplate { url: Seq<char>, source: UrlErrorView },
    RelativeTemplate { url: Seq<char> },
    UnsupportedScheme { url: Seq<char>, scheme: Seq<char> },
    Userinfo { url: Seq<char> },
    Fragment { url: Seq<char> },
}

/// The suggestion a placeholder hint adds to its message.
pub open spec fn hint_text(h: PlaceholderHint) -> Seq<char> {
    match h {
        PlaceholderHint::Path => " (did you mean `{path}`?)"@,
        PlaceholderHint::PathRaw => " (did you mean `{path_raw}`?)"@,
        PlaceholderHint::NoHint => ""@,
    }
}

/// The message of an index location error.
pub open spec fn location_error_message(e: LocationErrorView) -> Seq<char> {
    match e {
        LocationErrorView::InvalidUrl { url, .. } => joined(seq!["invalid index URL `"@, url, "`"@]),
        LocationErrorView::RelativeUrl { url } => joined(seq!["index URL `"@, url, "` is relative; index locations must be absolute HTTP(S) URLs"@]),
        LocationErrorView::PreEncodedPlaceholder { url } => joined(seq!["index URL `"@, url, "` contains `%7B`/`%7D` (percent-encoded braces) — did you mean a `{path}` template? Placeholders must be written literally, e.g. `.../repository/files/{path}/raw?ref=main`"@]),
        LocationErrorView::StrayBrace { url } => joined(seq!["index URL template `"@, url, "` contains a stray `{` or `}`; supported placeholders are `{path}` and `{path_raw}`"@]),
        LocationErrorView::InvalidTemplate { url, .. } => joined(seq!["index URL template `"@, url, "` expands to an invalid URL; note that a placeholder may only appear in the path or query of an absolute HTTP(S) URL"@]),
        LocationErrorView::RelativeTemplate { url } => joined(seq!["index URL template `"@, url, "` is relative; templates must be absolute HTTP(S) URLs"@]),
        LocationErrorView::UnsupportedScheme { url, scheme } => joined(seq!["index URL `"@, url, "` uses scheme `"@, scheme, "`; only `http` and `https` are supported"@]),
        LocationErrorView::Userinfo { url } => joined(seq!["index URL `"@, url, "` includes username or password; URL userinfo is not allowed"@]),
        LocationErrorView::Fragment { url } => joined(seq!["index URL template `"@, url, "` includes a `#` fragment; fragments are never sent to the server and are not allowed in templates"@]),
        LocationErrorView::UnknownPlaceholder { url, placeholder, hint } => joined(
            seq!["index URL template `"@, url, "` contains unknown placeholder `"@, placeholder, "`"@, hint_text(hint), "; supported placeholders: `{path}` (percent-encoded, `/` becomes `%2F`) and `{path_raw}` (literal `/` separators)"@],
        ),
        LocationErrorView::PlaceholderCount { url, count } => joined(
            seq!["index URL template `"@, url, "` must contain a `{path}` or `{path_raw}` placeholder exactly once, found "@, crate::versions::decimal(count), " occurrences"@],
        ),
    }
}

impl IndexLocationError {
    /// The error's message.
    pub fn message(&self) -> (r: String)
        ensures
            r@ == location_error_message(self@),
    {
        match self {
            IndexLocationError::InvalidUrl { url, .. } => {
                let parts = vec!["invalid index URL `", url.as_str(), "`"];
                assert(str_views(parts@) =~= seq!["invalid index URL `"@, url@, "`"@]);
                join_strs(&parts)
            },
            IndexLocationError::RelativeUrl { url } => {
                let parts = vec!["index URL `", url.as_str(), "` is relative; index locations must be absolute HTTP(S) URLs"];
                assert(str_views(parts@) =~= seq!["index URL `"@, url@, "` is relative; index locations must be absolute HTTP(S) URLs"@]);
                join_strs(&parts)
            },
            IndexLocationError::PreEncodedPlaceholder { url } => {
                let parts = vec!["index URL `", url.as_str(), "` contains `%7B`/`%7D` (percent-encoded braces) — did you mean a `{path}` template? Placeholders must be written literally, e.g. `.../repository/files/{path}/raw?ref=main`"];
                assert(str_views(parts@) =~= seq!["index URL `"@, url@, "` contains `%7B`/`%7D` (percent-encoded braces) — did you mean a `{path}` template? Placeholders must be written literally, e.g. `.../repository/files/{path}/raw?ref=main`"@]);
                join_strs(&parts)
            },
            IndexLocationError::StrayBrace { url } => {
                let parts = vec!["index URL template `", url.as_str(), "` contains a stray `{` or `}`; supported placeholders are `{path}` and `{path_raw}`"];
                assert(str_views(parts@) =~= seq!["index URL template `"@, url@, "` contains a stray `{` or `}`; supported placeholders are `{path}` and `{path_raw}`"@]);
                join_strs(&parts)
            },
            IndexLocationError::InvalidTemplate { url, .. } => {
                let parts = vec!["index URL template `", url.as_str(), "` expands to an invalid URL; note that a placeholder may only appear in the path or query of an absolute HTTP(S) URL"];
                assert(str_views(parts@) =~= seq!["index URL template `"@, url@, "` expands to an invalid URL; note that a placeholder may only appear in the path or query of an absolute HTTP(S) URL"@]);
                join_strs(&parts)
            },
            IndexLocationError::RelativeTemplate { url } => {
                let parts = vec!["index URL template `", url.as_str(), "` is relative; templates must be absolute HTTP(S) URLs"];
                assert(str_views(parts@) =~= seq!["index URL template `"@, url@, "` is relative; templates must be absolute HTTP(S) URLs"@]);
                join_strs(&parts)
            },
            IndexLocationError::UnsupportedScheme { url, scheme } => {
                let parts = vec!["index URL `", url.as_str(), "` uses scheme `", scheme.as_str(), "`; only `http` and `https` are supported"];
                assert(str_views(parts@) =~= seq!["index URL `"@, url@, "` uses scheme `"@, scheme@, "`; only `http` and `https` are supported"@]);
                join_strs(&parts)
            },
            IndexLocationError::Userinfo { url } => {
                let parts = vec!["index URL `", url.as_str(), "` includes username or password; URL userinfo is not allowed"];
                assert(str_views(parts@) =~= seq!["index URL `"@, url@, "` includes username or password; URL userinfo is not allowed"@]);
                join_strs(&parts)
            },
            IndexLocationError::Fragment { url } => {
                let parts = vec!["index URL template `", url.as_str(), "` includes a `#` fragment; fragments are never sent to the server and are not allowed in templates"];
                assert(str_views(parts@) =~= seq!["index URL template `"@, url@, "` includes a `#` fragment; fragments are never sent to the server and are not allowed in templates"@]);
                join_strs(&parts)
            },
            IndexLocationError::UnknownPlaceholder { url, placeholder, hint } => {
                let h = match hint {
                    PlaceholderHint::Path => " (did you mean `{path}`?)",
                    PlaceholderHint::PathRaw => " (did you mean `{path_raw}`?)",
                    PlaceholderHint::NoHint => "",
                };
                let parts = vec!["index URL template `", url.as_str(), "` contains unknown placeholder `", placeholder.as_str(), "`", h, "; supported placeholders: `{path}` (percent-encoded, `/` becomes `%2F`) and `{path_raw}` (literal `/` separators)"];
                assert(str_views(parts@) =~= seq!["index URL template `"@, url@, "` contains unknown placeholder `"@, placeholder@, "`"@, hint_text(*hint), "; supported placeholders: `{path}` (percent-encoded, `/` becomes `%2F`) and `{path_raw}` (literal `/` separators)"@]);
                join_strs(&parts)
            },
            IndexLocationError::PlaceholderCount { url, count } => {
                let c = crate::versions::u64_to_decimal(*count as u64);
                let parts = vec!["index URL template `", url.as_str(), "` must contain a `{path}` or `{path_raw}` placeholder exactly once, found ", c.as_str(), " occurrences"];
                assert(str_views(parts@) =~= seq!["index URL template `"@, url@, "` must contain a `{path}` or `{path_raw}` placeholder exactly once, found "@, crate::versions::decimal(*count as nat), " occurrences"@]);
                join_strs(&parts)
            },
        }
    }
}

impl View for IndexLocationError {
    type V = LocationErrorView;

    open spec fn view(&self) -> LocationErrorView {
        match self {
            IndexLocationError::InvalidUrl { url, source } => LocationErrorView::InvalidUrl {
                url: url@,
                source: source@,
            },
            IndexLocationError::RelativeUrl { url } => LocationErrorView::RelativeUrl { url: url@ },
            IndexLocationError::PreEncodedPlaceholder { url } =>
                LocationErrorView::PreEncodedPlaceholder { url: url@ },
            IndexLocationError::UnknownPlaceholder { url, placeholder, hint } =>
                LocationErrorView::UnknownPlaceholder {
                url: url@,
                placeholder: placeholder@,
                hint: *hint,
            },
            IndexLocationError::StrayBrace { url } => LocationErrorView::StrayBrace { url: url@ },
            IndexLocationError::PlaceholderCount { url, count } =>
                LocationErrorView::PlaceholderCount { url: url@, count: *count as nat },
            IndexLocationError::InvalidTemplate { url, source } =>
                LocationErrorView::InvalidTemplate { url: url@, source: source@ },
            IndexLocationError::RelativeTemplate { url } => LocationErrorView::RelativeTemplate {
                url: url@,
            },
            IndexLocationError::UnsupportedScheme { url, scheme } =>
                LocationErrorView::UnsupportedScheme { url: url@, scheme: scheme@ },
            IndexLocationError::Userinfo { url } => LocationErrorView::Userinfo { url: url@ },
            IndexLocationError::Fragment { url } => LocationErrorView::Fragment { url: url@ },
        }
    }
}

/// What a scan of a template's braces finds.
pub enum PlaceholderScan {
    /// Well-formed braces; the placeholders met, in order.
    Tokens(Seq<PathEncoding>),
    /// A stray, unclosed or nested brace.
    Stray,
    /// The first `{...}` token whose name is not supported.
    Unknown(Seq<char>),
}

/// The placeholders already met, followed by what the rest of a scan finds.
pub open spec fn continue_scan(found: Seq<PathEncoding>, rest: PlaceholderScan) -> PlaceholderScan {
    match rest {
        PlaceholderScan::Tokens(v) => PlaceholderScan::Tokens(found + v),
        other => other,
    }
}

/// Scans `s` from the left: every `{` must be closed by a `}` before any
/// other brace, and the name between them must be `path` or `path_raw`.
pub open spec fn scan_placeholders(s: Seq<char>) -> PlaceholderScan
    decreases s.len(),
{
    match first_of_two(s, '{', '}') {
        None => PlaceholderScan::Tokens(Seq::empty()),
        Some(k) => if !(0 <= k < s.len()) || s[k] == '}' {
            PlaceholderScan::Stray
        } else {
            let after = s.skip(k + 1);
            match first_of_two(after, '{', '}') {
                None => PlaceholderScan::Stray,
                Some(c) => if !(0 <= c < after.len()) || after[c] == '{' {
                    PlaceholderScan::Stray
                } else {
                    let name = after.take(c);
                    let rest = scan_placeholders(after.skip(c + 1));
                    if name == path_name() {
                        continue_scan(seq![PathEncoding::Encoded], rest)
                    } else if name == path_raw_name() {
                        continue_scan(seq![PathEncoding::Raw], rest)
                    } else {
                        PlaceholderScan::Unknown(name)
                    }
                },
            }
        },
    }
}

/// The hint for an unsupported placeholder name.
pub open spec fn placeholder_hint(name: Seq<char>) -> PlaceholderHint {
    if ascii_lowercase(name) == path_name() {
        PlaceholderHint::Path
    } else if ascii_lowercase(name) == path_raw_name() {
        PlaceholderHint::PathRaw
    } else {
        PlaceholderHint::NoHint
    }
}

/// What the placeholder check makes of a template: the encoding of its one
/// placeholder, or the first problem found.
pub open spec fn placeholder_outcome(raw: Seq<char>) -> Result<PathEncoding, LocationErrorView> {
    match scan_placeholders(raw) {
        PlaceholderScan::Stray => Err(LocationErrorView::StrayBrace { url: raw }),
        PlaceholderScan::Unknown(name) => Err(
            LocationErrorView::UnknownPlaceholder {
                url: raw,
                placeholder: seq!['{'] + name + seq!['}'],
                hint: placeholder_hint(name),
            },
        ),
        PlaceholderScan::Tokens(v) => if v.len() == 1 {
            Ok(v[0])
        } else {
            Err(LocationErrorView::PlaceholderCount { url: raw, count: v.len() })
        },
    }
}

/// The plain content of a placeholder check's result.
pub open spec fn encoding_result_view(r: Result<PathEncoding, IndexLocationError>) -> Result<
    PathEncoding,
    LocationErrorView,
> {
    match r {
        Ok(e) => Ok(e),
        Err(e) => Err(e@),
    }
}

fn literal_chars_path() -> (r: Vec<char>)
    ensures
        r@ == path_name(),
{
    proof {
        reveal_strlit("path");
    }
    chars_of("path")
}

fn literal_chars_path_raw() -> (r: Vec<char>)
    ensures
        r@ == path_raw_name(),
{
    proof {
        reveal_strlit("path_raw");
    }
    chars_of("path_raw")
}

fn hint_for(name: &Vec<char>) -> (r: PlaceholderHint)
    ensures
        r == placeholder_hint(name@),
{
    let lower = to_ascii_lowercase(name);
    if chars_equal(&lower, &literal_chars_path()) {
        PlaceholderHint::Path
    } else if chars_equal(&lower, &literal_chars_path_raw()) {
        PlaceholderHint::PathRaw
    } else {
        PlaceholderHint::NoHint
    }
}

/// Checks that every `{...}` token of `raw` is `{path}` or `{path_raw}`,
/// that braces are balanced and not nested, and that exactly one placeholder
/// occurs; returns the encoding it selects.
#[verifier::spinoff_prover]
#[verifier::rlimit(40)]
pub fn validate_placeholders(raw: &str) -> (r: Result<PathEncoding, IndexLocationError>)
    ensures
        encoding_result_view(r) == placeholder_outcome(raw@),
{
    let cs = chars_of(raw);
    let n: usize = cs.len();
    let path = literal_chars_path();
    let path_raw = literal_chars_path_raw();
    let mut found: Vec<PathEncoding> = Vec::new();
    let mut start: usize = 0;
    assert(cs@.skip(0) =~= cs@);
    assert(found@ + Seq::<PathEncoding>::empty() =~= Seq::<PathEncoding>::empty());
    loop
        invariant
            n == cs@.len(),
            cs@ == raw@,
            path@ == path_name(),
            path_raw@ == path_raw_name(),
            start <= n,
            continue_scan(found@, scan_placeholders(cs@.skip(start as int))) == scan_placeholders(
                cs@,
            ),
        decreases n - start,
    {
        let ghost rest = cs@.skip(start as int);
        match find_either(&cs, start, '{', '}') {
            None => {
                assert(found@ + Seq::<PathEncoding>::empty() =~= found@);
                if found.len() == 1 {
                    return Ok(found[0]);
                }
                return Err(
                    IndexLocationError::PlaceholderCount { url: raw.to_string(), count: found.len() },
                );
            },
            Some(open) => {
                if cs[open] == '}' {
                    return Err(IndexLocationError::StrayBrace { url: raw.to_string() });
                }
                let ghost after = rest.skip(open - start + 1);
                assert(after =~= cs@.skip(open + 1));
                match find_either(&cs, open + 1, '{', '}') {
                    None => {
                        return Err(IndexLocationError::StrayBrace { url: raw.to_string() });
                    },
                    Some(close) => {
                        if cs[close] == '{' {
                            return Err(IndexLocationError::StrayBrace { url: raw.to_string() });
                        }
                        let name = slice_chars(&cs, open + 1, close);
                        let ghost c = close - open - 1;
                        assert(after.take(c) =~= name@);
                        assert(after.skip(c + 1) =~= cs@.skip(close + 1));
                        let ghost next = scan_placeholders(cs@.skip(close + 1));
                        if chars_equal(&name, &path) {
                            proof {
                                if let PlaceholderScan::Tokens(v) = next {
                                    assert(found@.push(PathEncoding::Encoded) + v =~= found@ + (
                                    seq![PathEncoding::Encoded] + v));
                                }
                            }
                            found.push(PathEncoding::Encoded);
                        } else if chars_equal(&name, &path_raw) {
                            proof {
                                if let PlaceholderScan::Tokens(v) = next {
                                    assert(found@.push(PathEncoding::Raw) + v =~= found@ + (seq![
                                        PathEncoding::Raw,
                                    ] + v));
                                }
                            }
                            found.push(PathEncoding::Raw);
                        } else {
                            let hint = hint_for(&name);
                            let mut token: Vec<char> = Vec::new();
                            token.push('{');
                            let mut token = concat_chars(&token, &name);
                            token.push('}');
                            assert(token@ =~= seq!['{'] + name@ + seq!['}']);
                            return Err(
                                IndexLocationError::UnknownPlaceholder {
                                    url: raw.to_string(),
                                    placeholder: string_from_chars(token.as_slice()),
                                    hint,
                                },
                            );
                        }
                        start = close + 1;
                    },
                }
            },
        }
    }
}

/// Whether `s` uses index URL template syntax: it holds a brace.
pub fn is_template_syntax(s: &str) -> (r: bool)
    ensures
        r == (s@.contains('{') || s@.contains('}')),
{
    let cs = chars_of(s);
    contains_char(&cs, '{') || contains_char(&cs, '}')
}

/// The relative path that a template is expanded with when it is checked:
/// `pr obe/probe`, whose space becomes a percent-escape, so that a
/// placeholder in the host fails to parse.
pub open spec fn probe_path() -> Seq<char> {
    seq!['p', 'r', ' ', 'o', 'b', 'e', '/', 'p', 'r', 'o', 'b', 'e']
}

/// `s` with the first occurrence of `pat` replaced by `to`.
pub open spec fn replace_first(s: Seq<char>, pat: Seq<char>, to: Seq<char>) -> Seq<char> {
    match first_occurrence(s, pat) {
        Some(k) => s.take(k) + to + s.skip(k + pat.len()),
        None => s,
    }
}

/// The text of a template with its placeholder replaced by the encoded
/// relative path.
pub open spec fn expand_text(raw: Seq<char>, e: PathEncoding, rel_path: Seq<char>) -> Seq<char> {
    replace_first(raw, placeholder_text(e), encoded_path(e, rel_path))
}

fn replace_first_chars(s: &Vec<char>, pat: &Vec<char>, to: &Vec<char>) -> (r: Vec<char>)
    ensures
        r@ == replace_first(s@, pat@, to@),
{
    match find_chars(s, pat) {
        None => {
            let mut out: Vec<char> = Vec::new();
            let out = concat_chars(&out, s);
            assert(out@ =~= s@);
            out
        },
        Some(k) => {
            let n: usize = s.len();
            let m: usize = pat.len();
            assert(occurs_at(s@, pat@, k as int));
            let head = slice_chars(s, 0, k);
            let tail = slice_chars(s, k + m, n);
            let first = concat_chars(&head, to);
            let out = concat_chars(&first, &tail);
            assert(head@ =~= s@.take(k as int));
            assert(tail@ =~= s@.skip(k + pat@.len()));
            out
        },
    }
}

/// The plain content of an index URL template.
pub struct TemplateView {
    /// The template as configured.
    pub raw: Seq<char>,
    /// The encoding its placeholder selects.
    pub encoding: PathEncoding,
}

/// A URL template with exactly one `{path}` or `{path_raw}` placeholder,
/// validated at construction. Carried as text because the `url` crate
/// percent-encodes braces when it parses.
pub struct IndexUrlTemplate {
    raw: String,
    encoding: PathEncoding,
}

impl View for IndexUrlTemplate {
    type V = TemplateView;

    closed spec fn view(&self) -> TemplateView {
        TemplateView { raw: self.raw@, encoding: self.encoding }
    }
}

impl IndexUrlTemplate {
    /// A template holds exactly one placeholder, the one its encoding
    /// names, and no fragment.
    #[verifier::type_invariant]
    pub open spec fn inv(self) -> bool {
        placeholder_outcome(self@.raw) == Ok::<PathEncoding, LocationErrorView>(self@.encoding)
            && !self@.raw.contains('#')
    }
}

/// Why no file URL could be built from an index location and a path.
pub enum ResolveUrlError {
    /// The `url` crate could not join the path onto the base URL.
    Join { root: String, path: String, source: UrlError },
    /// The expanded template is not a URL the `url` crate accepts.
    Expand { template: String, path: String, source: UrlError },
    /// The base URL has no hierarchical path to join onto.
    NotABase { root: String },
}

/// The plain content of a [`ResolveUrlError`].
pub enum ResolveErrorView {
    Join { root: Seq<char>, path: Seq<char>, source: UrlErrorView },
    Expand { template: Seq<char>, path: Seq<char>, source: UrlErrorView },
    NotABase { root: Seq<char> },
}

impl View for ResolveUrlError {
    type V = ResolveErrorView;

    open spec fn view(&self) -> ResolveErrorView {
        match self {
            ResolveUrlError::Join { root, path, source } => ResolveErrorView::Join {
                root: root@,
                path: path@,
                source: source@,
            },
            ResolveUrlError::Expand { template, path, source } => ResolveErrorView::Expand {
                template: template@,
                path: path@,
                source: source@,
            },
            ResolveUrlError::NotABase { root } => ResolveErrorView::NotABase { root: root@ },
        }
    }
}

/// The plain content of a resolution's result.
pub open spec fn resolved_view(r: Result<ParsedUrl, ResolveUrlError>) -> Result<
    UrlView,
    ResolveErrorView,
> {
    match r {
        Ok(u) => Ok(u@),
        Err(e) => Err(e@),
    }
}

/// The plain content of a template parse's result.
pub open spec fn template_result_view(r: Result<IndexUrlTemplate, IndexLocationError>) -> Result<
    TemplateView,
    LocationErrorView,
> {
    match r {
        Ok(t) => Ok(t@),
        Err(e) => Err(e@),
    }
}

/// What expanding a template with a relative path yields.
pub open spec fn expand_outcome(t: TemplateView, rel_path: Seq<char>) -> Result<
    UrlView,
    ResolveErrorView,
> {
    match url_parse(expand_text(t.raw, t.encoding, rel_path)) {
        Ok(u) => Ok(u),
        Err(e) => Err(ResolveErrorView::Expand { template: t.raw, path: rel_path, source: e }),
    }
}

/// What is wrong with the shape of an expanded template: a scheme other than
/// `http` or `https`, or userinfo.
pub open spec fn shape_problem(raw: Seq<char>, u: UrlView) -> Option<LocationErrorView> {
    if u.scheme != http_text() && u.scheme != https_text() {
        Some(LocationErrorView::UnsupportedScheme { url: raw, scheme: u.scheme })
    } else if u.username.len() != 0 || u.has_password {
        Some(LocationErrorView::Userinfo { url: raw })
    } else {
        None
    }
}

/// What a template check makes of the parse of the template expanded with
/// the probe path.
pub open spec fn expanded_outcome(
    raw: Seq<char>,
    e: PathEncoding,
    parsed: Result<UrlView, UrlErrorView>,
) -> Result<TemplateView, LocationErrorView> {
    match parsed {
        Err(ue) => if ue.relative_without_base {
            Err(LocationErrorView::RelativeTemplate { url: raw })
        } else {
            Err(LocationErrorView::InvalidTemplate { url: raw, source: ue })
        },
        Ok(u) => match shape_problem(raw, u) {
            Some(err) => Err(err),
            None => Ok(TemplateView { raw, encoding: e }),
        },
    }
}

/// What checking `raw` as a template yields, given the parse of its
/// expansion with the probe path.
pub open spec fn template_with_expansion(raw: Seq<char>, parsed: Result<UrlView, UrlErrorView>) -> Result<
    TemplateView,
    LocationErrorView,
> {
    match placeholder_outcome(raw) {
        Err(err) => Err(err),
        Ok(e) => if raw.contains('#') {
            Err(LocationErrorView::Fragment { url: raw })
        } else {
            expanded_outcome(raw, e, parsed)
        },
    }
}

/// What parsing `raw` as an index URL template yields.
pub open spec fn template_outcome(raw: Seq<char>) -> Result<TemplateView, LocationErrorView> {
    match placeholder_outcome(raw) {
        Err(err) => Err(err),
        Ok(e) => if raw.contains('#') {
            Err(LocationErrorView::Fragment { url: raw })
        } else {
            expanded_outcome(raw, e, url_parse(expand_text(raw, e, probe_path())))
        },
    }
}

/// Substitutes the encoded `rel_path` for the placeholder of `raw` and
/// parses the result.
fn expand_url(raw: &str, encoding: PathEncoding, rel_path: &str) -> (r: Result<ParsedUrl, UrlError>)
    ensures
        url_result_view(r) == url_parse(expand_text(raw@, encoding, rel_path@)),
{
    let encoded = encoding.encode(rel_path);
    let text = replace_first_chars(
        &chars_of(raw),
        &chars_of(encoding.placeholder()),
        &chars_of(encoded.as_str()),
    );
    let expanded = string_from_chars(text.as_slice());
    parse_url(expanded.as_str())
}

/// Checks that an expanded template is an `http` or `https` URL without
/// userinfo.
pub fn validate_expanded_shape(raw: &str, expanded: &ParsedUrl) -> (r: Result<(), IndexLocationError>)
    ensures
        match shape_problem(raw@, expanded@) {
            Some(err) => r is Err && r->Err_0@ == err,
            None => r is Ok,
        },
{
    proof {
        reveal_strlit("http");
        reveal_strlit("https");
        assert("http"@ =~= http_text());
        assert("https"@ =~= https_text());
    }
    if !str_equal(expanded.scheme(), "http") && !str_equal(expanded.scheme(), "https") {
        return Err(
            IndexLocationError::UnsupportedScheme {
                url: raw.to_string(),
                scheme: expanded.scheme().to_string(),
            },
        );
    }
    if !expanded.username().is_empty() || expanded.has_password() {
        return Err(IndexLocationError::Userinfo { url: raw.to_string() });
    }
    Ok(())
}

impl IndexUrlTemplate {
    /// Checks `raw` as a template, given what the `url` crate made of it
    /// expanded with the probe path: the placeholders and the absence of a
    /// fragment are checked first, then the expansion.
    pub fn from_expanded(raw: &str, expanded: Result<ParsedUrl, UrlError>) -> (r: Result<
        IndexUrlTemplate,
        IndexLocationError,
    >)
        ensures
            template_result_view(r) == template_with_expansion(raw@, url_result_view(expanded)),
    {
        let encoding = match validate_placeholders(raw) {
            Ok(e) => e,
            Err(e) => return Err(e),
        };
        if contains_char(&chars_of(raw), '#') {
            return Err(IndexLocationError::Fragment { url: raw.to_string() });
        }
        match expanded {
            Err(source) => {
                if source.relative_without_base {
                    Err(IndexLocationError::RelativeTemplate { url: raw.to_string() })
                } else {
                    Err(IndexLocationError::InvalidTemplate { url: raw.to_string(), source })
                }
            },
            Ok(u) => {
                match validate_expanded_shape(raw, &u) {
                    Err(e) => Err(e),
                    Ok(()) => Ok(IndexUrlTemplate { raw: raw.to_string(), encoding }),
                }
            },
        }
    }

    /// Validates `raw` as an index URL template: exactly one `{path}` or
    /// `{path_raw}` placeholder, no other `{...}` token or stray brace, no
    /// fragment, and an expansion that is an absolute `http(s)` URL without
    /// userinfo.
    pub fn parse(raw: &str) -> (r: Result<IndexUrlTemplate, IndexLocationError>)
        ensures
            template_result_view(r) == template_outcome(raw@),
    {
        let encoding = match validate_placeholders(raw) {
            Ok(e) => e,
            Err(e) => return Err(e),
        };
        if contains_char(&chars_of(raw), '#') {
            return Err(IndexLocationError::Fragment { url: raw.to_string() });
        }
        proof {
            reveal_strlit("pr obe/probe");
            assert("pr obe/probe"@ =~= probe_path());
        }
        let expanded = expand_url(raw, encoding, "pr obe/probe");
        Self::from_expanded(raw, expanded)
    }

    /// Substitutes `rel_path`, encoded as the placeholder says, for the
    /// placeholder and parses the result.
    pub fn expand(&self, rel_path: &str) -> (r: Result<ParsedUrl, ResolveUrlError>)
        ensures
            resolved_view(r) == expand_outcome(self@, rel_path@),
    {
        match expand_url(self.raw.as_str(), self.encoding, rel_path) {
            Ok(u) => Ok(u),
            Err(source) => Err(
                ResolveUrlError::Expand {
                    template: self.raw.clone(),
                    path: rel_path.to_string(),
                    source,
                },
            ),
        }
    }

    /// The encoding of the template's placeholder; every template holds
    /// exactly this one placeholder and no fragment.
    pub fn encoding(&self) -> (r: PathEncoding)
        ensures
            r == self@.encoding,
            placeholder_outcome(self@.raw) == Ok::<PathEncoding, LocationErrorView>(r),
            !self@.raw.contains('#'),
    {
        proof {
            use_type_invariant(self);
        }
        self.encoding
    }

    /// The template as configured.
    pub fn as_str(&self) -> (r: &str)
        ensures
            r@ == self@.raw,
    {
        self.raw.as_str()
    }

    /// A copy of this template.
    pub fn duplicate(&self) -> (r: IndexUrlTemplate)
        ensures
            r@ == self@,
    {
        proof {
            use_type_invariant(self);
        }
        IndexUrlTemplate { raw: self.raw.clone(), encoding: self.encoding }
    }

    /// The template as configured, as an owned string.
    pub fn to_string(&self) -> (r: String)
        ensures
            r@ == self@.raw,
    {
        self.raw.clone()
    }
}

/// `%7bpath%7d`.
pub open spec fn encoded_path_placeholder() -> Seq<char> {
    seq!['%', '7', 'b', 'p', 'a', 't', 'h', '%', '7', 'd']
}

/// `%7bpath_raw%7d`.
pub open spec fn encoded_path_raw_placeholder() -> Seq<char> {
    seq!['%', '7', 'b', 'p', 'a', 't', 'h', '_', 'r', 'a', 'w', '%', '7', 'd']
}

/// A plain URL holds a placeholder that was percent-encoded, in any case.
pub open spec fn holds_encoded_placeholder(s: Seq<char>) -> bool {
    contains_seq(ascii_lowercase(s), encoded_path_placeholder()) || contains_seq(
        ascii_lowercase(s),
        encoded_path_raw_placeholder(),
    )
}

/// Where an index lives: a plain base URL onto which relative index paths
/// are joined, or a URL template into whose placeholder they are
/// substituted.
pub enum IndexLocation {
    /// A plain base URL; when it can be a base, its path ends with `/` so that
    /// relative paths are appended rather than replace its last segment.
    Root(ParsedUrl),
    /// A URL template.
    Template(IndexUrlTemplate),
}

/// The plain content of an [`IndexLocation`].
pub enum LocationView {
    Root(UrlView),
    Template(TemplateView),
}

impl View for IndexLocation {
    type V = LocationView;

    open spec fn view(&self) -> LocationView {
        match self {
            IndexLocation::Root(u) => LocationView::Root(u@),
            IndexLocation::Template(t) => LocationView::Template(t@),
        }
    }
}

/// The plain content of a location parse's result.
pub open spec fn location_result_view(r: Result<IndexLocation, IndexLocationError>) -> Result<
    LocationView,
    LocationErrorView,
> {
    match r {
        Ok(l) => Ok(l@),
        Err(e) => Err(e@),
    }
}

/// What a plain location string becomes, given what `url::Url::parse` made
/// of it.
pub open spec fn root_outcome(s: Seq<char>, parsed: Result<UrlView, UrlErrorView>) -> Result<
    LocationView,
    LocationErrorView,
> {
    match parsed {
        Ok(u) => if !u.cannot_be_a_base {
            Ok(LocationView::Root(url_with_trailing_slash(u)))
        } else {
            Ok(LocationView::Root(u))
        },
        Err(e) => if e.relative_without_base {
            Err(LocationErrorView::RelativeUrl { url: s })
        } else {
            Err(LocationErrorView::InvalidUrl { url: s, source: e })
        },
    }
}

/// What parsing a location string yields: a template when it holds a brace,
/// else a plain base URL.
pub open spec fn location_outcome(s: Seq<char>) -> Result<LocationView, LocationErrorView> {
    if s.contains('{') || s.contains('}') {
        match template_outcome(s) {
            Ok(t) => Ok(LocationView::Template(t)),
            Err(e) => Err(e),
        }
    } else if holds_encoded_placeholder(s) {
        Err(LocationErrorView::PreEncodedPlaceholder { url: s })
    } else {
        root_outcome(s, url_parse(s))
    }
}

/// What resolving a relative index path against a location yields.
pub open spec fn resolve_outcome(l: LocationView, rel_path: Seq<char>) -> Result<
    UrlView,
    ResolveErrorView,
> {
    match l {
        LocationView::Root(u) => if u.cannot_be_a_base {
            Err(ResolveErrorView::NotABase { root: u.href })
        } else {
            match url_join(u, rel_path) {
                Ok(v) => Ok(v),
                Err(e) => Err(ResolveErrorView::Join { root: u.href, path: rel_path, source: e }),
            }
        },
        LocationView::Template(t) => expand_outcome(t, rel_path),
    }
}

impl IndexLocation {
    /// Builds a plain location from what `url::Url::parse` made of `s`: a
    /// URL that can be a base gets a trailing slash.
    pub fn from_parsed_root(s: &str, parsed: Result<ParsedUrl, UrlError>) -> (r: Result<
        IndexLocation,
        IndexLocationError,
    >)
        ensures
            location_result_view(r) == root_outcome(s@, url_result_view(parsed)),
    {
        match parsed {
            Ok(u) => {
                if !u.cannot_be_a_base() {
                    Ok(IndexLocation::Root(with_trailing_slash(u)))
                } else {
                    Ok(IndexLocation::Root(u))
                }
            },
            Err(source) => {
                if source.relative_without_base {
                    Err(IndexLocationError::RelativeUrl { url: s.to_string() })
                } else {
                    Err(IndexLocationError::InvalidUrl { url: s.to_string(), source })
                }
            },
        }
    }

    /// Parses a location string. A string with a brace is a template; any
    /// other is a plain base URL, refused when it holds a percent-encoded
    /// placeholder.
    pub fn parse(s: &str) -> (r: Result<IndexLocation, IndexLocationError>)
        ensures
            location_result_view(r) == location_outcome(s@),
    {
        if is_template_syntax(s) {
            return match IndexUrlTemplate::parse(s) {
                Ok(t) => Ok(IndexLocation::Template(t)),
                Err(e) => Err(e),
            };
        }
        let lower = to_ascii_lowercase(&chars_of(s));
        proof {
            reveal_strlit("%7bpath%7d");
            reveal_strlit("%7bpath_raw%7d");
            assert("%7bpath%7d"@ =~= encoded_path_placeholder());
            assert("%7bpath_raw%7d"@ =~= encoded_path_raw_placeholder());
        }
        if find_chars(&lower, &chars_of("%7bpath%7d")).is_some() || find_chars(
            &lower,
            &chars_of("%7bpath_raw%7d"),
        ).is_some() {
            return Err(IndexLocationError::PreEncodedPlaceholder { url: s.to_string() });
        }
        Self::from_parsed_root(s, parse_url(s))
    }

    /// The URL of the index file at `rel_path`: joined onto a plain base
    /// URL, or substituted into a template.
    pub fn resolve(&self, rel_path: &str) -> (r: Result<ParsedUrl, ResolveUrlError>)
        ensures
            resolved_view(r) == resolve_outcome(self@, rel_path@),
    {
        match self {
            IndexLocation::Root(root) => {
                if root.cannot_be_a_base() {
                    return Err(ResolveUrlError::NotABase { root: root.as_str().to_string() });
                }
                match join_url(root, rel_path) {
                    Ok(u) => Ok(u),
                    Err(source) => Err(
                        ResolveUrlError::Join {
                            root: root.as_str().to_string(),
                            path: rel_path.to_string(),
                            source,
                        },
                    ),
                }
            },
            IndexLocation::Template(t) => t.expand(rel_path),
        }
    }

    /// A copy of this location.
    pub fn duplicate(&self) -> (r: IndexLocation)
        ensures
            r@ == self@,
    {
        match self {
            IndexLocation::Root(u) => IndexLocation::Root(u.duplicate()),
            IndexLocation::Template(t) => IndexLocation::Template(t.duplicate()),
        }
    }

    /// The plain base URL, when this location is not a template.
    pub fn as_root(&self) -> (r: Option<&ParsedUrl>)
        ensures
            match self@ {
                LocationView::Root(u) => r is Some && r->Some_0@ == u,
                LocationView::Template(_) => r is None,
            },
    {
        match self {
            IndexLocation::Root(u) => Some(u),
            IndexLocation::Template(_) => None,
        }
    }

    /// The location as text: the URL or the template.
    pub fn to_string(&self) -> (r: String)
        ensures
            r@ == match self@ {
                LocationView::Root(u) => u.href,
                LocationView::Template(t) => t.raw,
            },
    {
        match self {
            IndexLocation::Root(u) => u.as_str().to_string(),
            IndexLocation::Template(t) => t.to_string(),
        }
    }
}

} // verus!
