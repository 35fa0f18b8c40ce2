//! URLs parsed and joined by the `url` crate, carried as plain values.

use vstd::prelude::*;

verus! {

#[verifier::external_type_specification]
#[verifier::external_body]
pub struct ExUrl(url::Url);

/// The plain content of a parsed URL.
pub struct UrlView {
    /// The serialization (`Url::as_str`).
    pub href: Seq<char>,
    pub scheme: Seq<char>,
    pub username: Seq<char>,
    pub has_password: bool,
    pub cannot_be_a_base: bool,
    pub path: Seq<char>,
}

/// `http`.
pub open spec fn http_text() -> Seq<char> {
    seq!['h', 't', 't', 'p']
}

/// `https`.
pub open spec fn https_text() -> Seq<char> {
    seq!['h', 't', 't', 'p', 's']
}

/// What holds of every URL the `url` crate builds: a URL of a special
/// scheme such as `http` or `https` always has a hierarchical path, so it
/// can be a base.
pub open spec fn url_wf(u: UrlView) -> bool {
    (u.scheme == http_text() || u.scheme == https_text()) ==> !u.cannot_be_a_base
}

/// A URL parsed by the `url` crate. Only the functions of this module build
/// one, so the plain fields always describe the `url::Url` beside them.
pub struct ParsedUrl {
    inner: url::Url,
    href: String,
    scheme: String,
    username: String,
    has_password: bool,
    cannot_be_a_base: bool,
    path: String,
}

impl View for ParsedUrl {
    type V = UrlView;

    closed spec fn view(&self) -> UrlView {
        UrlView {
            href: self.href@,
            scheme: self.scheme@,
            username: self.username@,
            has_password: self.has_password,
            cannot_be_a_base: self.cannot_be_a_base,
            path: self.path@,
        }
    }
}

/// Why the `url` crate refused an input.
pub struct UrlError {
    /// The input is a relative reference and no base was given
    /// (`ParseError::RelativeUrlWithoutBase`).
    pub relative_without_base: bool,
    /// The crate's description of the error.
    pub message: String,
}

/// The plain content of a URL error.
pub struct UrlErrorView {
    pub relative_without_base: bool,
    pub message: Seq<char>,
}

impl View for UrlError {
    type V = UrlErrorView;

    open spec fn view(&self) -> UrlErrorView {
        UrlErrorView { relative_without_base: self.relative_without_base, message: self.message@ }
    }
}

/// The plain content of a URL result.
pub open spec fn url_result_view(r: Result<ParsedUrl, UrlError>) -> Result<UrlView, UrlErrorView> {
    match r {
        Ok(u) => Ok(u@),
        Err(e) => Err(e@),
    }
}

impl ParsedUrl {
    /// Every URL the `url` crate builds is well formed.
    #[verifier::type_invariant]
    pub open spec fn inv(self) -> bool {
        url_wf(self@)
    }

    /// Parses an absolute URL.
    pub fn parse(input: &str) -> (r: Result<ParsedUrl, UrlError>)
        ensures
            url_result_view(r) == url_parse(input@),
    {
        parse_url(input)
    }

    /// The serialization of the URL.
    pub fn as_str(&self) -> (r: &str)
        ensures
            r@ == self@.href,
    {
        self.href.as_str()
    }

    /// The scheme, in lower case, without the `:`.
    pub fn scheme(&self) -> (r: &str)
        ensures
            r@ == self@.scheme,
    {
        self.scheme.as_str()
    }

    /// The user name of the userinfo, empty when there is none.
    pub fn username(&self) -> (r: &str)
        ensures
            r@ == self@.username,
    {
        self.username.as_str()
    }

    /// Whether the userinfo holds a password.
    pub fn has_password(&self) -> (r: bool)
        ensures
            r == self@.has_password,
    {
        self.has_password
    }

    /// Whether the URL has no hierarchical path (`mailto:`, `data:`).
    pub fn cannot_be_a_base(&self) -> (r: bool)
        ensures
            r == self@.cannot_be_a_base,
    {
        self.cannot_be_a_base
    }

    /// The path of the URL.
    pub fn path(&self) -> (r: &str)
        ensures
            r@ == self@.path,
    {
        self.path.as_str()
    }

    /// A copy of this URL.
    #[verifier::external_body]
    pub(crate) fn duplicate(&self) -> (r: ParsedUrl)
        ensures
            r@ == self@,
            url_wf(r@),
    {
        let u = self.inner.clone();
        ParsedUrl {
            href: u.as_str().to_string(),
            scheme: u.scheme().to_string(),
            username: u.username().to_string(),
            has_password: u.password().is_some(),
            cannot_be_a_base: u.cannot_be_a_base(),
            path: u.path().to_string(),
            inner: u,
        }
    }
}

/// What `url::Url::parse` yields for an input.
pub uninterp spec fn url_parse(input: Seq<char>) -> Result<UrlView, UrlErrorView>;

/// Parses an absolute URL with `url::Url::parse`; the outcome is exactly
/// what that function yields for `input`.
#[verifier::external_body]
pub(crate) fn parse_url(input: &str) -> (r: Result<ParsedUrl, UrlError>)
    ensures
        url_result_view(r) == url_parse(input@),
        r matches Ok(u) ==> url_wf(u@),
{
    url::Url::parse(input).map(|u| ParsedUrl {
            href: u.as_str().to_string(),
            scheme: u.scheme().to_string(),
            username: u.username().to_string(),
            has_password: u.password().is_some(),
            cannot_be_a_base: u.cannot_be_a_base(),
            path: u.path().to_string(),
            inner: u,
        }).map_err(|e| UrlError {
        relative_without_base: e == url::ParseError::RelativeUrlWithoutBase,
        message: e.to_string(),
    })
}

/// What `url::Url::join` yields for a base and a relative reference.
pub uninterp spec fn url_join(base: UrlView, input: Seq<char>) -> Result<UrlView, UrlErrorView>;

/// Resolves `input` against `base` with `url::Url::join`; the outcome is
/// exactly what that function yields.
#[verifier::external_body]
pub(crate) fn join_url(base: &ParsedUrl, input: &str) -> (r: Result<ParsedUrl, UrlError>)
    ensures
        url_result_view(r) == url_join(base@, input@),
        r matches Ok(u) ==> url_wf(u@),
{
    base.inner.join(input).map(|u| ParsedUrl {
            href: u.as_str().to_string(),
            scheme: u.scheme().to_string(),
            username: u.username().to_string(),
            has_password: u.password().is_some(),
            cannot_be_a_base: u.cannot_be_a_base(),
            path: u.path().to_string(),
            inner: u,
        }).map_err(|e| UrlError {
        relative_without_base: e == url::ParseError::RelativeUrlWithoutBase,
        message: e.to_string(),
    })
}

/// What a URL becomes when its last path segment is made empty: an empty
/// last segment is dropped and an empty one pushed
/// (`path_segments_mut().pop_if_empty().push("")`).
pub uninterp spec fn url_with_trailing_slash(u: UrlView) -> UrlView;

/// Gives `url` a path that ends in `/` so that joining treats it as a
/// directory, through the `url` crate's path-segment editor. That editor
/// exists only for URLs that can be a base.
#[verifier::external_body]
pub(crate) fn with_trailing_slash(url: ParsedUrl) -> (r: ParsedUrl)
    requires
        !url@.cannot_be_a_base,
    ensures
        r@ == url_with_trailing_slash(url@),
        url_wf(r@),
{
    let mut u = url.inner;
    {
        let mut segments = u.path_segments_mut().expect("checked by the caller");
        segments.pop_if_empty();
        segments.push("");
    }
    ParsedUrl {
            href: u.as_str().to_string(),
            scheme: u.scheme().to_string(),
            username: u.username().to_string(),
            has_password: u.password().is_some(),
            cannot_be_a_base: u.cannot_be_a_base(),
            path: u.path().to_string(),
            inner: u,
        }
}

/// What a URL becomes with its path replaced (`url::Url::set_path`).
pub uninterp spec fn url_with_path(u: UrlView, path: Seq<char>) -> UrlView;

/// Replaces the path of `url` with `url::Url::set_path`.
#[verifier::external_body]
pub(crate) fn set_path(url: ParsedUrl, path: &str) -> (r: ParsedUrl)
    ensures
        r@ == url_with_path(url@, path@),
        url_wf(r@),
{
    let mut u = url.inner;
    u.set_path(path);
    ParsedUrl {
            href: u.as_str().to_string(),
            scheme: u.scheme().to_string(),
            username: u.username().to_string(),
            has_password: u.password().is_some(),
            cannot_be_a_base: u.cannot_be_a_base(),
            path: u.path().to_string(),
            inner: u,
        }
}

} // verus!
