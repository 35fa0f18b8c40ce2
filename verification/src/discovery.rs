//! Discovery of an index server's two roots through
//! `<discovery root>/sysand-index-config.json`: where `index.json` lives and
//! where the upload API lives. Fetching the document is left to the caller;
//! this module decides what the answer means.

use vstd::prelude::*;

use crate::http_index::{
    FetchErrorView, HttpFetchError, fetch_error_message, index_file, iri_path_segments, kpar_file, meta_json_file,
    project_json_file, route_segments, string_views, versions_file,
};
use crate::index_location::{
    IndexLocation, IndexLocationError, LocationErrorView, LocationView, ResolveErrorView,
    ResolveUrlError, is_template_syntax, location_outcome,
    resolve_outcome, resolved_view,
};
use crate::text::{chars_of, concat_chars, join_strs, joined, str_equal, str_views, string_from_chars};
use crate::url_model::{
    ParsedUrl, UrlError, UrlErrorView, UrlView, http_text, https_text, parse_url, url_parse, url_with_trailing_slash, with_trailing_slash,
};

verus! {

/// What is wrong with the shape of a URL meant as an HTTP base.
#[derive(Debug, Clone, Copy, PartialEq, Eq, Structural)]
pub enum HttpBaseUrlShapeError {
    /// The scheme is neither `http` nor `https`.
    UnsupportedScheme,
    /// The URL carries a user name or password.
    Userinfo,
}

/// The shape problem of a URL meant as an HTTP base, if any.
pub open spec fn base_shape(u: UrlView) -> Option<HttpBaseUrlShapeError> {
    if u.scheme != http_text() && u.scheme != https_text() {
        Some(HttpBaseUrlShapeError::UnsupportedScheme)
    } else if u.username.len() != 0 || u.has_password {
        Some(HttpBaseUrlShapeError::Userinfo)
    } else {
        None
    }
}

/// Checks that a URL is an `http` or `https` URL without userinfo.
pub fn validate_http_base_url_shape(url: &ParsedUrl) -> (r: Result<(), HttpBaseUrlShapeError>)
    ensures
        match base_shape(url@) {
            Some(e) => r == Err::<(), HttpBaseUrlShapeError>(e),
            None => r is Ok,
        },
{
    proof {
        reveal_strlit("http");
        reveal_strlit("https");
        assert("http"@ =~= http_text());
        assert("https"@ =~= https_text());
    }
    if !str_equal(url.scheme(), "http") && !str_equal(url.scheme(), "https") {
        return Err(HttpBaseUrlShapeError::UnsupportedScheme);
    }
    if !url.username().is_empty() || url.has_password() {
        return Err(HttpBaseUrlShapeError::Userinfo);
    }
    Ok(())
}

/// Which value a discovery error is about.
#[derive(Debug, Clone, Copy, PartialEq, Eq, Structural)]
pub enum DiscoveryField {
    /// The configured discovery root itself.
    DiscoveryRoot,
    /// The document's `index_root`.
    IndexRoot,
    /// The document's `api_root`.
    ApiRoot,
}

/// Why discovery failed.
pub enum DiscoveryError {
    /// The discovery document could not be fetched.
    Fetch(HttpFetchError),
    /// A field holds a relative URL.
    RelativeUrl { url: String, field: DiscoveryField, value: String },
    /// A field holds a URL the `url` crate refuses.
    InvalidUrl { url: String, field: DiscoveryField, value: String, source: UrlError },
    /// A field holds a URL that is not `http` or `https`.
    UnsupportedScheme { url: String, field: DiscoveryField, value: String },
    /// A field holds a URL with userinfo.
    Userinfo { url: String, field: DiscoveryField, value: String },
    /// The `index_root` template is not a valid index location.
    InvalidLocation { url: String, field: DiscoveryField, source: IndexLocationError },
    /// The discovery root cannot locate the discovery document.
    InvalidDiscoveryRoot { location: String, source: ResolveUrlError },
}

/// The plain content of a [`DiscoveryError`].
pub enum DiscoveryErrorView {
    Fetch(FetchErrorView),
    RelativeUrl { url: Seq<char>, field: DiscoveryField, value: Seq<char> },
    InvalidUrl { url: Seq<char>, field: DiscoveryField, value: Seq<char>, source: UrlErrorView },
    UnsupportedScheme { url: Seq<char>, field: DiscoveryField, value: Seq<char> },
    Userinfo { url: Seq<char>, field: DiscoveryField, value: Seq<char> },
    InvalidLocation { url: Seq<char>, field: DiscoveryField, source: LocationErrorView },
    InvalidDiscoveryRoot { location: Seq<char>, source: ResolveErrorView },
}

/// The name of a discovery field as messages spell it.
pub open spec fn discovery_field_name(f: DiscoveryField) -> Seq<char> {
    match f {
        DiscoveryField::DiscoveryRoot => "<discovery_root>"@,
        DiscoveryField::IndexRoot => "index_root"@,
        DiscoveryField::ApiRoot => "api_root"@,
    }
}

/// The message of a discovery error.
pub open spec fn discovery_error_message(e: DiscoveryErrorView) -> Seq<char> {
    match e {
        DiscoveryErrorView::RelativeUrl { url, field, value } => joined(seq!["discovery document at `"@, url, "` supplied a relative URL `"@, value, "` for `"@, discovery_field_name(field), "`; absolute HTTP(S) URLs are required"@]),
        DiscoveryErrorView::InvalidUrl { url, field, value, source } => joined(seq!["discovery document at `"@, url, "` supplied an invalid URL `"@, value, "` for `"@, discovery_field_name(field), "`: "@, source.message]),
        DiscoveryErrorView::UnsupportedScheme { url, field, value } => joined(seq!["discovery document at `"@, url, "` supplied a non-HTTP(S) URL `"@, value, "` for `"@, discovery_field_name(field), "`; only `http` and `https` are supported"@]),
        DiscoveryErrorView::Userinfo { url, field, value } => joined(seq!["discovery document at `"@, url, "` supplied URL userinfo in `"@, value, "` for `"@, discovery_field_name(field), "`; username and password are not allowed"@]),
        DiscoveryErrorView::InvalidLocation { url, field, .. } => joined(seq!["discovery document at `"@, url, "` supplied an invalid `"@, discovery_field_name(field), "`"@]),
        DiscoveryErrorView::InvalidDiscoveryRoot { location, .. } => joined(seq!["index location `"@, location, "` is not a valid discovery root"@]),
        DiscoveryErrorView::Fetch(f) => fetch_error_message(f),
    }
}

impl DiscoveryError {
    /// The error's message.
    pub fn message(&self) -> (r: String)
        ensures
            r@ == discovery_error_message(self@),
    {
        match self {
            DiscoveryError::RelativeUrl { url, field, value } => {
                let name = match field {
                    DiscoveryField::DiscoveryRoot => "<discovery_root>",
                    DiscoveryField::IndexRoot => "index_root",
                    DiscoveryField::ApiRoot => "api_root",
                };
                let parts = vec!["discovery document at `", url.as_str(), "` supplied a relative URL `", value.as_str(), "` for `", name, "`; absolute HTTP(S) URLs are required"];
                assert(str_views(parts@) =~= seq!["discovery document at `"@, url@, "` supplied a relative URL `"@, value@, "` for `"@, discovery_field_name(*field), "`; absolute HTTP(S) URLs are required"@]);
                join_strs(&parts)
            },
            DiscoveryError::InvalidUrl { url, field, value, source } => {
                let name = match field {
                    DiscoveryField::DiscoveryRoot => "<discovery_root>",
                    DiscoveryField::IndexRoot => "index_root",
                    DiscoveryField::ApiRoot => "api_root",
                };
                let parts = vec!["discovery document at `", url.as_str(), "` supplied an invalid URL `", value.as_str(), "` for `", name, "`: ", source.message.as_str()];
                assert(str_views(parts@) =~= seq!["discovery document at `"@, url@, "` supplied an invalid URL `"@, value@, "` for `"@, discovery_field_name(*field), "`: "@, source@.message]);
                join_strs(&parts)
            },
            DiscoveryError::UnsupportedScheme { url, field, value } => {
                let name = match field {
                    DiscoveryField::DiscoveryRoot => "<discovery_root>",
                    DiscoveryField::IndexRoot => "index_root",
                    DiscoveryField::ApiRoot => "api_root",
                };
                let parts = vec!["discovery document at `", url.as_str(), "` supplied a non-HTTP(S) URL `", value.as_str(), "` for `", name, "`; only `http` and `https` are supported"];
                assert(str_views(parts@) =~= seq!["discovery document at `"@, url@, "` supplied a non-HTTP(S) URL `"@, value@, "` for `"@, discovery_field_name(*field), "`; only `http` and `https` are supported"@]);
                join_strs(&parts)
            },
            DiscoveryError::Userinfo { url, field, value } => {
                let name = match field {
                    DiscoveryField::DiscoveryRoot => "<discovery_root>",
                    DiscoveryField::IndexRoot => "index_root",
                    DiscoveryField::ApiRoot => "api_root",
                };
                let parts = vec!["discovery document at `", url.as_str(), "` supplied URL userinfo in `", value.as_str(), "` for `", name, "`; username and password are not allowed"];
                assert(str_views(parts@) =~= seq!["discovery document at `"@, url@, "` supplied URL userinfo in `"@, value@, "` for `"@, discovery_field_name(*field), "`; username and password are not allowed"@]);
                join_strs(&parts)
            },
            DiscoveryError::InvalidLocation { url, field, .. } => {
                let name = match field {
                    DiscoveryField::DiscoveryRoot => "<discovery_root>",
                    DiscoveryField::IndexRoot => "index_root",
                    DiscoveryField::ApiRoot => "api_root",
                };
                let parts = vec!["discovery document at `", url.as_str(), "` supplied an invalid `", name, "`"];
                assert(str_views(parts@) =~= seq!["discovery document at `"@, url@, "` supplied an invalid `"@, discovery_field_name(*field), "`"@]);
                join_strs(&parts)
            },
            DiscoveryError::InvalidDiscoveryRoot { location, .. } => {
                let parts = vec!["index location `", location.as_str(), "` is not a valid discovery root"];
                assert(str_views(parts@) =~= seq!["index location `"@, location@, "` is not a valid discovery root"@]);
                join_strs(&parts)
            },
            DiscoveryError::Fetch(f) => f.message(),
        }
    }
}

impl View for DiscoveryError {
    type V = DiscoveryErrorView;

    open spec fn view(&self) -> DiscoveryErrorView {
        match self {
            DiscoveryError::Fetch(e) => DiscoveryErrorView::Fetch(e@),
            DiscoveryError::RelativeUrl { url, field, value } => DiscoveryErrorView::RelativeUrl {
                url: url@,
                field: *field,
                value: value@,
            },
            DiscoveryError::InvalidUrl { url, field, value, source } =>
                DiscoveryErrorView::InvalidUrl {
                url: url@,
                field: *field,
                value: value@,
                source: source@,
            },
            DiscoveryError::UnsupportedScheme { url, field, value } =>
                DiscoveryErrorView::UnsupportedScheme { url: url@, field: *field, value: value@ },
            DiscoveryError::Userinfo { url, field, value } => DiscoveryErrorView::Userinfo {
                url: url@,
                field: *field,
                value: value@,
            },
            DiscoveryError::InvalidLocation { url, field, source } =>
                DiscoveryErrorView::InvalidLocation { url: url@, field: *field, source: source@ },
            DiscoveryError::InvalidDiscoveryRoot { location, source } =>
                DiscoveryErrorView::InvalidDiscoveryRoot { location: location@, source: source@ },
        }
    }
}

/// The discovery error for a URL of the wrong shape.
pub open spec fn shape_error_view(
    source_url: Seq<char>,
    field: DiscoveryField,
    value: Seq<char>,
    e: HttpBaseUrlShapeError,
) -> DiscoveryErrorView {
    match e {
        HttpBaseUrlShapeError::UnsupportedScheme => DiscoveryErrorView::UnsupportedScheme {
            url: source_url,
            field,
            value,
        },
        HttpBaseUrlShapeError::Userinfo => DiscoveryErrorView::Userinfo {
            url: source_url,
            field,
            value,
        },
    }
}

/// The discovery error for a URL of the wrong shape.
pub fn discovery_shape_error(
    source_url: &ParsedUrl,
    field: DiscoveryField,
    value: &ParsedUrl,
    error: HttpBaseUrlShapeError,
) -> (r: DiscoveryError)
    ensures
        r@ == shape_error_view(source_url@.href, field, value@.href, error),
{
    match error {
        HttpBaseUrlShapeError::UnsupportedScheme => DiscoveryError::UnsupportedScheme {
            url: source_url.as_str().to_string(),
            field,
            value: value.as_str().to_string(),
        },
        HttpBaseUrlShapeError::Userinfo => DiscoveryError::Userinfo {
            url: source_url.as_str().to_string(),
            field,
            value: value.as_str().to_string(),
        },
    }
}

/// `sysand-index-config.json`.
pub open spec fn config_file() -> Seq<char> {
    seq![
        's', 'y', 's', 'a', 'n', 'd', '-', 'i', 'n', 'd', 'e', 'x', '-', 'c', 'o', 'n', 'f', 'i',
        'g', '.', 'j', 's', 'o', 'n',
    ]
}

/// What a discovery root becomes before the discovery document is fetched:
/// a plain root must be an HTTP base and is made a directory; a template is
/// kept (it was checked when parsed).
pub open spec fn discovery_location_outcome(root: LocationView) -> Result<
    LocationView,
    DiscoveryErrorView,
> {
    match root {
        LocationView::Root(u) => match base_shape(u) {
            Some(e) => Err(shape_error_view(u.href, DiscoveryField::DiscoveryRoot, u.href, e)),
            None => Ok(LocationView::Root(url_with_trailing_slash(u))),
        },
        LocationView::Template(t) => Ok(LocationView::Template(t)),
    }
}

/// The plain content of a location result of discovery.
pub open spec fn discovered_location_view(r: Result<IndexLocation, DiscoveryError>) -> Result<
    LocationView,
    DiscoveryErrorView,
> {
    match r {
        Ok(l) => Ok(l@),
        Err(e) => Err(e@),
    }
}

/// Normalizes a discovery root before any request is made.
pub fn discovery_location(discovery_root: &IndexLocation) -> (r: Result<
    IndexLocation,
    DiscoveryError,
>)
    ensures
        discovered_location_view(r) == discovery_location_outcome(discovery_root@),
{
    match discovery_root {
        IndexLocation::Root(root) => {
            match validate_http_base_url_shape(root) {
                Err(error) => Err(
                    discovery_shape_error(root, DiscoveryField::DiscoveryRoot, root, error),
                ),
                Ok(()) => {
                    proof {
                        use_type_invariant(root);
                    }
                    Ok(IndexLocation::Root(with_trailing_slash(root.duplicate())))
                },
            }
        },
        IndexLocation::Template(t) => Ok(IndexLocation::Template(t.duplicate())),
    }
}

/// The URL of the discovery document under a (normalized) discovery root.
pub fn config_url(location: &IndexLocation) -> (r: Result<ParsedUrl, DiscoveryError>)
    ensures
        match resolve_outcome(location@, config_file()) {
            Ok(u) => r is Ok && r->Ok_0@ == u,
            Err(e) => r is Err && r->Err_0@ == DiscoveryErrorView::InvalidDiscoveryRoot {
                location: match location@ {
                    LocationView::Root(u) => u.href,
                    LocationView::Template(t) => t.raw,
                },
                source: e,
            },
        },
{
    proof {
        reveal_strlit("sysand-index-config.json");
        assert("sysand-index-config.json"@ =~= config_file());
    }
    match location.resolve("sysand-index-config.json") {
        Ok(u) => Ok(u),
        Err(source) => Err(
            DiscoveryError::InvalidDiscoveryRoot { location: location.to_string(), source },
        ),
    }
}

/// The discovery document: optional `index_root` and `api_root`.
pub struct IndexConfigRaw {
    pub index_root: Option<String>,
    pub api_root: Option<String>,
}

/// The plain content of a discovery document.
pub struct IndexConfigView {
    pub index_root: Option<Seq<char>>,
    pub api_root: Option<Seq<char>>,
}

/// The plain content of an optional string.
pub open spec fn opt_view(o: Option<String>) -> Option<Seq<char>> {
    match o {
        Some(s) => Some(s@),
        None => None,
    }
}

impl View for IndexConfigRaw {
    type V = IndexConfigView;

    open spec fn view(&self) -> IndexConfigView {
        IndexConfigView { index_root: opt_view(self.index_root), api_root: opt_view(self.api_root) }
    }
}

/// The two roots of an index server after discovery.
pub struct ResolvedEndpoints {
    /// Where `index.json` lives: a base URL or a URL template.
    pub index_root: IndexLocation,
    /// Where the upload API lives; `None` for an index reached through a
    /// template whose discovery document names no API: such an index is
    /// read-only.
    pub api_root: Option<ParsedUrl>,
}

/// The plain content of resolved endpoints.
pub struct EndpointsView {
    pub index_root: LocationView,
    pub api_root: Option<UrlView>,
}

impl View for ResolvedEndpoints {
    type V = EndpointsView;

    open spec fn view(&self) -> EndpointsView {
        EndpointsView {
            index_root: self.index_root@,
            api_root: match self.api_root {
                Some(u) => Some(u@),
                None => None,
            },
        }
    }
}

/// Endpoints that send everything to the discovery root itself: its plain
/// URL serves both the index and the API; a template serves the index only.
pub open spec fn flat_view(l: LocationView) -> EndpointsView {
    EndpointsView {
        index_root: l,
        api_root: match l {
            LocationView::Root(u) => Some(u),
            LocationView::Template(_) => None,
        },
    }
}

/// What a field of the discovery document becomes when read as a plain
/// base URL, given what `url::Url::parse` made of it.
pub open spec fn base_url_outcome(
    config: Seq<char>,
    field: DiscoveryField,
    s: Seq<char>,
    parsed: Result<UrlView, UrlErrorView>,
) -> Result<UrlView, DiscoveryErrorView> {
    match parsed {
        Err(e) => if e.relative_without_base {
            Err(DiscoveryErrorView::RelativeUrl { url: config, field, value: s })
        } else {
            Err(DiscoveryErrorView::InvalidUrl { url: config, field, value: s, source: e })
        },
        Ok(u) => match base_shape(u) {
            Some(err) => Err(shape_error_view(config, field, u.href, err)),
            None => Ok(url_with_trailing_slash(u)),
        },
    }
}

/// What the `index_root` field makes the index location.
pub open spec fn index_root_outcome(config: Seq<char>, loc: LocationView, field: Option<Seq<char>>) -> Result<
    LocationView,
    DiscoveryErrorView,
> {
    match field {
        None => Ok(loc),
        Some(s) => if s.contains('{') || s.contains('}') {
            match location_outcome(s) {
                Ok(l) => Ok(l),
                Err(e) => Err(
                    DiscoveryErrorView::InvalidLocation {
                        url: config,
                        field: DiscoveryField::IndexRoot,
                        source: e,
                    },
                ),
            }
        } else {
            match base_url_outcome(config, DiscoveryField::IndexRoot, s, url_parse(s)) {
                Ok(u) => Ok(LocationView::Root(u)),
                Err(e) => Err(e),
            }
        },
    }
}

/// What the `api_root` field makes the API root.
pub open spec fn api_root_outcome(config: Seq<char>, loc: LocationView, field: Option<Seq<char>>) -> Result<
    Option<UrlView>,
    DiscoveryErrorView,
> {
    match field {
        Some(s) => match base_url_outcome(config, DiscoveryField::ApiRoot, s, url_parse(s)) {
            Ok(u) => Ok(Some(u)),
            Err(e) => Err(e),
        },
        None => match loc {
            LocationView::Root(u) => Ok(Some(u)),
            LocationView::Template(_) => Ok(None),
        },
    }
}

/// What discovery yields given the discovery document: without one the
/// roots are flat; otherwise `index_root` is read first, then `api_root`.
pub open spec fn endpoints_outcome(
    config: Seq<char>,
    loc: LocationView,
    raw: Option<IndexConfigView>,
) -> Result<EndpointsView, DiscoveryErrorView> {
    match raw {
        None => Ok(flat_view(loc)),
        Some(c) => match index_root_outcome(config, loc, c.index_root) {
            Err(e) => Err(e),
            Ok(index_root) => match api_root_outcome(config, loc, c.api_root) {
                Err(e) => Err(e),
                Ok(api_root) => Ok(EndpointsView { index_root, api_root }),
            },
        },
    }
}

/// Where uploads go when the discovery document names no `api_root` (or
/// there is no document): to the discovery root itself when it is a plain
/// URL; an index reached through a URL template has no API root. With no
/// `index_root` either, discovery succeeds and the index stays at the
/// discovery location.
pub proof fn lemma_api_root_defaults_to_plain_discovery_root(
    config: Seq<char>,
    loc: LocationView,
    raw: Option<IndexConfigView>,
)
    requires
        raw is None || raw->Some_0.api_root is None,
    ensures
        endpoints_outcome(config, loc, raw) matches Ok(e) ==> match loc {
            LocationView::Root(u) => e.api_root == Some(u),
            LocationView::Template(_) => e.api_root is None,
        },
        raw is None || raw->Some_0.index_root is None ==> (endpoints_outcome(config, loc, raw)
            matches Ok(e) && e.index_root == loc),
{
}

/// A document's `index_root` written with template syntax that parses as an
/// index location is where the index is read from: the resolved index root
/// is that location, never the discovery location it replaces; with no
/// `api_root` beside it, discovery succeeds.
pub proof fn lemma_template_index_root_is_used(
    config: Seq<char>,
    loc: LocationView,
    c: IndexConfigView,
    s: Seq<char>,
    l: LocationView,
)
    requires
        c.index_root == Some(s),
        s.contains('{') || s.contains('}'),
        location_outcome(s) == Ok::<LocationView, LocationErrorView>(l),
    ensures
        endpoints_outcome(config, loc, Some(c)) matches Ok(e) ==> e.index_root == l,
        c.api_root is None ==> (endpoints_outcome(config, loc, Some(c)) matches Ok(e)
            && e.index_root == l),
{
}

/// The plain content of a discovery result.
pub open spec fn endpoints_result_view(r: Result<ResolvedEndpoints, DiscoveryError>) -> Result<
    EndpointsView,
    DiscoveryErrorView,
> {
    match r {
        Ok(e) => Ok(e@),
        Err(e) => Err(e@),
    }
}

/// Reads a field of the discovery document as a plain base URL.
fn parse_base_url(config_url: &ParsedUrl, field: DiscoveryField, s: String) -> (r: Result<
    ParsedUrl,
    DiscoveryError,
>)
    ensures
        match r {
            Ok(u) => base_url_outcome(config_url@.href, field, s@, url_parse(s@)) == Ok::<
                UrlView,
                DiscoveryErrorView,
            >(u@),
            Err(e) => base_url_outcome(config_url@.href, field, s@, url_parse(s@)) == Err::<
                UrlView,
                DiscoveryErrorView,
            >(e@),
        },
{
    let parsed = match parse_url(s.as_str()) {
        Ok(p) => p,
        Err(source) => {
            if source.relative_without_base {
                return Err(
                    DiscoveryError::RelativeUrl {
                        url: config_url.as_str().to_string(),
                        field,
                        value: s,
                    },
                );
            } else {
                return Err(
                    DiscoveryError::InvalidUrl {
                        url: config_url.as_str().to_string(),
                        field,
                        value: s,
                        source,
                    },
                );
            }
        },
    };
    match validate_http_base_url_shape(&parsed) {
        Err(error) => Err(discovery_shape_error(config_url, field, &parsed, error)),
        Ok(()) => {
            proof {
                use_type_invariant(&parsed);
            }
            Ok(with_trailing_slash(parsed))
        },
    }
}

impl ResolvedEndpoints {
    /// Endpoints that send index traffic, and for a plain URL the API
    /// traffic too, to the discovery root itself.
    pub fn flat(discovery_root: IndexLocation) -> (r: ResolvedEndpoints)
        ensures
            r@ == flat_view(discovery_root@),
    {
        let api_root = match discovery_root.as_root() {
            Some(u) => Some(u.duplicate()),
            None => None,
        };
        ResolvedEndpoints { index_root: discovery_root, api_root }
    }

    /// Decides the two roots from the discovery document fetched from
    /// `config_url`, or from its absence.
    pub fn from_config(
        config_url: &ParsedUrl,
        discovery_location: IndexLocation,
        raw: Option<IndexConfigRaw>,
    ) -> (r: Result<ResolvedEndpoints, DiscoveryError>)
        ensures
            endpoints_result_view(r) == endpoints_outcome(
                config_url@.href,
                discovery_location@,
                match raw {
                    Some(c) => Some(c@),
                    None => None,
                },
            ),
    {
        let raw = match raw {
            None => return Ok(Self::flat(discovery_location)),
            Some(c) => c,
        };
        let index_root = match raw.index_root {
            None => discovery_location.duplicate(),
            Some(s) => {
                if is_template_syntax(s.as_str()) {
                    match IndexLocation::parse(s.as_str()) {
                        Ok(l) => l,
                        Err(source) => {
                            return Err(
                                DiscoveryError::InvalidLocation {
                                    url: config_url.as_str().to_string(),
                                    field: DiscoveryField::IndexRoot,
                                    source,
                                },
                            );
                        },
                    }
                } else {
                    match parse_base_url(config_url, DiscoveryField::IndexRoot, s) {
                        Ok(u) => IndexLocation::Root(u),
                        Err(e) => return Err(e),
                    }
                }
            },
        };
        let api_root = match raw.api_root {
            Some(s) => match parse_base_url(config_url, DiscoveryField::ApiRoot, s) {
                Ok(u) => Some(u),
                Err(e) => return Err(e),
            },
            None => match discovery_location {
                IndexLocation::Root(u) => Some(u),
                IndexLocation::Template(_) => None,
            },
        };
        Ok(ResolvedEndpoints { index_root, api_root })
    }
}

/// The path of a project's directory relative to the index root, without a
/// trailing slash: `<publisher>/<name>` or `_iri/<sha256 hex>`.
pub open spec fn project_rel_path(iri: Seq<char>) -> Seq<char> {
    route_segments(iri)[0] + seq!['/'] + route_segments(iri)[1]
}

/// The relative path of a file in the directory of one version.
pub open spec fn version_rel_path(iri: Seq<char>, version: Seq<char>, file: Seq<char>) -> Seq<char> {
    project_rel_path(iri) + seq!['/'] + version + seq!['/'] + file
}

/// The relative path of a project's directory.
fn rel_path_of(iri: &str) -> (r: Vec<char>)
    ensures
        r@ == project_rel_path(iri@),
{
    let segs = iri_path_segments(iri);
    assert(route_segments(iri@).len() == 2);
    assert(segs@.len() == 2);
    assert(string_views(segs@)[0] == segs@[0]@);
    assert(string_views(segs@)[1] == segs@[1]@);
    let mut out = chars_of(segs[0].as_str());
    out.push('/');
    let out = concat_chars(&out, &chars_of(segs[1].as_str()));
    out
}

/// `<project>/<version>/<file>`.
fn version_rel_path_of(iri: &str, version: &str, file: &str) -> (r: String)
    ensures
        r@ == version_rel_path(iri@, version@, file@),
{
    let mut p = rel_path_of(iri);
    p.push('/');
    let mut p = concat_chars(&p, &chars_of(version));
    p.push('/');
    let p = concat_chars(&p, &chars_of(file));
    string_from_chars(p.as_slice())
}

impl ResolvedEndpoints {
    /// `index.json` of the index.
    pub fn index_url(&self) -> (r: Result<ParsedUrl, ResolveUrlError>)
        ensures
            resolved_view(r) == resolve_outcome(self.index_root@, index_file()),
    {
        proof {
            reveal_strlit("index.json");
            assert("index.json"@ =~= index_file());
        }
        self.index_root.resolve("index.json")
    }

    /// The archive of one version of a project.
    pub fn kpar_url(&self, iri: &str, version: &str) -> (r: Result<ParsedUrl, ResolveUrlError>)
        ensures
            resolved_view(r) == resolve_outcome(
                self.index_root@,
                version_rel_path(iri@, version@, kpar_file()),
            ),
    {
        proof {
            reveal_strlit("project.kpar");
            assert("project.kpar"@ =~= kpar_file());
        }
        let rel = version_rel_path_of(iri, version, "project.kpar");
        self.index_root.resolve(rel.as_str())
    }

    /// The `.project.json` of one version of a project.
    pub fn project_json_url(&self, iri: &str, version: &str) -> (r: Result<
        ParsedUrl,
        ResolveUrlError,
    >)
        ensures
            resolved_view(r) == resolve_outcome(
                self.index_root@,
                version_rel_path(iri@, version@, project_json_file()),
            ),
    {
        proof {
            reveal_strlit(".project.json");
            assert(".project.json"@ =~= project_json_file());
        }
        let rel = version_rel_path_of(iri, version, ".project.json");
        self.index_root.resolve(rel.as_str())
    }

    /// The `.meta.json` of one version of a project.
    pub fn meta_json_url(&self, iri: &str, version: &str) -> (r: Result<ParsedUrl, ResolveUrlError>)
        ensures
            resolved_view(r) == resolve_outcome(
                self.index_root@,
                version_rel_path(iri@, version@, meta_json_file()),
            ),
    {
        proof {
            reveal_strlit(".meta.json");
            assert(".meta.json"@ =~= meta_json_file());
        }
        let rel = version_rel_path_of(iri, version, ".meta.json");
        self.index_root.resolve(rel.as_str())
    }

    /// The `versions.json` of a project.
    pub fn versions_url(&self, iri: &str) -> (r: Result<ParsedUrl, ResolveUrlError>)
        ensures
            resolved_view(r) == resolve_outcome(
                self.index_root@,
                project_rel_path(iri@) + seq!['/'] + versions_file(),
            ),
    {
        proof {
            reveal_strlit("versions.json");
            assert("versions.json"@ =~= versions_file());
        }
        let mut p = rel_path_of(iri);
        p.push('/');
        let p = concat_chars(&p, &chars_of("versions.json"));
        assert(p@ =~= project_rel_path(iri@) + seq!['/'] + versions_file());
        let rel = string_from_chars(p.as_slice());
        self.index_root.resolve(rel.as_str())
    }
}

} // verus!
