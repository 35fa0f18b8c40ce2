//! A project selected out of an index's `versions.json`, and the checks
//! that reconcile what the index advertised with what is later fetched:
//! `versions.json` is authoritative for solving, so a `.project.json` or a
//! digest that disagrees with it is refused.

use vstd::prelude::*;

use crate::http_index::{AdvertisedVersion, FetchErrorView, HttpFetchError};
use crate::index_store::UsageRaw;
use crate::text::str_equal;
use crate::versions::version_text;

verus! {

/// Which advertised field a fetched `.project.json` contradicts.
#[derive(Debug, Clone, Copy, PartialEq, Eq, Structural)]
pub enum DriftField {
    /// `version`.
    Version,
    /// `usage`.
    Usage,
}

/// The value of a drifted field: the version text, or the list of usages
/// (rendered as JSON where the error is shown).
pub enum DriftValue {
    Text(String),
    Usages(Vec<UsageRaw>),
}

/// The plain content of a [`DriftValue`].
pub enum DriftValueView {
    Text(Seq<char>),
    Usages(Seq<UsageRaw>),
}

impl View for DriftValue {
    type V = DriftValueView;

    open spec fn view(&self) -> DriftValueView {
        match self {
            DriftValue::Text(t) => DriftValueView::Text(t@),
            DriftValue::Usages(us) => DriftValueView::Usages(us@),
        }
    }
}

/// Why a project selected out of an index cannot be used.
pub enum IndexedRemoteProjectError {
    /// A per-version document could not be fetched.
    Fetch(HttpFetchError),
    /// The fetched `.project.json` disagrees with `versions.json` on a field.
    AdvertisedMetadataDrift {
        url: String,
        field: DriftField,
        advertised: DriftValue,
        fetched: DriftValue,
    },
    /// The digest computed from the fetched project differs from the
    /// advertised one.
    AdvertisedDigestDrift { url: String, expected: String, computed: String },
}

/// The plain content of an [`IndexedRemoteProjectError`].
pub enum RemoteErrorView {
    Fetch(FetchErrorView),
    AdvertisedMetadataDrift {
        url: Seq<char>,
        field: DriftField,
        advertised: DriftValueView,
        fetched: DriftValueView,
    },
    AdvertisedDigestDrift { url: Seq<char>, expected: Seq<char>, computed: Seq<char> },
}

impl View for IndexedRemoteProjectError {
    type V = RemoteErrorView;

    open spec fn view(&self) -> RemoteErrorView {
        match self {
            IndexedRemoteProjectError::Fetch(e) => RemoteErrorView::Fetch(e@),
            IndexedRemoteProjectError::AdvertisedMetadataDrift {
                url,
                field,
                advertised,
                fetched,
            } => RemoteErrorView::AdvertisedMetadataDrift {
                url: url@,
                field: *field,
                advertised: advertised@,
                fetched: fetched@,
            },
            IndexedRemoteProjectError::AdvertisedDigestDrift { url, expected, computed } =>
                RemoteErrorView::AdvertisedDigestDrift {
                url: url@,
                expected: expected@,
                computed: computed@,
            },
        }
    }
}

/// The plain content of a usage.
pub struct UsageView {
    pub resource: Seq<char>,
    pub version_constraint: Option<Seq<char>>,
}

/// The plain content of a usage.
pub open spec fn usage_view(u: UsageRaw) -> UsageView {
    UsageView {
        resource: u.resource@,
        version_constraint: match u.version_constraint {
            Some(c) => Some(c@),
            None => None,
        },
    }
}

/// The plain content of a list of usages.
pub open spec fn usage_views(us: Seq<UsageRaw>) -> Seq<UsageView> {
    Seq::new(us.len(), |i: int| usage_view(us[i]))
}

pub(crate) fn usage_equal(a: &UsageRaw, b: &UsageRaw) -> (r: bool)
    ensures
        r == (usage_view(*a) == usage_view(*b)),
{
    if !str_equal(a.resource.as_str(), b.resource.as_str()) {
        return false;
    }
    match (&a.version_constraint, &b.version_constraint) {
        (None, None) => true,
        (Some(x), Some(y)) => str_equal(x.as_str(), y.as_str()),
        _ => false,
    }
}

/// Whether two lists of usages hold the same usages in the same order.
pub fn usages_equal(a: &Vec<UsageRaw>, b: &Vec<UsageRaw>) -> (r: bool)
    ensures
        r == (usage_views(a@) == usage_views(b@)),
{
    if a.len() != b.len() {
        assert(usage_views(a@).len() != usage_views(b@).len());
        return false;
    }
    let n: usize = a.len();
    let mut i: usize = 0;
    while i < n
        invariant
            n == a@.len(),
            n == b@.len(),
            i <= n,
            forall|k: int| 0 <= k < i ==> usage_view(#[trigger] a@[k]) == usage_view(b@[k]),
        decreases n - i,
    {
        if !usage_equal(&a[i], &b[i]) {
            assert(usage_views(a@)[i as int] != usage_views(b@)[i as int]);
            return false;
        }
        i = i + 1;
    }
    assert(usage_views(a@) =~= usage_views(b@));
    true
}

/// What reconciling a fetched `.project.json` (its version and usages) and
/// the digest computed from the fetched project, when one could be computed
/// before download, with the advertised entry yields: the version is
/// checked first, then the usages, then the digest.
pub open spec fn reconcile_outcome(
    url: Seq<char>,
    advertised_version: Seq<char>,
    advertised_usage: Seq<UsageRaw>,
    advertised_digest: Seq<char>,
    fetched_version: Seq<char>,
    fetched_usage: Seq<UsageRaw>,
    computed: Option<Seq<char>>,
) -> Option<RemoteErrorView> {
    if fetched_version != advertised_version {
        Some(
            RemoteErrorView::AdvertisedMetadataDrift {
                url,
                field: DriftField::Version,
                advertised: DriftValueView::Text(advertised_version),
                fetched: DriftValueView::Text(fetched_version),
            },
        )
    } else if usage_views(fetched_usage) != usage_views(advertised_usage) {
        Some(
            RemoteErrorView::AdvertisedMetadataDrift {
                url,
                field: DriftField::Usage,
                advertised: DriftValueView::Usages(advertised_usage),
                fetched: DriftValueView::Usages(fetched_usage),
            },
        )
    } else {
        match computed {
            Some(c) => if c != advertised_digest {
                Some(
                    RemoteErrorView::AdvertisedDigestDrift {
                        url,
                        expected: advertised_digest,
                        computed: c,
                    },
                )
            } else {
                None
            },
            None => None,
        }
    }
}

/// Reconciles the `.project.json` fetched from `url` with the advertised
/// entry of the selected version.
pub fn reconcile_fetched(
    url: &str,
    advertised: &AdvertisedVersion,
    fetched_version: &str,
    fetched_usage: &Vec<UsageRaw>,
    computed: Option<&str>,
) -> (r: Result<(), IndexedRemoteProjectError>)
    ensures
        match reconcile_outcome(
            url@,
            version_text(advertised@.version),
            advertised@.usage,
            advertised@.project_digest,
            fetched_version@,
            fetched_usage@,
            match computed {
                Some(c) => Some(c@),
                None => None,
            },
        ) {
            Some(e) => r is Err && r->Err_0@ == e,
            None => r is Ok,
        },
{
    let advertised_version = advertised.version.to_text();
    if !str_equal(fetched_version, advertised_version.as_str()) {
        return Err(
            IndexedRemoteProjectError::AdvertisedMetadataDrift {
                url: url.to_string(),
                field: DriftField::Version,
                advertised: DriftValue::Text(advertised_version),
                fetched: DriftValue::Text(fetched_version.to_string()),
            },
        );
    }
    if !usages_equal(fetched_usage, &advertised.usage) {
        return Err(
            IndexedRemoteProjectError::AdvertisedMetadataDrift {
                url: url.to_string(),
                field: DriftField::Usage,
                advertised: DriftValue::Usages(copy_usages(&advertised.usage)),
                fetched: DriftValue::Usages(copy_usages(fetched_usage)),
            },
        );
    }
    match computed {
        Some(c) => {
            if !str_equal(c, advertised.project_digest.as_hex()) {
                return Err(
                    IndexedRemoteProjectError::AdvertisedDigestDrift {
                        url: url.to_string(),
                        expected: advertised.project_digest.as_hex().to_string(),
                        computed: c.to_string(),
                    },
                );
            }
            Ok(())
        },
        None => Ok(()),
    }
}

/// A copy of a list of usages.
pub fn copy_usages(us: &Vec<UsageRaw>) -> (r: Vec<UsageRaw>)
    ensures
        r@ == us@,
{
    let mut out: Vec<UsageRaw> = Vec::new();
    let n: usize = us.len();
    let mut i: usize = 0;
    while i < n
        invariant
            n == us@.len(),
            i <= n,
            out@ == us@.take(i as int),
        decreases n - i,
    {
        let u = &us[i];
        let c = UsageRaw {
            resource: u.resource.clone(),
            version_constraint: match &u.version_constraint {
                Some(v) => Some(v.clone()),
                None => None,
            },
        };
        out.push(c);
        i = i + 1;
        assert(out@ =~= us@.take(i as int));
    }
    assert(us@.take(n as int) =~= us@);
    out
}

/// The canonical digest of a project selected out of an index: the
/// advertised one until the archive is downloaded; afterwards the one
/// computed from the archive, which must agree with the advertised one.
pub open spec fn checksum_outcome(
    url: Seq<char>,
    advertised_digest: Seq<char>,
    downloaded: bool,
    computed: Option<Seq<char>>,
) -> Result<Option<Seq<char>>, RemoteErrorView> {
    if !downloaded {
        Ok(Some(advertised_digest))
    } else {
        match computed {
            Some(c) => if c != advertised_digest {
                Err(
                    RemoteErrorView::AdvertisedDigestDrift {
                        url,
                        expected: advertised_digest,
                        computed: c,
                    },
                )
            } else {
                Ok(Some(c))
            },
            None => Ok(None),
        }
    }
}

/// Decides the canonical digest of a project selected out of an index.
pub fn checksum_canonical_hex(
    url: &str,
    advertised: &AdvertisedVersion,
    downloaded: bool,
    computed: Option<String>,
) -> (r: Result<Option<String>, IndexedRemoteProjectError>)
    ensures
        checksum_outcome(
            url@,
            advertised@.project_digest,
            downloaded,
            match computed {
                Some(c) => Some(c@),
                None => None,
            },
        ) == match r {
            Ok(Some(s)) => Ok::<Option<Seq<char>>, RemoteErrorView>(Some(s@)),
            Ok(None) => Ok::<Option<Seq<char>>, RemoteErrorView>(None),
            Err(e) => Err::<Option<Seq<char>>, RemoteErrorView>(e@),
        },
{
    if !downloaded {
        return Ok(Some(advertised.project_digest.as_hex().to_string()));
    }
    match computed {
        Some(c) => {
            if !str_equal(c.as_str(), advertised.project_digest.as_hex()) {
                return Err(
                    IndexedRemoteProjectError::AdvertisedDigestDrift {
                        url: url.to_string(),
                        expected: advertised.project_digest.as_hex().to_string(),
                        computed: c,
                    },
                );
            }
            Ok(Some(c))
        },
        None => Ok(None),
    }
}

/// Where the sources of a project selected out of an index come from: its
/// archive, whose size the index advertised.
#[derive(Debug, Clone)]
pub struct RemoteKparSource {
    pub remote_kpar: String,
    pub remote_kpar_size: Option<u64>,
}

/// The source of a project selected out of an index, whose archive lives at
/// `kpar_url`.
pub fn remote_source(kpar_url: &str, advertised: &AdvertisedVersion) -> (r: RemoteKparSource)
    ensures
        r.remote_kpar@ == kpar_url@,
        r.remote_kpar_size == Some(advertised.kpar_size),
{
    RemoteKparSource { remote_kpar: kpar_url.to_string(), remote_kpar_size: Some(advertised.kpar_size) }
}

} // verus!
