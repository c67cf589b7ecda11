use crate::decode::client_error_status;
use crate::decode::decode_release;
use crate::decode::decode_release_list;
use crate::decode::DiagnosticsSink;
use crate::endpoint::build_release_list_url;
use crate::endpoint::build_tagged_release_url;
use crate::endpoint::tagged_url_spec;
use crate::model::GithubError;
use crate::model::GithubRelease;
use crate::model::ReleaseView;
use vstd::prelude::*;
use vstd::string::StringExecFns;

verus! {

/// One HTTP response: the status code, and the body read to its end.
pub struct HttpResponse {
    pub status: u16,
    pub body: Vec<u8>,
}

/// The HTTP collaborator: one GET against a URL, following redirects when
/// asked, yielding a status code and the whole response body, or a
/// transport-level failure described in text. The caller brings an
/// implementation; nothing is assumed of what it returns.
pub trait HttpClient {
    fn get(&self, url: &str, follow_redirects: bool) -> Result<HttpResponse, String>;
}

/// Whether a release satisfies the caller's predicates: its assets must be
/// non-empty where `require_assets` asks so, and its pre-release flag must
/// equal `pre_release`.
pub open spec fn release_matches(r: ReleaseView, require_assets: bool, pre_release: bool) -> bool {
    (!require_assets || r.assets.len() > 0) && r.pre_release == pre_release
}

/// The first release in listing order that satisfies both predicates.
pub open spec fn first_match(
    rs: Seq<ReleaseView>,
    require_assets: bool,
    pre_release: bool,
) -> Option<ReleaseView>
    decreases rs.len(),
{
    if rs.len() == 0 {
        None
    } else if release_matches(rs[0], require_assets, pre_release) {
        Some(rs[0])
    } else {
        first_match(rs.drop_first(), require_assets, pre_release)
    }
}

/// Whatever `first_match` selects satisfies both predicates.
pub proof fn lemma_first_match_matches(rs: Seq<ReleaseView>, require_assets: bool, pre_release: bool)
    ensures
        first_match(rs, require_assets, pre_release) matches Some(x) ==> release_matches(
            x,
            require_assets,
            pre_release,
        ),
    decreases rs.len(),
{
    if rs.len() > 0 {
        lemma_first_match_matches(rs.drop_first(), require_assets, pre_release);
    }
}

/// Selects the first release, in listing order, whose pre-release flag
/// matches and whose assets are non-empty where required; `NotFound` where
/// none qualifies, the empty list included.
pub fn select_release(releases: Vec<GithubRelease>, require_assets: bool, pre_release: bool) -> (r:
    Result<GithubRelease, GithubError>)
    ensures
        match r {
            Ok(rel) => first_match(releases.deep_view(), require_assets, pre_release) == Some(
                rel.deep_view(),
            ),
            Err(e) => e is NotFound && first_match(
                releases.deep_view(),
                require_assets,
                pre_release,
            ) is None,
        },
{
    let ghost all: Seq<ReleaseView> = releases.deep_view();
    proof {
        assert(all.skip(0) =~= all);
    }
    let mut rels = releases;
    let mut i: usize = 0;
    while i < rels.len()
        invariant
            i <= rels@.len(),
            all == releases.deep_view(),
            rels.deep_view() == all,
            first_match(all, require_assets, pre_release) == first_match(
                all.skip(i as int),
                require_assets,
                pre_release,
            ),
        decreases rels@.len() - i,
    {
        proof {
            assert(all.skip(i as int).len() == all.len() - i);
            assert(all.skip(i as int)[0] == all[i as int]);
        }
        let rel = &rels[i];
        let ok = (!require_assets || rel.assets.len() > 0) && rel.pre_release == pre_release;
        if ok {
            proof {
                assert(release_matches(all[i as int], require_assets, pre_release));
            }
            let found = rels.remove(i);
            return Ok(found);
        }
        proof {
            assert(!release_matches(all[i as int], require_assets, pre_release));
            assert(all.skip(i as int).drop_first() =~= all.skip(i as int + 1));
        }
        i += 1;
    }
    proof {
        assert(all.skip(i as int).len() == 0);
    }
    Err(GithubError::NotFound)
}

/// Fetches the releases of a repository and returns the first one, in API
/// listing order, that satisfies the asset and pre-release predicates.
/// Performs exactly one GET against the releases-listing endpoint, decodes
/// the response under the shared pattern, and scans linearly. Fails with
/// `TransportError` when the call itself fails, `ClientError` on a 4xx
/// status, `DecodeError` when the body is not an array of releases, and
/// `NotFound` when no release qualifies.
pub fn latest_github_release<H: HttpClient, S: DiagnosticsSink>(
    repo_name_with_owner: &str,
    require_assets: bool,
    pre_release: bool,
    http: &H,
    sink: &mut S,
) -> (r: Result<GithubRelease, GithubError>)
    ensures
        r matches Ok(rel) ==> release_matches(rel.deep_view(), require_assets, pre_release),
        r matches Err(e) ==> !(e is InvalidUrl),
        r matches Err(e) ==> (e matches GithubError::ClientError { status, .. } ==>
            client_error_status(status)),
        r matches Err(e) ==> (e matches GithubError::TransportError { context, .. } ==> context@
            == "error fetching latest release"@),
        r matches Err(e) ==> (e matches GithubError::DecodeError { context } ==> context@
            == "error deserializing latest release"@),
{
    let url = build_release_list_url(repo_name_with_owner);
    match http.get(url.as_str(), true) {
        Err(detail) => Err(
            GithubError::TransportError {
                context: String::from_str("error fetching latest release"),
                detail,
            },
        ),
        Ok(resp) => {
            let releases = match decode_release_list(
                resp.status,
                &resp.body,
                "error deserializing latest release",
                sink,
            ) {
                Ok(rels) => rels,
                Err(e) => {
                    return Err(e);
                },
            };
            let picked = select_release(releases, require_assets, pre_release);
            proof {
                if picked is Ok {
                    lemma_first_match_matches(
                        releases.deep_view(),
                        require_assets,
                        pre_release,
                    );
                }
            }
            picked
        },
    }
}

/// Fetches the one release carrying an exact tag. Builds the tag-addressed
/// URL with the tag percent-encoded as one path segment, performs one GET,
/// and decodes the response under the shared pattern; there is no filtering
/// step, and a missing tag surfaces as the 4xx `ClientError` the API
/// answers with. Fails with `InvalidUrl` exactly when the URL cannot be
/// built; the transport and decode context lines carry the tag and the
/// repository identifier.
pub fn github_release_with_tag<H: HttpClient, S: DiagnosticsSink>(
    repo_name_with_owner: &str,
    tag: &str,
    http: &H,
    sink: &mut S,
) -> (r: Result<GithubRelease, GithubError>)
    ensures
        (r matches Err(e) && e is InvalidUrl) <==> tagged_url_spec(
            repo_name_with_owner@,
            tag@,
        ) is None,
        r matches Err(e) ==> !(e is NotFound),
        r matches Err(e) ==> (e matches GithubError::ClientError { status, .. } ==>
            client_error_status(status)),
        r matches Err(e) ==> (e matches GithubError::TransportError { context, .. } ==> context@
            == "error fetching release "@ + tag@ + " of "@ + repo_name_with_owner@),
        r matches Err(e) ==> (e matches GithubError::DecodeError { context } ==> context@
            == "error deserializing release "@ + tag@ + " of "@ + repo_name_with_owner@),
{
    let url = match build_tagged_release_url(repo_name_with_owner, tag) {
        Ok(u) => u,
        Err(e) => {
            return Err(e);
        },
    };
    match http.get(url.as_str(), true) {
        Err(detail) => {
            let mut context = String::from_str("error fetching release ");
            context.append(tag);
            context.append(" of ");
            context.append(repo_name_with_owner);
            Err(GithubError::TransportError { context, detail })
        },
        Ok(resp) => {
            let mut context = String::from_str("error deserializing release ");
            context.append(tag);
            context.append(" of ");
            context.append(repo_name_with_owner);
            decode_release(resp.status, &resp.body, context.as_str(), sink)
        },
    }
}

} // verus!

