use github_releases::build_release_list_url;
use github_releases::build_tagged_release_url;
use github_releases::decode_release_list;
use github_releases::github_release_with_tag;
use github_releases::latest_github_release;
use github_releases::select_release;
use github_releases::DiagnosticsSink;
use github_releases::GithubError;
use github_releases::GithubRelease;
use github_releases::GithubReleaseAsset;
use github_releases::HttpClient;
use github_releases::HttpResponse;

struct FakeHttp {
    status: u16,
    body: Vec<u8>,
}

impl HttpClient for FakeHttp {
    fn get(&self, _url: &str, _follow_redirects: bool) -> Result<HttpResponse, String> {
        Ok(HttpResponse { status: self.status, body: self.body.clone() })
    }
}

struct FailingHttp;

impl HttpClient for FailingHttp {
    fn get(&self, _url: &str, _follow_redirects: bool) -> Result<HttpResponse, String> {
        Err(String::from("connection refused"))
    }
}

struct RecordingSink {
    entries: Vec<(String, String, Vec<u8>)>,
}

impl RecordingSink {
    fn new() -> RecordingSink {
        RecordingSink { entries: Vec::new() }
    }
}

impl DiagnosticsSink for RecordingSink {
    fn log_decode_failure(&mut self, context: &str, detail: &str, body: &Vec<u8>) {
        self.entries.push((String::from(context), String::from(detail), body.clone()));
    }
}

fn ok_http(status: u16, body: &str) -> FakeHttp {
    FakeHttp { status, body: body.as_bytes().to_vec() }
}

fn release(tag: &str, pre: bool, asset_names: &[&str]) -> GithubRelease {
    let assets: Vec<GithubReleaseAsset> = asset_names
        .iter()
        .map(|n| GithubReleaseAsset {
            name: String::from(*n),
            browser_download_url: format!("https://example.com/{n}"),
        })
        .collect();
    GithubRelease {
        tag_name: String::from(tag),
        pre_release: pre,
        assets,
        tarball_url: String::from("https://example.com/tar"),
        zipball_url: String::from("https://example.com/zip"),
    }
}

#[test]
fn test_build_tagged_release_url() {
    let tag = "release/2.2.20-Insider";
    let repo_name_with_owner = "microsoft/vscode-eslint";

    let have = build_tagged_release_url(repo_name_with_owner, tag).unwrap();

    assert_eq!(have, "https://api.github.com/repos/microsoft/vscode-eslint/releases/tags/release%2F2.2.20-Insider");
}

#[test]
fn url_builder_is_deterministic() {
    let first = build_tagged_release_url("owner/repo", "v1.2.3").unwrap();
    let second = build_tagged_release_url("owner/repo", "v1.2.3").unwrap();
    assert_eq!(first, second);
}

#[test]
fn url_builder_keeps_segment_safe_characters() {
    let have = build_tagged_release_url("owner/repo", "v1.2.3_beta-4~x").unwrap();
    assert_eq!(have, "https://api.github.com/repos/owner/repo/releases/tags/v1.2.3_beta-4~x");
}

#[test]
fn url_builder_encodes_non_ascii_tag() {
    let have = build_tagged_release_url("owner/repo", "caf\u{e9}").unwrap();
    assert_eq!(have, "https://api.github.com/repos/owner/repo/releases/tags/caf%C3%A9");
}

#[test]
fn url_builder_normalizes_dot_segments_in_base() {
    let have = build_tagged_release_url("owner/./repo", "v1").unwrap();
    assert_eq!(have, "https://api.github.com/repos/owner/repo/releases/tags/v1");
}

#[test]
fn url_builder_places_tag_before_query_or_fragment() {
    let query = build_tagged_release_url("owner/repo?x", "v1").unwrap();
    assert_eq!(query, "https://api.github.com/repos/owner/repo/v1?x/releases/tags");
    let fragment = build_tagged_release_url("owner/repo#x", "v1").unwrap();
    assert_eq!(fragment, "https://api.github.com/repos/owner/repo/v1#x/releases/tags");
}

#[test]
fn url_builder_lets_parsing_escape_odd_repo_bytes() {
    let have = build_tagged_release_url("owner/bad repo", "v1").unwrap();
    assert_eq!(have, "https://api.github.com/repos/owner/bad%20repo/releases/tags/v1");
    let tilde = build_tagged_release_url("owner/repo~x", "v1").unwrap();
    assert_eq!(tilde, "https://api.github.com/repos/owner/repo~x/releases/tags/v1");
}

#[test]
fn url_builder_rejects_dot_tags() {
    assert!(matches!(build_tagged_release_url("owner/repo", "."), Err(GithubError::InvalidUrl)));
    assert!(matches!(build_tagged_release_url("owner/repo", ".."), Err(GithubError::InvalidUrl)));
    assert!(matches!(
        build_tagged_release_url("owner/repo", "v1\t2"),
        Err(GithubError::InvalidUrl)
    ));
}

#[test]
fn release_list_url_is_plain_concatenation() {
    let have = build_release_list_url("microsoft/vscode-eslint");
    assert_eq!(have, "https://api.github.com/repos/microsoft/vscode-eslint/releases");
}

#[test]
fn lister_excludes_release_with_empty_assets() {
    let releases = vec![release("v1", false, &[])];
    let have = select_release(releases, true, false);
    assert!(matches!(have, Err(GithubError::NotFound)));
}

#[test]
fn lister_accepts_empty_assets_when_not_required() {
    let releases = vec![release("v1", false, &[])];
    let have = select_release(releases, false, false).unwrap();
    assert_eq!(have.tag_name, "v1");
}

#[test]
fn lister_scans_in_order_and_skips_mismatched_flag() {
    let releases = vec![release("v2-pre", true, &["a"]), release("v1", false, &["b"])];
    let have = select_release(releases, false, false).unwrap();
    assert_eq!(have.tag_name, "v1");
}

#[test]
fn lister_empty_list_is_not_found() {
    let have = select_release(Vec::new(), false, false);
    assert!(matches!(have, Err(GithubError::NotFound)));
}

const LIST_BODY: &str = "[\
{\"tag_name\":\"v2-pre\",\"prerelease\":true,\"assets\":[],\"tarball_url\":\"t2\",\"zipball_url\":\"z2\",\"id\":7},\
{\"tag_name\":\"v1\",\"prerelease\":false,\"assets\":[{\"name\":\"lsp.gz\",\"browser_download_url\":\"https://example.com/lsp.gz\",\"size\":9}],\"tarball_url\":\"t1\",\"zipball_url\":\"z1\"}]";

#[test]
fn latest_release_selects_first_match_from_response() {
    let http = ok_http(200, LIST_BODY);
    let mut sink = RecordingSink::new();
    let have = latest_github_release("owner/repo", false, false, &http, &mut sink).unwrap();
    assert_eq!(have.tag_name, "v1");
    assert_eq!(have.assets.len(), 1);
    assert_eq!(have.assets[0].name, "lsp.gz");
    assert_eq!(have.assets[0].browser_download_url, "https://example.com/lsp.gz");
    assert_eq!(have.tarball_url, "t1");
    assert_eq!(have.zipball_url, "z1");
    assert!(sink.entries.is_empty());
}

#[test]
fn latest_release_empty_asset_exclusion_over_http() {
    let body = "[{\"tag_name\":\"v1\",\"prerelease\":false,\"assets\":[],\"tarball_url\":\"t\",\"zipball_url\":\"z\"}]";
    let http = ok_http(200, body);
    let mut sink = RecordingSink::new();
    let have = latest_github_release("owner/repo", true, false, &http, &mut sink);
    assert!(matches!(have, Err(GithubError::NotFound)));
}

#[test]
fn latest_release_transport_error_carries_context() {
    let mut sink = RecordingSink::new();
    let have = latest_github_release("owner/repo", false, false, &FailingHttp, &mut sink);
    match have {
        Err(GithubError::TransportError { context, detail }) => {
            assert_eq!(context, "error fetching latest release");
            assert_eq!(detail, "connection refused");
        },
        other => panic!("expected a transport error, got {other:?}"),
    }
}

#[test]
fn decoder_reports_client_error_before_parsing() {
    let body = "{\"message\":\"Not Found\"}".as_bytes().to_vec();
    let mut sink = RecordingSink::new();
    let have = decode_release_list(404, &body, "ctx", &mut sink);
    match have {
        Err(GithubError::ClientError { status, body_text }) => {
            assert_eq!(status, 404);
            assert_eq!(body_text, "{\"message\":\"Not Found\"}");
        },
        other => panic!("expected a client error, got {other:?}"),
    }
    assert!(sink.entries.is_empty());
}

#[test]
fn tagged_fetch_surfaces_missing_tag_as_client_error() {
    let http = ok_http(404, "{\"message\":\"Not Found\"}");
    let mut sink = RecordingSink::new();
    let have = github_release_with_tag("owner/repo", "v9", &http, &mut sink);
    match have {
        Err(GithubError::ClientError { status, body_text }) => {
            assert_eq!(status, 404);
            assert_eq!(body_text, "{\"message\":\"Not Found\"}");
        },
        other => panic!("expected a client error, got {other:?}"),
    }
}

#[test]
fn client_error_body_text_replaces_invalid_utf8() {
    let body = vec![0xffu8];
    let mut sink = RecordingSink::new();
    let have = decode_release_list(400, &body, "ctx", &mut sink);
    match have {
        Err(GithubError::ClientError { status, body_text }) => {
            assert_eq!(status, 400);
            assert_eq!(body_text, "\u{fffd}");
        },
        other => panic!("expected a client error, got {other:?}"),
    }
}

#[test]
fn decoder_sends_malformed_body_to_sink_only() {
    let http = ok_http(200, "definitely { not json");
    let mut sink = RecordingSink::new();
    let have = latest_github_release("owner/repo", false, false, &http, &mut sink);
    match have {
        Err(GithubError::DecodeError { context }) => {
            assert_eq!(context, "error deserializing latest release");
            assert!(!context.contains("definitely"));
        },
        other => panic!("expected a decode error, got {other:?}"),
    }
    assert_eq!(sink.entries.len(), 1);
    assert_eq!(sink.entries[0].0, "error deserializing latest release");
    assert!(!sink.entries[0].1.is_empty());
    assert_ne!(sink.entries[0].1, sink.entries[0].0);
    assert_eq!(sink.entries[0].2, "definitely { not json".as_bytes().to_vec());
}

#[test]
fn decoder_rejects_release_with_missing_field() {
    let body = "[{\"prerelease\":false,\"assets\":[],\"tarball_url\":\"t\",\"zipball_url\":\"z\"}]";
    let http = ok_http(200, body);
    let mut sink = RecordingSink::new();
    let have = latest_github_release("owner/repo", false, false, &http, &mut sink);
    assert!(matches!(have, Err(GithubError::DecodeError { .. })));
    assert_eq!(sink.entries.len(), 1);
    assert_eq!(sink.entries[0].1, "response JSON is not an array of release objects");
}

#[test]
fn tagged_fetch_returns_decoded_release() {
    let body = "{\"tag_name\":\"release/2.2.20-Insider\",\"prerelease\":true,\
\"assets\":[{\"name\":\"a.zip\",\"browser_download_url\":\"https://example.com/a.zip\"},\
{\"name\":\"b.zip\",\"browser_download_url\":\"https://example.com/b.zip\"}],\
\"tarball_url\":\"https://example.com/tar\",\"zipball_url\":\"https://example.com/zip\",\"extra\":null}";
    let http = ok_http(200, body);
    let mut sink = RecordingSink::new();
    let have = github_release_with_tag("owner/repo", "release/2.2.20-Insider", &http, &mut sink)
        .unwrap();
    assert_eq!(have.tag_name, "release/2.2.20-Insider");
    assert!(have.pre_release);
    assert_eq!(have.assets.len(), 2);
    assert_eq!(have.assets[0].name, "a.zip");
    assert_eq!(have.assets[1].browser_download_url, "https://example.com/b.zip");
}

#[test]
fn tagged_fetch_decode_error_names_tag_and_repo() {
    let http = ok_http(200, "[]");
    let mut sink = RecordingSink::new();
    let have = github_release_with_tag("owner/repo", "v1", &http, &mut sink);
    match have {
        Err(GithubError::DecodeError { context }) => {
            assert_eq!(context, "error deserializing release v1 of owner/repo");
        },
        other => panic!("expected a decode error, got {other:?}"),
    }
    assert_eq!(sink.entries.len(), 1);
    assert_eq!(sink.entries[0].1, "response JSON is not a release object");
}

#[test]
fn tagged_fetch_rejects_unappendable_tag() {
    let http = ok_http(200, "{}");
    let mut sink = RecordingSink::new();
    let have = github_release_with_tag("owner/repo", "..", &http, &mut sink);
    assert!(matches!(have, Err(GithubError::InvalidUrl)));
}
