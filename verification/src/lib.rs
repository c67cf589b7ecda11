//! Release metadata resolution for repositories hosted on GitHub.
//!
//! The library models releases and their downloadable assets, builds the
//! tag-addressed releases URL with the tag percent-encoded as one path
//! segment, decodes API responses (status check first, then JSON shape
//! check), and selects the first release that satisfies the caller's asset
//! and pre-release predicates. The HTTP transport and the diagnostics sink
//! are collaborators handed in by the caller.

pub mod decode;
pub mod endpoint;
pub mod json;
pub mod model;
pub mod ops;
pub mod text;

pub use decode::decode_release;
pub use decode::decode_release_list;
pub use decode::DiagnosticsSink;
pub use endpoint::build_release_list_url;
pub use endpoint::build_tagged_release_url;
pub use model::GitHubLspBinaryVersion;
pub use model::GithubError;
pub use model::GithubRelease;
pub use model::GithubReleaseAsset;
pub use ops::github_release_with_tag;
pub use ops::latest_github_release;
pub use ops::select_release;
pub use ops::HttpClient;
pub use ops::HttpResponse;
