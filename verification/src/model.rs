use vstd::prelude::*;

verus! {

/// A version record a caller keeps for a downloaded language-server binary:
/// the release's name and the URL its artifact was fetched from.
pub struct GitHubLspBinaryVersion {
    pub name: String,
    pub url: String,
}

/// One downloadable file attached to a release.
#[derive(Debug)]
pub struct GithubReleaseAsset {
    pub name: String,
    pub browser_download_url: String,
}

/// The mathematical image of an asset: both fields as character sequences.
pub struct AssetView {
    pub name: Seq<char>,
    pub browser_download_url: Seq<char>,
}

impl View for GithubReleaseAsset {
    type V = AssetView;

    open spec fn view(&self) -> AssetView {
        AssetView { name: self.name@, browser_download_url: self.browser_download_url@ }
    }
}

impl DeepView for GithubReleaseAsset {
    type V = AssetView;

    open spec fn deep_view(&self) -> AssetView {
        self@
    }
}

/// One published release of a repository, as returned by the releases API.
/// The `assets` order is the order of the API response and is preserved.
#[derive(Debug)]
pub struct GithubRelease {
    pub tag_name: String,
    pub pre_release: bool,
    pub assets: Vec<GithubReleaseAsset>,
    pub tarball_url: String,
    pub zipball_url: String,
}

/// The mathematical image of a release: field contents as sequences.
pub struct ReleaseView {
    pub tag_name: Seq<char>,
    pub pre_release: bool,
    pub assets: Seq<AssetView>,
    pub tarball_url: Seq<char>,
    pub zipball_url: Seq<char>,
}

impl View for GithubRelease {
    type V = ReleaseView;

    open spec fn view(&self) -> ReleaseView {
        ReleaseView {
            tag_name: self.tag_name@,
            pre_release: self.pre_release,
            assets: self.assets.deep_view(),
            tarball_url: self.tarball_url@,
            zipball_url: self.zipball_url@,
        }
    }
}

impl DeepView for GithubRelease {
    type V = ReleaseView;

    open spec fn deep_view(&self) -> ReleaseView {
        self@
    }
}

/// Everything that can go wrong in one operation of this library.
/// Each variant carries the context strings a caller needs to act on it
/// without re-deriving the call parameters.
#[derive(Debug)]
pub enum GithubError {
    /// The HTTP call itself failed before a response was obtained.
    TransportError { context: String, detail: String },
    /// The server answered with a status in the 4xx range; the raw body is
    /// preserved verbatim as diagnostic text.
    ClientError { status: u16, body_text: String },
    /// The response body did not parse into the expected shape. The raw body
    /// goes to the diagnostics sink only, never into this variant.
    DecodeError { context: String },
    /// The tag-addressed URL could not be built.
    InvalidUrl,
    /// No release satisfied the asset and pre-release predicates.
    NotFound,
}

} // verus!
