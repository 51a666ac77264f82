//! What the release source tells of a release, and how its answers are read.

use vstd::prelude::*;
use vstd::string::*;
use crate::error::{OktofetchError, Result, concat2};
use crate::text::{has_prefix, str_starts_with};

verus! {

/// A published release: its tag, its display name and its assets, in the
/// order the release source lists them.
#[derive(Debug)]
pub struct Release {
    pub tag_name: String,
    pub name: String,
    pub assets: Vec<Asset>,
}

/// A downloadable file of a release.
#[derive(Debug)]
pub struct Asset {
    pub name: String,
    pub browser_download_url: String,
    pub size: u64,
}

/// The names of the assets, in order.
pub open spec fn asset_names(assets: Seq<Asset>) -> Seq<Seq<char>> {
    assets.map_values(|a: Asset| a.name@)
}

impl Clone for Asset {
    fn clone(&self) -> (copy: Self)
        ensures
            copy == *self,
    {
        Asset {
            name: self.name.clone(),
            browser_download_url: self.browser_download_url.clone(),
            size: self.size,
        }
    }
}

/// The address that tells the latest release of a repository.
pub open spec fn release_url_of(repo: Seq<char>) -> Seq<char> {
    "https://api.github.com/repos/"@ + repo + "/releases/latest"@
}

/// The value of the authorization header for a token: a fine-grained token,
/// which begins with `github_pat_`, is a bearer token; any other is sent as
/// a classic token.
pub open spec fn authorization_of(token: Seq<char>) -> Seq<char> {
    if has_prefix(token, "github_pat_"@) {
        "Bearer "@ + token
    } else {
        "token "@ + token
    }
}

/// The status code tells success: it is one of 200 to 299.
pub open spec fn is_success(status: u16) -> bool {
    200 <= status < 300
}

/// The address that tells the latest release of a repository.
pub fn release_url(repo: &str) -> (url: String)
    ensures
        url@ == release_url_of(repo@),
{
    concat2("https://api.github.com/repos/", repo).concat("/releases/latest")
}

/// The value of the authorization header for a token.
pub fn authorization(token: &str) -> (value: String)
    ensures
        value@ == authorization_of(token@),
{
    if str_starts_with(token, "github_pat_") {
        concat2("Bearer ", token)
    } else {
        concat2("token ", token)
    }
}

/// Reads the status of the answer to the question for the latest release:
/// 404 tells that the repository does not exist; any other status that is no
/// success is a failure of the release source, told with the status as the
/// answer words it.
pub fn check_release_status(status: u16, status_text: &str, repo: &str) -> (r: Result<()>)
    ensures
        status == 404 ==> (r matches Err(OktofetchError::RepoNotFound(missing)) && missing@
            == repo@),
        status != 404 && !is_success(status) ==> (r matches Err(OktofetchError::GithubApi(detail))
            && detail@ == "API returned status: "@ + status_text@),
        is_success(status) ==> r is Ok,
{
    if status == 404 {
        return Err(OktofetchError::RepoNotFound(String::from_str(repo)));
    }
    if !(200 <= status && status < 300) {
        return Err(OktofetchError::GithubApi(concat2("API returned status: ", status_text)));
    }
    Ok(())
}

/// Reads the status of the answer to a download: any status that is no
/// success is a failed download, told with the status as the answer words it.
pub fn check_download_status(status: u16, status_text: &str) -> (r: Result<()>)
    ensures
        is_success(status) ==> r is Ok,
        !is_success(status) ==> (r matches Err(OktofetchError::DownloadFailed(detail)) && detail@
            == "Download failed with status: "@ + status_text@),
{
    if !(200 <= status && status < 300) {
        return Err(
            OktofetchError::DownloadFailed(concat2("Download failed with status: ", status_text)),
        );
    }
    Ok(())
}

} // verus!
