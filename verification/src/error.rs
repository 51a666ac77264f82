//! The closed set of failure conditions, each with its exit code and its
//! message.

use vstd::prelude::*;
use vstd::string::*;
use crate::text::has_prefix;

verus! {

/// `std::io::Error`: a failure of reading or writing, carried as it is.
#[verifier::external_type_specification]
#[verifier::external_body]
pub struct ExIoError(std::io::Error);

/// `reqwest::Error`: a failure of the transport, carried as it is.
#[verifier::external_type_specification]
#[verifier::external_body]
pub struct ExReqwestError(reqwest::Error);

/// Every way in which an operation of this library, or of the program around
/// it, can fail.
#[derive(Debug)]
pub enum OktofetchError {
    /// No tool of that name is in the registry.
    ToolNotFound(String),
    /// The release source answered with a failure other than "not found".
    GithubApi(String),
    /// The release source does not know the repository.
    RepoNotFound(String),
    /// No asset of the release fits the pattern or the platform.
    NoSuitableRelease { platform: String, arch: String },
    /// The registry could not be read or written: the detail, then the place.
    ConfigError(String, String),
    /// The asset could not be downloaded.
    DownloadFailed(String),
    /// The downloaded file could not be unpacked.
    ExtractionFailed(String),
    /// No executable, or no single executable, was found in what was unpacked.
    BinaryNotFound(String),
    /// Reading or writing failed.
    Io(std::io::Error),
    /// The transport failed.
    Reqwest(reqwest::Error),
    /// Anything else.
    Other(String),
}

pub type Result<T> = std::result::Result<T, OktofetchError>;

/// The exit code of each failure condition: one for each kind, and no two
/// kinds share one.
pub open spec fn exit_code_of(e: OktofetchError) -> int {
    match e {
        OktofetchError::ToolNotFound(_) => 1,
        OktofetchError::GithubApi(_) => 2,
        OktofetchError::RepoNotFound(_) => 5,
        OktofetchError::NoSuitableRelease { .. } => 3,
        OktofetchError::ConfigError(_, _) => 4,
        OktofetchError::DownloadFailed(_) => 7,
        OktofetchError::ExtractionFailed(_) => 8,
        OktofetchError::BinaryNotFound(_) => 9,
        OktofetchError::Io(_) => 10,
        OktofetchError::Reqwest(_) => 11,
        OktofetchError::Other(_) => 6,
    }
}

/// What the message of a failure condition is known to be: the whole text
/// where the condition carries text, its opening words where it carries an
/// error of the standard library or of the transport.
pub open spec fn is_message_of(e: OktofetchError, msg: Seq<char>) -> bool {
    match e {
        OktofetchError::ToolNotFound(name) => msg == "Tool not found: "@ + name@,
        OktofetchError::GithubApi(detail) => msg == "GitHub API error: "@ + detail@,
        OktofetchError::RepoNotFound(repo) => msg == "Repository not found: "@ + repo@,
        OktofetchError::NoSuitableRelease { platform, arch } => msg
            == "No suitable release for "@ + platform@ + " "@ + arch@,
        OktofetchError::ConfigError(detail, place) => msg == "Config error: "@ + detail@ + " at "@
            + place@,
        OktofetchError::DownloadFailed(detail) => msg == "Download failed: "@ + detail@,
        OktofetchError::ExtractionFailed(detail) => msg == "Extraction failed: "@ + detail@,
        OktofetchError::BinaryNotFound(detail) => msg == "Binary not found: "@ + detail@,
        OktofetchError::Io(_) => has_prefix(msg, "IO error: "@),
        OktofetchError::Reqwest(_) => has_prefix(msg, "HTTP error: "@),
        OktofetchError::Other(detail) => msg == detail@,
    }
}

/// Conditions of different kinds have different exit codes, whatever they
/// carry, and no exit code is zero.
pub proof fn lemma_exit_codes_differ(a: OktofetchError, b: OktofetchError)
    requires
        exit_code_of(a) == exit_code_of(b),
    ensures
        a is ToolNotFound <==> b is ToolNotFound,
        a is GithubApi <==> b is GithubApi,
        a is RepoNotFound <==> b is RepoNotFound,
        a is NoSuitableRelease <==> b is NoSuitableRelease,
        a is ConfigError <==> b is ConfigError,
        a is DownloadFailed <==> b is DownloadFailed,
        a is ExtractionFailed <==> b is ExtractionFailed,
        a is BinaryNotFound <==> b is BinaryNotFound,
        a is Io <==> b is Io,
        a is Reqwest <==> b is Reqwest,
        a is Other <==> b is Other,
        exit_code_of(a) > 0,
{
}

/// Calls `to_string` on a `std::io::Error`: the text that its `Display` impl
/// writes. Nothing is claimed of the text.
#[verifier::external_body]
fn io_error_text(e: &std::io::Error) -> (text: String) {
    e.to_string()
}

/// Calls `to_string` on a `reqwest::Error`: the text that its `Display` impl
/// writes. Nothing is claimed of the text.
#[verifier::external_body]
fn transport_error_text(e: &reqwest::Error) -> (text: String) {
    e.to_string()
}

/// The two strings, one after the other.
pub fn concat2(a: &str, b: &str) -> (joined: String)
    ensures
        joined@ == a@ + b@,
{
    String::from_str(a).concat(b)
}

impl OktofetchError {
    /// The process exit code that stands for this condition.
    pub fn exit_code(&self) -> (code: i32)
        ensures
            code == exit_code_of(*self),
    {
        match self {
            OktofetchError::ToolNotFound(_) => 1,
            OktofetchError::GithubApi(_) => 2,
            OktofetchError::RepoNotFound(_) => 5,
            OktofetchError::NoSuitableRelease { .. } => 3,
            OktofetchError::ConfigError(_, _) => 4,
            OktofetchError::DownloadFailed(_) => 7,
            OktofetchError::ExtractionFailed(_) => 8,
            OktofetchError::BinaryNotFound(_) => 9,
            OktofetchError::Io(_) => 10,
            OktofetchError::Reqwest(_) => 11,
            OktofetchError::Other(_) => 6,
        }
    }

    /// The message shown to the user for this condition.
    pub fn message(&self) -> (msg: String)
        ensures
            is_message_of(*self, msg@),
    {
        match self {
            OktofetchError::ToolNotFound(name) => concat2("Tool not found: ", name.as_str()),
            OktofetchError::GithubApi(detail) => concat2("GitHub API error: ", detail.as_str()),
            OktofetchError::RepoNotFound(repo) => concat2("Repository not found: ", repo.as_str()),
            OktofetchError::NoSuitableRelease { platform, arch } => {
                concat2("No suitable release for ", platform.as_str()).concat(" ").concat(
                    arch.as_str(),
                )
            },
            OktofetchError::ConfigError(detail, place) => {
                concat2("Config error: ", detail.as_str()).concat(" at ").concat(place.as_str())
            },
            OktofetchError::DownloadFailed(detail) => concat2("Download failed: ", detail.as_str()),
            OktofetchError::ExtractionFailed(detail) => concat2(
                "Extraction failed: ",
                detail.as_str(),
            ),
            OktofetchError::BinaryNotFound(detail) => concat2(
                "Binary not found: ",
                detail.as_str(),
            ),
            OktofetchError::Io(e) => {
                let text = io_error_text(e);
                let msg = concat2("IO error: ", text.as_str());
                assert(msg@.subrange(0, "IO error: "@.len() as int) =~= "IO error: "@);
                msg
            },
            OktofetchError::Reqwest(e) => {
                let text = transport_error_text(e);
                let msg = concat2("HTTP error: ", text.as_str());
                assert(msg@.subrange(0, "HTTP error: "@.len() as int) =~= "HTTP error: "@);
                msg
            },
            OktofetchError::Other(detail) => detail.clone(),
        }
    }
}

impl From<std::io::Error> for OktofetchError {
    fn from(e: std::io::Error) -> (converted: Self) {
        OktofetchError::Io(e)
    }
}

impl vstd::std_specs::convert::FromSpecImpl<std::io::Error> for OktofetchError {
    open spec fn obeys_from_spec() -> bool {
        true
    }

    open spec fn from_spec(e: std::io::Error) -> Self {
        OktofetchError::Io(e)
    }
}

impl From<reqwest::Error> for OktofetchError {
    fn from(e: reqwest::Error) -> (converted: Self) {
        OktofetchError::Reqwest(e)
    }
}

impl vstd::std_specs::convert::FromSpecImpl<reqwest::Error> for OktofetchError {
    open spec fn obeys_from_spec() -> bool {
        true
    }

    open spec fn from_spec(e: reqwest::Error) -> Self {
        OktofetchError::Reqwest(e)
    }
}

} // verus!
