//! The one platform that is served, Linux on x86_64, and how an asset's name
//! shows that it is built for it.

use vstd::prelude::*;
use vstd::string::*;
use crate::error::{OktofetchError, Result, concat2};
use crate::text::{chars_of, contains, has_substring, same_text, to_lowercase, unicode_lowercase};

verus! {

/// A name in lowercase names the platform: it holds "linux" and one of
/// "x86_64", "amd64" and "x64".
pub open spec fn names_platform(lower: Seq<char>) -> bool {
    has_substring(lower, "linux"@) && (has_substring(lower, "x86_64"@) || has_substring(
        lower,
        "amd64"@,
    ) || has_substring(lower, "x64"@))
}

/// A name names the platform, whatever the case of its letters.
pub open spec fn matches_platform(name: Seq<char>) -> bool {
    names_platform(unicode_lowercase(name))
}

/// Whether a name that is in lowercase already names the platform.
pub fn matches_lowercased(lower: &str) -> (fits: bool)
    ensures
        fits == names_platform(lower@),
{
    let name = chars_of(lower);
    contains(&name, &chars_of("linux")) && (contains(&name, &chars_of("x86_64")) || contains(
        &name,
        &chars_of("amd64"),
    ) || contains(&name, &chars_of("x64")))
}

/// Whether an asset of this name is built for Linux on x86_64.
pub fn matches_asset_name(name: &str) -> (fits: bool)
    ensures
        fits == matches_platform(name@),
{
    let lower = to_lowercase(name);
    matches_lowercased(lower.as_str())
}

/// Accepts the operating system "linux" with the architecture "x86_64" and
/// refuses every other pair, naming the operating system first.
pub fn validate_platform(os: &str, arch: &str) -> (r: Result<()>)
    ensures
        os@ == "linux"@ && arch@ == "x86_64"@ ==> r is Ok,
        os@ != "linux"@ ==> (r matches Err(OktofetchError::Other(msg)) && msg@
            == "Unsupported OS: "@ + os@),
        os@ == "linux"@ && arch@ != "x86_64"@ ==> (r matches Err(OktofetchError::Other(msg))
            && msg@ == "Unsupported arch: "@ + arch@),
{
    if !same_text(os, "linux") {
        return Err(OktofetchError::Other(concat2("Unsupported OS: ", os)));
    }
    if !same_text(arch, "x86_64") {
        return Err(OktofetchError::Other(concat2("Unsupported arch: ", arch)));
    }
    Ok(())
}

} // verus!
