//! Choosing the asset of a release to install, and the rules of the
//! operations on tools.

use vstd::prelude::*;
use vstd::string::*;
use crate::error::{OktofetchError, Result, concat2};
use crate::github::{Asset, asset_names};
use crate::platform::{matches_asset_name, matches_platform};
use crate::config::{
    Config, ConfigView, Tool, ToolView, duplicate_message, first_named, has_named,
    names_distinct,
};
use crate::text::{
    chars_of, ends_with, has_prefix, has_substring, has_suffix, matches_at, occurs_at,
    pad, padded, same_text, spaces, starts_with, str_contains, text_of, to_lowercase,
    unicode_lowercase,
};

verus! {

/// The rank of a container format by the end of a name in lowercase: 0 for a
/// gzipped tarball, 1 for a zip archive, 2 for anything else.
pub open spec fn format_rank(lower: Seq<char>) -> int {
    if has_suffix(lower, ".tar.gz"@) || has_suffix(lower, ".tgz"@) {
        0
    } else if has_suffix(lower, ".zip"@) {
        1
    } else {
        2
    }
}

/// The rank of an asset's container format, whatever the case of its name.
pub open spec fn priority_of(name: Seq<char>) -> int {
    format_rank(unicode_lowercase(name))
}

/// The asset at `i` is the first whose name holds the pattern.
pub open spec fn is_pattern_pick(names: Seq<Seq<char>>, pattern: Seq<char>, i: int) -> bool {
    &&& 0 <= i < names.len()
    &&& has_substring(names[i], pattern)
    &&& forall|j: int| 0 <= j < i ==> !has_substring(#[trigger] names[j], pattern)
}

/// The asset at `i` is the one that comes first when the assets built for the
/// platform are put in the order of their ranks, those of one rank staying in
/// the order of the release.
pub open spec fn is_platform_pick(names: Seq<Seq<char>>, i: int) -> bool {
    &&& 0 <= i < names.len()
    &&& matches_platform(names[i])
    &&& forall|j: int|
        0 <= j < names.len() && matches_platform(#[trigger] names[j]) ==> priority_of(names[i])
            <= priority_of(names[j])
    &&& forall|j: int|
        0 <= j < i && matches_platform(#[trigger] names[j]) ==> priority_of(names[i])
            < priority_of(names[j])
}

/// The entry at `i` comes first when the entries that have a rank are put
/// in the order of their ranks, those of one rank staying in their order.
pub open spec fn is_rank_pick(ranks: Seq<Option<u8>>, i: int) -> bool {
    &&& 0 <= i < ranks.len()
    &&& ranks[i] is Some
    &&& forall|j: int|
        0 <= j < ranks.len() ==> (#[trigger] ranks[j] matches Some(r) ==> ranks[i]->0 <= r)
    &&& forall|j: int| 0 <= j < i ==> (#[trigger] ranks[j] matches Some(r) ==> ranks[i]->0 < r)
}

/// The rank of an asset among those to choose from: that of its container
/// format where it is built for the platform, and none where it is not.
pub open spec fn platform_rank_of(name: Seq<char>) -> Option<u8> {
    if matches_platform(name) {
        Some(priority_of(name) as u8)
    } else {
        None
    }
}

/// The asset at `i` is the one to install: with a pattern the first that
/// holds it, without one the best of those built for the platform.
pub open spec fn is_pick(names: Seq<Seq<char>>, pattern: Option<Seq<char>>, i: int) -> bool {
    match pattern {
        Some(p) => is_pattern_pick(names, p, i),
        None => is_platform_pick(names, i),
    }
}

/// Some asset can be picked.
pub open spec fn has_pick(names: Seq<Seq<char>>, pattern: Option<Seq<char>>) -> bool {
    match pattern {
        Some(p) => exists|j: int| 0 <= j < names.len() && has_substring(#[trigger] names[j], p),
        None => exists|j: int| 0 <= j < names.len() && matches_platform(#[trigger] names[j]),
    }
}

/// The failure that tells that no asset fits.
pub open spec fn is_no_suitable_release(e: OktofetchError) -> bool {
    e matches OktofetchError::NoSuitableRelease { platform, arch } && platform@ == "Linux"@
        && arch@ == "x86_64"@
}

/// At most one asset is the one to install.
pub proof fn lemma_pick_is_unique(
    names: Seq<Seq<char>>,
    pattern: Option<Seq<char>>,
    i: int,
    j: int,
)
    requires
        is_pick(names, pattern, i),
        is_pick(names, pattern, j),
    ensures
        i == j,
{
}

/// An asset can be picked exactly when one is the one to install.
pub proof fn lemma_pick_exists(names: Seq<Seq<char>>, pattern: Option<Seq<char>>, i: int)
    requires
        is_pick(names, pattern, i),
    ensures
        has_pick(names, pattern),
{
}

/// Where exactly one asset's name holds the pattern, that asset is the one to
/// install, whether or not its name shows the platform.
pub proof fn lemma_pattern_picks_the_only_match(
    names: Seq<Seq<char>>,
    pattern: Seq<char>,
    k: int,
)
    requires
        0 <= k < names.len(),
        has_substring(names[k], pattern),
        forall|j: int| 0 <= j < names.len() && j != k ==> !has_substring(names[j], pattern),
    ensures
        is_pick(names, Some(pattern), k),
        forall|i: int| is_pick(names, Some(pattern), i) ==> i == k,
{
}

/// Without a pattern, where some asset built for the platform is a gzipped
/// tarball, the asset to install is a gzipped tarball built for the platform,
/// whatever else the release holds.
pub proof fn lemma_platform_pick_prefers_tarball(names: Seq<Seq<char>>, i: int, t: int)
    requires
        is_pick(names, None, i),
        0 <= t < names.len(),
        matches_platform(names[t]),
        has_suffix(unicode_lowercase(names[t]), ".tar.gz"@) || has_suffix(
            unicode_lowercase(names[t]),
            ".tgz"@,
        ),
    ensures
        matches_platform(names[i]),
        has_suffix(unicode_lowercase(names[i]), ".tar.gz"@) || has_suffix(
            unicode_lowercase(names[i]),
            ".tgz"@,
        ),
{
    assert(priority_of(names[t]) == 0);
    assert(priority_of(names[i]) <= priority_of(names[t]));
}

/// The rank of a name that is in lowercase already.
pub fn rank_lowercased(lower: &str) -> (rank: u8)
    ensures
        rank == format_rank(lower@),
{
    let name = chars_of(lower);
    if ends_with(&name, &chars_of(".tar.gz")) || ends_with(&name, &chars_of(".tgz")) {
        0
    } else if ends_with(&name, &chars_of(".zip")) {
        1
    } else {
        2
    }
}

/// The rank of an asset's container format: the lower, the better.
pub fn asset_priority(name: &str) -> (rank: u8)
    ensures
        rank == priority_of(name@),
{
    let lower = to_lowercase(name);
    rank_lowercased(lower.as_str())
}

fn no_suitable_release() -> (e: OktofetchError)
    ensures
        is_no_suitable_release(e),
{
    OktofetchError::NoSuitableRelease {
        platform: String::from_str("Linux"),
        arch: String::from_str("x86_64"),
    }
}

/// The first asset whose name holds the pattern.
pub fn pick_by_pattern(assets: &Vec<Asset>, pattern: &str) -> (pick: Option<usize>)
    ensures
        match pick {
            Some(i) => is_pattern_pick(asset_names(assets@), pattern@, i as int),
            None => !has_pick(asset_names(assets@), Some(pattern@)),
        },
{
    let mut i: usize = 0;
    while i < assets.len()
        invariant
            i <= assets.len(),
            forall|j: int| 0 <= j < i ==> !has_substring(#[trigger] asset_names(assets@)[j], pattern@),
        decreases assets.len() - i,
    {
        if str_contains(assets[i].name.as_str(), pattern) {
            return Some(i);
        }
        i += 1;
    }
    None
}

/// The first of the lowest ranks: an entry without a rank is no candidate.
pub fn pick_by_rank(ranks: &Vec<Option<u8>>) -> (pick: Option<usize>)
    ensures
        match pick {
            Some(i) => is_rank_pick(ranks@, i as int),
            None => forall|j: int| 0 <= j < ranks.len() ==> #[trigger] ranks@[j] is None,
        },
{
    let mut best: Option<usize> = None;
    let mut best_rank: u8 = 0;
    let mut i: usize = 0;
    while i < ranks.len()
        invariant
            i <= ranks.len(),
            match best {
                Some(b) => b < i && is_rank_pick(ranks@.take(i as int), b as int) && ranks@[b as int]
                    == Some(best_rank),
                None => forall|j: int| 0 <= j < i ==> #[trigger] ranks@[j] is None,
            },
        decreases ranks.len() - i,
    {
        let ghost seen = ranks@.take(i as int);
        let ghost next = ranks@.take(i + 1);
        assert(forall|j: int| 0 <= j < i ==> seen[j] == next[j]);
        assert(next[i as int] == ranks@[i as int]);
        match ranks[i] {
            Some(rank) => {
                match best {
                    Some(b) => {
                        if rank < best_rank {
                            assert forall|j: int| 0 <= j < next.len() implies (
                            #[trigger] next[j] matches Some(r) ==> rank <= r) by {
                                if j < i {
                                    assert(seen[j] == next[j]);
                                }
                            }
                            assert forall|j: int| 0 <= j < i implies (#[trigger] next[j] matches Some(
                                r,
                            ) ==> rank < r) by {
                                assert(seen[j] == next[j]);
                            }
                            best = Some(i);
                            best_rank = rank;
                        } else {
                            assert forall|j: int| 0 <= j < next.len() implies (
                            #[trigger] next[j] matches Some(r) ==> best_rank <= r) by {
                                if j < i {
                                    assert(seen[j] == next[j]);
                                }
                            }
                            assert forall|j: int| 0 <= j < b implies (#[trigger] next[j] matches Some(
                                r,
                            ) ==> best_rank < r) by {
                                assert(seen[j] == next[j]);
                            }
                        }
                    },
                    None => {
                        best = Some(i);
                        best_rank = rank;
                    },
                }
            },
            None => {
                match best {
                    Some(b) => {
                        assert forall|j: int| 0 <= j < next.len() implies (
                        #[trigger] next[j] matches Some(r) ==> best_rank <= r) by {
                            if j < i {
                                assert(seen[j] == next[j]);
                            }
                        }
                        assert forall|j: int| 0 <= j < b implies (#[trigger] next[j] matches Some(
                            r,
                        ) ==> best_rank < r) by {
                            assert(seen[j] == next[j]);
                        }
                    },
                    None => {},
                }
            },
        }
        i += 1;
    }
    assert(ranks@.take(i as int) =~= ranks@);
    best
}

/// The rank of an asset among those to choose from: that of its container
/// format where it is built for the platform, and none where it is not.
pub fn platform_rank(name: &str) -> (rank: Option<u8>)
    ensures
        rank == platform_rank_of(name@),
{
    if matches_asset_name(name) {
        Some(asset_priority(name))
    } else {
        None
    }
}

/// The best of the assets that are built for the platform.
pub fn pick_by_platform(assets: &Vec<Asset>) -> (pick: Option<usize>)
    ensures
        match pick {
            Some(i) => is_platform_pick(asset_names(assets@), i as int),
            None => !has_pick(asset_names(assets@), None),
        },
{
    let ghost names = asset_names(assets@);
    let mut ranks: Vec<Option<u8>> = Vec::new();
    let mut i: usize = 0;
    while i < assets.len()
        invariant
            i <= assets.len(),
            names == asset_names(assets@),
            ranks.len() == i,
            forall|j: int| 0 <= j < i ==> #[trigger] ranks@[j] == platform_rank_of(names[j]),
        decreases assets.len() - i,
    {
        ranks.push(platform_rank(assets[i].name.as_str()));
        i += 1;
    }
    let pick = pick_by_rank(&ranks);
    proof {
        match pick {
            Some(p) => {
                assert(ranks@[p as int] == platform_rank_of(names[p as int]));
                assert forall|j: int|
                    0 <= j < names.len() && matches_platform(
                        #[trigger] names[j],
                    ) implies priority_of(names[p as int]) <= priority_of(names[j]) by {
                    assert(ranks@[j] == platform_rank_of(names[j]));
                }
                assert forall|j: int|
                    0 <= j < p && matches_platform(#[trigger] names[j]) implies priority_of(
                    names[p as int],
                ) < priority_of(names[j]) by {
                    assert(ranks@[j] == platform_rank_of(names[j]));
                }
            },
            None => {
                assert forall|j: int| 0 <= j < names.len() implies !matches_platform(
                    #[trigger] names[j],
                ) by {
                    assert(ranks@[j] == platform_rank_of(names[j]));
                }
            },
        }
    }
    pick
}

/// Chooses the asset to install: with a pattern the first asset whose name
/// holds it, and never another; without a pattern the best of the assets
/// that are built for the platform.
pub fn select_asset(assets: &Vec<Asset>, pattern: &Option<String>) -> (r: Result<usize>)
    ensures
        match r {
            Ok(i) => is_pick(asset_names(assets@), text_of(*pattern), i as int),
            Err(e) => is_no_suitable_release(e) && !has_pick(
                asset_names(assets@),
                text_of(*pattern),
            ),
        },
{
    let pick = match pattern {
        Some(p) => pick_by_pattern(assets, p.as_str()),
        None => pick_by_platform(assets),
    };
    match pick {
        Some(i) => Ok(i),
        None => Err(no_suitable_release()),
    }
}

/// The position of the first slash at or after `from`, or the length of
/// the text where there is none.
pub open spec fn next_slash(s: Seq<char>, from: int) -> int
    decreases s.len() - from,
{
    if from < 0 || from >= s.len() {
        s.len() as int
    } else if s[from] == '/' {
        from
    } else {
        next_slash(s, from + 1)
    }
}

/// The position that is reached from `from` by passing over `prefix` as
/// often as it stands there.
pub open spec fn strip_end(s: Seq<char>, from: int, prefix: Seq<char>) -> int
    decreases s.len() - from,
{
    if prefix.len() > 0 && occurs_at(s, prefix, from) {
        strip_end(s, from + prefix.len(), prefix)
    } else {
        from
    }
}

/// Where the address proper begins in a URL: after every leading
/// `https://`, and after every `http://` that then leads.
pub open spec fn url_start(input: Seq<char>) -> int {
    strip_end(input, strip_end(input, 0, "https://"@), "http://"@)
}

/// The repository that the text from `start` on names as an address at
/// GitHub: the text is cut at its slashes; there must be three pieces or
/// more, the first of them `github.com`; the second and the third, with a
/// slash between them, are the repository.
pub open spec fn github_repo(input: Seq<char>, start: int) -> Option<Seq<char>> {
    let a = next_slash(input, start);
    let b = next_slash(input, a + 1);
    let c = next_slash(input, b + 1);
    if 0 <= start <= a < b < input.len() && input.subrange(start, a) == "github.com"@ {
        Some(input.subrange(a + 1, c))
    } else {
        None
    }
}

/// The text holds exactly one slash.
pub open spec fn has_one_slash(input: Seq<char>) -> bool {
    let a = next_slash(input, 0);
    a < input.len() && next_slash(input, a + 1) == input.len()
}

/// The repository that a text names: the one that it names as an address at
/// GitHub, where it begins like a URL and names one; else the text itself,
/// where it has the form `owner/repo`.
pub open spec fn parsed_repo(input: Seq<char>) -> Option<Seq<char>> {
    let url = has_prefix(input, "http://"@) || has_prefix(input, "https://"@);
    if url && github_repo(input, url_start(input)) is Some {
        github_repo(input, url_start(input))
    } else if has_one_slash(input) {
        Some(input)
    } else {
        None
    }
}

/// The message for a text that names no repository.
pub open spec fn invalid_repo_message(input: Seq<char>) -> Seq<char> {
    "Invalid repository format: "@ + input + ". Expected 'owner/repo' or GitHub URL"@
}

/// The position of the first slash at or after `from`.
pub fn find_slash(s: &Vec<char>, from: usize) -> (pos: usize)
    ensures
        pos == next_slash(s@, from as int),
        from <= s.len() ==> from <= pos <= s.len(),
{
    let mut i: usize = from;
    while i < s.len()
        invariant
            from <= i,
            next_slash(s@, from as int) == next_slash(s@, i as int),
        decreases s.len() - i,
    {
        if s[i] == '/' {
            return i;
        }
        i += 1;
    }
    s.len()
}

/// The position that is reached from `from` by passing over `prefix` as
/// often as it stands there.
pub fn skip_all(s: &Vec<char>, from: usize, prefix: &Vec<char>) -> (pos: usize)
    ensures
        pos == strip_end(s@, from as int, prefix@),
        from <= pos,
        from <= s.len() ==> pos <= s.len(),
{
    if prefix.len() == 0 {
        return from;
    }
    let mut at: usize = from;
    while matches_at(s, prefix, at)
        invariant
            from <= at,
            from <= s.len() ==> at <= s.len(),
            prefix.len() > 0,
            strip_end(s@, from as int, prefix@) == strip_end(s@, at as int, prefix@),
        decreases s.len() - at,
    {
        at += prefix.len();
    }
    at
}

fn github_part(s: &Vec<char>, start: usize) -> (span: Option<(usize, usize)>)
    requires
        start <= s.len(),
    ensures
        match span {
            Some((from, to)) => from <= to <= s.len() && github_repo(s@, start as int) == Some(
                s@.subrange(from as int, to as int),
            ),
            None => github_repo(s@, start as int) is None,
        },
{
    let a = find_slash(s, start);
    if a >= s.len() {
        return None;
    }
    let b = find_slash(s, a + 1);
    if b >= s.len() {
        return None;
    }
    let c = find_slash(s, b + 1);
    let host = chars_of("github.com");
    if a - start == host.len() && matches_at(s, &host, start) {
        Some((a + 1, c))
    } else {
        None
    }
}

/// Reads a repository from what the user wrote: an address at GitHub, or
/// `owner/repo` itself.
pub fn parse_repo(input: &str) -> (r: Result<String>)
    ensures
        match parsed_repo(input@) {
            Some(repo) => r matches Ok(text) && text@ == repo,
            None => r matches Err(OktofetchError::Other(detail)) && detail@
                == invalid_repo_message(input@),
        },
{
    let s = chars_of(input);
    if starts_with(&s, &chars_of("http://")) || starts_with(&s, &chars_of("https://")) {
        let start = skip_all(&s, skip_all(&s, 0, &chars_of("https://")), &chars_of("http://"));
        match github_part(&s, start) {
            Some((from, to)) => {
                return Ok(String::from_str(input.substring_char(from, to)));
            },
            None => {},
        }
    }
    let a = find_slash(&s, 0);
    if a < s.len() && find_slash(&s, a + 1) == s.len() {
        return Ok(String::from_str(input));
    }
    Err(
        OktofetchError::Other(
            concat2("Invalid repository format: ", input).concat(
                ". Expected 'owner/repo' or GitHub URL",
            ),
        ),
    )
}

/// Where the last piece of a text begins: after its last slash, or at its
/// start where it has none.
pub open spec fn last_piece_start(s: Seq<char>) -> int
    decreases s.len(),
{
    if s.len() == 0 {
        0
    } else if s.last() == '/' {
        s.len() as int
    } else {
        last_piece_start(s.drop_last())
    }
}

/// The name that a new tool gets: the one that is given; else the binary
/// name that is given; else what follows the last slash of the repository.
pub open spec fn new_tool_name(
    repo: Seq<char>,
    name: Option<Seq<char>>,
    binary_name: Option<Seq<char>>,
) -> Seq<char> {
    match name {
        Some(n) => n,
        None => match binary_name {
            Some(b) => b,
            None => repo.skip(last_piece_start(repo)),
        },
    }
}

/// The words that tell that a tool was added.
pub open spec fn added_message(name: Seq<char>, repo: Seq<char>) -> Seq<char> {
    "Added tool '"@ + name + "' ("@ + repo + ")"@
}

/// The words that tell that a tool was removed.
pub open spec fn removed_message(name: Seq<char>) -> Seq<char> {
    "Removed tool '"@ + name + "'"@
}

/// What follows the last slash of a text.
pub fn last_piece(text: &str) -> (piece: String)
    ensures
        piece@ == text@.skip(last_piece_start(text@)),
{
    let s = chars_of(text);
    let mut i: usize = s.len();
    assert(s@.take(i as int) =~= s@);
    while i > 0 && s[i - 1] != '/'
        invariant
            i <= s.len(),
            s@ == text@,
            last_piece_start(s@) == last_piece_start(s@.take(i as int)),
        decreases i,
    {
        assert(s@.take(i as int).drop_last() =~= s@.take(i - 1));
        i -= 1;
    }
    assert(last_piece_start(s@.take(i as int)) == i) by {
        if i > 0 {
            assert(s@.take(i as int).last() == '/');
        }
    }
    assert(text@.subrange(i as int, s.len() as int) =~= text@.skip(i as int));
    String::from_str(text.substring_char(i, s.len()))
}

/// Adds a tool to the registry. The repository is read from what the user
/// wrote; the tool is named as `new_tool_name` tells; it has no asset pattern
/// and no recorded version yet. Fails, and leaves the registry as it is,
/// where the text names no repository or the name is taken.
pub fn add_tool(
    config: &mut Config,
    repo: String,
    name: Option<String>,
    binary_name: Option<String>,
) -> (r: Result<String>)
    ensures
        match parsed_repo(repo@) {
            None => *final(config) == *old(config) && (r matches Err(
                OktofetchError::Other(detail),
            ) && detail@ == invalid_repo_message(repo@)),
            Some(parsed) => {
                let tool_name = new_tool_name(parsed, text_of(name), text_of(binary_name));
                if has_named(old(config)@.tools, tool_name) {
                    *final(config) == *old(config) && (r matches Err(
                        OktofetchError::Other(detail),
                    ) && detail@ == duplicate_message(tool_name))
                } else {
                    &&& r matches Ok(text) && text@ == added_message(tool_name, parsed)
                    &&& final(config)@ == (ConfigView {
                        tools: old(config)@.tools.push(
                            ToolView {
                                name: tool_name,
                                repo: parsed,
                                binary_name: text_of(binary_name),
                                asset_pattern: None,
                                version: None,
                            },
                        ),
                        ..old(config)@
                    })
                }
            },
        },
        names_distinct(old(config)@.tools) ==> names_distinct(final(config)@.tools),
{
    let parsed = match parse_repo(repo.as_str()) {
        Ok(parsed) => parsed,
        Err(e) => {
            return Err(e);
        },
    };
    let tool_name = match name {
        Some(n) => n,
        None => match &binary_name {
            Some(b) => b.clone(),
            None => last_piece(parsed.as_str()),
        },
    };
    let text = concat2("Added tool '", tool_name.as_str()).concat("' (").concat(
        parsed.as_str(),
    ).concat(")");
    let tool = Tool {
        name: tool_name,
        repo: parsed,
        binary_name,
        asset_pattern: None,
        version: None,
    };
    match config.add_tool(tool) {
        Ok(()) => Ok(text),
        Err(e) => Err(e),
    }
}

/// Removes every tool of that name from the registry. Fails, and leaves the
/// registry as it is, where there is none. The binary stays installed.
pub fn remove_tool(config: &mut Config, tool_name: &str) -> (r: Result<String>)
    ensures
        final(config)@ == (ConfigView {
            tools: old(config)@.tools.filter(|t: ToolView| t.name != tool_name@),
            ..old(config)@
        }),
        has_named(old(config)@.tools, tool_name@) ==> (r matches Ok(text) && text@
            == removed_message(tool_name@)),
        !has_named(old(config)@.tools, tool_name@) ==> final(config)@ == old(config)@ && (
        r matches Err(OktofetchError::ToolNotFound(missing)) && missing@ == tool_name@),
        names_distinct(old(config)@.tools) ==> names_distinct(final(config)@.tools),
{
    match config.remove_tool(tool_name) {
        Ok(()) => Ok(concat2("Removed tool '", tool_name).concat("'")),
        Err(e) => Err(e),
    }
}

/// The lines that show one tool in the list: its name in a column of twenty
/// characters, its repository and, in brackets, its recorded version; then,
/// where a binary name is set, a line with it.
pub open spec fn tool_lines(tool: ToolView) -> Seq<Seq<char>> {
    let version = match tool.version {
        Some(v) => " ("@ + v + ")"@,
        None => Seq::empty(),
    };
    let first = "  "@ + padded(tool.name, 20) + " "@ + tool.repo + version;
    match tool.binary_name {
        Some(b) => seq![first, "  "@ + spaces(20) + " binary: "@ + b],
        None => seq![first],
    }
}

/// The lines for the tools, in the order of the registry.
pub open spec fn all_tool_lines(tools: Seq<ToolView>) -> Seq<Seq<char>>
    decreases tools.len(),
{
    if tools.len() == 0 {
        Seq::empty()
    } else {
        all_tool_lines(tools.drop_last()) + tool_lines(tools.last())
    }
}

/// The lines that list the registry.
pub open spec fn list_lines(tools: Seq<ToolView>) -> Seq<Seq<char>> {
    if tools.len() == 0 {
        seq!["No tools configured."@, "Add a tool with: oktofetch add <github-repo>"@]
    } else {
        seq!["Configured tools:\n"@] + all_tool_lines(tools)
    }
}

/// The lines that show what is known of a tool.
pub open spec fn info_lines(tool: ToolView) -> Seq<Seq<char>> {
    let head = seq!["Tool: "@ + tool.name, "Repository: "@ + tool.repo];
    let version = match tool.version {
        Some(v) => seq!["Version: "@ + v],
        None => Seq::empty(),
    };
    let binary = match tool.binary_name {
        Some(b) => seq!["Binary name: "@ + b],
        None => Seq::empty(),
    };
    let pattern = match tool.asset_pattern {
        Some(p) => seq!["Asset pattern: "@ + p],
        None => Seq::empty(),
    };
    head + version + binary + pattern
}

/// The texts of the lines.
pub open spec fn line_texts(lines: Seq<String>) -> Seq<Seq<char>> {
    lines.map_values(|l: String| l@)
}

fn push_tool_lines(lines: &mut Vec<String>, tool: &Tool)
    ensures
        line_texts(final(lines)@) == line_texts(old(lines)@) + tool_lines(tool@),
{
    let mut first = String::from_str("  ");
    let name = pad(tool.name.as_str(), 20);
    first.append(name.as_str());
    first.append(" ");
    first.append(tool.repo.as_str());
    match &tool.version {
        Some(v) => {
            first.append(" (");
            first.append(v.as_str());
            first.append(")");
        },
        None => {},
    }
    let ghost version = match tool@.version {
        Some(v) => " ("@ + v + ")"@,
        None => Seq::empty(),
    };
    let ghost expected = "  "@ + padded(tool@.name, 20) + " "@ + tool@.repo + version;
    assert(first@ =~= expected);
    lines.push(first);
    assert(line_texts(lines@) =~= line_texts(old(lines)@).push(expected));
    match &tool.binary_name {
        Some(b) => {
            let mut second = String::from_str("  ");
            let gap = pad("", 20);
            assert(""@.len() == 0) by {
                reveal_strlit("");
            }
            assert(gap@ =~= spaces(20));
            second.append(gap.as_str());
            second.append(" binary: ");
            second.append(b.as_str());
            let ghost line = "  "@ + spaces(20) + " binary: "@ + b@;
            assert(second@ =~= line);
            lines.push(second);
            assert(line_texts(lines@) =~= line_texts(old(lines)@).push(expected).push(line));
            assert(tool_lines(tool@) =~= seq![expected, line]);
            assert(line_texts(lines@) =~= line_texts(old(lines)@) + tool_lines(tool@));
        },
        None => {
            assert(tool_lines(tool@) =~= seq![expected]);
            assert(line_texts(lines@) =~= line_texts(old(lines)@) + tool_lines(tool@));
        },
    }
}

/// The lines that list the registry: a hint where it is empty, else a
/// heading and the lines of each tool.
pub fn list_tools(config: &Config) -> (r: Result<Vec<String>>)
    ensures
        r matches Ok(lines) && line_texts(lines@) == list_lines(config@.tools),
{
    let mut lines: Vec<String> = Vec::new();
    if config.tools.len() == 0 {
        lines.push(String::from_str("No tools configured."));
        lines.push(String::from_str("Add a tool with: oktofetch add <github-repo>"));
        assert(line_texts(lines@) =~= list_lines(config@.tools));
        return Ok(lines);
    }
    lines.push(String::from_str("Configured tools:\n"));
    let ghost tools = config@.tools;
    let mut i: usize = 0;
    assert(line_texts(lines@) =~= seq!["Configured tools:\n"@] + all_tool_lines(tools.take(0)));
    while i < config.tools.len()
        invariant
            i <= config.tools.len(),
            tools == config@.tools,
            line_texts(lines@) == seq!["Configured tools:\n"@] + all_tool_lines(
                tools.take(i as int),
            ),
        decreases config.tools.len() - i,
    {
        assert(tools.take(i + 1).drop_last() =~= tools.take(i as int));
        assert(tools.take(i + 1).last() == config.tools@[i as int]@);
        push_tool_lines(&mut lines, &config.tools[i]);
        i += 1;
        assert(line_texts(lines@) =~= seq!["Configured tools:\n"@] + all_tool_lines(
            tools.take(i as int),
        ));
    }
    assert(tools.take(i as int) =~= tools);
    Ok(lines)
}

/// The lines that show what is known of the first tool of that name.
pub fn show_tool_info(config: &Config, name: &str) -> (r: Result<Vec<String>>)
    ensures
        match first_named(config@.tools, name@) {
            Some(i) => r matches Ok(lines) && line_texts(lines@) == info_lines(config@.tools[i]),
            None => r matches Err(OktofetchError::ToolNotFound(missing)) && missing@ == name@,
        },
{
    let tool = match config.get_tool(name) {
        Some(tool) => tool,
        None => {
            return Err(OktofetchError::ToolNotFound(String::from_str(name)));
        },
    };
    let mut lines: Vec<String> = Vec::new();
    lines.push(concat2("Tool: ", tool.name.as_str()));
    lines.push(concat2("Repository: ", tool.repo.as_str()));
    match &tool.version {
        Some(v) => {
            lines.push(concat2("Version: ", v.as_str()));
        },
        None => {},
    }
    match &tool.binary_name {
        Some(b) => {
            lines.push(concat2("Binary name: ", b.as_str()));
        },
        None => {},
    }
    match &tool.asset_pattern {
        Some(p) => {
            lines.push(concat2("Asset pattern: ", p.as_str()));
        },
        None => {},
    }
    assert(line_texts(lines@) =~= info_lines(tool@));
    Ok(lines)
}

/// Changes a setting. The one key is `install_dir`, whose value becomes the
/// install directory as it is written; any other key is refused and the
/// registry stays as it is.
pub fn set_config(config: &mut Config, key: &str, value: &str) -> (r: Result<String>)
    ensures
        key@ == "install_dir"@ ==> final(config)@ == (ConfigView {
            install_dir: value@,
            ..old(config)@
        }) && (r matches Ok(text) && text@ == "Set install_dir to "@ + value@),
        key@ != "install_dir"@ ==> *final(config) == *old(config) && (r matches Err(
            OktofetchError::Other(detail),
        ) && detail@ == "Unknown config key: "@ + key@ + ". Valid keys: install_dir"@),
{
    if same_text(key, "install_dir") {
        config.settings.install_dir = String::from_str(value);
        Ok(concat2("Set install_dir to ", value))
    } else {
        Err(
            OktofetchError::Other(
                concat2("Unknown config key: ", key).concat(". Valid keys: install_dir"),
            ),
        )
    }
}

} // verus!
