//! Finding the one executable among the files that were unpacked, and where
//! and how it is installed.

use vstd::prelude::*;
use vstd::string::*;
use crate::error::{OktofetchError, Result, concat2};
use crate::paths::{file_name, file_name_of, join_path, joined_path};
use crate::text::{
    chars_of, contains, has_substring, lemma_substring_of_concat, lemma_substring_of_self,
    text_of,
};

verus! {

/// What is known of an unpacked entry: its path below the scratch directory,
/// whether a regular file stands there, and that file's permission bits (0
/// where they could not be read).
#[derive(Debug)]
pub struct ExtractedFile {
    pub path: String,
    pub is_file: bool,
    pub mode: u32,
}

/// An unpacked entry with its file name, where its path has one.
#[derive(Debug)]
pub struct NamedFile {
    pub name: Option<String>,
    pub is_file: bool,
    pub mode: u32,
}

/// An unpacked entry as a value: its file name, whether it is a regular
/// file, and its permission bits.
pub struct FileView {
    pub name: Option<Seq<char>>,
    pub is_file: bool,
    pub mode: u32,
}

impl View for NamedFile {
    type V = FileView;

    open spec fn view(&self) -> FileView {
        FileView { name: text_of(self.name), is_file: self.is_file, mode: self.mode }
    }
}

impl View for ExtractedFile {
    type V = FileView;

    open spec fn view(&self) -> FileView {
        FileView { name: file_name_of(self.path@), is_file: self.is_file, mode: self.mode }
    }
}

/// The entries as values.
pub open spec fn named_views(files: Seq<NamedFile>) -> Seq<FileView> {
    files.map_values(|f: NamedFile| f@)
}

/// The entries as values, each with the file name of its path.
pub open spec fn file_views(files: Seq<ExtractedFile>) -> Seq<FileView> {
    files.map_values(|f: ExtractedFile| f@)
}

/// Where and how a binary is installed.
#[derive(Debug)]
pub struct InstallPlan {
    /// The install directory is missing and is created first, with its parents.
    pub create_dir: bool,
    /// The file that the binary is copied to, replacing what is there.
    pub dest: String,
    /// The permission bits that the copy gets.
    pub mode: u32,
}

/// What the `Debug` form of a string is: the string in double quotes, with
/// the characters that need it escaped.
pub uninterp spec fn debug_text(s: Seq<char>) -> Seq<char>;

/// Formats a string with `{:?}`. The contract names the result.
#[verifier::external_body]
fn debug_form(s: &str) -> (quoted: String)
    ensures
        quoted@ == debug_text(s@),
{
    format!("{:?}", s)
}

/// The permission bits allow someone to execute the file.
pub open spec fn is_executable_mode(mode: u32) -> bool {
    mode & 0o111 != 0
}

/// The entry is a regular file that someone may execute.
pub open spec fn is_candidate(f: FileView) -> bool {
    f.is_file && is_executable_mode(f.mode)
}

/// The entry is a candidate whose file name holds the token.
pub open spec fn is_named_candidate(f: FileView, token: Seq<char>) -> bool {
    is_candidate(f) && (f.name matches Some(n) && has_substring(n, token))
}

/// The entry at `i` is the first candidate whose file name holds the token.
pub open spec fn is_named_pick(files: Seq<FileView>, token: Seq<char>, i: int) -> bool {
    &&& 0 <= i < files.len()
    &&& is_named_candidate(files[i], token)
    &&& forall|j: int| 0 <= j < i ==> !is_named_candidate(#[trigger] files[j], token)
}

/// The entry at `i` is a candidate and no other entry is.
pub open spec fn is_only_candidate(files: Seq<FileView>, i: int) -> bool {
    &&& 0 <= i < files.len()
    &&& is_candidate(files[i])
    &&& forall|j: int| 0 <= j < files.len() && j != i ==> !is_candidate(#[trigger] files[j])
}

/// No entry is a candidate.
pub open spec fn no_candidates(files: Seq<FileView>) -> bool {
    forall|j: int| 0 <= j < files.len() ==> !is_candidate(#[trigger] files[j])
}

/// No candidate's file name holds the token.
pub open spec fn no_named_candidates(files: Seq<FileView>, token: Seq<char>) -> bool {
    forall|j: int| 0 <= j < files.len() ==> !is_named_candidate(#[trigger] files[j], token)
}

/// The entry at `i` is the binary: the first candidate whose file name holds
/// the token, or, where none does, the only candidate.
pub open spec fn is_binary_pick(files: Seq<FileView>, token: Seq<char>, i: int) -> bool {
    is_named_pick(files, token, i) || (no_named_candidates(files, token) && is_only_candidate(
        files,
        i,
    ))
}

/// The file names of the candidates, in the order of the entries; a candidate
/// without a file name adds nothing.
pub open spec fn candidate_names(files: Seq<FileView>) -> Seq<Seq<char>>
    decreases files.len(),
{
    if files.len() == 0 {
        Seq::empty()
    } else {
        let before = candidate_names(files.drop_last());
        let f = files.last();
        if is_candidate(f) && f.name is Some {
            before.push(f.name->0)
        } else {
            before
        }
    }
}

/// The items, each in its `Debug` form, with a comma and a space between
/// two of them.
pub open spec fn listing(items: Seq<Seq<char>>) -> Seq<char>
    decreases items.len(),
{
    if items.len() == 0 {
        Seq::empty()
    } else if items.len() == 1 {
        debug_text(items[0])
    } else {
        listing(items.drop_last()) + ", "@ + debug_text(items.last())
    }
}

/// The detail of the failure for entries without a candidate.
pub open spec fn none_found_message() -> Seq<char> {
    "No executable files found in archive"@
}

/// The detail of the failure for candidates of which none can be chosen: it
/// lists the file name of each.
pub open spec fn ambiguous_message(names: Seq<Seq<char>>) -> Seq<char> {
    "Multiple executables found, please specify binary_name in config. Found: "@ + "["@
        + listing(names) + "]"@
}

/// At most one entry is the binary.
pub proof fn lemma_binary_pick_is_unique(
    files: Seq<FileView>,
    token: Seq<char>,
    i: int,
    j: int,
)
    requires
        is_binary_pick(files, token, i),
        is_binary_pick(files, token, j),
    ensures
        i == j,
{
}

/// Where exactly one entry is an executable regular file, it is the binary,
/// whatever its name and whatever the token.
pub proof fn lemma_only_executable_is_found(files: Seq<FileView>, token: Seq<char>, i: int)
    requires
        is_only_candidate(files, i),
    ensures
        is_binary_pick(files, token, i),
{
    if !is_named_candidate(files[i], token) {
        assert forall|j: int| 0 <= j < files.len() implies !is_named_candidate(
            #[trigger] files[j],
            token,
        ) by {
            if j != i {
                assert(!is_candidate(files[j]));
            }
        }
    }
}

/// Where the file name of exactly one executable regular file holds the
/// token, that file is the binary, however many others there are.
pub proof fn lemma_only_named_is_found(files: Seq<FileView>, token: Seq<char>, k: int)
    requires
        0 <= k < files.len(),
        is_named_candidate(files[k], token),
        forall|j: int| 0 <= j < files.len() && j != k ==> !is_named_candidate(files[j], token),
    ensures
        is_binary_pick(files, token, k),
{
}

/// Every item's `Debug` form stands in the listing.
pub proof fn lemma_listing_holds_each(items: Seq<Seq<char>>, k: int)
    requires
        0 <= k < items.len(),
    ensures
        has_substring(listing(items), debug_text(items[k])),
    decreases items.len(),
{
    let item = debug_text(items[k]);
    let empty = Seq::<char>::empty();
    if items.len() == 1 {
        lemma_substring_of_self(item);
    } else if k == items.len() - 1 {
        lemma_substring_of_self(item);
        lemma_substring_of_concat(listing(items.drop_last()) + ", "@, item, empty, item);
        assert(listing(items.drop_last()) + ", "@ + item + empty =~= listing(items));
    } else {
        lemma_listing_holds_each(items.drop_last(), k);
        lemma_substring_of_concat(
            empty,
            listing(items.drop_last()),
            ", "@ + debug_text(items.last()),
            item,
        );
        assert(empty + listing(items.drop_last()) + (", "@ + debug_text(items.last()))
            =~= listing(items));
    }
}

/// The file name of every candidate that has one is among the candidates'
/// names.
pub proof fn lemma_candidate_is_named(files: Seq<FileView>, j: int)
    requires
        0 <= j < files.len(),
        is_candidate(files[j]),
        files[j].name is Some,
    ensures
        candidate_names(files).contains(files[j].name->0),
    decreases files.len(),
{
    let name = files[j].name->0;
    let before = candidate_names(files.drop_last());
    if j == files.len() - 1 {
        assert(candidate_names(files) == before.push(name));
        assert(before.push(name)[before.len() as int] == name);
    } else {
        lemma_candidate_is_named(files.drop_last(), j);
        let k = choose|k: int| 0 <= k < before.len() && before[k] == name;
        assert(candidate_names(files)[k] == name);
    }
}

/// Where two or more entries are executable regular files and no file name
/// among them holds the token, no entry is the binary, and the detail of the
/// failure holds the `Debug` form of the file name of each of them.
pub proof fn lemma_ambiguity_lists_each(
    files: Seq<FileView>,
    token: Seq<char>,
    a: int,
    b: int,
    j: int,
)
    requires
        0 <= a < b < files.len(),
        is_candidate(files[a]),
        is_candidate(files[b]),
        no_named_candidates(files, token),
        0 <= j < files.len(),
        is_candidate(files[j]),
        files[j].name is Some,
    ensures
        forall|i: int| !is_binary_pick(files, token, i),
        !no_candidates(files),
        has_substring(
            ambiguous_message(candidate_names(files)),
            debug_text(files[j].name->0),
        ),
{
    assert forall|i: int| !is_binary_pick(files, token, i) by {
        if is_only_candidate(files, i) {
            assert(!is_candidate(files[a]) || !is_candidate(files[b]));
        }
    }
    let names = candidate_names(files);
    let name = files[j].name->0;
    lemma_candidate_is_named(files, j);
    let k = choose|k: int| 0 <= k < names.len() && names[k] == name;
    lemma_listing_holds_each(names, k);
    lemma_substring_of_concat(
        "Multiple executables found, please specify binary_name in config. Found: "@ + "["@,
        listing(names),
        "]"@,
        debug_text(name),
    );
}

/// Whether the permission bits allow someone to execute the file.
pub fn is_executable(mode: u32) -> (yes: bool)
    ensures
        yes == is_executable_mode(mode),
{
    mode & 0o111 != 0
}

/// Whether the entry is a candidate whose file name holds the token.
fn holds_token(f: &NamedFile, token: &Vec<char>) -> (yes: bool)
    ensures
        yes == is_named_candidate(f@, token@),
{
    if !(f.is_file && is_executable(f.mode)) {
        return false;
    }
    match &f.name {
        Some(n) => contains(&chars_of(n.as_str()), token),
        None => false,
    }
}

/// The listing of the candidates' file names.
fn list_candidates(files: &Vec<NamedFile>) -> (text: String)
    ensures
        text@ == listing(candidate_names(named_views(files@))),
{
    let mut text = String::new();
    let mut listed: usize = 0;
    let mut i: usize = 0;
    assert(named_views(files@).take(0).len() == 0);
    while i < files.len()
        invariant
            i <= files.len(),
            listed <= i,
            listed == candidate_names(named_views(files@).take(i as int)).len(),
            text@ == listing(candidate_names(named_views(files@).take(i as int))),
        decreases files.len() - i,
    {
        let ghost seen = candidate_names(named_views(files@).take(i as int));
        assert(named_views(files@).take(i + 1).drop_last() =~= named_views(files@).take(i as int));
        assert(named_views(files@).take(i + 1).last() == named_views(files@)[i as int]);
        let f = &files[i];
        if f.is_file && is_executable(f.mode) {
            match &f.name {
                Some(n) => {
                    let ghost now = seen.push(n@);
                    assert(now.drop_last() =~= seen);
                    assert(now.last() == n@);
                    if listed > 0 {
                        text.append(", ");
                    } else {
                        assert(text@ =~= Seq::<char>::empty());
                    }
                    let quoted = debug_form(n.as_str());
                    text.append(quoted.as_str());
                    assert(text@ =~= listing(now));
                    listed += 1;
                },
                None => {},
            }
        }
        i += 1;
    }
    assert(named_views(files@).take(i as int) =~= named_views(files@));
    text
}

/// Finds the binary among entries whose file names are known: the first
/// executable regular file whose file name holds the token or, where none
/// does, the only executable regular file. Fails where there is no
/// executable regular file, and where there are several of which none holds
/// the token: the detail then lists the file name of each.
pub fn pick_binary(files: &Vec<NamedFile>, tool_name: &str) -> (r: Result<usize>)
    ensures
        match r {
            Ok(i) => is_binary_pick(named_views(files@), tool_name@, i as int),
            Err(e) => {
                &&& forall|i: int| !is_binary_pick(named_views(files@), tool_name@, i)
                &&& e matches OktofetchError::BinaryNotFound(detail) && detail@ == if no_candidates(
                    named_views(files@),
                ) {
                    none_found_message()
                } else {
                    ambiguous_message(candidate_names(named_views(files@)))
                }
            },
        },
{
    let token = chars_of(tool_name);
    assert(named_views(files@).len() == files.len());
    let mut first: Option<usize> = None;
    let mut several = false;
    let mut i: usize = 0;
    while i < files.len()
        invariant
            i <= files.len(),
            token@ == tool_name@,
            named_views(files@).len() == files.len(),
            forall|j: int| 0 <= j < i ==> !is_named_candidate(#[trigger] named_views(files@)[j], tool_name@),
            match first {
                Some(k) => k < i && is_candidate(named_views(files@)[k as int]) && forall|j: int|
                    0 <= j < k ==> !is_candidate(#[trigger] named_views(files@)[j]),
                None => !several && forall|j: int|
                    0 <= j < i ==> !is_candidate(#[trigger] named_views(files@)[j]),
            },
            several <==> exists|a: int, b: int|
                0 <= a < b < i && is_candidate(#[trigger] named_views(files@)[a]) && is_candidate(
                    #[trigger] named_views(files@)[b],
                ),
        decreases files.len() - i,
    {
        let f = &files[i];
        if holds_token(f, &token) {
            return Ok(i);
        }
        if f.is_file && is_executable(f.mode) {
            match first {
                Some(k) => {
                    assert(is_candidate(named_views(files@)[k as int]) && is_candidate(named_views(files@)[i as int]));
                    several = true;
                },
                None => {
                    first = Some(i);
                },
            }
        }
        i += 1;
    }
    match first {
        None => Err(
            OktofetchError::BinaryNotFound(String::from_str("No executable files found in archive")),
        ),
        Some(k) => {
            if !several {
                assert forall|j: int| 0 <= j < named_views(files@).len() && j != k implies !is_candidate(
                    #[trigger] named_views(files@)[j],
                ) by {
                    if is_candidate(named_views(files@)[j]) {
                        if j < k {
                            assert(is_candidate(named_views(files@)[j]) && is_candidate(named_views(files@)[k as int]));
                        } else {
                            assert(is_candidate(named_views(files@)[k as int]) && is_candidate(named_views(files@)[j]));
                        }
                    }
                }
                Ok(k)
            } else {
                let names = list_candidates(files);
                let detail = concat2(
                    "Multiple executables found, please specify binary_name in config. Found: ",
                    "[",
                ).concat(names.as_str()).concat("]");
                proof {
                    let (a, b) = choose|a: int, b: int|
                        0 <= a < b < i && is_candidate(#[trigger] named_views(files@)[a]) && is_candidate(
                            #[trigger] named_views(files@)[b],
                        );
                    assert(!no_candidates(named_views(files@)));
                    assert forall|x: int| !is_binary_pick(named_views(files@), tool_name@, x) by {
                        if is_only_candidate(named_views(files@), x) {
                            assert(!is_candidate(named_views(files@)[a]) || !is_candidate(named_views(files@)[b]));
                        }
                    }
                }
                Err(OktofetchError::BinaryNotFound(detail))
            }
        },
    }
}

/// Finds the binary among the unpacked entries, as `pick_binary` does, with
/// the file name of each entry's path.
pub fn find_binary(files: &Vec<ExtractedFile>, tool_name: &str) -> (r: Result<usize>)
    ensures
        match r {
            Ok(i) => is_binary_pick(file_views(files@), tool_name@, i as int),
            Err(e) => {
                &&& forall|i: int| !is_binary_pick(file_views(files@), tool_name@, i)
                &&& e matches OktofetchError::BinaryNotFound(detail) && detail@ == if no_candidates(
                    file_views(files@),
                ) {
                    none_found_message()
                } else {
                    ambiguous_message(candidate_names(file_views(files@)))
                }
            },
        },
{
    let mut named: Vec<NamedFile> = Vec::new();
    let mut i: usize = 0;
    while i < files.len()
        invariant
            i <= files.len(),
            named_views(named@) == file_views(files@.take(i as int)),
        decreases files.len() - i,
    {
        let f = &files[i];
        let entry = NamedFile { name: file_name(f.path.as_str()), is_file: f.is_file, mode: f.mode };
        assert(entry@ == f@);
        let ghost before = named_views(named@);
        named.push(entry);
        assert(named_views(named@) =~= before.push(f@));
        assert(file_views(files@.take(i + 1)) =~= file_views(files@.take(i as int)).push(f@));
        i += 1;
    }
    assert(files@.take(i as int) =~= files@);
    pick_binary(&named, tool_name)
}

/// Where a binary goes: into the install directory, which is created where
/// it is missing, under the name, readable and executable by everyone and
/// writable by its owner, whatever the source's permission bits were.
pub fn install_binary(install_dir: &str, dir_exists: bool, name: &str) -> (plan: InstallPlan)
    ensures
        plan.create_dir == !dir_exists,
        plan.dest@ == joined_path(install_dir@, name@),
        plan.mode == 0o755,
        is_executable_mode(plan.mode),
        plan.mode & 0o111 == 0o111,
{
    assert(0o755u32 & 0o111 == 0o111) by (bit_vector);
    InstallPlan { create_dir: !dir_exists, dest: join_path(install_dir, name), mode: 0o755 }
}

} // verus!
