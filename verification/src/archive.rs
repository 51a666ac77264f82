//! Unpacking a downloaded file: which container it is, which of its entries
//! are put under the scratch directory, and which paths are reported.

use std::io::Read;
use vstd::prelude::*;
use vstd::string::*;
use vstd::utf8::{decode_utf8, decode_utf8_encode_utf8, encode_utf8, valid_utf8};
use crate::error::{OktofetchError, Result, concat2};
use crate::paths::{file_name, file_name_of};
use crate::text::{chars_of, ends_with, has_prefix, has_suffix};

verus! {

/// The container formats, told apart by the end of the file's name.
#[derive(Debug, Clone, Copy, PartialEq, Eq, Structural)]
pub enum ArchiveKind {
    /// A gzipped tarball: `.tar.gz` or `.tgz`.
    TarGz,
    /// A bzipped tarball: `.tar.bz2` or `.tbz`.
    TarBz2,
    /// A zip archive: `.zip`.
    Zip,
    /// Anything else: the file itself, if it is an executable.
    Standalone,
}

/// One thing that is put under the scratch directory.
#[derive(Debug)]
pub enum Step {
    /// The entry at `index` of the tarball is unpacked to `target`, after the
    /// directories above it have been created.
    Unpack { index: usize, target: Vec<u8> },
    /// The directory `path` is created, with the directories above it.
    MakeDir { path: String },
    /// The file `path` is written with `contents`, after the directories above
    /// it have been created; where `executable`, its mode is then set to 0755.
    WriteFile { path: String, contents: Vec<u8>, executable: bool },
    /// The downloaded file itself is copied to `path`, unless it stands
    /// there already, and its mode is set to 0755.
    CopySource { path: String },
}

/// What unpacking comes to: the steps in the order of the entries, the
/// paths that are reported, and the tarball that the `Unpack` steps speak of
/// (empty where there is none).
#[derive(Debug)]
pub struct Extraction {
    pub steps: Vec<Step>,
    pub paths: Vec<String>,
    pub tar: Vec<u8>,
}

/// A step as a value.
pub enum StepView {
    Unpack { index: int, target: Seq<u8> },
    MakeDir { path: Seq<char> },
    WriteFile { path: Seq<char>, contents: Seq<u8>, executable: bool },
    CopySource { path: Seq<char> },
}

/// An extraction as a value.
pub struct ExtractionView {
    pub steps: Seq<StepView>,
    pub paths: Seq<Seq<char>>,
    pub tar: Seq<u8>,
}

impl View for Step {
    type V = StepView;

    open spec fn view(&self) -> StepView {
        match *self {
            Step::Unpack { index, target } => StepView::Unpack {
                index: index as int,
                target: target@,
            },
            Step::MakeDir { path } => StepView::MakeDir { path: path@ },
            Step::WriteFile { path, contents, executable } => StepView::WriteFile {
                path: path@,
                contents: contents@,
                executable,
            },
            Step::CopySource { path } => StepView::CopySource { path: path@ },
        }
    }
}

impl View for Extraction {
    type V = ExtractionView;

    open spec fn view(&self) -> ExtractionView {
        ExtractionView {
            steps: self.steps@.map_values(|s: Step| s@),
            paths: self.paths@.map_values(|p: String| p@),
            tar: self.tar@,
        }
    }
}

/// `std::io::Cursor`: bytes in memory, read like a file. Nothing is
/// claimed of it.
#[verifier::external_type_specification]
#[verifier::external_body]
#[verifier::reject_recursive_types(T)]
pub struct ExCursor<T>(std::io::Cursor<T>);

/// `zip::ZipArchive`: a zip archive that has been opened. What it holds
/// is named by `zip_items`.
#[verifier::external_type_specification]
#[verifier::external_body]
#[verifier::reject_recursive_types(R)]
pub struct ExZipArchive<R>(zip::ZipArchive<R>);

/// What is known of an entry of a zip archive before its contents are read.
#[derive(Debug)]
pub struct ZipEntryInfo {
    /// The entry's name, as the archive spells it.
    pub name: String,
    /// The name is a path that stays below the directory it is joined to.
    pub enclosed: bool,
    /// The entry is a directory.
    pub is_dir: bool,
}

/// What is known of an entry, as a value.
pub struct ZipInfoView {
    pub name: Seq<char>,
    pub enclosed: bool,
    pub is_dir: bool,
}

impl View for ZipEntryInfo {
    type V = ZipInfoView;

    open spec fn view(&self) -> ZipInfoView {
        ZipInfoView { name: self.name@, enclosed: self.enclosed, is_dir: self.is_dir }
    }
}

/// An entry of a zip archive: what is known of it, where it can be opened,
/// and its contents, where they can be read.
pub struct ZipItem {
    pub info: Option<ZipInfoView>,
    pub contents: Option<Seq<u8>>,
}

/// What gzip decompression makes of bytes, where they are a gzip stream.
pub uninterp spec fn gzip_decoded(data: Seq<u8>) -> Option<Seq<u8>>;

/// What bzip2 decompression makes of bytes, where they are a bzip2 stream.
pub uninterp spec fn bzip2_decoded(data: Seq<u8>) -> Option<Seq<u8>>;

/// The paths of the entries of a tarball, in order, where it can be read to
/// its end.
pub uninterp spec fn tar_entry_paths(tar: Seq<u8>) -> Option<Seq<Seq<u8>>>;

/// The entries of a zip archive that has been opened, in the order of its
/// directory.
pub uninterp spec fn zip_items(archive: zip::ZipArchive<std::io::Cursor<Vec<u8>>>) -> Seq<ZipItem>;

/// The entries of the zip archive that the bytes are, where they are one.
pub uninterp spec fn zip_decoded(data: Seq<u8>) -> Option<Seq<ZipItem>>;

/// The container format that a file name stands for. The ends are compared
/// letter by letter: an upper-case ending is no archive's.
pub open spec fn kind_of_name(name: Seq<char>) -> ArchiveKind {
    if has_suffix(name, ".tar.gz"@) || has_suffix(name, ".tgz"@) {
        ArchiveKind::TarGz
    } else if has_suffix(name, ".tar.bz2"@) || has_suffix(name, ".tbz"@) {
        ArchiveKind::TarBz2
    } else if has_suffix(name, ".zip"@) {
        ArchiveKind::Zip
    } else {
        ArchiveKind::Standalone
    }
}

/// The bytes begin with the magic number of an ELF executable.
pub open spec fn has_elf_magic(contents: Seq<u8>) -> bool {
    contents.len() >= 4 && contents[0] == 0x7F && contents[1] == 0x45 && contents[2] == 0x4C
        && contents[3] == 0x46
}

/// A component `..` stands at `at`: two dots between the start of the path or
/// a slash and the end of the path or a slash.
pub open spec fn parent_at(path: Seq<u8>, at: int) -> bool {
    &&& 0 <= at && at + 2 <= path.len()
    &&& path[at] == 0x2E && path[at + 1] == 0x2E
    &&& at == 0 || path[at - 1] == 0x2F
    &&& at + 2 == path.len() || path[at + 2] == 0x2F
}

/// Some component of the path is `..`.
pub open spec fn has_parent_component(path: Seq<u8>) -> bool {
    exists|at: int| parent_at(path, at)
}

/// The path begins at the root of the file system.
pub open spec fn is_absolute(path: Seq<u8>) -> bool {
    path.len() > 0 && path[0] == 0x2F
}

/// The byte at `k` belongs to a component that is neither empty nor `.`.
pub open spec fn names_entry_at(path: Seq<u8>, k: int) -> bool {
    &&& 0 <= k < path.len()
    &&& path[k] != 0x2F
    &&& !(path[k] == 0x2E && (k == 0 || path[k - 1] == 0x2F) && (k + 1 == path.len() || path[k
        + 1] == 0x2F))
}

/// The path names something: some component of it is neither empty nor `.`.
pub open spec fn names_entry(path: Seq<u8>) -> bool {
    exists|k: int| names_entry_at(path, k)
}

/// The path leads strictly below the directory that it is joined to: it is
/// relative, none of its components is `..`, and it names something.
pub open spec fn is_safe_path(path: Seq<u8>) -> bool {
    !is_absolute(path) && !has_parent_component(path) && names_entry(path)
}

/// The path that a step writes to, in bytes.
pub open spec fn step_target(step: StepView) -> Seq<u8> {
    match step {
        StepView::Unpack { target, .. } => target,
        StepView::MakeDir { path } => encode_utf8(path),
        StepView::WriteFile { path, .. } => encode_utf8(path),
        StepView::CopySource { path } => encode_utf8(path),
    }
}

/// Every step of the extraction writes to a path that leads strictly below
/// the scratch directory, and every path that is reported is such a path.
pub open spec fn plan_is_safe(plan: ExtractionView) -> bool {
    &&& forall|k: int| 0 <= k < plan.steps.len() ==> is_safe_path(step_target(#[trigger] plan.steps[k]))
    &&& forall|k: int| 0 <= k < plan.paths.len() ==> is_safe_path(encode_utf8(#[trigger] plan.paths[k]))
}

/// The steps for the entries of a tarball, given by their paths: each entry
/// whose path leads strictly below the scratch directory is unpacked to its
/// path, the others are passed over.
pub open spec fn tar_steps(paths: Seq<Seq<u8>>) -> Seq<StepView>
    decreases paths.len(),
{
    if paths.len() == 0 {
        Seq::empty()
    } else {
        let before = tar_steps(paths.drop_last());
        if !is_safe_path(paths.last()) {
            before
        } else {
            before.push(StepView::Unpack { index: paths.len() - 1, target: paths.last() })
        }
    }
}

/// The paths that are reported for the entries of a tarball: those of the
/// entries that are unpacked, as far as they are text.
pub open spec fn tar_reported(paths: Seq<Seq<u8>>) -> Seq<Seq<char>>
    decreases paths.len(),
{
    if paths.len() == 0 {
        Seq::empty()
    } else {
        let before = tar_reported(paths.drop_last());
        if is_safe_path(paths.last()) && valid_utf8(paths.last()) {
            before.push(decode_utf8(paths.last()))
        } else {
            before
        }
    }
}

/// What is done with an entry of a zip archive.
#[derive(Debug, Clone, Copy, PartialEq, Eq, Structural)]
pub enum ZipAction {
    /// The entry is passed over: its name is no path that stays below
    /// the scratch directory.
    Skip,
    /// The entry is a directory, which is created.
    MakeDir,
    /// The entry is a file, which is written.
    WriteFile,
}

/// The entry of a zip archive is unpacked: the archive tells that its name
/// is an enclosed path, and the name leads strictly below the scratch
/// directory.
pub open spec fn zip_keeps(info: ZipInfoView) -> bool {
    info.enclosed && is_safe_path(encode_utf8(info.name))
}

/// What is done with an entry of a zip archive, by what is known of it.
pub open spec fn zip_action_of(info: ZipInfoView) -> ZipAction {
    if !zip_keeps(info) {
        ZipAction::Skip
    } else if info.is_dir {
        ZipAction::MakeDir
    } else {
        ZipAction::WriteFile
    }
}

/// The step for an entry of a zip archive: none for an entry that is passed
/// over, a directory for a directory, and for a file its
/// contents, to be made executable where they begin as an ELF executable.
pub open spec fn zip_step_of(info: ZipInfoView, contents: Option<Seq<u8>>) -> Option<StepView> {
    match zip_action_of(info) {
        ZipAction::Skip => None,
        ZipAction::MakeDir => Some(StepView::MakeDir { path: info.name }),
        ZipAction::WriteFile => match contents {
            Some(c) => Some(
                StepView::WriteFile { path: info.name, contents: c, executable: has_elf_magic(c) },
            ),
            None => None,
        },
    }
}

/// The entry can be dealt with: it can be opened and, where it is a file
/// that is unpacked, its contents can be read.
pub open spec fn zip_item_ok(item: ZipItem) -> bool {
    item.info matches Some(info) && (zip_keeps(info) && !info.is_dir ==> item.contents is Some)
}

/// The entry at `i` is the first that cannot be unpacked.
pub open spec fn zip_fails_at(items: Seq<ZipItem>, i: int) -> bool {
    &&& 0 <= i < items.len()
    &&& !zip_item_ok(items[i])
    &&& forall|j: int| 0 <= j < i ==> zip_item_ok(#[trigger] items[j])
}

/// The steps for the entries of a zip archive, in order.
pub open spec fn zip_steps(items: Seq<ZipItem>) -> Seq<StepView>
    decreases items.len(),
{
    if items.len() == 0 {
        Seq::empty()
    } else {
        let before = zip_steps(items.drop_last());
        match items.last().info {
            Some(info) => match zip_step_of(info, items.last().contents) {
                Some(step) => before.push(step),
                None => before,
            },
            None => before,
        }
    }
}

/// The paths that are reported for the entries of a zip archive: the names
/// of the entries that are unpacked, directories included.
pub open spec fn zip_reported(items: Seq<ZipItem>) -> Seq<Seq<char>>
    decreases items.len(),
{
    if items.len() == 0 {
        Seq::empty()
    } else {
        let before = zip_reported(items.drop_last());
        match items.last().info {
            Some(info) => if zip_keeps(info) {
                before.push(info.name)
            } else {
                before
            },
            None => before,
        }
    }
}

/// What unpacking a tarball comes to, given what decompression made of the
/// file: a failure of reading where the file could not be decompressed or
/// the tarball could not be walked, else the plan for its entries.
pub open spec fn tar_outcome(decoded: Option<Seq<u8>>, r: Result<Extraction>) -> bool {
    match decoded {
        None => r matches Err(OktofetchError::Io(_)),
        Some(tar) => match tar_entry_paths(tar) {
            None => r matches Err(OktofetchError::Io(_)),
            Some(paths) => r matches Ok(plan) && plan@ == (ExtractionView {
                steps: tar_steps(paths),
                paths: tar_reported(paths),
                tar,
            }),
        },
    }
}

/// What unpacking a zip archive comes to, given its entries: a failure where
/// the file is no archive; a failure for the first entry that cannot be
/// opened or read; else the plan for its entries.
pub open spec fn zip_outcome(decoded: Option<Seq<ZipItem>>, r: Result<Extraction>) -> bool {
    match decoded {
        None => r matches Err(OktofetchError::ExtractionFailed(detail)) && has_prefix(
            detail@,
            "Failed to open zip archive: "@,
        ),
        Some(items) => match r {
            Ok(plan) => (forall|i: int| 0 <= i < items.len() ==> zip_item_ok(#[trigger] items[i]))
                && plan@ == (ExtractionView {
                steps: zip_steps(items),
                paths: zip_reported(items),
                tar: Seq::empty(),
            }),
            Err(e) => exists|i: int|
                zip_fails_at(items, i) && match items[i].info {
                    None => e matches OktofetchError::ExtractionFailed(detail) && has_prefix(
                        detail@,
                        "Failed to extract file: "@,
                    ),
                    Some(_) => e is Io,
                },
        },
    }
}

/// What unpacking a file that is no archive comes to.
pub open spec fn standalone_outcome(name: Seq<char>, data: Seq<u8>, r: Result<Extraction>) -> bool {
    if !is_safe_path(encode_utf8(name)) {
        r matches Err(OktofetchError::ExtractionFailed(detail)) && detail@
            == "Invalid archive name"@
    } else if data.len() == 0 {
        r matches Err(OktofetchError::ExtractionFailed(detail)) && detail@ == empty_file_message(
            name,
        )
    } else if !has_elf_magic(data) {
        r matches Err(OktofetchError::ExtractionFailed(detail)) && detail@ == unsupported_message(
            name,
        )
    } else {
        r matches Ok(plan) && plan@ == (ExtractionView {
            steps: seq![StepView::CopySource { path: name }],
            paths: seq![name],
            tar: Seq::empty(),
        })
    }
}

/// What unpacking a downloaded file comes to, given its path and its bytes.
pub open spec fn archive_outcome(path: Seq<char>, data: Seq<u8>, r: Result<Extraction>) -> bool {
    match file_name_of(path) {
        None => r matches Err(OktofetchError::ExtractionFailed(detail)) && detail@
            == "Invalid archive name"@,
        Some(name) => match kind_of_name(name) {
            ArchiveKind::TarGz => tar_outcome(gzip_decoded(data), r),
            ArchiveKind::TarBz2 => tar_outcome(bzip2_decoded(data), r),
            ArchiveKind::Zip => zip_outcome(zip_decoded(data), r),
            ArchiveKind::Standalone => standalone_outcome(name, data, r),
        },
    }
}

/// The detail of the failure for an empty file.
pub open spec fn empty_file_message(name: Seq<char>) -> Seq<char> {
    "Downloaded file is empty: "@ + name
}

/// The detail of the failure for a file that is no archive and no executable.
pub open spec fn unsupported_message(name: Seq<char>) -> Seq<char> {
    "Unsupported archive format: "@ + name
}

/// Every step for a tarball unpacks one of its entries to that entry's
/// path, and that path is relative, has no component `..` and names
/// something.
pub proof fn lemma_tar_steps_are_safe(paths: Seq<Seq<u8>>, k: int)
    requires
        0 <= k < tar_steps(paths).len(),
    ensures
        tar_steps(paths)[k] matches StepView::Unpack { index, target } && 0 <= index < paths.len()
            && target == paths[index] && is_safe_path(target),
    decreases paths.len(),
{
    if paths.len() > 0 {
        let before = tar_steps(paths.drop_last());
        if k < before.len() {
            lemma_tar_steps_are_safe(paths.drop_last(), k);
        }
    }
}

/// An entry of a tarball whose path is absolute, has a component `..` or
/// names nothing is unpacked by no step.
pub proof fn lemma_tar_skips_traversal(paths: Seq<Seq<u8>>, i: int, k: int)
    requires
        0 <= i < paths.len(),
        !is_safe_path(paths[i]),
        0 <= k < tar_steps(paths).len(),
    ensures
        tar_steps(paths)[k] matches StepView::Unpack { index, target } && index != i,
{
    lemma_tar_steps_are_safe(paths, k);
}

/// Every path that is reported for a tarball is the path of one of its
/// entries, and that path is relative, has no component `..` and names
/// something.
pub proof fn lemma_tar_reported_are_safe(paths: Seq<Seq<u8>>, k: int)
    requires
        0 <= k < tar_reported(paths).len(),
    ensures
        exists|i: int|
            0 <= i < paths.len() && is_safe_path(#[trigger] paths[i]) && valid_utf8(
                paths[i],
            ) && tar_reported(paths)[k] == decode_utf8(paths[i]),
    decreases paths.len(),
{
    if paths.len() > 0 {
        let before = tar_reported(paths.drop_last());
        if k < before.len() {
            lemma_tar_reported_are_safe(paths.drop_last(), k);
            let i = choose|i: int|
                0 <= i < paths.drop_last().len() && is_safe_path(
                    #[trigger] paths.drop_last()[i],
                ) && valid_utf8(paths.drop_last()[i]) && before[k] == decode_utf8(
                    paths.drop_last()[i],
                );
            assert(paths[i] == paths.drop_last()[i]);
        } else {
            assert(tar_reported(paths)[k] == decode_utf8(paths[paths.len() - 1]));
        }
    }
}

/// Where the path of every entry of a tarball leads strictly below the
/// scratch directory and is text, every entry is unpacked to its path and
/// reported, in order.
pub proof fn lemma_tar_keeps_all(paths: Seq<Seq<u8>>)
    requires
        forall|i: int| 0 <= i < paths.len() ==> is_safe_path(#[trigger] paths[i]),
        forall|i: int| 0 <= i < paths.len() ==> valid_utf8(#[trigger] paths[i]),
    ensures
        tar_steps(paths).len() == paths.len(),
        tar_reported(paths).len() == paths.len(),
        forall|i: int|
            0 <= i < paths.len() ==> #[trigger] tar_steps(paths)[i] == (StepView::Unpack {
                index: i,
                target: paths[i],
            }),
        forall|i: int|
            0 <= i < paths.len() ==> #[trigger] tar_reported(paths)[i] == decode_utf8(paths[i]),
    decreases paths.len(),
{
    if paths.len() > 0 {
        let front = paths.drop_last();
        assert forall|i: int| 0 <= i < front.len() implies is_safe_path(#[trigger] front[i])
            && valid_utf8(front[i]) by {
            assert(front[i] == paths[i]);
        }
        lemma_tar_keeps_all(front);
        assert forall|i: int| 0 <= i < paths.len() implies #[trigger] tar_steps(paths)[i] == (
        StepView::Unpack { index: i, target: paths[i] }) by {
            if i < front.len() {
                assert(tar_steps(front)[i] == (StepView::Unpack { index: i, target: front[i] }));
            }
        }
        assert forall|i: int| 0 <= i < paths.len() implies #[trigger] tar_reported(paths)[i]
            == decode_utf8(paths[i]) by {
            if i < front.len() {
                assert(tar_reported(front)[i] == decode_utf8(front[i]));
            }
        }
    }
}

/// Every step for a zip archive creates or writes what one of its entries
/// names, that name is an enclosed path that leads strictly below the
/// scratch directory, and what is written is that entry's contents.
pub proof fn lemma_zip_steps_are_enclosed(items: Seq<ZipItem>, k: int)
    requires
        0 <= k < zip_steps(items).len(),
    ensures
        exists|i: int|
            0 <= i < items.len() && (#[trigger] items[i].info matches Some(info) && zip_keeps(info)
                && zip_step_of(info, items[i].contents) == Some(zip_steps(items)[k])),
    decreases items.len(),
{
    if items.len() > 0 {
        let front = items.drop_last();
        if k < zip_steps(front).len() {
            lemma_zip_steps_are_enclosed(front, k);
            let i = choose|i: int|
                0 <= i < front.len() && (#[trigger] front[i].info matches Some(info)
                    && zip_keeps(info) && zip_step_of(info, front[i].contents) == Some(
                    zip_steps(front)[k],
                ));
            assert(items[i] == front[i]);
            assert(items[i].info is Some);
        } else {
            let last = items.len() - 1;
            assert(items[last].info is Some);
        }
    }
}

/// Every path that is reported for a zip archive is the name of one of its
/// entries, and that name is an enclosed path that leads strictly below
/// the scratch directory.
pub proof fn lemma_zip_reported_are_enclosed(items: Seq<ZipItem>, k: int)
    requires
        0 <= k < zip_reported(items).len(),
    ensures
        exists|i: int|
            0 <= i < items.len() && (#[trigger] items[i].info matches Some(info) && zip_keeps(info)
                && info.name == zip_reported(items)[k]),
    decreases items.len(),
{
    if items.len() > 0 {
        let front = items.drop_last();
        if k < zip_reported(front).len() {
            lemma_zip_reported_are_enclosed(front, k);
            let i = choose|i: int|
                0 <= i < front.len() && (#[trigger] front[i].info matches Some(info)
                    && zip_keeps(info) && info.name == zip_reported(front)[k]);
            assert(items[i] == front[i]);
            assert(items[i].info is Some);
        } else {
            let last = items.len() - 1;
            assert(items[last].info is Some);
        }
    }
}

/// Where every entry of a zip archive is a file whose name is an enclosed
/// path that leads strictly below the scratch directory, and whose contents
/// can be read, every entry is written with its own contents and reported,
/// in order.
pub proof fn lemma_zip_keeps_all(items: Seq<ZipItem>)
    requires
        forall|i: int|
            0 <= i < items.len() ==> (#[trigger] items[i].info matches Some(info) && zip_keeps(info)
                && !info.is_dir) && items[i].contents is Some,
    ensures
        zip_steps(items).len() == items.len(),
        zip_reported(items).len() == items.len(),
        forall|i: int|
            0 <= i < items.len() ==> #[trigger] zip_steps(items)[i] == (StepView::WriteFile {
                path: items[i].info->0.name,
                contents: items[i].contents->0,
                executable: has_elf_magic(items[i].contents->0),
            }),
        forall|i: int|
            0 <= i < items.len() ==> #[trigger] zip_reported(items)[i] == items[i].info->0.name,
    decreases items.len(),
{
    if items.len() > 0 {
        let front = items.drop_last();
        assert forall|i: int| 0 <= i < front.len() implies (#[trigger] front[i].info matches Some(
            info,
        ) && zip_keeps(info) && !info.is_dir) && front[i].contents is Some by {
            assert(front[i] == items[i]);
            assert(items[i].info is Some);
        }
        lemma_zip_keeps_all(front);
        let last = items.len() - 1;
        assert(items[last].info is Some);
        assert forall|i: int| 0 <= i < items.len() implies #[trigger] zip_steps(items)[i] == (
        StepView::WriteFile {
            path: items[i].info->0.name,
            contents: items[i].contents->0,
            executable: has_elf_magic(items[i].contents->0),
        }) by {
            if i < front.len() {
                assert(front[i] == items[i]);
                assert(zip_steps(front)[i] == zip_steps(items)[i]);
            }
        }
        assert forall|i: int| 0 <= i < items.len() implies #[trigger] zip_reported(items)[i]
            == items[i].info->0.name by {
            if i < front.len() {
                assert(front[i] == items[i]);
                assert(zip_reported(front)[i] == zip_reported(items)[i]);
            }
        }
    }
}

/// The plan for a tarball writes below the scratch directory only.
pub proof fn lemma_tar_plan_is_safe(paths: Seq<Seq<u8>>, tar: Seq<u8>)
    ensures
        plan_is_safe(
            ExtractionView { steps: tar_steps(paths), paths: tar_reported(paths), tar },
        ),
{
    let plan = ExtractionView { steps: tar_steps(paths), paths: tar_reported(paths), tar };
    assert forall|k: int| 0 <= k < plan.steps.len() implies is_safe_path(
        step_target(#[trigger] plan.steps[k]),
    ) by {
        lemma_tar_steps_are_safe(paths, k);
    }
    assert forall|k: int| 0 <= k < plan.paths.len() implies is_safe_path(
        encode_utf8(#[trigger] plan.paths[k]),
    ) by {
        lemma_tar_reported_are_safe(paths, k);
        let i = choose|i: int|
            0 <= i < paths.len() && is_safe_path(#[trigger] paths[i]) && valid_utf8(paths[i])
                && tar_reported(paths)[k] == decode_utf8(paths[i]);
        decode_utf8_encode_utf8(paths[i]);
    }
}

/// The plan for a zip archive writes below the scratch directory only.
pub proof fn lemma_zip_plan_is_safe(items: Seq<ZipItem>)
    ensures
        plan_is_safe(
            ExtractionView {
                steps: zip_steps(items),
                paths: zip_reported(items),
                tar: Seq::empty(),
            },
        ),
{
    let plan = ExtractionView {
        steps: zip_steps(items),
        paths: zip_reported(items),
        tar: Seq::empty(),
    };
    assert forall|k: int| 0 <= k < plan.steps.len() implies is_safe_path(
        step_target(#[trigger] plan.steps[k]),
    ) by {
        lemma_zip_steps_are_enclosed(items, k);
    }
    assert forall|k: int| 0 <= k < plan.paths.len() implies is_safe_path(
        encode_utf8(#[trigger] plan.paths[k]),
    ) by {
        lemma_zip_reported_are_enclosed(items, k);
    }
}

/// Whatever the downloaded file is, where it can be unpacked, every step of
/// the plan writes to a path that is relative, has no component `..` and
/// names something, and every path that is reported is such a path: nothing
/// is put outside the scratch directory, and nothing outside it is reported.
pub proof fn lemma_extraction_is_safe(path: Seq<char>, data: Seq<u8>, plan: Extraction)
    requires
        archive_outcome(path, data, Ok(plan)),
    ensures
        plan_is_safe(plan@),
{
    let name = file_name_of(path)->0;
    match kind_of_name(name) {
        ArchiveKind::TarGz => {
            let tar = gzip_decoded(data)->0;
            lemma_tar_plan_is_safe(tar_entry_paths(tar)->0, tar);
        },
        ArchiveKind::TarBz2 => {
            let tar = bzip2_decoded(data)->0;
            lemma_tar_plan_is_safe(tar_entry_paths(tar)->0, tar);
        },
        ArchiveKind::Zip => {
            lemma_zip_plan_is_safe(zip_decoded(data)->0);
        },
        ArchiveKind::Standalone => {},
    }
}

/// The container format of a file, by the end of its name.
pub fn archive_kind(file_name: &str) -> (kind: ArchiveKind)
    ensures
        kind == kind_of_name(file_name@),
{
    let name = chars_of(file_name);
    if ends_with(&name, &chars_of(".tar.gz")) || ends_with(&name, &chars_of(".tgz")) {
        ArchiveKind::TarGz
    } else if ends_with(&name, &chars_of(".tar.bz2")) || ends_with(&name, &chars_of(".tbz")) {
        ArchiveKind::TarBz2
    } else if ends_with(&name, &chars_of(".zip")) {
        ArchiveKind::Zip
    } else {
        ArchiveKind::Standalone
    }
}

/// Whether the bytes begin with the magic number of an ELF executable.
pub fn is_elf_binary(contents: &[u8]) -> (yes: bool)
    ensures
        yes == has_elf_magic(contents@),
{
    contents.len() >= 4 && contents[0] == 0x7F && contents[1] == 0x45 && contents[2] == 0x4C
        && contents[3] == 0x46
}

/// Whether some component of the path is `..`.
pub fn has_parent_dir(path: &[u8]) -> (yes: bool)
    ensures
        yes == has_parent_component(path@),
{
    let n = path.len();
    if n < 2 {
        return false;
    }
    let mut at: usize = 0;
    while at <= n - 2
        invariant
            n == path.len(),
            2 <= n,
            forall|k: int| 0 <= k < at ==> !parent_at(path@, k),
        decreases n - at,
    {
        if path[at] == 0x2E && path[at + 1] == 0x2E && (at == 0 || path[at - 1] == 0x2F) && (at + 2
            == n || path[at + 2] == 0x2F) {
            assert(parent_at(path@, at as int));
            return true;
        }
        at += 1;
    }
    false
}

/// Whether some component of the path is neither empty nor `.`.
pub fn has_entry_name(path: &[u8]) -> (yes: bool)
    ensures
        yes == names_entry(path@),
{
    let n = path.len();
    let mut k: usize = 0;
    while k < n
        invariant
            n == path.len(),
            k <= n,
            forall|j: int| 0 <= j < k ==> !names_entry_at(path@, j),
        decreases n - k,
    {
        if path[k] != 0x2F && !(path[k] == 0x2E && (k == 0 || path[k - 1] == 0x2F) && (k + 1 == n
            || path[k + 1] == 0x2F)) {
            assert(names_entry_at(path@, k as int));
            return true;
        }
        k += 1;
    }
    false
}

/// Whether the path leads strictly below the directory that it is joined to.
pub fn is_safe(path: &[u8]) -> (yes: bool)
    ensures
        yes == is_safe_path(path@),
{
    if path.len() > 0 && path[0] == 0x2F {
        return false;
    }
    !has_parent_dir(path) && has_entry_name(path)
}

/// What `str::from_utf8` makes of bytes: the text that they encode, and
/// nothing where they are no valid UTF-8.
#[verifier::external_body]
fn utf8_text(bytes: &[u8]) -> (text: Option<String>)
    ensures
        match text {
            Some(t) => valid_utf8(bytes@) && t@ == decode_utf8(bytes@),
            None => !valid_utf8(bytes@),
        },
{
    std::str::from_utf8(bytes).ok().map(|t| t.to_string())
}

/// The paths as values.
pub open spec fn byte_paths(paths: Seq<Vec<u8>>) -> Seq<Seq<u8>> {
    paths.map_values(|p: Vec<u8>| p@)
}

/// Plans the unpacking of a tarball from the paths of its entries: each
/// entry whose path leads strictly below the scratch directory is unpacked to
/// its path and, where the path is text, reported; the others are passed
/// over in silence.
pub fn plan_tar(paths: Vec<Vec<u8>>, tar: Vec<u8>) -> (plan: Extraction)
    ensures
        plan@ == (ExtractionView {
            steps: tar_steps(byte_paths(paths@)),
            paths: tar_reported(byte_paths(paths@)),
            tar: tar@,
        }),
{
    let ghost all = byte_paths(paths@);
    let mut steps: Vec<Step> = Vec::new();
    let mut reported: Vec<String> = Vec::new();
    let mut index: usize = 0;
    assert(all.take(0).len() == 0);
    assert(all.len() == paths.len());
    for path in iter: paths
        invariant
            all.len() <= usize::MAX,
            byte_paths(iter.seq()) == all,
            index == iter.index(),
            steps@.map_values(|s: Step| s@) == tar_steps(all.take(index as int)),
            reported@.map_values(|p: String| p@) == tar_reported(all.take(index as int)),
    {
        proof {
            assert(all[index as int] == path@);
            assert(all.take(index + 1).drop_last() =~= all.take(index as int));
            assert(all.take(index + 1).last() == path@);
        }
        if is_safe(path.as_slice()) {
            match utf8_text(path.as_slice()) {
                Some(text) => {
                    reported.push(text);
                    assert(reported@.map_values(|p: String| p@) =~= tar_reported(
                        all.take(index as int),
                    ).push(text@));
                },
                None => {},
            }
            steps.push(Step::Unpack { index, target: path });
            assert(steps@.map_values(|s: Step| s@) =~= tar_steps(all.take(index as int)).push(
                StepView::Unpack { index: index as int, target: path@ },
            ));
        }
        index += 1;
    }
    assert(all.take(index as int) =~= all);
    let plan = Extraction { steps, paths: reported, tar };
    plan
}

/// Plans the unpacking of a file that is no archive: a name that is no
/// path below the scratch directory, an empty file and a file that does not
/// begin as an ELF executable are refused; an executable is copied under its
/// own name, made executable, and reported.
pub fn plan_standalone(file_name: &str, data: &[u8]) -> (r: Result<Extraction>)
    ensures
        standalone_outcome(file_name@, data@, r),
{
    if !is_safe(file_name.as_bytes()) {
        return Err(OktofetchError::ExtractionFailed(String::from_str("Invalid archive name")));
    }
    if data.len() == 0 {
        return Err(
            OktofetchError::ExtractionFailed(concat2("Downloaded file is empty: ", file_name)),
        );
    }
    if !is_elf_binary(data) {
        return Err(
            OktofetchError::ExtractionFailed(concat2("Unsupported archive format: ", file_name)),
        );
    }
    let mut steps: Vec<Step> = Vec::new();
    steps.push(Step::CopySource { path: String::from_str(file_name) });
    let mut paths: Vec<String> = Vec::new();
    paths.push(String::from_str(file_name));
    let plan = Extraction { steps, paths, tar: Vec::new() };
    assert(plan@.steps =~= seq![StepView::CopySource { path: file_name@ }]);
    assert(plan@.paths =~= seq![file_name@]);
    Ok(plan)
}

/// Reads a gzip stream to its end with `flate2::read::GzDecoder`. The
/// contract names the decompressed bytes, and says that there are none
/// exactly where the decoder reports an error.
#[verifier::external_body]
fn gunzip(data: &[u8]) -> (r: std::result::Result<Vec<u8>, std::io::Error>)
    ensures
        match r {
            Ok(out) => gzip_decoded(data@) == Some(out@),
            Err(_) => gzip_decoded(data@) is None,
        },
{
    let mut out = Vec::new();
    flate2::read::GzDecoder::new(data).read_to_end(&mut out)?;
    Ok(out)
}

/// Reads a bzip2 stream to its end with `bzip2::read::BzDecoder`. The
/// contract names the decompressed bytes, and says that there are none
/// exactly where the decoder reports an error.
#[verifier::external_body]
fn bunzip2(data: &[u8]) -> (r: std::result::Result<Vec<u8>, std::io::Error>)
    ensures
        match r {
            Ok(out) => bzip2_decoded(data@) == Some(out@),
            Err(_) => bzip2_decoded(data@) is None,
        },
{
    let mut out = Vec::new();
    bzip2::read::BzDecoder::new(data).read_to_end(&mut out)?;
    Ok(out)
}

/// Walks the entries of a tarball with `tar::Archive::entries` and takes
/// the path of each with `Entry::path_bytes`. The contract names the paths,
/// and says that there are none exactly where the walk reports an error.
#[verifier::external_body]
fn tar_paths(tar: &[u8]) -> (r: std::result::Result<Vec<Vec<u8>>, std::io::Error>)
    ensures
        match r {
            Ok(paths) => tar_entry_paths(tar@) == Some(byte_paths(paths@)),
            Err(_) => tar_entry_paths(tar@) is None,
        },
{
    tar::Archive::new(tar).entries()?.map(|e| Ok(e?.path_bytes().into_owned())).collect()
}

/// Opens a zip archive that is held in memory with `zip::ZipArchive::new`.
/// The contract names the entries of the archive that the bytes are; an
/// error comes back as its text, exactly where the bytes are no archive.
#[verifier::external_body]
fn zip_open(data: Vec<u8>) -> (r: std::result::Result<
    zip::ZipArchive<std::io::Cursor<Vec<u8>>>,
    String,
>)
    ensures
        match r {
            Ok(archive) => zip_decoded(data@) == Some(zip_items(archive)),
            Err(_) => zip_decoded(data@) is None,
        },
{
    zip::ZipArchive::new(std::io::Cursor::new(data)).map_err(|e| e.to_string())
}

/// Calls `ZipArchive::len`: the number of entries.
#[verifier::external_body]
fn zip_len(archive: &zip::ZipArchive<std::io::Cursor<Vec<u8>>>) -> (n: usize)
    ensures
        n == zip_items(*archive).len(),
{
    archive.len()
}

/// Opens the entry at `i` with `ZipArchive::by_index_decrypt` and an empty
/// password, and asks it for `name`, `enclosed_name` and `is_dir`. An entry
/// that needs no password opens as with `by_index`. An encrypted entry is
/// tried with the empty password: the archive's one-byte check lets about
/// one wrong password in 256 pass, so such an entry may open, and its
/// contents then fail to read or are not what was packed. `by_index` is not
/// called because it does not return for an entry that is marked for AES
/// and not flagged as encrypted. The archive holds the same entries after
/// the call; an error comes back as its text, exactly where the entry cannot
/// be opened.
#[verifier::external_body]
fn zip_entry_info(archive: &mut zip::ZipArchive<std::io::Cursor<Vec<u8>>>, i: usize) -> (r:
    std::result::Result<ZipEntryInfo, String>)
    requires
        i < zip_items(*old(archive)).len(),
    ensures
        zip_items(*final(archive)) == zip_items(*old(archive)),
        match r {
            Ok(info) => zip_items(*old(archive))[i as int].info == Some(info@),
            Err(_) => zip_items(*old(archive))[i as int].info is None,
        },
{
    match archive.by_index_decrypt(i, &[]) {
        Ok(Ok(file)) => Ok(
            ZipEntryInfo {
                name: file.name().to_string(),
                enclosed: file.enclosed_name().is_some(),
                is_dir: file.is_dir(),
            },
        ),
        Ok(Err(e)) => Err(e.to_string()),
        Err(e) => Err(e.to_string()),
    }
}

/// Opens the entry at `i` as `zip_entry_info` does and reads it to its end.
/// The archive holds the same entries after the call; an error comes back
/// exactly where the contents cannot be read.
#[verifier::external_body]
fn zip_entry_contents(archive: &mut zip::ZipArchive<std::io::Cursor<Vec<u8>>>, i: usize) -> (r:
    std::result::Result<Vec<u8>, std::io::Error>)
    requires
        i < zip_items(*old(archive)).len(),
    ensures
        zip_items(*final(archive)) == zip_items(*old(archive)),
        match r {
            Ok(out) => zip_items(*old(archive))[i as int].contents == Some(out@),
            Err(_) => zip_items(*old(archive))[i as int].contents is None,
        },
{
    let mut out = Vec::new();
    match archive.by_index_decrypt(i, &[]) {
        Ok(Ok(mut file)) => file.read_to_end(&mut out).map(|_| out),
        Ok(Err(e)) => Err(std::io::Error::new(std::io::ErrorKind::Other, e)),
        Err(e) => Err(e.into()),
    }
}

/// What is done with an entry of a zip archive.
pub fn zip_action(info: &ZipEntryInfo) -> (action: ZipAction)
    ensures
        action == zip_action_of(info@),
{
    if !info.enclosed || !is_safe(info.name.as_str().as_bytes()) {
        ZipAction::Skip
    } else if info.is_dir {
        ZipAction::MakeDir
    } else {
        ZipAction::WriteFile
    }
}

/// The step that writes a file of a zip archive.
pub fn file_step(path: String, contents: Vec<u8>) -> (step: Step)
    ensures
        step@ == (StepView::WriteFile {
            path: path@,
            contents: contents@,
            executable: has_elf_magic(contents@),
        }),
{
    let executable = is_elf_binary(contents.as_slice());
    Step::WriteFile { path, contents, executable }
}

/// Plans the unpacking of a tarball that is held in memory.
pub fn extract_tar(tar: Vec<u8>) -> (r: Result<Extraction>)
    ensures
        tar_outcome(Some(tar@), r),
{
    match tar_paths(tar.as_slice()) {
        Ok(paths) => Ok(plan_tar(paths, tar)),
        Err(e) => Err(OktofetchError::Io(e)),
    }
}

/// Plans the unpacking of a gzipped tarball.
pub fn extract_tar_gz(data: &[u8]) -> (r: Result<Extraction>)
    ensures
        tar_outcome(gzip_decoded(data@), r),
{
    match gunzip(data) {
        Ok(tar) => extract_tar(tar),
        Err(e) => Err(OktofetchError::Io(e)),
    }
}

/// Plans the unpacking of a bzipped tarball.
pub fn extract_tar_bz2(data: &[u8]) -> (r: Result<Extraction>)
    ensures
        tar_outcome(bzip2_decoded(data@), r),
{
    match bunzip2(data) {
        Ok(tar) => extract_tar(tar),
        Err(e) => Err(OktofetchError::Io(e)),
    }
}

/// Plans the unpacking of a zip archive: an entry whose name is no enclosed
/// path, or no path that leads strictly below the scratch directory, is
/// passed over in silence; a directory is created; a file is written and,
/// where it begins as an ELF executable, made executable; the name of each
/// entry that is not passed over is reported.
pub fn extract_zip(data: Vec<u8>) -> (r: Result<Extraction>)
    ensures
        zip_outcome(zip_decoded(data@), r),
{
    let mut archive = match zip_open(data) {
        Ok(archive) => archive,
        Err(text) => {
            let detail = concat2("Failed to open zip archive: ", text.as_str());
            assert(detail@.subrange(0, "Failed to open zip archive: "@.len() as int)
                =~= "Failed to open zip archive: "@);
            return Err(OktofetchError::ExtractionFailed(detail));
        },
    };
    let ghost items = zip_items(archive);
    let n = zip_len(&archive);
    let mut steps: Vec<Step> = Vec::new();
    let mut reported: Vec<String> = Vec::new();
    let mut i: usize = 0;
    assert(items.take(0).len() == 0);
    while i < n
        invariant
            i <= n,
            n == items.len(),
            zip_decoded(data@) == Some(items),
            zip_items(archive) == items,
            forall|j: int| 0 <= j < i ==> zip_item_ok(#[trigger] items[j]),
            steps@.map_values(|s: Step| s@) == zip_steps(items.take(i as int)),
            reported@.map_values(|p: String| p@) == zip_reported(items.take(i as int)),
        decreases n - i,
    {
        proof {
            assert(items.take(i + 1).drop_last() =~= items.take(i as int));
            assert(items.take(i + 1).last() == items[i as int]);
        }
        let info = match zip_entry_info(&mut archive, i) {
            Ok(info) => info,
            Err(text) => {
                let detail = concat2("Failed to extract file: ", text.as_str());
                assert(detail@.subrange(0, "Failed to extract file: "@.len() as int)
                    =~= "Failed to extract file: "@);
                assert(zip_fails_at(items, i as int));
                return Err(OktofetchError::ExtractionFailed(detail));
            },
        };
        match zip_action(&info) {
            ZipAction::Skip => {},
            ZipAction::MakeDir => {
                steps.push(Step::MakeDir { path: info.name.clone() });
                assert(steps@.map_values(|s: Step| s@) =~= zip_steps(items.take(i as int)).push(
                    StepView::MakeDir { path: info.name@ },
                ));
                reported.push(info.name);
                assert(reported@.map_values(|p: String| p@) =~= zip_reported(
                    items.take(i as int),
                ).push(info.name@));
            },
            ZipAction::WriteFile => {
                let contents = match zip_entry_contents(&mut archive, i) {
                    Ok(contents) => contents,
                    Err(e) => {
                        assert(zip_fails_at(items, i as int));
                        return Err(OktofetchError::Io(e));
                    },
                };
                let step = file_step(info.name.clone(), contents);
                steps.push(step);
                assert(steps@.map_values(|s: Step| s@) =~= zip_steps(items.take(i as int)).push(
                    step@,
                ));
                reported.push(info.name);
                assert(reported@.map_values(|p: String| p@) =~= zip_reported(
                    items.take(i as int),
                ).push(info.name@));
            },
        }
        i += 1;
    }
    assert(items.take(i as int) =~= items);
    let plan = Extraction { steps, paths: reported, tar: Vec::new() };
    Ok(plan)
}

/// Plans the unpacking of a downloaded file from its path and its bytes. The
/// end of the file's name decides: a gzipped or bzipped tarball and a zip
/// archive are unpacked entry by entry; any other file must be an ELF
/// executable and is taken as it is.
pub fn extract_archive(archive_path: &str, data: Vec<u8>) -> (r: Result<Extraction>)
    ensures
        archive_outcome(archive_path@, data@, r),
{
    let name = match file_name(archive_path) {
        Some(name) => name,
        None => {
            return Err(
                OktofetchError::ExtractionFailed(String::from_str("Invalid archive name")),
            );
        },
    };
    match archive_kind(name.as_str()) {
        ArchiveKind::TarGz => extract_tar_gz(data.as_slice()),
        ArchiveKind::TarBz2 => extract_tar_bz2(data.as_slice()),
        ArchiveKind::Zip => extract_zip(data),
        ArchiveKind::Standalone => plan_standalone(name.as_str(), data.as_slice()),
    }
}

} // verus!
