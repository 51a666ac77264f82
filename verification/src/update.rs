//! The course of one update: what has been reached, what happens outside
//! next, and what its outcome makes of the update.

use vstd::prelude::*;
use vstd::string::*;
use crate::archive::{Extraction, archive_outcome, extract_archive};
use crate::binary::{
    ExtractedFile, InstallPlan, ambiguous_message, candidate_names, file_views, find_binary,
    install_binary, is_binary_pick, no_candidates, none_found_message,
};
use crate::config::{
    Config, ConfigView, Tool, ToolView, first_named, lemma_first_named_none,
    lemma_with_version_keeps_names, with_version,
};
use crate::error::{OktofetchError, Result, concat2, exit_code_of, is_message_of};
use crate::github::{Asset, Release, asset_names};
use crate::paths::{join_path, joined_path};
use crate::platform::validate_platform;
use crate::text::{decimal, decimal_text, same_text, text_of};
use crate::tool::{has_pick, is_no_suitable_release, is_pick, select_asset};

verus! {

/// What an update has reached.
#[derive(Debug)]
pub enum Stage {
    /// The latest release is being asked for.
    Resolving,
    /// The latest release is known; whether the binary is installed is
    /// being looked up.
    HasRelease { release: Release },
    /// The tool is installed in the latest version: nothing was done.
    UpToDate,
    /// An asset was chosen and is being downloaded.
    Downloading { tag: String, asset: Asset },
    /// The download was unpacked on paper; its entries are being put under
    /// the scratch directory.
    Extracted { tag: String },
    /// The binary was found and is being installed.
    Located { tag: String },
    /// The binary is installed and the release's tag is recorded in the
    /// registry, which is being persisted; `previous` is the version that was
    /// recorded before.
    Saving { previous: Option<String> },
    /// The binary is installed, the version is recorded and the registry is
    /// persisted.
    Installed,
    /// The update failed; `code` is the exit code of the failure.
    Failed { code: i32 },
}

/// What came of the outside work that the last action asked for.
#[derive(Debug)]
pub enum Event {
    /// The release source told the latest release.
    ReleaseFetched { release: Release },
    /// Whether a file stands where the binary is installed.
    BinaryChecked { exists: bool },
    /// The asset was downloaded: its bytes.
    Downloaded { data: Vec<u8> },
    /// The steps of the extraction were carried out: what now stands at each
    /// reported path, and whether the install directory exists.
    Unpacked { files: Vec<ExtractedFile>, install_dir_exists: bool },
    /// The binary was installed.
    Installed,
    /// The registry was persisted.
    Saved,
    /// The outside work failed.
    Failed { error: OktofetchError },
}

/// The outside work that an update asks for next.
#[derive(Debug)]
pub enum Action {
    /// Ask the release source for the latest release of the repository.
    FetchRelease { repo: String },
    /// Look whether a file stands at the path.
    CheckBinary { path: String },
    /// Download the asset from the address, under the file name.
    Download { url: String, file_name: String },
    /// Carry out the steps of the extraction under a fresh scratch directory.
    Materialize { plan: Extraction },
    /// Install the file at `source`, a path below the scratch directory.
    Install { source: String, install: InstallPlan },
    /// Persist the registry.
    Save,
    /// Nothing is left to do.
    Finish,
    /// Report the failure: the update is over.
    Fail { error: OktofetchError },
}

/// One update of one tool.
#[derive(Debug)]
pub struct Update {
    pub tool: Tool,
    pub force: bool,
    pub install_dir: String,
    pub stage: Stage,
}

/// The name under which the tool's binary is looked for and installed: the
/// binary name where one is set, else the tool's own name.
pub open spec fn binary_name_of(tool: Tool) -> Seq<char> {
    match tool.binary_name {
        Some(name) => name@,
        None => tool.name@,
    }
}

/// Nothing needs to be done: the update is not forced, the binary is
/// installed, and the recorded version is the release's tag.
pub open spec fn is_up_to_date(tool: Tool, force: bool, exists: bool, tag: Seq<char>) -> bool {
    !force && exists && text_of(tool.version) == Some(tag)
}

/// The update is over.
pub open spec fn is_terminal(stage: Stage) -> bool {
    stage is UpToDate || stage is Installed || stage is Failed
}

/// The event is one that the stage waits for.
pub open spec fn fits(stage: Stage, event: Event) -> bool {
    ||| event is Failed
    ||| stage is Resolving && event is ReleaseFetched
    ||| stage is HasRelease && event is BinaryChecked
    ||| stage is Downloading && event is Downloaded
    ||| stage is Extracted && event is Unpacked
    ||| stage is Located && event is Installed
    ||| stage is Saving && event is Saved
}

/// The registry as it was before the update recorded anything in it: while
/// the registry is being persisted, the registry with the version that was
/// recorded before; else the registry as it is.
pub open spec fn registry_before(update: Update, config: Config) -> ConfigView {
    match update.stage {
        Stage::Saving { previous } => match first_named(config@.tools, update.tool.name@) {
            Some(i) => with_version(config@, i, text_of(previous)),
            None => config@,
        },
        _ => config@,
    }
}

/// The update failed with this failure.
pub open spec fn failed_with(stage: Stage, action: Action, error: OktofetchError) -> bool {
    stage == (Stage::Failed { code: exit_code_of(error) as i32 }) && action == (Action::Fail {
        error,
    })
}

/// The step may change the registry: it takes in that the binary was
/// installed, or that the registry was not persisted.
pub open spec fn touches_registry(stage: Stage, event: Event) -> bool {
    (stage is Located && event is Installed) || (stage is Saving && !(event is Saved))
}

/// What one step makes of an update: the stage that it reaches, the action
/// that it asks for, and the registry that it leaves. While the registry is
/// being persisted, any event but the report that it was persisted puts the
/// version back that was recorded before, and fails the update.
pub open spec fn is_step(
    before: Update,
    event: Event,
    config: Config,
    after: Update,
    action: Action,
    config_after: Config,
) -> bool {
    &&& after.tool == before.tool
    &&& after.force == before.force
    &&& after.install_dir == before.install_dir
    &&& touches_registry(before.stage, event) || config_after == config
    &&& before.stage is Saving && !(event is Saved) ==> config_after@ == registry_before(
        before,
        config,
    )
    &&& if is_terminal(before.stage) {
        after.stage == before.stage && action is Finish
    } else if !fits(before.stage, event) {
        after.stage == (Stage::Failed { code: 6 }) && (action matches Action::Fail {
            error: OktofetchError::Other(detail),
        } && detail@ == "Unexpected event"@)
    } else {
        match event {
            Event::Failed { error } => failed_with(after.stage, action, error),
            Event::Saved => after.stage is Installed && action is Finish,
            Event::ReleaseFetched { release } => {
                &&& after.stage == Stage::HasRelease { release }
                &&& action matches Action::CheckBinary { path } && path@ == joined_path(
                    before.install_dir@,
                    binary_name_of(before.tool),
                )
            },
            Event::BinaryChecked { exists } => {
                let release = before.stage->HasRelease_release;
                let names = asset_names(release.assets@);
                let pattern = text_of(before.tool.asset_pattern);
                if is_up_to_date(before.tool, before.force, exists, release.tag_name@) {
                    after.stage is UpToDate && action is Finish
                } else if has_pick(names, pattern) {
                    exists|i: int|
                        {
                            &&& #[trigger] is_pick(names, pattern, i)
                            &&& after.stage == (Stage::Downloading {
                                tag: release.tag_name,
                                asset: release.assets@[i],
                            })
                            &&& action matches Action::Download { url, file_name } && url
                                == release.assets@[i].browser_download_url && file_name
                                == release.assets@[i].name
                        }
                } else {
                    after.stage == (Stage::Failed { code: 3 }) && (action matches Action::Fail {
                        error,
                    } && is_no_suitable_release(error))
                }
            },
            Event::Downloaded { data } => {
                let tag = before.stage->Downloading_tag;
                let asset = before.stage->Downloading_asset;
                match action {
                    Action::Materialize { plan } => after.stage == (Stage::Extracted { tag })
                        && archive_outcome(asset.name@, data@, Ok(plan)),
                    Action::Fail { error } => after.stage == (Stage::Failed {
                        code: exit_code_of(error) as i32,
                    }) && archive_outcome(asset.name@, data@, Err(error)),
                    _ => false,
                }
            },
            Event::Unpacked { files, install_dir_exists } => {
                let tag = before.stage->Extracted_tag;
                let name = binary_name_of(before.tool);
                match action {
                    Action::Install { source, install } => {
                        &&& after.stage == Stage::Located { tag }
                        &&& exists|i: int| #[trigger]
                            is_binary_pick(file_views(files@), name, i) && source == files@[i].path
                        &&& install.create_dir == !install_dir_exists
                        &&& install.dest@ == joined_path(before.install_dir@, name)
                        &&& install.mode == 0o755
                    },
                    Action::Fail { error } => {
                        &&& after.stage == Stage::Failed { code: 9 }
                        &&& forall|i: int| !is_binary_pick(file_views(files@), name, i)
                        &&& error matches OktofetchError::BinaryNotFound(detail) && detail@
                            == if no_candidates(file_views(files@)) {
                            none_found_message()
                        } else {
                            ambiguous_message(candidate_names(file_views(files@)))
                        }
                    },
                    _ => false,
                }
            },
            Event::Installed => {
                let tag = before.stage->Located_tag;
                match first_named(config@.tools, before.tool.name@) {
                    Some(i) => {
                        &&& after.stage matches Stage::Saving { previous } && text_of(previous)
                            == config@.tools[i].version
                        &&& action is Save
                        &&& config_after@ == with_version(config@, i, Some(tag@))
                    },
                    None => {
                        &&& config_after == config
                        &&& after.stage == Stage::Failed { code: 1 }
                        &&& action matches Action::Fail {
                            error: OktofetchError::ToolNotFound(missing),
                        } && missing@ == before.tool.name@
                    },
                }
            },
        }
    }
}

/// An update that is not forced, of a tool whose binary is installed and
/// whose recorded version is the latest release's tag, ends at once: nothing
/// is downloaded, unpacked or installed, and the registry stays as it is.
pub proof fn lemma_up_to_date_does_nothing(
    before: Update,
    event: Event,
    config: Config,
    after: Update,
    action: Action,
    config_after: Config,
)
    requires
        is_step(before, event, config, after, action, config_after),
        before.stage matches Stage::HasRelease { release } && text_of(before.tool.version) == Some(
            release.tag_name@,
        ),
        event == (Event::BinaryChecked { exists: true }),
        !before.force,
    ensures
        after.stage is UpToDate,
        action is Finish,
        config_after == config,
        after.tool == before.tool,
{
}

/// An update that is over stays as it is, whatever comes: no step asks for
/// outside work again, and the registry stays as it is.
pub proof fn lemma_finished_update_stays(
    before: Update,
    event: Event,
    config: Config,
    after: Update,
    action: Action,
    config_after: Config,
)
    requires
        is_step(before, event, config, after, action, config_after),
        is_terminal(before.stage),
    ensures
        after == before,
        action is Finish,
        config_after == config,
{
}

/// A step changes the registry in two cases only. When it takes in that the
/// binary was installed, the recorded version of the tool becomes the tag of
/// the release, and the registry is to be persisted. When persisting is not
/// reported done, the version that was recorded before is put back.
pub proof fn lemma_version_recorded_only_after_install(
    before: Update,
    event: Event,
    config: Config,
    after: Update,
    action: Action,
    config_after: Config,
)
    requires
        is_step(before, event, config, after, action, config_after),
        config_after@ != config@,
    ensures
        before.stage is Located || before.stage is Saving,
        before.stage is Located ==> event is Installed && after.stage is Saving && action is Save
            && (first_named(config@.tools, before.tool.name@) matches Some(i) && config_after@
            == with_version(config@, i, Some(before.stage->Located_tag@))),
        before.stage is Saving ==> !(event is Saved) && after.stage is Failed && config_after@
            == registry_before(before, config),
{
}

/// An update ends as installed only when the registry is reported persisted.
pub proof fn lemma_installed_means_saved(
    before: Update,
    event: Event,
    config: Config,
    after: Update,
    action: Action,
    config_after: Config,
)
    requires
        is_step(before, event, config, after, action, config_after),
        after.stage is Installed,
        !(before.stage is Installed),
    ensures
        before.stage is Saving,
        event is Saved,
        config_after == config,
{
}

/// Until an update ends as installed, every step keeps what the registry was
/// before the update recorded anything; and a step that ends in failure, a
/// failure to persist the registry included, leaves the registry as that.
/// So an update that fails, at whatever step, leaves the registry as it was
/// when the update began.
pub proof fn lemma_failure_keeps_registry(
    before: Update,
    event: Event,
    config: Config,
    after: Update,
    action: Action,
    config_after: Config,
)
    requires
        is_step(before, event, config, after, action, config_after),
        !(after.stage is Installed),
    ensures
        registry_before(after, config_after) == registry_before(before, config),
        after.stage is Failed ==> config_after@ == registry_before(before, config),
{
    if before.stage is Located && event is Installed {
        lemma_first_named_none(config@.tools, before.tool.name@);
        match first_named(config@.tools, before.tool.name@) {
            Some(i) => {
                let tag = before.stage->Located_tag;
                let previous = after.stage->Saving_previous;
                lemma_with_version_keeps_names(config@, i, Some(tag@), before.tool.name@);
                assert(with_version(config_after@, i, text_of(previous)).tools =~= config@.tools);
            },
            None => {},
        }
    }
}

/// One step of an update as it was taken.
pub struct Taken {
    pub before: Update,
    pub event: Event,
    pub config: Config,
    pub after: Update,
    pub action: Action,
    pub config_after: Config,
}

/// The steps are those of one update, one after the other: each is a step,
/// and each takes the update and the registry as the step before left them.
pub open spec fn is_run(steps: Seq<Taken>) -> bool {
    &&& forall|k: int|
        0 <= k < steps.len() ==> is_step(
            (#[trigger] steps[k]).before,
            steps[k].event,
            steps[k].config,
            steps[k].after,
            steps[k].action,
            steps[k].config_after,
        )
    &&& forall|k: int|
        0 < k < steps.len() ==> (#[trigger] steps[k]).before == steps[k - 1].after
            && steps[k].config == steps[k - 1].config_after
}

/// As long as an update that began at its beginning has not ended as
/// installed, what its steps keep of the registry is the registry as the
/// update found it.
pub proof fn lemma_run_keeps_registry(steps: Seq<Taken>, k: int)
    requires
        is_run(steps),
        0 <= k < steps.len(),
        steps[0].before.stage is Resolving,
        !(steps[k].after.stage is Installed),
    ensures
        registry_before(steps[k].after, steps[k].config_after) == steps[0].config@,
        steps[k].after.stage is Failed ==> steps[k].config_after@ == steps[0].config@,
    decreases k,
{
    let step = steps[k];
    if k > 0 {
        let last = steps[k - 1];
        assert(step.before == last.after && step.config == last.config_after);
        if last.after.stage is Installed {
            assert(is_terminal(step.before.stage));
        }
        lemma_run_keeps_registry(steps, k - 1);
    }
    lemma_failure_keeps_registry(
        step.before,
        step.event,
        step.config,
        step.after,
        step.action,
        step.config_after,
    );
}

/// An update that fails, at whatever step and for whatever reason, a
/// failure to persist the registry included, leaves the registry as it
/// found it: no recorded version has changed.
pub proof fn lemma_failed_update_keeps_registry(steps: Seq<Taken>)
    requires
        is_run(steps),
        steps.len() > 0,
        steps[0].before.stage is Resolving,
        steps.last().after.stage is Failed,
    ensures
        steps.last().config_after@ == steps[0].config@,
{
    lemma_run_keeps_registry(steps, steps.len() - 1);
}

/// When the binary has been installed and the registry is then reported
/// persisted, the update ends as installed, and the registry is as it was
/// but for the tool's recorded version, which is the tag of the release.
pub proof fn lemma_saved_update_records_the_tag(first: Taken, second: Taken)
    requires
        is_run(seq![first, second]),
        first.before.stage is Located,
        first.event is Installed,
        second.event is Saved,
        first_named(first.config@.tools, first.before.tool.name@) is Some,
    ensures
        second.after.stage is Installed,
        second.config_after@ == with_version(
            first.config@,
            first_named(first.config@.tools, first.before.tool.name@)->0,
            Some(first.before.stage->Located_tag@),
        ),
{
    let steps = seq![first, second];
    assert(steps[0] == first && steps[1] == second);
    assert(steps[1].before == steps[0].after && steps[1].config == steps[0].config_after);
}

fn unexpected_event() -> (e: OktofetchError)
    ensures
        e matches OktofetchError::Other(detail) && detail@ == "Unexpected event"@,
{
    OktofetchError::Other(String::from_str("Unexpected event"))
}

impl Update {
    /// Begins the update of the tool of that name: the tool must be in the
    /// registry and the platform must be the one that is served. The first
    /// action asks for the latest release of the tool's repository.
    pub fn start(config: &Config, tool_name: &str, force: bool, os: &str, arch: &str) -> (r: Result<
        (Update, Action),
    >)
        ensures
            match first_named(config@.tools, tool_name@) {
                None => r matches Err(OktofetchError::ToolNotFound(missing)) && missing@
                    == tool_name@,
                Some(i) => if os@ != "linux"@ {
                    r matches Err(OktofetchError::Other(detail)) && detail@ == "Unsupported OS: "@
                        + os@
                } else if arch@ != "x86_64"@ {
                    r matches Err(OktofetchError::Other(detail)) && detail@
                        == "Unsupported arch: "@ + arch@
                } else {
                    r matches Ok((update, action)) && update.tool == config.tools@[i]
                        && update.force == force && update.install_dir
                        == config.settings.install_dir && update.stage is Resolving && action == (
                    Action::FetchRelease { repo: config.tools@[i].repo })
                },
            },
    {
        let tool = match config.get_tool(tool_name) {
            Some(tool) => tool.clone(),
            None => {
                return Err(OktofetchError::ToolNotFound(String::from_str(tool_name)));
            },
        };
        match validate_platform(os, arch) {
            Ok(()) => {},
            Err(e) => {
                return Err(e);
            },
        }
        let repo = tool.repo.clone();
        let update = Update {
            tool,
            force,
            install_dir: config.settings.install_dir.clone(),
            stage: Stage::Resolving,
        };
        Ok((update, Action::FetchRelease { repo }))
    }

    /// The name under which the binary is looked for and installed.
    pub fn binary_name(&self) -> (name: &str)
        ensures
            name@ == binary_name_of(self.tool),
    {
        match &self.tool.binary_name {
            Some(name) => name.as_str(),
            None => self.tool.name.as_str(),
        }
    }

    /// Whether nothing needs to be done for a release with this tag.
    pub fn up_to_date(&self, exists: bool, tag: &str) -> (yes: bool)
        ensures
            yes == is_up_to_date(self.tool, self.force, exists, tag@),
    {
        if self.force || !exists {
            return false;
        }
        match &self.tool.version {
            Some(version) => same_text(version.as_str(), tag),
            None => false,
        }
    }

    fn fail(self, error: OktofetchError) -> (next: (Update, Action))
        ensures
            next.0.tool == self.tool,
            next.0.force == self.force,
            next.0.install_dir == self.install_dir,
            failed_with(next.0.stage, next.1, error),
    {
        let code = error.exit_code();
        (
            Update {
                tool: self.tool,
                force: self.force,
                install_dir: self.install_dir,
                stage: Stage::Failed { code },
            },
            Action::Fail { error },
        )
    }

    /// Takes the outcome of the outside work in and tells what is to happen
    /// next. The registry is changed in two cases only: when the binary has
    /// been installed, the tool's recorded version becomes the release's tag;
    /// and when the registry is then not reported persisted, the version that
    /// was recorded before is put back.
    pub fn step(self, event: Event, config: &mut Config) -> (next: (Update, Action))
        ensures
            is_step(self, event, *old(config), next.0, next.1, *final(config)),
    {
        let Update { tool, force, install_dir, stage } = self;
        match (stage, event) {
            (Stage::UpToDate, _) => (
                Update { tool, force, install_dir, stage: Stage::UpToDate },
                Action::Finish,
            ),
            (Stage::Installed, _) => (
                Update { tool, force, install_dir, stage: Stage::Installed },
                Action::Finish,
            ),
            (Stage::Failed { code }, _) => (
                Update { tool, force, install_dir, stage: Stage::Failed { code } },
                Action::Finish,
            ),
            (Stage::Saving { previous }, Event::Saved) => (
                Update { tool, force, install_dir, stage: Stage::Installed },
                Action::Finish,
            ),
            (Stage::Saving { previous }, event) => {
                let error = match event {
                    Event::Failed { error } => error,
                    _ => unexpected_event(),
                };
                proof {
                    lemma_first_named_none(config@.tools, tool.name@);
                }
                let _ = config.replace_tool_version(tool.name.as_str(), previous);
                Update { tool, force, install_dir, stage: Stage::Resolving }.fail(error)
            },
            (stage, Event::Failed { error }) => {
                Update { tool, force, install_dir, stage }.fail(error)
            },
            (Stage::Resolving, Event::ReleaseFetched { release }) => {
                let update = Update { tool, force, install_dir, stage: Stage::HasRelease { release } };
                let path = join_path(update.install_dir.as_str(), update.binary_name());
                (update, Action::CheckBinary { path })
            },
            (Stage::HasRelease { release }, Event::BinaryChecked { exists }) => {
                let update = Update { tool, force, install_dir, stage: Stage::Resolving };
                if update.up_to_date(exists, release.tag_name.as_str()) {
                    let Update { tool, force, install_dir, stage } = update;
                    return (
                        Update { tool, force, install_dir, stage: Stage::UpToDate },
                        Action::Finish,
                    );
                }
                match select_asset(&release.assets, &update.tool.asset_pattern) {
                    Ok(i) => {
                        let asset = release.assets[i].clone();
                        let url = asset.browser_download_url.clone();
                        let file_name = asset.name.clone();
                        let Update { tool, force, install_dir, stage } = update;
                        proof {
                            crate::tool::lemma_pick_exists(
                                asset_names(release.assets@),
                                text_of(tool.asset_pattern),
                                i as int,
                            );
                        }
                        (
                            Update {
                                tool,
                                force,
                                install_dir,
                                stage: Stage::Downloading { tag: release.tag_name, asset },
                            },
                            Action::Download { url, file_name },
                        )
                    },
                    Err(error) => {
                        assert(exit_code_of(error) == 3);
                        update.fail(error)
                    },
                }
            },
            (Stage::Downloading { tag, asset }, Event::Downloaded { data }) => {
                match extract_archive(asset.name.as_str(), data) {
                    Ok(plan) => (
                        Update { tool, force, install_dir, stage: Stage::Extracted { tag } },
                        Action::Materialize { plan },
                    ),
                    Err(error) => Update { tool, force, install_dir, stage: Stage::Resolving }.fail(
                        error,
                    ),
                }
            },
            (Stage::Extracted { tag }, Event::Unpacked { files, install_dir_exists }) => {
                let update = Update { tool, force, install_dir, stage: Stage::Resolving };
                match find_binary(&files, update.binary_name()) {
                    Ok(i) => {
                        let install = install_binary(
                            update.install_dir.as_str(),
                            install_dir_exists,
                            update.binary_name(),
                        );
                        let source = files[i].path.clone();
                        let Update { tool, force, install_dir, stage } = update;
                        (
                            Update { tool, force, install_dir, stage: Stage::Located { tag } },
                            Action::Install { source, install },
                        )
                    },
                    Err(error) => {
                        assert(exit_code_of(error) == 9);
                        update.fail(error)
                    },
                }
            },
            (Stage::Located { tag }, Event::Installed) => {
                proof {
                    lemma_first_named_none(config@.tools, tool.name@);
                }
                match config.replace_tool_version(tool.name.as_str(), Some(tag)) {
                    Ok(previous) => (
                        Update { tool, force, install_dir, stage: Stage::Saving { previous } },
                        Action::Save,
                    ),
                    Err(error) => {
                        assert(exit_code_of(error) == 1);
                        Update { tool, force, install_dir, stage: Stage::Resolving }.fail(error)
                    },
                }
            },
            (stage, _) => {
                let error = unexpected_event();
                assert(exit_code_of(error) == 6);
                Update { tool, force, install_dir, stage }.fail(error)
            },
        }
    }
}

/// The update of every tool of a registry, one after the other: the names
/// of the tools as they stood when it began, and how many updates ended well
/// and how many failed. A failure ends one tool's update only.
#[derive(Debug)]
pub struct Batch {
    names: Vec<String>,
    updated: usize,
    failed: usize,
}

/// The words that sum a batch up.
pub open spec fn summary_text(updated: nat, failed: nat) -> Seq<char> {
    "\nSummary: "@ + decimal_text(updated) + " updated, "@ + decimal_text(failed) + " failed"@
}

/// The words that tell that the update of a tool failed.
pub open spec fn is_failure_line(name: Seq<char>, error: OktofetchError, line: Seq<char>) -> bool {
    exists|msg: Seq<char>|
        is_message_of(error, msg) && line == "Failed to update "@ + name + ": "@ + msg
}

/// The words that tell that the update of a tool failed: its name, and the
/// message of the failure.
pub fn failure_line(tool_name: &str, error: &OktofetchError) -> (line: String)
    ensures
        is_failure_line(tool_name@, *error, line@),
{
    let msg = error.message();
    let line = concat2("Failed to update ", tool_name).concat(": ").concat(msg.as_str());
    assert(is_message_of(*error, msg@) && line@ == "Failed to update "@ + tool_name@ + ": "@
        + msg@);
    line
}

impl Batch {
    /// No more updates are counted than there are tools.
    #[verifier::type_invariant]
    pub closed spec fn counted(self) -> bool {
        self.updated + self.failed <= self.names.len()
    }

    /// The names of the tools, in the order of the registry.
    pub closed spec fn names(self) -> Seq<Seq<char>> {
        self.names@.map_values(|n: String| n@)
    }

    /// How many updates ended well.
    pub closed spec fn updated(self) -> nat {
        self.updated as nat
    }

    /// How many updates failed.
    pub closed spec fn failed(self) -> nat {
        self.failed as nat
    }

    /// A batch for the tools of the registry, none of them updated yet.
    pub fn new(config: &Config) -> (batch: Batch)
        ensures
            batch.names() == config@.tools.map_values(|t: ToolView| t.name),
            batch.updated() == 0,
            batch.failed() == 0,
    {
        let mut names: Vec<String> = Vec::new();
        let mut i: usize = 0;
        while i < config.tools.len()
            invariant
                i <= config.tools.len(),
                names@.map_values(|n: String| n@) == config@.tools.take(i as int).map_values(
                    |t: ToolView| t.name,
                ),
            decreases config.tools.len() - i,
        {
            let ghost before = names@.map_values(|n: String| n@);
            let name = config.tools[i].name.clone();
            assert(config@.tools[i as int].name == name@);
            names.push(name);
            assert(names@.map_values(|n: String| n@) =~= before.push(name@));
            assert(config@.tools.take(i + 1).map_values(|t: ToolView| t.name)
                =~= config@.tools.take(i as int).map_values(|t: ToolView| t.name).push(name@));
            i += 1;
            assert(names@.map_values(|n: String| n@) =~= config@.tools.take(i as int).map_values(
                |t: ToolView| t.name,
            ));
        }
        assert(config@.tools.take(i as int) =~= config@.tools);
        Batch { names, updated: 0, failed: 0 }
    }

    /// The tool whose update is next, if any is left.
    pub fn next_tool(&self) -> (next: Option<&String>)
        ensures
            self.updated() + self.failed() <= self.names().len(),
            match next {
                Some(name) => self.updated() + self.failed() < self.names().len() && name@
                    == self.names()[(self.updated() + self.failed()) as int],
                None => self.updated() + self.failed() == self.names().len(),
            },
    {
        proof {
            use_type_invariant(self);
        }
        let done = self.updated + self.failed;
        if done < self.names.len() {
            Some(&self.names[done])
        } else {
            None
        }
    }

    /// Counts the outcome of the update that was next. Where none was left,
    /// nothing is counted.
    pub fn record(self, succeeded: bool) -> (batch: Batch)
        ensures
            batch.names() == self.names(),
            self.updated() + self.failed() < self.names().len() ==> batch.updated()
                == self.updated() + if succeeded {
                1nat
            } else {
                0nat
            } && batch.failed() == self.failed() + if succeeded {
                0nat
            } else {
                1nat
            },
            self.updated() + self.failed() >= self.names().len() ==> batch.updated()
                == self.updated() && batch.failed() == self.failed(),
    {
        proof {
            use_type_invariant(&self);
        }
        let Batch { names, updated, failed } = self;
        if updated + failed >= names.len() {
            Batch { names, updated, failed }
        } else if succeeded {
            Batch { names, updated: updated + 1, failed }
        } else {
            Batch { names, updated, failed: failed + 1 }
        }
    }

    /// How many updates ended well, and how many failed.
    pub fn counts(&self) -> (n: (usize, usize))
        ensures
            n.0 == self.updated(),
            n.1 == self.failed(),
    {
        (self.updated, self.failed)
    }

    /// The words that sum the batch up.
    pub fn summary(&self) -> (text: String)
        ensures
            text@ == summary_text(self.updated(), self.failed()),
    {
        let mut text = String::from_str("\nSummary: ");
        text.append(decimal(self.updated).as_str());
        text.append(" updated, ");
        text.append(decimal(self.failed).as_str());
        text.append(" failed");
        text
    }
}

} // verus!
