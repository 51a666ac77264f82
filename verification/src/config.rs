//! The registry of managed tools and its settings.

use vstd::prelude::*;
use vstd::string::*;
use crate::paths::{join_path, joined_path};
use crate::error::{OktofetchError, Result, concat2};
use crate::seqs::{lemma_filter_empty, lemma_filter_step};
use crate::text::{clone_text, same_text, text_of};

verus! {

/// A managed tool: its name, which is its key in the registry, the repository
/// it comes from, and what is known of how to install it.
#[derive(Debug)]
pub struct Tool {
    pub name: String,
    pub repo: String,
    pub binary_name: Option<String>,
    pub asset_pattern: Option<String>,
    pub version: Option<String>,
}

/// Where binaries are installed.
#[derive(Debug)]
pub struct Settings {
    pub install_dir: String,
}

/// The registry: the settings and the tools, in the order they were added.
#[derive(Debug)]
pub struct Config {
    pub settings: Settings,
    pub tools: Vec<Tool>,
}

/// A tool as a value: its texts as sequences of characters.
pub struct ToolView {
    pub name: Seq<char>,
    pub repo: Seq<char>,
    pub binary_name: Option<Seq<char>>,
    pub asset_pattern: Option<Seq<char>>,
    pub version: Option<Seq<char>>,
}

/// A registry as a value.
pub struct ConfigView {
    pub install_dir: Seq<char>,
    pub tools: Seq<ToolView>,
}

impl View for Tool {
    type V = ToolView;

    open spec fn view(&self) -> ToolView {
        ToolView {
            name: self.name@,
            repo: self.repo@,
            binary_name: text_of(self.binary_name),
            asset_pattern: text_of(self.asset_pattern),
            version: text_of(self.version),
        }
    }
}

impl View for Config {
    type V = ConfigView;

    open spec fn view(&self) -> ConfigView {
        ConfigView {
            install_dir: self.settings.install_dir@,
            tools: self.tools@.map_values(|t: Tool| t@),
        }
    }
}

/// Some tool of the sequence has the name.
pub open spec fn has_named(tools: Seq<ToolView>, name: Seq<char>) -> bool {
    exists|i: int| 0 <= i < tools.len() && #[trigger] tools[i].name == name
}

/// The tool at `i` has the name and none before it has.
pub open spec fn is_first_named(tools: Seq<ToolView>, name: Seq<char>, i: int) -> bool {
    &&& 0 <= i < tools.len()
    &&& tools[i].name == name
    &&& forall|j: int| 0 <= j < i ==> #[trigger] tools[j].name != name
}

/// The position of the first tool with the name, if there is one.
pub open spec fn first_named(tools: Seq<ToolView>, name: Seq<char>) -> Option<int> {
    if exists|i: int| is_first_named(tools, name, i) {
        Some(choose|i: int| is_first_named(tools, name, i))
    } else {
        None
    }
}

/// No two tools of the sequence share a name.
pub open spec fn names_distinct(tools: Seq<ToolView>) -> bool {
    forall|i: int, j: int|
        0 <= i < j < tools.len() ==> #[trigger] tools[i].name != #[trigger] tools[j].name
}

/// The registry with the recorded version of the tool at `i` set anew.
pub open spec fn with_version(config: ConfigView, i: int, version: Option<Seq<char>>) -> ConfigView {
    ConfigView {
        tools: config.tools.update(i, ToolView { version, ..config.tools[i] }),
        ..config
    }
}

/// The message for a tool that is added a second time.
pub open spec fn duplicate_message(name: Seq<char>) -> Seq<char> {
    "Tool '"@ + name + "' already exists"@
}

/// The first tool with the name is the only first one.
pub proof fn lemma_first_named_is(tools: Seq<ToolView>, name: Seq<char>, i: int)
    requires
        is_first_named(tools, name, i),
    ensures
        first_named(tools, name) == Some(i),
{
    let k = choose|k: int| is_first_named(tools, name, k);
    if k < i {
        assert(tools[k].name != name);
    } else if i < k {
        assert(tools[i].name != name);
    }
}

/// Setting a recorded version anew leaves the names as they are: where no
/// two tools shared a name, none do.
pub proof fn lemma_with_version_keeps_distinct(config: ConfigView, i: int, version: Option<Seq<char>>)
    requires
        0 <= i < config.tools.len(),
        names_distinct(config.tools),
    ensures
        names_distinct(with_version(config, i, version).tools),
{
    let after = with_version(config, i, version).tools;
    assert forall|a: int, b: int| 0 <= a < b < after.len() implies #[trigger] after[a].name
        != #[trigger] after[b].name by {
        assert(config.tools[a].name != config.tools[b].name);
    }
}

/// Removing tools leaves the names of the others as they are: where no two
/// tools shared a name, none do.
pub proof fn lemma_filter_keeps_distinct(tools: Seq<ToolView>, keep: spec_fn(ToolView) -> bool)
    requires
        names_distinct(tools),
    ensures
        names_distinct(tools.filter(keep)),
    decreases tools.len(),
{
    reveal(Seq::filter);
    if tools.len() > 0 {
        let front = tools.drop_last();
        let last = tools.last();
        assert forall|a: int, b: int| 0 <= a < b < front.len() implies #[trigger] front[a].name
            != #[trigger] front[b].name by {
            assert(tools[a].name != tools[b].name);
        }
        lemma_filter_keeps_distinct(front, keep);
        let kept = tools.filter(keep);
        if keep(last) {
            assert(kept == front.filter(keep).push(last));
            assert forall|a: int, b: int| 0 <= a < b < kept.len() implies #[trigger] kept[a].name
                != #[trigger] kept[b].name by {
                if b == kept.len() - 1 {
                    assert(front.filter(keep).contains(kept[a]));
                    front.lemma_filter_contains_rev(keep, kept[a]);
                    let k = choose|k: int| 0 <= k < front.len() && front[k] == kept[a];
                    assert(tools[k].name != tools[tools.len() - 1].name);
                } else {
                    assert(front.filter(keep)[a].name != front.filter(keep)[b].name);
                }
            }
        }
    }
}

/// Setting a recorded version anew leaves every tool where it is found.
pub proof fn lemma_with_version_keeps_names(
    config: ConfigView,
    i: int,
    version: Option<Seq<char>>,
    name: Seq<char>,
)
    requires
        0 <= i < config.tools.len(),
    ensures
        first_named(with_version(config, i, version).tools, name) == first_named(config.tools, name),
{
    let after = with_version(config, i, version).tools;
    lemma_first_named_none(config.tools, name);
    lemma_first_named_none(after, name);
    match first_named(config.tools, name) {
        Some(k) => {
            assert forall|j: int| 0 <= j < k implies #[trigger] after[j].name != name by {
                assert(config.tools[j].name != name);
            }
            assert(after[k].name == name);
            lemma_first_named_is(after, name, k);
        },
        None => {
            if has_named(after, name) {
                let w = choose|w: int| 0 <= w < after.len() && #[trigger] after[w].name == name;
                assert(config.tools[w].name == name);
            }
        },
    }
}

/// Where no tool has the name, none is the first with it, and the other way round.
pub proof fn lemma_first_named_none(tools: Seq<ToolView>, name: Seq<char>)
    ensures
        first_named(tools, name) is None <==> !has_named(tools, name),
        first_named(tools, name) matches Some(i) ==> is_first_named(tools, name, i),
{
    if has_named(tools, name) {
        let w = choose|i: int| 0 <= i < tools.len() && #[trigger] tools[i].name == name;
        lemma_first_exists(tools, name, w);
    } else {
        if exists|i: int| is_first_named(tools, name, i) {
            let k = choose|i: int| is_first_named(tools, name, i);
            assert(tools[k].name == name);
        }
    }
}

proof fn lemma_first_exists(tools: Seq<ToolView>, name: Seq<char>, w: int)
    requires
        0 <= w < tools.len(),
        tools[w].name == name,
    ensures
        exists|i: int| is_first_named(tools, name, i),
    decreases w,
{
    if forall|j: int| 0 <= j < w ==> #[trigger] tools[j].name != name {
        assert(is_first_named(tools, name, w));
    } else {
        let j = choose|j: int| 0 <= j < w && #[trigger] tools[j].name == name;
        lemma_first_exists(tools, name, j);
    }
}

impl Clone for Tool {
    fn clone(&self) -> (copy: Self)
        ensures
            copy == *self,
    {
        Tool {
            name: self.name.clone(),
            repo: self.repo.clone(),
            binary_name: clone_text(&self.binary_name),
            asset_pattern: clone_text(&self.asset_pattern),
            version: clone_text(&self.version),
        }
    }
}

impl Config {
    /// An empty registry that installs into `install_dir`.
    pub fn new(install_dir: String) -> (config: Self)
        ensures
            config@.install_dir == install_dir@,
            config@.tools == Seq::<ToolView>::empty(),
    {
        let config = Config { settings: Settings { install_dir }, tools: Vec::new() };
        assert(config@.tools =~= Seq::<ToolView>::empty());
        config
    }

    /// The registry of a user who has none yet: no tools, and binaries go to
    /// `.local/bin` below the home directory, or below `/tmp` where no home
    /// directory is known.
    pub fn with_home(home: Option<String>) -> (config: Self)
        ensures
            config@.install_dir == joined_path(
                match home {
                    Some(h) => h@,
                    None => "/tmp"@,
                },
                ".local/bin"@,
            ),
            config@.tools == Seq::<ToolView>::empty(),
    {
        let install_dir = match home {
            Some(h) => join_path(h.as_str(), ".local/bin"),
            None => join_path("/tmp", ".local/bin"),
        };
        Config::new(install_dir)
    }

    /// The position of the first tool with the name.
    pub fn position(&self, name: &str) -> (pos: Option<usize>)
        ensures
            match pos {
                Some(i) => first_named(self@.tools, name@) == Some(i as int),
                None => first_named(self@.tools, name@) is None,
            },
    {
        let mut i: usize = 0;
        while i < self.tools.len()
            invariant
                i <= self.tools.len(),
                forall|j: int| 0 <= j < i ==> #[trigger] self@.tools[j].name != name@,
            decreases self.tools.len() - i,
        {
            if same_text(self.tools[i].name.as_str(), name) {
                proof {
                    assert(self@.tools[i as int].name == name@);
                    lemma_first_named_is(self@.tools, name@, i as int);
                }
                return Some(i);
            }
            i += 1;
        }
        proof {
            lemma_first_named_none(self@.tools, name@);
        }
        None
    }

    /// The first tool with the name.
    pub fn get_tool(&self, name: &str) -> (found: Option<&Tool>)
        ensures
            match first_named(self@.tools, name@) {
                Some(i) => found == Some(&self.tools@[i]),
                None => found is None,
            },
    {
        match self.position(name) {
            Some(i) => Some(&self.tools[i]),
            None => None,
        }
    }

    /// Adds a tool at the end, unless one of its name is there already.
    pub fn add_tool(&mut self, tool: Tool) -> (r: Result<()>)
        ensures
            has_named(old(self)@.tools, tool@.name) ==> *final(self) == *old(self) && (r matches Err(
                OktofetchError::Other(msg),
            ) && msg@ == duplicate_message(tool@.name)),
            !has_named(old(self)@.tools, tool@.name) ==> r is Ok && final(self)@ == (ConfigView {
                tools: old(self)@.tools.push(tool@),
                ..old(self)@
            }),
            names_distinct(old(self)@.tools) ==> names_distinct(final(self)@.tools),
    {
        proof {
            lemma_first_named_none(self@.tools, tool@.name);
        }
        if self.position(tool.name.as_str()).is_some() {
            let msg = concat2("Tool '", tool.name.as_str()).concat("' already exists");
            return Err(OktofetchError::Other(msg));
        }
        self.tools.push(tool);
        assert(self@.tools =~= old(self)@.tools.push(tool@));
        assert(names_distinct(old(self)@.tools) ==> names_distinct(self@.tools)) by {
            if names_distinct(old(self)@.tools) {
                assert forall|i: int, j: int| 0 <= i < j < self@.tools.len() implies #[trigger]
                    self@.tools[i].name != #[trigger] self@.tools[j].name by {
                    if j < old(self)@.tools.len() {
                        assert(old(self)@.tools[i].name != old(self)@.tools[j].name);
                    } else {
                        assert(old(self)@.tools[i].name != tool@.name);
                    }
                }
            }
        }
        Ok(())
    }

    /// Sets the recorded version of the first tool with the name anew, and
    /// hands back the one that was recorded.
    pub fn replace_tool_version(&mut self, name: &str, version: Option<String>) -> (r: Result<
        Option<String>,
    >)
        ensures
            match first_named(old(self)@.tools, name@) {
                Some(i) => (r matches Ok(previous) && text_of(previous) == old(self)@.tools[i].version)
                    && final(self)@ == with_version(old(self)@, i, text_of(version)),
                None => *final(self) == *old(self) && (r matches Err(
                    OktofetchError::ToolNotFound(missing),
                ) && missing@ == name@),
            },
            names_distinct(old(self)@.tools) ==> names_distinct(final(self)@.tools),
    {
        proof {
            lemma_first_named_none(self@.tools, name@);
            if names_distinct(self@.tools) && first_named(self@.tools, name@) is Some {
                lemma_with_version_keeps_distinct(
                    self@,
                    first_named(self@.tools, name@)->0,
                    text_of(version),
                );
            }
        }
        match self.position(name) {
            Some(i) => {
                let previous = clone_text(&self.tools[i].version);
                self.tools[i].version = version;
                assert(self@.tools =~= old(self)@.tools.update(
                    i as int,
                    ToolView { version: text_of(version), ..old(self)@.tools[i as int] },
                ));
                Ok(previous)
            },
            None => Err(OktofetchError::ToolNotFound(String::from_str(name))),
        }
    }

    /// Sets the recorded version of the first tool with the name.
    pub fn update_tool_version(&mut self, name: &str, version: String) -> (r: Result<()>)
        ensures
            match first_named(old(self)@.tools, name@) {
                Some(i) => r is Ok && final(self)@ == with_version(
                    old(self)@,
                    i,
                    Some(version@),
                ),
                None => *final(self) == *old(self) && (r matches Err(
                    OktofetchError::ToolNotFound(missing),
                ) && missing@ == name@),
            },
            names_distinct(old(self)@.tools) ==> names_distinct(final(self)@.tools),
    {
        match self.replace_tool_version(name, Some(version)) {
            Ok(_) => Ok(()),
            Err(e) => Err(e),
        }
    }

    /// The first tool with the name, to be changed in place.
    pub fn get_tool_mut(&mut self, name: &str) -> (found: Option<&mut Tool>)
        ensures
            match first_named(old(self)@.tools, name@) {
                Some(i) => {
                    &&& found matches Some(t) && *t == old(self).tools@[i]
                        && final(self).tools@ == old(self).tools@.update(i, *final(t))
                    &&& final(self).settings == old(self).settings
                },
                None => found is None && *final(self) == *old(self),
            },
    {
        match self.position(name) {
            Some(i) => Some(&mut self.tools[i]),
            None => None,
        }
    }

    /// Removes every tool with the name.
    pub fn remove_tool(&mut self, name: &str) -> (r: Result<()>)
        ensures
            final(self)@ == (ConfigView {
                tools: old(self)@.tools.filter(|t: ToolView| t.name != name@),
                ..old(self)@
            }),
            has_named(old(self)@.tools, name@) ==> r is Ok,
            !has_named(old(self)@.tools, name@) ==> final(self)@ == old(self)@ && (r matches Err(
                OktofetchError::ToolNotFound(missing),
            ) && missing@ == name@),
            names_distinct(old(self)@.tools) ==> names_distinct(final(self)@.tools),
    {
        let ghost before = self@.tools;
        let ghost keep = |t: ToolView| t.name != name@;
        proof {
            if names_distinct(before) {
                lemma_filter_keeps_distinct(before, keep);
            }
        }
        let mut taken: Vec<Tool> = Vec::new();
        std::mem::swap(&mut self.tools, &mut taken);
        let mut kept: Vec<Tool> = Vec::new();
        let mut removed = false;
        proof {
            lemma_filter_empty(before.take(0), keep);
        }
        for tool in iter: taken
            invariant
                forall|t: ToolView| #[trigger] keep(t) == (t.name != name@),
                iter.seq().map_values(|t: Tool| t@) == before,
                kept@.map_values(|t: Tool| t@) == before.take(iter.index()).filter(keep),
                removed == has_named(before.take(iter.index()), name@),
                !removed ==> before.take(iter.index()).filter(keep) == before.take(iter.index()),
        {
            proof {
                let k = iter.index();
                assert(before[k] == tool@);
                lemma_filter_step(before, keep, k);
                if tool@.name == name@ {
                    assert(before.take(k + 1)[k].name == name@);
                } else if has_named(before.take(k + 1), name@) {
                    let w = choose|w: int|
                        0 <= w < k + 1 && #[trigger] before.take(k + 1)[w].name == name@;
                    assert(before.take(k)[w].name == name@);
                } else if has_named(before.take(k), name@) {
                    let w = choose|w: int| 0 <= w < k && #[trigger] before.take(k)[w].name == name@;
                    assert(before.take(k + 1)[w].name == name@);
                }
                if !removed && tool@.name != name@ {
                    assert(before.take(k).push(tool@) =~= before.take(k + 1));
                }
            }
            if same_text(tool.name.as_str(), name) {
                removed = true;
            } else {
                kept.push(tool);
                assert(kept@.map_values(|t: Tool| t@) =~= before.take(iter.index()).filter(
                    keep,
                ).push(tool@));
            }
        }
        self.tools = kept;
        assert(before.take(before.len() as int) =~= before);
        if removed {
            Ok(())
        } else {
            Err(OktofetchError::ToolNotFound(String::from_str(name)))
        }
    }
}

} // verus!
