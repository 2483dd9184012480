//! The registry model: tools keyed by name, plus the embedded sync
//! settings. Pure data with no I/O; every operation carries a contract
//! over the mathematical view of the registry.

use vstd::prelude::*;

verus! {

/// Mathematical view of a single tool entry.
#[verifier::ext_equal]
pub ghost struct ToolView {
    pub name: Seq<char>,
    pub description: Option<Seq<char>>,
    pub install_commands: Seq<Seq<char>>,
    pub remove_commands: Seq<Seq<char>>,
    pub update_commands: Seq<Seq<char>>,
    pub run_commands: Seq<Seq<char>>,
    pub installed: bool,
}

/// Mathematical view of the sync settings.
#[verifier::ext_equal]
pub ghost struct SyncView {
    pub repo: Option<Seq<char>>,
    pub token: Option<Seq<char>>,
    pub last_sync: Option<Seq<char>>,
    pub auto_sync: bool,
}

/// Mathematical view of a whole registry: the tool entries in order,
/// each with its key, and the sync settings.
#[verifier::ext_equal]
pub ghost struct ConfigView {
    pub tools: Seq<(Seq<char>, ToolView)>,
    pub sync: SyncView,
}

/// One named tool: command sequences for each lifecycle action and an
/// installed flag.
pub struct ToolConfig {
    pub name: String,
    pub description: Option<String>,
    pub install_commands: Vec<String>,
    pub remove_commands: Vec<String>,
    pub update_commands: Vec<String>,
    pub run_commands: Vec<String>,
    pub installed: bool,
}

impl View for ToolConfig {
    type V = ToolView;

    open spec fn view(&self) -> ToolView {
        ToolView {
            name: self.name@,
            description: self.description.deep_view(),
            install_commands: self.install_commands.deep_view(),
            remove_commands: self.remove_commands.deep_view(),
            update_commands: self.update_commands.deep_view(),
            run_commands: self.run_commands.deep_view(),
            installed: self.installed,
        }
    }
}

/// Settings for mirroring the registry to a remote repository. Absence
/// of any optional field silently disables synchronization.
pub struct SyncConfig {
    pub repo: Option<String>,
    pub token: Option<String>,
    pub last_sync: Option<String>,
    pub auto_sync: bool,
}

impl View for SyncConfig {
    type V = SyncView;

    open spec fn view(&self) -> SyncView {
        SyncView {
            repo: self.repo.deep_view(),
            token: self.token.deep_view(),
            last_sync: self.last_sync.deep_view(),
            auto_sync: self.auto_sync,
        }
    }
}

impl Default for SyncConfig {
    /// All fields absent; auto-sync off.
    fn default() -> (r: SyncConfig)
        ensures
            r@.repo is None,
            r@.token is None,
            r@.last_sync is None,
            !r@.auto_sync,
    {
        SyncConfig { repo: None, token: None, last_sync: None, auto_sync: false }
    }
}

/// Error raised by registry mutations.
#[derive(Debug, PartialEq, Eq, Structural, Clone, Copy)]
pub enum RegistryError {
    /// An entry with the same key already exists.
    DuplicateName,
}

/// The registry: a mapping from tool name to tool, plus sync settings.
/// The key of an entry equals the tool's own `name` at creation; the
/// mapping's keys are unique within one registry.
pub struct Config {
    pub tools: Vec<(String, ToolConfig)>,
    pub sync: SyncConfig,
}

/// A registry value whose sync settings are always explicit; used where
/// a caller wants the embedded settings spelled out rather than
/// defaulted.
pub struct ConfigWithSync {
    pub tools: Vec<(String, ToolConfig)>,
    pub sync: SyncConfig,
}

impl View for ConfigWithSync {
    type V = ConfigView;

    open spec fn view(&self) -> ConfigView {
        ConfigView {
            tools: tools_view(self.tools@),
            sync: self.sync@,
        }
    }
}

impl From<Config> for ConfigWithSync {
    fn from(config: Config) -> (r: ConfigWithSync) {
        ConfigWithSync { tools: config.tools, sync: config.sync }
    }
}

impl vstd::std_specs::convert::FromSpecImpl<Config> for ConfigWithSync {
    open spec fn obeys_from_spec() -> bool {
        true
    }

    open spec fn from_spec(config: Config) -> ConfigWithSync {
        ConfigWithSync { tools: config.tools, sync: config.sync }
    }
}

/// First entry whose key equals `name`, if any.
pub open spec fn lookup_tool(ts: Seq<(Seq<char>, ToolView)>, name: Seq<char>) -> Option<ToolView>
    decreases ts.len(),
{
    if ts.len() <= 0 {
        None
    } else if ts[0].0 == name {
        Some(ts[0].1)
    } else {
        lookup_tool(ts.skip(1), name)
    }
}

/// The view of an entry list: each key with the tool's view.
pub open spec fn tools_view(ts: Seq<(String, ToolConfig)>) -> Seq<(Seq<char>, ToolView)> {
    ts.map_values(|p: (String, ToolConfig)| (p.0@, p.1@))
}

/// No two entries share a key.
pub open spec fn keys_unique(ts: Seq<(Seq<char>, ToolView)>) -> bool {
    forall|i: int, j: int| 0 <= i < j < ts.len() ==> ts[i].0 != ts[j].0
}

impl View for Config {
    type V = ConfigView;

    open spec fn view(&self) -> ConfigView {
        ConfigView {
            tools: tools_view(self.tools@),
            sync: self.sync@,
        }
    }
}

/// A key that appears at position `i` and nowhere earlier is what the
/// lookup returns.
pub proof fn lemma_lookup_at(ts: Seq<(Seq<char>, ToolView)>, name: Seq<char>, i: int)
    requires
        0 <= i < ts.len(),
        ts[i].0 == name,
        forall|k: int| 0 <= k < i ==> ts[k].0 != name,
    ensures
        lookup_tool(ts, name) == Some(ts[i].1),
    decreases i,
{
    if i > 0 {
        lemma_lookup_at(ts.skip(1), name, i - 1);
    }
}

/// A key that appears nowhere is not found.
pub proof fn lemma_lookup_absent(ts: Seq<(Seq<char>, ToolView)>, name: Seq<char>)
    requires
        forall|k: int| 0 <= k < ts.len() ==> ts[k].0 != name,
    ensures
        lookup_tool(ts, name) is None,
    decreases ts.len(),
{
    if ts.len() > 0 {
        lemma_lookup_absent(ts.skip(1), name);
    }
}

/// Removing an entry does not change the lookup of any other key.
pub proof fn lemma_lookup_remove(ts: Seq<(Seq<char>, ToolView)>, i: int, name: Seq<char>)
    requires
        0 <= i < ts.len(),
        ts[i].0 != name,
    ensures
        lookup_tool(ts.remove(i), name) == lookup_tool(ts, name),
    decreases ts.len(),
{
    if i == 0 {
        assert(ts.remove(0) =~= ts.skip(1));
    } else {
        assert(ts.remove(i)[0] == ts[0]);
        if ts[0].0 != name {
            assert(ts.remove(i).skip(1) =~= ts.skip(1).remove(i - 1));
            lemma_lookup_remove(ts.skip(1), i - 1, name);
        }
    }
}

/// Replacing an entry in place under its own key does not change the
/// lookup of any other key.
pub proof fn lemma_lookup_update_other(
    ts: Seq<(Seq<char>, ToolView)>,
    i: int,
    p: (Seq<char>, ToolView),
    name: Seq<char>,
)
    requires
        0 <= i < ts.len(),
        ts[i].0 == p.0,
        name != p.0,
    ensures
        lookup_tool(ts.update(i, p), name) == lookup_tool(ts, name),
    decreases ts.len(),
{
    if i == 0 {
        assert(ts.update(0, p)[0] == p);
        assert(ts.update(0, p).skip(1) =~= ts.skip(1));
    } else {
        assert(ts.update(i, p)[0] == ts[0]);
        if ts[0].0 != name {
            assert(ts.update(i, p).skip(1) =~= ts.skip(1).update(i - 1, p));
            lemma_lookup_update_other(ts.skip(1), i - 1, p, name);
        }
    }
}

/// Clones a command list; the new vector holds the same strings.
pub(crate) fn clone_strings(v: &Vec<String>) -> (r: Vec<String>)
    ensures
        r@ == v@,
        r.deep_view() == v.deep_view(),
{
    let mut r: Vec<String> = Vec::new();
    let n = v.len();
    let mut i: usize = 0;
    while i < n
        invariant
            i <= n,
            n == v.len(),
            r@ =~= v@.subrange(0, i as int),
        decreases n - i,
    {
        r.push(v[i].clone());
        proof {
            assert(v@.subrange(0, i + 1) =~= v@.subrange(0, i as int).push(v@[i as int]));
        }
        i += 1;
    }
    proof {
        assert(r@ =~= v@);
        assert(r.deep_view() =~= v.deep_view());
    }
    r
}

impl Clone for ToolConfig {
    /// The clone and the value it was made from have the same view.
    fn clone(&self) -> (r: ToolConfig)
        ensures
            r@ == self@,
    {
        let r = ToolConfig {
            name: self.name.clone(),
            description: match &self.description {
                Some(d) => Some(d.clone()),
                None => None,
            },
            install_commands: clone_strings(&self.install_commands),
            remove_commands: clone_strings(&self.remove_commands),
            update_commands: clone_strings(&self.update_commands),
            run_commands: clone_strings(&self.run_commands),
            installed: self.installed,
        };
        proof {
            assert(r@ =~= self@);
        }
        r
    }
}

impl Clone for SyncConfig {
    /// The clone and the value it was made from have the same view.
    fn clone(&self) -> (r: SyncConfig)
        ensures
            r@ == self@,
    {
        SyncConfig {
            repo: match &self.repo {
                Some(s) => Some(s.clone()),
                None => None,
            },
            token: match &self.token {
                Some(s) => Some(s.clone()),
                None => None,
            },
            last_sync: match &self.last_sync {
                Some(s) => Some(s.clone()),
                None => None,
            },
            auto_sync: self.auto_sync,
        }
    }
}

impl Config {
    /// The registry invariant: entry keys are unique.
    pub open spec fn wf(&self) -> bool {
        keys_unique(self@.tools)
    }

    /// Index of the first entry whose key equals `name`.
    fn find_index(&self, name: &str) -> (r: Option<usize>)
        ensures
            match r {
                Some(i) => i < self@.tools.len() && self@.tools[i as int].0 == name@ && forall|
                    k: int,
                |
                    0 <= k < i ==> self@.tools[k].0 != name@,
                None => forall|k: int|
                    0 <= k < self@.tools.len() ==> self@.tools[k].0 != name@,
            },
    {
        let key: String = name.to_owned();
        let n = self.tools.len();
        let mut i: usize = 0;
        while i < n
            invariant
                i <= n,
                n == self@.tools.len(),
                key@ == name@,
                forall|k: int| 0 <= k < i ==> self@.tools[k].0 != name@,
            decreases n - i,
        {
            if self.tools[i].0 == key {
                return Some(i);
            }
            i += 1;
        }
        None
    }

    /// Number of entries in the registry.
    pub fn tool_count(&self) -> (r: usize)
        ensures
            r == self@.tools.len(),
    {
        self.tools.len()
    }

    /// The key of the entry at position `i`.
    pub fn key_at(&self, i: usize) -> (r: &String)
        requires
            i < self@.tools.len(),
        ensures
            r@ == self@.tools[i as int].0,
    {
        &self.tools[i].0
    }

    /// The tool of the entry at position `i`.
    pub fn tool_at(&self, i: usize) -> (r: &ToolConfig)
        requires
            i < self@.tools.len(),
        ensures
            r@ == self@.tools[i as int].1,
    {
        &self.tools[i].1
    }

    /// Builds a registry from parts whose keys are already known to be
    /// unique.
    pub fn from_parts(tools: Vec<(String, ToolConfig)>, sync: SyncConfig) -> (r: Config)
        requires
            keys_unique(tools_view(tools@)),
        ensures
            r@.tools == tools_view(tools@),
            r@.sync == sync@,
            r.wf(),
    {
        Config { tools, sync }
    }

    /// Adds a tool under `name`; fails if the key is already present,
    /// and in that case changes nothing.
    pub fn add_tool(&mut self, name: &str, tool_config: ToolConfig) -> (r: Result<
        (),
        RegistryError,
    >)
        requires
            old(self).wf(),
        ensures
            final(self).wf(),
            final(self)@.sync == old(self)@.sync,
            match r {
                Ok(()) => lookup_tool(old(self)@.tools, name@) is None && final(self)@.tools
                    == old(self)@.tools.push((name@, tool_config@)),
                Err(RegistryError::DuplicateName) => lookup_tool(old(self)@.tools, name@) is Some
                    && final(self)@ == old(self)@,
            },
    {
        match self.find_index(name) {
            Some(i) => {
                proof {
                    lemma_lookup_at(self@.tools, name@, i as int);
                }
                Err(RegistryError::DuplicateName)
            },
            None => {
                proof {
                    lemma_lookup_absent(self@.tools, name@);
                }
                let key: String = name.to_owned();
                self.tools.push((key, tool_config));
                proof {
                    assert(self@.tools =~= old(self)@.tools.push((name@, tool_config@)));
                }
                Ok(())
            },
        }
    }

    /// Removes the entry under `name`; reports whether anything was
    /// removed. Never fails.
    pub fn remove_tool(&mut self, name: &str) -> (r: bool)
        requires
            old(self).wf(),
        ensures
            final(self).wf(),
            final(self)@.sync == old(self)@.sync,
            r == (lookup_tool(old(self)@.tools, name@) is Some),
            !r ==> final(self)@ == old(self)@,
            r ==> (exists|i: int|
                0 <= i < old(self)@.tools.len() && old(self)@.tools[i].0 == name@
                    && final(self)@.tools == old(self)@.tools.remove(i)),
            lookup_tool(final(self)@.tools, name@) is None,
            forall|n: Seq<char>|
                n != name@ ==> lookup_tool(final(self)@.tools, n) == lookup_tool(
                    old(self)@.tools,
                    n,
                ),
            final(self)@.tools.len() == old(self)@.tools.len() - (if r {
                1int
            } else {
                0int
            }),
    {
        match self.find_index(name) {
            Some(i) => {
                proof {
                    lemma_lookup_at(self@.tools, name@, i as int);
                }
                self.tools.remove(i);
                proof {
                    let ghost oldts = old(self)@.tools;
                    assert(self@.tools =~= oldts.remove(i as int));
                    let ghost gi = i as int;
                    assert(0 <= gi < oldts.len() && oldts[gi].0 == name@ && self@.tools
                        == oldts.remove(gi));
                    assert forall|k: int| 0 <= k < self@.tools.len() implies self@.tools[k].0
                        != name@ by {
                        if k < i {
                            assert(self@.tools[k] == oldts[k]);
                        } else {
                            assert(self@.tools[k] == oldts[k + 1]);
                        }
                    }
                    lemma_lookup_absent(self@.tools, name@);
                    assert forall|n: Seq<char>| n != name@ implies lookup_tool(self@.tools, n)
                        == lookup_tool(oldts, n) by {
                        lemma_lookup_remove(oldts, i as int, n);
                    }
                }
                true
            },
            None => {
                proof {
                    lemma_lookup_absent(self@.tools, name@);
                }
                false
            },
        }
    }

    /// The tool stored under `name`, if any.
    pub fn get_tool(&self, name: &str) -> (r: Option<&ToolConfig>)
        ensures
            match r {
                Some(t) => lookup_tool(self@.tools, name@) == Some(t@),
                None => lookup_tool(self@.tools, name@) is None,
            },
    {
        match self.find_index(name) {
            Some(i) => {
                proof {
                    lemma_lookup_at(self@.tools, name@, i as int);
                }
                Some(&self.tools[i].1)
            },
            None => {
                proof {
                    lemma_lookup_absent(self@.tools, name@);
                }
                None
            },
        }
    }

    /// Sets the installed flag of the tool under `name`; reports
    /// whether the tool exists. Nothing else changes.
    pub fn set_installed(&mut self, name: &str, installed: bool) -> (r: bool)
        requires
            old(self).wf(),
        ensures
            final(self).wf(),
            final(self)@.sync == old(self)@.sync,
            r == (lookup_tool(old(self)@.tools, name@) is Some),
            !r ==> final(self)@ == old(self)@,
            r ==> final(self)@.tools.len() == old(self)@.tools.len(),
            r ==> (lookup_tool(old(self)@.tools, name@) matches Some(t0) && lookup_tool(
                final(self)@.tools,
                name@,
            ) == Some((ToolView { installed, ..t0 }))),
            forall|n: Seq<char>|
                n != name@ ==> lookup_tool(final(self)@.tools, n) == lookup_tool(
                    old(self)@.tools,
                    n,
                ),
    {
        match self.find_index(name) {
            Some(i) => {
                proof {
                    lemma_lookup_at(self@.tools, name@, i as int);
                }
                self.tools[i].1.installed = installed;
                proof {
                    let ghost oldts = old(self)@.tools;
                    let ghost newtool = ToolView { installed, ..oldts[i as int].1 };
                    assert(self@.tools =~= oldts.update(i as int, (name@, newtool)));
                    lemma_lookup_at(self@.tools, name@, i as int);
                    assert forall|n: Seq<char>| n != name@ implies lookup_tool(self@.tools, n)
                        == lookup_tool(oldts, n) by {
                        lemma_lookup_update_other(oldts, i as int, (name@, newtool), n);
                    }
                }
                true
            },
            None => {
                proof {
                    lemma_lookup_absent(self@.tools, name@);
                }
                false
            },
        }
    }

    /// All entries, in order, as owned pairs of key and tool.
    pub fn list_tools(&self) -> (r: Vec<(String, ToolConfig)>)
        ensures
            tools_view(r@) == self@.tools,
    {
        let mut r: Vec<(String, ToolConfig)> = Vec::new();
        let n = self.tools.len();
        let mut i: usize = 0;
        while i < n
            invariant
                i <= n,
                n == self@.tools.len(),
                tools_view(r@) =~= self@.tools.subrange(0, i as int),
            decreases n - i,
        {
            let key = self.tools[i].0.clone();
            let tool = self.tools[i].1.clone();
            let ghost gkey = key@;
            let ghost gtool = tool@;
            let ghost rs = r@;
            r.push((key, tool));
            proof {
                assert(tools_view(rs).len() == rs.len());
                assert(rs.len() == i as int);
                assert forall|k: int| 0 <= k < r@.len() implies tools_view(r@)[k] == self@
                    .tools.subrange(0, i + 1)[k] by {
                    if k < i {
                        assert(r@[k] == rs[k]);
                        assert(tools_view(rs)[k] == self@.tools.subrange(0, i as int)[k]);
                    } else {
                        assert(r@[i as int].0@ == gkey);
                        assert(r@[i as int].1@ == gtool);
                        assert(gkey == self@.tools[i as int].0);
                        assert(gtool == self@.tools[i as int].1);
                    }
                }
                assert(tools_view(r@) =~= self@.tools.subrange(0, i + 1));
            }
            i += 1;
        }
        proof {
            assert(tools_view(r@) =~= self@.tools);
        }
        r
    }

    /// An empty registry with default sync settings.
    pub fn new() -> (r: Config)
        ensures
            r@.tools.len() == 0,
            r@.sync.repo is None,
            r@.sync.token is None,
            r@.sync.last_sync is None,
            !r@.sync.auto_sync,
            r.wf(),
    {
        Config { tools: Vec::new(), sync: SyncConfig::default() }
    }

    /// Synchronization is active exactly when the repository, the
    /// credential and the auto-sync flag are all present.
    pub fn should_auto_sync(&self) -> (r: bool)
        ensures
            r == (self@.sync.auto_sync && self@.sync.repo is Some && self@.sync.token is Some),
    {
        self.sync.auto_sync && self.sync.repo.is_some() && self.sync.token.is_some()
    }
}

} // verus!
