//! The plugins of a device: which plugin manages which software type.

use crate::message::{
    item_list_views, list_views, ItemView, ListView, RequestUpdateView, ResponseView,
    SoftwareModuleItem,
    SoftwareOperationStatus, SoftwareRequestResponse, SoftwareRequestResponseSoftwareList,
    SoftwareRequestUpdate,
};
use crate::plugin::{
    list_run, module_views, stage_run, stage_view, CommandRunner, ExternalPluginCommand, Stage,
};
use crate::software::{
    optional_bytes, ModuleView, SoftwareError, SoftwareErrorView, SoftwareModule,
    SoftwareModuleAction,
};
use crate::text::{ascii, bytes_eq, bytes_of};
use vstd::prelude::*;
use vstd::slice::*;
use vstd::string::*;

verus! {

/// Finds the plugin for a software module. A collection of plugins may say
/// for itself which plugin it declares under which name; one that says
/// nothing may declare anything.
pub trait Plugins {
    type Plugin;

    /// Whether looking for the plugin of the given name may give `found`.
    open spec fn declares(&self, software_type: Seq<u8>, found: Option<&Self::Plugin>) -> bool {
        true
    }

    /// The plugin to use where nothing says which, if there is one.
    fn default(&self) -> Option<&Self::Plugin>;

    /// The plugin of the given name, if there is one.
    fn by_software_type(&self, software_type: &[u8]) -> (found: Option<&Self::Plugin>)
        ensures
            self.declares(software_type@, found),
    ;

    /// The plugin for the file extension of the module's name, if there is one.
    fn by_file_extension(&self, module_name: &[u8]) -> Option<&Self::Plugin>;

    /// The plugin of the given name, where one is declared; else the error
    /// that says that none has the name.
    fn plugin(&self, software_type: &[u8]) -> (found: Result<&Self::Plugin, SoftwareError>)
        ensures
            match found {
                Ok(plugin) => self.declares(software_type@, Some(plugin)),
                Err(e) => self.declares(software_type@, None) && e@ == (
                SoftwareErrorView::UnknownSoftwareType { software_type: software_type@ }),
            },
    {
        match self.by_software_type(software_type) {
            Some(plugin) => Ok(plugin),
            None => Err(
                SoftwareError::UnknownSoftwareType { software_type: slice_to_vec(software_type) },
            ),
        }
    }
}

/// What a directory holds under one name.
#[derive(Debug)]
pub struct DirectoryEntry {
    /// The name, where it is text.
    pub file_name: Option<Vec<u8>>,
    pub path: Vec<u8>,
    pub is_file: bool,
}

pub struct EntryView {
    pub file_name: Option<Seq<u8>>,
    pub path: Seq<u8>,
    pub is_file: bool,
}

impl View for DirectoryEntry {
    type V = EntryView;

    open spec fn view(&self) -> EntryView {
        EntryView {
            file_name: optional_bytes(self.file_name),
            path: self.path@,
            is_file: self.is_file,
        }
    }
}

/// The models of the entries of a directory.
pub open spec fn entry_views(entries: Seq<DirectoryEntry>) -> Seq<EntryView> {
    Seq::new(entries.len(), |i: int| entries[i]@)
}

/// The plugins as pairs of name and path.
pub open spec fn plugin_views(plugins: Seq<ExternalPluginCommand>) -> Seq<(Seq<u8>, Seq<u8>)> {
    Seq::new(plugins.len(), |i: int| (plugins[i].name@, plugins[i].path@))
}

/// The first place at or after `from` where a plugin has the name.
pub open spec fn plugin_at(plugins: Seq<(Seq<u8>, Seq<u8>)>, name: Seq<u8>, from: int) -> Option<
    int,
>
    decreases plugins.len() - from,
{
    if from < 0 || from >= plugins.len() {
        None
    } else if plugins[from].0 == name {
        Some(from)
    } else {
        plugin_at(plugins, name, from + 1)
    }
}

/// `plugins` with the plugin `name` at `path`: in the place of the plugin
/// of that name, else at the end.
pub open spec fn with_plugin(
    plugins: Seq<(Seq<u8>, Seq<u8>)>,
    name: Seq<u8>,
    path: Seq<u8>,
) -> Seq<(Seq<u8>, Seq<u8>)> {
    match plugin_at(plugins, name, 0) {
        Some(at) => plugins.update(at, (name, path)),
        None => plugins.push((name, path)),
    }
}

/// The plugins that the first `n` entries of a directory give: each file
/// with a name that is text is the plugin of that name.
pub open spec fn loaded(entries: Seq<EntryView>, n: nat) -> Seq<(Seq<u8>, Seq<u8>)>
    decreases n,
{
    if n == 0 || n > entries.len() {
        Seq::empty()
    } else {
        let rest = loaded(entries, (n - 1) as nat);
        let entry = entries[n - 1];
        match entry.file_name {
            Some(name) => if entry.is_file {
                with_plugin(rest, name, entry.path)
            } else {
                rest
            },
            None => rest,
        }
    }
}

/// No two plugins have the same name.
pub open spec fn distinct_names(plugins: Seq<(Seq<u8>, Seq<u8>)>) -> bool {
    forall|i: int, j: int| 0 <= i < j < plugins.len() ==> plugins[i].0 != plugins[j].0
}

proof fn lemma_plugin_at(plugins: Seq<(Seq<u8>, Seq<u8>)>, name: Seq<u8>, from: int)
    requires
        0 <= from,
    ensures
        match plugin_at(plugins, name, from) {
            Some(at) => from <= at < plugins.len() && plugins[at].0 == name,
            None => forall|j: int| from <= j < plugins.len() ==> plugins[j].0 != name,
        },
    decreases plugins.len() - from,
{
    if from < plugins.len() && plugins[from].0 != name {
        lemma_plugin_at(plugins, name, from + 1);
    }
}

/// Each software type has one plugin: what a directory gives holds no name
/// twice.
pub proof fn lemma_loaded_distinct(entries: Seq<EntryView>, n: nat)
    ensures
        distinct_names(loaded(entries, n)),
    decreases n,
{
    if n == 0 || n > entries.len() {
    } else {
        lemma_loaded_distinct(entries, (n - 1) as nat);
        let rest = loaded(entries, (n - 1) as nat);
        let entry = entries[n - 1];
        match entry.file_name {
            Some(name) => {
                lemma_plugin_at(rest, name, 0);
            },
            None => {},
        }
    }
}

/// The place of the last dot of `name` before `end`.
pub open spec fn last_dot(name: Seq<u8>, end: int) -> Option<int>
    decreases end,
{
    if end <= 0 || end > name.len() {
        None
    } else if name[end - 1] == 0x2e {
        Some(end - 1)
    } else {
        last_dot(name, end - 1)
    }
}

/// The name of the plugin for a module: what follows the last dot of the
/// module's name, or `default` where the name has no dot.
pub open spec fn plugin_for_file(name: Seq<u8>) -> Seq<u8> {
    match last_dot(name, name.len() as int) {
        Some(dot) => name.subrange(dot + 1, name.len() as int),
        None => ascii("default"@),
    }
}

/// The plugins of a device, from its plugin directory.
#[derive(Debug)]
pub struct ExternalPlugins {
    pub plugin_dir: Vec<u8>,
    pub plugin_map: Vec<ExternalPluginCommand>,
}

impl View for ExternalPlugins {
    type V = Seq<(Seq<u8>, Seq<u8>)>;

    open spec fn view(&self) -> Seq<(Seq<u8>, Seq<u8>)> {
        plugin_views(self.plugin_map@)
    }
}

fn find_plugin(plugins: &Vec<ExternalPluginCommand>, name: &[u8]) -> (at: Option<usize>)
    ensures
        match at {
            Some(i) => plugin_at(plugin_views(plugins@), name@, 0) == Some(i as int) && i
                < plugins@.len(),
            None => plugin_at(plugin_views(plugins@), name@, 0) is None,
        },
{
    let ghost all = plugin_views(plugins@);
    let mut i: usize = 0;
    while i < plugins.len()
        invariant
            i <= plugins@.len(),
            all == plugin_views(plugins@),
            plugin_at(all, name@, 0) == plugin_at(all, name@, i as int),
        decreases plugins@.len() - i,
    {
        assert(all[i as int] == (plugins@[i as int].name@, plugins@[i as int].path@));
        if bytes_eq(plugins[i].name.as_slice(), name) {
            return Some(i);
        }
        i += 1;
    }
    None
}

fn find_last_dot(name: &[u8]) -> (dot: Option<usize>)
    ensures
        match dot {
            Some(at) => last_dot(name@, name@.len() as int) == Some(at as int) && at < name@.len(),
            None => last_dot(name@, name@.len() as int) is None,
        },
{
    let mut end: usize = name.len();
    while end > 0
        invariant
            end <= name@.len(),
            last_dot(name@, name@.len() as int) == last_dot(name@, end as int),
        decreases end,
    {
        if name[end - 1] == 0x2e {
            return Some(end - 1);
        }
        end -= 1;
    }
    None
}

/// The model of an optional plugin.
pub open spec fn optional_plugin(plugin: Option<&ExternalPluginCommand>) -> Option<
    (Seq<u8>, Seq<u8>),
> {
    match plugin {
        Some(p) => Some((p.name@, p.path@)),
        None => None,
    }
}

/// The plugin of a name, if there is one.
pub open spec fn plugin_named(plugins: Seq<(Seq<u8>, Seq<u8>)>, name: Seq<u8>) -> Option<
    (Seq<u8>, Seq<u8>),
> {
    match plugin_at(plugins, name, 0) {
        Some(at) => Some(plugins[at]),
        None => None,
    }
}

impl Plugins for ExternalPlugins {
    type Plugin = ExternalPluginCommand;

    open spec fn declares(
        &self,
        software_type: Seq<u8>,
        found: Option<&ExternalPluginCommand>,
    ) -> bool {
        optional_plugin(found) == plugin_named(self@, software_type)
    }

    fn default(&self) -> (found: Option<&ExternalPluginCommand>)
        ensures
            optional_plugin(found) == plugin_named(self@, ascii("default"@)),
    {
        proof {
            reveal_strlit("default");
        }
        self.by_software_type(bytes_of("default").as_slice())
    }

    fn by_software_type(&self, software_type: &[u8]) -> (found: Option<&ExternalPluginCommand>)
        ensures
            optional_plugin(found) == plugin_named(self@, software_type@),
    {
        match find_plugin(&self.plugin_map, software_type) {
            Some(at) => {
                assert(self@[at as int] == (
                    self.plugin_map@[at as int].name@,
                    self.plugin_map@[at as int].path@,
                ));
                Some(&self.plugin_map[at])
            },
            None => None,
        }
    }

    fn by_file_extension(&self, module_name: &[u8]) -> (found: Option<&ExternalPluginCommand>)
        ensures
            optional_plugin(found) == plugin_named(self@, plugin_for_file(module_name@)),
    {
        let len = module_name.len();
        match find_last_dot(module_name) {
            Some(dot) => self.by_software_type(slice_subrange(module_name, dot + 1, len)),
            None => self.default(),
        }
    }
}

/// The first place at or after `from` where a list has a type that no
/// plugin manages.
pub open spec fn first_unknown(
    plugins: Seq<(Seq<u8>, Seq<u8>)>,
    lists: Seq<ListView>,
    from: int,
) -> Option<int>
    decreases lists.len() - from,
{
    if from < 0 || from >= lists.len() {
        None
    } else if plugin_at(plugins, lists[from].plugin_type, 0) is None {
        Some(from)
    } else {
        first_unknown(plugins, lists, from + 1)
    }
}

/// The reason of a module that could not be installed or removed.
pub open spec fn action_failed() -> Seq<u8> {
    ascii("Action failed"@)
}

/// The reason of a module whose plugin could not prepare.
pub open spec fn prepare_failed() -> Seq<u8> {
    ascii("Failed prepare stage"@)
}

/// An item that failed for `reason`.
pub open spec fn failed(item: ItemView, reason: Seq<u8>) -> ItemView {
    ItemView { reason: Some(reason), ..item }
}

impl SoftwareModuleItem {
    /// The item as a failure for `reason`.
    pub fn failed_for(&self, reason: &[u8]) -> (item: SoftwareModuleItem)
        ensures
            item@ == failed(self@, reason@),
    {
        let mut item = self.duplicate();
        item.reason = Some(slice_to_vec(reason));
        item
    }
}

/// `failure` is `asked` as a failure for one of the two reasons.
pub open spec fn is_failure_of(asked: ItemView, failure: ItemView) -> bool {
    failure == failed(asked, action_failed()) || failure == failed(asked, prepare_failed())
}

/// `failure` is one of `asked` as a failure.
pub open spec fn failed_among(asked: Seq<ItemView>, failure: ItemView) -> bool {
    exists|i: int| 0 <= i < asked.len() && #[trigger] is_failure_of(asked[i], failure)
}

/// Every item of `failures` is an item of `asked` that failed.
pub open spec fn failures_of(asked: Seq<ItemView>, failures: Seq<ItemView>) -> bool {
    forall|k: int| 0 <= k < failures.len() ==> failed_among(asked, #[trigger] failures[k])
}

/// The answer to an update: it carries the id of the request; it is
/// successful exactly if nothing failed; each list of failures holds items
/// of a list of the request.
pub open spec fn answers(request: RequestUpdateView, response: ResponseView) -> bool {
    &&& response.id == request.id
    &&& response.status == (if response.failures.len() == 0 {
        SoftwareOperationStatus::Successful
    } else {
        SoftwareOperationStatus::Failed
    })
    &&& response.failures.len() <= request.update_list.len()
    &&& forall|k: int|
        0 <= k < response.failures.len() ==> (#[trigger] response.failures[k]).list.len() > 0
            && exists|i: int|
            0 <= i < request.update_list.len() && response.failures[k].plugin_type
                == request.update_list[i].plugin_type && failures_of(
                request.update_list[i].list,
                response.failures[k].list,
            )
}

/// Whether trying the action of `item` with the plugin may come out as
/// `outcome`: as the installation or the removal of its module may; an
/// item without an action is passed over.
pub open spec fn module_tried(
    name: Seq<u8>,
    path: Seq<u8>,
    plugin_type: Seq<u8>,
    item: ItemView,
    outcome: Result<(), SoftwareErrorView>,
) -> bool {
    match item.action {
        Some(SoftwareModuleAction::Install) => stage_run(
            name,
            path,
            Stage::Install,
            Some(crate::message::module_of(item, plugin_type)),
            outcome,
        ),
        Some(SoftwareModuleAction::Remove) => stage_run(
            name,
            path,
            Stage::Remove,
            Some(crate::message::module_of(item, plugin_type)),
            outcome,
        ),
        None => outcome == Ok::<(), SoftwareErrorView>(()),
    }
}

/// Whether trying each of `asked` may come out as the outcome of the same
/// place.
pub open spec fn modules_tried(
    name: Seq<u8>,
    path: Seq<u8>,
    plugin_type: Seq<u8>,
    asked: Seq<ItemView>,
    outcomes: Seq<Result<(), SoftwareErrorView>>,
) -> bool {
    &&& outcomes.len() == asked.len()
    &&& forall|j: int|
        0 <= j < asked.len() ==> module_tried(
            name,
            path,
            plugin_type,
            asked[j],
            #[trigger] outcomes[j],
        )
}

/// Those of the first `n` items whose action came out as an error, in their
/// order, each as a failure.
pub open spec fn failed_items(
    asked: Seq<ItemView>,
    outcomes: Seq<Result<(), SoftwareErrorView>>,
    n: nat,
) -> Seq<ItemView>
    decreases n,
{
    if n == 0 || n > asked.len() || n > outcomes.len() {
        Seq::empty()
    } else if outcomes[n - 1] is Err {
        failed_items(asked, outcomes, (n - 1) as nat).push(failed(asked[n - 1], action_failed()))
    } else {
        failed_items(asked, outcomes, (n - 1) as nat)
    }
}

/// What installing and removing the modules of a list gives, whatever comes
/// of running the plugin: each action was tried, and the items whose action
/// came out as an error are the failures, in their order.
pub open spec fn installed_or_removed(
    name: Seq<u8>,
    path: Seq<u8>,
    plugin_type: Seq<u8>,
    asked: Seq<ItemView>,
    failures: Seq<ItemView>,
) -> bool {
    exists|outcomes: Seq<Result<(), SoftwareErrorView>>|
        #![trigger modules_tried(name, path, plugin_type, asked, outcomes)]
        modules_tried(name, path, plugin_type, asked, outcomes) && failures == failed_items(
            asked,
            outcomes,
            asked.len(),
        )
}

/// Outcomes that agree on the first `n` places give the same failures there.
proof fn lemma_failed_items_prefix(
    asked: Seq<ItemView>,
    first: Seq<Result<(), SoftwareErrorView>>,
    second: Seq<Result<(), SoftwareErrorView>>,
    n: nat,
)
    requires
        n <= asked.len(),
        n <= first.len(),
        n <= second.len(),
        forall|k: int| 0 <= k < n ==> first[k] == second[k],
    ensures
        failed_items(asked, first, n) == failed_items(asked, second, n),
    decreases n,
{
    if n > 0 {
        lemma_failed_items_prefix(asked, first, second, (n - 1) as nat);
    }
}

/// The failures are items that were asked for.
proof fn lemma_failed_items_were_asked(
    asked: Seq<ItemView>,
    outcomes: Seq<Result<(), SoftwareErrorView>>,
    n: nat,
)
    requires
        n <= asked.len(),
        n <= outcomes.len(),
    ensures
        failures_of(asked, failed_items(asked, outcomes, n)),
    decreases n,
{
    if n > 0 {
        lemma_failed_items_were_asked(asked, outcomes, (n - 1) as nat);
        let rest = failed_items(asked, outcomes, (n - 1) as nat);
        let all = failed_items(asked, outcomes, n);
        assert forall|k: int| 0 <= k < all.len() implies failed_among(asked, #[trigger] all[k]) by {
            if k < rest.len() {
                assert(all[k] == rest[k]);
            } else {
                assert(is_failure_of(asked[n - 1], all[k]));
            }
        }
    }
}

/// A plugin failed to list what is installed, with this error.
pub open spec fn some_plugin_failed(
    plugins: Seq<(Seq<u8>, Seq<u8>)>,
    error: SoftwareErrorView,
) -> bool {
    exists|i: int|
        0 <= i < plugins.len() && #[trigger] list_run(
            plugins[i].0,
            Err::<Seq<ModuleView>, SoftwareErrorView>(error),
        )
}

/// A plugin failed to finalize, with this error.
pub open spec fn some_plugin_did_not_finalize(
    plugins: Seq<(Seq<u8>, Seq<u8>)>,
    error: SoftwareErrorView,
) -> bool {
    exists|i: int|
        0 <= i < plugins.len() && #[trigger] stage_run(
            plugins[i].0,
            plugins[i].1,
            Stage::Finalize,
            None,
            Err::<(), SoftwareErrorView>(error),
        )
}

/// The errors that an update can end with. A type that no plugin manages
/// ends it with that error, and with no other. Else a plugin failed to
/// finalize, or a plugin failed to list what is installed.
pub open spec fn update_failure(
    plugins: Seq<(Seq<u8>, Seq<u8>)>,
    lists: Seq<ListView>,
    error: SoftwareErrorView,
) -> bool {
    match first_unknown(plugins, lists, 0) {
        Some(k) => error == (SoftwareErrorView::UnknownSoftwareType {
            software_type: lists[k].plugin_type,
        }),
        None => some_plugin_did_not_finalize(plugins, error) || some_plugin_failed(plugins, error),
    }
}

/// The modules that a plugin listed, as the list of the plugin's type.
pub open spec fn module_list(plugin_type: Seq<u8>, modules: Seq<ModuleView>) -> ListView {
    ListView {
        plugin_type,
        list: Seq::new(modules.len(), |j: int| crate::message::item_of(modules[j], None, None)),
    }
}

/// `list` is what the plugin `name` listed in some run.
pub open spec fn plugin_listed(name: Seq<u8>, list: ListView) -> bool {
    exists|modules: Seq<ModuleView>|
        #![trigger module_list(name, modules)]
        list_run(name, Ok::<Seq<ModuleView>, SoftwareErrorView>(modules)) && list == module_list(
            name,
            modules,
        )
}

/// `lists` holds, for each plugin in its order, what the plugin listed.
pub open spec fn plugins_listed(plugins: Seq<(Seq<u8>, Seq<u8>)>, lists: Seq<ListView>) -> bool {
    &&& lists.len() == plugins.len()
    &&& forall|i: int| 0 <= i < lists.len() ==> plugin_listed(plugins[i].0, #[trigger] lists[i])
}

/// The modules that a plugin listed, as the list of the plugin's type.
pub fn list_of_modules(plugin_type: &[u8], modules: &Vec<SoftwareModule>) -> (list:
    SoftwareRequestResponseSoftwareList)
    ensures
        list@ == module_list(plugin_type@, module_views(modules@)),
{
    let mut list: Vec<SoftwareModuleItem> = Vec::new();
    let mut j: usize = 0;
    while j < modules.len()
        invariant
            j <= modules@.len(),
            list@.len() == j,
            forall|k: int|
                0 <= k < j ==> (#[trigger] list@[k])@ == crate::message::item_of(
                    modules@[k]@,
                    None,
                    None,
                ),
        decreases modules@.len() - j,
    {
        list.push(SoftwareModuleItem::from_module(modules[j].duplicate()));
        j += 1;
    }
    let listed = SoftwareRequestResponseSoftwareList {
        plugin_type: slice_to_vec(plugin_type),
        list,
    };
    assert(listed@.list =~= module_list(plugin_type@, module_views(modules@)).list);
    listed
}

impl ExternalPlugins {
    /// The plugins that the directory `plugin_dir` holds, where `entries` is
    /// what the directory was read as.
    pub fn open(plugin_dir: &[u8], entries: &Vec<DirectoryEntry>) -> (plugins: ExternalPlugins)
        ensures
            plugins.plugin_dir@ == plugin_dir@,
            plugins@ == loaded(entry_views(entries@), entries@.len() as nat),
    {
        let mut plugins = ExternalPlugins {
            plugin_dir: slice_to_vec(plugin_dir),
            plugin_map: Vec::new(),
        };
        plugins.load(entries);
        plugins
    }

    /// Forgets the plugins and takes those that `entries` holds.
    pub fn load(&mut self, entries: &Vec<DirectoryEntry>)
        ensures
            final(self).plugin_dir == old(self).plugin_dir,
            final(self)@ == loaded(entry_views(entries@), entries@.len() as nat),
    {
        let ghost all = entry_views(entries@);
        self.plugin_map.clear();
        let mut i: usize = 0;
        assert(self@ =~= loaded(all, 0));
        while i < entries.len()
            invariant
                i <= entries@.len(),
                all == entry_views(entries@),
                self.plugin_dir == old(self).plugin_dir,
                self@ == loaded(all, i as nat),
            decreases entries@.len() - i,
        {
            assert(all[i as int] == entries@[i as int]@);
            let entry = &entries[i];
            if entry.is_file {
                match &entry.file_name {
                    Some(name) => {
                        let ghost before = self@;
                        let plugin = ExternalPluginCommand::new(
                            name.as_slice(),
                            entry.path.as_slice(),
                        );
                        match find_plugin(&self.plugin_map, name.as_slice()) {
                            Some(at) => {
                                self.plugin_map.set(at, plugin);
                                assert(self@ =~= before.update(at as int, (name@, entry.path@)));
                            },
                            None => {
                                self.plugin_map.push(plugin);
                                assert(self@ =~= before.push((name@, entry.path@)));
                            },
                        }
                    },
                    None => {},
                }
            }
            i += 1;
        }
    }

    /// Whether there is no plugin.
    pub fn empty(&self) -> (none: bool)
        ensures
            none == (self@.len() == 0),
    {
        self.plugin_map.len() == 0
    }

    /// The software that is installed: one list for each plugin, in the
    /// order of the plugins. The first plugin that fails fails the whole,
    /// with its error; without plugins nothing can fail, and nothing is
    /// installed.
    pub fn list<R: CommandRunner>(&self, runner: &R) -> (lists: Result<
        Vec<SoftwareRequestResponseSoftwareList>,
        SoftwareError,
    >)
        ensures
            match lists {
                Ok(l) => plugins_listed(self@, list_views(l@)),
                Err(e) => some_plugin_failed(self@, e@),
            },
    {
        let mut complete: Vec<SoftwareRequestResponseSoftwareList> = Vec::new();
        let mut i: usize = 0;
        while i < self.plugin_map.len()
            invariant
                i <= self.plugin_map@.len(),
                complete@.len() == i,
                forall|k: int|
                    0 <= k < i ==> plugin_listed(
                        self.plugin_map@[k].name@,
                        (#[trigger] complete@[k])@,
                    ),
            decreases self.plugin_map@.len() - i,
        {
            let plugin = &self.plugin_map[i];
            let modules = match plugin.list(runner) {
                Ok(modules) => modules,
                Err(error) => {
                    proof {
                        assert(self@[i as int] == (
                            self.plugin_map@[i as int].name@,
                            self.plugin_map@[i as int].path@,
                        ));
                        assert(list_run(
                            self@[i as int].0,
                            Err::<Seq<ModuleView>, SoftwareErrorView>(error@),
                        ));
                    }
                    return Err(error);
                },
            };
            let list = list_of_modules(plugin.name.as_slice(), &modules);
            assert(list@ == module_list(plugin.name@, module_views(modules@)));
            complete.push(list);
            i += 1;
        }
        assert forall|i: int| 0 <= i < list_views(complete@).len() implies plugin_listed(
            self@[i].0,
            #[trigger] list_views(complete@)[i],
        ) by {
            assert(self@[i] == (self.plugin_map@[i].name@, self.plugin_map@[i].path@));
            assert(plugin_listed(self.plugin_map@[i].name@, complete@[i]@));
        }
        Ok(complete)
    }

    fn check_types(&self, lists: &Vec<SoftwareRequestResponseSoftwareList>) -> (unknown: Option<
        usize,
    >)
        ensures
            match unknown {
                Some(k) => first_unknown(self@, list_views(lists@), 0) == Some(k as int) && k
                    < lists@.len(),
                None => first_unknown(self@, list_views(lists@), 0) is None,
            },
    {
        let ghost all = list_views(lists@);
        let mut k: usize = 0;
        while k < lists.len()
            invariant
                k <= lists@.len(),
                all == list_views(lists@),
                first_unknown(self@, all, 0) == first_unknown(self@, all, k as int),
            decreases lists@.len() - k,
        {
            assert(all[k as int] == lists@[k as int]@);
            if find_plugin(&self.plugin_map, lists[k].plugin_type.as_slice()).is_none() {
                return Some(k);
            }
            k += 1;
        }
        None
    }

    /// Installs and removes the modules of one list, in their order, and
    /// gives those that failed.
    pub fn install_or_remove<R: CommandRunner>(
        &self,
        software_list_type: &SoftwareRequestResponseSoftwareList,
        plugin: &ExternalPluginCommand,
        runner: &R,
    ) -> (failures: Vec<SoftwareModuleItem>)
        ensures
            installed_or_removed(
                plugin.name@,
                plugin.path@,
                software_list_type@.plugin_type,
                software_list_type@.list,
                item_list_views(failures@),
            ),
            failures_of(software_list_type@.list, item_list_views(failures@)),
    {
        proof {
            reveal_strlit("Action failed");
        }
        let reason = bytes_of("Action failed");
        let ghost asked = software_list_type@.list;
        let ghost plugin_type = software_list_type@.plugin_type;
        let ghost mut outcomes: Seq<Result<(), SoftwareErrorView>> = Seq::empty();
        let mut failures: Vec<SoftwareModuleItem> = Vec::new();
        let mut j: usize = 0;
        assert(item_list_views(failures@) =~= failed_items(asked, outcomes, 0));
        while j < software_list_type.list.len()
            invariant
                j <= software_list_type.list@.len(),
                asked == software_list_type@.list,
                plugin_type == software_list_type@.plugin_type,
                reason@ == action_failed(),
                outcomes.len() == j,
                forall|k: int|
                    0 <= k < j ==> module_tried(
                        plugin.name@,
                        plugin.path@,
                        plugin_type,
                        asked[k],
                        #[trigger] outcomes[k],
                    ),
                item_list_views(failures@) == failed_items(asked, outcomes, j as nat),
            decreases software_list_type.list@.len() - j,
        {
            let item = &software_list_type.list[j];
            assert(asked[j as int] == item@);
            let module = item.duplicate().into_module(software_list_type.plugin_type.as_slice());
            let status = match item.action {
                Some(SoftwareModuleAction::Install) => plugin.install(&module, runner),
                Some(SoftwareModuleAction::Remove) => plugin.remove(&module, runner),
                None => Ok(()),
            };
            let ghost before = outcomes;
            let ghost listed = item_list_views(failures@);
            proof {
                outcomes = outcomes.push(stage_view(status));
                lemma_failed_items_prefix(asked, before, outcomes, j as nat);
            }
            if status.is_err() {
                let failure = item.failed_for(reason.as_slice());
                failures.push(failure);
                assert(item_list_views(failures@) =~= listed.push(
                    failed(asked[j as int], action_failed()),
                ));
            }
            j += 1;
        }
        proof {
            assert(modules_tried(plugin.name@, plugin.path@, plugin_type, asked, outcomes));
            lemma_failed_items_were_asked(asked, outcomes, asked.len());
        }
        failures
    }

    fn all_failed(list: &SoftwareRequestResponseSoftwareList) -> (failures: Vec<SoftwareModuleItem>)
        ensures
            failures@.len() == list.list@.len(),
            failures_of(list@.list, item_list_views(failures@)),
    {
        proof {
            reveal_strlit("Failed prepare stage");
        }
        let reason = bytes_of("Failed prepare stage");
        let mut failures: Vec<SoftwareModuleItem> = Vec::new();
        let mut j: usize = 0;
        while j < list.list.len()
            invariant
                j <= list.list@.len(),
                failures@.len() == j,
                reason@ == prepare_failed(),
                forall|k: int|
                    0 <= k < j ==> #[trigger] failures@[k]@ == failed(
                        list.list@[k]@,
                        prepare_failed(),
                    ),
            decreases list.list@.len() - j,
        {
            failures.push(list.list[j].failed_for(reason.as_slice()));
            j += 1;
        }
        assert forall|k: int| 0 <= k < item_list_views(failures@).len() implies failed_among(
            list@.list,
            #[trigger] item_list_views(failures@)[k],
        ) by {
            assert(failures@[k]@ == failed(list.list@[k]@, prepare_failed()));
            assert(list@.list[k] == list.list@[k]@);
            assert(is_failure_of(list@.list[k], item_list_views(failures@)[k]));
        }
        failures
    }

    /// Carries an update out: for each list of the request its plugin
    /// prepares, installs or removes each module, and finalizes; then all
    /// plugins list what is installed. A type that no plugin manages fails
    /// the request before anything is run, and nothing else fails it but a
    /// plugin that does not finalize or does not list. Without plugins an
    /// update of nothing succeeds.
    pub fn process<R: CommandRunner>(
        &self,
        request: &SoftwareRequestUpdate,
        runner: &R,
    ) -> (outcome: Result<SoftwareRequestResponse, SoftwareError>)
        ensures
            first_unknown(self@, request@.update_list, 0) is Some ==> outcome is Err,
            match outcome {
                Ok(response) => first_unknown(self@, request@.update_list, 0) is None && answers(
                    request@,
                    response@,
                ) && plugins_listed(self@, response@.current_software_list),
                Err(e) => update_failure(self@, request@.update_list, e@),
            },
            self@.len() == 0 && request@.update_list.len() == 0 ==> outcome is Ok,
    {
        match self.check_types(&request.update_list) {
            Some(k) => {
                assert(request@.update_list[k as int] == request.update_list@[k as int]@);
                return Err(
                    SoftwareError::UnknownSoftwareType {
                        software_type: slice_to_vec(request.update_list[k].plugin_type.as_slice()),
                    },
                );
            },
            None => {},
        }
        let ghost asked = request@.update_list;
        let mut failures: Vec<SoftwareRequestResponseSoftwareList> = Vec::new();
        let mut i: usize = 0;
        while i < request.update_list.len()
            invariant
                i <= request.update_list@.len(),
                asked == request@.update_list,
                first_unknown(self@, asked, 0) is None,
                failures@.len() <= i,
                forall|k: int|
                    0 <= k < failures@.len() ==> (#[trigger] failures@[k])@.list.len() > 0
                        && exists|j: int|
                        0 <= j < asked.len() && failures@[k]@.plugin_type == asked[j].plugin_type
                            && failures_of(asked[j].list, failures@[k]@.list),
            decreases request.update_list@.len() - i,
        {
            let list = &request.update_list[i];
            assert(asked[i as int] == list@);
            match self.by_software_type(list.plugin_type.as_slice()) {
                Some(plugin) => {
                    let failed = match plugin.prepare(runner) {
                        Err(_) => ExternalPlugins::all_failed(list),
                        Ok(_) => {
                            let failed = self.install_or_remove(list, plugin, runner);
                            match plugin.finalize(runner) {
                                Err(error) => {
                                    proof {
                                        lemma_plugin_at(self@, list.plugin_type@, 0);
                                        let at = plugin_at(self@, list.plugin_type@, 0)->0;
                                        assert(self@[at] == (plugin.name@, plugin.path@));
                                        assert(stage_run(
                                            self@[at].0,
                                            self@[at].1,
                                            Stage::Finalize,
                                            None,
                                            Err::<(), SoftwareErrorView>(error@),
                                        ));
                                    }
                                    return Err(error);
                                },
                                Ok(_) => {},
                            }
                            failed
                        },
                    };
                    if failed.len() > 0 {
                        failures.push(
                            SoftwareRequestResponseSoftwareList {
                                plugin_type: slice_to_vec(list.plugin_type.as_slice()),
                                list: failed,
                            },
                        );
                    }
                },
                None => {},
            }
            i += 1;
        }
        let software_list = match self.list(runner) {
            Ok(software_list) => software_list,
            Err(error) => {
                return Err(error);
            },
        };
        let ghost failed_views = list_views(failures@);
        let mut response = SoftwareRequestResponse {
            id: request.id,
            status: SoftwareOperationStatus::Failed,
            reason: None,
            current_software_list: Vec::new(),
            failures,
        };
        response.finalize_response(software_list);
        proof {
            assert(response@.failures == failed_views);
            assert forall|k: int| 0 <= k < response@.failures.len() implies (
            #[trigger] response@.failures[k]).list.len() > 0 && exists|j: int|
                0 <= j < asked.len() && response@.failures[k].plugin_type == asked[j].plugin_type
                    && failures_of(asked[j].list, response@.failures[k].list) by {
                assert(response@.failures[k] == response.failures@[k]@);
            }
        }
        Ok(response)
    }
}

} // verus!
