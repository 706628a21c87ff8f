//! Software plugins: one program for each software type, driven through its
//! command line.

use crate::json::{json_parsed, parse};
use crate::message::{decoded_item, SoftwareModuleItem};
use crate::software::{
    optional_bytes, ModuleView, SoftwareError, SoftwareErrorView, SoftwareModule,
    SoftwareModuleUpdate, SoftwareModuleUpdateResult, SoftwareType, UpdateView,
};
use crate::text::{ascii, bytes_eq, bytes_of, split_words, trim, trimmed, views, words};
use vstd::prelude::*;
use vstd::slice::*;
use vstd::string::*;
use vstd::utf8::valid_utf8;

verus! {

/// A program to run: its path, its arguments, and where to run it.
#[derive(Debug)]
pub struct CommandLine {
    pub program: Vec<u8>,
    pub args: Vec<Vec<u8>>,
    pub current_dir: Option<Vec<u8>>,
}

pub struct CommandView {
    pub program: Seq<u8>,
    pub args: Seq<Seq<u8>>,
    pub current_dir: Option<Seq<u8>>,
}

impl View for CommandLine {
    type V = CommandView;

    open spec fn view(&self) -> CommandView {
        CommandView {
            program: self.program@,
            args: views(self.args@),
            current_dir: optional_bytes(self.current_dir),
        }
    }
}

/// What a program left behind: whether it succeeded, and what it wrote.
#[derive(Debug)]
pub struct ProcessOutput {
    pub success: bool,
    pub stdout: Vec<u8>,
    pub stderr: Vec<u8>,
}

pub struct OutputView {
    pub success: bool,
    pub stdout: Seq<u8>,
    pub stderr: Seq<u8>,
}

impl View for ProcessOutput {
    type V = OutputView;

    open spec fn view(&self) -> OutputView {
        OutputView { success: self.success, stdout: self.stdout@, stderr: self.stderr@ }
    }
}

/// Runs programs to their end. A program that cannot be run gives the reason.
pub trait CommandRunner {
    fn run(&self, command: &CommandLine) -> Result<ProcessOutput, Vec<u8>>;
}

/// What `std::str::from_utf8` says of bytes that are not UTF-8.
pub uninterp spec fn utf8_error_text(bytes: Seq<u8>) -> Seq<u8>;

/// Calls `std::str::from_utf8`. It accepts exactly the byte strings that are
/// UTF-8; for the others the result is the text of its error, which the
/// contract names.
#[verifier::external_body]
pub(crate) fn utf8_error(bytes: &[u8]) -> (error: Option<Vec<u8>>)
    ensures
        error is None == valid_utf8(bytes@),
        error matches Some(text) ==> text@ == utf8_error_text(bytes@),
{
    std::str::from_utf8(bytes).err().map(|e| e.to_string().into_bytes())
}

/// The stages of an update that a plugin goes through.
#[derive(Clone, Copy, Debug, PartialEq, Eq, Structural)]
pub enum Stage {
    Prepare,
    Install,
    Remove,
    Finalize,
}

/// The action that a plugin is asked for in a stage.
pub open spec fn stage_name(stage: Stage) -> Seq<u8> {
    match stage {
        Stage::Prepare => ascii("prepare"@),
        Stage::Install => ascii("install"@),
        Stage::Remove => ascii("remove"@),
        Stage::Finalize => ascii("finalize"@),
    }
}

impl Stage {
    pub fn name(&self) -> (name: Vec<u8>)
        ensures
            name@ == stage_name(*self),
    {
        proof {
            reveal_strlit("prepare");
            reveal_strlit("install");
            reveal_strlit("remove");
            reveal_strlit("finalize");
        }
        match self {
            Stage::Prepare => bytes_of("prepare"),
            Stage::Install => bytes_of("install"),
            Stage::Remove => bytes_of("remove"),
            Stage::Finalize => bytes_of("finalize"),
        }
    }
}

/// The plugin for one software type: the program at `path`.
#[derive(Debug)]
pub struct ExternalPluginCommand {
    pub name: SoftwareType,
    pub path: Vec<u8>,
}

/// The model of an optional module.
pub open spec fn optional_module(module: Option<&SoftwareModule>) -> Option<ModuleView> {
    match module {
        Some(m) => Some(m@),
        None => None,
    }
}

/// The arguments that name a module: its name, then its version where it
/// has one.
pub open spec fn module_args(module: Option<ModuleView>) -> Seq<Seq<u8>> {
    match module {
        Some(m) => match m.version {
            Some(version) => seq![m.name, version],
            None => seq![m.name],
        },
        None => Seq::empty(),
    }
}

/// The command line of a plugin for an action: the action, then the module
/// where the action has one. A module of another type is refused.
pub open spec fn plugin_command(
    name: Seq<u8>,
    path: Seq<u8>,
    action: Seq<u8>,
    module: Option<ModuleView>,
) -> Result<CommandView, SoftwareErrorView> {
    if module is Some && module->0.software_type != name {
        Err(
            SoftwareErrorView::WrongModuleType {
                actual_type: name,
                expected_type: module->0.software_type,
            },
        )
    } else {
        Ok(
            CommandView {
                program: path,
                args: seq![action] + module_args(module),
                current_dir: Some(ascii("/tmp"@)),
            },
        )
    }
}

/// What a plugin wrote, which has to be UTF-8.
pub open spec fn content_of(name: Seq<u8>, bytes: Seq<u8>) -> Result<Seq<u8>, SoftwareErrorView> {
    if valid_utf8(bytes) {
        Ok(bytes)
    } else {
        Err(SoftwareErrorView::Plugin { software_type: name, reason: utf8_error_text(bytes) })
    }
}

/// The error of a stage that failed for `reason`.
pub open spec fn stage_error(
    stage: Stage,
    module: Option<ModuleView>,
    reason: Seq<u8>,
) -> SoftwareErrorView {
    match (stage, module) {
        (Stage::Install, Some(m)) => SoftwareErrorView::Install { module: m, reason },
        (Stage::Remove, Some(m)) => SoftwareErrorView::Uninstall { module: m, reason },
        (Stage::Finalize, _) => SoftwareErrorView::Finalize { reason },
        _ => SoftwareErrorView::Prepare { reason },
    }
}

/// What the run of a stage means: a plugin that could not be run, or that
/// failed, gives an error with what it wrote to its error stream.
pub open spec fn stage_outcome(
    name: Seq<u8>,
    stage: Stage,
    module: Option<ModuleView>,
    run: Result<OutputView, Seq<u8>>,
) -> Result<(), SoftwareErrorView> {
    match run {
        Err(reason) => Err(SoftwareErrorView::Plugin { software_type: name, reason }),
        Ok(output) => if output.success {
            Ok(())
        } else {
            match content_of(name, output.stderr) {
                Err(error) => Err(error),
                Ok(reason) => Err(stage_error(stage, module, reason)),
            }
        },
    }
}

/// The model of the result of a run.
pub open spec fn run_view(run: Result<ProcessOutput, Vec<u8>>) -> Result<OutputView, Seq<u8>> {
    match run {
        Ok(output) => Ok(output@),
        Err(reason) => Err(reason@),
    }
}

/// What is said of a list that holds a module that cannot be read.
pub open spec fn unreadable_module() -> Seq<u8> {
    ascii("the plugin listed a module that cannot be read"@)
}

/// The module that one word of a plugin's list describes.
pub open spec fn listed_module(name: Seq<u8>, word: Seq<u8>) -> Option<ModuleView> {
    match json_parsed(word) {
        Some(tree) => match decoded_item(tree) {
            Some(item) => Some(
                ModuleView {
                    software_type: name,
                    name: item.name,
                    version: item.version,
                    url: match item.url {
                        Some(info) => Some(info.url),
                        None => None,
                    },
                },
            ),
            None => None,
        },
        None => None,
    }
}

/// The modules that the first `n` words describe; none where one of the
/// words cannot be read.
pub open spec fn listed_modules(name: Seq<u8>, list: Seq<Seq<u8>>, n: nat) -> Option<
    Seq<ModuleView>,
>
    decreases n,
{
    if n == 0 || n > list.len() {
        Some(Seq::empty())
    } else {
        match (listed_modules(name, list, (n - 1) as nat), listed_module(name, list[n - 1])) {
            (Some(rest), Some(module)) => Some(rest.push(module)),
            _ => None,
        }
    }
}

/// What the run of `list` means: each word that the plugin wrote is one
/// module.
pub open spec fn list_outcome(name: Seq<u8>, run: Result<OutputView, Seq<u8>>) -> Result<
    Seq<ModuleView>,
    SoftwareErrorView,
> {
    match run {
        Err(reason) => Err(SoftwareErrorView::Plugin { software_type: name, reason }),
        Ok(output) => if output.success {
            match listed_modules(name, words(output.stdout), words(output.stdout).len()) {
                Some(modules) => Ok(modules),
                None => Err(
                    SoftwareErrorView::Plugin { software_type: name, reason: unreadable_module() },
                ),
            }
        } else {
            match content_of(name, output.stderr) {
                Err(error) => Err(error),
                Ok(reason) => Err(SoftwareErrorView::Plugin { software_type: name, reason }),
            }
        },
    }
}

/// What the run of `version` means: the version is what the plugin wrote,
/// without the white space around it; nothing means that there is none.
pub open spec fn version_outcome(name: Seq<u8>, run: Result<OutputView, Seq<u8>>) -> Result<
    Option<Seq<u8>>,
    SoftwareErrorView,
> {
    match run {
        Err(reason) => Err(SoftwareErrorView::Plugin { software_type: name, reason }),
        Ok(output) => if output.success {
            match content_of(name, output.stdout) {
                Err(error) => Err(error),
                Ok(text) => if trim(text).len() == 0 {
                    Ok(None)
                } else {
                    Ok(Some(trim(text)))
                },
            }
        } else {
            match content_of(name, output.stderr) {
                Err(error) => Err(error),
                Ok(reason) => Err(SoftwareErrorView::Plugin { software_type: name, reason }),
            }
        },
    }
}

/// The models of a list of modules.
pub open spec fn module_views(modules: Seq<SoftwareModule>) -> Seq<ModuleView> {
    Seq::new(modules.len(), |i: int| modules[i]@)
}

/// The model of the outcome of a stage.
pub open spec fn stage_view(outcome: Result<(), SoftwareError>) -> Result<(), SoftwareErrorView> {
    match outcome {
        Ok(_) => Ok(()),
        Err(error) => Err(error@),
    }
}

/// The model of the outcome of `list`.
pub open spec fn list_view(outcome: Result<Vec<SoftwareModule>, SoftwareError>) -> Result<
    Seq<ModuleView>,
    SoftwareErrorView,
> {
    match outcome {
        Ok(modules) => Ok(module_views(modules@)),
        Err(error) => Err(error@),
    }
}

/// The model of the outcome of `version`.
pub open spec fn version_view(outcome: Result<Option<Vec<u8>>, SoftwareError>) -> Result<
    Option<Seq<u8>>,
    SoftwareErrorView,
> {
    match outcome {
        Ok(version) => Ok(optional_bytes(version)),
        Err(error) => Err(error@),
    }
}

/// What a stage gives, whatever comes of running the plugin: the error of a
/// module of another type, without a run; else what some run means.
pub open spec fn stage_run(
    name: Seq<u8>,
    path: Seq<u8>,
    stage: Stage,
    module: Option<ModuleView>,
    outcome: Result<(), SoftwareErrorView>,
) -> bool {
    match plugin_command(name, path, stage_name(stage), module) {
        Err(error) => outcome == Err::<(), SoftwareErrorView>(error),
        Ok(_) => exists|run: Result<OutputView, Seq<u8>>|
            outcome == #[trigger] stage_outcome(name, stage, module, run),
    }
}

/// What `list` gives, whatever comes of running the plugin.
pub open spec fn list_run(
    name: Seq<u8>,
    outcome: Result<Seq<ModuleView>, SoftwareErrorView>,
) -> bool {
    exists|run: Result<OutputView, Seq<u8>>| outcome == #[trigger] list_outcome(name, run)
}

/// What `version` gives, whatever comes of running the plugin.
pub open spec fn version_run(
    name: Seq<u8>,
    path: Seq<u8>,
    module: ModuleView,
    outcome: Result<Option<Seq<u8>>, SoftwareErrorView>,
) -> bool {
    match plugin_command(name, path, ascii("version"@), Some(module)) {
        Err(error) => outcome == Err::<Option<Seq<u8>>, SoftwareErrorView>(error),
        Ok(_) => exists|run: Result<OutputView, Seq<u8>>|
            outcome == #[trigger] version_outcome(name, run),
    }
}

proof fn lemma_listed_none_stays(name: Seq<u8>, list: Seq<Seq<u8>>, n: nat, m: nat)
    requires
        n <= m <= list.len(),
        listed_modules(name, list, n) is None,
    ensures
        listed_modules(name, list, m) is None,
    decreases m - n,
{
    if n < m {
        lemma_listed_none_stays(name, list, n, (m - 1) as nat);
    }
}

impl ExternalPluginCommand {
    pub fn new(name: &[u8], path: &[u8]) -> (plugin: ExternalPluginCommand)
        ensures
            plugin.name@ == name@,
            plugin.path@ == path@,
    {
        ExternalPluginCommand { name: slice_to_vec(name), path: slice_to_vec(path) }
    }

    /// Refuses a module of another type than the plugin's.
    pub fn check_module_type(&self, module: &SoftwareModule) -> (checked: Result<(), SoftwareError>)
        ensures
            match checked {
                Ok(_) => module@.software_type == self.name@,
                Err(e) => module@.software_type != self.name@ && e@ == (
                SoftwareErrorView::WrongModuleType {
                    actual_type: self.name@,
                    expected_type: module@.software_type,
                }),
            },
    {
        if bytes_eq(module.software_type.as_slice(), self.name.as_slice()) {
            Ok(())
        } else {
            Err(
                SoftwareError::WrongModuleType {
                    actual_type: slice_to_vec(self.name.as_slice()),
                    expected_type: slice_to_vec(module.software_type.as_slice()),
                },
            )
        }
    }

    /// The command line for an action.
    pub fn command(&self, action: &[u8], maybe_module: Option<&SoftwareModule>) -> (command:
        Result<CommandLine, SoftwareError>)
        ensures
            match command {
                Ok(c) => plugin_command(
                    self.name@,
                    self.path@,
                    action@,
                    optional_module(maybe_module),
                ) == Ok::<CommandView, SoftwareErrorView>(c@),
                Err(e) => plugin_command(
                    self.name@,
                    self.path@,
                    action@,
                    optional_module(maybe_module),
                ) == Err::<CommandView, SoftwareErrorView>(e@),
            },
    {
        proof {
            reveal_strlit("/tmp");
        }
        let mut args: Vec<Vec<u8>> = Vec::new();
        args.push(slice_to_vec(action));
        match maybe_module {
            Some(module) => {
                match self.check_module_type(module) {
                    Err(error) => {
                        return Err(error);
                    },
                    Ok(_) => {},
                }
                args.push(slice_to_vec(module.name.as_slice()));
                match &module.version {
                    Some(version) => {
                        args.push(slice_to_vec(version.as_slice()));
                    },
                    None => {},
                }
            },
            None => {},
        }
        assert(views(args@) =~= seq![action@] + module_args(optional_module(maybe_module)));
        Ok(
            CommandLine {
                program: slice_to_vec(self.path.as_slice()),
                args,
                current_dir: Some(bytes_of("/tmp")),
            },
        )
    }

    /// What a run means for the plugin: a program that cannot be run is an
    /// error of the plugin.
    pub fn run_result(&self, run: Result<ProcessOutput, Vec<u8>>) -> (output: Result<
        ProcessOutput,
        SoftwareError,
    >)
        ensures
            match (run, output) {
                (Ok(out), Ok(o)) => o == out,
                (Err(reason), Err(e)) => e@ == (SoftwareErrorView::Plugin {
                    software_type: self.name@,
                    reason: reason@,
                }),
                _ => false,
            },
    {
        match run {
            Ok(output) => Ok(output),
            Err(reason) => Err(self.plugin_error(reason.as_slice())),
        }
    }

    /// Runs a command of the plugin.
    pub fn execute<R: CommandRunner>(&self, command: &CommandLine, runner: &R) -> (output: Result<
        ProcessOutput,
        SoftwareError,
    >)
        ensures
            output matches Err(e) ==> (e@ is Plugin && e@->Plugin_software_type == self.name@),
    {
        self.run_result(runner.run(command))
    }

    /// What the plugin wrote, which has to be UTF-8.
    pub fn content(&self, bytes: Vec<u8>) -> (text: Result<Vec<u8>, SoftwareError>)
        ensures
            match text {
                Ok(t) => content_of(self.name@, bytes@) == Ok::<Seq<u8>, SoftwareErrorView>(t@),
                Err(e) => content_of(self.name@, bytes@) == Err::<Seq<u8>, SoftwareErrorView>(
                    e@,
                ),
            },
    {
        match utf8_error(bytes.as_slice()) {
            None => Ok(bytes),
            Some(reason) => Err(self.plugin_error(reason.as_slice())),
        }
    }

    /// The error of this plugin for `reason`.
    pub fn plugin_error(&self, reason: &[u8]) -> (error: SoftwareError)
        ensures
            error@ == (SoftwareErrorView::Plugin { software_type: self.name@, reason: reason@ }),
    {
        SoftwareError::Plugin {
            software_type: slice_to_vec(self.name.as_slice()),
            reason: slice_to_vec(reason),
        }
    }

    /// What the run of a stage means.
    pub fn stage_result(
        &self,
        stage: Stage,
        module: Option<&SoftwareModule>,
        run: Result<ProcessOutput, Vec<u8>>,
    ) -> (outcome: Result<(), SoftwareError>)
        ensures
            stage_view(outcome) == stage_outcome(
                self.name@,
                stage,
                optional_module(module),
                run_view(run),
            ),
    {
        let output = match run {
            Ok(output) => output,
            Err(reason) => {
                return Err(self.plugin_error(reason.as_slice()));
            },
        };
        if output.success {
            return Ok(());
        }
        let reason = match self.content(output.stderr) {
            Ok(reason) => reason,
            Err(error) => {
                return Err(error);
            },
        };
        match (stage, module) {
            (Stage::Install, Some(m)) => Err(
                SoftwareError::Install { module: m.duplicate(), reason },
            ),
            (Stage::Remove, Some(m)) => Err(
                SoftwareError::Uninstall { module: m.duplicate(), reason },
            ),
            (Stage::Finalize, _) => Err(SoftwareError::Finalize { reason }),
            _ => Err(SoftwareError::Prepare { reason }),
        }
    }

    fn read_module(&self, word: &[u8]) -> (module: Option<SoftwareModule>)
        ensures
            match module {
                Some(m) => listed_module(self.name@, word@) == Some(m@),
                None => listed_module(self.name@, word@) is None,
            },
    {
        match parse(word) {
            Some(tree) => match SoftwareModuleItem::from_tree(&tree) {
                Some(item) => Some(
                    SoftwareModule {
                        software_type: slice_to_vec(self.name.as_slice()),
                        name: item.name,
                        version: item.version,
                        url: match item.url {
                            Some(info) => Some(info.url),
                            None => None,
                        },
                    },
                ),
                None => None,
            },
            None => None,
        }
    }

    /// What the run of `list` means.
    pub fn list_result(&self, run: Result<ProcessOutput, Vec<u8>>) -> (outcome: Result<
        Vec<SoftwareModule>,
        SoftwareError,
    >)
        ensures
            list_view(outcome) == list_outcome(self.name@, run_view(run)),
    {
        proof {
            reveal_strlit("the plugin listed a module that cannot be read");
        }
        let output = match run {
            Ok(output) => output,
            Err(reason) => {
                return Err(self.plugin_error(reason.as_slice()));
            },
        };
        if !output.success {
            return match self.content(output.stderr) {
                Ok(reason) => Err(self.plugin_error(reason.as_slice())),
                Err(error) => Err(error),
            };
        }
        let list = split_words(output.stdout.as_slice());
        let ghost all = views(list@);
        let mut modules: Vec<SoftwareModule> = Vec::new();
        let mut i: usize = 0;
        assert(module_views(modules@) =~= Seq::empty());
        while i < list.len()
            invariant
                i <= list@.len(),
                all == views(list@),
                all == words(output@.stdout),
                run_view(run) == Ok::<OutputView, Seq<u8>>(output@),
                output.success,
                listed_modules(self.name@, all, i as nat) == Some(module_views(modules@)),
            decreases list@.len() - i,
        {
            assert(all[i as int] == list@[i as int]@);
            match self.read_module(list[i].as_slice()) {
                Some(module) => {
                    let ghost before = module_views(modules@);
                    modules.push(module);
                    assert(module_views(modules@) =~= before.push(module@));
                },
                None => {
                    proof {
                        reveal_strlit("the plugin listed a module that cannot be read");
                        assert(listed_modules(self.name@, all, (i + 1) as nat) is None);
                        lemma_listed_none_stays(
                            self.name@,
                            all,
                            (i + 1) as nat,
                            list@.len() as nat,
                        );
                    }
                    return Err(
                        self.plugin_error(
                            bytes_of("the plugin listed a module that cannot be read").as_slice(),
                        ),
                    );
                },
            }
            i += 1;
        }
        Ok(modules)
    }

    /// What the run of `version` means.
    pub fn version_result(&self, run: Result<ProcessOutput, Vec<u8>>) -> (outcome: Result<
        Option<Vec<u8>>,
        SoftwareError,
    >)
        ensures
            version_view(outcome) == version_outcome(self.name@, run_view(run)),
    {
        let output = match run {
            Ok(output) => output,
            Err(reason) => {
                return Err(self.plugin_error(reason.as_slice()));
            },
        };
        if output.success {
            match self.content(output.stdout) {
                Ok(text) => {
                    let version = trimmed(text.as_slice());
                    if version.len() == 0 {
                        Ok(None)
                    } else {
                        Ok(Some(version))
                    }
                },
                Err(error) => Err(error),
            }
        } else {
            match self.content(output.stderr) {
                Ok(reason) => Err(self.plugin_error(reason.as_slice())),
                Err(error) => Err(error),
            }
        }
    }

    /// Runs one stage of an update.
    pub fn run_stage<R: CommandRunner>(
        &self,
        stage: Stage,
        module: Option<&SoftwareModule>,
        runner: &R,
    ) -> (outcome: Result<(), SoftwareError>)
        ensures
            stage_run(self.name@, self.path@, stage, optional_module(module), stage_view(outcome)),
    {
        let action = stage.name();
        let command = match self.command(action.as_slice(), module) {
            Ok(command) => command,
            Err(error) => {
                return Err(error);
            },
        };
        let run = runner.run(&command);
        let ghost seen = run_view(run);
        let outcome = self.stage_result(stage, module, run);
        assert(stage_view(outcome) == stage_outcome(
            self.name@,
            stage,
            optional_module(module),
            seen,
        ));
        outcome
    }

    /// Has the plugin prepare for a sequence of installations and removals.
    pub fn prepare<R: CommandRunner>(&self, runner: &R) -> (outcome: Result<(), SoftwareError>)
        ensures
            stage_run(self.name@, self.path@, Stage::Prepare, None, stage_view(outcome)),
    {
        self.run_stage(Stage::Prepare, None, runner)
    }

    /// Has the plugin install a module.
    pub fn install<R: CommandRunner>(&self, module: &SoftwareModule, runner: &R) -> (outcome:
        Result<(), SoftwareError>)
        ensures
            stage_run(self.name@, self.path@, Stage::Install, Some(module@), stage_view(outcome)),
    {
        self.run_stage(Stage::Install, Some(module), runner)
    }

    /// Has the plugin remove a module.
    pub fn remove<R: CommandRunner>(&self, module: &SoftwareModule, runner: &R) -> (outcome:
        Result<(), SoftwareError>)
        ensures
            stage_run(self.name@, self.path@, Stage::Remove, Some(module@), stage_view(outcome)),
    {
        self.run_stage(Stage::Remove, Some(module), runner)
    }

    /// Has the plugin end a sequence of installations and removals.
    pub fn finalize<R: CommandRunner>(&self, runner: &R) -> (outcome: Result<(), SoftwareError>)
        ensures
            stage_run(self.name@, self.path@, Stage::Finalize, None, stage_view(outcome)),
    {
        self.run_stage(Stage::Finalize, None, runner)
    }

    /// Asks the plugin for the modules that are installed.
    pub fn list<R: CommandRunner>(&self, runner: &R) -> (outcome: Result<
        Vec<SoftwareModule>,
        SoftwareError,
    >)
        ensures
            list_run(self.name@, list_view(outcome)),
            outcome matches Ok(modules) ==> (forall|i: int|
                0 <= i < modules@.len() ==> (#[trigger] modules@[i])@.software_type == self.name@),
    {
        proof {
            reveal_strlit("list");
        }
        let command = match self.command(bytes_of("list").as_slice(), None) {
            Ok(command) => command,
            Err(error) => {
                return Err(error);
            },
        };
        let run = runner.run(&command);
        let ghost seen = run_view(run);
        let outcome = self.list_result(run);
        proof {
            assert(list_view(outcome) == list_outcome(self.name@, seen));
            if outcome is Ok {
                let modules = outcome->Ok_0;
                lemma_listed_type(
                    self.name@,
                    words(seen->Ok_0.stdout),
                    words(seen->Ok_0.stdout).len(),
                );
                assert forall|i: int| 0 <= i < modules@.len() implies (
                #[trigger] modules@[i])@.software_type == self.name@ by {
                    assert(module_views(modules@)[i] == modules@[i]@);
                }
            }
        }
        outcome
    }

    /// Asks the plugin for the version of a module that is installed.
    pub fn version<R: CommandRunner>(&self, module: &SoftwareModule, runner: &R) -> (outcome:
        Result<Option<Vec<u8>>, SoftwareError>)
        ensures
            version_run(self.name@, self.path@, module@, version_view(outcome)),
    {
        proof {
            reveal_strlit("version");
        }
        let command = match self.command(bytes_of("version").as_slice(), Some(module)) {
            Ok(command) => command,
            Err(error) => {
                return Err(error);
            },
        };
        let run = runner.run(&command);
        let ghost seen = run_view(run);
        let outcome = self.version_result(run);
        assert(version_view(outcome) == version_outcome(self.name@, seen));
        outcome
    }
}

/// Every module that a plugin lists has the plugin's type.
pub proof fn lemma_listed_type(name: Seq<u8>, list: Seq<Seq<u8>>, n: nat)
    requires
        listed_modules(name, list, n) is Some,
    ensures
        forall|i: int|
            0 <= i < listed_modules(name, list, n)->0.len() ==> (#[trigger] listed_modules(
                name,
                list,
                n,
            )->0[i]).software_type == name,
    decreases n,
{
    if n == 0 || n > list.len() {
    } else {
        lemma_listed_type(name, list, (n - 1) as nat);
    }
}

/// The model of an update with the error that it met, if any.
pub open spec fn update_result_view(result: SoftwareModuleUpdateResult) -> (
    UpdateView,
    Option<SoftwareErrorView>,
) {
    (
        result.update@,
        match result.error {
            Some(error) => Some(error@),
            None => None,
        },
    )
}

/// The models of a list of updates with their errors.
pub open spec fn update_result_views(results: Seq<SoftwareModuleUpdateResult>) -> Seq<
    (UpdateView, Option<SoftwareErrorView>),
> {
    Seq::new(results.len(), |i: int| update_result_view(results[i]))
}

/// The models of a list of updates.
pub open spec fn update_views(updates: Seq<SoftwareModuleUpdate>) -> Seq<UpdateView> {
    Seq::new(updates.len(), |i: int| updates[i]@)
}

/// Those of the first `n` updates that failed, in their order, each with
/// its error.
pub open spec fn failed_updates(
    updates: Seq<UpdateView>,
    outcomes: Seq<Result<(), SoftwareErrorView>>,
    n: nat,
) -> Seq<(UpdateView, Option<SoftwareErrorView>)>
    decreases n,
{
    if n == 0 || n > updates.len() || n > outcomes.len() {
        Seq::empty()
    } else {
        match outcomes[n - 1] {
            Err(error) => failed_updates(updates, outcomes, (n - 1) as nat).push(
                (updates[n - 1], Some(error)),
            ),
            Ok(_) => failed_updates(updates, outcomes, (n - 1) as nat),
        }
    }
}

/// Updates that failed are updates that were asked for, and there are no
/// more of them than were asked for.
pub proof fn lemma_failed_updates(
    updates: Seq<UpdateView>,
    outcomes: Seq<Result<(), SoftwareErrorView>>,
    n: nat,
)
    requires
        n <= updates.len(),
        n <= outcomes.len(),
    ensures
        failed_updates(updates, outcomes, n).len() <= n,
        forall|k: int|
            0 <= k < failed_updates(updates, outcomes, n).len() ==> (#[trigger] failed_updates(
                updates,
                outcomes,
                n,
            )[k]).1 is Some && exists|i: int|
                0 <= i < n && failed_updates(updates, outcomes, n)[k].0 == updates[i],
    decreases n,
{
    if n > 0 {
        lemma_failed_updates(updates, outcomes, (n - 1) as nat);
        let rest = failed_updates(updates, outcomes, (n - 1) as nat);
        let all = failed_updates(updates, outcomes, n);
        assert forall|k: int| 0 <= k < all.len() implies (#[trigger] all[k]).1 is Some && exists|
            i: int,
        |
            0 <= i < n && all[k].0 == updates[i] by {
            if k < rest.len() {
                assert(all[k] == rest[k]);
                let i = choose|i: int| 0 <= i < n - 1 && rest[k].0 == updates[i];
                assert(0 <= i < n && all[k].0 == updates[i]);
            } else {
                assert(all[k].0 == updates[n - 1]);
            }
        }
    }
}

/// What a software type can do. Implemented by whatever manages the
/// modules of that type. A plugin may say for itself what its stages can
/// come out as; a plugin that says nothing may come out as anything.
pub trait Plugin: Sized {
    /// Whether `prepare` may come out as `outcome`.
    open spec fn prepares(&self, outcome: Result<(), SoftwareErrorView>) -> bool {
        true
    }

    /// Whether the installation of `module` may come out as `outcome`.
    open spec fn installs(
        &self,
        module: ModuleView,
        outcome: Result<(), SoftwareErrorView>,
    ) -> bool {
        true
    }

    /// Whether the removal of `module` may come out as `outcome`.
    open spec fn removes(
        &self,
        module: ModuleView,
        outcome: Result<(), SoftwareErrorView>,
    ) -> bool {
        true
    }

    /// Whether `finalize` may come out as `outcome`.
    open spec fn finalizes(&self, outcome: Result<(), SoftwareErrorView>) -> bool {
        true
    }

    /// Whether `list` may come out as `outcome`.
    open spec fn lists(&self, outcome: Result<Seq<ModuleView>, SoftwareErrorView>) -> bool {
        true
    }

    /// Whether asking for the version of `module` may come out as `outcome`.
    open spec fn tells_version(
        &self,
        module: ModuleView,
        outcome: Result<Option<Seq<u8>>, SoftwareErrorView>,
    ) -> bool {
        true
    }

    fn prepare(&self) -> (outcome: Result<(), SoftwareError>)
        ensures
            self.prepares(stage_view(outcome)),
    ;

    fn install(&self, module: &SoftwareModule) -> (outcome: Result<(), SoftwareError>)
        ensures
            self.installs(module@, stage_view(outcome)),
    ;

    fn remove(&self, module: &SoftwareModule) -> (outcome: Result<(), SoftwareError>)
        ensures
            self.removes(module@, stage_view(outcome)),
    ;

    fn finalize(&self) -> (outcome: Result<(), SoftwareError>)
        ensures
            self.finalizes(stage_view(outcome)),
    ;

    fn list(&self) -> (outcome: Result<Vec<SoftwareModule>, SoftwareError>)
        ensures
            self.lists(list_view(outcome)),
    ;

    fn version(&self, module: &SoftwareModule) -> (outcome: Result<
        Option<Vec<u8>>,
        SoftwareError,
    >)
        ensures
            self.tells_version(module@, version_view(outcome)),
    ;

    /// Installs or removes one module: the outcome is that of the
    /// installation, or that of the removal.
    fn apply(&self, update: &SoftwareModuleUpdate) -> (outcome: Result<(), SoftwareError>)
        ensures
            match update@ {
                UpdateView::Install { module } => self.installs(module, stage_view(outcome)),
                UpdateView::Remove { module } => self.removes(module, stage_view(outcome)),
            },
    {
        match update {
            SoftwareModuleUpdate::Install { module } => self.install(module),
            SoftwareModuleUpdate::Remove { module } => self.remove(module),
        }
    }

    /// Applies the updates in their order, after `prepare`, and gives those
    /// that failed, each with its error. Whatever the plugin does: it
    /// prepared, each update came out as its installation or its removal
    /// may, and those that came out as an error are given in their order.
    fn apply_all(&self, updates: &Vec<SoftwareModuleUpdate>) -> (failed: Vec<
        SoftwareModuleUpdateResult,
    >)
        ensures
            exists|prepared: Result<(), SoftwareErrorView>| #[trigger] self.prepares(prepared),
            exists|outcomes: Seq<Result<(), SoftwareErrorView>>|
                #![trigger failed_updates(update_views(updates@), outcomes, updates@.len())]
                outcomes.len() == updates@.len() && (forall|i: int|
                    0 <= i < updates@.len() ==> match update_views(updates@)[i] {
                        UpdateView::Install { module } => self.installs(
                            module,
                            #[trigger] outcomes[i],
                        ),
                        UpdateView::Remove { module } => self.removes(module, outcomes[i]),
                    }) && update_result_views(failed@) == failed_updates(
                    update_views(updates@),
                    outcomes,
                    updates@.len(),
                ),
            failed@.len() <= updates@.len(),
            forall|k: int|
                0 <= k < failed@.len() ==> (#[trigger] failed@[k]).error is Some && exists|i: int|
                    0 <= i < updates@.len() && failed@[k].update@ == updates@[i]@,
    {
        let ghost asked = update_views(updates@);
        let mut failed: Vec<SoftwareModuleUpdateResult> = Vec::new();
        let prepared = self.prepare();
        assert(self.prepares(stage_view(prepared)));
        let ghost mut outcomes: Seq<Result<(), SoftwareErrorView>> = Seq::empty();
        let mut i: usize = 0;
        assert(update_result_views(failed@) =~= failed_updates(asked, outcomes, 0));
        while i < updates.len()
            invariant
                i <= updates@.len(),
                asked == update_views(updates@),
                outcomes.len() == i,
                forall|k: int|
                    0 <= k < i ==> match asked[k] {
                        UpdateView::Install { module } => self.installs(
                            module,
                            #[trigger] outcomes[k],
                        ),
                        UpdateView::Remove { module } => self.removes(module, outcomes[k]),
                    },
                update_result_views(failed@) == failed_updates(asked, outcomes, i as nat),
            decreases updates@.len() - i,
        {
            let outcome = self.apply(&updates[i]);
            let ghost before = outcomes;
            let ghost listed = update_result_views(failed@);
            proof {
                assert(asked[i as int] == updates@[i as int]@);
                outcomes = outcomes.push(stage_view(outcome));
                lemma_failed_updates_prefix(asked, before, outcomes, i as nat);
            }
            match outcome {
                Err(error) => {
                    let result = SoftwareModuleUpdateResult {
                        update: updates[i].duplicate(),
                        error: Some(error),
                    };
                    failed.push(result);
                    assert(update_result_views(failed@) =~= listed.push(
                        (asked[i as int], Some(error@)),
                    ));
                },
                Ok(_) => {},
            }
            i += 1;
        }
        proof {
            assert(update_result_views(failed@) == failed_updates(
                asked,
                outcomes,
                updates@.len(),
            ));
            lemma_failed_updates(asked, outcomes, asked.len());
            assert forall|k: int| 0 <= k < failed@.len() implies (#[trigger] failed@[k]).error
                is Some && exists|i: int|
                0 <= i < updates@.len() && failed@[k].update@ == updates@[i]@ by {
                let views = update_result_views(failed@);
                assert(views[k] == update_result_view(failed@[k]));
                let i = choose|i: int| 0 <= i < asked.len() && views[k].0 == asked[i];
                assert(asked[i] == updates@[i]@);
            }
        }
        failed
    }
}

/// Outcomes that agree on the first `n` places give the same failures there.
proof fn lemma_failed_updates_prefix(
    updates: Seq<UpdateView>,
    first: Seq<Result<(), SoftwareErrorView>>,
    second: Seq<Result<(), SoftwareErrorView>>,
    n: nat,
)
    requires
        n <= updates.len(),
        n <= first.len(),
        n <= second.len(),
        forall|k: int| 0 <= k < n ==> first[k] == second[k],
    ensures
        failed_updates(updates, first, n) == failed_updates(updates, second, n),
    decreases n,
{
    if n > 0 {
        lemma_failed_updates_prefix(updates, first, second, (n - 1) as nat);
    }
}

/// A plugin program together with the means to run it.
pub struct ExternalPlugin<R: CommandRunner> {
    pub command: ExternalPluginCommand,
    pub runner: R,
}

impl<R: CommandRunner> Plugin for ExternalPlugin<R> {
    open spec fn prepares(&self, outcome: Result<(), SoftwareErrorView>) -> bool {
        stage_run(self.command.name@, self.command.path@, Stage::Prepare, None, outcome)
    }

    open spec fn installs(
        &self,
        module: ModuleView,
        outcome: Result<(), SoftwareErrorView>,
    ) -> bool {
        stage_run(self.command.name@, self.command.path@, Stage::Install, Some(module), outcome)
    }

    open spec fn removes(
        &self,
        module: ModuleView,
        outcome: Result<(), SoftwareErrorView>,
    ) -> bool {
        stage_run(self.command.name@, self.command.path@, Stage::Remove, Some(module), outcome)
    }

    open spec fn finalizes(&self, outcome: Result<(), SoftwareErrorView>) -> bool {
        stage_run(self.command.name@, self.command.path@, Stage::Finalize, None, outcome)
    }

    open spec fn lists(&self, outcome: Result<Seq<ModuleView>, SoftwareErrorView>) -> bool {
        list_run(self.command.name@, outcome)
    }

    open spec fn tells_version(
        &self,
        module: ModuleView,
        outcome: Result<Option<Seq<u8>>, SoftwareErrorView>,
    ) -> bool {
        version_run(self.command.name@, self.command.path@, module, outcome)
    }

    fn prepare(&self) -> (outcome: Result<(), SoftwareError>)
        ensures
            stage_run(
                self.command.name@,
                self.command.path@,
                Stage::Prepare,
                None,
                stage_view(outcome),
            ),
    {
        self.command.prepare(&self.runner)
    }

    fn install(&self, module: &SoftwareModule) -> (outcome: Result<(), SoftwareError>)
        ensures
            stage_run(
                self.command.name@,
                self.command.path@,
                Stage::Install,
                Some(module@),
                stage_view(outcome),
            ),
    {
        self.command.install(module, &self.runner)
    }

    fn remove(&self, module: &SoftwareModule) -> (outcome: Result<(), SoftwareError>)
        ensures
            stage_run(
                self.command.name@,
                self.command.path@,
                Stage::Remove,
                Some(module@),
                stage_view(outcome),
            ),
    {
        self.command.remove(module, &self.runner)
    }

    fn finalize(&self) -> (outcome: Result<(), SoftwareError>)
        ensures
            stage_run(
                self.command.name@,
                self.command.path@,
                Stage::Finalize,
                None,
                stage_view(outcome),
            ),
    {
        self.command.finalize(&self.runner)
    }

    fn list(&self) -> (outcome: Result<Vec<SoftwareModule>, SoftwareError>)
        ensures
            list_run(self.command.name@, list_view(outcome)),
    {
        self.command.list(&self.runner)
    }

    fn version(&self, module: &SoftwareModule) -> (outcome: Result<
        Option<Vec<u8>>,
        SoftwareError,
    >)
        ensures
            version_run(self.command.name@, self.command.path@, module@, version_view(outcome)),
    {
        self.command.version(module, &self.runner)
    }
}

} // verus!
