//! The plugin for packages: what the package tools are asked to do for each
//! operation, and how the plugin ends.

use crate::module_check::InternalError;
use crate::plugin::{CommandLine, CommandView};
use crate::software::optional_bytes;
use crate::text::{ascii, bytes_of, push_ascii, split_words, views, words};
use vstd::prelude::*;
use vstd::slice::*;
use vstd::string::*;

verus! {

/// What the plugin is asked to do.
#[derive(Debug)]
pub enum PluginOp {
    /// List all the installed modules
    List,
    /// Install a module
    Install { module: Vec<u8>, version: Option<Vec<u8>>, file_path: Option<Vec<u8>> },
    /// Uninstall a module
    Remove { module: Vec<u8>, version: Option<Vec<u8>> },
    /// Prepare a sequences of install/remove commands
    Prepare,
    /// Finalize a sequences of install/remove commands
    Finalize,
}

pub enum PluginOpView {
    List,
    Install { module: Seq<u8>, version: Option<Seq<u8>>, file_path: Option<Seq<u8>> },
    Remove { module: Seq<u8>, version: Option<Seq<u8>> },
    Prepare,
    Finalize,
}

impl View for PluginOp {
    type V = PluginOpView;

    open spec fn view(&self) -> PluginOpView {
        match self {
            PluginOp::List => PluginOpView::List,
            PluginOp::Install { module, version, file_path } => PluginOpView::Install {
                module: module@,
                version: optional_bytes(*version),
                file_path: optional_bytes(*file_path),
            },
            PluginOp::Remove { module, version } => PluginOpView::Remove {
                module: module@,
                version: optional_bytes(*version),
            },
            PluginOp::Prepare => PluginOpView::Prepare,
            PluginOp::Finalize => PluginOpView::Finalize,
        }
    }
}

/// What is run for an operation: one program, or one program that writes
/// to another.
#[derive(Debug)]
pub enum AptPlan {
    Single(CommandLine),
    Piped { first: CommandLine, second: CommandLine },
}

pub enum PlanView {
    Single(CommandView),
    Piped { first: CommandView, second: CommandView },
}

impl View for AptPlan {
    type V = PlanView;

    open spec fn view(&self) -> PlanView {
        match self {
            AptPlan::Single(command) => PlanView::Single(command@),
            AptPlan::Piped { first, second } => PlanView::Piped { first: first@, second: second@ },
        }
    }
}

/// The program `cmd` with the words of `args` as its arguments.
pub open spec fn command_of(cmd: Seq<u8>, args: Seq<u8>) -> CommandView {
    CommandView { program: cmd, args: words(args), current_dir: None }
}

/// The command line for a program and its arguments in one text.
pub fn run_cmd(cmd: &[u8], args: &[u8]) -> (command: CommandLine)
    ensures
        command@ == command_of(cmd@, args@),
{
    CommandLine { program: slice_to_vec(cmd), args: split_words(args), current_dir: None }
}

/// What the package tool is told for an installation: the file where one
/// is given, else the module, with its version where one is given.
pub open spec fn install_target(
    module: Seq<u8>,
    version: Option<Seq<u8>>,
    file_path: Option<Seq<u8>>,
) -> Seq<u8> {
    match (version, file_path) {
        (_, Some(file)) => file,
        (Some(v), None) => module + ascii("="@) + v,
        (None, None) => module,
    }
}

/// What the package tool is told for a removal.
pub open spec fn remove_target(module: Seq<u8>, version: Option<Seq<u8>>) -> Seq<u8> {
    match version {
        Some(v) => module + ascii("="@) + v,
        None => module,
    }
}

/// The program that turns the list of the package tool into one JSON
/// document for each line.
pub open spec fn list_filter() -> Seq<u8> {
    ascii(
        "{if ($1 != \"Listing...\") { print \"{\\\"name\\\":\\\"\"$1\"\\\",\\\"version\\\":\\\"\"$3\"\\\"}\"}}"@,
    )
}

fn list_filter_program() -> (program: Vec<u8>)
    ensures
        program@ == list_filter(),
{
    proof {
        reveal_strlit(
            "{if ($1 != \"Listing...\") { print \"{\\\"name\\\":\\\"\"$1\"\\\",\\\"version\\\":\\\"\"$3\"\\\"}\"}}",
        );
    }
    bytes_of(
        "{if ($1 != \"Listing...\") { print \"{\\\"name\\\":\\\"\"$1\"\\\",\\\"version\\\":\\\"\"$3\"\\\"}\"}}",
    )
}

/// What is run for an operation.
pub open spec fn apt_plan(operation: PluginOpView) -> PlanView {
    match operation {
        PluginOpView::List => PlanView::Piped {
            first: CommandView {
                program: ascii("apt"@),
                args: seq![ascii("--manual-installed"@), ascii("list"@)],
                current_dir: None,
            },
            second: CommandView {
                program: ascii("awk"@),
                args: seq![ascii("-F"@), ascii("[/ ]"@), list_filter()],
                current_dir: None,
            },
        },
        PluginOpView::Install { module, version, file_path } => PlanView::Single(
            command_of(
                ascii("apt-get"@),
                ascii("install --quiet --yes "@) + install_target(module, version, file_path),
            ),
        ),
        PluginOpView::Remove { module, version } => PlanView::Single(
            command_of(
                ascii("apt-get"@),
                ascii("remove --quiet --yes "@) + remove_target(module, version),
            ),
        ),
        PluginOpView::Prepare => PlanView::Single(
            command_of(ascii("apt-get"@), ascii("update --quiet --yes"@)),
        ),
        PluginOpView::Finalize => PlanView::Single(
            command_of(ascii("apt-get"@), ascii("auto-remove --quiet --yes"@)),
        ),
    }
}

fn with_version(module: &Vec<u8>, version: &Option<Vec<u8>>) -> (target: Vec<u8>)
    ensures
        target@ == remove_target(module@, optional_bytes(*version)),
{
    proof {
        reveal_strlit("=");
    }
    let mut target = slice_to_vec(module.as_slice());
    match version {
        Some(v) => {
            push_ascii(&mut target, "=");
            target.extend_from_slice(v.as_slice());
        },
        None => {},
    }
    target
}

fn apt_get(action: &str, target: &[u8]) -> (plan: AptPlan)
    requires
        is_ascii(action),
    ensures
        plan@ == PlanView::Single(command_of(ascii("apt-get"@), ascii(action@) + target@)),
{
    proof {
        reveal_strlit("apt-get");
    }
    let mut args = bytes_of(action);
    args.extend_from_slice(target);
    assert(args@ =~= ascii(action@) + target@);
    AptPlan::Single(run_cmd(bytes_of("apt-get").as_slice(), args.as_slice()))
}

/// Decides what is run for an operation.
pub fn run(operation: &PluginOp) -> (plan: AptPlan)
    ensures
        plan@ == apt_plan(operation@),
{
    proof {
        reveal_strlit("apt");
        reveal_strlit("--manual-installed");
        reveal_strlit("list");
        reveal_strlit("awk");
        reveal_strlit("-F");
        reveal_strlit("[/ ]");
        reveal_strlit("install --quiet --yes ");
        reveal_strlit("remove --quiet --yes ");
        reveal_strlit("update --quiet --yes");
        reveal_strlit("auto-remove --quiet --yes");
    }
    match operation {
        PluginOp::List => {
            let mut first: Vec<Vec<u8>> = Vec::new();
            first.push(bytes_of("--manual-installed"));
            first.push(bytes_of("list"));
            assert(views(first@) =~= seq![ascii("--manual-installed"@), ascii("list"@)]);
            let mut second: Vec<Vec<u8>> = Vec::new();
            second.push(bytes_of("-F"));
            second.push(bytes_of("[/ ]"));
            second.push(list_filter_program());
            assert(views(second@) =~= seq![ascii("-F"@), ascii("[/ ]"@), list_filter()]);
            AptPlan::Piped {
                first: CommandLine { program: bytes_of("apt"), args: first, current_dir: None },
                second: CommandLine { program: bytes_of("awk"), args: second, current_dir: None },
            }
        },
        PluginOp::Install { module, version, file_path } => {
            let target = match file_path {
                Some(file) => slice_to_vec(file.as_slice()),
                None => with_version(module, version),
            };
            apt_get("install --quiet --yes ", target.as_slice())
        },
        PluginOp::Remove { module, version } => {
            let target = with_version(module, version);
            apt_get("remove --quiet --yes ", target.as_slice())
        },
        PluginOp::Prepare => {
            let none: Vec<u8> = Vec::new();
            assert(ascii("update --quiet --yes"@) + none@ =~= ascii("update --quiet --yes"@));
            apt_get("update --quiet --yes", none.as_slice())
        },
        PluginOp::Finalize => {
            let none: Vec<u8> = Vec::new();
            assert(ascii("auto-remove --quiet --yes"@) + none@ =~= ascii(
                "auto-remove --quiet --yes"@,
            ));
            apt_get("auto-remove --quiet --yes", none.as_slice())
        },
    }
}

/// How a program ended: with a code, or cut short by a signal.
#[derive(Clone, Copy, Debug, PartialEq, Eq, Structural)]
pub struct ExitStatus {
    pub code: Option<i32>,
}

/// The code that the plugin ends with: 0 where the tool succeeded, 2 where
/// it failed, 4 where it was cut short by a signal, 5 where it could not be
/// run.
pub open spec fn exit_code_of(outcome: Result<ExitStatus, ()>) -> i32 {
    match outcome {
        Ok(status) => match status.code {
            Some(code) => if code == 0 {
                0
            } else {
                2
            },
            None => 4,
        },
        Err(_) => 5,
    }
}

/// The code that the plugin ends with.
pub fn exit_code(outcome: &Result<ExitStatus, InternalError>) -> (code: i32)
    ensures
        code == exit_code_of(
            match *outcome {
                Ok(status) => Ok(status),
                Err(_) => Err(()),
            },
        ),
{
    match outcome {
        Ok(status) => match status.code {
            Some(code) => if code == 0 {
                0
            } else {
                2
            },
            None => 4,
        },
        Err(_) => 5,
    }
}

} // verus!
