//! What the package plugin checks of a package file before it installs it.

use crate::plugin::{
    run_view, utf8_error, utf8_error_text, CommandLine, CommandRunner, CommandView, OutputView,
    ProcessOutput,
};
use crate::software::optional_bytes;
use crate::text::{ascii, bytes_of, contains, contains_text, views};
use vstd::prelude::*;
use vstd::slice::*;
use vstd::string::*;
use vstd::utf8::valid_utf8;

verus! {

/// The extension that `std::path::Path` finds in a path.
pub uninterp spec fn extension_named(path: Seq<char>) -> Option<Seq<char>>;

/// Calls `std::path::Path::extension`. The contract names the extension
/// that it finds: the same path always has the same extension.
#[verifier::external_body]
fn path_extension(path: &str) -> (extension: Option<String>)
    ensures
        extension is Some == extension_named(path@) is Some,
        extension matches Some(e) ==> extension_named(path@) == Some(e@),
{
    std::path::Path::new(path).extension().and_then(|e| e.to_str()).map(String::from)
}

/// Whether an extension is the one of a package file.
pub fn is_package_extension(extension: &Option<String>) -> (package: bool)
    ensures
        package == (*extension matches Some(e) && e@ == "deb"@),
{
    match extension {
        Some(e) => {
            let deb = String::from_str("deb");
            *e == deb
        },
        None => false,
    }
}

/// Whether a file has the extension of a package file.
pub fn module_has_extension(file_path: &String) -> (package: bool)
    ensures
        package == (extension_named(file_path@) == Some("deb"@)),
{
    let extension = path_extension(file_path.as_str());
    is_package_extension(&extension)
}

/// Why the plugin could not do its work.
#[derive(Debug)]
pub enum InternalError {
    /// The program `cmd` could not be run.
    ExecError { cmd: Vec<u8>, from: Vec<u8> },
}

impl InternalError {
    /// The error of the program `cmd` that could not be run for the reason `from`.
    pub fn exec_error(cmd: &[u8], from: &[u8]) -> (error: InternalError)
        ensures
            error matches InternalError::ExecError { cmd: c, from: f } && c@ == cmd@ && f@
                == from@,
    {
        InternalError::ExecError { cmd: slice_to_vec(cmd), from: slice_to_vec(from) }
    }

    /// The sentence that reports the error to a human reader.
    pub fn to_text(&self) -> (text: Vec<u8>)
        ensures
            self matches InternalError::ExecError { cmd, from } && text@ == ascii("Fail to run `"@)
                + cmd@ + ascii("`: "@) + from@,
    {
        proof {
            reveal_strlit("Fail to run `");
            reveal_strlit("`: ");
        }
        match self {
            InternalError::ExecError { cmd, from } => {
                let mut text = bytes_of("Fail to run `");
                text.extend_from_slice(cmd.as_slice());
                crate::text::push_ascii(&mut text, "`: ");
                text.extend_from_slice(from.as_slice());
                text
            },
        }
    }
}

/// What the package tool says of a package file.
#[derive(Debug)]
pub struct PackageMetadata {
    pub metadata: Option<Vec<u8>>,
}

/// The command that asks the package tool about a file: `dpkg -I <file>`.
pub open spec fn metadata_command(file_path: Seq<u8>) -> CommandView {
    CommandView {
        program: ascii("dpkg"@),
        args: seq![ascii("-I"@), file_path],
        current_dir: None,
    }
}

/// The model of what asking the package tool gave: the text, or the program
/// that could not be run and the reason.
pub open spec fn metadata_view(outcome: Result<PackageMetadata, InternalError>) -> Result<
    Option<Seq<u8>>,
    (Seq<u8>, Seq<u8>),
> {
    match outcome {
        Ok(metadata) => Ok(optional_bytes(metadata.metadata)),
        Err(InternalError::ExecError { cmd, from }) => Err((cmd@, from@)),
    }
}

/// What a run of the package tool means: the text that the tool wrote,
/// which has to be UTF-8. A tool that cannot be run, or that wrote
/// something else, gives an error of the tool with the reason.
pub open spec fn metadata_of(run: Result<OutputView, Seq<u8>>) -> Result<
    Option<Seq<u8>>,
    (Seq<u8>, Seq<u8>),
> {
    match run {
        Err(reason) => Err((ascii("dpkg"@), reason)),
        Ok(output) => if valid_utf8(output.stdout) {
            Ok(Some(output.stdout))
        } else {
            Err((ascii("dpkg"@), utf8_error_text(output.stdout)))
        },
    }
}

/// `outcome` is what some run of the package tool means.
pub open spec fn tool_asked(outcome: Result<Option<Seq<u8>>, (Seq<u8>, Seq<u8>)>) -> bool {
    exists|run: Result<OutputView, Seq<u8>>| outcome == #[trigger] metadata_of(run)
}

impl PackageMetadata {
    pub fn new() -> (metadata: PackageMetadata)
        ensures
            metadata.metadata is None,
    {
        PackageMetadata { metadata: None }
    }

    /// The command that asks the package tool about a file.
    pub fn command(file_path: &[u8]) -> (command: CommandLine)
        ensures
            command@ == metadata_command(file_path@),
    {
        proof {
            reveal_strlit("dpkg");
            reveal_strlit("-I");
        }
        let mut args: Vec<Vec<u8>> = Vec::new();
        args.push(bytes_of("-I"));
        args.push(slice_to_vec(file_path));
        assert(views(args@) =~= seq![ascii("-I"@), file_path@]);
        CommandLine { program: bytes_of("dpkg"), args, current_dir: None }
    }

    /// Takes what the package tool wrote, which has to be UTF-8.
    pub fn with_output(self, stdout: Vec<u8>) -> (metadata: Result<PackageMetadata, Vec<u8>>)
        ensures
            match metadata {
                Ok(m) => valid_utf8(stdout@) && (m.metadata matches Some(text) && text@
                    == stdout@),
                Err(reason) => !valid_utf8(stdout@) && reason@ == utf8_error_text(stdout@),
            },
    {
        match utf8_error(stdout.as_slice()) {
            None => Ok(PackageMetadata { metadata: Some(stdout) }),
            Some(reason) => Err(reason),
        }
    }

    /// What a run of the package tool means.
    pub fn from_run(self, run: Result<ProcessOutput, Vec<u8>>) -> (metadata: Result<
        PackageMetadata,
        InternalError,
    >)
        ensures
            metadata_view(metadata) == metadata_of(run_view(run)),
    {
        proof {
            reveal_strlit("dpkg");
        }
        match run {
            Ok(output) => match self.with_output(output.stdout) {
                Ok(metadata) => Ok(metadata),
                Err(reason) => Err(
                    InternalError::exec_error(bytes_of("dpkg").as_slice(), reason.as_slice()),
                ),
            },
            Err(reason) => Err(
                InternalError::exec_error(bytes_of("dpkg").as_slice(), reason.as_slice()),
            ),
        }
    }

    /// Asks the package tool about a file: the metadata is what some run of
    /// the tool means.
    pub fn try_new<R: CommandRunner>(self, file_path: &[u8], runner: &R) -> (metadata: Result<
        PackageMetadata,
        InternalError,
    >)
        ensures
            tool_asked(metadata_view(metadata)),
    {
        let command = PackageMetadata::command(file_path);
        let run = runner.run(&command);
        let ghost seen = run_view(run);
        let metadata = self.from_run(run);
        assert(metadata_view(metadata) == metadata_of(seen));
        metadata
    }

    /// Whether the package tool wrote `pattern` somewhere.
    pub fn metadata_contains(&self, pattern: &[u8]) -> (found: bool)
        ensures
            found == (self.metadata matches Some(text) && contains_text(text@, pattern@)),
    {
        match &self.metadata {
            Some(text) => contains(text.as_slice(), pattern),
            None => false,
        }
    }
}

} // verus!
