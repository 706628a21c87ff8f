//! Software modules and what can go wrong with them.

use crate::text::{ascii, bytes_of};
use vstd::prelude::*;
use vstd::slice::*;
use vstd::string::*;

verus! {

/// The name of a software type, which is the name of its plugin.
pub type SoftwareType = Vec<u8>;

/// The name of a software module.
pub type SoftwareName = Vec<u8>;

/// The version of a software module.
pub type SoftwareVersion = Vec<u8>;

/// What an update asks for a module.
#[derive(Clone, Copy, Debug, PartialEq, Eq, Structural)]
pub enum SoftwareModuleAction {
    Install,
    Remove,
}

/// A software module: its type names the plugin that manages it.
#[derive(Debug)]
pub struct SoftwareModule {
    pub software_type: SoftwareType,
    pub name: SoftwareName,
    pub version: Option<SoftwareVersion>,
    pub url: Option<Vec<u8>>,
}

pub struct ModuleView {
    pub software_type: Seq<u8>,
    pub name: Seq<u8>,
    pub version: Option<Seq<u8>>,
    pub url: Option<Seq<u8>>,
}

/// The bytes that an optional buffer holds.
pub open spec fn optional_bytes(bytes: Option<Vec<u8>>) -> Option<Seq<u8>> {
    match bytes {
        Some(b) => Some(b@),
        None => None,
    }
}

/// A copy of an optional buffer.
pub fn copy_optional(bytes: &Option<Vec<u8>>) -> (copy: Option<Vec<u8>>)
    ensures
        optional_bytes(copy) == optional_bytes(*bytes),
{
    match bytes {
        Some(b) => Some(slice_to_vec(b.as_slice())),
        None => None,
    }
}

impl View for SoftwareModule {
    type V = ModuleView;

    open spec fn view(&self) -> ModuleView {
        ModuleView {
            software_type: self.software_type@,
            name: self.name@,
            version: optional_bytes(self.version),
            url: optional_bytes(self.url),
        }
    }
}

impl SoftwareModule {
    pub fn duplicate(&self) -> (copy: SoftwareModule)
        ensures
            copy@ == self@,
    {
        SoftwareModule {
            software_type: slice_to_vec(self.software_type.as_slice()),
            name: slice_to_vec(self.name.as_slice()),
            version: copy_optional(&self.version),
            url: copy_optional(&self.url),
        }
    }
}

/// One step of an update: a module to install or to remove.
#[derive(Debug)]
pub enum SoftwareModuleUpdate {
    Install { module: SoftwareModule },
    Remove { module: SoftwareModule },
}

pub enum UpdateView {
    Install { module: ModuleView },
    Remove { module: ModuleView },
}

impl View for SoftwareModuleUpdate {
    type V = UpdateView;

    open spec fn view(&self) -> UpdateView {
        match self {
            SoftwareModuleUpdate::Install { module } => UpdateView::Install { module: module@ },
            SoftwareModuleUpdate::Remove { module } => UpdateView::Remove { module: module@ },
        }
    }
}

impl SoftwareModuleUpdate {
    pub fn duplicate(&self) -> (copy: SoftwareModuleUpdate)
        ensures
            copy@ == self@,
    {
        match self {
            SoftwareModuleUpdate::Install { module } => SoftwareModuleUpdate::Install {
                module: module.duplicate(),
            },
            SoftwareModuleUpdate::Remove { module } => SoftwareModuleUpdate::Remove {
                module: module.duplicate(),
            },
        }
    }
}

/// What went wrong with a software operation.
#[derive(Debug)]
pub enum SoftwareError {
    /// A plugin failed; the reason is what it said.
    Plugin { software_type: SoftwareType, reason: Vec<u8> },
    Prepare { reason: Vec<u8> },
    Install { module: SoftwareModule, reason: Vec<u8> },
    Uninstall { module: SoftwareModule, reason: Vec<u8> },
    Finalize { reason: Vec<u8> },
    /// No plugin manages the type.
    UnknownSoftwareType { software_type: SoftwareType },
    /// A plugin was given a module of another type.
    WrongModuleType { actual_type: SoftwareType, expected_type: SoftwareType },
    /// A message is not what its topic asks for.
    ParseError { reason: Vec<u8> },
}

pub enum SoftwareErrorView {
    Plugin { software_type: Seq<u8>, reason: Seq<u8> },
    Prepare { reason: Seq<u8> },
    Install { module: ModuleView, reason: Seq<u8> },
    Uninstall { module: ModuleView, reason: Seq<u8> },
    Finalize { reason: Seq<u8> },
    UnknownSoftwareType { software_type: Seq<u8> },
    WrongModuleType { actual_type: Seq<u8>, expected_type: Seq<u8> },
    ParseError { reason: Seq<u8> },
}

impl View for SoftwareError {
    type V = SoftwareErrorView;

    open spec fn view(&self) -> SoftwareErrorView {
        match self {
            SoftwareError::Plugin { software_type, reason } => SoftwareErrorView::Plugin {
                software_type: software_type@,
                reason: reason@,
            },
            SoftwareError::Prepare { reason } => SoftwareErrorView::Prepare { reason: reason@ },
            SoftwareError::Install { module, reason } => SoftwareErrorView::Install {
                module: module@,
                reason: reason@,
            },
            SoftwareError::Uninstall { module, reason } => SoftwareErrorView::Uninstall {
                module: module@,
                reason: reason@,
            },
            SoftwareError::Finalize { reason } => SoftwareErrorView::Finalize { reason: reason@ },
            SoftwareError::UnknownSoftwareType {
                software_type,
            } => SoftwareErrorView::UnknownSoftwareType { software_type: software_type@ },
            SoftwareError::WrongModuleType {
                actual_type,
                expected_type,
            } => SoftwareErrorView::WrongModuleType {
                actual_type: actual_type@,
                expected_type: expected_type@,
            },
            SoftwareError::ParseError { reason } => SoftwareErrorView::ParseError {
                reason: reason@,
            },
        }
    }
}

/// How far an update has come.
#[derive(Debug)]
pub enum UpdateStatus {
    Scheduled,
    Success,
    Error { reason: SoftwareError },
    Cancelled,
}

/// A module update together with the error that it met, if any.
#[derive(Debug)]
pub struct SoftwareModuleUpdateResult {
    pub update: SoftwareModuleUpdate,
    pub error: Option<SoftwareError>,
}

/// The sentence that reports an error to a human reader.
pub open spec fn software_error_text(error: SoftwareErrorView) -> Seq<u8> {
    match error {
        SoftwareErrorView::Plugin { software_type, reason } => ascii("Plugin error for "@)
            + software_type + ascii(": "@) + reason,
        SoftwareErrorView::Prepare { reason } => ascii("Failed to prepare: "@) + reason,
        SoftwareErrorView::Install { module, reason } => ascii("Failed to install "@) + module.name
            + ascii(": "@) + reason,
        SoftwareErrorView::Uninstall { module, reason } => ascii("Failed to remove "@)
            + module.name + ascii(": "@) + reason,
        SoftwareErrorView::Finalize { reason } => ascii("Failed to finalize: "@) + reason,
        SoftwareErrorView::UnknownSoftwareType { software_type } => ascii(
            "Unknown software type: "@,
        ) + software_type,
        SoftwareErrorView::WrongModuleType { actual_type, expected_type } => ascii(
            "Unexpected module type: "@,
        ) + expected_type + ascii(": "@) + actual_type,
        SoftwareErrorView::ParseError { reason } => ascii("Failed to parse: "@) + reason,
    }
}

fn sentence(head: &str, first: &[u8], second: Option<&[u8]>) -> (text: Vec<u8>)
    requires
        is_ascii(head),
    ensures
        text@ == (match second {
            Some(s) => ascii(head@) + first@ + ascii(": "@) + s@,
            None => ascii(head@) + first@,
        }),
{
    proof {
        reveal_strlit(": ");
    }
    let mut text = bytes_of(head);
    text.extend_from_slice(first);
    match second {
        Some(s) => {
            crate::text::push_ascii(&mut text, ": ");
            text.extend_from_slice(s);
        },
        None => {},
    }
    text
}

impl SoftwareError {
    /// The sentence that reports the error to a human reader.
    pub fn to_text(&self) -> (text: Vec<u8>)
        ensures
            text@ == software_error_text(self@),
    {
        proof {
            reveal_strlit("Plugin error for ");
            reveal_strlit("Failed to prepare: ");
            reveal_strlit("Failed to install ");
            reveal_strlit("Failed to remove ");
            reveal_strlit("Failed to finalize: ");
            reveal_strlit("Unknown software type: ");
            reveal_strlit("Unexpected module type: ");
            reveal_strlit("Failed to parse: ");
        }
        match self {
            SoftwareError::Plugin { software_type, reason } => sentence(
                "Plugin error for ",
                software_type.as_slice(),
                Some(reason.as_slice()),
            ),
            SoftwareError::Prepare { reason } => sentence(
                "Failed to prepare: ",
                reason.as_slice(),
                None,
            ),
            SoftwareError::Install { module, reason } => sentence(
                "Failed to install ",
                module.name.as_slice(),
                Some(reason.as_slice()),
            ),
            SoftwareError::Uninstall { module, reason } => sentence(
                "Failed to remove ",
                module.name.as_slice(),
                Some(reason.as_slice()),
            ),
            SoftwareError::Finalize { reason } => sentence(
                "Failed to finalize: ",
                reason.as_slice(),
                None,
            ),
            SoftwareError::UnknownSoftwareType { software_type } => sentence(
                "Unknown software type: ",
                software_type.as_slice(),
                None,
            ),
            SoftwareError::WrongModuleType { actual_type, expected_type } => sentence(
                "Unexpected module type: ",
                expected_type.as_slice(),
                Some(actual_type.as_slice()),
            ),
            SoftwareError::ParseError { reason } => sentence(
                "Failed to parse: ",
                reason.as_slice(),
                None,
            ),
        }
    }
}

} // verus!
