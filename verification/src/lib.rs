//! Verified core of an edge-device agent that bridges a local telemetry bus
//! to a cloud device-management platform.
//!
//! Devices publish measurements, alarms and events on the local bus as JSON.
//! The cloud speaks SmartREST, a line-oriented protocol, and its own JSON for
//! measurements. The cloud also asks for operations, which are carried out
//! on the device and answered.
//!
//! - [`text`], [`json`], [`bus`]: byte strings, JSON documents, and the
//!   messages and topics of the bus.
//! - [`smartrest`], [`measurement`], [`message`], [`cloud_request`]: the wire
//!   formats, written and read.
//! - [`operations`]: the registry of the operations that the device supports.
//! - [`alarm_converter`]: the reconciliation of the alarms across restarts.
//! - [`converter`], [`cumulocity`]: what each message of the bus is answered
//!   with.
//! - [`mapper`]: the phases of a run, and the health checks.
//! - [`software`], [`plugin`], [`plugin_manager`], [`agent`]: the software
//!   agent and its plugins.
//! - [`apt_plugin`], [`module_check`]: the plugin for packages.
//! - [`certificate`]: the commands for the device certificate.
//! - [`round_trip`]: what is written of a message is read back as the same
//!   message.
//!
//! Whatever needs the outside world is handed in: the bytes of a file, the
//! answer of the cloud's HTTP interface, the output of a program.

pub mod agent;
pub mod alarm_converter;
pub mod apt_plugin;
pub mod bus;
pub mod certificate;
pub mod cloud_request;
pub mod converter;
pub mod cumulocity;
pub mod error;
pub mod json;
pub mod mapper;
pub mod measurement;
pub mod message;
pub mod module_check;
pub mod operations;
pub mod plugin;
pub mod plugin_manager;
pub mod round_trip;
pub mod size_threshold;
pub mod smartrest;
pub mod software;
pub mod text;
