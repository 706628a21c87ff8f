//! What can go wrong while one message is converted.

use crate::bus::{errors, errors_topic, plain, Message, MessageView};
use crate::text::{ascii, bytes_of, decimal, push_decimal};
use vstd::prelude::*;
use vstd::string::*;

verus! {

/// Why a message cannot be converted.
#[derive(Debug)]
pub enum ConversionError {
    /// The payload is longer than the configured threshold.
    SizeExceeded { actual: usize, threshold: usize },
    /// A payload on a local topic is not the JSON that the topic asks for.
    InvalidLocalJson { reason: Vec<u8> },
    /// A SmartREST record of the cloud has ill-formed parameters.
    InvalidSmartRest { operation: Vec<u8>, reason: Vec<u8> },
    /// No conversion is defined for the topic.
    UnsupportedTopic { topic: Vec<u8> },
    /// An alarm topic names a severity that is not known.
    UnsupportedAlarmSeverity { severity: Vec<u8> },
    /// A measurement topic names an empty child id.
    InvalidChildId { id: Vec<u8> },
    /// The cloud asks for an operation that no definition declares.
    UnknownOperation { operation: Vec<u8> },
    /// The cloud's HTTP interface failed.
    Http { reason: Vec<u8> },
    /// The command of an operation could not be started.
    Spawn { operation: Vec<u8>, reason: Vec<u8> },
}

pub enum ErrorView {
    SizeExceeded { actual: usize, threshold: usize },
    InvalidLocalJson { reason: Seq<u8> },
    InvalidSmartRest { operation: Seq<u8>, reason: Seq<u8> },
    UnsupportedTopic { topic: Seq<u8> },
    UnsupportedAlarmSeverity { severity: Seq<u8> },
    InvalidChildId { id: Seq<u8> },
    UnknownOperation { operation: Seq<u8> },
    Http { reason: Seq<u8> },
    Spawn { operation: Seq<u8>, reason: Seq<u8> },
}

impl View for ConversionError {
    type V = ErrorView;

    open spec fn view(&self) -> ErrorView {
        match self {
            ConversionError::SizeExceeded { actual, threshold } => ErrorView::SizeExceeded {
                actual: *actual,
                threshold: *threshold,
            },
            ConversionError::InvalidLocalJson { reason } => ErrorView::InvalidLocalJson {
                reason: reason@,
            },
            ConversionError::InvalidSmartRest { operation, reason } => ErrorView::InvalidSmartRest {
                operation: operation@,
                reason: reason@,
            },
            ConversionError::UnsupportedTopic { topic } => ErrorView::UnsupportedTopic {
                topic: topic@,
            },
            ConversionError::UnsupportedAlarmSeverity {
                severity,
            } => ErrorView::UnsupportedAlarmSeverity { severity: severity@ },
            ConversionError::InvalidChildId { id } => ErrorView::InvalidChildId { id: id@ },
            ConversionError::UnknownOperation { operation } => ErrorView::UnknownOperation {
                operation: operation@,
            },
            ConversionError::Http { reason } => ErrorView::Http { reason: reason@ },
            ConversionError::Spawn { operation, reason } => ErrorView::Spawn {
                operation: operation@,
                reason: reason@,
            },
        }
    }
}

/// The sentence that reports an error to a human reader.
pub open spec fn error_text(error: ErrorView) -> Seq<u8> {
    match error {
        ErrorView::SizeExceeded { actual, threshold } => ascii("The input size "@) + decimal(
            actual as nat,
        ) + ascii(" is too big. The threshold is "@) + decimal(threshold as nat) + ascii("."@),
        ErrorView::InvalidLocalJson { reason } => ascii("Invalid JSON: "@) + reason,
        ErrorView::InvalidSmartRest { operation, reason } => ascii("Invalid SmartREST for "@)
            + operation + ascii(": "@) + reason,
        ErrorView::UnsupportedTopic { topic } => ascii("Unsupported topic: "@) + topic,
        ErrorView::UnsupportedAlarmSeverity { severity } => ascii("Unsupported alarm severity: "@)
            + severity,
        ErrorView::InvalidChildId { id } => ascii("Invalid child id: "@) + id,
        ErrorView::UnknownOperation { operation } => ascii("Unknown operation: "@) + operation,
        ErrorView::Http { reason } => ascii("HTTP error: "@) + reason,
        ErrorView::Spawn { operation, reason } => ascii("Failed to start "@) + operation + ascii(
            ": "@,
        ) + reason,
    }
}

/// The message on the errors topic that reports `error`.
pub open spec fn error_message(error: ErrorView) -> MessageView {
    plain(errors(), error_text(error))
}

impl ConversionError {
    /// The sentence that reports the error to a human reader.
    pub fn to_text(&self) -> (text: Vec<u8>)
        ensures
            text@ == error_text(self@),
    {
        match self {
            ConversionError::SizeExceeded { actual, threshold } => {
                proof {
                    reveal_strlit("The input size ");
                    reveal_strlit(" is too big. The threshold is ");
                    reveal_strlit(".");
                }
                let mut text = bytes_of("The input size ");
                push_decimal(&mut text, *actual as u64);
                let middle = bytes_of(" is too big. The threshold is ");
                text.extend_from_slice(middle.as_slice());
                push_decimal(&mut text, *threshold as u64);
                let end = bytes_of(".");
                text.extend_from_slice(end.as_slice());
                text
            },
            ConversionError::InvalidLocalJson { reason } => {
                proof {
                    reveal_strlit("Invalid JSON: ");
                }
                let mut text = bytes_of("Invalid JSON: ");
                text.extend_from_slice(reason.as_slice());
                text
            },
            ConversionError::InvalidSmartRest { operation, reason } => {
                proof {
                    reveal_strlit("Invalid SmartREST for ");
                    reveal_strlit(": ");
                }
                let mut text = bytes_of("Invalid SmartREST for ");
                text.extend_from_slice(operation.as_slice());
                let middle = bytes_of(": ");
                text.extend_from_slice(middle.as_slice());
                text.extend_from_slice(reason.as_slice());
                text
            },
            ConversionError::UnsupportedTopic { topic } => {
                proof {
                    reveal_strlit("Unsupported topic: ");
                }
                let mut text = bytes_of("Unsupported topic: ");
                text.extend_from_slice(topic.as_slice());
                text
            },
            ConversionError::UnsupportedAlarmSeverity { severity } => {
                proof {
                    reveal_strlit("Unsupported alarm severity: ");
                }
                let mut text = bytes_of("Unsupported alarm severity: ");
                text.extend_from_slice(severity.as_slice());
                text
            },
            ConversionError::InvalidChildId { id } => {
                proof {
                    reveal_strlit("Invalid child id: ");
                }
                let mut text = bytes_of("Invalid child id: ");
                text.extend_from_slice(id.as_slice());
                text
            },
            ConversionError::UnknownOperation { operation } => {
                proof {
                    reveal_strlit("Unknown operation: ");
                }
                let mut text = bytes_of("Unknown operation: ");
                text.extend_from_slice(operation.as_slice());
                text
            },
            ConversionError::Http { reason } => {
                proof {
                    reveal_strlit("HTTP error: ");
                }
                let mut text = bytes_of("HTTP error: ");
                text.extend_from_slice(reason.as_slice());
                text
            },
            ConversionError::Spawn { operation, reason } => {
                proof {
                    reveal_strlit("Failed to start ");
                    reveal_strlit(": ");
                }
                let mut text = bytes_of("Failed to start ");
                text.extend_from_slice(operation.as_slice());
                let middle = bytes_of(": ");
                text.extend_from_slice(middle.as_slice());
                text.extend_from_slice(reason.as_slice());
                text
            },
        }
    }

    /// The message on the errors topic that reports the error.
    pub fn to_message(&self) -> (message: Message)
        ensures
            message@ == error_message(self@),
    {
        let topic = errors_topic();
        Message::new(topic.as_slice(), self.to_text())
    }
}

/// What a conversion gives: the messages to publish, or the error.
pub open spec fn outcome_view(outcome: Result<Vec<Message>, ConversionError>) -> Result<
    Seq<MessageView>,
    ErrorView,
> {
    match outcome {
        Ok(messages) => Ok(crate::bus::message_views(messages@)),
        Err(error) => Err(error@),
    }
}

} // verus!
