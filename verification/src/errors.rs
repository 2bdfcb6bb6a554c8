//! The error taxonomy shared by construction, validation and execution.

use vstd::prelude::*;

verus! {

/// Everything that can go wrong in this crate or in the layers around it.
/// Each variant carries the human-readable detail of the failure.
#[derive(Debug, Clone, PartialEq, Eq)]
pub enum CrewAIError {
    /// A file could not be read.
    IOError(String),
    /// A configuration document could not be parsed.
    YamlError(String),
    /// A required string of an entity was empty.
    MissingField(String),
    /// A crew is structurally invalid, or was run through the wrong entry point.
    InvalidConfig(String),
    /// One or more tasks failed.
    ExecutionError(String),
    /// The cooperative scheduler itself failed.
    AsyncRuntimeError(String),
    /// A concurrent activity aborted unexpectedly.
    TaskPanic(String),
}

/// Mathematical model of a [`CrewAIError`]: the variant and its detail as a
/// sequence of characters.
pub enum ErrorView {
    IOError(Seq<char>),
    YamlError(Seq<char>),
    MissingField(Seq<char>),
    InvalidConfig(Seq<char>),
    ExecutionError(Seq<char>),
    AsyncRuntimeError(Seq<char>),
    TaskPanic(Seq<char>),
}

impl View for CrewAIError {
    type V = ErrorView;

    open spec fn view(&self) -> ErrorView {
        match *self {
            CrewAIError::IOError(s) => ErrorView::IOError(s@),
            CrewAIError::YamlError(s) => ErrorView::YamlError(s@),
            CrewAIError::MissingField(s) => ErrorView::MissingField(s@),
            CrewAIError::InvalidConfig(s) => ErrorView::InvalidConfig(s@),
            CrewAIError::ExecutionError(s) => ErrorView::ExecutionError(s@),
            CrewAIError::AsyncRuntimeError(s) => ErrorView::AsyncRuntimeError(s@),
            CrewAIError::TaskPanic(s) => ErrorView::TaskPanic(s@),
        }
    }
}

/// The family of host-language exception that an error is surfaced as when
/// the crate is driven from a scripting host.
#[derive(Debug, Clone, Copy, PartialEq, Eq)]
pub enum ExceptionKind {
    /// An input/output failure.
    Io,
    /// A bad value supplied by the caller.
    Value,
    /// A failure while running.
    Runtime,
}

impl ErrorView {
    /// The detail carried by the error, whatever its variant.
    pub open spec fn detail(self) -> Seq<char> {
        match self {
            ErrorView::IOError(s) => s,
            ErrorView::YamlError(s) => s,
            ErrorView::MissingField(s) => s,
            ErrorView::InvalidConfig(s) => s,
            ErrorView::ExecutionError(s) => s,
            ErrorView::AsyncRuntimeError(s) => s,
            ErrorView::TaskPanic(s) => s,
        }
    }

    /// The label that precedes the detail in the rendered message.
    pub open spec fn label(self) -> Seq<char> {
        match self {
            ErrorView::IOError(_) => "IO error: "@,
            ErrorView::YamlError(_) => "YAML parsing error: "@,
            ErrorView::MissingField(_) => "Missing required field: "@,
            ErrorView::InvalidConfig(_) => "Invalid configuration: "@,
            ErrorView::ExecutionError(_) => "Execution error: "@,
            ErrorView::AsyncRuntimeError(_) => "Async runtime error: "@,
            ErrorView::TaskPanic(_) => "Task panic: "@,
        }
    }

    /// The rendered message: label followed by detail.
    pub open spec fn message(self) -> Seq<char> {
        self.label() + self.detail()
    }

    /// The family of exception that the error is surfaced as.
    pub open spec fn exception_kind(self) -> ExceptionKind {
        match self {
            ErrorView::IOError(_) => ExceptionKind::Io,
            ErrorView::YamlError(_) => ExceptionKind::Value,
            ErrorView::MissingField(_) => ExceptionKind::Value,
            ErrorView::InvalidConfig(_) => ExceptionKind::Value,
            ErrorView::ExecutionError(_) => ExceptionKind::Runtime,
            ErrorView::AsyncRuntimeError(_) => ExceptionKind::Runtime,
            ErrorView::TaskPanic(_) => ExceptionKind::Runtime,
        }
    }

    /// The label that precedes the detail in the exception text. It is the
    /// label of the rendered message, except that a missing field is
    /// announced more briefly.
    pub open spec fn exception_label(self) -> Seq<char> {
        match self {
            ErrorView::MissingField(_) => "Missing field: "@,
            _ => self.label(),
        }
    }

    /// The text of the exception: label followed by detail.
    pub open spec fn exception_message(self) -> Seq<char> {
        self.exception_label() + self.detail()
    }
}

impl CrewAIError {
    /// The detail carried by the error, whatever its variant.
    pub fn detail(&self) -> (detail: &String)
        ensures
            detail@ == self@.detail(),
    {
        match self {
            CrewAIError::IOError(detail) => detail,
            CrewAIError::YamlError(detail) => detail,
            CrewAIError::MissingField(detail) => detail,
            CrewAIError::InvalidConfig(detail) => detail,
            CrewAIError::ExecutionError(detail) => detail,
            CrewAIError::AsyncRuntimeError(detail) => detail,
            CrewAIError::TaskPanic(detail) => detail,
        }
    }

    fn label(&self) -> (label: &'static str)
        ensures
            label@ == self@.label(),
    {
        match self {
            CrewAIError::IOError(_) => "IO error: ",
            CrewAIError::YamlError(_) => "YAML parsing error: ",
            CrewAIError::MissingField(_) => "Missing required field: ",
            CrewAIError::InvalidConfig(_) => "Invalid configuration: ",
            CrewAIError::ExecutionError(_) => "Execution error: ",
            CrewAIError::AsyncRuntimeError(_) => "Async runtime error: ",
            CrewAIError::TaskPanic(_) => "Task panic: ",
        }
    }

    /// Renders the error as a single line of text.
    pub fn message(&self) -> (text: String)
        ensures
            text@ == self@.message(),
    {
        let mut text = String::from_str(self.label());
        text.append(self.detail().as_str());
        text
    }

    /// The family of exception that the error is surfaced as.
    pub fn exception_kind(&self) -> (kind: ExceptionKind)
        ensures
            kind == self@.exception_kind(),
    {
        match self {
            CrewAIError::IOError(_) => ExceptionKind::Io,
            CrewAIError::YamlError(_) => ExceptionKind::Value,
            CrewAIError::MissingField(_) => ExceptionKind::Value,
            CrewAIError::InvalidConfig(_) => ExceptionKind::Value,
            CrewAIError::ExecutionError(_) => ExceptionKind::Runtime,
            CrewAIError::AsyncRuntimeError(_) => ExceptionKind::Runtime,
            CrewAIError::TaskPanic(_) => ExceptionKind::Runtime,
        }
    }

    /// The text of the exception that the error is surfaced as.
    pub fn exception_message(&self) -> (text: String)
        ensures
            text@ == self@.exception_message(),
    {
        match self {
            CrewAIError::MissingField(detail) => {
                let mut text = String::from_str("Missing field: ");
                text.append(detail.as_str());
                text
            },
            _ => self.message(),
        }
    }
}

} // verus!
