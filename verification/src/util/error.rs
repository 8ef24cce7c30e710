//! Error values of the tool layer and of a session run.

use vstd::prelude::*;
use crate::util::text::{from_chars, push_text};

verus! {

/// A failure reported by a tool or by configuration handling. Each variant
/// carries the text of its cause.
#[derive(Debug, PartialEq, Eq)]
pub enum OpenCodeError {
    Io(String),
    Json(String),
    Config(String),
    WalkDir(String),
    Reqwest(String),
}

impl OpenCodeError {
    /// The heading that introduces the cause in the rendered message.
    pub open spec fn heading(self) -> Seq<char> {
        match self {
            OpenCodeError::Io(_) => "I/O error: "@,
            OpenCodeError::Json(_) => "JSON serialization error: "@,
            OpenCodeError::Config(_) => "Configuration error: "@,
            OpenCodeError::WalkDir(_) => "WalkDir error: "@,
            OpenCodeError::Reqwest(_) => "Reqwest error: "@,
        }
    }

    /// The text of the cause.
    pub open spec fn cause(self) -> Seq<char> {
        match self {
            OpenCodeError::Io(m) => m@,
            OpenCodeError::Json(m) => m@,
            OpenCodeError::Config(m) => m@,
            OpenCodeError::WalkDir(m) => m@,
            OpenCodeError::Reqwest(m) => m@,
        }
    }

    /// The message shown to a user: the heading followed by the cause.
    pub fn to_string(&self) -> (r: String)
        ensures
            r@ == self.heading() + self.cause(),
    {
        let mut out: Vec<char> = Vec::new();
        match self {
            OpenCodeError::Io(m) => {
                push_text(&mut out, "I/O error: ");
                push_text(&mut out, m.as_str());
            },
            OpenCodeError::Json(m) => {
                push_text(&mut out, "JSON serialization error: ");
                push_text(&mut out, m.as_str());
            },
            OpenCodeError::Config(m) => {
                push_text(&mut out, "Configuration error: ");
                push_text(&mut out, m.as_str());
            },
            OpenCodeError::WalkDir(m) => {
                push_text(&mut out, "WalkDir error: ");
                push_text(&mut out, m.as_str());
            },
            OpenCodeError::Reqwest(m) => {
                push_text(&mut out, "Reqwest error: ");
                push_text(&mut out, m.as_str());
            },
        }
        assert(out@ =~= self.heading() + self.cause());
        from_chars(out.as_slice())
    }
}


/// Why a session run, or the reading of its overrides, failed.
#[derive(Debug, PartialEq, Eq)]
pub enum SessionError {
    /// The named role is not in the registry.
    UnknownAgent(String),
    /// A role did not finish within its wall-clock budget.
    Timeout,
    /// The language model failed; the text is its cause.
    Backend(String),
    /// The override document is malformed; the text says how.
    Parse(String),
    /// An override file could not be read; the text is the cause.
    Io(String),
}

/// The model of a `SessionError`.
pub enum SessionErrorView {
    UnknownAgent(Seq<char>),
    Timeout,
    Backend(Seq<char>),
    Parse(Seq<char>),
    Io(Seq<char>),
}

impl View for SessionError {
    type V = SessionErrorView;

    open spec fn view(&self) -> SessionErrorView {
        match self {
            SessionError::UnknownAgent(name) => SessionErrorView::UnknownAgent(name@),
            SessionError::Timeout => SessionErrorView::Timeout,
            SessionError::Backend(cause) => SessionErrorView::Backend(cause@),
            SessionError::Parse(cause) => SessionErrorView::Parse(cause@),
            SessionError::Io(cause) => SessionErrorView::Io(cause@),
        }
    }
}

impl SessionError {
    /// The message shown to a user.
    pub open spec fn message(self) -> Seq<char> {
        match self {
            SessionError::UnknownAgent(name) => "unknown agent '"@ + name@ + "'"@,
            SessionError::Timeout => "deadline has elapsed"@,
            SessionError::Backend(cause) => cause@,
            SessionError::Parse(cause) => cause@,
            SessionError::Io(cause) => cause@,
        }
    }

    /// The message shown to a user.
    pub fn to_string(&self) -> (r: String)
        ensures
            r@ == self.message(),
    {
        let mut out: Vec<char> = Vec::new();
        match self {
            SessionError::UnknownAgent(name) => {
                push_text(&mut out, "unknown agent '");
                push_text(&mut out, name.as_str());
                push_text(&mut out, "'");
            },
            SessionError::Timeout => {
                push_text(&mut out, "deadline has elapsed");
            },
            SessionError::Backend(cause) => {
                push_text(&mut out, cause.as_str());
            },
            SessionError::Parse(cause) => {
                push_text(&mut out, cause.as_str());
            },
            SessionError::Io(cause) => {
                push_text(&mut out, cause.as_str());
            },
        }
        assert(out@ =~= self.message());
        from_chars(out.as_slice())
    }
}

} // verus!
