//! Diagnostics reported by the resolver and the SQL stage.
use vstd::prelude::*;
use crate::ast::Span;

verus! {

/// What went wrong.
#[derive(Debug)]
pub enum Reason {
    Simple(String),
    Expected { who: Option<String>, expected: String, found: String },
}

/// A diagnostic: its reason, where it happened, and an optional hint.
#[derive(Debug)]
pub struct Error {
    pub reason: Reason,
    pub span: Option<Span>,
    pub help: Option<String>,
}

impl Error {
    pub fn new(reason: Reason) -> (r: Error)
        ensures
            r == (Error { reason, span: None, help: None }),
    {
        Error { reason, span: None, help: None }
    }

    pub fn simple(message: &str) -> (r: Error)
        ensures
            r.reason is Simple,
            r.reason->Simple_0@ == message@,
            r.span is None,
            r.help is None,
    {
        Error { reason: Reason::Simple(message.to_owned()), span: None, help: None }
    }

    /// Attaches a location, unless a more precise one is already attached.
    pub fn with_span(self, span: Option<Span>) -> (r: Error)
        ensures
            r.reason == self.reason,
            r.help == self.help,
            r.span == (if self.span is Some { self.span } else { span }),
    {
        if self.span.is_some() {
            self
        } else {
            Error { span, ..self }
        }
    }

    pub fn with_help(self, help: String) -> (r: Error)
        ensures
            r.reason == self.reason,
            r.span == self.span,
            r.help == Some(help),
    {
        Error { help: Some(help), ..self }
    }
}

} // verus!
