//! Exception values: the uniform way an operation reports that it could not
//! satisfy its contract.

use vstd::prelude::*;
use crate::pyobject::ObjRef;

verus! {

/// The closed taxonomy of failures the runtime can produce.
#[derive(Clone, Copy, PartialEq, Eq, Structural, Debug)]
pub enum ExceptionKind {
    /// Source text was rejected by the front end.
    CompileError,
    /// A name was not found through the attribute resolution order.
    AttributeError,
    /// Arity or type mismatch in a call or a construction.
    TypeError,
    /// A subscript that is out of range after normalization.
    IndexError,
    /// A feature that is deliberately not provided.
    UnsupportedOperation,
    /// A module that could not be found.
    ImportError,
}

/// An exception in flight: its kind, its message and, if another exception
/// led to it, the handle of that exception's object.
#[derive(Clone, PartialEq, Eq, Debug)]
pub struct Exception {
    pub kind: ExceptionKind,
    pub message: String,
    pub cause: Option<ObjRef>,
}

/// The mathematical content of an [`Exception`].
pub struct ExceptionView {
    pub kind: ExceptionKind,
    pub message: Seq<char>,
    pub cause: Option<ObjRef>,
}

impl View for Exception {
    type V = ExceptionView;

    open spec fn view(&self) -> ExceptionView {
        ExceptionView { kind: self.kind, message: self.message@, cause: self.cause }
    }
}

/// The exception of the given kind and message, raised on its own account.
pub open spec fn raised(kind: ExceptionKind, message: Seq<char>) -> ExceptionView {
    ExceptionView { kind, message, cause: None }
}

/// The name under which a kind of exception is reported.
pub open spec fn kind_name_text(kind: ExceptionKind) -> Seq<char> {
    match kind {
        ExceptionKind::CompileError => "CompileError"@,
        ExceptionKind::AttributeError => "AttributeError"@,
        ExceptionKind::TypeError => "TypeError"@,
        ExceptionKind::IndexError => "IndexError"@,
        ExceptionKind::UnsupportedOperation => "UnsupportedOperation"@,
        ExceptionKind::ImportError => "ImportError"@,
    }
}

/// The report of an exception: its kind and its message on one line.
pub open spec fn report_text(e: ExceptionView) -> Seq<char> {
    kind_name_text(e.kind) + ": "@ + e.message
}

/// The name under which a kind of exception is reported.
pub fn kind_name(kind: ExceptionKind) -> (name: &'static str)
    ensures
        name@ == kind_name_text(kind),
{
    match kind {
        ExceptionKind::CompileError => "CompileError",
        ExceptionKind::AttributeError => "AttributeError",
        ExceptionKind::TypeError => "TypeError",
        ExceptionKind::IndexError => "IndexError",
        ExceptionKind::UnsupportedOperation => "UnsupportedOperation",
        ExceptionKind::ImportError => "ImportError",
    }
}

impl Exception {
    /// An exception with no cause.
    pub fn new(kind: ExceptionKind, message: String) -> (e: Exception)
        ensures
            e@ == raised(kind, message@),
    {
        Exception { kind, message, cause: None }
    }

    /// An exception with no cause whose message is the given text.
    pub fn with_message(kind: ExceptionKind, message: &str) -> (e: Exception)
        ensures
            e@ == raised(kind, message@),
    {
        Exception { kind, message: String::from_str(message), cause: None }
    }

    /// The same exception, recorded as following from the exception object
    /// `cause`. An earlier cause is replaced.
    pub fn caused_by(self, cause: ObjRef) -> (e: Exception)
        ensures
            e@ == (ExceptionView { kind: self@.kind, message: self@.message, cause: Some(cause) }),
    {
        Exception { kind: self.kind, message: self.message, cause: Some(cause) }
    }

    /// The human-readable report of this exception.
    pub fn report(&self) -> (text: String)
        ensures
            text@ == report_text(self@),
    {
        let mut text = String::from_str(kind_name(self.kind));
        text.append(": ");
        text.append(self.message.as_str());
        text
    }
}

} // verus!
