//! Errors of the query front end.
use vstd::prelude::*;

verus! {

/// An error of parsing, planning or executing a query.
#[derive(Debug)]
pub enum Error {
    /// A construct that the planner does not support yet.
    NotImplemented(String),
    /// Any other error, with its message.
    Other(String),
}

pub type Result<T> = core::result::Result<T, Error>;

/// The spec-level form of an error: which kind, and the message it carries.
pub enum ErrorView {
    NotImplemented(Seq<char>),
    Other(Seq<char>),
}

impl View for Error {
    type V = ErrorView;

    open spec fn view(&self) -> ErrorView {
        match self {
            Error::NotImplemented(m) => ErrorView::NotImplemented(m@),
            Error::Other(m) => ErrorView::Other(m@),
        }
    }
}

/// The text of an `Error::Other` whose message is `msg`.
pub open spec fn other(msg: Seq<char>) -> ErrorView {
    ErrorView::Other(msg)
}

/// The rendered text of an error.
pub open spec fn error_text(e: ErrorView) -> Seq<char> {
    match e {
        ErrorView::NotImplemented(m) => "not implemented: "@ + m,
        ErrorView::Other(m) => m,
    }
}

impl Error {
    /// `Error::Other` holding a copy of `msg`.
    pub fn other_from(msg: &str) -> (e: Error)
        ensures
            e@ == ErrorView::Other(msg@),
    {
        Error::Other(String::from_str(msg))
    }

    /// `Error::NotImplemented` holding a copy of `msg`.
    pub fn not_implemented(msg: &str) -> (e: Error)
        ensures
            e@ == ErrorView::NotImplemented(msg@),
    {
        Error::NotImplemented(String::from_str(msg))
    }

    /// The rendered text of this error.
    pub fn to_string(&self) -> (s: String)
        ensures
            s@ == error_text(self@),
    {
        match self {
            Error::NotImplemented(m) => {
                let mut s = String::from_str("not implemented: ");
                s.append(m.as_str());
                s
            },
            Error::Other(m) => m.clone(),
        }
    }
}

/// The message "syntax error: UndefinedVariable (<name>)".
pub open spec fn undefined_variable_msg(name: Seq<char>) -> Seq<char> {
    "syntax error: UndefinedVariable ("@ + name + ")"@
}

/// The message "syntax error: InvalidArgumentType".
pub open spec fn invalid_argument_type_msg() -> Seq<char> {
    "syntax error: InvalidArgumentType"@
}

/// `Error::Other("syntax error: UndefinedVariable (<name>)")`.
pub fn undefined_variable(name: &String) -> (e: Error)
    ensures
        e@ == ErrorView::Other(undefined_variable_msg(name@)),
{
    let mut s = String::from_str("syntax error: UndefinedVariable (");
    s.append(name.as_str());
    s.append(")");
    Error::Other(s)
}

/// `Error::Other("syntax error: InvalidArgumentType")`.
pub fn invalid_argument_type() -> (e: Error)
    ensures
        e@ == ErrorView::Other(invalid_argument_type_msg()),
{
    Error::Other(String::from_str("syntax error: InvalidArgumentType"))
}

} // verus!
