//! Classification of error messages into the error codes and categories that the C, Node
//! and Python bindings report.
use crate::text::{contains, seq_contains, seq_starts_with, starts_with};
use vstd::prelude::*;

verus! {

/// What `str::to_lowercase` returns for a string: its Unicode lower-case mapping.
pub uninterp spec fn unicode_lowercase(s: Seq<char>) -> Seq<char>;

/// Calls `str::to_lowercase`; the result is the string's Unicode lower-case mapping, which
/// is named `unicode_lowercase` here and not spelled out.
#[verifier::external_body]
pub(crate) fn to_lowercase(s: &str) -> (r: String)
    ensures
        r@ == unicode_lowercase(s@),
{
    s.to_lowercase()
}

/// What `str::to_uppercase` returns for a string: its Unicode upper-case mapping.
pub uninterp spec fn unicode_uppercase(s: Seq<char>) -> Seq<char>;

/// Calls `str::to_uppercase`; the result is the string's Unicode upper-case mapping, which
/// is named `unicode_uppercase` here and not spelled out.
#[verifier::external_body]
pub(crate) fn to_uppercase(s: &str) -> (r: String)
    ensures
        r@ == unicode_uppercase(s@),
{
    s.to_uppercase()
}

pub const NDB_OK: i32 = 0;
pub const NDB_ERR_INVALID_ARGUMENT: i32 = 1;
pub const NDB_ERR_NULL_POINTER: i32 = 2;
pub const NDB_ERR_SYNTAX: i32 = 1001;
pub const NDB_ERR_EXECUTION: i32 = 1002;
pub const NDB_ERR_STORAGE: i32 = 1003;
pub const NDB_ERR_COMPATIBILITY: i32 = 1004;
pub const NDB_ERR_BUSY: i32 = 1005;
pub const NDB_ERR_UNSUPPORTED: i32 = 1006;
pub const NDB_ERR_INTERNAL: i32 = 1099;

pub const NDB_ERRCAT_NONE: i32 = 0;
pub const NDB_ERRCAT_SYNTAX: i32 = 1;
pub const NDB_ERRCAT_EXECUTION: i32 = 2;
pub const NDB_ERRCAT_STORAGE: i32 = 3;
pub const NDB_ERRCAT_COMPATIBILITY: i32 = 4;

/// The lower-cased message speaks of a syntax problem.
pub open spec fn mentions_syntax(lower: Seq<char>) -> bool {
    seq_contains(lower, "syntax"@) || seq_contains(lower, "parse"@) || seq_contains(lower, "unexpected token"@)
        || seq_contains(lower, "unexpected character"@) || seq_starts_with(lower, "expected "@)
        || seq_contains(lower, "variablealreadybound"@) || seq_contains(lower, "variabletypeconflict"@)
}

/// The lower-cased message speaks of an incompatible storage format.
pub open spec fn mentions_compatibility(lower: Seq<char>) -> bool {
    seq_contains(lower, "storage format mismatch"@) || seq_contains(lower, "compatibility"@)
}

/// The lower-cased message speaks of a storage or I/O problem.
pub open spec fn mentions_storage(lower: Seq<char>) -> bool {
    seq_contains(lower, "wal"@) || seq_contains(lower, "checkpoint"@) || seq_contains(lower, "io error"@)
        || seq_contains(lower, "permission denied"@) || seq_contains(lower, "disk full"@)
        || seq_contains(lower, "no such file"@) || seq_contains(lower, "database is closed"@)
}

fn lower_mentions_syntax(lower: &str) -> (r: bool)
    ensures
        r == mentions_syntax(lower@),
{
    contains(lower, "syntax") || contains(lower, "parse") || contains(lower, "unexpected token")
        || contains(lower, "unexpected character") || starts_with(lower, "expected ")
        || contains(lower, "variablealreadybound") || contains(lower, "variabletypeconflict")
}

fn lower_mentions_compatibility(lower: &str) -> (r: bool)
    ensures
        r == mentions_compatibility(lower@),
{
    contains(lower, "storage format mismatch") || contains(lower, "compatibility")
}

fn lower_mentions_storage(lower: &str) -> (r: bool)
    ensures
        r == mentions_storage(lower@),
{
    contains(lower, "wal") || contains(lower, "checkpoint") || contains(lower, "io error")
        || contains(lower, "permission denied") || contains(lower, "disk full")
        || contains(lower, "no such file") || contains(lower, "database is closed")
}

/// An error of the C API: code, category and message.
#[derive(Debug)]
pub struct ApiError {
    pub code: i32,
    pub category: i32,
    pub message: String,
}

/// The (code, category) that the C API gives a query error message: syntax first, then
/// compatibility, then storage, else execution.
pub open spec fn query_message_class(msg: Seq<char>) -> (i32, i32) {
    query_lower_class(unicode_lowercase(msg))
}

/// The (code, category) of `query_message_class`, given the lower-cased message.
pub open spec fn query_lower_class(lower: Seq<char>) -> (i32, i32) {
    if mentions_syntax(lower) {
        (NDB_ERR_SYNTAX, NDB_ERRCAT_SYNTAX)
    } else if mentions_compatibility(lower) {
        (NDB_ERR_COMPATIBILITY, NDB_ERRCAT_COMPATIBILITY)
    } else if mentions_storage(lower) {
        (NDB_ERR_STORAGE, NDB_ERRCAT_STORAGE)
    } else {
        (NDB_ERR_EXECUTION, NDB_ERRCAT_EXECUTION)
    }
}

impl ApiError {
    pub fn new(code: i32, category: i32, message: String) -> (e: ApiError)
        ensures
            e.code == code && e.category == category && e.message == message,
    {
        ApiError { code, category, message }
    }

    /// An invalid-argument error (category execution).
    pub fn invalid(message: String) -> (e: ApiError)
        ensures
            e.code == NDB_ERR_INVALID_ARGUMENT && e.category == NDB_ERRCAT_EXECUTION && e.message == message,
    {
        Self::new(NDB_ERR_INVALID_ARGUMENT, NDB_ERRCAT_EXECUTION, message)
    }

    /// "<name> is null" (code null pointer, category execution).
    pub fn null_pointer(name: &str) -> (e: ApiError)
        ensures
            e.code == NDB_ERR_NULL_POINTER && e.category == NDB_ERRCAT_EXECUTION
                && e.message@ == name@ + " is null"@,
    {
        let mut m = String::from_str(name);
        m.append(" is null");
        Self::new(NDB_ERR_NULL_POINTER, NDB_ERRCAT_EXECUTION, m)
    }

    pub fn syntax(message: String) -> (e: ApiError)
        ensures
            e.code == NDB_ERR_SYNTAX && e.category == NDB_ERRCAT_SYNTAX && e.message == message,
    {
        Self::new(NDB_ERR_SYNTAX, NDB_ERRCAT_SYNTAX, message)
    }

    pub fn execution(message: String) -> (e: ApiError)
        ensures
            e.code == NDB_ERR_EXECUTION && e.category == NDB_ERRCAT_EXECUTION && e.message == message,
    {
        Self::new(NDB_ERR_EXECUTION, NDB_ERRCAT_EXECUTION, message)
    }

    pub fn storage(message: String) -> (e: ApiError)
        ensures
            e.code == NDB_ERR_STORAGE && e.category == NDB_ERRCAT_STORAGE && e.message == message,
    {
        Self::new(NDB_ERR_STORAGE, NDB_ERRCAT_STORAGE, message)
    }

    pub fn compatibility(message: String) -> (e: ApiError)
        ensures
            e.code == NDB_ERR_COMPATIBILITY && e.category == NDB_ERRCAT_COMPATIBILITY && e.message == message,
    {
        Self::new(NDB_ERR_COMPATIBILITY, NDB_ERRCAT_COMPATIBILITY, message)
    }

    /// A busy error (category execution).
    pub fn busy(message: String) -> (e: ApiError)
        ensures
            e.code == NDB_ERR_BUSY && e.category == NDB_ERRCAT_EXECUTION && e.message == message,
    {
        Self::new(NDB_ERR_BUSY, NDB_ERRCAT_EXECUTION, message)
    }

    /// An internal error (category execution).
    pub fn internal(message: String) -> (e: ApiError)
        ensures
            e.code == NDB_ERR_INTERNAL && e.category == NDB_ERRCAT_EXECUTION && e.message == message,
    {
        Self::new(NDB_ERR_INTERNAL, NDB_ERRCAT_EXECUTION, message)
    }

    /// Classifies a query error message by the words it holds (see `query_message_class`).
    pub fn from_query_message(msg: &str) -> (e: ApiError)
        ensures
            (e.code, e.category) == query_message_class(msg@),
            e.message@ == msg@,
    {
        let lower_s = to_lowercase(msg);
        let (code, category) = classify_lowercase_query_message(lower_s.as_str());
        Self::new(code, category, String::from_str(msg))
    }
}

/// The error state that the C API keeps per thread.
#[derive(Debug)]
pub struct LastError {
    pub code: i32,
    pub category: i32,
    pub message: String,
}

impl LastError {
    /// No error: code and category zero, empty message.
    pub fn cleared() -> (e: LastError)
        ensures
            e.code == 0 && e.category == 0 && e.message@ == Seq::<char>::empty(),
    {
        LastError { code: 0, category: 0, message: String::new() }
    }
}

/// Resets the error state to "no error".
pub fn clear_last_error(slot: &mut LastError)
    ensures
        final(slot).code == 0 && final(slot).category == 0 && final(slot).message@ == Seq::<char>::empty(),
{
    *slot = LastError::cleared();
}

/// Records `err` as the last error.
pub fn set_last_error(slot: &mut LastError, err: &ApiError)
    ensures
        final(slot).code == err.code && final(slot).category == err.category && final(slot).message@ == err.message@,
{
    *slot = LastError { code: err.code, category: err.category, message: err.message.clone() };
}

/// The (code, category) that the Node binding gives an error message: resource limits first,
/// then compatibility, then syntax, then storage, else execution.
pub open spec fn node_message_class(msg: Seq<char>) -> (Seq<char>, Seq<char>) {
    node_lower_class(unicode_lowercase(msg))
}

/// The (code, category) of `node_message_class`, given the lower-cased message.
pub open spec fn node_lower_class(lower: Seq<char>) -> (Seq<char>, Seq<char>) {
    if seq_contains(lower, "resourcelimitexceeded"@) {
        ("NERVUS_RESOURCE_LIMIT"@, "execution"@)
    } else if mentions_compatibility(lower) {
        ("NERVUS_COMPATIBILITY"@, "compatibility"@)
    } else if mentions_syntax(lower) {
        ("NERVUS_SYNTAX"@, "syntax"@)
    } else if mentions_storage(lower) {
        ("NERVUS_STORAGE"@, "storage"@)
    } else {
        ("NERVUS_EXECUTION"@, "execution"@)
    }
}

/// Classifies an error message for the Node binding (see `node_message_class`).
pub fn classify_err_message(msg: &str) -> (r: (&'static str, &'static str))
    ensures
        (r.0@, r.1@) == node_message_class(msg@),
{
    let lower_s = to_lowercase(msg);
    classify_lowercase_message(lower_s.as_str())
}

/// The (code, category) of `node_lower_class` for a message that is already lower-cased.
pub fn classify_lowercase_message(lower: &str) -> (r: (&'static str, &'static str))
    ensures
        (r.0@, r.1@) == node_lower_class(lower@),
{
    if contains(lower, "resourcelimitexceeded") {
        ("NERVUS_RESOURCE_LIMIT", "execution")
    } else if lower_mentions_compatibility(lower) {
        ("NERVUS_COMPATIBILITY", "compatibility")
    } else if lower_mentions_syntax(lower) {
        ("NERVUS_SYNTAX", "syntax")
    } else if lower_mentions_storage(lower) {
        ("NERVUS_STORAGE", "storage")
    } else {
        ("NERVUS_EXECUTION", "execution")
    }
}

/// The (code, category) of `query_lower_class` for a message that is already lower-cased.
pub fn classify_lowercase_query_message(lower: &str) -> (r: (i32, i32))
    ensures
        r == query_lower_class(lower@),
{
    if lower_mentions_syntax(lower) {
        (NDB_ERR_SYNTAX, NDB_ERRCAT_SYNTAX)
    } else if lower_mentions_compatibility(lower) {
        (NDB_ERR_COMPATIBILITY, NDB_ERRCAT_COMPATIBILITY)
    } else if lower_mentions_storage(lower) {
        (NDB_ERR_STORAGE, NDB_ERRCAT_STORAGE)
    } else {
        (NDB_ERR_EXECUTION, NDB_ERRCAT_EXECUTION)
    }
}

/// The (code, category) that the Node binding reports for an error of the C API with the
/// given category: the category decides, but an execution error only keeps the message's
/// own code when that code is not syntax, storage or compatibility.
pub open spec fn payload_class(category: i32, msg: Seq<char>) -> (Seq<char>, Seq<char>) {
    if category == NDB_ERRCAT_SYNTAX {
        ("NERVUS_SYNTAX"@, "syntax"@)
    } else if category == NDB_ERRCAT_STORAGE {
        ("NERVUS_STORAGE"@, "storage"@)
    } else if category == NDB_ERRCAT_COMPATIBILITY {
        ("NERVUS_COMPATIBILITY"@, "compatibility"@)
    } else if category == NDB_ERRCAT_EXECUTION {
        let code = node_message_class(msg).0;
        if code == "NERVUS_SYNTAX"@ || code == "NERVUS_STORAGE"@ || code == "NERVUS_COMPATIBILITY"@ {
            ("NERVUS_EXECUTION"@, "execution"@)
        } else {
            (code, "execution"@)
        }
    } else {
        node_message_class(msg)
    }
}

/// The (code, category) that the Node binding reports for a C API error (see `payload_class`).
pub fn map_error_payload(category: i32, message: &str) -> (r: (&'static str, &'static str))
    ensures
        (r.0@, r.1@) == payload_class(category, message@),
{
    if category == NDB_ERRCAT_SYNTAX {
        ("NERVUS_SYNTAX", "syntax")
    } else if category == NDB_ERRCAT_STORAGE {
        ("NERVUS_STORAGE", "storage")
    } else if category == NDB_ERRCAT_COMPATIBILITY {
        ("NERVUS_COMPATIBILITY", "compatibility")
    } else if category == NDB_ERRCAT_EXECUTION {
        let (code, _cat) = classify_err_message(message);
        if crate::text::str_equal(code, "NERVUS_SYNTAX") || crate::text::str_equal(code, "NERVUS_STORAGE")
            || crate::text::str_equal(code, "NERVUS_COMPATIBILITY") {
            ("NERVUS_EXECUTION", "execution")
        } else {
            (code, "execution")
        }
    } else {
        classify_err_message(message)
    }
}

/// The error classes of the Python binding.
#[derive(Debug, Clone, Copy, PartialEq, Eq, Structural)]
pub enum ErrorClass {
    Syntax,
    Execution,
    Storage,
    Compatibility,
}

/// The class that the Python binding gives an error message: compatibility (also any
/// mention of an epoch) first, then resource limits (execution), syntax, storage, else
/// execution.
pub open spec fn python_message_class(msg: Seq<char>) -> ErrorClass {
    python_lower_class(unicode_lowercase(msg))
}

/// The class of `python_message_class`, given the lower-cased message.
pub open spec fn python_lower_class(lower: Seq<char>) -> ErrorClass {
    if mentions_compatibility(lower) || seq_contains(lower, "epoch"@) {
        ErrorClass::Compatibility
    } else if seq_contains(lower, "resourcelimitexceeded"@) {
        ErrorClass::Execution
    } else if mentions_syntax(lower) {
        ErrorClass::Syntax
    } else if mentions_storage(lower) || seq_contains(lower, "cannot close database"@) {
        ErrorClass::Storage
    } else {
        ErrorClass::Execution
    }
}

/// Classifies an error message for the Python binding (see `python_message_class`).
pub fn classify_error_text(msg: &str) -> (r: ErrorClass)
    ensures
        r == python_message_class(msg@),
{
    let lower_s = to_lowercase(msg);
    classify_lowercase_error_text(lower_s.as_str())
}

/// The class of `python_lower_class` for a message that is already lower-cased.
pub fn classify_lowercase_error_text(lower: &str) -> (r: ErrorClass)
    ensures
        r == python_lower_class(lower@),
{
    if lower_mentions_compatibility(lower) || contains(lower, "epoch") {
        ErrorClass::Compatibility
    } else if contains(lower, "resourcelimitexceeded") {
        ErrorClass::Execution
    } else if lower_mentions_syntax(lower) {
        ErrorClass::Syntax
    } else if lower_mentions_storage(lower) || contains(lower, "cannot close database") {
        ErrorClass::Storage
    } else {
        ErrorClass::Execution
    }
}

/// The Python error class of a C API error: its category decides; an unknown category falls
/// back to the message.
pub fn classify_capi_category(category: i32, msg: &str) -> (r: ErrorClass)
    ensures
        r == if category == NDB_ERRCAT_SYNTAX {
            ErrorClass::Syntax
        } else if category == NDB_ERRCAT_STORAGE {
            ErrorClass::Storage
        } else if category == NDB_ERRCAT_COMPATIBILITY {
            ErrorClass::Compatibility
        } else if category == NDB_ERRCAT_EXECUTION {
            ErrorClass::Execution
        } else {
            python_message_class(msg@)
        },
{
    if category == NDB_ERRCAT_SYNTAX {
        ErrorClass::Syntax
    } else if category == NDB_ERRCAT_STORAGE {
        ErrorClass::Storage
    } else if category == NDB_ERRCAT_COMPATIBILITY {
        ErrorClass::Compatibility
    } else if category == NDB_ERRCAT_EXECUTION {
        ErrorClass::Execution
    } else {
        classify_error_text(msg)
    }
}

/// A C API error category is never reported as syntax, storage or compatibility by the Node
/// binding when the C API itself classed the error as an execution error.
pub proof fn law_execution_category_stays_execution(msg: Seq<char>)
    ensures
        payload_class(NDB_ERRCAT_EXECUTION, msg).1 == "execution"@,
{
}

/// The three classifiers agree on syntax errors: a message that none of them takes for a
/// compatibility or resource-limit problem and that mentions syntax is a syntax error in
/// each of them.
pub proof fn law_classifiers_agree_on_syntax(msg: Seq<char>)
    requires
        mentions_syntax(unicode_lowercase(msg)),
        !mentions_compatibility(unicode_lowercase(msg)),
        !seq_contains(unicode_lowercase(msg), "resourcelimitexceeded"@),
        !seq_contains(unicode_lowercase(msg), "epoch"@),
    ensures
        query_message_class(msg) == (NDB_ERR_SYNTAX, NDB_ERRCAT_SYNTAX),
        node_message_class(msg).0 == "NERVUS_SYNTAX"@,
        python_message_class(msg) == ErrorClass::Syntax,
{
}

} // verus!
