//! Errors raised by DOM operations.

use vstd::prelude::*;

verus! {

/// A DOM exception, or a JavaScript-level error.
///
/// Most variants carry an optional message. The operands of `QuotaExceeded` are the bit
/// patterns of two doubles, and the messages of `Type` and `Range` are C strings without their
/// terminator, so they need not be well-formed UTF-8.
#[derive(Clone, Debug, PartialEq, Eq)]
pub enum Error {
    IndexSize(Option<String>),
    NotFound(Option<String>),
    HierarchyRequest(Option<String>),
    WrongDocument(Option<String>),
    InvalidCharacter(Option<String>),
    NotSupported(Option<String>),
    InUseAttribute(Option<String>),
    InvalidState(Option<String>),
    Syntax(Option<String>),
    Namespace(Option<String>),
    InvalidAccess(Option<String>),
    Security(Option<String>),
    Network(Option<String>),
    Abort(Option<String>),
    Timeout(Option<String>),
    InvalidNodeType(Option<String>),
    DataClone(Option<String>),
    TransactionInactive(Option<String>),
    ReadOnly(Option<String>),
    Version(Option<String>),
    NoModificationAllowed(Option<String>),
    QuotaExceeded { quota: Option<u64>, requested: Option<u64> },
    TypeMismatch(Option<String>),
    InvalidModification(Option<String>),
    NotReadable(Option<String>),
    Data(Option<String>),
    Operation(Option<String>),
    NotAllowed(Option<String>),
    Encoding(Option<String>),
    Constraint(Option<String>),
    /// A JavaScript `TypeError`.
    Type(Vec<u8>),
    /// A JavaScript `RangeError`.
    Range(Vec<u8>),
    /// A JavaScript exception is already pending.
    JSFailed,
}

} // verus!
