//! The core of the DOM ABI: status codes, handle packing, bounds checks and the string return
//! protocol.
//!
//! Nothing here touches an engine, a linear memory or a concrete DOM type. It is integer and
//! slice arithmetic over values that cross the boundary.

use vstd::prelude::*;
use vstd::std_specs::convert::FromSpecImpl;
use vstd::utf8::{decode_utf8, valid_utf8};

use crate::error::Error;

verus! {

/// Version of the ABI described by this module.
///
/// A module can read it with the `abi-version` import and refuse to run against a host it was
/// not built for.
pub const SDA_ABI_VERSION: i32 = 0;

// ---------------------------------------------------------------------------------------
// Status codes
// ---------------------------------------------------------------------------------------

/// The result of a host call, as the module sees it.
///
/// Every fallible import returns an `i32`. A value `>= 0` is success, `-1` means that the value
/// was null, and any value `<= -2` is one of these codes.
#[derive(Clone, Copy, Debug, Eq, PartialEq, Structural)]
pub enum WasmAbiStatus {
    /// The value was null. This is not an error.
    Null,
    IndexSize,
    NotFound,
    HierarchyRequest,
    WrongDocument,
    InvalidCharacter,
    NotSupported,
    InUseAttribute,
    InvalidState,
    Syntax,
    Namespace,
    InvalidAccess,
    Security,
    Network,
    Abort,
    Timeout,
    InvalidNodeType,
    DataClone,
    TransactionInactive,
    ReadOnly,
    Version,
    NoModificationAllowed,
    QuotaExceeded,
    TypeMismatch,
    InvalidModification,
    NotReadable,
    Data,
    Operation,
    NotAllowed,
    Encoding,
    Constraint,
    /// A JavaScript `TypeError`.
    Type,
    /// A JavaScript `RangeError`.
    Range,
    /// A JavaScript exception was already pending.
    JsFailed,
    /// A handle argument was `0` where a non-null value was required.
    NullHandle,
    /// The handle never existed: it names a slot that does not exist, or a vacant or occupied one
    /// in a generation that it has not reached.
    InvalidHandle,
    /// The object that the handle referred to has since been released.
    StaleHandle,
    /// The handle names a live object of the wrong interface type.
    WrongType,
    /// A pointer and length pair fell outside the linear memory, or was negative.
    OutOfBounds,
    /// A string argument was not well-formed UTF-8.
    InvalidUtf8,
    /// An enumeration argument was not a valid ordinal.
    InvalidEnum,
    /// The handle table of the instance is at its limit.
    TooManyHandles,
    /// The memory of the module was detached.
    MemoryDetached,
    /// Host-to-module reentrancy exceeded the configured depth.
    Reentrancy,
    /// The member exists in the ABI but is disabled.
    NotEnabled,
    /// The owning instance has been torn down.
    InstanceTornDown,
    /// A scope token did not name the innermost open scope.
    InvalidScope,
}

/// The number each status has on the wire.
pub open spec fn status_code(status: WasmAbiStatus) -> int {
    match status {
        WasmAbiStatus::Null => -1,
        WasmAbiStatus::IndexSize => -2,
        WasmAbiStatus::NotFound => -3,
        WasmAbiStatus::HierarchyRequest => -4,
        WasmAbiStatus::WrongDocument => -5,
        WasmAbiStatus::InvalidCharacter => -6,
        WasmAbiStatus::NotSupported => -7,
        WasmAbiStatus::InUseAttribute => -8,
        WasmAbiStatus::InvalidState => -9,
        WasmAbiStatus::Syntax => -10,
        WasmAbiStatus::Namespace => -11,
        WasmAbiStatus::InvalidAccess => -12,
        WasmAbiStatus::Security => -13,
        WasmAbiStatus::Network => -14,
        WasmAbiStatus::Abort => -15,
        WasmAbiStatus::Timeout => -16,
        WasmAbiStatus::InvalidNodeType => -17,
        WasmAbiStatus::DataClone => -18,
        WasmAbiStatus::TransactionInactive => -19,
        WasmAbiStatus::ReadOnly => -20,
        WasmAbiStatus::Version => -21,
        WasmAbiStatus::NoModificationAllowed => -22,
        WasmAbiStatus::QuotaExceeded => -23,
        WasmAbiStatus::TypeMismatch => -24,
        WasmAbiStatus::InvalidModification => -25,
        WasmAbiStatus::NotReadable => -26,
        WasmAbiStatus::Data => -27,
        WasmAbiStatus::Operation => -28,
        WasmAbiStatus::NotAllowed => -29,
        WasmAbiStatus::Encoding => -30,
        WasmAbiStatus::Constraint => -31,
        WasmAbiStatus::Type => -40,
        WasmAbiStatus::Range => -41,
        WasmAbiStatus::JsFailed => -42,
        WasmAbiStatus::NullHandle => -100,
        WasmAbiStatus::InvalidHandle => -101,
        WasmAbiStatus::StaleHandle => -102,
        WasmAbiStatus::WrongType => -103,
        WasmAbiStatus::OutOfBounds => -104,
        WasmAbiStatus::InvalidUtf8 => -105,
        WasmAbiStatus::InvalidEnum => -106,
        WasmAbiStatus::TooManyHandles => -107,
        WasmAbiStatus::MemoryDetached => -108,
        WasmAbiStatus::Reentrancy => -109,
        WasmAbiStatus::NotEnabled => -110,
        WasmAbiStatus::InstanceTornDown => -111,
        WasmAbiStatus::InvalidScope => -112,
    }
}

/// The status that a DOM error is reported as. Only the variant counts, never the message.
pub open spec fn error_status(error: Error) -> WasmAbiStatus {
    match error {
        Error::IndexSize(_) => WasmAbiStatus::IndexSize,
        Error::NotFound(_) => WasmAbiStatus::NotFound,
        Error::HierarchyRequest(_) => WasmAbiStatus::HierarchyRequest,
        Error::WrongDocument(_) => WasmAbiStatus::WrongDocument,
        Error::InvalidCharacter(_) => WasmAbiStatus::InvalidCharacter,
        Error::NotSupported(_) => WasmAbiStatus::NotSupported,
        Error::InUseAttribute(_) => WasmAbiStatus::InUseAttribute,
        Error::InvalidState(_) => WasmAbiStatus::InvalidState,
        Error::Syntax(_) => WasmAbiStatus::Syntax,
        Error::Namespace(_) => WasmAbiStatus::Namespace,
        Error::InvalidAccess(_) => WasmAbiStatus::InvalidAccess,
        Error::Security(_) => WasmAbiStatus::Security,
        Error::Network(_) => WasmAbiStatus::Network,
        Error::Abort(_) => WasmAbiStatus::Abort,
        Error::Timeout(_) => WasmAbiStatus::Timeout,
        Error::InvalidNodeType(_) => WasmAbiStatus::InvalidNodeType,
        Error::DataClone(_) => WasmAbiStatus::DataClone,
        Error::TransactionInactive(_) => WasmAbiStatus::TransactionInactive,
        Error::ReadOnly(_) => WasmAbiStatus::ReadOnly,
        Error::Version(_) => WasmAbiStatus::Version,
        Error::NoModificationAllowed(_) => WasmAbiStatus::NoModificationAllowed,
        Error::QuotaExceeded { .. } => WasmAbiStatus::QuotaExceeded,
        Error::TypeMismatch(_) => WasmAbiStatus::TypeMismatch,
        Error::InvalidModification(_) => WasmAbiStatus::InvalidModification,
        Error::NotReadable(_) => WasmAbiStatus::NotReadable,
        Error::Data(_) => WasmAbiStatus::Data,
        Error::Operation(_) => WasmAbiStatus::Operation,
        Error::NotAllowed(_) => WasmAbiStatus::NotAllowed,
        Error::Encoding(_) => WasmAbiStatus::Encoding,
        Error::Constraint(_) => WasmAbiStatus::Constraint,
        Error::Type(_) => WasmAbiStatus::Type,
        Error::Range(_) => WasmAbiStatus::Range,
        Error::JSFailed => WasmAbiStatus::JsFailed,
    }
}

/// The status that a number on the wire stands for.
pub open spec fn status_of_code(code: int) -> Option<WasmAbiStatus> {
    if code == -1 {
        Some(WasmAbiStatus::Null)
    } else if code == -2 {
        Some(WasmAbiStatus::IndexSize)
    } else if code == -3 {
        Some(WasmAbiStatus::NotFound)
    } else if code == -4 {
        Some(WasmAbiStatus::HierarchyRequest)
    } else if code == -5 {
        Some(WasmAbiStatus::WrongDocument)
    } else if code == -6 {
        Some(WasmAbiStatus::InvalidCharacter)
    } else if code == -7 {
        Some(WasmAbiStatus::NotSupported)
    } else if code == -8 {
        Some(WasmAbiStatus::InUseAttribute)
    } else if code == -9 {
        Some(WasmAbiStatus::InvalidState)
    } else if code == -10 {
        Some(WasmAbiStatus::Syntax)
    } else if code == -11 {
        Some(WasmAbiStatus::Namespace)
    } else if code == -12 {
        Some(WasmAbiStatus::InvalidAccess)
    } else if code == -13 {
        Some(WasmAbiStatus::Security)
    } else if code == -14 {
        Some(WasmAbiStatus::Network)
    } else if code == -15 {
        Some(WasmAbiStatus::Abort)
    } else if code == -16 {
        Some(WasmAbiStatus::Timeout)
    } else if code == -17 {
        Some(WasmAbiStatus::InvalidNodeType)
    } else if code == -18 {
        Some(WasmAbiStatus::DataClone)
    } else if code == -19 {
        Some(WasmAbiStatus::TransactionInactive)
    } else if code == -20 {
        Some(WasmAbiStatus::ReadOnly)
    } else if code == -21 {
        Some(WasmAbiStatus::Version)
    } else if code == -22 {
        Some(WasmAbiStatus::NoModificationAllowed)
    } else if code == -23 {
        Some(WasmAbiStatus::QuotaExceeded)
    } else if code == -24 {
        Some(WasmAbiStatus::TypeMismatch)
    } else if code == -25 {
        Some(WasmAbiStatus::InvalidModification)
    } else if code == -26 {
        Some(WasmAbiStatus::NotReadable)
    } else if code == -27 {
        Some(WasmAbiStatus::Data)
    } else if code == -28 {
        Some(WasmAbiStatus::Operation)
    } else if code == -29 {
        Some(WasmAbiStatus::NotAllowed)
    } else if code == -30 {
        Some(WasmAbiStatus::Encoding)
    } else if code == -31 {
        Some(WasmAbiStatus::Constraint)
    } else if code == -40 {
        Some(WasmAbiStatus::Type)
    } else if code == -41 {
        Some(WasmAbiStatus::Range)
    } else if code == -42 {
        Some(WasmAbiStatus::JsFailed)
    } else if code == -100 {
        Some(WasmAbiStatus::NullHandle)
    } else if code == -101 {
        Some(WasmAbiStatus::InvalidHandle)
    } else if code == -102 {
        Some(WasmAbiStatus::StaleHandle)
    } else if code == -103 {
        Some(WasmAbiStatus::WrongType)
    } else if code == -104 {
        Some(WasmAbiStatus::OutOfBounds)
    } else if code == -105 {
        Some(WasmAbiStatus::InvalidUtf8)
    } else if code == -106 {
        Some(WasmAbiStatus::InvalidEnum)
    } else if code == -107 {
        Some(WasmAbiStatus::TooManyHandles)
    } else if code == -108 {
        Some(WasmAbiStatus::MemoryDetached)
    } else if code == -109 {
        Some(WasmAbiStatus::Reentrancy)
    } else if code == -110 {
        Some(WasmAbiStatus::NotEnabled)
    } else if code == -111 {
        Some(WasmAbiStatus::InstanceTornDown)
    } else if code == -112 {
        Some(WasmAbiStatus::InvalidScope)
    } else {
        None
    }
}

/// Every status code is negative, so none can be taken for a success, and no two statuses share
/// one: the status can be read back from its number.
pub proof fn status_codes_are_negative_and_distinct(status: WasmAbiStatus, other: WasmAbiStatus)
    ensures
        status_code(status) < 0,
        status_of_code(status_code(status)) == Some(status),
        status_code(status) == status_code(other) ==> status == other,
{
    assert(status_of_code(status_code(status)) == Some(status));
    assert(status_of_code(status_code(other)) == Some(other));
}

/// A DOM error is never reported as null, nor with a code that belongs to the ABI itself, nor
/// with one of the codes that are left free between the exceptions and the JavaScript errors.
pub proof fn dom_errors_keep_to_their_codes(error: Error)
    ensures
        error_status(error) != WasmAbiStatus::Null,
        -31 <= status_code(error_status(error)) <= -2 || -42 <= status_code(error_status(error))
            <= -40,
{
}

/// Whether two errors are of the same variant.
pub open spec fn same_variant(error: Error, other: Error) -> bool {
    match error {
        Error::IndexSize(_) => other is IndexSize,
        Error::NotFound(_) => other is NotFound,
        Error::HierarchyRequest(_) => other is HierarchyRequest,
        Error::WrongDocument(_) => other is WrongDocument,
        Error::InvalidCharacter(_) => other is InvalidCharacter,
        Error::NotSupported(_) => other is NotSupported,
        Error::InUseAttribute(_) => other is InUseAttribute,
        Error::InvalidState(_) => other is InvalidState,
        Error::Syntax(_) => other is Syntax,
        Error::Namespace(_) => other is Namespace,
        Error::InvalidAccess(_) => other is InvalidAccess,
        Error::Security(_) => other is Security,
        Error::Network(_) => other is Network,
        Error::Abort(_) => other is Abort,
        Error::Timeout(_) => other is Timeout,
        Error::InvalidNodeType(_) => other is InvalidNodeType,
        Error::DataClone(_) => other is DataClone,
        Error::TransactionInactive(_) => other is TransactionInactive,
        Error::ReadOnly(_) => other is ReadOnly,
        Error::Version(_) => other is Version,
        Error::NoModificationAllowed(_) => other is NoModificationAllowed,
        Error::QuotaExceeded { .. } => other is QuotaExceeded,
        Error::TypeMismatch(_) => other is TypeMismatch,
        Error::InvalidModification(_) => other is InvalidModification,
        Error::NotReadable(_) => other is NotReadable,
        Error::Data(_) => other is Data,
        Error::Operation(_) => other is Operation,
        Error::NotAllowed(_) => other is NotAllowed,
        Error::Encoding(_) => other is Encoding,
        Error::Constraint(_) => other is Constraint,
        Error::Type(_) => other is Type,
        Error::Range(_) => other is Range,
        Error::JSFailed => other is JSFailed,
    }
}

/// Two errors are reported with the same code if and only if they are of the same variant.
pub proof fn dom_errors_have_their_own_codes(error: Error, other: Error)
    ensures
        status_code(error_status(error)) == status_code(error_status(other)) <==> same_variant(
            error,
            other,
        ),
{
    status_codes_are_negative_and_distinct(error_status(error), error_status(other));
}

impl WasmAbiStatus {
    /// The wire representation handed back to the module.
    pub fn to_abi(self) -> (code: i32)
        ensures
            code == status_code(self),
    {
        match self {
            WasmAbiStatus::Null => -1,
            WasmAbiStatus::IndexSize => -2,
            WasmAbiStatus::NotFound => -3,
            WasmAbiStatus::HierarchyRequest => -4,
            WasmAbiStatus::WrongDocument => -5,
            WasmAbiStatus::InvalidCharacter => -6,
            WasmAbiStatus::NotSupported => -7,
            WasmAbiStatus::InUseAttribute => -8,
            WasmAbiStatus::InvalidState => -9,
            WasmAbiStatus::Syntax => -10,
            WasmAbiStatus::Namespace => -11,
            WasmAbiStatus::InvalidAccess => -12,
            WasmAbiStatus::Security => -13,
            WasmAbiStatus::Network => -14,
            WasmAbiStatus::Abort => -15,
            WasmAbiStatus::Timeout => -16,
            WasmAbiStatus::InvalidNodeType => -17,
            WasmAbiStatus::DataClone => -18,
            WasmAbiStatus::TransactionInactive => -19,
            WasmAbiStatus::ReadOnly => -20,
            WasmAbiStatus::Version => -21,
            WasmAbiStatus::NoModificationAllowed => -22,
            WasmAbiStatus::QuotaExceeded => -23,
            WasmAbiStatus::TypeMismatch => -24,
            WasmAbiStatus::InvalidModification => -25,
            WasmAbiStatus::NotReadable => -26,
            WasmAbiStatus::Data => -27,
            WasmAbiStatus::Operation => -28,
            WasmAbiStatus::NotAllowed => -29,
            WasmAbiStatus::Encoding => -30,
            WasmAbiStatus::Constraint => -31,
            WasmAbiStatus::Type => -40,
            WasmAbiStatus::Range => -41,
            WasmAbiStatus::JsFailed => -42,
            WasmAbiStatus::NullHandle => -100,
            WasmAbiStatus::InvalidHandle => -101,
            WasmAbiStatus::StaleHandle => -102,
            WasmAbiStatus::WrongType => -103,
            WasmAbiStatus::OutOfBounds => -104,
            WasmAbiStatus::InvalidUtf8 => -105,
            WasmAbiStatus::InvalidEnum => -106,
            WasmAbiStatus::TooManyHandles => -107,
            WasmAbiStatus::MemoryDetached => -108,
            WasmAbiStatus::Reentrancy => -109,
            WasmAbiStatus::NotEnabled => -110,
            WasmAbiStatus::InstanceTornDown => -111,
            WasmAbiStatus::InvalidScope => -112,
        }
    }

    /// Whether this code is a genuine failure, as opposed to [`WasmAbiStatus::Null`].
    pub fn is_error(self) -> (failed: bool)
        ensures
            failed == (self != WasmAbiStatus::Null),
            failed == (status_code(self) <= -2),
    {
        self != WasmAbiStatus::Null
    }
}

/// Maps a DOM error onto its wire status. The `match` has no wildcard arm, so a new variant of
/// `Error` does not compile until it has a code.
impl From<&Error> for WasmAbiStatus {
    fn from(error: &Error) -> (status: Self) {
        match error {
            Error::IndexSize(_) => WasmAbiStatus::IndexSize,
            Error::NotFound(_) => WasmAbiStatus::NotFound,
            Error::HierarchyRequest(_) => WasmAbiStatus::HierarchyRequest,
            Error::WrongDocument(_) => WasmAbiStatus::WrongDocument,
            Error::InvalidCharacter(_) => WasmAbiStatus::InvalidCharacter,
            Error::NotSupported(_) => WasmAbiStatus::NotSupported,
            Error::InUseAttribute(_) => WasmAbiStatus::InUseAttribute,
            Error::InvalidState(_) => WasmAbiStatus::InvalidState,
            Error::Syntax(_) => WasmAbiStatus::Syntax,
            Error::Namespace(_) => WasmAbiStatus::Namespace,
            Error::InvalidAccess(_) => WasmAbiStatus::InvalidAccess,
            Error::Security(_) => WasmAbiStatus::Security,
            Error::Network(_) => WasmAbiStatus::Network,
            Error::Abort(_) => WasmAbiStatus::Abort,
            Error::Timeout(_) => WasmAbiStatus::Timeout,
            Error::InvalidNodeType(_) => WasmAbiStatus::InvalidNodeType,
            Error::DataClone(_) => WasmAbiStatus::DataClone,
            Error::TransactionInactive(_) => WasmAbiStatus::TransactionInactive,
            Error::ReadOnly(_) => WasmAbiStatus::ReadOnly,
            Error::Version(_) => WasmAbiStatus::Version,
            Error::NoModificationAllowed(_) => WasmAbiStatus::NoModificationAllowed,
            Error::QuotaExceeded { .. } => WasmAbiStatus::QuotaExceeded,
            Error::TypeMismatch(_) => WasmAbiStatus::TypeMismatch,
            Error::InvalidModification(_) => WasmAbiStatus::InvalidModification,
            Error::NotReadable(_) => WasmAbiStatus::NotReadable,
            Error::Data(_) => WasmAbiStatus::Data,
            Error::Operation(_) => WasmAbiStatus::Operation,
            Error::NotAllowed(_) => WasmAbiStatus::NotAllowed,
            Error::Encoding(_) => WasmAbiStatus::Encoding,
            Error::Constraint(_) => WasmAbiStatus::Constraint,
            Error::Type(_) => WasmAbiStatus::Type,
            Error::Range(_) => WasmAbiStatus::Range,
            Error::JSFailed => WasmAbiStatus::JsFailed,
        }
    }
}

impl FromSpecImpl<&Error> for WasmAbiStatus {
    open spec fn obeys_from_spec() -> bool {
        true
    }

    open spec fn from_spec(error: &Error) -> Self {
        error_status(*error)
    }
}

// ---------------------------------------------------------------------------------------
// Error messages
// ---------------------------------------------------------------------------------------

/// What `String::from_utf8_lossy` makes of a byte string.
pub uninterp spec fn utf8_lossy(bytes: Seq<u8>) -> Seq<char>;

/// Decodes bytes with `String::from_utf8_lossy`. The text is a function of the bytes alone, and
/// well-formed UTF-8 comes out as the text it encodes; how the replacement characters of
/// malformed input fall is left to the name [`utf8_lossy`].
#[verifier::external_body]
fn lossy_text(bytes: &Vec<u8>) -> (text: String)
    ensures
        text@ == utf8_lossy(bytes@),
        valid_utf8(bytes@) ==> text@ == decode_utf8(bytes@),
{
    String::from_utf8_lossy(bytes).into_owned()
}

/// The canonical name of the exception behind an error, or the fixed text of the variants that
/// have none.
pub open spec fn exception_name(error: Error) -> Seq<char> {
    match error {
        Error::IndexSize(_) => "IndexSizeError"@,
        Error::NotFound(_) => "NotFoundError"@,
        Error::HierarchyRequest(_) => "HierarchyRequestError"@,
        Error::WrongDocument(_) => "WrongDocumentError"@,
        Error::InvalidCharacter(_) => "InvalidCharacterError"@,
        Error::NotSupported(_) => "NotSupportedError"@,
        Error::InUseAttribute(_) => "InUseAttributeError"@,
        Error::InvalidState(_) => "InvalidStateError"@,
        Error::Syntax(_) => "SyntaxError"@,
        Error::Namespace(_) => "NamespaceError"@,
        Error::InvalidAccess(_) => "InvalidAccessError"@,
        Error::Security(_) => "SecurityError"@,
        Error::Network(_) => "NetworkError"@,
        Error::Abort(_) => "AbortError"@,
        Error::Timeout(_) => "TimeoutError"@,
        Error::InvalidNodeType(_) => "InvalidNodeTypeError"@,
        Error::DataClone(_) => "DataCloneError"@,
        Error::TransactionInactive(_) => "TransactionInactiveError"@,
        Error::ReadOnly(_) => "ReadOnlyError"@,
        Error::Version(_) => "VersionError"@,
        Error::NoModificationAllowed(_) => "NoModificationAllowedError"@,
        Error::QuotaExceeded { .. } => "QuotaExceededError"@,
        Error::TypeMismatch(_) => "TypeMismatchError"@,
        Error::InvalidModification(_) => "InvalidModificationError"@,
        Error::NotReadable(_) => "NotReadableError"@,
        Error::Data(_) => "DataError"@,
        Error::Operation(_) => "OperationError"@,
        Error::NotAllowed(_) => "NotAllowedError"@,
        Error::Encoding(_) => "EncodingError"@,
        Error::Constraint(_) => "ConstraintError"@,
        Error::Type(_) => Seq::empty(),
        Error::Range(_) => Seq::empty(),
        Error::JSFailed => "a JavaScript exception is pending"@,
    }
}

/// The message an error carries itself, if it carries one.
pub open spec fn carried_message(error: Error) -> Option<Seq<char>> {
    match error {
        Error::IndexSize(m) | Error::NotFound(m) | Error::HierarchyRequest(m)
        | Error::WrongDocument(m) | Error::InvalidCharacter(m) | Error::NotSupported(m)
        | Error::InUseAttribute(m) | Error::InvalidState(m) | Error::Syntax(m)
        | Error::Namespace(m) | Error::InvalidAccess(m) | Error::Security(m) | Error::Network(m)
        | Error::Abort(m) | Error::Timeout(m) | Error::InvalidNodeType(m) | Error::DataClone(m)
        | Error::TransactionInactive(m) | Error::ReadOnly(m) | Error::Version(m)
        | Error::NoModificationAllowed(m) | Error::TypeMismatch(m)
        | Error::InvalidModification(m) | Error::NotReadable(m) | Error::Data(m)
        | Error::Operation(m) | Error::NotAllowed(m) | Error::Encoding(m)
        | Error::Constraint(m) => match m {
            Some(text) => Some(text@),
            None => None,
        },
        Error::Type(m) | Error::Range(m) => Some(utf8_lossy(m@)),
        Error::QuotaExceeded { .. } | Error::JSFailed => None,
    }
}

/// The message that accompanies an error: its own, else the name of the exception.
pub open spec fn error_text(error: Error) -> Seq<char> {
    match carried_message(error) {
        Some(text) => text,
        None => exception_name(error),
    }
}

/// The message if there is one, else the name.
fn or_name(message: &Option<String>, name: &'static str) -> (text: String)
    ensures
        text@ == (match *message {
            Some(own) => own@,
            None => name@,
        }),
{
    match message {
        Some(own) => own.clone(),
        None => name.to_owned(),
    }
}

/// The human-readable message that accompanies an error, which the module can retrieve with
/// the `error-message` import.
pub fn error_message(error: &Error) -> (text: String)
    ensures
        text@ == error_text(*error),
        *error matches Error::Type(m) ==> valid_utf8(m@) ==> text@ == decode_utf8(m@),
        *error matches Error::Range(m) ==> valid_utf8(m@) ==> text@ == decode_utf8(m@),
{
    match error {
        Error::IndexSize(m) => or_name(m, "IndexSizeError"),
        Error::NotFound(m) => or_name(m, "NotFoundError"),
        Error::HierarchyRequest(m) => or_name(m, "HierarchyRequestError"),
        Error::WrongDocument(m) => or_name(m, "WrongDocumentError"),
        Error::InvalidCharacter(m) => or_name(m, "InvalidCharacterError"),
        Error::NotSupported(m) => or_name(m, "NotSupportedError"),
        Error::InUseAttribute(m) => or_name(m, "InUseAttributeError"),
        Error::InvalidState(m) => or_name(m, "InvalidStateError"),
        Error::Syntax(m) => or_name(m, "SyntaxError"),
        Error::Namespace(m) => or_name(m, "NamespaceError"),
        Error::InvalidAccess(m) => or_name(m, "InvalidAccessError"),
        Error::Security(m) => or_name(m, "SecurityError"),
        Error::Network(m) => or_name(m, "NetworkError"),
        Error::Abort(m) => or_name(m, "AbortError"),
        Error::Timeout(m) => or_name(m, "TimeoutError"),
        Error::InvalidNodeType(m) => or_name(m, "InvalidNodeTypeError"),
        Error::DataClone(m) => or_name(m, "DataCloneError"),
        Error::TransactionInactive(m) => or_name(m, "TransactionInactiveError"),
        Error::ReadOnly(m) => or_name(m, "ReadOnlyError"),
        Error::Version(m) => or_name(m, "VersionError"),
        Error::NoModificationAllowed(m) => or_name(m, "NoModificationAllowedError"),
        Error::QuotaExceeded { .. } => "QuotaExceededError".to_owned(),
        Error::TypeMismatch(m) => or_name(m, "TypeMismatchError"),
        Error::InvalidModification(m) => or_name(m, "InvalidModificationError"),
        Error::NotReadable(m) => or_name(m, "NotReadableError"),
        Error::Data(m) => or_name(m, "DataError"),
        Error::Operation(m) => or_name(m, "OperationError"),
        Error::NotAllowed(m) => or_name(m, "NotAllowedError"),
        Error::Encoding(m) => or_name(m, "EncodingError"),
        Error::Constraint(m) => or_name(m, "ConstraintError"),
        Error::Type(m) => lossy_text(m),
        Error::Range(m) => lossy_text(m),
        Error::JSFailed => "a JavaScript exception is pending".to_owned(),
    }
}

/// The message that accompanies a failure of the ABI itself, which no error of the DOM is behind.
pub open spec fn abi_text(status: WasmAbiStatus) -> Seq<char> {
    match status {
        WasmAbiStatus::Type => "the arguments could not be decoded"@,
        WasmAbiStatus::NotSupported => "the operation is not supported in this realm"@,
        WasmAbiStatus::NullHandle => "the handle is null"@,
        WasmAbiStatus::InvalidHandle => "the handle never existed"@,
        WasmAbiStatus::StaleHandle => "the object of the handle has been released"@,
        WasmAbiStatus::WrongType => "the object of the handle is of another interface"@,
        WasmAbiStatus::OutOfBounds => "the bytes lie outside the memory or do not fit the buffer"@,
        WasmAbiStatus::InvalidUtf8 => "the string is not well-formed UTF-8"@,
        WasmAbiStatus::InvalidEnum => "the ordinal names no value"@,
        WasmAbiStatus::TooManyHandles => "the handle table is full"@,
        WasmAbiStatus::MemoryDetached => "the memory of the module cannot be reached"@,
        WasmAbiStatus::Reentrancy => "the calls are nested too deeply"@,
        WasmAbiStatus::NotEnabled => "the member is disabled"@,
        WasmAbiStatus::InstanceTornDown => "the instance has been torn down"@,
        WasmAbiStatus::InvalidScope => "the token does not name the innermost open scope"@,
        _ => "the operation failed"@,
    }
}

/// The human-readable message that accompanies a failure of the ABI itself.
pub fn abi_message(status: WasmAbiStatus) -> (text: &'static str)
    ensures
        text@ == abi_text(status),
{
    match status {
        WasmAbiStatus::Type => "the arguments could not be decoded",
        WasmAbiStatus::NotSupported => "the operation is not supported in this realm",
        WasmAbiStatus::NullHandle => "the handle is null",
        WasmAbiStatus::InvalidHandle => "the handle never existed",
        WasmAbiStatus::StaleHandle => "the object of the handle has been released",
        WasmAbiStatus::WrongType => "the object of the handle is of another interface",
        WasmAbiStatus::OutOfBounds => "the bytes lie outside the memory or do not fit the buffer",
        WasmAbiStatus::InvalidUtf8 => "the string is not well-formed UTF-8",
        WasmAbiStatus::InvalidEnum => "the ordinal names no value",
        WasmAbiStatus::TooManyHandles => "the handle table is full",
        WasmAbiStatus::MemoryDetached => "the memory of the module cannot be reached",
        WasmAbiStatus::Reentrancy => "the calls are nested too deeply",
        WasmAbiStatus::NotEnabled => "the member is disabled",
        WasmAbiStatus::InstanceTornDown => "the instance has been torn down",
        WasmAbiStatus::InvalidScope => "the token does not name the innermost open scope",
        _ => "the operation failed",
    }
}

// ---------------------------------------------------------------------------------------
// Handles
// ---------------------------------------------------------------------------------------

/// A reference to a DOM object, as the module sees it.
///
/// Packed as `generation * 2^20 + index` into the low 31 bits, so a handle is never negative
/// when read as an `i32`.
pub type WasmHandle = u32;

/// The null handle. Generations start at [`MIN_GENERATION`], so no live slot packs to it.
pub const NULL_HANDLE: WasmHandle = 0;

/// Number of low bits carrying the slot index.
pub const INDEX_BITS: u32 = 20;

/// Number of bits carrying the generation counter.
pub const GENERATION_BITS: u32 = 11;

/// Largest addressable slot index, `2^INDEX_BITS - 1`.
pub const MAX_INDEX: u32 = 0xF_FFFF;

/// Lowest generation of a live slot.
pub const MIN_GENERATION: u32 = 1;

/// Largest generation a slot may reach before it is retired, `2^GENERATION_BITS - 1`.
pub const MAX_GENERATION: u32 = 0x7FF;

const INDEX_MASK: u32 = MAX_INDEX;

const GENERATION_MASK: u32 = MAX_GENERATION;

/// The number of slots that an index can tell apart, `2^INDEX_BITS`.
pub open spec fn index_span() -> int {
    MAX_INDEX + 1
}

/// Whether a slot index and a generation both fit the encoding.
pub open spec fn packable(index: int, generation: int) -> bool {
    0 <= index <= MAX_INDEX && MIN_GENERATION <= generation <= MAX_GENERATION
}

/// The handle of a slot index in a generation.
pub open spec fn packed(index: int, generation: int) -> WasmHandle {
    (generation * index_span() + index) as u32
}

/// The slot index that a handle carries.
pub open spec fn handle_index(handle: WasmHandle) -> int {
    handle as int % index_span()
}

/// The generation that a handle carries.
pub open spec fn handle_generation(handle: WasmHandle) -> int {
    handle as int / index_span()
}

/// Whether the host could have produced a handle: its top bit is clear and its generation is
/// not below the lowest one.
pub open spec fn well_formed_handle(handle: WasmHandle) -> bool {
    handle <= i32::MAX && MIN_GENERATION <= handle_generation(handle)
}

/// Packing and unpacking undo each other: a slot index and a generation that fit are what the
/// handle of them carries.
pub proof fn unpacking_undoes_packing(index: int, generation: int)
    requires
        packable(index, generation),
    ensures
        well_formed_handle(packed(index, generation)),
        handle_index(packed(index, generation)) == index,
        handle_generation(packed(index, generation)) == generation,
{
    vstd::arithmetic::div_mod::lemma_fundamental_div_mod_converse(
        packed(index, generation) as int,
        index_span(),
        generation,
        index,
    );
}

/// A handle that the host could have produced is the packing of what it carries, so two such
/// handles that carry the same index and generation are the same handle.
pub proof fn packing_undoes_unpacking(handle: WasmHandle)
    requires
        well_formed_handle(handle),
    ensures
        packable(handle_index(handle), handle_generation(handle)),
        packed(handle_index(handle), handle_generation(handle)) == handle,
{
}

/// No slot packs to the null handle, and every packed handle is a positive `i32`.
pub proof fn packed_handles_are_positive(index: int, generation: int)
    requires
        packable(index, generation),
    ensures
        packed(index, generation) != NULL_HANDLE,
        0 < packed(index, generation) <= i32::MAX,
{
}

/// Packs a slot index and a generation into a handle, or gives `None` if either is out of
/// range. A slot whose generation is out of range has to be retired, never wrapped.
pub fn pack_handle(index: u32, generation: u32) -> (handle: Option<WasmHandle>)
    ensures
        handle == (if packable(index as int, generation as int) {
            Some(packed(index as int, generation as int))
        } else {
            None
        }),
{
    if index > MAX_INDEX || generation < MIN_GENERATION || generation > MAX_GENERATION {
        return None;
    }
    assert((generation << 20u32) | index == generation * 0x10_0000 + index) by (bit_vector)
        requires
            index <= 0xF_FFFFu32,
            generation <= 0x7FFu32,
    ;
    Some((generation << INDEX_BITS) | index)
}

/// Splits a handle into its slot index and generation, or gives `None` for the null handle, for
/// a value with the top bit set, and for one whose generation is below [`MIN_GENERATION`].
pub fn unpack_handle(handle: WasmHandle) -> (parts: Option<(u32, u32)>)
    ensures
        match parts {
            Some((index, generation)) => {
                &&& well_formed_handle(handle)
                &&& index == handle_index(handle)
                &&& generation == handle_generation(handle)
                &&& packable(index as int, generation as int)
            },
            None => !well_formed_handle(handle),
        },
{
    if handle == NULL_HANDLE || handle > i32::MAX as u32 {
        return None;
    }
    let index: u32 = handle & INDEX_MASK;
    let generation: u32 = (handle >> INDEX_BITS) & GENERATION_MASK;
    assert(handle & 0xF_FFFFu32 == handle % 0x10_0000u32) by (bit_vector);
    assert((handle >> 20u32) & 0x7FFu32 == handle / 0x10_0000u32) by (bit_vector)
        requires
            handle <= 0x7FFF_FFFFu32,
    ;
    if generation < MIN_GENERATION {
        return None;
    }
    Some((index, generation))
}

/// Converts a raw handle argument. A negative value can only have been fabricated.
pub fn handle_from_abi(raw: i32) -> (handle: Result<WasmHandle, WasmAbiStatus>)
    ensures
        handle == (if raw < 0 {
            Err::<WasmHandle, WasmAbiStatus>(WasmAbiStatus::InvalidHandle)
        } else {
            Ok(raw as u32)
        }),
{
    if raw < 0 {
        Err(WasmAbiStatus::InvalidHandle)
    } else {
        Ok(raw as u32)
    }
}

// ---------------------------------------------------------------------------------------
// Linear memory bounds
// ---------------------------------------------------------------------------------------

/// Whether a pointer and length name bytes that lie inside a memory of the given size.
pub open spec fn in_bounds(ptr: int, len: int, memory_len: int) -> bool {
    0 <= ptr && 0 <= len && ptr + len <= memory_len
}

/// Validates a pointer and length against the size of the linear memory, and gives the byte
/// range they denote. An empty range at the very end is legal.
pub fn checked_range(ptr: i32, len: i32, memory_len: usize) -> (range: Result<
    core::ops::Range<usize>,
    WasmAbiStatus,
>)
    ensures
        match range {
            Ok(range) => {
                &&& in_bounds(ptr as int, len as int, memory_len as int)
                &&& range.start == ptr
                &&& range.end == ptr + len
            },
            Err(status) => {
                &&& !in_bounds(ptr as int, len as int, memory_len as int)
                &&& status == WasmAbiStatus::OutOfBounds
            },
        },
{
    if ptr < 0 || len < 0 {
        return Err(WasmAbiStatus::OutOfBounds);
    }
    let start: u64 = ptr as u64;
    let end: u64 = start + len as u64;
    if end > memory_len as u64 {
        return Err(WasmAbiStatus::OutOfBounds);
    }
    Ok(start as usize..end as usize)
}

// ---------------------------------------------------------------------------------------
// String return protocol
// ---------------------------------------------------------------------------------------

/// What the host does with a string it is about to return.
#[derive(Clone, Copy, Debug, Eq, PartialEq, Structural)]
pub enum StringWrite {
    /// The value fits: copy all `len` bytes into the buffer of the caller.
    Fits { len: i32 },
    /// The value does not fit: write nothing and keep the bytes for a later read.
    Stash { len: i32 },
}

impl StringWrite {
    /// The number the host returns to the module in either case.
    pub fn to_abi(self) -> (length: i32)
        ensures
            length == (match self {
                StringWrite::Fits { len } => len,
                StringWrite::Stash { len } => len,
            }),
    {
        match self {
            StringWrite::Fits { len } => len,
            StringWrite::Stash { len } => len,
        }
    }
}

/// The plan for a string of `byte_len` bytes and a buffer of `out_cap` bytes. A negative
/// capacity is a forgery, and a length above `i32::MAX` cannot be described to the module.
pub open spec fn string_write_plan(byte_len: int, out_cap: int) -> Result<
    StringWrite,
    WasmAbiStatus,
> {
    if out_cap < 0 || byte_len > i32::MAX {
        Err(WasmAbiStatus::OutOfBounds)
    } else if byte_len <= out_cap {
        Ok(StringWrite::Fits { len: byte_len as i32 })
    } else {
        Ok(StringWrite::Stash { len: byte_len as i32 })
    }
}

/// Decides how to return a string of `byte_len` bytes given the capacity of the buffer.
pub fn plan_string_write(byte_len: usize, out_cap: i32) -> (plan: Result<
    StringWrite,
    WasmAbiStatus,
>)
    ensures
        plan == string_write_plan(byte_len as int, out_cap as int),
{
    if out_cap < 0 {
        return Err(WasmAbiStatus::OutOfBounds);
    }
    let len: i32 = match i32::try_from(byte_len) {
        Ok(len) => len,
        Err(_) => return Err(WasmAbiStatus::OutOfBounds),
    };
    if len <= out_cap {
        Ok(StringWrite::Fits { len })
    } else {
        Ok(StringWrite::Stash { len })
    }
}

// ---------------------------------------------------------------------------------------
// Value types
// ---------------------------------------------------------------------------------------

/// The WebAssembly value types the ABI uses. Reference types are not among them.
#[derive(Clone, Copy, Debug, Eq, PartialEq, Structural)]
pub enum WasmValType {
    I32,
    I64,
    F32,
    F64,
}

/// The numbers of the ABI. Those of the exceptions of the DOM follow each other without a gap,
/// those of the JavaScript errors start at minus forty, and those of the ABI itself at minus one
/// hundred.
pub proof fn the_numbers_of_the_statuses(status: WasmAbiStatus)
    ensures
        status_code(status) == -1 <==> status == WasmAbiStatus::Null,
        status_code(status) == -2 <==> status == WasmAbiStatus::IndexSize,
        status_code(status) == -3 <==> status == WasmAbiStatus::NotFound,
        status_code(status) == -4 <==> status == WasmAbiStatus::HierarchyRequest,
        status_code(status) == -5 <==> status == WasmAbiStatus::WrongDocument,
        status_code(status) == -6 <==> status == WasmAbiStatus::InvalidCharacter,
        status_code(status) == -7 <==> status == WasmAbiStatus::NotSupported,
        status_code(status) == -8 <==> status == WasmAbiStatus::InUseAttribute,
        status_code(status) == -9 <==> status == WasmAbiStatus::InvalidState,
        status_code(status) == -10 <==> status == WasmAbiStatus::Syntax,
        status_code(status) == -11 <==> status == WasmAbiStatus::Namespace,
        status_code(status) == -12 <==> status == WasmAbiStatus::InvalidAccess,
        status_code(status) == -13 <==> status == WasmAbiStatus::Security,
        status_code(status) == -14 <==> status == WasmAbiStatus::Network,
        status_code(status) == -15 <==> status == WasmAbiStatus::Abort,
        status_code(status) == -16 <==> status == WasmAbiStatus::Timeout,
        status_code(status) == -17 <==> status == WasmAbiStatus::InvalidNodeType,
        status_code(status) == -18 <==> status == WasmAbiStatus::DataClone,
        status_code(status) == -19 <==> status == WasmAbiStatus::TransactionInactive,
        status_code(status) == -20 <==> status == WasmAbiStatus::ReadOnly,
        status_code(status) == -21 <==> status == WasmAbiStatus::Version,
        status_code(status) == -22 <==> status == WasmAbiStatus::NoModificationAllowed,
        status_code(status) == -23 <==> status == WasmAbiStatus::QuotaExceeded,
        status_code(status) == -24 <==> status == WasmAbiStatus::TypeMismatch,
        status_code(status) == -25 <==> status == WasmAbiStatus::InvalidModification,
        status_code(status) == -26 <==> status == WasmAbiStatus::NotReadable,
        status_code(status) == -27 <==> status == WasmAbiStatus::Data,
        status_code(status) == -28 <==> status == WasmAbiStatus::Operation,
        status_code(status) == -29 <==> status == WasmAbiStatus::NotAllowed,
        status_code(status) == -30 <==> status == WasmAbiStatus::Encoding,
        status_code(status) == -31 <==> status == WasmAbiStatus::Constraint,
        status_code(status) == -40 <==> status == WasmAbiStatus::Type,
        status_code(status) == -41 <==> status == WasmAbiStatus::Range,
        status_code(status) == -42 <==> status == WasmAbiStatus::JsFailed,
        status_code(status) == -100 <==> status == WasmAbiStatus::NullHandle,
        status_code(status) == -101 <==> status == WasmAbiStatus::InvalidHandle,
        status_code(status) == -102 <==> status == WasmAbiStatus::StaleHandle,
        status_code(status) == -103 <==> status == WasmAbiStatus::WrongType,
        status_code(status) == -104 <==> status == WasmAbiStatus::OutOfBounds,
        status_code(status) == -105 <==> status == WasmAbiStatus::InvalidUtf8,
        status_code(status) == -106 <==> status == WasmAbiStatus::InvalidEnum,
        status_code(status) == -107 <==> status == WasmAbiStatus::TooManyHandles,
        status_code(status) == -108 <==> status == WasmAbiStatus::MemoryDetached,
        status_code(status) == -109 <==> status == WasmAbiStatus::Reentrancy,
        status_code(status) == -110 <==> status == WasmAbiStatus::NotEnabled,
        status_code(status) == -111 <==> status == WasmAbiStatus::InstanceTornDown,
        status_code(status) == -112 <==> status == WasmAbiStatus::InvalidScope,
{
}

/// Each error of the DOM is reported as the status that is named after it.
pub proof fn errors_are_reported_under_their_names(error: Error)
    ensures
        error_status(error) == WasmAbiStatus::IndexSize <==> error is IndexSize,
        error_status(error) == WasmAbiStatus::NotFound <==> error is NotFound,
        error_status(error) == WasmAbiStatus::HierarchyRequest <==> error is HierarchyRequest,
        error_status(error) == WasmAbiStatus::WrongDocument <==> error is WrongDocument,
        error_status(error) == WasmAbiStatus::InvalidCharacter <==> error is InvalidCharacter,
        error_status(error) == WasmAbiStatus::NotSupported <==> error is NotSupported,
        error_status(error) == WasmAbiStatus::InUseAttribute <==> error is InUseAttribute,
        error_status(error) == WasmAbiStatus::InvalidState <==> error is InvalidState,
        error_status(error) == WasmAbiStatus::Syntax <==> error is Syntax,
        error_status(error) == WasmAbiStatus::Namespace <==> error is Namespace,
        error_status(error) == WasmAbiStatus::InvalidAccess <==> error is InvalidAccess,
        error_status(error) == WasmAbiStatus::Security <==> error is Security,
        error_status(error) == WasmAbiStatus::Network <==> error is Network,
        error_status(error) == WasmAbiStatus::Abort <==> error is Abort,
        error_status(error) == WasmAbiStatus::Timeout <==> error is Timeout,
        error_status(error) == WasmAbiStatus::InvalidNodeType <==> error is InvalidNodeType,
        error_status(error) == WasmAbiStatus::DataClone <==> error is DataClone,
        error_status(error) == WasmAbiStatus::TransactionInactive <==> error is TransactionInactive,
        error_status(error) == WasmAbiStatus::ReadOnly <==> error is ReadOnly,
        error_status(error) == WasmAbiStatus::Version <==> error is Version,
        error_status(error) == WasmAbiStatus::NoModificationAllowed
            <==> error is NoModificationAllowed,
        error_status(error) == WasmAbiStatus::QuotaExceeded <==> error is QuotaExceeded,
        error_status(error) == WasmAbiStatus::TypeMismatch <==> error is TypeMismatch,
        error_status(error) == WasmAbiStatus::InvalidModification <==> error is InvalidModification,
        error_status(error) == WasmAbiStatus::NotReadable <==> error is NotReadable,
        error_status(error) == WasmAbiStatus::Data <==> error is Data,
        error_status(error) == WasmAbiStatus::Operation <==> error is Operation,
        error_status(error) == WasmAbiStatus::NotAllowed <==> error is NotAllowed,
        error_status(error) == WasmAbiStatus::Encoding <==> error is Encoding,
        error_status(error) == WasmAbiStatus::Constraint <==> error is Constraint,
        error_status(error) == WasmAbiStatus::Type <==> error is Type,
        error_status(error) == WasmAbiStatus::Range <==> error is Range,
        error_status(error) == WasmAbiStatus::JsFailed <==> error is JSFailed,
{
}

/// An error that carries a message is told with exactly that message.
pub proof fn errors_are_told_with_their_own_message(error: Error, message: String)
    ensures
        error == Error::IndexSize(Some(message)) ==> error_text(error) == message@,
        error == Error::NotFound(Some(message)) ==> error_text(error) == message@,
        error == Error::HierarchyRequest(Some(message)) ==> error_text(error) == message@,
        error == Error::WrongDocument(Some(message)) ==> error_text(error) == message@,
        error == Error::InvalidCharacter(Some(message)) ==> error_text(error) == message@,
        error == Error::NotSupported(Some(message)) ==> error_text(error) == message@,
        error == Error::InUseAttribute(Some(message)) ==> error_text(error) == message@,
        error == Error::InvalidState(Some(message)) ==> error_text(error) == message@,
        error == Error::Syntax(Some(message)) ==> error_text(error) == message@,
        error == Error::Namespace(Some(message)) ==> error_text(error) == message@,
        error == Error::InvalidAccess(Some(message)) ==> error_text(error) == message@,
        error == Error::Security(Some(message)) ==> error_text(error) == message@,
        error == Error::Network(Some(message)) ==> error_text(error) == message@,
        error == Error::Abort(Some(message)) ==> error_text(error) == message@,
        error == Error::Timeout(Some(message)) ==> error_text(error) == message@,
        error == Error::InvalidNodeType(Some(message)) ==> error_text(error) == message@,
        error == Error::DataClone(Some(message)) ==> error_text(error) == message@,
        error == Error::TransactionInactive(Some(message)) ==> error_text(error) == message@,
        error == Error::ReadOnly(Some(message)) ==> error_text(error) == message@,
        error == Error::Version(Some(message)) ==> error_text(error) == message@,
        error == Error::NoModificationAllowed(Some(message)) ==> error_text(error) == message@,
        error == Error::TypeMismatch(Some(message)) ==> error_text(error) == message@,
        error == Error::InvalidModification(Some(message)) ==> error_text(error) == message@,
        error == Error::NotReadable(Some(message)) ==> error_text(error) == message@,
        error == Error::Data(Some(message)) ==> error_text(error) == message@,
        error == Error::Operation(Some(message)) ==> error_text(error) == message@,
        error == Error::NotAllowed(Some(message)) ==> error_text(error) == message@,
        error == Error::Encoding(Some(message)) ==> error_text(error) == message@,
        error == Error::Constraint(Some(message)) ==> error_text(error) == message@,
        error matches Error::Type(bytes) ==> error_text(error) == utf8_lossy(bytes@),
        error matches Error::Range(bytes) ==> error_text(error) == utf8_lossy(bytes@),
{
}

/// An error that carries no message is told with the name of its exception.
pub proof fn errors_without_a_message_are_told_by_name(error: Error)
    ensures
        error == Error::IndexSize(None) ==> error_text(error) == "IndexSizeError"@,
        error == Error::NotFound(None) ==> error_text(error) == "NotFoundError"@,
        error == Error::HierarchyRequest(None) ==> error_text(error) == "HierarchyRequestError"@,
        error == Error::WrongDocument(None) ==> error_text(error) == "WrongDocumentError"@,
        error == Error::InvalidCharacter(None) ==> error_text(error) == "InvalidCharacterError"@,
        error == Error::NotSupported(None) ==> error_text(error) == "NotSupportedError"@,
        error == Error::InUseAttribute(None) ==> error_text(error) == "InUseAttributeError"@,
        error == Error::InvalidState(None) ==> error_text(error) == "InvalidStateError"@,
        error == Error::Syntax(None) ==> error_text(error) == "SyntaxError"@,
        error == Error::Namespace(None) ==> error_text(error) == "NamespaceError"@,
        error == Error::InvalidAccess(None) ==> error_text(error) == "InvalidAccessError"@,
        error == Error::Security(None) ==> error_text(error) == "SecurityError"@,
        error == Error::Network(None) ==> error_text(error) == "NetworkError"@,
        error == Error::Abort(None) ==> error_text(error) == "AbortError"@,
        error == Error::Timeout(None) ==> error_text(error) == "TimeoutError"@,
        error == Error::InvalidNodeType(None) ==> error_text(error) == "InvalidNodeTypeError"@,
        error == Error::DataClone(None) ==> error_text(error) == "DataCloneError"@,
        error == Error::TransactionInactive(None) ==> error_text(error)
            == "TransactionInactiveError"@,
        error == Error::ReadOnly(None) ==> error_text(error) == "ReadOnlyError"@,
        error == Error::Version(None) ==> error_text(error) == "VersionError"@,
        error == Error::NoModificationAllowed(None) ==> error_text(error)
            == "NoModificationAllowedError"@,
        error == Error::TypeMismatch(None) ==> error_text(error) == "TypeMismatchError"@,
        error == Error::InvalidModification(None) ==> error_text(error)
            == "InvalidModificationError"@,
        error == Error::NotReadable(None) ==> error_text(error) == "NotReadableError"@,
        error == Error::Data(None) ==> error_text(error) == "DataError"@,
        error == Error::Operation(None) ==> error_text(error) == "OperationError"@,
        error == Error::NotAllowed(None) ==> error_text(error) == "NotAllowedError"@,
        error == Error::Encoding(None) ==> error_text(error) == "EncodingError"@,
        error == Error::Constraint(None) ==> error_text(error) == "ConstraintError"@,
        error is QuotaExceeded ==> error_text(error) == "QuotaExceededError"@,
        error is JSFailed ==> error_text(error) == "a JavaScript exception is pending"@,
{
}

/// A handle has its slot index in the lower twenty bits and its generation in the eleven bits
/// above them.
pub proof fn a_handle_is_an_index_and_a_generation(index: u32, generation: u32)
    requires
        index < 0x10_0000,
        1 <= generation < 0x800,
    ensures
        packable(index as int, generation as int),
        packed(index as int, generation as int) == generation * 0x10_0000 + index,
        handle_index(packed(index as int, generation as int)) == index,
        handle_generation(packed(index as int, generation as int)) == generation,
{
    unpacking_undoes_packing(index as int, generation as int);
}

/// An integer is a handle that the host could have produced exactly if it is not negative as a
/// signed number and its generation is not zero.
pub proof fn a_handle_has_a_generation(handle: WasmHandle)
    ensures
        well_formed_handle(handle) <==> 0x10_0000 <= handle < 0x8000_0000,
{
}

/// A string is written exactly if it is no longer than the buffer, and kept otherwise; in both
/// cases its length is told. It is refused if the capacity is negative or the length cannot be
/// told.
pub proof fn a_string_is_written_if_the_buffer_has_room(byte_len: nat, out_cap: i32)
    ensures
        match string_write_plan(byte_len as int, out_cap as int) {
            Ok(StringWrite::Fits { len }) => len == byte_len && byte_len <= out_cap,
            Ok(StringWrite::Stash { len }) => len == byte_len && 0 <= out_cap < byte_len,
            Err(status) => status == WasmAbiStatus::OutOfBounds && (out_cap < 0 || byte_len
                > i32::MAX),
        },
{
}

/// A range lies in a memory exactly if each of its bytes does and it starts no later than where
/// the memory ends.
pub proof fn a_range_in_bounds_lies_in_the_memory(ptr: int, len: int, memory_len: int)
    requires
        0 <= memory_len,
    ensures
        in_bounds(ptr, len, memory_len) <==> 0 <= ptr <= memory_len && 0 <= len && forall|i: int|
            ptr <= i < ptr + len ==> #[trigger] lies_in(i, memory_len),
{
    if 0 <= ptr <= memory_len && 0 < len {
        if forall|i: int| ptr <= i < ptr + len ==> #[trigger] lies_in(i, memory_len) {
            assert(lies_in(ptr + len - 1, memory_len));
        }
    }
}

/// Whether there is a byte at a place of a memory.
pub open spec fn lies_in(place: int, memory_len: int) -> bool {
    0 <= place < memory_len
}

/// A failure of the ABI itself is told in words of its own; a status that belongs to an error of
/// the DOM and comes without one is told as a failed operation.
pub proof fn failures_of_the_abi_are_told_in_words(status: WasmAbiStatus)
    ensures
        abi_text(WasmAbiStatus::Type) == "the arguments could not be decoded"@,
        abi_text(WasmAbiStatus::NotSupported) == "the operation is not supported in this realm"@,
        abi_text(WasmAbiStatus::NullHandle) == "the handle is null"@,
        abi_text(WasmAbiStatus::InvalidHandle) == "the handle never existed"@,
        abi_text(WasmAbiStatus::StaleHandle) == "the object of the handle has been released"@,
        abi_text(WasmAbiStatus::WrongType) == "the object of the handle is of another interface"@,
        abi_text(WasmAbiStatus::OutOfBounds)
            == "the bytes lie outside the memory or do not fit the buffer"@,
        abi_text(WasmAbiStatus::InvalidUtf8) == "the string is not well-formed UTF-8"@,
        abi_text(WasmAbiStatus::InvalidEnum) == "the ordinal names no value"@,
        abi_text(WasmAbiStatus::TooManyHandles) == "the handle table is full"@,
        abi_text(WasmAbiStatus::MemoryDetached) == "the memory of the module cannot be reached"@,
        abi_text(WasmAbiStatus::Reentrancy) == "the calls are nested too deeply"@,
        abi_text(WasmAbiStatus::NotEnabled) == "the member is disabled"@,
        abi_text(WasmAbiStatus::InstanceTornDown) == "the instance has been torn down"@,
        abi_text(WasmAbiStatus::InvalidScope)
            == "the token does not name the innermost open scope"@,
        -100 < status_code(status) && status != WasmAbiStatus::Type && status
            != WasmAbiStatus::NotSupported ==> abi_text(status) == "the operation failed"@,
{
}

} // verus!
