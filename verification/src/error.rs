//! The error type of the service and what other errors become in it.

use vstd::prelude::*;
use vstd::std_specs::convert::FromSpecImpl;
use crate::pb::{CommandResponse, CommandResponseView, Value, STATUS_BAD_REQUEST, STATUS_INTERNAL, STATUS_NOT_FOUND};

verus! {

#[verifier::external_type_specification]
#[verifier::external_body]
pub struct ExEncodeError(prost::EncodeError);

#[verifier::external_type_specification]
#[verifier::external_body]
pub struct ExDecodeError(prost::DecodeError);

#[verifier::external_type_specification]
#[verifier::external_body]
pub struct ExSledError(sled::Error);

#[verifier::external_type_specification]
#[verifier::external_body]
pub struct ExIoError(std::io::Error);

#[verifier::external_type_specification]
#[verifier::external_body]
pub struct ExFmtError(std::fmt::Error);

/// Everything that can go wrong in the service.
#[derive(Debug, PartialEq)]
pub enum KvError {
    /// No entry under this table and key.
    NotFound(String, String),
    /// The request carries no command, or one that cannot be understood.
    InvalidCommand(String),
    /// The value cannot be read as the named type.
    ConvertError(Value, &'static str),
    /// The backend failed: operation, table, key and cause.
    StorageError(&'static str, String, String, String),
    /// A message could not be serialized.
    EncodeError(prost::EncodeError),
    /// A payload is not a serialized message.
    DecodeError(prost::DecodeError),
    /// A frame is too large, or a buffer ends before the frame it announces.
    FrameError,
    /// TLS material could not be parsed: what it was for, and which kind it is.
    CertificateParseError(&'static str, &'static str),
    /// The transport or the compressor failed.
    IoError(String),
    /// Anything else.
    Internal(String),
}

/// The variants of the embedded engine's error.
pub enum SledErrorKind {
    CollectionNotFound,
    Unsupported,
    ReportableBug,
    Io,
    Corruption,
}

/// Which variant an error of the embedded engine is.
pub uninterp spec fn sled_error_kind(e: sled::Error) -> SledErrorKind;

/// Tells the variants of `sled::Error` apart: the result names the variant of `e`.
#[verifier::external_body]
fn classify_sled_error(e: &sled::Error) -> (kind: SledErrorKind)
    ensures
        kind == sled_error_kind(*e),
{
    match e {
        sled::Error::CollectionNotFound(_) => SledErrorKind::CollectionNotFound,
        sled::Error::Unsupported(_) => SledErrorKind::Unsupported,
        sled::Error::ReportableBug(_) => SledErrorKind::ReportableBug,
        sled::Error::Io(_) => SledErrorKind::Io,
        sled::Error::Corruption { .. } => SledErrorKind::Corruption,
    }
}

/// `std::io::Error`'s `to_string`: the text that the error shows. What it is depends on the
/// machine.
#[verifier::external_body]
fn describe_io_error(e: &std::io::Error) -> String {
    e.to_string()
}

impl KvError {
    /// The text that describes the error.
    pub open spec fn message(&self) -> Seq<char> {
        match *self {
            KvError::NotFound(table, key) => "Not found for table: "@ + table@ + ",key: "@ + key@,
            KvError::InvalidCommand(desc) => "Cannot parse command: `"@ + desc@ + "`"@,
            KvError::ConvertError(_, target) => "Cannot convert value to "@ + target@,
            KvError::StorageError(op, table, key, cause) => "Cannot process command "@ + op@ + " with table: "@
                + table@ + ", key: "@ + key@ + ". Error: "@ + cause@,
            KvError::EncodeError(_) => "Failed to encode protobuf message"@,
            KvError::DecodeError(_) => "Failed to decode protobuf message"@,
            KvError::FrameError => "Frame is larger than max size"@,
            KvError::CertificateParseError(what, kind) => "Failed to parse certificate: "@ + what@ + " "@ + kind@,
            KvError::IoError(cause) => "I/O error: "@ + cause@,
            KvError::Internal(desc) => "Internal error: "@ + desc@,
        }
    }

    /// The status a response to a failed request carries: 404 for a missing entry, 400 for an
    /// invalid command, 500 for everything else.
    pub open spec fn status(&self) -> u32 {
        match *self {
            KvError::NotFound(_, _) => 404,
            KvError::InvalidCommand(_) => 400,
            _ => 500,
        }
    }

    /// The error that an I/O failure becomes: an `IoError` that holds the text which the
    /// failure shows.
    pub fn io(e: std::io::Error) -> (err: KvError)
        ensures
            err is IoError,
    {
        KvError::IoError(describe_io_error(&e))
    }

    /// Whether the error is what a failure of the embedded engine of that kind becomes: a
    /// missing collection is a missing entry, an unsupported use is an invalid command, and
    /// every other failure is an internal error.
    pub open spec fn is_for(&self, kind: SledErrorKind) -> bool {
        match kind {
            SledErrorKind::CollectionNotFound => *self matches KvError::NotFound(table, key) && table@
                == "can not find table"@ && key@ == "can not find key"@,
            SledErrorKind::Unsupported => *self matches KvError::InvalidCommand(desc) && desc@ == "Invalid Command"@,
            _ => *self matches KvError::Internal(desc) && desc@ == "Internal error"@,
        }
    }

    /// The error that a failure of the embedded engine becomes.
    pub fn storage(e: sled::Error) -> (err: KvError)
        ensures
            err.is_for(sled_error_kind(e)),
    {
        match classify_sled_error(&e) {
            SledErrorKind::CollectionNotFound => KvError::NotFound(
                String::from_str("can not find table"),
                String::from_str("can not find key"),
            ),
            SledErrorKind::Unsupported => KvError::InvalidCommand(String::from_str("Invalid Command")),
            _ => KvError::Internal(String::from_str("Internal error")),
        }
    }

    /// The response that reports the error: its status and its text, no values and no pairs.
    pub fn into_response(self) -> (res: CommandResponse)
        ensures
            res@ == CommandResponseView::failure(self.status(), self.message()),
    {
        let status = match self {
            KvError::NotFound(_, _) => STATUS_NOT_FOUND,
            KvError::InvalidCommand(_) => STATUS_BAD_REQUEST,
            _ => STATUS_INTERNAL,
        };
        let res = CommandResponse { status, message: self.to_string(), values: Vec::new(), pairs: Vec::new() };
        assert(res@.values =~= Seq::empty());
        assert(res@.pairs =~= Seq::empty());
        res
    }

    /// Renders the error as text.
    pub fn to_string(&self) -> (text: String)
        ensures
            text@ == self.message(),
    {
        match self {
            KvError::NotFound(table, key) => {
                let mut text = String::from_str("Not found for table: ");
                text.append(table.as_str());
                text.append(",key: ");
                text.append(key.as_str());
                text
            },
            KvError::InvalidCommand(desc) => {
                let mut text = String::from_str("Cannot parse command: `");
                text.append(desc.as_str());
                text.append("`");
                text
            },
            KvError::ConvertError(_, target) => {
                let mut text = String::from_str("Cannot convert value to ");
                text.append(target);
                text
            },
            KvError::StorageError(op, table, key, cause) => {
                let mut text = String::from_str("Cannot process command ");
                text.append(op);
                text.append(" with table: ");
                text.append(table.as_str());
                text.append(", key: ");
                text.append(key.as_str());
                text.append(". Error: ");
                text.append(cause.as_str());
                text
            },
            KvError::EncodeError(_) => String::from_str("Failed to encode protobuf message"),
            KvError::DecodeError(_) => String::from_str("Failed to decode protobuf message"),
            KvError::FrameError => String::from_str("Frame is larger than max size"),
            KvError::CertificateParseError(what, kind) => {
                let mut text = String::from_str("Failed to parse certificate: ");
                text.append(what);
                text.append(" ");
                text.append(kind);
                text
            },
            KvError::IoError(cause) => {
                let mut text = String::from_str("I/O error: ");
                text.append(cause.as_str());
                text
            },
            KvError::Internal(desc) => {
                let mut text = String::from_str("Internal error: ");
                text.append(desc.as_str());
                text
            },
        }
    }
}

impl FromSpecImpl<prost::EncodeError> for KvError {
    open spec fn obeys_from_spec() -> bool {
        true
    }

    open spec fn from_spec(e: prost::EncodeError) -> KvError {
        KvError::EncodeError(e)
    }
}

impl From<prost::EncodeError> for KvError {
    fn from(e: prost::EncodeError) -> (err: KvError) {
        KvError::EncodeError(e)
    }
}

impl FromSpecImpl<prost::DecodeError> for KvError {
    open spec fn obeys_from_spec() -> bool {
        true
    }

    open spec fn from_spec(e: prost::DecodeError) -> KvError {
        KvError::DecodeError(e)
    }
}

impl From<prost::DecodeError> for KvError {
    fn from(e: prost::DecodeError) -> (err: KvError) {
        KvError::DecodeError(e)
    }
}

impl FromSpecImpl<std::fmt::Error> for KvError {
    open spec fn obeys_from_spec() -> bool {
        false
    }

    open spec fn from_spec(e: std::fmt::Error) -> KvError {
        KvError::FrameError
    }
}

impl From<std::fmt::Error> for KvError {
    /// A formatting failure counts as an invalid command.
    fn from(e: std::fmt::Error) -> (err: KvError)
        ensures
            err matches KvError::InvalidCommand(desc) && desc@ == "Invalid Command"@,
    {
        KvError::InvalidCommand(String::from_str("Invalid Command"))
    }
}

impl FromSpecImpl<std::io::Error> for KvError {
    open spec fn obeys_from_spec() -> bool {
        false
    }

    open spec fn from_spec(e: std::io::Error) -> KvError {
        KvError::FrameError
    }
}

impl From<std::io::Error> for KvError {
    /// An I/O failure becomes an `IoError` that holds the text which the failure shows.
    fn from(e: std::io::Error) -> (err: KvError)
        ensures
            err is IoError,
    {
        KvError::io(e)
    }
}

impl FromSpecImpl<sled::Error> for KvError {
    open spec fn obeys_from_spec() -> bool {
        false
    }

    open spec fn from_spec(e: sled::Error) -> KvError {
        KvError::FrameError
    }
}

impl From<sled::Error> for KvError {
    /// A missing collection is a missing entry, an unsupported use is an invalid command, and
    /// every other failure of the engine is an internal error.
    fn from(e: sled::Error) -> (err: KvError)
        ensures
            err.is_for(sled_error_kind(e)),
    {
        KvError::storage(e)
    }
}

impl FromSpecImpl<KvError> for CommandResponse {
    open spec fn obeys_from_spec() -> bool {
        false
    }

    open spec fn from_spec(e: KvError) -> CommandResponse {
        arbitrary()
    }
}

impl From<KvError> for CommandResponse {
    /// The response that reports the error: its status and its text, no values and no pairs.
    fn from(e: KvError) -> (res: CommandResponse)
        ensures
            res@ == CommandResponseView::failure(e.status(), e.message()),
    {
        e.into_response()
    }
}

} // verus!
