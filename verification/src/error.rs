//! The failures an extraction session can report.

use vstd::prelude::*;

verus! {

/// The kinds of failure.
#[derive(Clone, Copy, Debug, PartialEq, Eq, Structural)]
pub enum ErrorKind {
    /// The container's signature is wrong, or its layout is no known firmware kind.
    InvalidData,
    /// A file that another file depends on is absent.
    NotFound,
    /// A decoder rejected its input.
    Decode,
    /// The firmware kind is recognised but has no extraction logic.
    NotImplemented,
}

/// A failure: its kind and a message for the user.
#[derive(Clone, Debug)]
pub struct ExtractError {
    pub kind: ErrorKind,
    pub message: String,
}

/// A failure as a mathematical value.
pub struct ErrorView {
    pub kind: ErrorKind,
    pub message: Seq<char>,
}

impl View for ExtractError {
    type V = ErrorView;

    open spec fn view(&self) -> ErrorView {
        ErrorView { kind: self.kind, message: self.message@ }
    }
}

/// What is reported for a container that does not start with the ZIP signature.
pub open spec fn invalid_archive() -> ErrorView {
    ErrorView { kind: ErrorKind::InvalidData, message: "Input is not a valid ZIP file."@ }
}

/// What is reported for a container whose members match no firmware kind.
pub open spec fn unsupported_firmware() -> ErrorView {
    ErrorView { kind: ErrorKind::InvalidData, message: "Unsupported firmware file"@ }
}

/// What is reported when the sparse data of `partition` has no transfer list.
pub open spec fn missing_transfer_list(partition: Seq<char>) -> ErrorView {
    ErrorView {
        kind: ErrorKind::NotFound,
        message: "Could not find transfer list file for "@ + partition + ".new.dat"@,
    }
}

/// What is reported when the archive holds no member at `path`.
pub open spec fn missing_member(path: Seq<char>) -> ErrorView {
    ErrorView {
        kind: ErrorKind::NotFound,
        message: "path "@ + path + " doesn't exist inside archive"@,
    }
}

/// What is reported by a firmware kind without extraction logic.
pub open spec fn not_implemented() -> ErrorView {
    ErrorView { kind: ErrorKind::NotImplemented, message: "Not implemented"@ }
}

/// What is reported when a compressed stream cannot be decoded.
pub open spec fn invalid_stream() -> ErrorView {
    ErrorView { kind: ErrorKind::Decode, message: "Invalid Data"@ }
}

impl ExtractError {
    /// The failure for a container that does not start with the ZIP signature.
    pub fn invalid_archive() -> (e: ExtractError)
        ensures
            e@ == invalid_archive(),
    {
        ExtractError {
            kind: ErrorKind::InvalidData,
            message: "Input is not a valid ZIP file.".to_owned(),
        }
    }

    /// The failure for a container whose members match no firmware kind.
    pub fn unsupported_firmware() -> (e: ExtractError)
        ensures
            e@ == unsupported_firmware(),
    {
        ExtractError {
            kind: ErrorKind::InvalidData,
            message: "Unsupported firmware file".to_owned(),
        }
    }

    /// The failure for sparse data of `partition` that has no transfer list.
    pub fn missing_transfer_list(partition: &str) -> (e: ExtractError)
        ensures
            e@ == missing_transfer_list(partition@),
    {
        let mut message = "Could not find transfer list file for ".to_owned();
        message.append(partition);
        message.append(".new.dat");
        ExtractError { kind: ErrorKind::NotFound, message }
    }

    /// The failure for an archive that holds no member at `path`.
    pub fn missing_member(path: &str) -> (e: ExtractError)
        ensures
            e@ == missing_member(path@),
    {
        let mut message = "path ".to_owned();
        message.append(path);
        message.append(" doesn't exist inside archive");
        ExtractError { kind: ErrorKind::NotFound, message }
    }

    /// The failure of a firmware kind without extraction logic.
    pub fn not_implemented() -> (e: ExtractError)
        ensures
            e@ == not_implemented(),
    {
        ExtractError { kind: ErrorKind::NotImplemented, message: "Not implemented".to_owned() }
    }

    /// The failure for a compressed stream that cannot be decoded.
    pub fn invalid_stream() -> (e: ExtractError)
        ensures
            e@ == invalid_stream(),
    {
        ExtractError { kind: ErrorKind::Decode, message: "Invalid Data".to_owned() }
    }

    /// The message, as text of its own.
    pub fn describe(&self) -> (text: String)
        ensures
            text@ == self.message@,
    {
        self.message.clone()
    }
}

} // verus!
