//! Everything that can go wrong while a device is being flashed.

use crate::config::{FlashStep, FlashStepView};
use vstd::prelude::*;

verus! {

/// Why a USB transfer failed, as the bus layer reported it.
#[derive(Debug, Clone, Copy, PartialEq, Eq, Structural)]
pub enum UsbFailure {
    Io,
    InvalidParam,
    Access,
    NoDevice,
    NotFound,
    Busy,
    Timeout,
    Overflow,
    Pipe,
    Interrupted,
    NoMem,
    NotSupported,
    BadDescriptor,
    Other,
}

/// Error kinds of the flashing process.
#[derive(Debug)]
pub enum Error {
    /// Error from the USB subsystem.
    UsbError(UsbFailure),
    /// I/O related error, with its description.
    IoError(String),
    /// A slice did not have the length that a conversion needs.
    Bytes,
    /// An operation is invalid in the current context.
    InvalidOperation(String),
    /// A reply of the device was not UTF-8.
    Utf8Error,
    /// The device, or an input file, was not found.
    NotFound,
    /// The device is booted into its product firmware.
    WrongMode,
    /// A bulk command failed.
    BulkCmdFailed(String),
    /// The descriptor has a format version that is not supported.
    UnsupportedVersion(usize),
    /// The descriptor holds a step that is not supported.
    UnsupportedFeature(FlashStep),
    /// The descriptor is not the JSON document that is expected.
    Json(String),
    /// A path that should be a directory is none.
    NotDir(String),
    /// The descriptor file is missing at this path.
    NoMeta(String),
    /// A file that the descriptor refers to is missing.
    FileMissing(String),
    /// The archive could not be read.
    Zip(String),
}

/// What an [`Error`] holds.
pub enum ErrorView {
    UsbError(UsbFailure),
    IoError(Seq<char>),
    Bytes,
    InvalidOperation(Seq<char>),
    Utf8Error,
    NotFound,
    WrongMode,
    BulkCmdFailed(Seq<char>),
    UnsupportedVersion(usize),
    UnsupportedFeature(FlashStepView),
    Json(Seq<char>),
    NotDir(Seq<char>),
    NoMeta(Seq<char>),
    FileMissing(Seq<char>),
    Zip(Seq<char>),
}

impl View for Error {
    type V = ErrorView;

    open spec fn view(&self) -> ErrorView {
        match self {
            Error::UsbError(f) => ErrorView::UsbError(*f),
            Error::IoError(m) => ErrorView::IoError(m@),
            Error::Bytes => ErrorView::Bytes,
            Error::InvalidOperation(m) => ErrorView::InvalidOperation(m@),
            Error::Utf8Error => ErrorView::Utf8Error,
            Error::NotFound => ErrorView::NotFound,
            Error::WrongMode => ErrorView::WrongMode,
            Error::BulkCmdFailed(m) => ErrorView::BulkCmdFailed(m@),
            Error::UnsupportedVersion(v) => ErrorView::UnsupportedVersion(*v),
            Error::UnsupportedFeature(s) => ErrorView::UnsupportedFeature(s@),
            Error::Json(m) => ErrorView::Json(m@),
            Error::NotDir(p) => ErrorView::NotDir(p@),
            Error::NoMeta(p) => ErrorView::NoMeta(p@),
            Error::FileMissing(p) => ErrorView::FileMissing(p@),
            Error::Zip(m) => ErrorView::Zip(m@),
        }
    }
}

/// An [`Error::InvalidOperation`] with the given message.
pub fn invalid_operation(message: &str) -> (e: Error)
    ensures
        e@ == ErrorView::InvalidOperation(message@),
{
    Error::InvalidOperation(message.to_owned())
}

/// An [`Error::Json`] with the given message.
pub fn malformed(message: &str) -> (e: Error)
    ensures
        e@ == ErrorView::Json(message@),
{
    Error::Json(message.to_owned())
}

/// The view of a result that carries nothing on success.
pub open spec fn outcome_view(result: Result<(), Error>) -> Result<(), ErrorView> {
    match result {
        Ok(_) => Ok(()),
        Err(e) => Err(e@),
    }
}

} // verus!
