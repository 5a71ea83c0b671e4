//! What can go wrong, and how it is told.

use vstd::prelude::*;

use crate::clock::Duration;
use crate::text::{decimal, hex, lossy_text, push_decimal, push_hex, to_lossy_text, views};

verus! {

pub const USB_VENDOR_ID: u16 = 0x054c;

pub const USB_PRODUCT_ID: u16 = 0x0ec2;

/// The kinds of input/output failure that are told apart.
#[derive(Clone, Copy, Debug, PartialEq, Eq, Structural)]
pub enum IoErrorKind {
    Interrupted,
    WouldBlock,
    WriteZero,
    UnexpectedEof,
    NotFound,
    PermissionDenied,
    BrokenPipe,
    Other,
}

/// A failed input/output operation: its kind and the words of the system.
#[derive(Debug)]
pub struct IoError {
    pub kind: IoErrorKind,
    pub message: String,
}

/// The contents of an [`IoError`].
pub struct IoErrorView {
    pub kind: IoErrorKind,
    pub message: Seq<char>,
}

impl View for IoError {
    type V = IoErrorView;

    open spec fn view(&self) -> IoErrorView {
        IoErrorView { kind: self.kind, message: self.message@ }
    }
}

impl Clone for IoError {
    fn clone(&self) -> (copy: Self)
        ensures
            copy@ == self@,
    {
        IoError { kind: self.kind, message: self.message.clone() }
    }
}

impl IoError {
    /// A failure of the given kind, told in the given words.
    pub fn new(kind: IoErrorKind, message: &str) -> (error: Self)
        ensures
            error@ == (IoErrorView { kind, message: message@ }),
    {
        IoError { kind, message: message.to_owned() }
    }

    /// The words of the system.
    pub fn to_string(&self) -> (text: String)
        ensures
            text@ == self@.message,
    {
        self.message.clone()
    }
}

/// Why no battery reading could be had. A path is a string of bytes, as the system has it.
#[derive(Debug)]
pub enum Error {
    DeviceNotFound,
    AmbiguousDevices(Vec<Vec<u8>>),
    DeviceMismatch(Vec<u8>),
    Io { operation: &'static str, source: IoError },
    Timeout(Duration),
    InvalidResponse(String),
}

/// The contents of an [`Error`].
pub enum ErrorView {
    DeviceNotFound,
    AmbiguousDevices(Seq<Seq<u8>>),
    DeviceMismatch(Seq<u8>),
    Io { operation: Seq<char>, source: IoErrorView },
    Timeout(Duration),
    InvalidResponse(Seq<char>),
}

impl View for Error {
    type V = ErrorView;

    open spec fn view(&self) -> ErrorView {
        match self {
            Error::DeviceNotFound => ErrorView::DeviceNotFound,
            Error::AmbiguousDevices(paths) => ErrorView::AmbiguousDevices(views(paths@)),
            Error::DeviceMismatch(path) => ErrorView::DeviceMismatch(path@),
            Error::Io { operation, source } => ErrorView::Io {
                operation: operation@,
                source: source@,
            },
            Error::Timeout(duration) => ErrorView::Timeout(*duration),
            Error::InvalidResponse(reason) => ErrorView::InvalidResponse(reason@),
        }
    }
}

/// The paths as text, with a comma and a space between two of them.
pub open spec fn joined_paths(paths: Seq<Seq<u8>>) -> Seq<char>
    decreases paths.len(),
{
    if paths.len() == 0 {
        seq![]
    } else if paths.len() == 1 {
        lossy_text(paths[0])
    } else {
        joined_paths(paths.drop_last()) + ", "@ + lossy_text(paths.last())
    }
}

impl ErrorView {
    /// The error in words.
    pub open spec fn text(self) -> Seq<char> {
        match self {
            ErrorView::DeviceNotFound => "Sony INZONE Buds receiver "@ + hex(
                USB_VENDOR_ID as nat,
                4,
            ) + ":"@ + hex(USB_PRODUCT_ID as nat, 4) + " was not found"@,
            ErrorView::AmbiguousDevices(paths) =>
                "multiple matching INZONE battery interfaces found: "@ + joined_paths(paths),
            ErrorView::DeviceMismatch(path) =>
                "refusing to send a Sony HID request to unverified device "@ + lossy_text(path),
            ErrorView::Io { operation, source } => operation + ": "@ + source.message,
            ErrorView::Timeout(duration) => "no battery response within "@ + decimal(
                (duration.nanos as int / crate::clock::NANOS_PER_SECOND as int) as nat,
            ) + " seconds"@,
            ErrorView::InvalidResponse(reason) => "invalid battery response: "@ + reason,
        }
    }
}

fn push_paths(out: &mut String, paths: &Vec<Vec<u8>>)
    ensures
        final(out)@ == old(out)@ + joined_paths(views(paths@)),
{
    let ghost start = out@;
    for i in 0..paths.len()
        invariant
            out@ == start + joined_paths(views(paths@).take(i as int)),
    {
        proof {
            assert(views(paths@).take(i + 1).drop_last() =~= views(paths@).take(i as int));
        }
        if i > 0 {
            out.append(", ");
        }
        out.append(to_lossy_text(paths[i].as_slice()).as_str());
    }
    assert(views(paths@).take(paths@.len() as int) =~= views(paths@));
}

impl Error {
    /// The error in words.
    pub fn to_string(&self) -> (text: String)
        ensures
            text@ == self@.text(),
    {
        let mut out = String::new();
        match self {
            Error::DeviceNotFound => {
                out.append("Sony INZONE Buds receiver ");
                push_hex(&mut out, USB_VENDOR_ID as u32, 4);
                out.append(":");
                push_hex(&mut out, USB_PRODUCT_ID as u32, 4);
                out.append(" was not found");
            },
            Error::AmbiguousDevices(paths) => {
                out.append("multiple matching INZONE battery interfaces found: ");
                push_paths(&mut out, paths);
            },
            Error::DeviceMismatch(path) => {
                out.append("refusing to send a Sony HID request to unverified device ");
                out.append(to_lossy_text(path.as_slice()).as_str());
            },
            Error::Io { operation, source } => {
                out.append(operation);
                out.append(": ");
                out.append(source.message.as_str());
            },
            Error::Timeout(duration) => {
                out.append("no battery response within ");
                push_decimal(&mut out, duration.as_secs());
                out.append(" seconds");
            },
            Error::InvalidResponse(reason) => {
                out.append("invalid battery response: ");
                out.append(reason.as_str());
            },
        }
        out
    }

    /// The failure of the system behind the error, where there is one.
    pub fn source(&self) -> (source: Option<&IoError>)
        ensures
            match self {
                Error::Io { operation: _, source: inner } => source == Some(inner),
                _ => source is None,
            },
    {
        match self {
            Error::Io { source, .. } => Some(source),
            _ => None,
        }
    }
}

/// The error for a failed operation.
pub fn io_error(operation: &'static str, source: IoError) -> (error: Error)
    ensures
        error@ == (ErrorView::Io { operation: operation@, source: source@ }),
{
    Error::Io { operation, source }
}

} // verus!
