use vstd::prelude::*;

verus! {

/// What went wrong inside the underlying byte source, by the kinds that
/// `std::io::ErrorKind` distinguishes.
#[derive(Debug, Clone, Copy, PartialEq, Eq, Structural)]
pub enum IoErrorKind {
    NotFound,
    PermissionDenied,
    ConnectionRefused,
    ConnectionReset,
    ConnectionAborted,
    NotConnected,
    AddrInUse,
    AddrNotAvailable,
    BrokenPipe,
    AlreadyExists,
    WouldBlock,
    InvalidInput,
    InvalidData,
    TimedOut,
    WriteZero,
    Interrupted,
    Unsupported,
    /// The source ended before the requested number of bytes.
    UnexpectedEof,
    OutOfMemory,
    /// Any other failure reported by the source.
    Other,
}

/// A failure of the byte source: its kind, and the source's own account of
/// it where the source gives one.
#[derive(Debug, Clone, PartialEq, Eq)]
pub struct IoError {
    pub kind: IoErrorKind,
    pub detail: Option<String>,
}

/// The failure of a source that ran out of bytes, with nothing more to say.
pub open spec fn unexpected_eof() -> IoError {
    IoError { kind: IoErrorKind::UnexpectedEof, detail: None }
}

/// Where and how a byte string failed to be UTF-8, as `std::str::Utf8Error`
/// reports it.
#[derive(Debug, Clone, Copy, PartialEq, Eq, Structural)]
pub struct Utf8Error {
    /// The length of the longest prefix that is well-formed UTF-8.
    pub valid_up_to: usize,
    /// `None` where the input ends inside a character; otherwise the length
    /// of the ill-formed sequence that starts at `valid_up_to`.
    pub error_len: Option<usize>,
}

/// The kinds of error that decoding can produce.
#[derive(Debug, PartialEq, Eq)]
pub enum ErrorKind {
    /// The byte source failed.
    Io(IoError),
    /// A byte string that should hold UTF-8 did not.
    InvalidUtf8Encoding(Utf8Error),
    /// A borrowed or forwarded string was not UTF-8.
    InvalidEncoding { desc: &'static str, detail: Option<String> },
    /// A `bool` was encoded by a byte other than 0 or 1.
    InvalidBoolEncoding(u8),
    /// A `char` was not a single well-formed UTF-8 scalar.
    InvalidCharEncoding,
    /// An `Option` tag was neither 0 nor 1.
    InvalidTagEncoding(usize),
    /// The format is not self-describing.
    DeserializeAnyNotSupported,
    /// Reading would exceed the configured size limit.
    SizeLimit,
    /// Sequences must carry their length.
    SequenceMustHaveLength,
    /// A message from elsewhere.
    Custom(String),
}

/// The error type of every fallible operation of the library.
pub type Error = Box<ErrorKind>;

/// Results of the library.
pub type Result<T> = core::result::Result<T, Error>;

} // verus!
