//! The errors that an export can end in.

use vstd::prelude::*;
use vstd::std_specs::cmp::PartialEqSpecImpl;
use vstd::std_specs::convert::FromSpecImpl;

verus! {

/// The class of a transport failure.
#[derive(Clone, Copy, Debug, PartialEq, Eq, Structural)]
pub enum IoErrorKind {
    /// The data ended before a complete value was read.
    UnexpectedEof,
    /// The data does not have the shape that the format prescribes.
    InvalidData,
    /// Any other failure of the channel.
    Other,
}

/// A transport failure as plain data: its class and its text.
#[derive(Debug)]
pub struct IoError {
    kind: IoErrorKind,
    message: String,
}

impl IoError {
    /// A failure of class `kind` that reads `message`.
    pub fn new(kind: IoErrorKind, message: &str) -> (error: IoError)
        ensures
            error.kind() == kind,
            error.message() == message@,
    {
        IoError { kind, message: message.to_owned() }
    }

    /// The class of the failure.
    #[verifier::when_used_as_spec(spec_kind)]
    pub fn kind(&self) -> (kind: IoErrorKind)
        ensures
            kind == self.spec_kind(),
    {
        self.kind
    }

    pub closed spec fn spec_kind(&self) -> IoErrorKind {
        self.kind
    }

    /// The text of the failure.
    pub closed spec fn message(&self) -> Seq<char> {
        self.message@
    }

    /// The failure as text: its message, without its class.
    pub fn to_string(&self) -> (text: String)
        ensures
            text@ == self.message(),
    {
        self.message.clone()
    }
}

/// `tokio_postgres::Error`: what the driver reports when a request fails.
#[verifier::external_type_specification]
#[verifier::external_body]
pub struct ExDriverError(tokio_postgres::Error);

/// The text that the driver's report of a failure reads as.
pub uninterp spec fn report(error: tokio_postgres::Error) -> Seq<char>;

/// `ToString::to_string` on `tokio_postgres::Error`: the report as text.
#[verifier::external_body]
pub(crate) fn driver_text(error: &tokio_postgres::Error) -> (text: String)
    ensures
        text@ == report(*error),
{
    error.to_string()
}

/// What a `PostgresError` stands for.
pub enum ErrorView {
    /// The channel failed: the class and the text of the failure.
    Io(IoErrorKind, Seq<char>),
    /// The database reported a failure: its text.
    Postgres(Seq<char>),
}

impl ErrorView {
    /// The text that the error renders as.
    pub open spec fn text(self) -> Seq<char> {
        match self {
            ErrorView::Io(_, message) => message,
            ErrorView::Postgres(message) => message,
        }
    }
}

/// Why an export failed: the channel broke, or the database refused.
#[derive(Debug)]
pub enum PostgresError {
    /// The channel closed, or delivered data that is truncated or malformed.
    Io(IoError),
    /// The database reported a failure, kept as the text it was reported with.
    Postgres(String),
}

impl View for PostgresError {
    type V = ErrorView;

    open spec fn view(&self) -> ErrorView {
        match self {
            PostgresError::Io(error) => ErrorView::Io(error.spec_kind(), error.message()),
            PostgresError::Postgres(message) => ErrorView::Postgres(message@),
        }
    }
}

impl PostgresError {
    /// The error as text: the message of the failure, whichever side reported it.
    pub fn to_string(&self) -> (text: String)
        ensures
            text@ == self@.text(),
    {
        match self {
            PostgresError::Io(error) => error.to_string(),
            PostgresError::Postgres(message) => message.clone(),
        }
    }
}

impl PartialEq for PostgresError {
    /// Two errors are equal when they come from the same side and read the
    /// same; the class of a transport failure is not compared.
    fn eq(&self, other: &PostgresError) -> (equal: bool) {
        match (self, other) {
            (PostgresError::Io(a), PostgresError::Io(b)) => {
                let left = a.to_string();
                let right = b.to_string();
                left == right
            },
            (PostgresError::Postgres(a), PostgresError::Postgres(b)) => *a == *b,
            _ => false,
        }
    }
}

impl PartialEqSpecImpl for PostgresError {
    open spec fn obeys_eq_spec() -> bool {
        true
    }

    open spec fn eq_spec(&self, other: &PostgresError) -> bool {
        (self@ is Io <==> other@ is Io) && self@.text() == other@.text()
    }
}

impl From<IoError> for PostgresError {
    fn from(error: IoError) -> (converted: PostgresError) {
        PostgresError::Io(error)
    }
}

impl FromSpecImpl<IoError> for PostgresError {
    open spec fn obeys_from_spec() -> bool {
        true
    }

    open spec fn from_spec(error: IoError) -> PostgresError {
        PostgresError::Io(error)
    }
}

impl From<tokio_postgres::Error> for PostgresError {
    /// Keeps the text of the driver's report and drops the rest of it.
    fn from(error: tokio_postgres::Error) -> (converted: PostgresError)
        ensures
            converted@ == ErrorView::Postgres(report(error)),
    {
        PostgresError::Postgres(driver_text(&error))
    }
}

impl FromSpecImpl<tokio_postgres::Error> for PostgresError {
    open spec fn obeys_from_spec() -> bool {
        false
    }

    open spec fn from_spec(error: tokio_postgres::Error) -> PostgresError {
        arbitrary()
    }
}

} // verus!
