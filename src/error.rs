use vstd::prelude::*;

verus! {

/// The errors that the core reports; each carries the name or message it is about.
pub enum Error {
    UnknownIndex(String),
    UnknownField(String),
    FieldNotIndexed(String),
    QueryError(String),
    IOError(String),
    AlreadyExists(String),
    Internal(String),
}

/// The mathematical form of an [`Error`].
pub enum ErrorView {
    UnknownIndex(Seq<char>),
    UnknownField(Seq<char>),
    FieldNotIndexed(Seq<char>),
    QueryError(Seq<char>),
    IOError(Seq<char>),
    AlreadyExists(Seq<char>),
    Internal(Seq<char>),
}

impl View for Error {
    type V = ErrorView;

    open spec fn view(&self) -> ErrorView {
        match self {
            Error::UnknownIndex(s) => ErrorView::UnknownIndex(s@),
            Error::UnknownField(s) => ErrorView::UnknownField(s@),
            Error::FieldNotIndexed(s) => ErrorView::FieldNotIndexed(s@),
            Error::QueryError(s) => ErrorView::QueryError(s@),
            Error::IOError(s) => ErrorView::IOError(s@),
            Error::AlreadyExists(s) => ErrorView::AlreadyExists(s@),
            Error::Internal(s) => ErrorView::Internal(s@),
        }
    }
}

/// The text that the error envelope `{ "message": ... }` carries for `e`.
pub open spec fn message_of(e: ErrorView) -> Seq<char> {
    match e {
        ErrorView::UnknownIndex(n) => "Unknown index: "@ + n,
        ErrorView::UnknownField(f) => "Unknown field: "@ + f,
        ErrorView::FieldNotIndexed(f) => "The field '"@ + f + "' is not declared as indexed"@,
        ErrorView::QueryError(m) => m,
        ErrorView::IOError(m) => "IO error: "@ + m,
        ErrorView::AlreadyExists(n) => "Index already exists: "@ + n,
        ErrorView::Internal(m) => "Internal error: "@ + m,
    }
}

/// The HTTP status that the transport answers `e` with.
pub open spec fn status_of(e: ErrorView) -> u16 {
    match e {
        ErrorView::UnknownIndex(_) => 404,
        ErrorView::UnknownField(_) | ErrorView::FieldNotIndexed(_) | ErrorView::QueryError(_)
        | ErrorView::AlreadyExists(_) => 400,
        ErrorView::IOError(_) | ErrorView::Internal(_) => 500,
    }
}

/// A query error with a fixed message.
pub fn query_error(msg: &str) -> (r: Error)
    ensures
        r@ == ErrorView::QueryError(msg@),
{
    Error::QueryError(String::from_str(msg))
}

impl Error {
    pub fn message(&self) -> (r: String)
        ensures
            r@ == message_of(self@),
    {
        match self {
            Error::UnknownIndex(n) => String::from_str("Unknown index: ").concat(n.as_str()),
            Error::UnknownField(f) => String::from_str("Unknown field: ").concat(f.as_str()),
            Error::FieldNotIndexed(f) => String::from_str("The field '").concat(f.as_str()).concat(
                "' is not declared as indexed",
            ),
            Error::QueryError(m) => m.clone(),
            Error::IOError(m) => String::from_str("IO error: ").concat(m.as_str()),
            Error::AlreadyExists(n) => String::from_str("Index already exists: ").concat(
                n.as_str(),
            ),
            Error::Internal(m) => String::from_str("Internal error: ").concat(m.as_str()),
        }
    }

    pub fn status(&self) -> (r: u16)
        ensures
            r == status_of(self@),
    {
        match self {
            Error::UnknownIndex(_) => 404,
            Error::UnknownField(_) | Error::FieldNotIndexed(_) | Error::QueryError(_)
            | Error::AlreadyExists(_) => 400,
            Error::IOError(_) | Error::Internal(_) => 500,
        }
    }
}

} // verus!
