//! Error structures of the crawler.
//!
//! An [`Error`] pairs a classified [`ErrorType`] with an optional cause
//! description and optional context.  Formatting is exposed through
//! `message` methods that return the user-facing text of each kind.

use vstd::prelude::*;

verus! {

/// Errors raised by the crawler itself.
#[derive(Debug, Clone, Copy, PartialEq, Eq, Structural)]
pub enum CrawlerError {
    /// The domain is not in the configured allow-list.
    InvalidDomain,
    /// The request failed transport-side (connection, timeout, DNS).
    NetworkError,
    /// The response body could not be decoded as text.
    ParseError,
}

/// Errors related to databases or message brokers.
#[derive(Debug, Clone, Copy, PartialEq, Eq, Structural)]
pub enum DatabaseError {
    /// The connection pool was not created successfully.
    PoolCreation,
    /// The connection pool could not be obtained.
    PoolObtention,
    /// The message for the broker was not sent.
    MessageNotSent,
}

/// The classification of an [`Error`].
#[derive(Debug, Clone, Copy, PartialEq, Eq, Structural)]
pub enum ErrorType {
    /// A generic error with no additional information.
    Unspecified,
    /// Errors related to databases or message brokers.
    Database(DatabaseError),
    /// Errors related to the crawler.
    Crawler(CrawlerError),
}

/// An error of the crawler: its type, an optional description of the
/// underlying cause, and optional context on where it occurred.
#[derive(Debug)]
pub struct Error {
    /// The type of the error.
    pub error_type: ErrorType,
    /// A description of the cause of this error, if one is known.
    pub cause: Option<String>,
    /// Contextual information about where the error occurred.
    pub context: Option<String>,
}

/// The user-facing text of a [`CrawlerError`].
pub open spec fn spec_crawler_error_message(e: CrawlerError) -> Seq<char> {
    match e {
        CrawlerError::InvalidDomain => "The domain is not within the allowed domains."@,
        CrawlerError::NetworkError => "The request could not be completed over the network."@,
        CrawlerError::ParseError => "The response body could not be decoded as text."@,
    }
}

/// The user-facing text of a [`DatabaseError`].
pub open spec fn spec_database_error_message(e: DatabaseError) -> Seq<char> {
    match e {
        DatabaseError::PoolCreation => "Failed to create the connection pool."@,
        DatabaseError::PoolObtention => "Failed to obtain the connection pool."@,
        DatabaseError::MessageNotSent => "Failed to send the message to the broker."@,
    }
}

/// The user-facing text of an [`ErrorType`].
pub open spec fn spec_error_type_message(e: ErrorType) -> Seq<char> {
    match e {
        ErrorType::Unspecified => "An unspecified error occurred."@,
        ErrorType::Database(d) => spec_database_error_message(d),
        ErrorType::Crawler(c) => spec_crawler_error_message(c),
    }
}

impl CrawlerError {
    /// The user-facing text of this error.
    pub fn message(&self) -> (r: String)
        ensures
            r@ == spec_crawler_error_message(*self),
    {
        match self {
            CrawlerError::InvalidDomain => {
                "The domain is not within the allowed domains.".to_owned()
            },
            CrawlerError::NetworkError => {
                "The request could not be completed over the network.".to_owned()
            },
            CrawlerError::ParseError => {
                "The response body could not be decoded as text.".to_owned()
            },
        }
    }
}

impl DatabaseError {
    /// The user-facing text of this error.
    pub fn message(&self) -> (r: String)
        ensures
            r@ == spec_database_error_message(*self),
    {
        match self {
            DatabaseError::PoolCreation => "Failed to create the connection pool.".to_owned(),
            DatabaseError::PoolObtention => "Failed to obtain the connection pool.".to_owned(),
            DatabaseError::MessageNotSent => {
                "Failed to send the message to the broker.".to_owned()
            },
        }
    }
}

impl ErrorType {
    /// The user-facing text of this error type.
    pub fn message(&self) -> (r: String)
        ensures
            r@ == spec_error_type_message(*self),
    {
        match self {
            ErrorType::Unspecified => "An unspecified error occurred.".to_owned(),
            ErrorType::Database(d) => d.message(),
            ErrorType::Crawler(c) => c.message(),
        }
    }
}

impl Error {
    /// Creates a new [`Error`].
    pub fn new(error_type: ErrorType, cause: Option<String>, context: Option<String>) -> (r:
        Error)
        ensures
            r.error_type == error_type,
            r.cause == cause,
            r.context == context,
    {
        Error { error_type, cause, context }
    }

    /// The user-facing text of this error: the text of its type.
    pub fn message(&self) -> (r: String)
        ensures
            r@ == spec_error_type_message(self.error_type),
    {
        self.error_type.message()
    }
}

} // verus!
