use polymath::error::{CrawlerError, DatabaseError, Error, ErrorType};

#[test]
fn test_error_display() {
    let error = Error::new(
        ErrorType::Unspecified,
        None,
        Some("An unspecified error occurred.".to_string()),
    );
    assert_eq!(error.message(), "An unspecified error occurred.");
}

#[test]
fn test_database_error_display() {
    let db_error = Error::new(
        ErrorType::Database(DatabaseError::PoolCreation),
        None,
        Some("Failed to create database connection pool.".to_string()),
    );
    assert_eq!(db_error.message(), "Failed to create the connection pool.");
}

#[test]
fn test_crawler_error_display() {
    let crawler_error = Error::new(
        ErrorType::Crawler(CrawlerError::InvalidDomain),
        None,
        Some("Invalid domain encountered.".to_string()),
    );
    assert_eq!(
        crawler_error.message(),
        "The domain is not within the allowed domains."
    );
}

#[test]
fn test_error_with_cause() {
    let cause = "Root cause".to_string();
    let error = Error::new(
        ErrorType::Unspecified,
        Some(cause),
        Some("An unspecified error occurred.".to_string()),
    );
    assert_eq!(error.message(), "An unspecified error occurred.");
}

#[test]
fn remaining_error_messages() {
    assert_eq!(
        ErrorType::Database(DatabaseError::PoolObtention).message(),
        "Failed to obtain the connection pool."
    );
    assert_eq!(
        ErrorType::Database(DatabaseError::MessageNotSent).message(),
        "Failed to send the message to the broker."
    );
    assert_eq!(
        CrawlerError::NetworkError.message(),
        "The request could not be completed over the network."
    );
    assert_eq!(
        CrawlerError::ParseError.message(),
        "The response body could not be decoded as text."
    );
}
