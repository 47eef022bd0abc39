use amadeus_postgres::error::{IoError, IoErrorKind, PostgresError};

#[test]
fn io_error_keeps_kind_and_text() {
    let error = IoError::new(IoErrorKind::InvalidData, "bad bytes");
    assert_eq!(error.kind(), IoErrorKind::InvalidData);
    assert_eq!(error.to_string(), "bad bytes");
}

#[test]
fn errors_render_as_their_message() {
    let io = PostgresError::Io(IoError::new(IoErrorKind::UnexpectedEof, "connection closed"));
    assert_eq!(io.to_string(), "connection closed");
    let driver = PostgresError::Postgres("db error".to_string());
    assert_eq!(driver.to_string(), "db error");
}

#[test]
fn transport_errors_are_compared_by_text_alone() {
    let a = PostgresError::Io(IoError::new(IoErrorKind::UnexpectedEof, "same"));
    let b = PostgresError::Io(IoError::new(IoErrorKind::InvalidData, "same"));
    let c = PostgresError::Io(IoError::new(IoErrorKind::UnexpectedEof, "other"));
    assert_eq!(a, b);
    assert_ne!(a, c);
}

#[test]
fn driver_errors_are_compared_by_text() {
    let a = PostgresError::Postgres("x".to_string());
    let b = PostgresError::Postgres("x".to_string());
    let c = PostgresError::Postgres("y".to_string());
    assert_eq!(a, b);
    assert_ne!(a, c);
}

#[test]
fn errors_of_different_sides_differ_even_with_the_same_text() {
    let io = PostgresError::Io(IoError::new(IoErrorKind::Other, "x"));
    let driver = PostgresError::Postgres("x".to_string());
    assert_ne!(io, driver);
    assert_ne!(driver, io);
}

#[test]
fn io_error_converts_into_the_transport_variant() {
    let error = PostgresError::from(IoError::new(IoErrorKind::Other, "x"));
    assert!(matches!(error, PostgresError::Io(_)));
}

#[test]
fn driver_report_converts_into_its_text() {
    let failure = "port=notanumber".parse::<tokio_postgres::Config>().unwrap_err();
    let text = failure.to_string();
    let error = PostgresError::from(failure);
    assert_eq!(error, PostgresError::Postgres(text));
}
