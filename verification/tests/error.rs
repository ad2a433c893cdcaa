use metrics_sqlite::MetricsError;

#[test]
fn message_of_each_failure() {
    assert_eq!(
        MetricsError::DbConnectionError("no such file".to_string()).message(),
        "Database error: no such file"
    );
    assert_eq!(
        MetricsError::MigrationError("bad schema".to_string()).message(),
        "Migration error: bad schema"
    );
    assert_eq!(
        MetricsError::QueryError("locked".to_string()).message(),
        "Error querying DB: locked"
    );
    assert_eq!(MetricsError::InvalidDatabasePath.message(), "Invalid database path");
    assert_eq!(MetricsError::IoError("denied".to_string()).message(), "IO Error: denied");
    assert_eq!(MetricsError::CsvError("ragged".to_string()).message(), "CSV Error: ragged");
    assert_eq!(
        MetricsError::EmptyDatabase.message(),
        "Database has no metrics stored in it"
    );
    assert_eq!(
        MetricsError::KeyNotFound("net.packets".to_string()).message(),
        "Metric key net.packets not found in database"
    );
}

#[test]
fn database_url_takes_text_and_refuses_its_absence() {
    assert_eq!(MetricsError::database_url(Some("metrics.db")), Ok("metrics.db".to_string()));
    assert_eq!(MetricsError::database_url(Some("")), Ok(String::new()));
    assert_eq!(MetricsError::database_url(None), Err(MetricsError::InvalidDatabasePath));
}
