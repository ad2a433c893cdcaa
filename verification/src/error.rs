//! The failures that the pipeline and the query layer report.

use vstd::prelude::*;
use vstd::string::StringExecFns;

verus! {

/// Any failure of the store or of a query against it.
///
/// Failures that arise in the store itself carry the store's own description
/// of what went wrong.
#[derive(Clone, Debug, PartialEq, Eq)]
pub enum MetricsError {
    /// The store could not be opened.
    DbConnectionError(String),
    /// The store's schema could not be brought up to date.
    MigrationError(String),
    /// A statement against the store failed.
    QueryError(String),
    /// The path given for the store is not valid text.
    InvalidDatabasePath,
    /// Reading or writing a bulk file failed.
    IoError(String),
    /// A bulk file could not be written.
    CsvError(String),
    /// The store holds no sample.
    EmptyDatabase,
    /// No metric key of this name is registered.
    KeyNotFound(String),
}

/// A failure with its text as a sequence of characters.
pub enum MetricsErrorView {
    DbConnectionError(Seq<char>),
    MigrationError(Seq<char>),
    QueryError(Seq<char>),
    InvalidDatabasePath,
    IoError(Seq<char>),
    CsvError(Seq<char>),
    EmptyDatabase,
    KeyNotFound(Seq<char>),
}

impl View for MetricsError {
    type V = MetricsErrorView;

    open spec fn view(&self) -> MetricsErrorView {
        match self {
            MetricsError::DbConnectionError(detail) => MetricsErrorView::DbConnectionError(detail@),
            MetricsError::MigrationError(detail) => MetricsErrorView::MigrationError(detail@),
            MetricsError::QueryError(detail) => MetricsErrorView::QueryError(detail@),
            MetricsError::InvalidDatabasePath => MetricsErrorView::InvalidDatabasePath,
            MetricsError::IoError(detail) => MetricsErrorView::IoError(detail@),
            MetricsError::CsvError(detail) => MetricsErrorView::CsvError(detail@),
            MetricsError::EmptyDatabase => MetricsErrorView::EmptyDatabase,
            MetricsError::KeyNotFound(name) => MetricsErrorView::KeyNotFound(name@),
        }
    }
}

/// The text that describes a failure to a reader.
pub open spec fn message_of(error: MetricsErrorView) -> Seq<char> {
    match error {
        MetricsErrorView::DbConnectionError(detail) => "Database error: "@ + detail,
        MetricsErrorView::MigrationError(detail) => "Migration error: "@ + detail,
        MetricsErrorView::QueryError(detail) => "Error querying DB: "@ + detail,
        MetricsErrorView::InvalidDatabasePath => "Invalid database path"@,
        MetricsErrorView::IoError(detail) => "IO Error: "@ + detail,
        MetricsErrorView::CsvError(detail) => "CSV Error: "@ + detail,
        MetricsErrorView::EmptyDatabase => "Database has no metrics stored in it"@,
        MetricsErrorView::KeyNotFound(name) => "Metric key "@ + name + " not found in database"@,
    }
}

impl MetricsError {
    /// Describes the failure in one line.
    pub fn message(&self) -> (text: String)
        ensures
            text@ == message_of(self@),
    {
        match self {
            MetricsError::DbConnectionError(detail) => String::from_str("Database error: ").concat(
                detail.as_str(),
            ),
            MetricsError::MigrationError(detail) => String::from_str("Migration error: ").concat(
                detail.as_str(),
            ),
            MetricsError::QueryError(detail) => String::from_str("Error querying DB: ").concat(
                detail.as_str(),
            ),
            MetricsError::InvalidDatabasePath => String::from_str("Invalid database path"),
            MetricsError::IoError(detail) => String::from_str("IO Error: ").concat(detail.as_str()),
            MetricsError::CsvError(detail) => String::from_str("CSV Error: ").concat(
                detail.as_str(),
            ),
            MetricsError::EmptyDatabase => String::from_str("Database has no metrics stored in it"),
            MetricsError::KeyNotFound(name) => String::from_str("Metric key ").concat(
                name.as_str(),
            ).concat(" not found in database"),
        }
    }

    /// Accepts the text of a store path, or reports that the path has none.
    ///
    /// `text` is the path as text, where the path can be written as text.
    pub fn database_url(text: Option<&str>) -> (url: Result<String, MetricsError>)
        ensures
            match text {
                Some(path) => url matches Ok(accepted) && accepted@ == path@,
                None => url matches Err(e) && e@ == MetricsErrorView::InvalidDatabasePath,
            },
    {
        match text {
            Some(path) => Ok(String::from_str(path)),
            None => Err(MetricsError::InvalidDatabasePath),
        }
    }
}

} // verus!
