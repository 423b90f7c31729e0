use vstd::prelude::*;
use crate::schema::{DetailedTable, SchemaModification, Table};
use crate::table_data::{IndexableValue, RowData, TableData};

verus! {

/// A request to create or change a table.
#[derive(Debug)]
pub struct PostTable {
    pub name: String,
    pub description: String,
    pub action: SchemaModification,
}

/// The tables, with their current schema or with their whole history.
#[derive(Debug)]
pub enum GetTablesResult {
    Tables(Vec<Table>),
    DetailedTables(Vec<DetailedTable>),
}

/// A table, with its current schema or with its whole history.
#[derive(Debug)]
pub enum GetTableResult {
    Table(Table),
    DetailedTable(DetailedTable),
}

/// The table that a creation left.
#[derive(Debug)]
pub struct CreateTableResult(pub Table);

/// The rows of a table.
#[derive(Debug)]
pub struct GetTableDataResult(pub TableData);

/// The rows that an insertion left.
#[derive(Debug)]
pub struct InsertTableDataResult(pub TableData);

/// Why a table operation failed.
#[derive(Debug, PartialEq, Eq)]
pub enum ApiError {
    DatabaseError(String),
    InvalidStateError,
    TableNotFound,
    TooManyConnections,
    SerializationError,
    UnknownError,
}

impl ApiError {
    /// What went wrong, in words.
    pub fn description(&self) -> (r: &str)
        ensures
            match *self {
                ApiError::DatabaseError(x) => r@ == x@,
                ApiError::InvalidStateError => r@ == "The state of the data is broken"@,
                ApiError::TableNotFound => r@ == "Table could not be found"@,
                ApiError::TooManyConnections => r@ == "Too many connections, or too many requests"@,
                ApiError::SerializationError => r@ == "Could not serialize data"@,
                ApiError::UnknownError => r@ == "Unknown error"@,
            },
    {
        match self {
            ApiError::DatabaseError(x) => x.as_str(),
            ApiError::InvalidStateError => "The state of the data is broken",
            ApiError::TableNotFound => "Table could not be found",
            ApiError::TooManyConnections => "Too many connections, or too many requests",
            ApiError::SerializationError => "Could not serialize data",
            ApiError::UnknownError => "Unknown error",
        }
    }
}

/// A request on the session of one table.
#[derive(Debug)]
pub enum TableSessionRequest {
    GetTable,
    GetTableData { begin: Option<usize>, end: Option<usize>, chunk_size: usize },
    Update(RowData),
    Create(RowData),
    Delete(IndexableValue),
}

/// A message on the session of one table.
#[derive(Debug)]
pub enum TableSessionResponse {
    Table { schema: Table },
    TableData { table: TableData },
    EndOfTableData,
    InvalidateAll,
    Deleted { begin: usize, end: usize },
    Updated { begin: usize, end: usize },
    New { begin: usize, end: usize },
}

} // verus!
