//! Errors of the sinks.
use vstd::prelude::*;

use crate::text::concat_strs;

verus! {

/// What went wrong in a sink; each variant carries its message.
#[derive(Debug, Clone)]
pub enum Error {
    /// A row reached a check before it was ready; carries the row's key.
    DataNotReady(String),
    /// The pipeline itself failed (a poisoned lock, a misrouted row).
    PipelineError(String),
    /// A configuration or data file is missing or malformed.
    SourceDataFileError(String),
    /// A value in a row could not be read as required.
    DataError(String),
    /// Reading or writing a file failed.
    Io(String),
    /// A JSON text could not be read.
    Json(String),
    /// The database refused an operation.
    Database(String),
}

impl Error {
    /// The text that names the kind of error, put before its payload.
    pub open spec fn prefix(&self) -> Seq<char> {
        match self {
            Error::DataNotReady(_) => "data not ready: "@,
            Error::PipelineError(_) => "pipeline error: "@,
            Error::SourceDataFileError(_) => "source data file error: "@,
            Error::DataError(_) => "data error: "@,
            Error::Io(_) => "io error: "@,
            Error::Json(_) => "json error: "@,
            Error::Database(_) => "database error: "@,
        }
    }

    /// The message that the error carries.
    pub open spec fn payload(&self) -> Seq<char> {
        match self {
            Error::DataNotReady(m) => m@,
            Error::PipelineError(m) => m@,
            Error::SourceDataFileError(m) => m@,
            Error::DataError(m) => m@,
            Error::Io(m) => m@,
            Error::Json(m) => m@,
            Error::Database(m) => m@,
        }
    }

    /// The error as one line of text: its kind, then its message.
    pub fn message(&self) -> (r: String)
        ensures
            r@ == self.prefix() + self.payload(),
    {
        match self {
            Error::DataNotReady(m) => concat_strs("data not ready: ", m.as_str()),
            Error::PipelineError(m) => concat_strs("pipeline error: ", m.as_str()),
            Error::SourceDataFileError(m) => concat_strs("source data file error: ", m.as_str()),
            Error::DataError(m) => concat_strs("data error: ", m.as_str()),
            Error::Io(m) => concat_strs("io error: ", m.as_str()),
            Error::Json(m) => concat_strs("json error: ", m.as_str()),
            Error::Database(m) => concat_strs("database error: ", m.as_str()),
        }
    }
}

} // verus!
