//! Data-log writer support types.

use vstd::prelude::*;

verus! {

/// Marker for a log that writes entries to its file as they arrive.
#[derive(Debug, PartialEq, Eq, Structural)]
pub struct Writer;

/// Marker for a log that buffers entries and writes them from a
/// background thread.
#[derive(Debug, PartialEq, Eq, Structural)]
pub struct BackgroundWriter;

/// The kind of data log a handle was opened as.
pub trait DataLogKind {

}

impl DataLogKind for Writer {

}

impl DataLogKind for BackgroundWriter {

}

/// Error raised when a log path cannot be handed to the native layer.
#[derive(Debug, Clone, Copy, PartialEq, Eq, Structural)]
pub enum DataLogError {
    /// The filename or directory is not valid UTF-8.
    NotUtf8,
}

/// Accepts a path's UTF-8 form where the conversion produced one, and
/// reports the error the log constructors raise where it did not.
pub fn check_utf8<'a>(s: Option<&'a str>) -> (r: Result<&'a str, DataLogError>)
    ensures
        s is Some ==> r == Ok::<&'a str, DataLogError>(s.unwrap()),
        s is None ==> r == Err::<&'a str, DataLogError>(DataLogError::NotUtf8),
{
    match s {
        Some(s) => Ok(s),
        None => Err(DataLogError::NotUtf8),
    }
}

} // verus!
