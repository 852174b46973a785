//! Where a backtest session takes its events from.

use vstd::prelude::*;

verus! {

/// The source a backtest session reads its events from.
#[derive(Debug, Clone, Copy, PartialEq, Eq, Structural)]
pub enum DataSourceKind {
    /// Events handed over in memory.
    Events,
    /// A raw binary file of 64-byte little-endian records.
    BinFile,
    /// An `.npz` archive holding a `data.npy` array.
    NpzFile,
}

/// Why a session has no events to read.
#[derive(Debug, Clone, Copy, PartialEq, Eq, Structural)]
pub enum SessionError {
    /// Neither events nor a data path were given.
    NoDataSource,
}

/// The data source of a session: events in memory take precedence over a file;
/// a file is read as `.npz` or as raw binary; with neither there is nothing to read.
pub open spec fn spec_data_source(has_events: bool, has_path: bool, is_npz: bool) -> Result<DataSourceKind, SessionError> {
    if has_events {
        Ok(DataSourceKind::Events)
    } else if !has_path {
        Err(SessionError::NoDataSource)
    } else if is_npz {
        Ok(DataSourceKind::NpzFile)
    } else {
        Ok(DataSourceKind::BinFile)
    }
}

/// Events in memory are always what a session reads when it has them, whether or
/// not a path is also set; without events a path is needed, and it is read as
/// `.npz` exactly when so marked.
pub proof fn lemma_data_source_precedence(has_events: bool, has_path: bool, is_npz: bool)
    ensures
        has_events ==> spec_data_source(has_events, has_path, is_npz) == Ok::<DataSourceKind, SessionError>(DataSourceKind::Events),
        !has_events && !has_path ==> spec_data_source(has_events, has_path, is_npz) == Err::<DataSourceKind, SessionError>(SessionError::NoDataSource),
        !has_events && has_path && is_npz ==> spec_data_source(has_events, has_path, is_npz) == Ok::<DataSourceKind, SessionError>(DataSourceKind::NpzFile),
        !has_events && has_path && !is_npz ==> spec_data_source(has_events, has_path, is_npz) == Ok::<DataSourceKind, SessionError>(DataSourceKind::BinFile),
        spec_data_source(has_events, has_path, is_npz) is Err <==> !has_events && !has_path,
{
}

/// Chooses where a session reads its events from.
pub fn choose_data_source(has_events: bool, has_path: bool, is_npz: bool) -> (r: Result<DataSourceKind, SessionError>)
    ensures
        r == spec_data_source(has_events, has_path, is_npz),
        has_events ==> r == Ok::<DataSourceKind, SessionError>(DataSourceKind::Events),
        !has_events && !has_path ==> r == Err::<DataSourceKind, SessionError>(SessionError::NoDataSource),
        !has_events && has_path ==> r == Ok::<DataSourceKind, SessionError>(
            if is_npz { DataSourceKind::NpzFile } else { DataSourceKind::BinFile },
        ),
{
    if has_events {
        Ok(DataSourceKind::Events)
    } else if !has_path {
        Err(SessionError::NoDataSource)
    } else if is_npz {
        Ok(DataSourceKind::NpzFile)
    } else {
        Ok(DataSourceKind::BinFile)
    }
}

} // verus!
