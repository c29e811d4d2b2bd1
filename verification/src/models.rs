//! The records that the library plans and that the database stores.

use vstd::prelude::*;

verus! {

/// One download as the database holds it.
#[derive(Debug)]
pub struct Download {
    pub id: String,
    pub url: String,
    pub filename: String,
    pub save_path: String,
    pub total_bytes: i64,
    pub downloaded_bytes: i64,
    pub status: String,
    /// Stringified timestamp.
    pub created_at: String,
}

/// One byte range of a download, fetched by its own task.
///
/// `end_byte` is inclusive; a negative `end_byte` stands for "the whole
/// file, without a `Range` header".
#[derive(Debug, Clone)]
pub struct Chunk {
    pub id: String,
    pub download_id: String,
    pub start_byte: i64,
    pub end_byte: i64,
    pub downloaded_bytes: i64,
    pub status: String,
}

} // verus!
