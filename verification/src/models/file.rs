//! Uploaded files.
use vstd::prelude::*;

verus! {

/// A stored upload (slide images, covers, gallery images, narration).
/// `created_at` is milliseconds since the Unix epoch; the id is the hex
/// form of the document id.
#[derive(Clone, Debug)]
pub struct FileRecord {
    pub id: Option<String>,
    pub filename: String,
    pub file_type: String,
    pub file_size: i64,
    pub storage_path: String,
    /// Serving content type: `image/webp` for converted images, the
    /// client's type for raw uploads.
    pub content_type: String,
    pub uploaded_by: String,
    pub created_at: i64,
}

/// The content type a record gets when none is stored.
pub fn default_content_type() -> (s: String)
    ensures
        s@ == "application/octet-stream"@,
{
    crate::text::owned("application/octet-stream")
}

} // verus!
