//! Content records: the files that an installation placed under `content/`.

use vstd::prelude::*;

verus! {

/// The kind of an installed file.
#[derive(Debug, Clone, Copy, PartialEq, Eq, Structural)]
pub enum ContentType {
    Executable,
}

/// A file of an installed package, stored as `content/{checksum}`.
#[derive(Debug, Clone)]
pub struct Content {
    pub published: bool,
    pub checksum: String,
    pub filename: String,
    pub content_type: ContentType,
}

impl Content {
    /// A record of a file not yet published.
    pub fn new(content_type: ContentType, filename: String, checksum: String) -> (r: Content)
        ensures
            r == (Content { published: false, checksum, filename, content_type }),
    {
        Content { published: false, checksum, filename, content_type }
    }
}

} // verus!
