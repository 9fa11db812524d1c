use vstd::prelude::*;
use crate::timestamp::CaptureTimestamp;

verus! {

/// One input file that yielded a valid capture timestamp: its path, the
/// extension of its file name (case as originally present, `None` when the
/// name has no extension), and the timestamp. Ordering between entries is
/// defined solely by the timestamp.
pub struct FileEntry {
    pub path: String,
    pub extension: Option<String>,
    pub timestamp: CaptureTimestamp,
}

} // verus!
