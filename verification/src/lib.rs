//! Renames a collection of image files into a chronologically ordered naming
//! scheme derived from the capture time embedded in each file's metadata.
//! The verified core covers extracting a comparable timestamp from raw
//! metadata field values, the total order over timestamps, the stable sort,
//! and the single-pass sequencer that assigns collision-free destination
//! names. Directory traversal, file reads and the rename calls themselves
//! live outside the library.

pub mod entry;
pub mod extract;
pub mod logger;
pub mod naming;
pub mod sequencer;
pub mod sort;
pub mod timestamp;
