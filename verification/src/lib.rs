//! Snapshot production for a write-ahead log that is being checkpointed.
//!
//! While the storage engine folds its pending pages into the main database
//! file, every flushed page is captured as one frame record of a snapshot:
//! a file that starts with a fixed-size header and holds, after it, the
//! frames of one range of replication frame numbers, newest first.
//!
//! * [`frame`] and [`header`] hold the byte layout of frame records and of the
//!   snapshot header, [`image`] that of the file as a whole, with a reader.
//! * [`naming`] gives sealed snapshots their file names.
//! * [`snapshot_store`] holds the store, which knows where snapshots are
//!   staged and published, and the builder that follows one snapshot from its
//!   first frame to its sealing.
//! * [`compactor`] holds the observer of one checkpoint, which turns the
//!   engine's checkpoint-local frame numbers into replication frame numbers
//!   and feeds the builder.
//!
//! Nothing here touches the file system. Every operation returns the bytes
//! that belong in the staging file and, on sealing, the header that goes over
//! the file's start and the path under which the file is published; the
//! caller performs the writes and the rename. The header's values are known
//! only when the last frame has been seen, so a staging file opens with a
//! zeroed block of the header's size, and sealing overwrites that block.
//!
//! Frames carry no checksum: the field is there and is left at zero.

pub mod compactor;
pub mod error;
pub mod frame;
pub mod header;
pub mod image;
pub mod naming;
pub mod snapshot_store;
