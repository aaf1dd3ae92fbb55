//! The ways in which producing a snapshot can fail.

use vstd::prelude::*;

verus! {

/// Why a frame was refused or a snapshot could not be sealed.
///
/// Each of these tells of a broken promise of the caller or of the component
/// that feeds it, not of a failure of the machine. None can be mended by
/// trying again. A snapshot that has refused a frame is lost: it takes no
/// further frame and cannot be sealed.
#[derive(Clone, Copy, Debug, PartialEq, Eq, Structural)]
pub enum SnapshotError {
    /// A frame's number is not below the number of the frame added before it.
    OutOfOrder,
    /// The snapshot was sealed before any frame was added.
    NoFrames,
    /// The snapshot is lost: it was given up, or has refused a frame before.
    Broken,
    /// A page buffer does not hold exactly one page.
    PageSize,
    /// The first page of a checkpoint is not page 1.
    FirstPageNotOne,
    /// The first page of a checkpoint is too short to hold a database header.
    UnreadableHeader,
    /// The replication index on page 1 is below the frame number it came with.
    IndexBelowFrame,
    /// A replication frame number does not fit in 64 bits.
    FrameNoOverflow,
    /// The checkpoint has been finished already.
    Finished,
}

} // verus!
