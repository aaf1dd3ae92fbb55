//! The snapshot file as a whole: a header, then the frame records in the
//! order in which they were added.

use crate::frame::{frame_bytes, lemma_frame_round_trip, parse_frame, Frame, FrameView, FRAME_SIZE, PAGE_SIZE};
use crate::header::{
    lemma_snapshot_header_round_trip, parse_snapshot_header, snapshot_header_bytes, zeros,
    SnapshotHeader, SNAPSHOT_HEADER_SIZE,
};
use vstd::prelude::*;
use vstd::slice::*;

verus! {

/// The frame records of `frames`, one after the other.
pub open spec fn records_bytes(frames: Seq<FrameView>) -> Seq<u8>
    decreases frames.len(),
{
    if frames.len() == 0 {
        Seq::empty()
    } else {
        records_bytes(frames.drop_last()) + frame_bytes(frames.last())
    }
}

/// A sealed snapshot file: the header, then the records.
pub open spec fn snapshot_bytes(header: SnapshotHeader, frames: Seq<FrameView>) -> Seq<u8> {
    snapshot_header_bytes(header) + records_bytes(frames)
}

/// A snapshot file that is still being written: the zeroed block that keeps
/// the header's place, then the records added so far.
pub open spec fn staged_bytes(frames: Seq<FrameView>) -> Seq<u8> {
    zeros(SNAPSHOT_HEADER_SIZE as nat) + records_bytes(frames)
}

/// The bytes of the `i`-th record of the snapshot file `b`.
pub open spec fn record_at(b: Seq<u8>, i: int) -> Seq<u8> {
    b.subrange(SNAPSHOT_HEADER_SIZE + i * FRAME_SIZE, SNAPSHOT_HEADER_SIZE + (i + 1) * FRAME_SIZE)
}

/// Whether every frame of `frames` carries exactly one page.
pub open spec fn page_sized(frames: Seq<FrameView>) -> bool {
    forall|i: int| 0 <= i < frames.len() ==> (#[trigger] frames[i]).page.len() == PAGE_SIZE
}

/// What a reader finds in the snapshot file `b`: the header, then as many
/// records as the header counts. `None` when `b` is too short for its header
/// or for the records that the header announces. Bytes after the last
/// announced record are not looked at.
pub open spec fn parse_snapshot(b: Seq<u8>) -> Option<(SnapshotHeader, Seq<FrameView>)> {
    match parse_snapshot_header(b) {
        None => None,
        Some(h) => if b.len() - SNAPSHOT_HEADER_SIZE >= h.frame_count * FRAME_SIZE {
            Some((h, Seq::new(h.frame_count as nat, |i: int| parse_frame(record_at(b, i)).unwrap())))
        } else {
            None
        },
    }
}

/// The records of `frames` take one record's length each, and the `i`-th of
/// them is the encoding of the `i`-th frame.
pub proof fn lemma_records_bytes(frames: Seq<FrameView>)
    requires
        page_sized(frames),
    ensures
        records_bytes(frames).len() == frames.len() * FRAME_SIZE,
        forall|i: int|
            0 <= i < frames.len() ==> #[trigger] records_bytes(frames).subrange(
                i * FRAME_SIZE,
                (i + 1) * FRAME_SIZE,
            ) == frame_bytes(frames[i]),
    decreases frames.len(),
{
    if frames.len() > 0 {
        let init = frames.drop_last();
        let last = frames.last();
        lemma_records_bytes(init);
        lemma_frame_round_trip(last);
        let all = records_bytes(frames);
        assert forall|i: int| 0 <= i < frames.len() implies #[trigger] all.subrange(
            i * FRAME_SIZE,
            (i + 1) * FRAME_SIZE,
        ) == frame_bytes(frames[i]) by {
            if i < init.len() {
                assert(all.subrange(i * FRAME_SIZE, (i + 1) * FRAME_SIZE) =~= records_bytes(
                    init,
                ).subrange(i * FRAME_SIZE, (i + 1) * FRAME_SIZE));
                assert(init[i] == frames[i]);
            } else {
                assert(all.subrange(i * FRAME_SIZE, (i + 1) * FRAME_SIZE) =~= frame_bytes(last));
            }
        }
    }
}

/// Adding a frame to a snapshot appends its record to the file.
pub proof fn lemma_records_bytes_push(frames: Seq<FrameView>, frame: FrameView)
    ensures
        records_bytes(frames.push(frame)) == records_bytes(frames) + frame_bytes(frame),
{
    assert(frames.push(frame).drop_last() =~= frames);
}

/// Sealing a staged file overwrites the block that kept the header's place
/// and leaves every record where it is.
pub proof fn lemma_backfill(header: SnapshotHeader, frames: Seq<FrameView>)
    ensures
        snapshot_bytes(header, frames) == snapshot_header_bytes(header) + staged_bytes(
            frames,
        ).skip(SNAPSHOT_HEADER_SIZE as int),
        snapshot_bytes(header, frames).len() == staged_bytes(frames).len(),
{
    lemma_snapshot_header_round_trip(header, Seq::empty());
}

/// Reading a sealed snapshot file gives back its header and, in the order in
/// which they were written, the frames whose records it holds: frame number,
/// page number and page bytes of each.
pub proof fn lemma_snapshot_round_trip(header: SnapshotHeader, frames: Seq<FrameView>)
    requires
        header.frame_count == frames.len(),
        page_sized(frames),
    ensures
        parse_snapshot(snapshot_bytes(header, frames)) == Some((header, frames)),
{
    let b = snapshot_bytes(header, frames);
    let recs = records_bytes(frames);
    lemma_snapshot_header_round_trip(header, recs);
    lemma_records_bytes(frames);
    let read = Seq::new(header.frame_count as nat, |i: int| parse_frame(record_at(b, i)).unwrap());
    assert forall|i: int| 0 <= i < frames.len() implies read[i] == frames[i] by {
        assert(record_at(b, i) =~= recs.subrange(i * FRAME_SIZE, (i + 1) * FRAME_SIZE));
        lemma_frame_round_trip(frames[i]);
    }
}

/// The frames of `frames`, each by its view.
pub open spec fn frames_view(frames: Seq<Frame>) -> Seq<FrameView> {
    Seq::new(frames.len(), |i: int| frames[i]@)
}

/// Reads a snapshot file: the header, then exactly as many frame records as
/// the header counts. Fails when the file is too short for either.
pub fn read_snapshot(bytes: &[u8]) -> (r: Option<(SnapshotHeader, Vec<Frame>)>)
    ensures
        r.is_some() <==> parse_snapshot(bytes@).is_some(),
        r.is_some() ==> {
            &&& r.unwrap().0 == parse_snapshot(bytes@).unwrap().0
            &&& frames_view(r.unwrap().1@) == parse_snapshot(bytes@).unwrap().1
            &&& forall|i: int| 0 <= i < r.unwrap().1@.len() ==> (#[trigger] r.unwrap().1@[i]).wf()
        },
{
    let header = match SnapshotHeader::from_bytes(bytes) {
        Some(h) => h,
        None => {
            return None;
        },
    };
    let room: usize = (bytes.len() - SNAPSHOT_HEADER_SIZE) / FRAME_SIZE;
    if (room as u64) < header.frame_count {
        return None;
    }
    let count: usize = header.frame_count as usize;
    let mut frames: Vec<Frame> = Vec::new();
    let mut i: usize = 0;
    while i < count
        invariant
            i <= count,
            count == header.frame_count,
            SNAPSHOT_HEADER_SIZE + count * FRAME_SIZE <= bytes@.len() <= usize::MAX,
            frames@.len() == i,
            forall|j: int|
                0 <= j < i ==> (#[trigger] frames@[j]).wf() && frames@[j]@ == parse_frame(
                    record_at(bytes@, j),
                ).unwrap(),
        decreases count - i,
    {
        let from: usize = SNAPSHOT_HEADER_SIZE + i * FRAME_SIZE;
        let record = slice_subrange(bytes, from, from + FRAME_SIZE);
        let frame = match Frame::from_bytes(record) {
            Some(f) => f,
            None => {
                return None;
            },
        };
        frames.push(frame);
        i += 1;
    }
    Some((header, frames))
}

} // verus!
