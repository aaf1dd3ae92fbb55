//! The observer of one checkpoint.
//!
//! The storage engine reports every page that a checkpoint flushes, with a
//! frame number that is local to the checkpoint. The observer turns that
//! number into the replication frame number and feeds the page to the
//! builder of the checkpoint's snapshot.
//!
//! The two numberings differ by an offset that is fixed for the length of a
//! checkpoint. It is found on the first page that is delivered, which must be
//! page 1 of the database: the header of that page carries the replication
//! index that belongs to the page's own frame. The offset is kept with the
//! observer and never outlives it.

use crate::error::SnapshotError;
use crate::frame::{frame_bytes, Frame, FrameHeader, FrameView, PAGE_SIZE};
use crate::header::{zeros, SNAPSHOT_HEADER_SIZE};
use crate::snapshot_store::{
    lemma_descending_len, BuilderView, SealedSnapshot, SnapshotBuilder, SnapshotStore, StoreView,
};
use vstd::bytes::spec_u64_from_le_bytes;
use vstd::prelude::*;
use zerocopy::FromBytes;

verus! {

/// Number of bytes in the header of a database file.
pub const DB_HEADER_SIZE: usize = 100;

/// Where the replication index stands in the header of a database file.
pub const REPLICATION_INDEX_OFFSET: usize = 84;

/// The number that eight bytes spell, most significant byte first.
pub open spec fn u64_from_be_bytes(s: Seq<u8>) -> u64
    recommends
        s.len() == 8,
{
    spec_u64_from_le_bytes(s.reverse())
}

/// The replication index in the database header at the start of `page`:
/// eight bytes, most significant first. `None` when `page` is too short to
/// hold a database header.
pub open spec fn replication_index(page: Seq<u8>) -> Option<u64> {
    if page.len() >= DB_HEADER_SIZE {
        Some(
            u64_from_be_bytes(
                page.subrange(REPLICATION_INDEX_OFFSET as int, REPLICATION_INDEX_OFFSET + 8),
            ),
        )
    } else {
        None
    }
}

/// Reads a `Sqlite3DbHeader` of `libsql_sys` from the start of `page` with
/// zerocopy's `FromBytes::read_from_prefix` and returns its field
/// `replication_index`. The header type is `repr(C)` over byte-aligned
/// fields, `DB_HEADER_SIZE` bytes in all, with the big-endian index at
/// `REPLICATION_INDEX_OFFSET`; a shorter input reads as `None`.
#[verifier::external_body]
fn read_replication_index(page: &[u8]) -> (index: Option<u64>)
    ensures
        index == replication_index(page@),
{
    libsql_sys::ffi::Sqlite3DbHeader::read_from_prefix(page).map(|h| h.replication_index.get())
}

/// The offset of a checkpoint: the cached one where there is one, else the
/// one that the first delivery gives. That delivery must be page 1, its
/// header must be readable, and its replication index, which belongs to the
/// delivered frame itself, must not be below the frame's local number.
pub open spec fn offset_for(base: Option<u64>, page: Seq<u8>, page_no: u32, frame_no: u32) -> Result<
    u64,
    SnapshotError,
> {
    match base {
        Some(offset) => Ok(offset),
        None => if page_no != 1 {
            Err(SnapshotError::FirstPageNotOne)
        } else {
            match replication_index(page) {
                None => Err(SnapshotError::UnreadableHeader),
                Some(index) => if index < frame_no {
                    Err(SnapshotError::IndexBelowFrame)
                } else {
                    Ok((index - frame_no) as u64)
                },
            }
        },
    }
}

/// The frame that a delivery becomes: numbered by the checkpoint's offset plus
/// the local number, with no checksum and no size.
pub open spec fn renumbered(base: Option<u64>, page: Seq<u8>, page_no: u32, frame_no: u32) -> Result<
    FrameView,
    SnapshotError,
> {
    match offset_for(base, page, page_no, frame_no) {
        Err(e) => Err(e),
        Ok(offset) => if offset + frame_no > u64::MAX {
            Err(SnapshotError::FrameNoOverflow)
        } else if page.len() != PAGE_SIZE {
            Err(SnapshotError::PageSize)
        } else {
            Ok(
                FrameView {
                    header: FrameHeader {
                        frame_no: (offset + frame_no) as u64,
                        checksum: 0,
                        page_no,
                        size_after: 0,
                    },
                    page,
                },
            )
        },
    }
}

/// From local numbers to replication frame numbers. Let page 1 carry the
/// replication index `index` and be delivered first, with the local number
/// `first`. Then the offset of the checkpoint is `index - first`, page 1
/// itself is numbered `index`, and every delivery of the checkpoint, whatever
/// its page, is numbered `index - first + local` where `local` is its local
/// number. With `first == 1` that is `index - 1 + local`.
pub proof fn lemma_renumbering(
    first_page: Seq<u8>,
    index: u64,
    first: u32,
    page: Seq<u8>,
    page_no: u32,
    local: u32,
)
    requires
        replication_index(first_page) == Some(index),
        index >= first,
    ensures
        offset_for(None, first_page, 1, first) == Ok::<u64, SnapshotError>((index - first) as u64),
        first_page.len() == PAGE_SIZE ==> renumbered(None, first_page, 1, first).is_ok()
            && renumbered(None, first_page, 1, first).unwrap().header.frame_no == index,
        renumbered(Some((index - first) as u64), page, page_no, local).is_ok() <==> (index - first
            + local <= u64::MAX && page.len() == PAGE_SIZE),
        renumbered(Some((index - first) as u64), page, page_no, local).is_ok() ==> renumbered(
            Some((index - first) as u64),
            page,
            page_no,
            local,
        ).unwrap().header.frame_no == index - first + local,
{
}

/// The offset between the replication frame numbers and the local frame
/// numbers of a checkpoint whose frame `frame_no` carries the replication
/// index `index`.
pub fn numbering_offset(index: u64, frame_no: u32) -> (r: Result<u64, SnapshotError>)
    ensures
        index >= frame_no ==> r == Ok::<u64, SnapshotError>((index - frame_no) as u64),
        index < frame_no ==> r == Err::<u64, SnapshotError>(SnapshotError::IndexBelowFrame),
{
    let local: u64 = frame_no as u64;
    if index < local {
        Err(SnapshotError::IndexBelowFrame)
    } else {
        Ok(index - local)
    }
}

/// The replication frame number of the frame that is locally numbered
/// `frame_no`, in a checkpoint with the given offset.
pub fn absolute_frame_no(offset: u64, frame_no: u32) -> (r: Result<u64, SnapshotError>)
    ensures
        offset + frame_no <= u64::MAX ==> r == Ok::<u64, SnapshotError>((offset + frame_no) as u64),
        offset + frame_no > u64::MAX ==> r == Err::<u64, SnapshotError>(
            SnapshotError::FrameNoOverflow,
        ),
{
    let local: u64 = frame_no as u64;
    if offset > u64::MAX - local {
        Err(SnapshotError::FrameNoOverflow)
    } else {
        Ok(offset + local)
    }
}

/// Renumbers one delivery of a checkpoint: finds the checkpoint's offset,
/// from `base` or else from the page, and makes the frame that goes into the
/// snapshot. Returns the offset with the frame.
pub fn renumber_frame(base: Option<u64>, page: &[u8], page_no: u32, frame_no: u32) -> (r: Result<
    (u64, Frame),
    SnapshotError,
>)
    ensures
        match renumbered(base, page@, page_no, frame_no) {
            Err(e) => r == Err::<(u64, Frame), SnapshotError>(e),
            Ok(frame) => r.is_ok() && r.unwrap().1.wf() && r.unwrap().1@ == frame && Ok::<
                u64,
                SnapshotError,
            >(r.unwrap().0) == offset_for(base, page@, page_no, frame_no),
        },
{
    let offset: u64 = match base {
        Some(offset) => offset,
        None => {
            if page_no != 1 {
                return Err(SnapshotError::FirstPageNotOne);
            }
            let index: u64 = match read_replication_index(page) {
                Some(index) => index,
                None => {
                    return Err(SnapshotError::UnreadableHeader);
                },
            };
            match numbering_offset(index, frame_no) {
                Ok(offset) => offset,
                Err(e) => {
                    return Err(e);
                },
            }
        },
    };
    let absolute: u64 = match absolute_frame_no(offset, frame_no) {
        Ok(n) => n,
        Err(e) => {
            return Err(e);
        },
    };
    let header = FrameHeader { frame_no: absolute, checksum: 0, page_no, size_after: 0 };
    match Frame::from_parts(&header, page) {
        Some(frame) => Ok((offset, frame)),
        None => Err(SnapshotError::PageSize),
    }
}

/// Observes one checkpoint: renumbers each delivery and adds it to the
/// checkpoint's snapshot.
///
/// A delivery that is refused, for whatever reason, costs the checkpoint its
/// snapshot: the observer goes on to refuse what it is given, and at the end
/// of the checkpoint it seals nothing.
pub struct CompactorCallback {
    builder: Option<SnapshotBuilder>,
    base_frame_no: Option<u64>,
}

/// The snapshot `snapshot` of an observer after a delivery was refused.
pub open spec fn lost(snapshot: Option<BuilderView>) -> Option<BuilderView> {
    match snapshot {
        Some(b) => Some(b.given_up()),
        None => None,
    }
}

/// Whether an observer with the snapshot `snapshot` has nothing left to seal:
/// its checkpoint is finished, or its snapshot is lost.
pub open spec fn spent(snapshot: Option<BuilderView>) -> bool {
    match snapshot {
        Some(b) => b.broken,
        None => true,
    }
}

/// A refusal is final. An observer that has refused a delivery has nothing
/// left to seal; and one that has nothing left to seal refuses every
/// delivery, stays as it is, and seals nothing at the end of the checkpoint.
pub proof fn lemma_refusal_is_final(
    base: Option<u64>,
    snapshot: Option<BuilderView>,
    page: Seq<u8>,
    page_no: u32,
    frame_no: u32,
)
    ensures
        spent(lost(snapshot)),
        spent(snapshot) ==> {
            &&& CompactorCallback::delivered(base, snapshot, page, page_no, frame_no).is_err()
            &&& lost(snapshot) == snapshot
            &&& snapshot.is_some() ==> snapshot.unwrap().unsealable().is_some()
        },
{
}

impl CompactorCallback {
    /// The checkpoint's offset, once the first page has been delivered.
    pub closed spec fn base(&self) -> Option<u64> {
        self.base_frame_no
    }

    /// The checkpoint's snapshot, until the checkpoint is finished.
    pub closed spec fn snapshot(&self) -> Option<BuilderView> {
        match self.builder {
            Some(b) => Some(b@),
            None => None,
        }
    }

    /// What holds of every observer: before the first delivery its snapshot
    /// is empty, and after it every frame of the snapshot is numbered by the
    /// offset plus a local number.
    pub closed spec fn wf(&self) -> bool {
        match self.builder {
            None => true,
            Some(b) => {
                &&& b.wf()
                &&& match self.base_frame_no {
                    None => b@.frames.len() == 0,
                    Some(offset) => forall|i: int|
                        0 <= i < b@.frames.len() ==> offset <= (
                        #[trigger] b@.frames[i]).header.frame_no <= offset + u32::MAX,
                }
            },
        }
    }

    /// What a delivery does to an observer in the state (`base`, `snapshot`):
    /// the record to append to the staging file, the offset and the snapshot
    /// afterwards; or why the delivery is refused.
    pub open spec fn delivered(
        base: Option<u64>,
        snapshot: Option<BuilderView>,
        page: Seq<u8>,
        page_no: u32,
        frame_no: u32,
    ) -> Result<(Seq<u8>, u64, BuilderView), SnapshotError> {
        match renumbered(base, page, page_no, frame_no) {
            Err(e) => Err(e),
            Ok(frame) => match snapshot {
                None => Err(SnapshotError::Finished),
                Some(b) => match b.added(frame) {
                    Err(e) => Err(e),
                    Ok(next) => Ok(
                        (
                            frame_bytes(frame),
                            offset_for(base, page, page_no, frame_no).unwrap(),
                            next,
                        ),
                    ),
                },
            },
        }
    }

    /// The checkpoint's offset, once the first page has been delivered.
    pub fn base_frame_no(&self) -> (base: Option<u64>)
        ensures
            base == self.base(),
    {
        self.base_frame_no
    }

    /// Gives the checkpoint's snapshot up, if there still is one.
    fn lose_snapshot(&mut self)
        requires
            old(self).wf(),
        ensures
            final(self).wf(),
            final(self).base() == old(self).base(),
            final(self).snapshot() == lost(old(self).snapshot()),
    {
        match self.builder.take() {
            Some(mut builder) => {
                builder.give_up();
                self.builder = Some(builder);
            },
            None => {},
        }
    }

    /// Takes the delivery of one flushed page: `page` is page `page_no` of
    /// the database, and `frame_no` is its frame number within the
    /// checkpoint. Returns the frame's record, which is to be appended to the
    /// staging file.
    ///
    /// A delivery that is refused costs the checkpoint its snapshot.
    pub fn frame(&mut self, page: &[u8], page_no: u32, frame_no: u32) -> (r: Result<
        Vec<u8>,
        SnapshotError,
    >)
        requires
            old(self).wf(),
        ensures
            final(self).wf(),
            match Self::delivered(old(self).base(), old(self).snapshot(), page@, page_no, frame_no) {
                Err(e) => {
                    &&& r == Err::<Vec<u8>, SnapshotError>(e)
                    &&& final(self).base() == old(self).base()
                    &&& final(self).snapshot() == lost(old(self).snapshot())
                },
                Ok((record, offset, snapshot)) => {
                    &&& r.is_ok()
                    &&& r.unwrap()@ == record
                    &&& final(self).base() == Some(offset)
                    &&& final(self).snapshot() == Some(snapshot)
                },
            },
    {
        let (offset, frame) = match renumber_frame(self.base_frame_no, page, page_no, frame_no) {
            Ok(numbered) => numbered,
            Err(e) => {
                self.lose_snapshot();
                return Err(e);
            },
        };
        let mut builder = match self.builder.take() {
            Some(builder) => builder,
            None => {
                return Err(SnapshotError::Finished);
            },
        };
        proof {
            if builder@.frames.len() > 0 {
                lemma_descending_len(builder@.frames);
            }
        }
        let r = builder.add_frame(&frame);
        if r.is_ok() {
            self.base_frame_no = Some(offset);
        }
        self.builder = Some(builder);
        r
    }

    /// Takes the end of the checkpoint and seals the snapshot, if it can be
    /// sealed. An observer finishes once: afterwards it has no snapshot, and
    /// refuses deliveries and further ends.
    pub fn finish(&mut self) -> (r: Result<SealedSnapshot, SnapshotError>)
        requires
            old(self).wf(),
        ensures
            final(self).wf(),
            final(self).snapshot().is_none(),
            final(self).base() == old(self).base(),
            match old(self).snapshot() {
                None => r == Err::<SealedSnapshot, SnapshotError>(SnapshotError::Finished),
                Some(snapshot) => match snapshot.unsealable() {
                    Some(e) => r == Err::<SealedSnapshot, SnapshotError>(e),
                    None => r.is_ok() && snapshot.seals_to(r.unwrap()),
                },
            },
    {
        match self.builder.take() {
            Some(builder) => builder.finish(),
            None => Err(SnapshotError::Finished),
        }
    }
}

/// What a wrapper is, mathematically: the store it feeds and the namespace it
/// watches.
pub struct WrapperView {
    /// The directories of the store that the snapshots go to.
    pub store: StoreView,
    /// The namespace whose checkpoints are observed.
    pub namespace: Seq<char>,
}

/// Wraps the checkpoints of one namespace so that each leaves a snapshot in
/// the store.
pub struct CompactorWrapper {
    store: SnapshotStore,
    name: String,
}

impl View for CompactorWrapper {
    type V = WrapperView;

    closed spec fn view(&self) -> WrapperView {
        WrapperView { store: self.store@, namespace: self.name@ }
    }
}

impl CompactorWrapper {
    /// The wrapper that sends the snapshots of the namespace `name` to
    /// `store`.
    pub fn new(store: SnapshotStore, name: String) -> (wrapper: CompactorWrapper)
        ensures
            wrapper@ == (WrapperView { store: store@, namespace: name@ }),
    {
        CompactorWrapper { store, name }
    }

    /// The store that the snapshots go to.
    pub fn store(&self) -> (store: &SnapshotStore)
        ensures
            store@ == self@.store,
    {
        &self.store
    }

    /// The namespace whose checkpoints are observed.
    pub fn name(&self) -> (name: &str)
        ensures
            name@ == self@.namespace,
    {
        self.name.as_str()
    }

    /// Begins the observation of one checkpoint of a database that holds
    /// `db_size` pages: starts a snapshot in the store and returns its
    /// observer, which has seen no page yet, together with the zeroed block
    /// that opens the staging file. The observer is then to be given every
    /// page that the checkpoint flushes, and its end.
    pub fn checkpoint(&self, db_size: u32) -> (r: (CompactorCallback, Vec<u8>))
        ensures
            r.0.wf(),
            r.0.base().is_none(),
            r.0.snapshot() == Some(
                BuilderView {
                    store: self@.store,
                    namespace: self@.namespace,
                    db_size,
                    frames: Seq::empty(),
                    broken: false,
                },
            ),
            r.1@ == zeros(SNAPSHOT_HEADER_SIZE as nat),
    {
        let (builder, placeholder) = self.store.builder(self.name.clone(), db_size);
        (CompactorCallback { builder: Some(builder), base_frame_no: None }, placeholder)
    }
}

} // verus!
