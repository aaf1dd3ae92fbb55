//! The snapshot store and the builder of one snapshot.
//!
//! The store knows two directories: one for snapshots that are being built and
//! one for sealed snapshots. A builder follows one snapshot from its first
//! frame to its sealing. Neither touches the file system: the builder hands
//! back the bytes that belong in the staging file, in the order in which they
//! are to be written, and on sealing the header that replaces the zeroed block
//! at the file's start and the path to which the file is to be renamed.

use crate::error::SnapshotError;
use crate::frame::{frame_bytes, Frame, FrameView, PAGE_SIZE};
use crate::header::{snapshot_header_bytes, zeros, SnapshotHeader, SNAPSHOT_HEADER_SIZE};
use crate::image::{
    lemma_backfill, lemma_records_bytes_push, lemma_snapshot_round_trip, page_sized,
    parse_snapshot, snapshot_bytes, staged_bytes,
};
use crate::naming::{snapshot_name, snapshot_name_spec};
use std::sync::Arc;
use vstd::prelude::*;

verus! {

/// The path that `std::path::Path::join` makes of `base` and `leaf`, by the
/// rules of the platform that the crate is built for.
pub uninterp spec fn joined_path(base: Seq<char>, leaf: Seq<char>) -> Seq<char>;

/// `std::path::Path::join`, on text: the path `base` with `leaf` adjoined.
#[verifier::external_body]
fn join_path(base: &str, leaf: &str) -> (path: String)
    ensures
        path@ == joined_path(base@, leaf@),
{
    std::path::Path::new(base).join(leaf).to_string_lossy().into_owned()
}

/// The two directories of a store.
pub struct StoreView {
    /// Where sealed snapshots are published.
    pub snapshots_path: Seq<char>,
    /// Where snapshots are staged while they are built.
    pub temp_path: Seq<char>,
}

/// The directories of a store, shared by the store and its builders.
pub struct SnapshotStoreInner {
    snapshots_path: String,
    temp_path: String,
}

impl View for SnapshotStoreInner {
    type V = StoreView;

    closed spec fn view(&self) -> StoreView {
        StoreView { snapshots_path: self.snapshots_path@, temp_path: self.temp_path@ }
    }
}

impl SnapshotStoreInner {
    /// The directory of sealed snapshots.
    pub fn snapshots_path(&self) -> (path: &str)
        ensures
            path@ == self@.snapshots_path,
    {
        self.snapshots_path.as_str()
    }

    /// The directory of snapshots in progress.
    pub fn temp_path(&self) -> (path: &str)
        ensures
            path@ == self@.temp_path,
    {
        self.temp_path.as_str()
    }
}

/// Owns the on-disk layout of the snapshots and hands out builders.
pub struct SnapshotStore {
    inner: Arc<SnapshotStoreInner>,
}

impl View for SnapshotStore {
    type V = StoreView;

    closed spec fn view(&self) -> StoreView {
        self.inner@
    }
}

impl SnapshotStore {
    /// The store rooted at `db_path`: sealed snapshots go to `snapshots`
    /// below it, snapshots in progress to `tmp`.
    pub fn new(db_path: &str) -> (store: SnapshotStore)
        ensures
            store@ == (StoreView {
                snapshots_path: joined_path(db_path@, "snapshots"@),
                temp_path: joined_path(db_path@, "tmp"@),
            }),
    {
        let snapshots_path = join_path(db_path, "snapshots");
        let temp_path = join_path(db_path, "tmp");
        SnapshotStore::with_paths(snapshots_path, temp_path)
    }

    /// The store that publishes to `snapshots_path` and stages in `temp_path`.
    pub fn with_paths(snapshots_path: String, temp_path: String) -> (store: SnapshotStore)
        ensures
            store@ == (StoreView { snapshots_path: snapshots_path@, temp_path: temp_path@ }),
    {
        SnapshotStore { inner: Arc::new(SnapshotStoreInner { snapshots_path, temp_path }) }
    }

    /// The directory of sealed snapshots.
    pub fn snapshots_path(&self) -> (path: &str)
        ensures
            path@ == self@.snapshots_path,
    {
        self.inner.snapshots_path()
    }

    /// The directory of snapshots in progress.
    pub fn temp_path(&self) -> (path: &str)
        ensures
            path@ == self@.temp_path,
    {
        self.inner.temp_path()
    }

    /// Starts a snapshot of `namespace_name`, whose database held `db_size`
    /// pages when the checkpoint began. Beside the builder comes the zeroed
    /// block that opens the staging file and keeps the header's place.
    pub fn builder(&self, namespace_name: String, db_size: u32) -> (r: (SnapshotBuilder, Vec<u8>))
        ensures
            r.0.wf(),
            r.0@ == (BuilderView {
                store: self@,
                namespace: namespace_name@,
                db_size,
                frames: Seq::empty(),
                broken: false,
            }),
            r.1@ == zeros(SNAPSHOT_HEADER_SIZE as nat),
            r.1@ == r.0@.staged(),
    {
        let placeholder = SnapshotHeader::placeholder();
        let builder = SnapshotBuilder {
            store: self.inner.clone(),
            frame_count: 0,
            end_frame_no: 0,
            last_seen_frame_no: None,
            db_size,
            name: namespace_name,
            broken: false,
            frames: Ghost(Seq::empty()),
        };
        (builder, placeholder)
    }
}

/// Whether the frame numbers of `frames` fall from each frame to the next.
pub open spec fn descending(frames: Seq<FrameView>) -> bool {
    forall|i: int, j: int|
        0 <= i < j < frames.len() ==> (#[trigger] frames[i]).header.frame_no > (
        #[trigger] frames[j]).header.frame_no
}

/// A run of falling frame numbers is no longer than the distance between its
/// first and its last number allows.
pub proof fn lemma_descending_len(frames: Seq<FrameView>)
    requires
        descending(frames),
        frames.len() > 0,
    ensures
        frames.len() <= frames.first().header.frame_no - frames.last().header.frame_no + 1,
    decreases frames.len(),
{
    if frames.len() > 1 {
        lemma_descending_len(frames.drop_last());
    }
}

/// In a run of falling frame numbers the `i`-th number lies at least `i` below
/// the first, and at least as far above the last as there are frames after it.
pub proof fn lemma_descending_bounds(frames: Seq<FrameView>, i: int)
    requires
        descending(frames),
        0 <= i < frames.len(),
    ensures
        frames.last().header.frame_no + (frames.len() - 1 - i) <= frames[i].header.frame_no,
        frames[i].header.frame_no <= frames.first().header.frame_no - i,
{
    lemma_descending_len(frames.subrange(0, i + 1));
    lemma_descending_len(frames.subrange(i, frames.len() as int));
}

/// What a builder is, mathematically: where it belongs and the frames it has
/// accepted, oldest call first.
pub struct BuilderView {
    /// The directories of the store that made the builder.
    pub store: StoreView,
    /// The namespace whose database is being checkpointed.
    pub namespace: Seq<char>,
    /// Size of the database, in pages, when the checkpoint began.
    pub db_size: u32,
    /// The frames added so far, in the order in which they were added.
    pub frames: Seq<FrameView>,
    /// Whether the snapshot is lost: given up, or fed a frame out of order.
    pub broken: bool,
}

impl BuilderView {
    /// What holds of the frames of every builder: their numbers fall, each
    /// carries one page, and their count fits the header's field.
    pub open spec fn valid(self) -> bool {
        &&& descending(self.frames)
        &&& page_sized(self.frames)
        &&& self.frames.len() <= u64::MAX
    }

    /// Whether a frame numbered `frame_no` is in order: any is in an empty
    /// builder, else only one below the number of the frame before it.
    pub open spec fn accepts(self, frame_no: u64) -> bool {
        self.frames.len() > 0 ==> frame_no < self.frames.last().header.frame_no
    }

    /// The builder after `frame` has been added.
    pub open spec fn with_frame(self, frame: FrameView) -> BuilderView {
        BuilderView { frames: self.frames.push(frame), ..self }
    }

    /// The builder after its snapshot has been lost.
    pub open spec fn given_up(self) -> BuilderView {
        BuilderView { broken: true, ..self }
    }

    /// What adding `frame` comes to: the builder with the frame, or why the
    /// frame is refused.
    pub open spec fn added(self, frame: FrameView) -> Result<BuilderView, SnapshotError> {
        if self.broken {
            Err(SnapshotError::Broken)
        } else if !self.accepts(frame.header.frame_no) {
            Err(SnapshotError::OutOfOrder)
        } else {
            Ok(self.with_frame(frame))
        }
    }

    /// Why the snapshot cannot be sealed, if it cannot: it is lost, or it
    /// holds no frame and so has no frame range.
    pub open spec fn unsealable(self) -> Option<SnapshotError> {
        if self.broken {
            Some(SnapshotError::Broken)
        } else if self.frames.len() == 0 {
            Some(SnapshotError::NoFrames)
        } else {
            None
        }
    }

    /// The header under which the snapshot is sealed: it starts at the number
    /// of the last frame added, which is the smallest, and ends at the number
    /// of the first, which is the largest.
    pub open spec fn sealed_header(self) -> SnapshotHeader
        recommends
            self.frames.len() > 0,
    {
        SnapshotHeader {
            log_id: 0,
            start_frame_no: self.frames.last().header.frame_no,
            end_frame_no: self.frames.first().header.frame_no,
            frame_count: self.frames.len() as u64,
            size_after: self.db_size,
        }
    }

    /// The file name under which the snapshot is published.
    pub open spec fn sealed_name(self) -> Seq<char>
        recommends
            self.frames.len() > 0,
    {
        snapshot_name_spec(
            self.namespace,
            self.sealed_header().start_frame_no,
            self.sealed_header().end_frame_no,
        )
    }

    /// The builder after the frames of `frames` have been added, one by one.
    pub open spec fn with_frames(self, frames: Seq<FrameView>) -> BuilderView
        decreases frames.len(),
    {
        if frames.len() == 0 {
            self
        } else {
            self.with_frames(frames.drop_last()).with_frame(frames.last())
        }
    }

    /// What the staging file holds once every record that the builder has
    /// handed out has been appended to it.
    pub open spec fn staged(self) -> Seq<u8> {
        staged_bytes(self.frames)
    }

    /// What the file holds once the sealed header has been written over its
    /// start.
    pub open spec fn sealed(self) -> Seq<u8>
        recommends
            self.frames.len() > 0,
    {
        snapshot_bytes(self.sealed_header(), self.frames)
    }

    /// Whether `sealed` is what sealing this snapshot under the file name
    /// `name` hands back.
    pub open spec fn seals_as(self, name: Seq<char>, sealed: SealedSnapshot) -> bool
        recommends
            self.frames.len() > 0,
    {
        &&& sealed.header == self.sealed_header()
        &&& sealed.header_bytes@ == snapshot_header_bytes(self.sealed_header())
        &&& sealed.name@ == name
        &&& sealed.path@ == joined_path(self.store.snapshots_path, name)
        &&& self.sealed() == sealed.header_bytes@ + self.staged().skip(SNAPSHOT_HEADER_SIZE as int)
    }

    /// Whether `sealed` is what sealing this snapshot under its usual name
    /// hands back.
    pub open spec fn seals_to(self, sealed: SealedSnapshot) -> bool
        recommends
            self.frames.len() > 0,
    {
        self.seals_as(self.sealed_name(), sealed)
    }
}

/// Adding frames one by one gathers them in the order of the calls.
pub proof fn lemma_with_frames(builder: BuilderView, frames: Seq<FrameView>)
    ensures
        builder.with_frames(frames) == (BuilderView {
            frames: builder.frames + frames,
            ..builder
        }),
    decreases frames.len(),
{
    if frames.len() > 0 {
        lemma_with_frames(builder, frames.drop_last());
        assert((builder.frames + frames.drop_last()).push(frames.last()) =~= builder.frames
            + frames);
    }
}

/// Frames whose numbers fall are all accepted by a new builder, one after the
/// other, and the snapshot can then be sealed, under a header that ends at
/// the number of the first frame, starts at the number of the last, and
/// counts as many frames as were added.
pub proof fn lemma_sealed_range(builder: BuilderView, frames: Seq<FrameView>)
    requires
        builder.frames.len() == 0,
        !builder.broken,
        descending(frames),
        0 < frames.len() <= u64::MAX,
    ensures
        forall|k: int|
            0 <= k < frames.len() ==> builder.with_frames(#[trigger] frames.take(k)).added(
                frames[k],
            ) == Ok::<BuilderView, SnapshotError>(builder.with_frames(frames.take(k + 1))),
        builder.with_frames(frames).frames == frames,
        builder.with_frames(frames).unsealable().is_none(),
        builder.with_frames(frames).sealed_header().end_frame_no == frames.first().header.frame_no,
        builder.with_frames(frames).sealed_header().start_frame_no == frames.last().header.frame_no,
        builder.with_frames(frames).sealed_header().frame_count == frames.len(),
        builder.with_frames(frames).sealed_header().size_after == builder.db_size,
{
    lemma_with_frames(builder, frames);
    assert forall|k: int| 0 <= k < frames.len() implies builder.with_frames(
        #[trigger] frames.take(k),
    ).added(frames[k]) == Ok::<BuilderView, SnapshotError>(
        builder.with_frames(frames.take(k + 1)),
    ) by {
        lemma_with_frames(builder, frames.take(k));
        lemma_with_frames(builder, frames.take(k + 1));
        assert((builder.frames + frames.take(k)).push(frames[k]) =~= builder.frames + frames.take(
            k + 1,
        ));
    }
}

/// A lost snapshot stays lost: it refuses every frame and cannot be sealed.
pub proof fn lemma_broken_stays_broken(builder: BuilderView, frame: FrameView)
    requires
        builder.broken,
    ensures
        builder.added(frame) == Err::<BuilderView, SnapshotError>(SnapshotError::Broken),
        builder.unsealable() == Some(SnapshotError::Broken),
        builder.given_up() == builder,
{
}

/// The frames of a sealed snapshot are numbered within the range of its
/// header, no two of them alike, and there are no more of them than the range
/// has numbers. Where there are as many, the frames are numbered from the end
/// of the range down to its start without a gap.
pub proof fn lemma_sealed_frames_in_range(builder: BuilderView)
    requires
        builder.valid(),
        builder.frames.len() > 0,
    ensures
        builder.sealed_header().start_frame_no <= builder.sealed_header().end_frame_no,
        builder.sealed_header().frame_count <= builder.sealed_header().end_frame_no
            - builder.sealed_header().start_frame_no + 1,
        forall|i: int|
            0 <= i < builder.frames.len() ==> builder.sealed_header().start_frame_no <= (
            #[trigger] builder.frames[i]).header.frame_no <= builder.sealed_header().end_frame_no,
        forall|i: int, j: int|
            0 <= i < j < builder.frames.len() ==> (#[trigger] builder.frames[i]).header.frame_no != (
            #[trigger] builder.frames[j]).header.frame_no,
        builder.sealed_header().frame_count == builder.sealed_header().end_frame_no
            - builder.sealed_header().start_frame_no + 1 ==> forall|i: int|
            0 <= i < builder.frames.len() ==> (#[trigger] builder.frames[i]).header.frame_no
                == builder.sealed_header().end_frame_no - i,
{
    let frames = builder.frames;
    lemma_descending_len(frames);
    assert forall|i: int| 0 <= i < frames.len() implies {
        &&& frames.last().header.frame_no <= (#[trigger] frames[i]).header.frame_no
            <= frames.first().header.frame_no
        &&& frames.len() == frames.first().header.frame_no - frames.last().header.frame_no + 1
            ==> frames[i].header.frame_no == frames.first().header.frame_no - i
    } by {
        lemma_descending_bounds(frames, i);
    }
}

/// A sealed snapshot reads back as it was built: the sealed header, then the
/// frames that the builder accepted, in the order in which they were added.
pub proof fn lemma_sealed_reads_back(builder: BuilderView)
    requires
        builder.valid(),
        builder.frames.len() > 0,
    ensures
        parse_snapshot(builder.sealed()) == Some((builder.sealed_header(), builder.frames)),
{
    lemma_snapshot_round_trip(builder.sealed_header(), builder.frames);
}

/// Follows one snapshot while its frames arrive, newest first.
pub struct SnapshotBuilder {
    store: Arc<SnapshotStoreInner>,
    frame_count: u64,
    end_frame_no: u64,
    last_seen_frame_no: Option<u64>,
    db_size: u32,
    name: String,
    broken: bool,
    frames: Ghost<Seq<FrameView>>,
}

impl View for SnapshotBuilder {
    type V = BuilderView;

    closed spec fn view(&self) -> BuilderView {
        BuilderView {
            store: self.store@,
            namespace: self.name@,
            db_size: self.db_size,
            frames: self.frames@,
            broken: self.broken,
        }
    }
}

/// What sealing a snapshot hands back: all that is left to do is to write
/// `header_bytes` over the start of the staging file, to flush the file, and
/// to rename it to `path`.
#[derive(Debug)]
pub struct SealedSnapshot {
    /// The header of the sealed snapshot.
    pub header: SnapshotHeader,
    /// The header as it is written over the zeroed block at the file's start.
    pub header_bytes: Vec<u8>,
    /// The snapshot's file name.
    pub name: String,
    /// The snapshot's place among the sealed snapshots of its store.
    pub path: String,
}

impl SnapshotBuilder {
    /// Whether the builder's counters agree with the frames it has accepted.
    pub closed spec fn counted(&self) -> bool {
        let frames = self.frames@;
        &&& self.frame_count == frames.len()
        &&& frames.len() == 0 ==> self.last_seen_frame_no.is_none()
        &&& frames.len() > 0 ==> self.end_frame_no == frames.first().header.frame_no
            && self.last_seen_frame_no == Some(frames.last().header.frame_no)
    }

    /// What holds of every builder.
    pub open spec fn wf(&self) -> bool {
        self.counted() && self@.valid()
    }

    /// Number of frames added so far.
    pub fn frame_count(&self) -> (n: u64)
        requires
            self.wf(),
        ensures
            n == self@.frames.len(),
    {
        self.frame_count
    }

    /// Number of the frame added last, if any was.
    pub fn last_seen_frame_no(&self) -> (n: Option<u64>)
        requires
            self.wf(),
        ensures
            self@.frames.len() == 0 ==> n.is_none(),
            self@.frames.len() > 0 ==> n == Some(self@.frames.last().header.frame_no),
    {
        self.last_seen_frame_no
    }

    /// Whether the snapshot is lost.
    pub fn is_broken(&self) -> (b: bool)
        ensures
            b == self@.broken,
    {
        self.broken
    }

    /// Gives the snapshot up: from now on it refuses every frame and cannot
    /// be sealed.
    pub fn give_up(&mut self)
        requires
            old(self).wf(),
        ensures
            final(self).wf(),
            final(self)@ == old(self)@.given_up(),
    {
        self.broken = true;
    }

    /// Adds `frame` to the snapshot and returns its record, which is to be
    /// appended to the staging file.
    ///
    /// The first frame may carry any number; it is the snapshot's newest.
    /// Every later frame must be numbered below the one before it. A frame
    /// that is not is refused, and the snapshot is lost with it: nothing can
    /// be added to it any more, and it cannot be sealed.
    ///
    /// The header counts the frames in 64 bits, so there must be room for
    /// one more.
    pub fn add_frame(&mut self, frame: &Frame) -> (r: Result<Vec<u8>, SnapshotError>)
        requires
            old(self).wf(),
            frame.wf(),
            old(self)@.frames.len() < u64::MAX,
        ensures
            final(self).wf(),
            match old(self)@.added(frame@) {
                Ok(next) => {
                    &&& r.is_ok()
                    &&& r.unwrap()@ == frame_bytes(frame@)
                    &&& final(self)@ == next
                    &&& final(self)@.staged() == old(self)@.staged() + r.unwrap()@
                },
                Err(e) => r == Err::<Vec<u8>, SnapshotError>(e) && final(self)@ == old(
                    self,
                )@.given_up(),
            },
    {
        if self.broken {
            return Err(SnapshotError::Broken);
        }
        let frame_no: u64 = frame.header().frame_no;
        match self.last_seen_frame_no {
            Some(last_seen) => {
                if !(last_seen > frame_no) {
                    self.broken = true;
                    return Err(SnapshotError::OutOfOrder);
                }
            },
            None => {
                self.end_frame_no = frame_no;
            },
        }
        self.last_seen_frame_no = Some(frame_no);
        self.frame_count += 1;
        proof {
            lemma_records_bytes_push(self.frames@, frame@);
            self.frames = Ghost(self.frames@.push(frame@));
        }
        Ok(frame.to_bytes())
    }

    /// Seals the snapshot under its usual name: the namespace and the frame
    /// range.
    ///
    /// A lost snapshot is not sealed, nor is one without a frame, which has
    /// no frame range.
    pub fn finish(self) -> (r: Result<SealedSnapshot, SnapshotError>)
        requires
            self.wf(),
        ensures
            match self@.unsealable() {
                Some(e) => r == Err::<SealedSnapshot, SnapshotError>(e),
                None => r.is_ok() && self@.seals_to(r.unwrap()),
            },
    {
        if self.broken {
            return Err(SnapshotError::Broken);
        }
        let start_frame_no: u64 = match self.last_seen_frame_no {
            Some(n) => n,
            None => {
                return Err(SnapshotError::NoFrames);
            },
        };
        let name = snapshot_name(self.name.as_str(), start_frame_no, self.end_frame_no);
        self.finish_as(name)
    }

    /// Seals the snapshot under the file name `name`, for stores that name
    /// their snapshots by a scheme of their own.
    ///
    /// The header starts at the number of the last frame added and ends at
    /// the number of the first. A lost snapshot is not sealed, nor is one
    /// without a frame, which has no frame range.
    pub fn finish_as(self, name: String) -> (r: Result<SealedSnapshot, SnapshotError>)
        requires
            self.wf(),
        ensures
            match self@.unsealable() {
                Some(e) => r == Err::<SealedSnapshot, SnapshotError>(e),
                None => r.is_ok() && self@.seals_as(name@, r.unwrap()),
            },
    {
        if self.broken {
            return Err(SnapshotError::Broken);
        }
        let start_frame_no: u64 = match self.last_seen_frame_no {
            Some(n) => n,
            None => {
                return Err(SnapshotError::NoFrames);
            },
        };
        let header = SnapshotHeader {
            log_id: 0,
            start_frame_no,
            end_frame_no: self.end_frame_no,
            frame_count: self.frame_count,
            size_after: self.db_size,
        };
        let header_bytes = header.to_bytes();
        proof {
            lemma_backfill(header, self.frames@);
        }
        let path = join_path(self.store.snapshots_path(), name.as_str());
        Ok(SealedSnapshot { header, header_bytes, name, path })
    }
}

} // verus!
