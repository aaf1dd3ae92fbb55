//! The fixed-size header at the start of every snapshot file.

use vstd::bytes::*;
use vstd::prelude::*;
use vstd::slice::*;
use zerocopy::AsBytes;
use zerocopy::FromZeroes;

verus! {

/// Number of bytes in an encoded snapshot header.
pub const SNAPSHOT_HEADER_SIZE: usize = 48;

/// The header of a snapshot file. Its values are known only once the last
/// frame has been seen, so the file is started with a zeroed block of the same
/// size that is overwritten when the snapshot is sealed.
#[derive(Clone, Copy, Debug, PartialEq, Eq, Structural)]
pub struct SnapshotHeader {
    /// Identifier of the log the snapshot belongs to. Reserved: always zero.
    pub log_id: u128,
    /// Smallest replication frame number in the snapshot.
    pub start_frame_no: u64,
    /// Largest replication frame number in the snapshot.
    pub end_frame_no: u64,
    /// Number of frame records that follow the header.
    pub frame_count: u64,
    /// Size of the database, in pages, when the checkpoint began.
    pub size_after: u32,
}

/// `n` zero bytes.
pub open spec fn zeros(n: nat) -> Seq<u8> {
    Seq::new(n, |i: int| 0u8)
}

/// The encoding of a snapshot header: all fields little-endian, in order,
/// padded with four zero bytes.
pub open spec fn snapshot_header_bytes(h: SnapshotHeader) -> Seq<u8> {
    spec_u128_to_le_bytes(h.log_id) + spec_u64_to_le_bytes(h.start_frame_no)
        + spec_u64_to_le_bytes(h.end_frame_no) + spec_u64_to_le_bytes(h.frame_count)
        + spec_u32_to_le_bytes(h.size_after) + zeros(4)
}

/// The header held by the first `SNAPSHOT_HEADER_SIZE` bytes of `b`, if `b`
/// is that long. The padding is not looked at.
pub open spec fn parse_snapshot_header(b: Seq<u8>) -> Option<SnapshotHeader> {
    if b.len() >= SNAPSHOT_HEADER_SIZE {
        Some(
            SnapshotHeader {
                log_id: spec_u128_from_le_bytes(b.subrange(0, 16)),
                start_frame_no: spec_u64_from_le_bytes(b.subrange(16, 24)),
                end_frame_no: spec_u64_from_le_bytes(b.subrange(24, 32)),
                frame_count: spec_u64_from_le_bytes(b.subrange(32, 40)),
                size_after: spec_u32_from_le_bytes(b.subrange(40, 44)),
            },
        )
    } else {
        None
    }
}

/// An encoded header is `SNAPSHOT_HEADER_SIZE` bytes long and decodes to
/// itself, whatever follows it.
pub proof fn lemma_snapshot_header_round_trip(h: SnapshotHeader, rest: Seq<u8>)
    ensures
        snapshot_header_bytes(h).len() == SNAPSHOT_HEADER_SIZE,
        parse_snapshot_header(snapshot_header_bytes(h) + rest) == Some(h),
{
    lemma_auto_spec_u128_to_from_le_bytes();
    lemma_auto_spec_u64_to_from_le_bytes();
    lemma_auto_spec_u32_to_from_le_bytes();
    let b = snapshot_header_bytes(h) + rest;
    assert(b.subrange(0, 16) =~= spec_u128_to_le_bytes(h.log_id));
    assert(b.subrange(16, 24) =~= spec_u64_to_le_bytes(h.start_frame_no));
    assert(b.subrange(24, 32) =~= spec_u64_to_le_bytes(h.end_frame_no));
    assert(b.subrange(32, 40) =~= spec_u64_to_le_bytes(h.frame_count));
    assert(b.subrange(40, 44) =~= spec_u32_to_le_bytes(h.size_after));
}

/// Copies out the bytes (zerocopy's `AsBytes::as_bytes`) of a
/// `SnapshotFileHeader` of `libsql_replication` that holds the given values
/// and default padding. The type is `repr(C)` over byte-aligned little-endian
/// fields and a four-byte pad, so its bytes are the fields in order, then the
/// pad.
#[verifier::external_body]
fn encode_snapshot_header(h: &SnapshotHeader) -> (bytes: Vec<u8>)
    ensures
        bytes@ == snapshot_header_bytes(*h),
{
    let header = libsql_replication::snapshot::SnapshotFileHeader {
        log_id: h.log_id.into(),
        start_frame_no: h.start_frame_no.into(),
        end_frame_no: h.end_frame_no.into(),
        frame_count: h.frame_count.into(),
        size_after: h.size_after.into(),
        _pad: Default::default(),
    };
    header.as_bytes().to_vec()
}

/// Copies out the bytes of an all-zero `SnapshotFileHeader` of
/// `libsql_replication`, made by zerocopy's `FromZeroes::new_zeroed`:
/// `SNAPSHOT_HEADER_SIZE` zero bytes.
#[verifier::external_body]
fn zeroed_snapshot_header() -> (bytes: Vec<u8>)
    ensures
        bytes@ == zeros(SNAPSHOT_HEADER_SIZE as nat),
{
    libsql_replication::snapshot::SnapshotFileHeader::new_zeroed().as_bytes().to_vec()
}

impl SnapshotHeader {
    /// The header as it is written at the start of a snapshot file.
    pub fn to_bytes(&self) -> (bytes: Vec<u8>)
        ensures
            bytes@ == snapshot_header_bytes(*self),
            bytes@.len() == SNAPSHOT_HEADER_SIZE,
    {
        proof {
            lemma_snapshot_header_round_trip(*self, Seq::empty());
        }
        encode_snapshot_header(self)
    }

    /// The block that reserves the header's place while the frames are being
    /// written: as long as a header, and all zero.
    pub fn placeholder() -> (bytes: Vec<u8>)
        ensures
            bytes@ == zeros(SNAPSHOT_HEADER_SIZE as nat),
    {
        zeroed_snapshot_header()
    }

    /// Reads a header back from the start of `bytes`. Fails only when `bytes`
    /// is shorter than a header.
    pub fn from_bytes(bytes: &[u8]) -> (r: Option<SnapshotHeader>)
        ensures
            r == parse_snapshot_header(bytes@),
    {
        if bytes.len() < SNAPSHOT_HEADER_SIZE {
            return None;
        }
        Some(
            SnapshotHeader {
                log_id: u128_from_le_bytes(slice_subrange(bytes, 0, 16)),
                start_frame_no: u64_from_le_bytes(slice_subrange(bytes, 16, 24)),
                end_frame_no: u64_from_le_bytes(slice_subrange(bytes, 24, 32)),
                frame_count: u64_from_le_bytes(slice_subrange(bytes, 32, 40)),
                size_after: u32_from_le_bytes(slice_subrange(bytes, 40, 44)),
            },
        )
    }
}

} // verus!
