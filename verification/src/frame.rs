//! Frame records: a fixed-size frame header followed by one database page.

use vstd::bytes::*;
use vstd::prelude::*;
use vstd::slice::*;
use zerocopy::AsBytes;

verus! {

/// Number of bytes in one database page.
pub const PAGE_SIZE: usize = 4096;

/// Number of bytes in an encoded frame header.
pub const FRAME_HEADER_SIZE: usize = 24;

/// Number of bytes in an encoded frame record: header and page.
pub const FRAME_SIZE: usize = 4120;

/// The header of one frame record.
///
/// `checksum` is a placeholder: no checksum is computed anywhere in this
/// crate, and producers store zero. `size_after` is likewise left at zero by
/// the snapshot producer.
#[derive(Clone, Copy, Debug, PartialEq, Eq, Structural)]
pub struct FrameHeader {
    /// Replication frame number of the record.
    pub frame_no: u64,
    /// Reserved for a rolling checksum.
    pub checksum: u64,
    /// Number of the database page the record carries.
    pub page_no: u32,
    /// Database size, in pages, after the transaction that ends at this frame.
    pub size_after: u32,
}

/// What a frame is, mathematically: its header and its page bytes.
pub struct FrameView {
    pub header: FrameHeader,
    pub page: Seq<u8>,
}

/// A frame: a header together with exactly one page.
#[derive(Debug)]
pub struct Frame {
    header: FrameHeader,
    page: Vec<u8>,
}

impl View for Frame {
    type V = FrameView;

    closed spec fn view(&self) -> FrameView {
        FrameView { header: self.header, page: self.page@ }
    }
}

/// The encoding of a frame header: all fields little-endian, in the order of
/// the replication protocol's record: frame number, checksum, page number,
/// size.
pub open spec fn frame_header_bytes(h: FrameHeader) -> Seq<u8> {
    spec_u64_to_le_bytes(h.frame_no) + spec_u64_to_le_bytes(h.checksum) + spec_u32_to_le_bytes(
        h.page_no,
    ) + spec_u32_to_le_bytes(h.size_after)
}

/// The encoding of a frame record: the header, then the page as it is.
pub open spec fn frame_bytes(f: FrameView) -> Seq<u8> {
    frame_header_bytes(f.header) + f.page
}

/// The header held by the first `FRAME_HEADER_SIZE` bytes of `b`.
pub open spec fn parse_frame_header(b: Seq<u8>) -> FrameHeader
    recommends
        b.len() >= FRAME_HEADER_SIZE,
{
    FrameHeader {
        frame_no: spec_u64_from_le_bytes(b.subrange(0, 8)),
        checksum: spec_u64_from_le_bytes(b.subrange(8, 16)),
        page_no: spec_u32_from_le_bytes(b.subrange(16, 20)),
        size_after: spec_u32_from_le_bytes(b.subrange(20, 24)),
    }
}

/// The frame held by `b`, which must be exactly one record long.
pub open spec fn parse_frame(b: Seq<u8>) -> Option<FrameView> {
    if b.len() == FRAME_SIZE {
        Some(
            FrameView {
                header: parse_frame_header(b),
                page: b.subrange(FRAME_HEADER_SIZE as int, FRAME_SIZE as int),
            },
        )
    } else {
        None
    }
}

/// An encoded header is `FRAME_HEADER_SIZE` bytes long and decodes to itself.
pub proof fn lemma_frame_header_round_trip(h: FrameHeader, rest: Seq<u8>)
    ensures
        frame_header_bytes(h).len() == FRAME_HEADER_SIZE,
        parse_frame_header(frame_header_bytes(h) + rest) == h,
{
    lemma_auto_spec_u64_to_from_le_bytes();
    lemma_auto_spec_u32_to_from_le_bytes();
    let b = frame_header_bytes(h) + rest;
    assert(b.subrange(0, 8) =~= spec_u64_to_le_bytes(h.frame_no));
    assert(b.subrange(8, 16) =~= spec_u64_to_le_bytes(h.checksum));
    assert(b.subrange(16, 20) =~= spec_u32_to_le_bytes(h.page_no));
    assert(b.subrange(20, 24) =~= spec_u32_to_le_bytes(h.size_after));
}

/// Decoding an encoded frame gives the frame back.
pub proof fn lemma_frame_round_trip(f: FrameView)
    requires
        f.page.len() == PAGE_SIZE,
    ensures
        frame_bytes(f).len() == FRAME_SIZE,
        parse_frame(frame_bytes(f)) == Some(f),
{
    lemma_frame_header_round_trip(f.header, f.page);
    let b = frame_bytes(f);
    assert(b.subrange(FRAME_HEADER_SIZE as int, FRAME_SIZE as int) =~= f.page);
}

/// Lays out one frame record with `FrameBorrowed::from_parts` of
/// `libsql_replication` and copies out the bytes of the result (zerocopy's
/// `AsBytes::as_bytes`). The record type is `repr(C)` over byte-aligned
/// little-endian fields, so its bytes are the four header fields in order,
/// then the page. `from_parts` panics unless the page is `PAGE_SIZE` long.
#[verifier::external_body]
fn encode_frame(header: &FrameHeader, page: &[u8]) -> (bytes: Vec<u8>)
    requires
        page@.len() == PAGE_SIZE,
    ensures
        bytes@ == frame_header_bytes(*header) + page@,
{
    let h = libsql_replication::frame::FrameHeader {
        frame_no: header.frame_no.into(),
        checksum: header.checksum.into(),
        page_no: header.page_no.into(),
        size_after: header.size_after.into(),
    };
    libsql_replication::frame::FrameBorrowed::from_parts(&h, page).as_bytes().to_vec()
}

impl Frame {
    /// Every frame carries exactly one page.
    pub open spec fn wf(&self) -> bool {
        self@.page.len() == PAGE_SIZE
    }

    /// Builds a frame from a header and a page buffer. The buffer must hold
    /// exactly one page; any other length is refused.
    pub fn from_parts(header: &FrameHeader, page: &[u8]) -> (r: Option<Frame>)
        ensures
            page@.len() == PAGE_SIZE ==> r.is_some() && r.unwrap().wf() && r.unwrap()@ == (FrameView {
                header: *header,
                page: page@,
            }),
            page@.len() != PAGE_SIZE ==> r.is_none(),
    {
        if page.len() == PAGE_SIZE {
            Some(Frame { header: *header, page: slice_to_vec(page) })
        } else {
            None
        }
    }

    /// The frame's header.
    pub fn header(&self) -> (h: &FrameHeader)
        ensures
            *h == self@.header,
    {
        &self.header
    }

    /// The frame's page.
    pub fn page(&self) -> (p: &[u8])
        ensures
            p@ == self@.page,
    {
        self.page.as_slice()
    }

    /// The frame as it is written to a snapshot file.
    pub fn to_bytes(&self) -> (bytes: Vec<u8>)
        requires
            self.wf(),
        ensures
            bytes@ == frame_bytes(self@),
            bytes@.len() == FRAME_SIZE,
    {
        proof {
            lemma_frame_round_trip(self@);
        }
        encode_frame(&self.header, self.page.as_slice())
    }

    /// Reads one frame record back. The input must be exactly `FRAME_SIZE`
    /// bytes long.
    pub fn from_bytes(bytes: &[u8]) -> (r: Option<Frame>)
        ensures
            r.is_some() <==> parse_frame(bytes@).is_some(),
            r.is_some() ==> r.unwrap().wf() && r.unwrap()@ == parse_frame(bytes@).unwrap(),
    {
        if bytes.len() != FRAME_SIZE {
            return None;
        }
        let header = FrameHeader {
            frame_no: u64_from_le_bytes(slice_subrange(bytes, 0, 8)),
            checksum: u64_from_le_bytes(slice_subrange(bytes, 8, 16)),
            page_no: u32_from_le_bytes(slice_subrange(bytes, 16, 20)),
            size_after: u32_from_le_bytes(slice_subrange(bytes, 20, 24)),
        };
        let page = slice_to_vec(slice_subrange(bytes, FRAME_HEADER_SIZE, FRAME_SIZE));
        Some(Frame { header, page })
    }
}

} // verus!
