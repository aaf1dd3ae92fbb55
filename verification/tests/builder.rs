use std::io::{Read, Seek, SeekFrom, Write};

use wal_snapshot::error::SnapshotError;
use wal_snapshot::frame::{Frame, FrameHeader, FRAME_SIZE, PAGE_SIZE};
use wal_snapshot::header::{SnapshotHeader, SNAPSHOT_HEADER_SIZE};
use wal_snapshot::image::read_snapshot;
use wal_snapshot::snapshot_store::{SnapshotBuilder, SnapshotStore};

fn page_filled_with(byte: u8) -> Vec<u8> {
    vec![byte; PAGE_SIZE]
}

fn frame(frame_no: u64, page_no: u32, fill: u8) -> Frame {
    let header = FrameHeader { frame_no, checksum: 0, page_no, size_after: 0 };
    Frame::from_parts(&header, &page_filled_with(fill)).unwrap()
}

fn new_builder(namespace: &str, db_size: u32) -> (SnapshotBuilder, Vec<u8>) {
    SnapshotStore::new("/var/lib/db").builder(namespace.to_string(), db_size)
}

#[test]
fn store_lays_out_its_two_directories() {
    let store = SnapshotStore::new("/var/lib/db");
    assert_eq!(store.snapshots_path(), "/var/lib/db/snapshots");
    assert_eq!(store.temp_path(), "/var/lib/db/tmp");
}

#[test]
fn store_joins_as_paths_are_joined() {
    let store = SnapshotStore::new("data/");
    assert_eq!(store.snapshots_path(), "data/snapshots");
    assert_eq!(store.temp_path(), "data/tmp");
    let store = SnapshotStore::new("");
    assert_eq!(store.snapshots_path(), "snapshots");
    assert_eq!(store.temp_path(), "tmp");
}

#[test]
fn store_with_given_directories() {
    let store = SnapshotStore::with_paths("/a/sealed".to_string(), "/b/staging".to_string());
    assert_eq!(store.snapshots_path(), "/a/sealed");
    assert_eq!(store.temp_path(), "/b/staging");
}

#[test]
fn builder_starts_empty_behind_a_zeroed_block() {
    let (builder, placeholder) = new_builder("ns", 10);
    assert_eq!(placeholder, vec![0u8; SNAPSHOT_HEADER_SIZE]);
    assert_eq!(builder.frame_count(), 0);
    assert_eq!(builder.last_seen_frame_no(), None);
}

#[test]
fn add_frame_returns_the_record() {
    let (mut builder, _) = new_builder("ns", 10);
    let f = frame(9, 4, 0x5a);
    let record = builder.add_frame(&f).unwrap();
    assert_eq!(record, f.to_bytes());
    assert_eq!(record.len(), FRAME_SIZE);
    assert_eq!(&record[0..8], &9u64.to_le_bytes());
    assert_eq!(&record[24..], &page_filled_with(0x5a)[..]);
    assert_eq!(builder.frame_count(), 1);
    assert_eq!(builder.last_seen_frame_no(), Some(9));
}

#[test]
fn falling_frames_are_sealed_under_their_range() {
    let (mut builder, _) = new_builder("ns", 33);
    for (n, frame_no) in [50u64, 49, 40, 12, 3].into_iter().enumerate() {
        assert!(builder.add_frame(&frame(frame_no, 1 + n as u32, n as u8)).is_ok());
    }
    let sealed = builder.finish().unwrap();
    assert_eq!(
        sealed.header,
        SnapshotHeader {
            log_id: 0,
            start_frame_no: 3,
            end_frame_no: 50,
            frame_count: 5,
            size_after: 33,
        }
    );
    assert_eq!(sealed.header_bytes, sealed.header.to_bytes());
    assert_eq!(sealed.name, "ns-3-50.snap");
    assert_eq!(sealed.path, "/var/lib/db/snapshots/ns-3-50.snap");
}

#[test]
fn a_single_frame_starts_and_ends_its_snapshot() {
    let (mut builder, _) = new_builder("solo", 1);
    builder.add_frame(&frame(7, 1, 0)).unwrap();
    let sealed = builder.finish().unwrap();
    assert_eq!(sealed.header.start_frame_no, 7);
    assert_eq!(sealed.header.end_frame_no, 7);
    assert_eq!(sealed.header.frame_count, 1);
    assert_eq!(sealed.name, "solo-7-7.snap");
}

#[test]
fn frame_number_zero_can_close_a_snapshot() {
    let (mut builder, _) = new_builder("ns", 1);
    builder.add_frame(&frame(1, 1, 0)).unwrap();
    builder.add_frame(&frame(0, 2, 0)).unwrap();
    let sealed = builder.finish().unwrap();
    assert_eq!(sealed.header.start_frame_no, 0);
    assert_eq!(sealed.header.end_frame_no, 1);
}

#[test]
fn nothing_comes_below_frame_number_zero() {
    let (mut builder, _) = new_builder("ns", 1);
    builder.add_frame(&frame(0, 1, 0)).unwrap();
    assert_eq!(builder.add_frame(&frame(0, 2, 0)), Err(SnapshotError::OutOfOrder));
}

#[test]
fn a_rising_frame_is_refused() {
    let (mut builder, _) = new_builder("ns", 10);
    builder.add_frame(&frame(10, 1, 0)).unwrap();
    assert_eq!(builder.add_frame(&frame(11, 2, 0)), Err(SnapshotError::OutOfOrder));
}

#[test]
fn a_far_higher_frame_is_refused() {
    let (mut builder, _) = new_builder("ns", 10);
    builder.add_frame(&frame(10, 1, 0)).unwrap();
    builder.add_frame(&frame(4, 1, 0)).unwrap();
    assert_eq!(builder.add_frame(&frame(u64::MAX, 2, 0)), Err(SnapshotError::OutOfOrder));
}

#[test]
fn a_repeated_frame_is_refused() {
    let (mut builder, _) = new_builder("ns", 10);
    builder.add_frame(&frame(10, 1, 0)).unwrap();
    assert_eq!(builder.add_frame(&frame(10, 1, 0)), Err(SnapshotError::OutOfOrder));
}

#[test]
fn a_refused_frame_is_not_counted() {
    let (mut builder, _) = new_builder("ns", 10);
    builder.add_frame(&frame(10, 1, 0)).unwrap();
    builder.add_frame(&frame(8, 2, 0)).unwrap();
    assert!(!builder.is_broken());
    assert_eq!(builder.add_frame(&frame(9, 3, 0)), Err(SnapshotError::OutOfOrder));
    assert_eq!(builder.frame_count(), 2);
    assert_eq!(builder.last_seen_frame_no(), Some(8));
    assert!(builder.is_broken());
}

#[test]
fn a_refused_frame_loses_the_snapshot() {
    let (mut builder, _) = new_builder("ns", 10);
    builder.add_frame(&frame(10, 1, 0)).unwrap();
    assert_eq!(builder.add_frame(&frame(10, 2, 0)), Err(SnapshotError::OutOfOrder));
    assert_eq!(builder.add_frame(&frame(9, 3, 0)), Err(SnapshotError::Broken));
    assert_eq!(builder.add_frame(&frame(12, 3, 0)), Err(SnapshotError::Broken));
    assert_eq!(builder.frame_count(), 1);
    assert!(matches!(builder.finish(), Err(SnapshotError::Broken)));
}

#[test]
fn a_lost_snapshot_is_not_sealed_under_any_name() {
    let (mut builder, _) = new_builder("ns", 10);
    builder.add_frame(&frame(10, 1, 0)).unwrap();
    assert_eq!(builder.add_frame(&frame(11, 2, 0)), Err(SnapshotError::OutOfOrder));
    assert!(matches!(builder.finish_as("mine.snap".to_string()), Err(SnapshotError::Broken)));
}

#[test]
fn a_snapshot_can_be_given_up() {
    let (mut builder, _) = new_builder("ns", 10);
    builder.add_frame(&frame(10, 1, 0)).unwrap();
    builder.give_up();
    assert!(builder.is_broken());
    assert_eq!(builder.add_frame(&frame(9, 2, 0)), Err(SnapshotError::Broken));
    assert!(matches!(builder.finish(), Err(SnapshotError::Broken)));

    let (mut empty, _) = new_builder("ns", 10);
    empty.give_up();
    assert!(matches!(empty.finish(), Err(SnapshotError::Broken)));
}

#[test]
fn an_empty_snapshot_is_not_sealed() {
    let (builder, _) = new_builder("ns", 10);
    assert!(matches!(builder.finish(), Err(SnapshotError::NoFrames)));
}

#[test]
fn an_empty_snapshot_is_not_sealed_under_any_name() {
    let (builder, _) = new_builder("ns", 10);
    assert!(matches!(builder.finish_as("mine.snap".to_string()), Err(SnapshotError::NoFrames)));
}

#[test]
fn a_snapshot_can_be_sealed_under_another_name() {
    let (mut builder, _) = new_builder("ns", 10);
    builder.add_frame(&frame(6, 1, 0)).unwrap();
    builder.add_frame(&frame(5, 2, 0)).unwrap();
    let sealed = builder.finish_as("0f3a.snap".to_string()).unwrap();
    assert_eq!(sealed.name, "0f3a.snap");
    assert_eq!(sealed.path, "/var/lib/db/snapshots/0f3a.snap");
    assert_eq!(sealed.header.start_frame_no, 5);
    assert_eq!(sealed.header.end_frame_no, 6);
    assert_eq!(sealed.header.frame_count, 2);
    assert_eq!(sealed.header.size_after, 10);
}

#[test]
fn a_sealed_file_reads_back_as_it_was_built() {
    let frames = [frame(1005, 1, 0x11), frame(1004, 9, 0x22), frame(1003, 2, 0x33)];
    let (mut builder, placeholder) = new_builder("ns", 64);
    let mut file = placeholder;
    for f in &frames {
        file.extend_from_slice(&builder.add_frame(f).unwrap());
    }
    let sealed = builder.finish().unwrap();
    file[..SNAPSHOT_HEADER_SIZE].copy_from_slice(&sealed.header_bytes);

    assert_eq!(file.len(), SNAPSHOT_HEADER_SIZE + 3 * FRAME_SIZE);
    let (header, read) = read_snapshot(&file).unwrap();
    assert_eq!(header, sealed.header);
    assert_eq!(read.len(), 3);
    for (got, want) in read.iter().zip(frames.iter()) {
        assert_eq!(got.header().frame_no, want.header().frame_no);
        assert_eq!(got.header().page_no, want.header().page_no);
        assert_eq!(got.page(), want.page());
    }
    assert_eq!(read[0].header().frame_no, 1005);
    assert_eq!(read[1].header().page_no, 9);
    assert_eq!(read[2].page(), &page_filled_with(0x33)[..]);
}

#[test]
fn a_staged_file_reads_as_an_empty_snapshot() {
    let (mut builder, placeholder) = new_builder("ns", 64);
    let mut file = placeholder;
    file.extend_from_slice(&builder.add_frame(&frame(2, 1, 0)).unwrap());
    let (header, read) = read_snapshot(&file).unwrap();
    assert_eq!(header.frame_count, 0);
    assert!(read.is_empty());
}

#[test]
fn a_cut_file_does_not_read() {
    let (mut builder, placeholder) = new_builder("ns", 64);
    let mut file = placeholder;
    file.extend_from_slice(&builder.add_frame(&frame(2, 1, 0)).unwrap());
    file.extend_from_slice(&builder.add_frame(&frame(1, 2, 0)).unwrap());
    let sealed = builder.finish().unwrap();
    file[..SNAPSHOT_HEADER_SIZE].copy_from_slice(&sealed.header_bytes);
    assert!(read_snapshot(&file).is_some());
    assert!(read_snapshot(&file[..file.len() - 1]).is_none());
    assert!(read_snapshot(&file[..SNAPSHOT_HEADER_SIZE]).is_none());
    assert!(read_snapshot(&file[..SNAPSHOT_HEADER_SIZE - 1]).is_none());
    assert!(read_snapshot(&[]).is_none());
}

#[test]
fn bytes_after_the_last_record_are_not_read() {
    let (mut builder, placeholder) = new_builder("ns", 64);
    let mut file = placeholder;
    file.extend_from_slice(&builder.add_frame(&frame(2, 1, 7)).unwrap());
    let sealed = builder.finish().unwrap();
    file[..SNAPSHOT_HEADER_SIZE].copy_from_slice(&sealed.header_bytes);
    file.extend_from_slice(&[1, 2, 3]);
    let (header, read) = read_snapshot(&file).unwrap();
    assert_eq!(header.frame_count, 1);
    assert_eq!(read.len(), 1);
    assert_eq!(read[0].header().frame_no, 2);
}

#[test]
fn two_namespaces_build_side_by_side() {
    let store = SnapshotStore::new("/srv");
    let (mut left, left_start) = store.builder("left".to_string(), 5);
    let (mut right, right_start) = store.builder("right".to_string(), 6);
    let mut left_file = left_start;
    let mut right_file = right_start;

    left_file.extend_from_slice(&left.add_frame(&frame(20, 1, 0xa0)).unwrap());
    right_file.extend_from_slice(&right.add_frame(&frame(300, 1, 0xb0)).unwrap());
    left_file.extend_from_slice(&left.add_frame(&frame(19, 2, 0xa1)).unwrap());
    right_file.extend_from_slice(&right.add_frame(&frame(299, 2, 0xb1)).unwrap());
    right_file.extend_from_slice(&right.add_frame(&frame(298, 3, 0xb2)).unwrap());

    let left_sealed = left.finish().unwrap();
    let right_sealed = right.finish().unwrap();
    left_file[..SNAPSHOT_HEADER_SIZE].copy_from_slice(&left_sealed.header_bytes);
    right_file[..SNAPSHOT_HEADER_SIZE].copy_from_slice(&right_sealed.header_bytes);

    assert_eq!(left_sealed.path, "/srv/snapshots/left-19-20.snap");
    assert_eq!(right_sealed.path, "/srv/snapshots/right-298-300.snap");
    assert_eq!(left_sealed.header.size_after, 5);
    assert_eq!(right_sealed.header.size_after, 6);

    let (_, left_frames) = read_snapshot(&left_file).unwrap();
    let (_, right_frames) = read_snapshot(&right_file).unwrap();
    let left_fills: Vec<u8> = left_frames.iter().map(|f| f.page()[0]).collect();
    let right_fills: Vec<u8> = right_frames.iter().map(|f| f.page()[0]).collect();
    assert_eq!(left_fills, vec![0xa0, 0xa1]);
    assert_eq!(right_fills, vec![0xb0, 0xb1, 0xb2]);
}

#[test]
fn a_snapshot_is_staged_and_backfilled_on_disk() {
    let dir = tempfile::tempdir().unwrap();
    let root = dir.path().to_str().unwrap().to_string();
    let store = SnapshotStore::new(&root);

    let mut staging = tempfile::NamedTempFile::new_in(dir.path()).unwrap();
    let (mut builder, placeholder) = store.builder("disk".to_string(), 3);
    staging.write_all(&placeholder).unwrap();
    for (frame_no, fill) in [(12u64, 1u8), (11, 2), (10, 3)] {
        let record = builder.add_frame(&frame(frame_no, fill as u32, fill)).unwrap();
        staging.write_all(&record).unwrap();
    }
    let sealed = builder.finish().unwrap();
    staging.seek(SeekFrom::Start(0)).unwrap();
    staging.write_all(&sealed.header_bytes).unwrap();
    staging.flush().unwrap();

    let mut written = Vec::new();
    staging.seek(SeekFrom::Start(0)).unwrap();
    staging.read_to_end(&mut written).unwrap();
    let (header, frames) = read_snapshot(&written).unwrap();
    assert_eq!(header.start_frame_no, 10);
    assert_eq!(header.end_frame_no, 12);
    assert_eq!(header.frame_count, 3);
    assert_eq!(header.size_after, 3);
    let numbers: Vec<u64> = frames.iter().map(|f| f.header().frame_no).collect();
    assert_eq!(numbers, vec![12, 11, 10]);
    assert_eq!(sealed.path, format!("{root}/snapshots/disk-10-12.snap"));
}

#[test]
fn a_published_snapshot_opens_in_the_replication_crate() {
    let dir = tempfile::tempdir().unwrap();
    let store = SnapshotStore::new(dir.path().to_str().unwrap());
    let runtime = tokio::runtime::Builder::new_current_thread().enable_all().build().unwrap();
    runtime.block_on(async {
        tokio::fs::create_dir_all(store.snapshots_path()).await.unwrap();
        tokio::fs::create_dir_all(store.temp_path()).await.unwrap();
    });

    let mut staging = tempfile::NamedTempFile::new_in(store.temp_path()).unwrap();
    let (mut builder, placeholder) = store.builder("ns".to_string(), 77);
    staging.write_all(&placeholder).unwrap();
    staging.write_all(&builder.add_frame(&frame(31, 1, 0xc1)).unwrap()).unwrap();
    staging.write_all(&builder.add_frame(&frame(30, 6, 0xc2)).unwrap()).unwrap();
    let sealed = builder.finish().unwrap();
    staging.seek(SeekFrom::Start(0)).unwrap();
    staging.write_all(&sealed.header_bytes).unwrap();
    staging.flush().unwrap();
    staging.persist(&sealed.path).unwrap();

    assert!(sealed.path.ends_with("/snapshots/ns-30-31.snap"));
    let header = runtime.block_on(async {
        let file = libsql_replication::snapshot::SnapshotFile::open(&sealed.path, None)
            .await
            .unwrap();
        *file.header()
    });
    assert_eq!(header.log_id.get(), 0);
    assert_eq!(header.start_frame_no.get(), 30);
    assert_eq!(header.end_frame_no.get(), 31);
    assert_eq!(header.frame_count.get(), 2);
    assert_eq!(header.size_after.get(), 77);
}

#[test]
fn a_header_that_counts_more_frames_than_follow_does_not_read() {
    let header = SnapshotHeader {
        log_id: 0,
        start_frame_no: 1,
        end_frame_no: 2,
        frame_count: 2,
        size_after: 1,
    };
    let mut file = header.to_bytes();
    file.extend_from_slice(&frame(2, 1, 0).to_bytes());
    assert!(read_snapshot(&file).is_none());
    file.extend_from_slice(&frame(1, 2, 0).to_bytes());
    assert!(read_snapshot(&file).is_some());

    let greedy = SnapshotHeader { frame_count: u64::MAX, ..header };
    file[..SNAPSHOT_HEADER_SIZE].copy_from_slice(&greedy.to_bytes());
    assert!(read_snapshot(&file).is_none());
}

#[test]
fn frames_without_a_gap_fill_their_range() {
    let (mut builder, _) = new_builder("ns", 4);
    for frame_no in [9u64, 8, 7, 6] {
        builder.add_frame(&frame(frame_no, 1, 0)).unwrap();
    }
    let header = builder.finish().unwrap().header;
    assert_eq!(header.frame_count, header.end_frame_no - header.start_frame_no + 1);
}
