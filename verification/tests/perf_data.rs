use perf_rs::error::IoErrorKind;
use perf_rs::commands::record::write_process_events;
use perf_rs::error::PerfError;
use perf_rs::perf_core::perf_data::{
    CommEvent, MmapEvent, FinishedRoundEvent, PerfDataReader, PerfDataWriter, PerfEventAttr, PerfEventHeader,
    PerfFileHeader, PERF_ATTR_SIZE_VER8, PERF_FILE_HEADER_SIZE, PERF_FILE_MAGIC,
    PERF_FINISHED_ROUND_SIZE, PERF_RECORD_FINISHED_ROUND,
};

#[test]
fn test_header_serialization() {
    let header = PerfFileHeader::default();
    let mut buffer = Vec::new();

    header.write_to(&mut buffer);

    assert_eq!(&buffer[0..8], b"PERFILE2");

    let size = u64::from_le_bytes([
        buffer[8], buffer[9], buffer[10], buffer[11], buffer[12], buffer[13], buffer[14], buffer[15],
    ]);
    assert_eq!(size, 104);

    let read_header = PerfFileHeader::read_from(&buffer).unwrap();
    assert_eq!(read_header.magic, PERF_FILE_MAGIC);
    assert_eq!(read_header.size, PERF_FILE_HEADER_SIZE);
}

#[test]
fn test_finished_round_event() {
    let event = FinishedRoundEvent::new();
    assert_eq!(event.header.type_, PERF_RECORD_FINISHED_ROUND);
    assert_eq!(event.header.size, PERF_FINISHED_ROUND_SIZE);

    let mut buffer = Vec::new();
    event.write_to(&mut buffer);

    assert_eq!(buffer.len(), PERF_FINISHED_ROUND_SIZE as usize);
    assert_eq!(buffer[0], 68);
    assert_eq!(buffer[1], 0);
    assert_eq!(buffer[2], 0);
    assert_eq!(buffer[3], 0);
    assert_eq!(buffer[4], 6);
    assert_eq!(buffer[5], 0);
}

#[test]
fn test_perf_event_attr_default() {
    let attr = PerfEventAttr::default();
    assert_eq!(attr.size, PERF_ATTR_SIZE_VER8);
    assert_eq!(attr.clockid, -1);
}

#[test]
fn test_perf_event_attr_builder() {
    let attr = PerfEventAttr::new(0, 1, 0)
        .with_sample_freq(99)
        .with_sample_id_all(true)
        .with_comm(true)
        .with_mmap(true);

    assert_eq!(attr.type_, 0);
    assert_eq!(attr.config, 1);
    assert_eq!(attr.sample_period_or_freq, 99);
    assert_eq!(attr.bitfields & (1 << 11), 1 << 11);
    assert_eq!(attr.bitfields & (1 << 18), 1 << 18);
    assert_eq!(attr.bitfields & (1 << 8), 1 << 8);
    assert_eq!(attr.bitfields & (1 << 7), 1 << 7);
}

#[test]
fn test_writer_minimal() {
    let attr = PerfEventAttr::new(0, 0, 0);
    let ids = vec![vec![1u64]];

    let mut writer = PerfDataWriter::new();
    writer.initialize(&[attr], &ids).unwrap();
    writer.write_finished_round().unwrap();
    writer.align_to_8_bytes().unwrap();
    let data = writer.finalize().unwrap();

    assert_eq!(&data[0..8], b"PERFILE2");
}

fn le(b: &[u8], off: usize) -> u64 {
    u64::from_le_bytes(b[off..off + 8].try_into().unwrap())
}

#[test]
fn writer_layout() {
    let attr = PerfEventAttr::new(0, 0, 0);
    let ids = vec![vec![1u64, 2u64]];
    let mut writer = PerfDataWriter::new();
    writer.initialize(&[attr], &ids).unwrap();
    writer.write_finished_round().unwrap();
    writer.align_to_8_bytes().unwrap();
    let data = writer.finalize().unwrap();
    // header 104, one attribute entry of 144 + 16 bytes, two IDs of 8 bytes:
    // 280 bytes, already aligned; then the 6-byte record and 2 of padding.
    assert_eq!(data.len(), 288);
    assert_eq!(le(&data, 24), 104); // attrs.offset
    assert_eq!(le(&data, 32), 152); // attrs.size
    assert_eq!(le(&data, 40), 280); // data.offset
    assert_eq!(le(&data, 48), 8); // data.size: the record and its padding
    assert_eq!(le(&data, 104 + 144), 104 + 136 + 152); // ids offset of the entry
    assert_eq!(le(&data, 104 + 152), 16); // ids size
    assert_eq!(le(&data, 264), 1);
    assert_eq!(le(&data, 272), 2);
    assert_eq!(&data[280..286], &[68, 0, 0, 0, 6, 0]);
    assert_eq!(&data[286..288], &[0, 0]);
}

#[test]
fn header_roundtrip_keeps_fields() {
    let mut h = PerfFileHeader::default();
    h.magic = 7;
    h.attrs.offset = 104;
    h.attrs.size = 152;
    h.data.offset = 280;
    h.data.size = 99;
    h.flags = 5;
    h.flags1 = [1, 2, 3];
    let mut b = Vec::new();
    h.write_to(&mut b);
    assert_eq!(b.len(), 104);
    let r = PerfFileHeader::read_from(&b).unwrap();
    assert_eq!(r.magic, PERF_FILE_MAGIC);
    assert_eq!(r.attrs.offset, 104);
    assert_eq!(r.attrs.size, 152);
    assert_eq!(r.data.offset, 280);
    assert_eq!(r.data.size, 99);
    assert_eq!(r.flags, 5);
    assert_eq!(r.flags1, [1, 2, 3]);
}

#[test]
fn header_read_errors_and_validation() {
    assert!(PerfFileHeader::read_from(&[0u8; 103]).is_err());
    let mut h = PerfFileHeader::default();
    assert!(h.validate().is_ok());
    h.size = 8;
    assert_eq!(h.validate().unwrap_err().to_string(), "IO error: Invalid header size: expected 104, got 8");
    h.magic = 0x1234;
    assert_eq!(
        h.validate().unwrap_err().to_string(),
        "Invalid perf.data magic: expected 'PERFILE2', got '0000000000001234'"
    );
}

#[test]
fn event_header_roundtrip() {
    let h = PerfEventHeader::new(9, 40).with_misc(2);
    let mut b = Vec::new();
    h.write_to(&mut b);
    assert_eq!(b, vec![9, 0, 2, 0, 40, 0]);
    let r = PerfEventHeader::read_from(&b).unwrap();
    assert_eq!(r, h);
    assert!(PerfEventHeader::read_from(&b[..5]).is_err());
}

#[test]
fn attribute_bytes() {
    let mut b = Vec::new();
    PerfEventAttr::new(4, 0x1a8, 0x107).with_sample_period(1000).write_to(&mut b);
    assert_eq!(b.len(), 144);
    assert_eq!(&b[0..4], &[4, 0, 0, 0]);
    assert_eq!(&b[4..8], &[136, 0, 0, 0]);
    assert_eq!(le(&b, 8), 0x1a8);
    assert_eq!(le(&b, 16), 1000);
    assert_eq!(le(&b, 24), 0x107);
    assert_eq!(&b[92..96], &[0xff, 0xff, 0xff, 0xff]); // clockid -1
}

#[test]
fn test_missing_file_error() {
    let result = PerfDataReader::from_path(
        ".sisyphus/evidence/nonexistent.perf.data",
        Err((IoErrorKind::NotFound, "No such file or directory (os error 2)".to_string())),
    );
    assert!(result.is_err(), "Should fail for missing file");
    if let Err(e) = result {
        assert!(e.to_string().contains("No such file"), "Error should mention file not found");
    }
}

#[test]
fn reader_refuses_bad_magic() {
    let result = PerfDataReader::new(&vec![0u8; 104]);
    assert!(result.is_err(), "Should fail with invalid magic number");
    if let Err(e) = result {
        assert!(e.to_string().contains("Invalid perf.data magic"), "Error should mention invalid magic");
    }
}

#[test]
fn reader_reads_written_header() {
    let mut writer = PerfDataWriter::new();
    writer.initialize(&[PerfEventAttr::new(0, 0, 0)], &vec![vec![1u64]]).unwrap();
    let data = writer.finalize().unwrap();
    let mut reader = PerfDataReader::from_path("perf.data", Ok(data)).unwrap();
    let header = reader.header();
    assert_eq!(header.magic, PERF_FILE_MAGIC);
    assert_eq!(header.size, PERF_FILE_HEADER_SIZE);
    assert_eq!(header.attrs.offset, 104);
    assert_eq!(header.data.size, 0);
    assert_eq!(reader.read_all_events().unwrap().len(), 0);
    assert!(reader.read_event().unwrap().is_none());
    assert!(PerfDataReader::new(&[0u8; 10]).is_err());
}

#[test]
fn finalized_header_reads_back() {
    let attr = PerfEventAttr::new(0, 0, 0);
    let ids = vec![vec![7u64]];
    let mut writer = PerfDataWriter::new();
    writer.initialize(&[attr], &ids).unwrap();
    writer.write_finished_round().unwrap();
    writer.align_to_8_bytes().unwrap();
    let data = writer.finalize().unwrap();

    let header = PerfFileHeader::read_from(&data).unwrap();
    assert_eq!(header.magic, PERF_FILE_MAGIC);
    assert_eq!(header.size, PERF_FILE_HEADER_SIZE);
    assert_eq!(header.attrs.offset, 104);
    assert_eq!(header.attrs.size, 152);
    assert_eq!(header.data.offset, 272);
    assert_eq!(header.data.size, 8);
    assert!(header.validate().is_ok());
}

fn le32(b: &[u8], off: usize) -> u32 {
    u32::from_le_bytes(b[off..off + 4].try_into().unwrap())
}

#[test]
fn comm_record_layout() {
    let comm = CommEvent::new(1234, 5678, "test-program".to_string());
    assert_eq!(comm.record_size(), Some(32));
    let mut buf = Vec::new();
    comm.write_to(&mut buf);
    // 14 fixed bytes, 12 of name, a zero: 27, padded to 32.
    assert_eq!(buf.len(), 32);
    assert_eq!(&buf[0..6], &[3, 0, 0, 0, 32, 0]);
    assert_eq!(le32(&buf, 6), 1234);
    assert_eq!(le32(&buf, 10), 5678);
    assert_eq!(&buf[14..26], b"test-program");
    assert!(buf[26..32].iter().all(|&b| b == 0));
}

#[test]
fn comm_record_empty_and_multibyte_names() {
    let empty = CommEvent::new(1, 1, "".to_string());
    let mut buf = Vec::new();
    empty.write_to(&mut buf);
    assert_eq!(buf.len(), 16);
    assert_eq!(&buf[4..6], &[16, 0]);
    assert_eq!(buf[14], 0);

    let wide = CommEvent::new(1, 1, "\u{e4}".to_string());
    let mut buf = Vec::new();
    wide.write_to(&mut buf);
    assert_eq!(buf.len(), 24);
    assert_eq!(&buf[14..17], &[0xc3, 0xa4, 0]);
}

#[test]
fn mmap_record_layout() {
    let mmap = MmapEvent::new(1234, 5678, 0x7f0000000000, 0x1000, 0x2000, "/usr/bin/test-program".to_string());
    let mut buf = Vec::new();
    mmap.write_to(&mut buf);
    // 38 fixed bytes, 21 of name, a zero: 60, padded to 64.
    assert_eq!(buf.len(), 64);
    assert_eq!(&buf[0..6], &[1, 0, 0, 0, 64, 0]);
    assert_eq!(le32(&buf, 6), 1234);
    assert_eq!(le32(&buf, 10), 5678);
    assert_eq!(le(&buf, 14), 0x7f0000000000);
    assert_eq!(le(&buf, 22), 0x1000);
    assert_eq!(le(&buf, 30), 0x2000);
    assert_eq!(&buf[38..59], b"/usr/bin/test-program");
    assert!(buf[59..64].iter().all(|&b| b == 0));
}

#[test]
fn oversized_record_is_refused() {
    let attr = PerfEventAttr::new(0, 0, 0);
    let ids = vec![vec![1u64]];
    let mut writer = PerfDataWriter::new();
    writer.initialize(&[attr], &ids).unwrap();
    let long = CommEvent::new(1, 1, "x".repeat(70000));
    assert_eq!(long.record_size(), None);
    match writer.write_comm(&long) {
        Err(PerfError::InvalidArgument { message }) => assert_eq!(message, "record too large"),
        other => panic!("unexpected {:?}", other),
    }
    let long_map = MmapEvent::new(1, 1, 0, 0, 0, "y".repeat(70000));
    assert!(writer.write_mmap(&long_map).is_err());
    let data = writer.finalize().unwrap();
    assert_eq!(le(&data, 48), 0);
}

#[test]
fn process_records_written_after_attributes() {
    let attr = PerfEventAttr::new(0, 0, 0);
    let ids = vec![vec![1u64]];
    let mut writer = PerfDataWriter::new();
    writer.initialize(&[attr], &ids).unwrap();
    let maps = "00400000-00452000 r-xp 00000000 08:02 173521 /usr/bin/bash\n\
                00651000-00652000 rw-p 00051000 08:02 173521\n\
                01a3b000-01a5c000 rw-p 00000000 00:00 0 [heap]\n";
    write_process_events(&mut writer, 42, 43, Some("  bash\n".to_string()), Some(maps.to_string())).unwrap();
    let data = writer.finalize().unwrap();
    let start = le(&data, 40) as usize;
    // COMM: 14 + 4 + 1 = 19, padded to 24; MMAP: 38 + 13 + 1 = 52, padded to 56.
    assert_eq!(le(&data, 48), 80);
    assert_eq!(data.len(), start + 80);
    assert_eq!(&data[start..start + 6], &[3, 0, 0, 0, 24, 0]);
    assert_eq!(le32(&data, start + 6), 42);
    assert_eq!(le32(&data, start + 10), 43);
    assert_eq!(&data[start + 14..start + 19], b"bash\0");
    let m = start + 24;
    assert_eq!(&data[m..m + 6], &[1, 0, 0, 0, 56, 0]);
    assert_eq!(le(&data, m + 14), 0x400000);
    assert_eq!(le(&data, m + 22), 0x52000);
    assert_eq!(le(&data, m + 30), 0);
    assert_eq!(&data[m + 38..m + 52], b"/usr/bin/bash\0");
}

#[test]
fn process_records_skip_what_was_not_read() {
    let attr = PerfEventAttr::new(0, 0, 0);
    let ids = vec![vec![1u64]];
    let mut writer = PerfDataWriter::new();
    writer.initialize(&[attr], &ids).unwrap();
    write_process_events(&mut writer, 7, 7, None, None).unwrap();
    let data = writer.finalize().unwrap();
    assert_eq!(le(&data, 48), 0);
}

#[test]
fn test_mmap_round_trip() {
    let original_mmap = MmapEvent::new(
        1234,
        5678,
        0x7f0000000000,
        0x1000,
        0,
        "/usr/bin/test-program".to_string(),
    );

    let mut buffer = Vec::new();
    original_mmap.write_to(&mut buffer);

    let read_mmap = MmapEvent::read_from(&buffer).expect("Failed to read MMAP");

    assert_eq!(read_mmap.pid, original_mmap.pid, "PID should match");
    assert_eq!(read_mmap.tid, original_mmap.tid, "TID should match");
    assert_eq!(read_mmap.addr, original_mmap.addr, "Address should match");
    assert_eq!(read_mmap.len, original_mmap.len, "Length should match");
    assert_eq!(read_mmap.pgoff, original_mmap.pgoff, "Page offset should match");
    assert_eq!(read_mmap.filename, original_mmap.filename, "Filename should match");
}

#[test]
fn test_comm_round_trip() {
    let original_comm = CommEvent::new(1234, 5678, "test-program".to_string());

    let mut buffer = Vec::new();
    original_comm.write_to(&mut buffer);

    let read_comm = CommEvent::read_from(&buffer).expect("Failed to read COMM");

    assert_eq!(read_comm.pid, original_comm.pid, "PID should match");
    assert_eq!(read_comm.tid, original_comm.tid, "TID should match");
    assert_eq!(read_comm.comm, original_comm.comm, "Comm should match");
}

#[test]
fn test_finished_round_round_trip() {
    let original_event = FinishedRoundEvent::new();

    let mut buffer = Vec::new();
    original_event.write_to(&mut buffer);

    let read_event = FinishedRoundEvent::read_from(&buffer).expect("Failed to read FINISHED_ROUND");

    assert_eq!(read_event.header.type_, original_event.header.type_, "Event type should match");
    assert_eq!(read_event.header.size, original_event.header.size, "Event size should match");
}

#[test]
fn test_empty_string_handling() {
    let comm = CommEvent::new(1, 1, "".to_string());

    let mut buffer = Vec::new();
    comm.write_to(&mut buffer);

    let read_comm = CommEvent::read_from(&buffer).expect("Failed to read empty COMM");

    assert_eq!(read_comm.comm, "", "Empty string should be preserved");
}

#[test]
fn multibyte_name_round_trip() {
    let comm = CommEvent::new(3, 4, "gr\u{fc}n-\u{1f600}".to_string());
    let mut buffer = Vec::new();
    comm.write_to(&mut buffer);
    let back = CommEvent::read_from(&buffer).unwrap();
    assert_eq!(back.comm, "gr\u{fc}n-\u{1f600}");
}

#[test]
fn record_read_errors() {
    let comm = CommEvent::new(1, 2, "abc".to_string());
    let mut buffer = Vec::new();
    comm.write_to(&mut buffer);

    match MmapEvent::read_from(&buffer) {
        Err(PerfError::InvalidEventType { event_type }) => assert_eq!(event_type, 3),
        other => panic!("unexpected {:?}", other.map(|m| m.filename)),
    }
    match CommEvent::read_from(&buffer[..buffer.len() - 1]) {
        Err(PerfError::Io { kind, .. }) => assert_eq!(kind, IoErrorKind::UnexpectedEof),
        other => panic!("unexpected {:?}", other.map(|c| c.comm)),
    }
    match CommEvent::read_from(&buffer[..4]) {
        Err(PerfError::Io { kind, .. }) => assert_eq!(kind, IoErrorKind::UnexpectedEof),
        other => panic!("unexpected {:?}", other.map(|c| c.comm)),
    }
    let mut bad = buffer.clone();
    bad[14] = 0xff;
    match CommEvent::read_from(&bad) {
        Err(PerfError::Io { kind, message }) => {
            assert_eq!(kind, IoErrorKind::InvalidData);
            assert_eq!(message, "stream did not contain valid UTF-8");
        }
        other => panic!("unexpected {:?}", other.map(|c| c.comm)),
    }
}
