use tfrecord::dataset::{name_le_exec, select_file_names, Dataset, RecordIndex};
use tfrecord::error::{Error, IoErrorKind};
use tfrecord::indexer::{load_reader, read_record_at, skip_or_check, Position, RecordIndexerConfig};
use tfrecord::io::sync::{try_read_len, try_read_record, try_read_record_data, try_write_record};
use tfrecord::io::ByteReader;
use tfrecord::reader::{RecordIter, RecordReaderConfig, RecordReaderInit, RecordStreamInit};
use tfrecord::utils::{checksum, verify_checksum};
use tfrecord::writer::{RecordWriter, RecordWriterInit};

fn encode(records: &[&[u8]]) -> Vec<u8> {
    let mut out = Vec::new();
    for record in records {
        try_write_record(&mut out, record.to_vec()).unwrap();
    }
    out
}

#[test]
fn checksum_known_values() {
    assert_eq!(checksum(b""), 0xa282ead8);
    assert_eq!(checksum(&[0u8; 8]), 0x0798_0329);
    assert_eq!(checksum(b"hello"), 0x191c_1fbb);
    assert_eq!(checksum(&5u64.to_le_bytes()), 0x3e04_b2ea);
}

#[test]
fn verify_checksum_accepts_and_rejects() {
    assert!(verify_checksum(b"hello", 0x191c_1fbb).is_ok());
    match verify_checksum(b"hello", 7) {
        Err(Error::ChecksumMismatch { expect, found }) => {
            assert_eq!(expect, 7);
            assert_eq!(found, 0x191c_1fbb);
        }
        other => panic!("unexpected {:?}", other),
    }
}

#[test]
fn write_record_frames_bytes() {
    let mut out = vec![9u8];
    try_write_record(&mut out, b"hello".to_vec()).unwrap();
    assert_eq!(
        out,
        vec![
            9, 5, 0, 0, 0, 0, 0, 0, 0, 234, 178, 4, 62, 104, 101, 108, 108, 111, 187, 31, 28, 25
        ]
    );
    let mut empty = Vec::new();
    try_write_record(&mut empty, Vec::new()).unwrap();
    assert_eq!(empty, vec![0, 0, 0, 0, 0, 0, 0, 0, 41, 3, 152, 7, 216, 234, 130, 162]);
}

#[test]
fn read_after_write_round_trip() {
    let records: Vec<&[u8]> = vec![b"first", b"", b"third record"];
    let bytes = encode(&records);
    for check in [true, false] {
        let mut reader = ByteReader::new(bytes.clone());
        for record in &records {
            let read = try_read_record(&mut reader, check).unwrap().unwrap();
            assert_eq!(read.as_slice(), *record);
        }
        assert!(try_read_record(&mut reader, check).unwrap().is_none());
        assert_eq!(reader.position(), bytes.len() as u64);
    }
}

#[test]
fn read_from_empty_stream_is_end() {
    let mut reader = ByteReader::new(Vec::new());
    assert!(try_read_record(&mut reader, true).unwrap().is_none());
    assert!(try_read_len(&mut reader, true).unwrap().is_none());
}

#[test]
fn truncated_header_errors() {
    let bytes = encode(&[b"abc"]);
    let mut reader = ByteReader::new(bytes[..5].to_vec());
    assert!(matches!(try_read_len(&mut reader, true), Err(Error::UnexpectedEof)));
    assert_eq!(reader.position(), 5);

    let mut reader = ByteReader::new(bytes[..10].to_vec());
    assert!(matches!(
        try_read_len(&mut reader, true),
        Err(Error::IoError { kind: IoErrorKind::UnexpectedEof })
    ));
    assert_eq!(reader.position(), 10);
}

#[test]
fn truncated_data_errors() {
    let bytes = encode(&[b"abcdef"]);
    let mut reader = ByteReader::new(bytes[..bytes.len() - 2].to_vec());
    assert!(matches!(
        try_read_record(&mut reader, false),
        Err(Error::IoError { kind: IoErrorKind::UnexpectedEof })
    ));
}

#[test]
fn corrupted_checksums_are_detected() {
    let mut bytes = encode(&[b"abcdef"]);
    let last = bytes.len() - 1;
    bytes[last] ^= 0xff;
    let mut reader = ByteReader::new(bytes.clone());
    match try_read_record(&mut reader, true) {
        Err(Error::ChecksumMismatch { expect, found }) => {
            assert_eq!(found, checksum(b"abcdef"));
            assert_ne!(expect, found);
        }
        other => panic!("unexpected {:?}", other),
    }
    let mut reader = ByteReader::new(bytes.clone());
    assert_eq!(try_read_record(&mut reader, false).unwrap().unwrap(), b"abcdef".to_vec());

    let mut header_bad = encode(&[b"xyz"]);
    header_bad[8] ^= 1;
    let mut reader = ByteReader::new(header_bad);
    assert!(matches!(try_read_len(&mut reader, true), Err(Error::ChecksumMismatch { .. })));
}

#[test]
fn read_record_data_reads_length_and_checksum() {
    let bytes = encode(&[b"data"]);
    let mut reader = ByteReader::new(bytes);
    assert_eq!(try_read_len(&mut reader, true).unwrap(), Some(4));
    assert_eq!(reader.position(), 12);
    assert_eq!(try_read_record_data(&mut reader, 4, true).unwrap(), b"data".to_vec());
    assert_eq!(reader.position(), 20);
}

#[test]
fn record_iter_yields_records_then_ends() {
    let records: Vec<&[u8]> = vec![b"a", b"bb", b"ccc"];
    let reader = ByteReader::new(encode(&records));
    let mut iter = RecordIter::from_reader(reader, RecordReaderConfig::default());
    for record in &records {
        assert_eq!(iter.next().unwrap().unwrap().as_slice(), *record);
    }
    assert!(iter.next().is_none());
    assert!(iter.next().is_none());
}

#[test]
fn record_iter_continues_after_an_error() {
    let mut bytes = encode(&[b"one", b"two"]);
    bytes[12] ^= 0xff;
    let init = RecordReaderInit::default();
    let mut iter = init.from_reader(ByteReader::new(bytes)).unwrap();
    assert!(matches!(iter.next(), Some(Err(Error::ChecksumMismatch { .. }))));
    assert_eq!(iter.next().unwrap().unwrap(), b"two".to_vec());
    assert!(iter.next().is_none());
}

#[test]
fn configs_default_to_checking() {
    assert!(RecordReaderConfig::default().check_integrity);
    assert!(RecordReaderInit::default().check_integrity);
    assert!(RecordStreamInit::default().check_integrity);
    assert!(RecordIndexerConfig::default().check_integrity);
}

#[test]
fn writer_appends_frames() {
    let mut writer = RecordWriterInit::from_writer(Vec::new()).unwrap();
    writer.send(b"one".to_vec()).unwrap();
    writer.send(b"two".to_vec()).unwrap();
    writer.flush().unwrap();
    assert_eq!(writer.into_inner(), encode(&[b"one", b"two"]));
    let mut other = RecordWriter::from_writer(vec![1, 2]).unwrap();
    other.send(Vec::new()).unwrap();
    let mut expect = vec![1, 2];
    expect.extend(encode(&[b""]));
    assert_eq!(other.into_inner(), expect);
}

#[test]
fn index_then_read_finds_records() {
    let records: Vec<&[u8]> = vec![b"alpha", b"", b"gamma ray"];
    let bytes = encode(&records);
    let positions = load_reader(ByteReader::new(bytes.clone()), RecordIndexerConfig::default());
    let positions: Vec<Position> = positions.into_iter().map(|p| p.unwrap()).collect();
    assert_eq!(
        positions,
        vec![
            Position { offset: 12, len: 5 },
            Position { offset: 33, len: 0 },
            Position { offset: 49, len: 9 },
        ]
    );
    let mut reader = ByteReader::new(bytes);
    for (pos, record) in positions.iter().zip(&records) {
        let read = read_record_at(&mut reader, pos.offset, pos.len).unwrap();
        assert_eq!(read.as_slice(), *record);
    }
}

#[test]
fn index_stops_at_first_error() {
    let mut bytes = encode(&[b"one", b"two", b"three"]);
    bytes[19 + 12] ^= 0xff;
    let positions = load_reader(ByteReader::new(bytes), RecordIndexerConfig::default());
    assert_eq!(positions.len(), 2);
    assert_eq!(*positions[0].as_ref().unwrap(), Position { offset: 12, len: 3 });
    assert!(matches!(positions[1], Err(Error::ChecksumMismatch { .. })));
}

#[test]
fn index_without_check_finds_every_record() {
    let bytes = encode(&[b"abcd", b"", b"xyz"]);
    let checked = load_reader(ByteReader::new(bytes.clone()), RecordIndexerConfig { check_integrity: true });
    let unchecked = load_reader(ByteReader::new(bytes.clone()), RecordIndexerConfig { check_integrity: false });
    let expect = vec![
        Position { offset: 12, len: 4 },
        Position { offset: 32, len: 0 },
        Position { offset: 48, len: 3 },
    ];
    for positions in [checked, unchecked] {
        let found: Vec<Position> = positions.into_iter().map(|p| p.unwrap()).collect();
        assert_eq!(found, expect);
    }
    let mut reader = ByteReader::new(bytes);
    assert_eq!(read_record_at(&mut reader, 48, 3).unwrap(), b"xyz".to_vec());
}

#[test]
fn index_without_check_skips_corrupt_checksums() {
    let mut bytes = encode(&[b"one", b"two"]);
    bytes[12 + 3] ^= 0xff;
    let positions = load_reader(ByteReader::new(bytes), RecordIndexerConfig { check_integrity: false });
    let found: Vec<Position> = positions.into_iter().map(|p| p.unwrap()).collect();
    assert_eq!(found, vec![Position { offset: 12, len: 3 }, Position { offset: 31, len: 3 }]);
}

#[test]
fn skip_or_check_moves_past_record() {
    let bytes = encode(&[b"abcd"]);
    let mut reader = ByteReader::new(bytes.clone());
    reader.seek(12);
    skip_or_check(&mut reader, 4, true).unwrap();
    assert_eq!(reader.position(), 20);
    let mut reader = ByteReader::new(bytes);
    reader.seek(12);
    skip_or_check(&mut reader, 4, false).unwrap();
    assert_eq!(reader.position(), 20);
    assert!(matches!(
        skip_or_check(&mut reader, usize::MAX, false),
        Err(Error::IoError { kind: IoErrorKind::InvalidInput })
    ));
}

#[test]
fn byte_reader_reads_and_seeks() {
    let mut reader = ByteReader::new(vec![1, 2, 3, 4, 5]);
    assert_eq!(reader.read(2), vec![1, 2]);
    assert_eq!(reader.read(10), vec![3, 4, 5]);
    assert_eq!(reader.read(1), Vec::<u8>::new());
    reader.seek(1);
    assert_eq!(reader.read_exact(3).unwrap(), vec![2, 3, 4]);
    assert!(matches!(
        reader.read_exact(3),
        Err(Error::IoError { kind: IoErrorKind::UnexpectedEof })
    ));
    assert_eq!(reader.position(), 5);
    reader.seek(100);
    assert_eq!(reader.read(3), Vec::<u8>::new());
    assert_eq!(reader.seek_forward(5).unwrap(), 105);
}

#[test]
fn select_file_names_keeps_prefix_and_sorts() {
    let names = vec![
        "b.tfrecord".to_string(),
        "a.tfrecord".to_string(),
        "c.txt".to_string(),
        "a".to_string(),
    ];
    assert_eq!(
        select_file_names(names.clone(), Some("a")),
        vec!["a".to_string(), "a.tfrecord".to_string()]
    );
    assert_eq!(
        select_file_names(names, None),
        vec![
            "a".to_string(),
            "a.tfrecord".to_string(),
            "b.tfrecord".to_string(),
            "c.txt".to_string()
        ]
    );
}

#[test]
fn select_file_names_orders_by_code_point() {
    let names = vec!["é".to_string(), "z".to_string(), "B".to_string(), "a".to_string(), "a".to_string()];
    assert_eq!(
        select_file_names(names, Some("")),
        vec!["B".to_string(), "a".to_string(), "a".to_string(), "z".to_string(), "é".to_string()]
    );
    assert!(select_file_names(vec!["x".to_string()], Some("y")).is_empty());
}

#[test]
fn name_order() {
    assert!(name_le_exec("ab", "abc"));
    assert!(!name_le_exec("abc", "ab"));
    assert!(name_le_exec("", ""));
    assert!(name_le_exec("abc", "abd"));
    assert!(!name_le_exec("b", "abc"));
}

#[test]
fn dataset_indexes_files_in_order() {
    let mut dataset = Dataset::new();
    dataset.add_file(ByteReader::new(encode(&[b"ab", b"cde"])), false).unwrap();
    dataset.add_file(ByteReader::new(encode(&[b"f"])), true).unwrap();
    assert_eq!(dataset.num_records(), 3);
    assert_eq!(dataset.get(0), Some(RecordIndex { file: 0, offset: 12, len: 2 }));
    assert_eq!(dataset.get(1), Some(RecordIndex { file: 0, offset: 30, len: 3 }));
    assert_eq!(dataset.get(2), Some(RecordIndex { file: 1, offset: 12, len: 1 }));
    assert_eq!(dataset.get(3), None);
    let mut truncated = encode(&[b"gh"]);
    truncated.truncate(15);
    assert!(dataset.add_file(ByteReader::new(truncated), false).is_err());
    assert_eq!(dataset.num_records(), 3);
}
