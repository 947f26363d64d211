use clipboard_log::decode::{decode_next, read_id};
use clipboard_log::pass::{read, Decoder};
use clipboard_log::record::{DataError, DecodeError, Decoded, LogRecord};

fn small_log() -> Vec<u8> {
    vec![1, b'a', b'b', 0, 2, 1, 0, 0, 0]
}

#[test]
fn save_then_delete_decodes_to_two_records() {
    let log = small_log();
    let first = decode_next(&log, 0, 1);
    assert_eq!(
        first,
        Ok(Some(Decoded {
            record: LogRecord::SaveText { length: 3, sequence_id: 1 },
            start: 0,
            end: 4,
        }))
    );
    let second = decode_next(&log, 4, 2);
    assert_eq!(
        second,
        Ok(Some(Decoded { record: LogRecord::DeleteText { id: 1 }, start: 4, end: 9 }))
    );
    assert_eq!(decode_next(&log, 9, 2), Ok(None));
}

#[test]
fn save_then_delete_gives_its_statistics() {
    let stats = read(&small_log()).unwrap();
    let raw = stats.raw();
    assert_eq!(raw.ops.num_save_texts, 1);
    assert_eq!(raw.ops.num_deletes, 1);
    assert_eq!(raw.ops.num_favorites, 0);
    assert_eq!(raw.ops.num_unfavorites, 0);
    assert_eq!(raw.ops.num_moves, 0);
    assert_eq!(raw.num_entries, 0);
    assert_eq!(raw.total_str_bytes, 2);
    assert_eq!(stats.lengths(), &vec![2]);
}

#[test]
fn empty_buffer_holds_no_record() {
    let log: Vec<u8> = Vec::new();
    assert_eq!(decode_next(&log, 0, 1), Ok(None));
    let mut decoder = Decoder::new(&log);
    assert_eq!(decoder.step(), Ok(None));
    assert_eq!(decoder.cursor(), 0);
    let report = decoder.finish().finalize();
    assert_eq!(report.raw.ops.num_save_texts, 0);
    assert_eq!(report.raw.ops.num_deletes, 0);
    assert_eq!(report.raw.ops.num_favorites, 0);
    assert_eq!(report.raw.ops.num_unfavorites, 0);
    assert_eq!(report.raw.ops.num_moves, 0);
    assert_eq!(report.raw.num_entries, 0);
    assert_eq!(report.raw.total_str_bytes, 0);
    assert_eq!(report.computed, None);
}

#[test]
fn cursor_behind_the_end_holds_no_record() {
    let log = small_log();
    assert_eq!(decode_next(&log, 10, 1), Ok(None));
    assert_eq!(decode_next(&log, usize::MAX, 1), Ok(None));
}

#[test]
fn decoder_ends_at_the_buffer_length() {
    let log = small_log();
    let mut decoder = Decoder::new(&log);
    let mut seen = Vec::new();
    while let Some(decoded) = decoder.step().unwrap() {
        assert_eq!(decoder.cursor(), decoded.end);
        seen.push(decoded.record);
    }
    assert_eq!(decoder.cursor(), log.len());
    assert_eq!(
        seen,
        vec![
            LogRecord::SaveText { length: 3, sequence_id: 1 },
            LogRecord::DeleteText { id: 1 },
        ]
    );
    assert_eq!(decoder.step(), Ok(None));
    assert_eq!(decoder.cursor(), log.len());
}

#[test]
fn records_follow_each_other_without_a_gap() {
    let log = vec![1, b'x', 0, 3, 7, 0, 0, 0, 1, 0, 5, 1, 0, 0, 0, 4, 2, 0, 0, 0];
    let mut decoder = Decoder::new(&log);
    let mut expected_start = 0;
    while let Some(decoded) = decoder.step().unwrap() {
        assert_eq!(decoded.start, expected_start);
        expected_start = decoded.end;
    }
    assert_eq!(expected_start, log.len());
}

#[test]
fn saved_texts_are_numbered_from_one() {
    let log = vec![1, b'a', 0, 2, 9, 0, 0, 0, 1, 0, 1, b'b', b'c', 0];
    let mut decoder = Decoder::new(&log);
    let mut ids = Vec::new();
    while let Some(decoded) = decoder.step().unwrap() {
        if let LogRecord::SaveText { length, sequence_id } = decoded.record {
            ids.push((sequence_id, length));
        }
    }
    assert_eq!(ids, vec![(1, 2), (2, 1), (3, 3)]);
}

#[test]
fn each_id_opcode_gives_its_kind() {
    let id = [0x2a, 0, 0, 0];
    for (op, expected) in [
        (2u8, LogRecord::DeleteText { id: 42 }),
        (3u8, LogRecord::FavoriteItem { id: 42 }),
        (4u8, LogRecord::UnfavoriteItem { id: 42 }),
        (5u8, LogRecord::MoveItemToEnd { id: 42 }),
    ] {
        let mut log = vec![op];
        log.extend_from_slice(&id);
        assert_eq!(
            decode_next(&log, 0, 1),
            Ok(Some(Decoded { record: expected, start: 0, end: 5 }))
        );
    }
}

#[test]
fn id_is_read_least_significant_byte_first() {
    let log = vec![2, 0x78, 0x56, 0x34, 0x12];
    assert_eq!(read_id(&log, 1), Some(0x1234_5678));
    assert_eq!(
        decode_next(&log, 0, 1),
        Ok(Some(Decoded { record: LogRecord::DeleteText { id: 0x1234_5678 }, start: 0, end: 5 }))
    );
    assert_eq!(read_id(&[0xff, 0xff, 0xff, 0xff], 0), Some(u32::MAX));
    assert_eq!(read_id(&[0, 1, 0, 0], 0), Some(256));
}

#[test]
fn read_id_needs_four_bytes() {
    let bytes = [1u8, 2, 3, 4, 5];
    assert_eq!(read_id(&bytes, 0), Some(0x0403_0201));
    assert_eq!(read_id(&bytes, 1), Some(0x0504_0302));
    assert_eq!(read_id(&bytes, 2), None);
    assert_eq!(read_id(&bytes, 5), None);
    assert_eq!(read_id(&bytes, 6), None);
    assert_eq!(read_id(&bytes, usize::MAX), None);
    assert_eq!(read_id(&[], 0), None);
}

#[test]
fn cut_id_is_an_unexpected_end() {
    let whole = small_log();
    for missing in 1..=4 {
        let cut = &whole[..whole.len() - missing];
        let expected = DataError { kind: DecodeError::UnexpectedEof, offset: 5 };
        assert_eq!(decode_next(cut, 4, 2), Err(expected));
        assert_eq!(read(cut).err(), Some(expected));
    }
}

#[test]
fn cut_id_is_never_filled_with_zeros() {
    let cut = vec![3, 1, 2, 3];
    let mut decoder = Decoder::new(&cut);
    let step = decoder.step();
    assert_eq!(step, Err(DataError { kind: DecodeError::UnexpectedEof, offset: 1 }));
    assert_eq!(decoder.cursor(), 0);
    assert_eq!(decoder.stats().raw().ops.num_favorites, 0);
}

#[test]
fn text_without_terminator_is_reported() {
    let log = vec![1, b'a', 0, 1, b'b', b'c'];
    let expected = DataError { kind: DecodeError::NotNulTerminated, offset: 4 };
    assert_eq!(decode_next(&log, 3, 2), Err(expected));
    assert_eq!(read(&log).err(), Some(expected));
    let only_opcode = vec![1];
    assert_eq!(
        read(&only_opcode).err(),
        Some(DataError { kind: DecodeError::NotNulTerminated, offset: 1 })
    );
}

#[test]
fn opcode_six_is_invalid_at_its_offset() {
    let log = vec![1, b'a', b'b', 0, 6, 1, 0, 0, 0];
    let expected = DataError { kind: DecodeError::InvalidOpcode(6), offset: 4 };
    assert_eq!(decode_next(&log, 4, 2), Err(expected));
    assert_eq!(read(&log).err(), Some(expected));
}

#[test]
fn opcode_zero_and_high_bytes_are_invalid() {
    assert_eq!(
        read(&[0]).err(),
        Some(DataError { kind: DecodeError::InvalidOpcode(0), offset: 0 })
    );
    assert_eq!(
        read(&[2, 0, 0, 0, 0, 255]).err(),
        Some(DataError { kind: DecodeError::InvalidOpcode(255), offset: 5 })
    );
}

#[test]
fn failure_is_final() {
    let log = vec![1, b'a', 0, 9, 1, b'b', 0];
    let mut decoder = Decoder::new(&log);
    assert!(decoder.step().unwrap().is_some());
    let failure = Err(DataError { kind: DecodeError::InvalidOpcode(9), offset: 3 });
    assert_eq!(decoder.step(), failure);
    assert_eq!(decoder.step(), failure);
    assert_eq!(decoder.cursor(), 3);
    assert_eq!(decoder.stats().raw().ops.num_save_texts, 1);
}

#[test]
fn text_ends_at_its_first_nul() {
    let log = vec![1, b'a', 0, 0];
    assert_eq!(
        decode_next(&log, 0, 1),
        Ok(Some(Decoded {
            record: LogRecord::SaveText { length: 2, sequence_id: 1 },
            start: 0,
            end: 3,
        }))
    );
    assert_eq!(
        read(&log).err(),
        Some(DataError { kind: DecodeError::InvalidOpcode(0), offset: 3 })
    );
}

#[test]
fn empty_text_is_a_record_of_two_bytes() {
    let log = vec![1, 0];
    assert_eq!(
        decode_next(&log, 0, 7),
        Ok(Some(Decoded {
            record: LogRecord::SaveText { length: 1, sequence_id: 7 },
            start: 0,
            end: 2,
        }))
    );
    let stats = read(&log).unwrap();
    assert_eq!(stats.raw().total_str_bytes, 0);
    assert_eq!(stats.lengths(), &vec![0]);
}

#[test]
fn long_text_is_scanned_to_its_terminator() {
    let mut log = vec![1u8];
    log.extend(std::iter::repeat(b'z').take(1000));
    log.push(0);
    log.extend_from_slice(&[5, 1, 0, 0, 0]);
    let stats = read(&log).unwrap();
    assert_eq!(stats.raw().total_str_bytes, 1000);
    assert_eq!(stats.raw().ops.num_moves, 1);
    assert_eq!(
        decode_next(&log, 0, 1),
        Ok(Some(Decoded {
            record: LogRecord::SaveText { length: 1001, sequence_id: 1 },
            start: 0,
            end: 1002,
        }))
    );
}

#[test]
fn kinds_have_their_opcodes_and_names() {
    let records = [
        (LogRecord::SaveText { length: 1, sequence_id: 1 }, 1u8, "SAVE_TEXT"),
        (LogRecord::DeleteText { id: 1 }, 2, "DELETE_TEXT"),
        (LogRecord::FavoriteItem { id: 1 }, 3, "FAVORITE_ITEM"),
        (LogRecord::UnfavoriteItem { id: 1 }, 4, "UNFAVORITE_ITEM"),
        (LogRecord::MoveItemToEnd { id: 1 }, 5, "MOVE_ITEM_TO_END"),
    ];
    for (record, opcode, name) in records {
        assert_eq!(record.opcode(), opcode);
        assert_eq!(record.kind_name(), name);
    }
}
