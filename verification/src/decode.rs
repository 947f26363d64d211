//! The decoder's step: from a buffer and an offset to the record that stands
//! there.

use vstd::prelude::*;
use vstd::slice::slice_subrange;
use crate::format::{id_at, lemma_nul_from_is, record_at};
use crate::record::{
    DataError, DecodeError, Decoded, LogRecord, RecordView, ID_LEN, OP_DELETE_TEXT,
    OP_FAVORITE_ITEM, OP_MOVE_ITEM_TO_END, OP_SAVE_TEXT, OP_UNFAVORITE_ITEM,
};

verus! {

/// `memchr::memchr` searches `haystack` for `needle`: it returns the index of
/// the first byte equal to `needle`, which is less than the length of
/// `haystack`, and `None` exactly when no byte of `haystack` equals `needle`.
pub assume_specification[ memchr::memchr ](needle: u8, haystack: &[u8]) -> (found: Option<usize>)
    ensures
        match found {
            Some(at) => {
                &&& at < haystack@.len()
                &&& haystack@[at as int] == needle
                &&& forall|j: int| 0 <= j < at ==> haystack@[j] != needle
            },
            None => forall|j: int| 0 <= j < haystack@.len() ==> haystack@[j] != needle,
        },
;

/// Whether `decoded` is `record` standing at `start`.
pub open spec fn stands_at(decoded: Decoded, record: RecordView, start: int) -> bool {
    &&& decoded.record@ == record
    &&& decoded.start == start
    &&& decoded.end == start + record.encoded_len()
}

/// Reads the item id stored at `at`, least significant byte first, or gives
/// `None` where fewer than four bytes stand there.
pub fn read_id(bytes: &[u8], at: usize) -> (id: Option<u32>)
    ensures
        id is Some <==> at + ID_LEN <= bytes@.len(),
        id is Some ==> id->Some_0 == id_at(bytes@, at as int),
{
    let len = bytes.len();
    if at > len || len - at < ID_LEN {
        return None;
    }
    let b0: u32 = bytes[at] as u32;
    let b1: u32 = bytes[at + 1] as u32;
    let b2: u32 = bytes[at + 2] as u32;
    let b3: u32 = bytes[at + 3] as u32;
    Some(b0 + 0x100 * b1 + 0x1_0000 * b2 + 0x100_0000 * b3)
}

/// Decodes the record whose opcode stands at `cursor`.
///
/// At or behind the end of the buffer there is no record: the result is
/// `Ok(None)`. Otherwise the result is the record that the format puts at
/// `cursor`, with the offsets of its first byte and of the byte behind its
/// last, or the failure that the format finds there. A saved text gets
/// `next_id` as its sequence id.
pub fn decode_next(bytes: &[u8], cursor: usize, next_id: usize) -> (step: Result<
    Option<Decoded>,
    DataError,
>)
    ensures
        cursor >= bytes@.len() ==> step == Ok::<Option<Decoded>, DataError>(None),
        cursor < bytes@.len() ==> match record_at(bytes@, cursor as int, next_id as nat) {
            Ok(record) => {
                &&& step is Ok
                &&& step->Ok_0 is Some
                &&& stands_at(step->Ok_0->Some_0, record, cursor as int)
            },
            Err(fault) => step is Err && step->Err_0@ == fault,
        },
{
    let len = bytes.len();
    if cursor >= len {
        return Ok(None);
    }
    let op = bytes[cursor];
    let payload = cursor + 1;
    if op == OP_SAVE_TEXT {
        let rest = slice_subrange(bytes, payload, len);
        match memchr::memchr(0, rest) {
            None => {
                proof {
                    assert forall|j: int| payload <= j < len implies bytes@[j] != 0 by {
                        assert(rest@[j - payload] == bytes@[j]);
                    }
                    lemma_nul_from_is(bytes@, payload as int, len as int);
                }
                Err(DataError { kind: DecodeError::NotNulTerminated, offset: payload })
            },
            Some(raw_len) => {
                proof {
                    assert forall|j: int| payload <= j < payload + raw_len implies bytes@[j]
                        != 0 by {
                        assert(rest@[j - payload] == bytes@[j]);
                    }
                    lemma_nul_from_is(bytes@, payload as int, payload + raw_len);
                }
                Ok(
                    Some(
                        Decoded {
                            record: LogRecord::SaveText {
                                length: raw_len + 1,
                                sequence_id: next_id,
                            },
                            start: cursor,
                            end: payload + raw_len + 1,
                        },
                    ),
                )
            },
        }
    } else if OP_DELETE_TEXT <= op && op <= OP_MOVE_ITEM_TO_END {
        match read_id(bytes, payload) {
            None => Err(DataError { kind: DecodeError::UnexpectedEof, offset: payload }),
            Some(id) => {
                let record = if op == OP_DELETE_TEXT {
                    LogRecord::DeleteText { id }
                } else if op == OP_FAVORITE_ITEM {
                    LogRecord::FavoriteItem { id }
                } else if op == OP_UNFAVORITE_ITEM {
                    LogRecord::UnfavoriteItem { id }
                } else {
                    LogRecord::MoveItemToEnd { id }
                };
                Ok(Some(Decoded { record, start: cursor, end: payload + ID_LEN }))
            },
        }
    } else {
        Err(DataError { kind: DecodeError::InvalidOpcode(op), offset: cursor })
    }
}

} // verus!
