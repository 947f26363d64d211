//! What a log means: which record stands at an offset, and which sequence of
//! records a whole buffer holds.

use vstd::prelude::*;
use crate::record::{
    DecodeError, Fault, RecordView, ID_LEN, OP_DELETE_TEXT, OP_FAVORITE_ITEM, OP_MOVE_ITEM_TO_END,
    OP_SAVE_TEXT, OP_UNFAVORITE_ITEM,
};

verus! {

/// Offset of the first NUL of `bytes` at or behind `from`, or the length of
/// `bytes` where there is none.
pub open spec fn nul_from(bytes: Seq<u8>, from: int) -> int
    recommends
        0 <= from,
    decreases bytes.len() - from,
{
    if from >= bytes.len() {
        bytes.len() as int
    } else if bytes[from] == 0 {
        from
    } else {
        nul_from(bytes, from + 1)
    }
}

/// `nul_from` gives the first NUL behind `from`: no byte before it is NUL, and
/// the byte at it is NUL unless it is the end of the buffer.
pub proof fn lemma_nul_from(bytes: Seq<u8>, from: int)
    requires
        0 <= from <= bytes.len(),
    ensures
        from <= nul_from(bytes, from) <= bytes.len(),
        forall|j: int| from <= j < nul_from(bytes, from) ==> bytes[j] != 0,
        nul_from(bytes, from) < bytes.len() ==> bytes[nul_from(bytes, from)] == 0,
    decreases bytes.len() - from,
{
    if from < bytes.len() && bytes[from] != 0 {
        lemma_nul_from(bytes, from + 1);
    }
}

/// An offset `at` behind `from` with a NUL at it and none before it is the
/// one that `nul_from` gives.
pub proof fn lemma_nul_from_is(bytes: Seq<u8>, from: int, at: int)
    requires
        0 <= from <= at <= bytes.len(),
        forall|j: int| from <= j < at ==> bytes[j] != 0,
        at < bytes.len() ==> bytes[at] == 0,
    ensures
        nul_from(bytes, from) == at,
    decreases at - from,
{
    if from < at {
        lemma_nul_from_is(bytes, from + 1, at);
    }
}

/// The number that the four bytes at `at` store, least significant byte first.
pub open spec fn id_at(bytes: Seq<u8>, at: int) -> nat
    recommends
        0 <= at,
        at + ID_LEN <= bytes.len(),
{
    (bytes[at] + 0x100 * bytes[at + 1] + 0x1_0000 * bytes[at + 2] + 0x100_0000 * bytes[at + 3]) as nat
}

/// The record with a stored item id that the opcode `op` stands for.
pub open spec fn id_record(op: u8, id: nat) -> RecordView
    recommends
        OP_DELETE_TEXT <= op <= OP_MOVE_ITEM_TO_END,
{
    if op == OP_DELETE_TEXT {
        RecordView::DeleteText { id }
    } else if op == OP_FAVORITE_ITEM {
        RecordView::FavoriteItem { id }
    } else if op == OP_UNFAVORITE_ITEM {
        RecordView::UnfavoriteItem { id }
    } else {
        RecordView::MoveItemToEnd { id }
    }
}

/// The record whose opcode stands at `pos`, or what is wrong with it.
///
/// A saved text runs to the first NUL behind the opcode and gets `next_id`
/// as its sequence id. The other four kinds take four bytes behind the
/// opcode. Any other opcode is invalid.
pub open spec fn record_at(bytes: Seq<u8>, pos: int, next_id: nat) -> Result<RecordView, Fault>
    recommends
        0 <= pos < bytes.len(),
{
    let op = bytes[pos];
    if op == OP_SAVE_TEXT {
        let nul = nul_from(bytes, pos + 1);
        if nul < bytes.len() {
            Ok(RecordView::SaveText { length: (nul - pos) as nat, sequence_id: next_id })
        } else {
            Err(Fault { kind: DecodeError::NotNulTerminated, offset: (pos + 1) as nat })
        }
    } else if OP_DELETE_TEXT <= op <= OP_MOVE_ITEM_TO_END {
        if pos + 1 + ID_LEN <= bytes.len() {
            Ok(id_record(op, id_at(bytes, pos + 1)))
        } else {
            Err(Fault { kind: DecodeError::UnexpectedEof, offset: (pos + 1) as nat })
        }
    } else {
        Err(Fault { kind: DecodeError::InvalidOpcode(op), offset: pos as nat })
    }
}

/// A record that `record_at` gives ends inside the buffer, and its opcode is
/// the byte at `pos`.
pub proof fn lemma_record_at(bytes: Seq<u8>, pos: int, next_id: nat)
    requires
        0 <= pos < bytes.len(),
        record_at(bytes, pos, next_id) is Ok,
    ensures
        2 <= record_at(bytes, pos, next_id)->Ok_0.encoded_len(),
        pos + record_at(bytes, pos, next_id)->Ok_0.encoded_len() <= bytes.len(),
        record_at(bytes, pos, next_id)->Ok_0.opcode() == bytes[pos],
{
    if bytes[pos] == OP_SAVE_TEXT {
        lemma_nul_from(bytes, pos + 1);
    }
}

/// A saved text that `record_at` gives is terminated: its length counts at
/// least the terminator, its last byte is NUL, and no byte of the text
/// before that is.
pub proof fn lemma_saved_text_is_terminated(bytes: Seq<u8>, pos: int, next_id: nat)
    requires
        0 <= pos < bytes.len(),
        record_at(bytes, pos, next_id) is Ok,
        record_at(bytes, pos, next_id)->Ok_0 is SaveText,
    ensures
        ({
            let length = record_at(bytes, pos, next_id)->Ok_0->SaveText_length;
            &&& length >= 1
            &&& pos + length < bytes.len()
            &&& bytes[pos + length] == 0
            &&& forall|j: int| pos < j < pos + length ==> bytes[j] != 0
        }),
{
    lemma_nul_from(bytes, pos + 1);
}

/// The sequence id that the next saved text gets, after `record`.
pub open spec fn id_after(record: RecordView, next_id: nat) -> nat {
    if record is SaveText {
        next_id + 1
    } else {
        next_id
    }
}

/// The records that stand in `bytes` from `pos` to the end, or the first
/// failure met on the way. The first saved text gets `next_id`.
pub open spec fn records_from(bytes: Seq<u8>, pos: int, next_id: nat) -> Result<
    Seq<RecordView>,
    Fault,
>
    recommends
        0 <= pos <= bytes.len(),
    decreases bytes.len() - pos,
{
    if pos < 0 || pos >= bytes.len() {
        Ok(Seq::empty())
    } else {
        match record_at(bytes, pos, next_id) {
            Err(fault) => Err(fault),
            Ok(record) => {
                proof {
                    lemma_record_at(bytes, pos, next_id);
                }
                match records_from(bytes, pos + record.encoded_len(), id_after(record, next_id)) {
                    Err(fault) => Err(fault),
                    Ok(rest) => Ok(seq![record] + rest),
                }
            },
        }
    }
}

/// The records of a whole log: a log is valid exactly when this is `Ok`.
pub open spec fn parse(bytes: Seq<u8>) -> Result<Seq<RecordView>, Fault> {
    records_from(bytes, 0, 1)
}

} // verus!
