//! What holds of every log: how the records of a buffer follow from those of
//! its parts, that a valid log is used up to its last byte, and which failure
//! each kind of damage gives.

use vstd::prelude::*;
use crate::format::{
    id_after, lemma_nul_from, lemma_nul_from_is, lemma_record_at, nul_from, parse, record_at,
    records_from,
};
use crate::pass::followed_by;
use crate::record::{
    DecodeError, Fault, RecordView, ID_LEN, OP_DELETE_TEXT, OP_MOVE_ITEM_TO_END, OP_SAVE_TEXT,
};
use crate::stats::{lemma_summary_empty, lemma_summary_push, summary, total, StatsView};
use crate::synth::{nul_free, save_log, save_text_bytes, saved_texts, text_lengths};

verus! {

/// The saved texts among `records`.
pub open spec fn saved(records: Seq<RecordView>) -> nat {
    summary(records).num_save_texts
}

/// The bytes that `records` take in a log, one behind the other.
pub open spec fn span(records: Seq<RecordView>) -> nat
    decreases records.len(),
{
    if records.len() == 0 {
        0
    } else {
        records[0].encoded_len() + span(records.drop_first())
    }
}

/// `outcome` with the offset of its failure, where it is one, moved on by
/// `by` bytes.
pub open spec fn shifted(outcome: Result<Seq<RecordView>, Fault>, by: nat) -> Result<
    Seq<RecordView>,
    Fault,
> {
    match outcome {
        Ok(records) => Ok(records),
        Err(fault) => Err(Fault { kind: fault.kind, offset: fault.offset + by }),
    }
}

/// A record in front adds one to the saved texts where it is one.
proof fn lemma_saved_prepend(record: RecordView, rest: Seq<RecordView>)
    ensures
        saved(seq![record] + rest) == id_after(record, saved(rest)),
{
    let is_save = |r: RecordView| r is SaveText;
    Seq::filter_distributes_over_add(seq![record], rest, is_save);
    Seq::<RecordView>::empty().lemma_filter_push(record, is_save);
    Seq::<RecordView>::empty().lemma_filter_len(is_save);
}

/// A record that stands in `a` stands in `a + b` at the same offset.
proof fn lemma_record_at_prefix(a: Seq<u8>, b: Seq<u8>, pos: int, next_id: nat)
    requires
        0 <= pos < a.len(),
        record_at(a, pos, next_id) is Ok,
    ensures
        record_at(a + b, pos, next_id) == record_at(a, pos, next_id),
{
    if a[pos] == OP_SAVE_TEXT {
        lemma_nul_from(a, pos + 1);
        lemma_nul_from_is(a + b, pos + 1, nul_from(a, pos + 1));
    }
}

/// A record of `bytes` that ends within the first `n` bytes stands in those
/// bytes alone.
proof fn lemma_record_at_take(bytes: Seq<u8>, n: int, pos: int, next_id: nat)
    requires
        0 <= pos < bytes.len(),
        record_at(bytes, pos, next_id) is Ok,
        pos + record_at(bytes, pos, next_id)->Ok_0.encoded_len() <= n <= bytes.len(),
    ensures
        record_at(bytes.take(n), pos, next_id) == record_at(bytes, pos, next_id),
{
    if bytes[pos] == OP_SAVE_TEXT {
        lemma_nul_from(bytes, pos + 1);
        lemma_nul_from_is(bytes.take(n), pos + 1, nul_from(bytes, pos + 1));
    }
}

/// What stands at an offset of `b` stands in `a + b` that much behind the
/// end of `a`, and a failure is found that much further on.
proof fn lemma_record_at_shift(a: Seq<u8>, b: Seq<u8>, pos: int, next_id: nat)
    requires
        0 <= pos < b.len(),
    ensures
        record_at(a + b, a.len() + pos, next_id) == match record_at(b, pos, next_id) {
            Ok(record) => Ok::<RecordView, Fault>(record),
            Err(fault) => Err(Fault { kind: fault.kind, offset: fault.offset + a.len() }),
        },
{
    if b[pos] == OP_SAVE_TEXT {
        lemma_nul_from(b, pos + 1);
        lemma_nul_from_is(a + b, a.len() + pos + 1, a.len() + nul_from(b, pos + 1));
    }
}

/// The records of `a + b` from an offset in `a`, where `a` alone is valid
/// from there: those of `a`, and then what `a + b` holds behind `a`.
pub proof fn lemma_records_from_prefix(a: Seq<u8>, b: Seq<u8>, pos: int, next_id: nat)
    requires
        0 <= pos <= a.len(),
        records_from(a, pos, next_id) is Ok,
    ensures
        records_from(a + b, pos, next_id) == followed_by(
            records_from(a, pos, next_id)->Ok_0,
            records_from(
                a + b,
                a.len() as int,
                next_id + saved(records_from(a, pos, next_id)->Ok_0),
            ),
        ),
    decreases a.len() - pos,
{
    if pos == a.len() {
        lemma_summary_empty();
    } else {
        let record = record_at(a, pos, next_id)->Ok_0;
        let next = pos + record.encoded_len();
        let rest = records_from(a, next, id_after(record, next_id))->Ok_0;
        lemma_record_at(a, pos, next_id);
        lemma_record_at_prefix(a, b, pos, next_id);
        lemma_records_from_prefix(a, b, next, id_after(record, next_id));
        lemma_saved_prepend(record, rest);
        let tail = records_from(
            a + b,
            a.len() as int,
            id_after(record, next_id) + saved(rest),
        );
        if tail is Ok {
            assert(seq![record] + (rest + tail->Ok_0) =~= (seq![record] + rest) + tail->Ok_0);
        }
    }
}

/// The records of `a + b` from an offset behind `a` are those of `b` from
/// that offset less the length of `a`; a failure is found that length
/// further on.
pub proof fn lemma_records_from_shift(a: Seq<u8>, b: Seq<u8>, pos: int, next_id: nat)
    requires
        0 <= pos <= b.len(),
    ensures
        records_from(a + b, a.len() + pos, next_id) == shifted(
            records_from(b, pos, next_id),
            a.len(),
        ),
    decreases b.len() - pos,
{
    if pos < b.len() {
        lemma_record_at_shift(a, b, pos, next_id);
        if record_at(b, pos, next_id) is Ok {
            let record = record_at(b, pos, next_id)->Ok_0;
            lemma_record_at(b, pos, next_id);
            lemma_records_from_shift(a, b, pos + record.encoded_len(), id_after(record, next_id));
        }
    }
}

/// A valid log followed by more bytes holds its own records and then those
/// of the bytes that follow, numbered on from its saved texts. A failure in
/// what follows is found at its offset there plus the length of the log.
pub proof fn lemma_parse_append(head: Seq<u8>, tail: Seq<u8>)
    requires
        parse(head) is Ok,
    ensures
        parse(head + tail) == followed_by(
            parse(head)->Ok_0,
            shifted(records_from(tail, 0, 1 + saved(parse(head)->Ok_0)), head.len()),
        ),
{
    lemma_records_from_prefix(head, tail, 0, 1);
    lemma_records_from_shift(head, tail, 0, 1 + saved(parse(head)->Ok_0));
}

/// The records behind an offset of a buffer that is valid from there take
/// exactly the bytes from that offset to the end.
pub proof fn lemma_records_from_span(bytes: Seq<u8>, pos: int, next_id: nat)
    requires
        0 <= pos <= bytes.len(),
        records_from(bytes, pos, next_id) is Ok,
    ensures
        pos + span(records_from(bytes, pos, next_id)->Ok_0) == bytes.len(),
    decreases bytes.len() - pos,
{
    if pos < bytes.len() {
        let record = record_at(bytes, pos, next_id)->Ok_0;
        let rest = records_from(bytes, pos + record.encoded_len(), id_after(record, next_id))->Ok_0;
        lemma_record_at(bytes, pos, next_id);
        lemma_records_from_span(bytes, pos + record.encoded_len(), id_after(record, next_id));
        assert((seq![record] + rest).drop_first() =~= rest);
    }
}

/// A valid log is used up to its last byte: its records, one behind the
/// other, take exactly its length, so none of its bytes is left unread and
/// none belongs to two records.
pub proof fn lemma_valid_log_is_consumed(bytes: Seq<u8>)
    requires
        parse(bytes) is Ok,
    ensures
        span(parse(bytes)->Ok_0) == bytes.len(),
{
    lemma_records_from_span(bytes, 0, 1);
}

/// A byte that is no opcode, behind a valid log, is an invalid opcode at
/// its own offset, whatever follows it.
pub proof fn lemma_invalid_opcode(head: Seq<u8>, op: u8, tail: Seq<u8>)
    requires
        parse(head) is Ok,
        op < OP_SAVE_TEXT || op > OP_MOVE_ITEM_TO_END,
    ensures
        parse(head + (seq![op] + tail)) == Err::<Seq<RecordView>, Fault>(
            Fault { kind: DecodeError::InvalidOpcode(op), offset: head.len() },
        ),
{
    lemma_parse_append(head, seq![op] + tail);
}

/// A saved text that runs to the end of the log without a NUL, behind a
/// valid log, is reported as not terminated, at the offset where the text
/// begins.
pub proof fn lemma_unterminated_text(head: Seq<u8>, text: Seq<u8>)
    requires
        parse(head) is Ok,
        nul_free(text),
    ensures
        parse(head + (seq![OP_SAVE_TEXT] + text)) == Err::<Seq<RecordView>, Fault>(
            Fault { kind: DecodeError::NotNulTerminated, offset: head.len() + 1 },
        ),
{
    let cut = seq![OP_SAVE_TEXT] + text;
    lemma_parse_append(head, cut);
    lemma_nul_from_is(cut, 1, cut.len() as int);
}

/// An item id of fewer than four bytes at the end of the log, behind a valid
/// log and an opcode that takes an id, is reported as an unexpected end, at
/// the offset where the id begins. No id is made up from the bytes that are
/// there.
pub proof fn lemma_cut_id(head: Seq<u8>, op: u8, part: Seq<u8>)
    requires
        parse(head) is Ok,
        OP_DELETE_TEXT <= op <= OP_MOVE_ITEM_TO_END,
        part.len() < ID_LEN,
    ensures
        parse(head + (seq![op] + part)) == Err::<Seq<RecordView>, Fault>(
            Fault { kind: DecodeError::UnexpectedEof, offset: head.len() + 1 },
        ),
{
    lemma_parse_append(head, seq![op] + part);
}

/// The last record of a valid log can be taken off: the bytes before it are
/// a valid log of the records before it, and it stands right behind them.
pub proof fn lemma_records_from_drop_last(bytes: Seq<u8>, pos: int, next_id: nat)
    requires
        0 <= pos <= bytes.len(),
        records_from(bytes, pos, next_id) is Ok,
        records_from(bytes, pos, next_id)->Ok_0.len() > 0,
    ensures
        ({
            let records = records_from(bytes, pos, next_id)->Ok_0;
            let before = bytes.len() - records.last().encoded_len();
            &&& pos <= before < bytes.len()
            &&& records_from(bytes.take(before), pos, next_id) == Ok::<Seq<RecordView>, Fault>(
                records.drop_last(),
            )
            &&& record_at(bytes, before, next_id + saved(records.drop_last())) == Ok::<
                RecordView,
                Fault,
            >(records.last())
        }),
    decreases bytes.len() - pos,
{
    let records = records_from(bytes, pos, next_id)->Ok_0;
    let before = bytes.len() - records.last().encoded_len();
    let record = record_at(bytes, pos, next_id)->Ok_0;
    let next = pos + record.encoded_len();
    let rest = records_from(bytes, next, id_after(record, next_id))->Ok_0;
    lemma_record_at(bytes, pos, next_id);
    if rest.len() == 0 {
        lemma_summary_empty();
        assert(records.drop_last() =~= Seq::<RecordView>::empty());
    } else {
        lemma_records_from_drop_last(bytes, next, id_after(record, next_id));
        lemma_record_at_take(bytes, before, pos, next_id);
        lemma_saved_prepend(record, rest.drop_last());
        assert(records.drop_last() =~= seq![record] + rest.drop_last());
    }
}

/// A valid log that ends in a record with an item id, cut short by one to
/// four bytes, is reported as an unexpected end at the offset where that id
/// begins. No id is made up from the bytes that are left.
pub proof fn lemma_truncated_id(log: Seq<u8>, missing: int)
    requires
        parse(log) is Ok,
        parse(log)->Ok_0.len() > 0,
        !(parse(log)->Ok_0.last() is SaveText),
        1 <= missing <= ID_LEN,
    ensures
        parse(log.take(log.len() - missing)) == Err::<Seq<RecordView>, Fault>(
            Fault { kind: DecodeError::UnexpectedEof, offset: (log.len() - ID_LEN) as nat },
        ),
{
    let before = log.len() - (1 + ID_LEN);
    let head = log.take(before);
    let part = log.subrange(before + 1, log.len() - missing);
    lemma_records_from_drop_last(log, 0, 1);
    assert(log.take(log.len() - missing) =~= head + (seq![log[before]] + part));
    lemma_cut_id(head, log[before], part);
}

/// The record of one saved text without a NUL, alone in a buffer, is that
/// one record.
proof fn lemma_save_text_alone(text: Seq<u8>, next_id: nat)
    requires
        nul_free(text),
    ensures
        records_from(save_text_bytes(text), 0, next_id) == Ok::<Seq<RecordView>, Fault>(
            seq![RecordView::SaveText { length: text.len() + 1, sequence_id: next_id }],
        ),
{
    let entry = save_text_bytes(text);
    lemma_nul_from_is(entry, 1, text.len() as int + 1);
    assert(records_from(entry, entry.len() as int, next_id + 1) == Ok::<Seq<RecordView>, Fault>(
        Seq::empty(),
    ));
}

/// The statistics of the records that save `texts`: as many saved texts as
/// there are texts, no other record, and the lengths of the texts.
pub proof fn lemma_saved_texts_summary(texts: Seq<Seq<u8>>)
    ensures
        summary(saved_texts(texts)) == (StatsView {
            num_save_texts: texts.len(),
            lengths: text_lengths(texts),
            ..StatsView::empty()
        }),
    decreases texts.len(),
{
    if texts.len() == 0 {
        lemma_summary_empty();
        assert(saved_texts(texts) =~= Seq::<RecordView>::empty());
        assert(text_lengths(texts) =~= Seq::<int>::empty());
    } else {
        let record = RecordView::SaveText {
            length: texts.last().len() + 1,
            sequence_id: texts.len(),
        };
        lemma_saved_texts_summary(texts.drop_last());
        lemma_summary_push(saved_texts(texts.drop_last()), record);
        assert(saved_texts(texts) =~= saved_texts(texts.drop_last()).push(record));
        assert(text_lengths(texts) =~= text_lengths(texts.drop_last()).push(
            texts.last().len() as int,
        ));
    }
}

/// A log that saves texts without a NUL, one behind the other, holds one
/// saved text for each, in their order and numbered from 1.
pub proof fn lemma_save_log_records(texts: Seq<Seq<u8>>)
    requires
        forall|i: int| 0 <= i < texts.len() ==> nul_free(#[trigger] texts[i]),
    ensures
        parse(save_log(texts)) == Ok::<Seq<RecordView>, Fault>(saved_texts(texts)),
    decreases texts.len(),
{
    if texts.len() == 0 {
        assert(saved_texts(texts) =~= Seq::<RecordView>::empty());
    } else {
        let head = texts.drop_last();
        let record = RecordView::SaveText {
            length: texts.last().len() + 1,
            sequence_id: texts.len(),
        };
        lemma_save_log_records(head);
        lemma_saved_texts_summary(head);
        lemma_parse_append(save_log(head), save_text_bytes(texts.last()));
        lemma_save_text_alone(texts.last(), texts.len());
        assert(saved_texts(texts) =~= saved_texts(head) + seq![record]);
    }
}

/// A log of `texts.len()` saved texts without a NUL and nothing else is
/// valid. Its statistics count that many saved texts and that many entries,
/// and their byte total is the sum of the lengths of the texts.
pub proof fn lemma_synthetic_log(texts: Seq<Seq<u8>>)
    requires
        forall|i: int| 0 <= i < texts.len() ==> nul_free(#[trigger] texts[i]),
    ensures
        parse(save_log(texts)) is Ok,
        summary(parse(save_log(texts))->Ok_0).num_save_texts == texts.len(),
        summary(parse(save_log(texts))->Ok_0).num_entries() == texts.len(),
        summary(parse(save_log(texts))->Ok_0).lengths == text_lengths(texts),
        summary(parse(save_log(texts))->Ok_0).total_str_bytes() == total(text_lengths(texts)),
{
    lemma_save_log_records(texts);
    lemma_saved_texts_summary(texts);
}

} // verus!
