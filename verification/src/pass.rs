//! One pass over a log: the decoder that walks the buffer record by record
//! and gathers the statistics on its way.

use vstd::prelude::*;
use crate::decode::{decode_next, stands_at};
use crate::format::{id_after, lemma_record_at, parse, record_at, records_from};
use crate::record::{DataError, Decoded, Fault, LogRecord, RecordView};
use crate::stats::{
    lemma_summary_empty, lemma_summary_push, lemma_total_push, summary, Stats,
};

verus! {

/// Model of a decoder: the buffer, the offset of the next record, and the
/// records decoded so far.
pub struct DecoderView {
    pub bytes: Seq<u8>,
    pub cursor: nat,
    pub records: Seq<RecordView>,
}

impl DecoderView {
    /// The sequence id that the next saved text gets: one more than the
    /// saved texts decoded so far.
    pub open spec fn next_id(self) -> nat {
        summary(self.records).num_save_texts + 1
    }

    /// The decoder after the record `record`, which stood at its cursor.
    pub open spec fn after(self, record: RecordView) -> DecoderView {
        DecoderView {
            bytes: self.bytes,
            cursor: self.cursor + record.encoded_len(),
            records: self.records.push(record),
        }
    }
}

/// The records `done` followed by what `rest` holds: the failure of `rest`
/// where it is one.
pub open spec fn followed_by(done: Seq<RecordView>, rest: Result<Seq<RecordView>, Fault>) -> Result<
    Seq<RecordView>,
    Fault,
> {
    match rest {
        Ok(records) => Ok(done + records),
        Err(fault) => Err(fault),
    }
}

/// A decoder over one buffer. It numbers the saved texts, keeps the
/// statistics of what it has decoded, and stops for good at the first
/// failure: a step after a failure finds the same failure again.
pub struct Decoder<'a> {
    bytes: &'a [u8],
    cursor: usize,
    next_id: usize,
    stats: Stats,
    done: Ghost<Seq<RecordView>>,
}

impl<'a> View for Decoder<'a> {
    type V = DecoderView;

    closed spec fn view(&self) -> DecoderView {
        DecoderView { bytes: self.bytes@, cursor: self.cursor as nat, records: self.done@ }
    }
}

impl<'a> Decoder<'a> {
    #[verifier::type_invariant]
    spec fn consistent(&self) -> bool {
        let tally = summary(self.done@);
        &&& self.cursor <= self.bytes@.len()
        &&& self.stats@ == tally
        &&& self.next_id == tally.num_save_texts + 1
        &&& 0 <= tally.total_str_bytes()
        &&& 2 * (tally.num_save_texts + tally.num_deletes + tally.num_favorites
            + tally.num_unfavorites + tally.num_moves) + tally.total_str_bytes() <= self.cursor
        &&& parse(self.bytes@) == followed_by(
            self.done@,
            records_from(self.bytes@, self.cursor as int, self.next_id as nat),
        )
    }

    /// A decoder at the start of `bytes`.
    pub fn new(bytes: &'a [u8]) -> (decoder: Decoder<'a>)
        ensures
            decoder@ == (DecoderView { bytes: bytes@, cursor: 0, records: Seq::empty() }),
    {
        proof {
            lemma_summary_empty();
        }
        Decoder { bytes, cursor: 0, next_id: 1, stats: Stats::new(), done: Ghost(Seq::empty()) }
    }

    /// The offset of the next record. It lies in the buffer or at its end,
    /// and the buffer holds the records decoded so far and then what stands
    /// from there on.
    pub fn cursor(&self) -> (cursor: usize)
        ensures
            cursor == self@.cursor,
            cursor <= self@.bytes.len(),
            parse(self@.bytes) == followed_by(
                self@.records,
                records_from(self@.bytes, cursor as int, self@.next_id()),
            ),
    {
        proof {
            use_type_invariant(self);
        }
        self.cursor
    }

    /// The statistics of the records decoded so far.
    pub fn stats(&self) -> (stats: &Stats)
        ensures
            stats@ == summary(self@.records),
    {
        proof {
            use_type_invariant(self);
        }
        &self.stats
    }

    /// Ends the pass and hands out the statistics of the records decoded.
    pub fn finish(self) -> (stats: Stats)
        ensures
            stats@ == summary(self@.records),
    {
        proof {
            use_type_invariant(&self);
        }
        self.stats
    }

    /// Decodes the record at the cursor, folds it into the statistics and
    /// moves the cursor behind it.
    ///
    /// At the end of the buffer the result is `Ok(None)` and nothing
    /// changes: the buffer then held exactly the records decoded. On a
    /// failure nothing changes either, and the failure is that of the whole
    /// buffer.
    pub fn step(&mut self) -> (step: Result<Option<Decoded>, DataError>)
        ensures
            old(self)@.cursor >= old(self)@.bytes.len() ==> {
                &&& step == Ok::<Option<Decoded>, DataError>(None)
                &&& final(self)@ == old(self)@
                &&& old(self)@.cursor == old(self)@.bytes.len()
                &&& parse(old(self)@.bytes) == Ok::<Seq<RecordView>, Fault>(old(self)@.records)
            },
            old(self)@.cursor < old(self)@.bytes.len() ==> match record_at(
                old(self)@.bytes,
                old(self)@.cursor as int,
                old(self)@.next_id(),
            ) {
                Ok(record) => {
                    &&& step is Ok
                    &&& step->Ok_0 is Some
                    &&& stands_at(step->Ok_0->Some_0, record, old(self)@.cursor as int)
                    &&& final(self)@ == old(self)@.after(record)
                },
                Err(fault) => {
                    &&& step is Err
                    &&& step->Err_0@ == fault
                    &&& final(self)@ == old(self)@
                    &&& parse(old(self)@.bytes) == Err::<Seq<RecordView>, Fault>(fault)
                },
            },
    {
        proof {
            use_type_invariant(&*self);
        }
        match decode_next(self.bytes, self.cursor, self.next_id) {
            Ok(None) => Ok(None),
            Err(error) => Err(error),
            Ok(Some(decoded)) => {
                // Cursor, numbering and statistics change together: the
                // decoder is taken out and put back whole.
                let mut taken = Decoder::new(self.bytes);
                core::mem::swap(self, &mut taken);
                let Decoder { bytes, cursor, next_id, stats, done } = taken;
                let mut stats = stats;
                let ghost record = decoded.record@;
                proof {
                    lemma_record_at(bytes@, cursor as int, next_id as nat);
                    lemma_summary_push(done@, record);
                    lemma_total_push(summary(done@).lengths, record.text_len() as int);
                    let rest = records_from(
                        bytes@,
                        cursor + record.encoded_len(),
                        id_after(record, next_id as nat),
                    );
                    if rest is Ok {
                        assert(done@ + (seq![record] + rest->Ok_0) =~= done@.push(record)
                            + rest->Ok_0);
                    }
                }
                stats.record(&decoded.record);
                let next_id = match decoded.record {
                    LogRecord::SaveText { .. } => next_id + 1,
                    _ => next_id,
                };
                *self = Decoder {
                    bytes,
                    cursor: decoded.end,
                    next_id,
                    stats,
                    done: Ghost(done@.push(record)),
                };
                Ok(Some(decoded))
            },
        }
    }
}

/// Decodes a whole log and gathers its statistics.
///
/// The result is the statistics of the records that the log holds, or the
/// first failure that decoding meets. No record behind a failure is looked
/// at.
pub fn read(bytes: &[u8]) -> (outcome: Result<Stats, DataError>)
    ensures
        match parse(bytes@) {
            Ok(records) => outcome is Ok && outcome->Ok_0@ == summary(records),
            Err(fault) => outcome is Err && outcome->Err_0@ == fault,
        },
{
    let mut decoder = Decoder::new(bytes);
    loop
        invariant
            decoder@.bytes == bytes@,
            decoder@.cursor <= bytes@.len(),
        decreases bytes@.len() - decoder@.cursor,
    {
        let ghost before = decoder@;
        match decoder.step() {
            Err(error) => {
                return Err(error);
            },
            Ok(None) => {
                return Ok(decoder.finish());
            },
            Ok(Some(_)) => {
                proof {
                    lemma_record_at(bytes@, before.cursor as int, before.next_id());
                }
            },
        }
    }
}

} // verus!
