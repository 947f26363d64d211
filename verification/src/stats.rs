//! The statistics that one pass over a log gathers: how many records of each
//! kind it holds, and how long the saved texts are.

use vstd::prelude::*;
use crate::order::{extrema, median, median_of};
use crate::record::{LogRecord, RecordView};

verus! {

/// The sum of the numbers of `s`.
pub open spec fn total(s: Seq<int>) -> int
    decreases s.len(),
{
    if s.len() == 0 {
        0
    } else {
        total(s.drop_last()) + s.last()
    }
}

/// One more number adds itself to the sum.
pub proof fn lemma_total_push(s: Seq<int>, x: int)
    ensures
        total(s.push(x)) == total(s) + x,
{
    assert(s.push(x).drop_last() =~= s);
}

/// The numbers of `lengths` over unbounded integers.
pub open spec fn ints(lengths: Seq<usize>) -> Seq<int> {
    lengths.map_values(|n: usize| n as int)
}

/// Model of the statistics: the count of each kind of record, and the
/// lengths of the saved texts, without their terminators, in the order in
/// which the texts were met.
pub struct StatsView {
    pub num_save_texts: nat,
    pub num_deletes: nat,
    pub num_favorites: nat,
    pub num_unfavorites: nat,
    pub num_moves: nat,
    pub lengths: Seq<int>,
}

impl StatsView {
    /// The statistics before any record.
    pub open spec fn empty() -> StatsView {
        StatsView {
            num_save_texts: 0,
            num_deletes: 0,
            num_favorites: 0,
            num_unfavorites: 0,
            num_moves: 0,
            lengths: Seq::empty(),
        }
    }

    /// The bytes of all saved texts together, without their terminators.
    pub open spec fn total_str_bytes(self) -> int {
        total(self.lengths)
    }

    /// The saved texts less the deletions, and zero where more was deleted
    /// than saved. This counts the items that are left only as long as every
    /// deletion removes one saved text that no earlier one removed.
    pub open spec fn num_entries(self) -> nat {
        if self.num_save_texts >= self.num_deletes {
            (self.num_save_texts - self.num_deletes) as nat
        } else {
            0
        }
    }

    /// The statistics after one more record.
    pub open spec fn with(self, record: RecordView) -> StatsView {
        match record {
            RecordView::SaveText { .. } => StatsView {
                num_save_texts: self.num_save_texts + 1,
                lengths: self.lengths.push(record.text_len() as int),
                ..self
            },
            RecordView::DeleteText { .. } => StatsView {
                num_deletes: self.num_deletes + 1,
                ..self
            },
            RecordView::FavoriteItem { .. } => StatsView {
                num_favorites: self.num_favorites + 1,
                ..self
            },
            RecordView::UnfavoriteItem { .. } => StatsView {
                num_unfavorites: self.num_unfavorites + 1,
                ..self
            },
            RecordView::MoveItemToEnd { .. } => StatsView {
                num_moves: self.num_moves + 1,
                ..self
            },
        }
    }

    /// Whether the statistics after one more `record` still fit a machine
    /// word: the count of its kind, and for a saved text the byte total.
    pub open spec fn has_room_for(self, record: RecordView) -> bool {
        match record {
            RecordView::SaveText { .. } => self.total_str_bytes() + record.text_len()
                <= usize::MAX,
            RecordView::DeleteText { .. } => self.num_deletes < usize::MAX,
            RecordView::FavoriteItem { .. } => self.num_favorites < usize::MAX,
            RecordView::UnfavoriteItem { .. } => self.num_unfavorites < usize::MAX,
            RecordView::MoveItemToEnd { .. } => self.num_moves < usize::MAX,
        }
    }
}

/// The statistics of a sequence of records: how many of each kind it holds,
/// and the text lengths of its saved texts in their order.
pub open spec fn summary(records: Seq<RecordView>) -> StatsView {
    StatsView {
        num_save_texts: records.filter(|r: RecordView| r is SaveText).len(),
        num_deletes: records.filter(|r: RecordView| r is DeleteText).len(),
        num_favorites: records.filter(|r: RecordView| r is FavoriteItem).len(),
        num_unfavorites: records.filter(|r: RecordView| r is UnfavoriteItem).len(),
        num_moves: records.filter(|r: RecordView| r is MoveItemToEnd).len(),
        lengths: records.filter(|r: RecordView| r is SaveText).map_values(
            |r: RecordView| r.text_len() as int,
        ),
    }
}

/// No records give the empty statistics.
pub proof fn lemma_summary_empty()
    ensures
        summary(Seq::empty()) == StatsView::empty(),
{
    let none = Seq::<RecordView>::empty();
    assert(none.filter(|r: RecordView| r is SaveText).len() == 0) by {
        none.lemma_filter_len(|r: RecordView| r is SaveText);
    }
    assert(none.filter(|r: RecordView| r is DeleteText).len() == 0) by {
        none.lemma_filter_len(|r: RecordView| r is DeleteText);
    }
    assert(none.filter(|r: RecordView| r is FavoriteItem).len() == 0) by {
        none.lemma_filter_len(|r: RecordView| r is FavoriteItem);
    }
    assert(none.filter(|r: RecordView| r is UnfavoriteItem).len() == 0) by {
        none.lemma_filter_len(|r: RecordView| r is UnfavoriteItem);
    }
    assert(none.filter(|r: RecordView| r is MoveItemToEnd).len() == 0) by {
        none.lemma_filter_len(|r: RecordView| r is MoveItemToEnd);
    }
    assert(summary(none).lengths =~= Seq::<int>::empty());
}

/// Folding one record into the statistics of a sequence gives the
/// statistics of the sequence with that record at its end.
pub proof fn lemma_summary_push(records: Seq<RecordView>, record: RecordView)
    ensures
        summary(records.push(record)) == summary(records).with(record),
{
    records.lemma_filter_push(record, |r: RecordView| r is SaveText);
    records.lemma_filter_push(record, |r: RecordView| r is DeleteText);
    records.lemma_filter_push(record, |r: RecordView| r is FavoriteItem);
    records.lemma_filter_push(record, |r: RecordView| r is UnfavoriteItem);
    records.lemma_filter_push(record, |r: RecordView| r is MoveItemToEnd);
    assert(summary(records.push(record)).lengths =~= summary(records).with(record).lengths);
}

/// The counts of the records by kind.
#[derive(Clone, Copy, Debug, PartialEq, Eq, Structural)]
pub struct OpCountStats {
    pub num_save_texts: usize,
    pub num_deletes: usize,
    pub num_favorites: usize,
    pub num_unfavorites: usize,
    pub num_moves: usize,
}

/// The counters of a pass.
#[derive(Clone, Copy, Debug, PartialEq, Eq, Structural)]
pub struct RawStats {
    /// The saved texts less the deletions.
    pub num_entries: usize,
    /// The bytes of all saved texts together, without their terminators.
    pub total_str_bytes: usize,
    pub ops: OpCountStats,
}

impl RawStats {
    /// Whether these are the counters of the statistics `of`.
    pub open spec fn counts(self, of: StatsView) -> bool {
        &&& self.num_entries == of.num_entries()
        &&& self.total_str_bytes == of.total_str_bytes()
        &&& self.ops.num_save_texts == of.num_save_texts
        &&& self.ops.num_deletes == of.num_deletes
        &&& self.ops.num_favorites == of.num_favorites
        &&& self.ops.num_unfavorites == of.num_unfavorites
        &&& self.ops.num_moves == of.num_moves
    }
}

/// What follows from the lengths of the saved texts once all are known.
///
/// The mean is the quotient of `total_entry_length` by `num_entry_lengths`.
/// Both are kept as they are, so that nothing is lost before the caller
/// divides them in the number type of its choice.
#[derive(Clone, Copy, Debug, PartialEq, Eq, Structural)]
pub struct ComputedStats {
    pub min_entry_length: usize,
    pub max_entry_length: usize,
    /// The sum of the lengths: the numerator of the mean.
    pub total_entry_length: usize,
    /// The count of the lengths: the denominator of the mean.
    pub num_entry_lengths: usize,
    /// The middle length in ascending order, and of the two middle ones the
    /// upper where the count is even.
    pub median_entry_length: usize,
}

impl ComputedStats {
    /// Whether these are the derived statistics of `lengths`.
    pub open spec fn describes(self, lengths: Seq<int>) -> bool {
        &&& lengths.len() > 0
        &&& self.min_entry_length == lengths.min()
        &&& self.max_entry_length == lengths.max()
        &&& self.total_entry_length == total(lengths)
        &&& self.num_entry_lengths == lengths.len()
        &&& self.median_entry_length == median(lengths)
    }
}

/// The end of a pass: the counters, and what follows from the text lengths
/// where there is any.
#[derive(Clone, Copy, Debug, PartialEq, Eq)]
pub struct Report {
    pub raw: RawStats,
    /// `None` where no text was saved: the derived statistics are then
    /// unavailable.
    pub computed: Option<ComputedStats>,
}

impl Report {
    /// Whether this is the report on the statistics `of`.
    pub open spec fn reports(self, of: StatsView) -> bool {
        &&& self.raw.counts(of)
        &&& self.computed is None <==> of.lengths.len() == 0
        &&& self.computed is Some ==> self.computed->Some_0.describes(of.lengths)
    }
}

/// The running statistics of a pass: the counters, and the length of each
/// saved text in the order in which the texts were met.
pub struct Stats {
    raw: RawStats,
    lengths: Vec<usize>,
}

impl View for Stats {
    type V = StatsView;

    closed spec fn view(&self) -> StatsView {
        StatsView {
            num_save_texts: self.raw.ops.num_save_texts as nat,
            num_deletes: self.raw.ops.num_deletes as nat,
            num_favorites: self.raw.ops.num_favorites as nat,
            num_unfavorites: self.raw.ops.num_unfavorites as nat,
            num_moves: self.raw.ops.num_moves as nat,
            lengths: ints(self.lengths@),
        }
    }
}

impl Stats {
    #[verifier::type_invariant]
    spec fn consistent(&self) -> bool {
        &&& self.raw.ops.num_save_texts == self.lengths@.len()
        &&& self.raw.total_str_bytes == total(ints(self.lengths@))
        &&& self.raw.num_entries == self@.num_entries()
    }

    /// The statistics before any record.
    pub fn new() -> (stats: Stats)
        ensures
            stats@ == StatsView::empty(),
    {
        let stats = Stats {
            raw: RawStats {
                num_entries: 0,
                total_str_bytes: 0,
                ops: OpCountStats {
                    num_save_texts: 0,
                    num_deletes: 0,
                    num_favorites: 0,
                    num_unfavorites: 0,
                    num_moves: 0,
                },
            },
            lengths: Vec::new(),
        };
        assert(stats@.lengths =~= Seq::<int>::empty());
        stats
    }

    /// Folds one record into the statistics.
    pub fn record(&mut self, record: &LogRecord)
        requires
            old(self)@.has_room_for(record@),
        ensures
            final(self)@ == old(self)@.with(record@),
            final(self)@.total_str_bytes() == old(self)@.total_str_bytes() + record@.text_len(),
    {
        // The counters and the lengths change together: the value is taken
        // out and put back whole.
        let mut taken = Stats::new();
        core::mem::swap(self, &mut taken);
        proof {
            use_type_invariant(&taken);
        }
        let Stats { raw, lengths } = taken;
        let mut raw = raw;
        let mut lengths = lengths;
        match record {
            LogRecord::SaveText { length, .. } => {
                let text_len: usize = if *length >= 1 {
                    *length - 1
                } else {
                    0
                };
                proof {
                    assert(ints(lengths@.push(text_len)) =~= ints(lengths@).push(text_len as int));
                    assert(ints(lengths@).push(text_len as int).drop_last() =~= ints(lengths@));
                }
                lengths.push(text_len);
                raw.total_str_bytes = raw.total_str_bytes + text_len;
                raw.ops.num_save_texts = lengths.len();
            },
            LogRecord::DeleteText { .. } => {
                raw.ops.num_deletes = raw.ops.num_deletes + 1;
            },
            LogRecord::FavoriteItem { .. } => {
                raw.ops.num_favorites = raw.ops.num_favorites + 1;
            },
            LogRecord::UnfavoriteItem { .. } => {
                raw.ops.num_unfavorites = raw.ops.num_unfavorites + 1;
            },
            LogRecord::MoveItemToEnd { .. } => {
                raw.ops.num_moves = raw.ops.num_moves + 1;
            },
        }
        raw.num_entries = entries_left(raw.ops.num_save_texts, raw.ops.num_deletes);
        *self = Stats { raw, lengths };
    }

    /// The counters, with the entries that are left.
    pub fn raw(&self) -> (raw: RawStats)
        ensures
            raw.counts(self@),
    {
        proof {
            use_type_invariant(self);
        }
        self.raw
    }

    /// The least, the greatest and the median length and the two parts of
    /// the mean, or `None` where no text was saved.
    pub fn computed(&self) -> (computed: Option<ComputedStats>)
        ensures
            computed is None <==> self@.lengths.len() == 0,
            computed is Some ==> computed->Some_0.describes(self@.lengths),
    {
        proof {
            use_type_invariant(self);
        }
        match extrema(self.lengths.as_slice()) {
            None => None,
            Some((low, high)) => {
                let middle = median_of(self.lengths.as_slice());
                Some(
                    ComputedStats {
                        min_entry_length: low,
                        max_entry_length: high,
                        total_entry_length: self.raw.total_str_bytes,
                        num_entry_lengths: self.lengths.len(),
                        median_entry_length: middle.unwrap(),
                    },
                )
            },
        }
    }

    /// Closes the pass: the counters with the entries that are left, and
    /// the derived statistics where a text was saved.
    pub fn finalize(&self) -> (report: Report)
        ensures
            report.reports(self@),
    {
        Report { raw: self.raw(), computed: self.computed() }
    }

    /// The length of each saved text, without its terminator, in the order
    /// in which the texts were met.
    pub fn lengths(&self) -> (lengths: &Vec<usize>)
        ensures
            ints(lengths@) == self@.lengths,
            lengths@.len() == self@.num_save_texts,
    {
        proof {
            use_type_invariant(self);
        }
        &self.lengths
    }
}

impl Default for Stats {
    /// The statistics before any record.
    fn default() -> (stats: Stats)
        ensures
            stats@ == StatsView::empty(),
    {
        Stats::new()
    }
}

/// The saved texts less the deletions, and zero where more was deleted than
/// saved.
pub fn entries_left(num_save_texts: usize, num_deletes: usize) -> (left: usize)
    ensures
        num_save_texts >= num_deletes ==> left == num_save_texts - num_deletes,
        num_save_texts < num_deletes ==> left == 0,
{
    if num_save_texts >= num_deletes {
        num_save_texts - num_deletes
    } else {
        0
    }
}

} // verus!
