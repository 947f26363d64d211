//! Synthetic log entries: saved texts of printable bytes drawn from a random
//! number generator, framed as the log stores them.

use rand::distributions::{Distribution, Uniform};
use rand_xoshiro::Xoshiro256PlusPlus;
use vstd::prelude::*;
use crate::record::{RecordView, OP_SAVE_TEXT};

verus! {

/// The least byte of a synthetic text: the first printable ASCII character
/// behind the space.
pub const PRINTABLE_MIN: u8 = 0x21;

/// The greatest byte of a synthetic text: the last printable ASCII character.
pub const PRINTABLE_MAX: u8 = 0x7E;

/// The generator `rand_xoshiro::Xoshiro256PlusPlus`. Nothing is known of its
/// state.
#[verifier::external_type_specification]
#[verifier::external_body]
pub struct ExXoshiro256PlusPlus(Xoshiro256PlusPlus);

/// The bytes of the record that saves `text`: the opcode, the text, one NUL.
pub open spec fn save_text_bytes(text: Seq<u8>) -> Seq<u8> {
    seq![OP_SAVE_TEXT] + text + seq![0u8]
}

/// Whether every byte of `text` is a printable ASCII character other than
/// the space.
pub open spec fn printable(text: Seq<u8>) -> bool {
    forall|i: int| 0 <= i < text.len() ==> PRINTABLE_MIN <= #[trigger] text[i] <= PRINTABLE_MAX
}

/// Whether no byte of `text` is NUL.
pub open spec fn nul_free(text: Seq<u8>) -> bool {
    forall|i: int| 0 <= i < text.len() ==> #[trigger] text[i] != 0
}

/// Printable bytes are none of them NUL.
pub proof fn lemma_printable_is_nul_free(text: Seq<u8>)
    requires
        printable(text),
    ensures
        nul_free(text),
{
}

/// The log that saves each of `texts` in turn and holds nothing else.
pub open spec fn save_log(texts: Seq<Seq<u8>>) -> Seq<u8>
    decreases texts.len(),
{
    if texts.len() == 0 {
        Seq::empty()
    } else {
        save_log(texts.drop_last()) + save_text_bytes(texts.last())
    }
}

/// The records that save each of `texts` in turn, numbered from 1.
pub open spec fn saved_texts(texts: Seq<Seq<u8>>) -> Seq<RecordView> {
    Seq::new(
        texts.len(),
        |i: int| RecordView::SaveText { length: texts[i].len() + 1, sequence_id: (i + 1) as nat },
    )
}

/// The length of each of `texts`.
pub open spec fn text_lengths(texts: Seq<Seq<u8>>) -> Seq<int> {
    texts.map_values(|text: Seq<u8>| text.len() as int)
}

/// Whether `entry` is the record of some saved text of `len` printable
/// bytes.
pub open spec fn is_synthetic_entry(entry: Seq<u8>, len: nat) -> bool {
    &&& entry.len() == len + 2
    &&& printable(entry.subrange(1, len as int + 1))
    &&& entry == save_text_bytes(entry.subrange(1, len as int + 1))
}

/// Draws one byte with `rand`'s `Uniform::new_inclusive(low, high)` and its
/// `sample`, which advances `rng`. The constructor panics where `low` is
/// greater than `high`; otherwise the sampler returns `low` plus a number
/// below the width of the range, so the byte lies between `low` and `high`,
/// both included. Which byte comes is not stated.
#[verifier::external_body]
fn sample_byte(rng: &mut Xoshiro256PlusPlus, low: u8, high: u8) -> (byte: u8)
    requires
        low <= high,
    ensures
        low <= byte <= high,
{
    Uniform::new_inclusive(low, high).sample(rng)
}

/// Generates the record of one saved text of `len` bytes, each drawn from
/// `rng` among the printable ASCII characters other than the space.
pub fn gen_entry(rng: &mut Xoshiro256PlusPlus, len: usize) -> (entry: Vec<u8>)
    ensures
        is_synthetic_entry(entry@, len as nat),
{
    let mut entry: Vec<u8> = Vec::new();
    entry.push(OP_SAVE_TEXT);
    let mut drawn: usize = 0;
    while drawn < len
        invariant
            drawn <= len,
            entry@.len() == drawn + 1,
            entry@[0] == OP_SAVE_TEXT,
            forall|i: int| 1 <= i <= drawn ==> PRINTABLE_MIN <= #[trigger] entry@[i] <= PRINTABLE_MAX,
        decreases len - drawn,
    {
        let byte = sample_byte(rng, PRINTABLE_MIN, PRINTABLE_MAX);
        entry.push(byte);
        drawn = drawn + 1;
    }
    entry.push(0);
    assert(entry@ =~= save_text_bytes(entry@.subrange(1, len + 1)));
    entry
}

} // verus!
