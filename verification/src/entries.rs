//! The count of entries to generate, as a user writes it: a number with an
//! optional metric prefix, in which `K` stands for `k` and commas and
//! underscores may group the digits.

use vstd::prelude::*;

verus! {

/// What `clap_num::si_number::<usize>` returns for the text `s`: the number
/// that `s` denotes, or the message that says why it denotes none.
pub uninterp spec fn si_number_of(s: Seq<char>) -> Result<usize, Seq<char>>;

/// The outcome of parsing with the message, where it is one, as its
/// characters.
pub open spec fn outcome_of(parsed: Result<usize, String>) -> Result<usize, Seq<char>> {
    match parsed {
        Ok(number) => Ok(number),
        Err(message) => Err(message@),
    }
}

/// Calls `clap_num::si_number` for `usize`, which reads a decimal number with
/// an optional metric prefix (`k`, `M`, `G` and so on, also in the place of
/// the decimal point) and returns it, or a message where the text is no such
/// number or the number does not fit. The result depends on the text alone;
/// the contract names it and claims nothing else.
#[verifier::external_body]
fn si_number(s: &str) -> (parsed: Result<usize, String>)
    ensures
        outcome_of(parsed) == si_number_of(s@),
{
    clap_num::si_number::<usize>(s)
}

/// `String::push` appends the character to the end of the string.
pub assume_specification[ String::push ](s: &mut String, c: char)
    ensures
        final(s)@ == old(s)@.push(c),
;

/// Whether `c` only groups digits and is left out.
pub open spec fn is_separator(c: char) -> bool {
    c == ',' || c == '_'
}

/// The character that stands for `c`: `k` for `K`, and `c` itself otherwise.
pub open spec fn folded(c: char) -> char {
    if c == 'K' {
        'k'
    } else {
        c
    }
}

/// `s` without commas and underscores, and with `k` in place of each `K`.
pub open spec fn lenient(s: Seq<char>) -> Seq<char> {
    s.filter(|c: char| !is_separator(c)).map_values(|c: char| folded(c))
}

/// The message for a count of zero.
pub open spec fn no_entry_message() -> Seq<char> {
    "At least one entry must be generated."@
}

/// What becomes of a parsed count: a number above zero stays, zero is
/// refused with a message of its own, and a message stays.
pub open spec fn at_least_one_of(parsed: Result<usize, Seq<char>>) -> Result<usize, Seq<char>> {
    match parsed {
        Ok(number) => if number > 0 {
            Ok(number)
        } else {
            Err(no_entry_message())
        },
        Err(message) => Err(message),
    }
}

/// Takes the commas and underscores out of `s` and writes `k` for each `K`.
pub fn lenient_form(s: &str) -> (out: String)
    ensures
        out@ == lenient(s@),
{
    let mut out = String::new();
    proof {
        s@.take(0).lemma_filter_len(|c: char| !is_separator(c));
    }
    for c in chars: s.chars()
        invariant
            chars.seq() == s@,
            out@ == lenient(s@.take(chars.index() as int)),
    {
        let ghost i = chars.index() as int;
        proof {
            assert(s@.take(i + 1) =~= s@.take(i).push(c));
            s@.take(i).lemma_filter_push(c, |c: char| !is_separator(c));
        }
        if c == 'K' {
            out.push('k');
        } else if c != ',' && c != '_' {
            out.push(c);
        }
    }
    assert(s@.take(s@.len() as int) =~= s@);
    out
}

/// Reads a number with an optional metric prefix, after commas and
/// underscores are taken out and each `K` is read as `k`.
pub fn lenient_si_number(s: &str) -> (parsed: Result<usize, String>)
    ensures
        outcome_of(parsed) == si_number_of(lenient(s@)),
{
    let plain = lenient_form(s);
    si_number(plain.as_str())
}

/// Refuses a count of zero, and hands on any other outcome as it is.
pub fn at_least_one(parsed: Result<usize, String>) -> (checked: Result<usize, String>)
    ensures
        outcome_of(checked) == at_least_one_of(outcome_of(parsed)),
{
    match parsed {
        Ok(number) => if number > 0 {
            Ok(number)
        } else {
            Err("At least one entry must be generated.".to_owned())
        },
        Err(message) => Err(message),
    }
}

/// Reads the count of entries to generate: a number as `lenient_si_number`
/// reads it, which must be above zero.
pub fn num_entries_parser(s: &str) -> (parsed: Result<usize, String>)
    ensures
        outcome_of(parsed) == at_least_one_of(si_number_of(lenient(s@))),
{
    at_least_one(lenient_si_number(s))
}

} // verus!
