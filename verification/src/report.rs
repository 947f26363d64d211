//! The text in which a decoded record and a failure are reported.

use vstd::prelude::*;
use vstd::string::StringExecFns;
use crate::record::{
    kind_name_of, DataError, DecodeError, Decoded, Fault, LogRecord, RecordView,
};

verus! {

/// The character of the decimal digit `d`.
pub open spec fn digit(d: nat) -> char
    recommends
        d < 10,
{
    if d == 0 {
        '0'
    } else if d == 1 {
        '1'
    } else if d == 2 {
        '2'
    } else if d == 3 {
        '3'
    } else if d == 4 {
        '4'
    } else if d == 5 {
        '5'
    } else if d == 6 {
        '6'
    } else if d == 7 {
        '7'
    } else if d == 8 {
        '8'
    } else {
        '9'
    }
}

/// The number `n` in decimal digits, without leading zeros.
pub open spec fn decimal(n: nat) -> Seq<char>
    decreases n,
{
    if n < 10 {
        seq![digit(n)]
    } else {
        decimal(n / 10).push(digit(n % 10))
    }
}

/// The text that reports `record`, whose opcode stands at `start`: the name
/// of its kind and the offset `start` at which the record begins, then its
/// length and sequence id where it is a saved text, and its stored item id
/// otherwise, each on a line of its own.
pub open spec fn echo_of(record: RecordView, start: nat) -> Seq<char> {
    let head = kind_name_of(record.opcode()) + "@"@ + decimal(start);
    match record {
        RecordView::SaveText { length, sequence_id } => head + "\nLength: "@ + decimal(length)
            + "\nId: "@ + decimal(sequence_id) + "\n"@,
        RecordView::DeleteText { id } => head + "\nId: "@ + decimal(id) + "\n"@,
        RecordView::FavoriteItem { id } => head + "\nId: "@ + decimal(id) + "\n"@,
        RecordView::UnfavoriteItem { id } => head + "\nId: "@ + decimal(id) + "\n"@,
        RecordView::MoveItemToEnd { id } => head + "\nId: "@ + decimal(id) + "\n"@,
    }
}

/// The text that reports `fault`: what is wrong, and at which offset.
pub open spec fn message_of(fault: Fault) -> Seq<char> {
    let what = match fault.kind {
        DecodeError::NotNulTerminated => "Data was not NUL terminated"@,
        DecodeError::InvalidOpcode(op) => "Invalid op: "@ + decimal(op as nat),
        DecodeError::UnexpectedEof => "Data ended inside an item id"@,
    };
    what + " at offset "@ + decimal(fault.offset)
}

/// The character of the last decimal digit of `n`.
fn last_digit(n: u128) -> (c: char)
    ensures
        c == digit((n % 10) as nat),
{
    let d = n % 10;
    if d == 0 {
        '0'
    } else if d == 1 {
        '1'
    } else if d == 2 {
        '2'
    } else if d == 3 {
        '3'
    } else if d == 4 {
        '4'
    } else if d == 5 {
        '5'
    } else if d == 6 {
        '6'
    } else if d == 7 {
        '7'
    } else if d == 8 {
        '8'
    } else {
        '9'
    }
}

/// Appends `n` in decimal digits to `out`.
pub fn push_decimal(out: &mut String, n: u128)
    ensures
        final(out)@ == old(out)@ + decimal(n as nat),
    decreases n,
{
    if n >= 10 {
        push_decimal(out, n / 10);
    }
    out.push(last_digit(n));
}

/// The text that reports a decoded record.
pub fn echo(decoded: &Decoded) -> (text: String)
    ensures
        text@ == echo_of(decoded.record@, decoded.start as nat),
{
    let mut text = String::new();
    text.append(decoded.record.kind_name());
    text.append("@");
    push_decimal(&mut text, decoded.start as u128);
    match decoded.record {
        LogRecord::SaveText { length, sequence_id } => {
            text.append("\nLength: ");
            push_decimal(&mut text, length as u128);
            text.append("\nId: ");
            push_decimal(&mut text, sequence_id as u128);
        },
        LogRecord::DeleteText { id } => {
            text.append("\nId: ");
            push_decimal(&mut text, id as u128);
        },
        LogRecord::FavoriteItem { id } => {
            text.append("\nId: ");
            push_decimal(&mut text, id as u128);
        },
        LogRecord::UnfavoriteItem { id } => {
            text.append("\nId: ");
            push_decimal(&mut text, id as u128);
        },
        LogRecord::MoveItemToEnd { id } => {
            text.append("\nId: ");
            push_decimal(&mut text, id as u128);
        },
    }
    text.append("\n");
    text
}

/// The text that reports a failure.
pub fn message(error: &DataError) -> (text: String)
    ensures
        text@ == message_of(error@),
{
    let mut text = String::new();
    match error.kind {
        DecodeError::NotNulTerminated => {
            text.append("Data was not NUL terminated");
        },
        DecodeError::InvalidOpcode(op) => {
            text.append("Invalid op: ");
            push_decimal(&mut text, op as u128);
        },
        DecodeError::UnexpectedEof => {
            text.append("Data ended inside an item id");
        },
    }
    text.append(" at offset ");
    push_decimal(&mut text, error.offset as u128);
    text
}

} // verus!
