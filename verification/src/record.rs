//! The records of the operation log, the errors a corrupt log gives, and the
//! mathematical models that the contracts speak of.

use vstd::prelude::*;

verus! {

/// Opcode of a record that saves a text: the text's bytes follow, then one NUL.
pub const OP_SAVE_TEXT: u8 = 1;

/// Opcode of a record that deletes an item: four bytes of item id follow.
pub const OP_DELETE_TEXT: u8 = 2;

/// Opcode of a record that marks an item as favorite: four bytes of item id follow.
pub const OP_FAVORITE_ITEM: u8 = 3;

/// Opcode of a record that takes the favorite mark off an item: four bytes of item id follow.
pub const OP_UNFAVORITE_ITEM: u8 = 4;

/// Opcode of a record that moves an item to the end: four bytes of item id follow.
pub const OP_MOVE_ITEM_TO_END: u8 = 5;

/// Number of bytes of a stored item id.
pub const ID_LEN: usize = 4;

/// Model of a record: the same variants over unbounded numbers.
pub enum RecordView {
    SaveText { length: nat, sequence_id: nat },
    DeleteText { id: nat },
    FavoriteItem { id: nat },
    UnfavoriteItem { id: nat },
    MoveItemToEnd { id: nat },
}

impl RecordView {
    /// Bytes that the record takes in the log, opcode included.
    pub open spec fn encoded_len(self) -> nat {
        match self {
            RecordView::SaveText { length, .. } => 1 + length,
            _ => 1 + ID_LEN as nat,
        }
    }

    /// Bytes of saved text, without the terminator; zero for the other kinds.
    pub open spec fn text_len(self) -> nat {
        match self {
            RecordView::SaveText { length, .. } => if length >= 1 {
                (length - 1) as nat
            } else {
                0
            },
            _ => 0,
        }
    }

    /// The opcode that stands before the record in the log.
    pub open spec fn opcode(self) -> u8 {
        match self {
            RecordView::SaveText { .. } => OP_SAVE_TEXT,
            RecordView::DeleteText { .. } => OP_DELETE_TEXT,
            RecordView::FavoriteItem { .. } => OP_FAVORITE_ITEM,
            RecordView::UnfavoriteItem { .. } => OP_UNFAVORITE_ITEM,
            RecordView::MoveItemToEnd { .. } => OP_MOVE_ITEM_TO_END,
        }
    }
}

/// One operation of the log.
///
/// `length` of a saved text counts its bytes and the NUL that ends it.
/// `sequence_id` is not stored: the decoder numbers the saved texts from 1 in
/// the order in which they stand in the log. The `id` of the other kinds is
/// the stored number, which refers to such a sequence id.
#[derive(Clone, Copy, Debug, PartialEq, Eq, Structural)]
pub enum LogRecord {
    SaveText { length: usize, sequence_id: usize },
    DeleteText { id: u32 },
    FavoriteItem { id: u32 },
    UnfavoriteItem { id: u32 },
    MoveItemToEnd { id: u32 },
}

impl View for LogRecord {
    type V = RecordView;

    open spec fn view(&self) -> RecordView {
        match *self {
            LogRecord::SaveText { length, sequence_id } => RecordView::SaveText {
                length: length as nat,
                sequence_id: sequence_id as nat,
            },
            LogRecord::DeleteText { id } => RecordView::DeleteText { id: id as nat },
            LogRecord::FavoriteItem { id } => RecordView::FavoriteItem { id: id as nat },
            LogRecord::UnfavoriteItem { id } => RecordView::UnfavoriteItem { id: id as nat },
            LogRecord::MoveItemToEnd { id } => RecordView::MoveItemToEnd { id: id as nat },
        }
    }
}

impl LogRecord {
    /// The opcode that stands before the record in the log.
    pub fn opcode(&self) -> (op: u8)
        ensures
            op == self@.opcode(),
    {
        match self {
            LogRecord::SaveText { .. } => OP_SAVE_TEXT,
            LogRecord::DeleteText { .. } => OP_DELETE_TEXT,
            LogRecord::FavoriteItem { .. } => OP_FAVORITE_ITEM,
            LogRecord::UnfavoriteItem { .. } => OP_UNFAVORITE_ITEM,
            LogRecord::MoveItemToEnd { .. } => OP_MOVE_ITEM_TO_END,
        }
    }

    /// The name under which the kind of the record is reported.
    pub fn kind_name(&self) -> (name: &'static str)
        ensures
            name@ == kind_name_of(self@.opcode()),
    {
        match self {
            LogRecord::SaveText { .. } => "SAVE_TEXT",
            LogRecord::DeleteText { .. } => "DELETE_TEXT",
            LogRecord::FavoriteItem { .. } => "FAVORITE_ITEM",
            LogRecord::UnfavoriteItem { .. } => "UNFAVORITE_ITEM",
            LogRecord::MoveItemToEnd { .. } => "MOVE_ITEM_TO_END",
        }
    }
}

/// The reported name of the kind of record that `op` stands before.
pub open spec fn kind_name_of(op: u8) -> Seq<char> {
    if op == OP_SAVE_TEXT {
        "SAVE_TEXT"@
    } else if op == OP_DELETE_TEXT {
        "DELETE_TEXT"@
    } else if op == OP_FAVORITE_ITEM {
        "FAVORITE_ITEM"@
    } else if op == OP_UNFAVORITE_ITEM {
        "UNFAVORITE_ITEM"@
    } else {
        "MOVE_ITEM_TO_END"@
    }
}

/// What is wrong with a log that cannot be decoded.
#[derive(Clone, Copy, Debug, PartialEq, Eq, Structural)]
pub enum DecodeError {
    /// A saved text runs to the end of the log without a NUL.
    NotNulTerminated,
    /// A record begins with a byte that is no opcode.
    InvalidOpcode(u8),
    /// The log ends inside a stored item id.
    UnexpectedEof,
}

/// Model of a decoding failure: its kind and the offset over unbounded numbers.
pub struct Fault {
    pub kind: DecodeError,
    pub offset: nat,
}

/// A decoding failure and the byte offset at which it was found.
///
/// For an invalid opcode the offset is that of the offending byte. For a text
/// without terminator and for a cut-off item id it is the offset just behind
/// the opcode, where the missing data begins.
#[derive(Clone, Copy, Debug, PartialEq, Eq, Structural)]
pub struct DataError {
    pub kind: DecodeError,
    pub offset: usize,
}

impl View for DataError {
    type V = Fault;

    open spec fn view(&self) -> Fault {
        Fault { kind: self.kind, offset: self.offset as nat }
    }
}

/// A decoded record with the offsets between which it stands in the log.
#[derive(Clone, Copy, Debug, PartialEq, Eq, Structural)]
pub struct Decoded {
    pub record: LogRecord,
    /// Offset of the record's opcode.
    pub start: usize,
    /// Offset just behind the record's last byte.
    pub end: usize,
}

} // verus!
