//! Cell values and replies: the data that moves between the store, the
//! evaluator and the client.

use vstd::prelude::*;

verus! {

/// The value held by one cell: empty (never written, or written with an
/// empty result), an integer, a piece of text, or an error message that a
/// failed computation produced.
#[derive(Debug, PartialEq, Eq)]
pub enum CellValue {
    Empty,
    Int(i64),
    Text(String),
    Error(String),
}

/// Mathematical model of a [`CellValue`]: text is a sequence of characters.
pub enum CellValueV {
    Empty,
    Int(i64),
    Text(Seq<char>),
    Error(Seq<char>),
}

impl View for CellValue {
    type V = CellValueV;

    open spec fn view(&self) -> CellValueV {
        match self {
            CellValue::Empty => CellValueV::Empty,
            CellValue::Int(i) => CellValueV::Int(*i),
            CellValue::Text(s) => CellValueV::Text(s@),
            CellValue::Error(s) => CellValueV::Error(s@),
        }
    }
}

impl Clone for CellValue {
    fn clone(&self) -> (r: Self)
        ensures
            r@ == self@,
    {
        match self {
            CellValue::Empty => CellValue::Empty,
            CellValue::Int(i) => CellValue::Int(*i),
            CellValue::Text(s) => CellValue::Text(s.clone()),
            CellValue::Error(s) => CellValue::Error(s.clone()),
        }
    }
}

/// The single response sent back for one command: the (possibly empty)
/// value of a cell, or a diagnostic message.
#[derive(Debug, PartialEq, Eq)]
pub enum Reply {
    /// The named cell's value, as read or as just written.
    Value(String, CellValue),
    /// The command failed; the string says why.
    Error(String),
}

/// Mathematical model of a [`Reply`].
pub enum ReplyV {
    Value(Seq<char>, CellValueV),
    Error(Seq<char>),
}

impl View for Reply {
    type V = ReplyV;

    open spec fn view(&self) -> ReplyV {
        match self {
            Reply::Value(n, v) => ReplyV::Value(n@, v@),
            Reply::Error(e) => ReplyV::Error(e@),
        }
    }
}

} // verus!
