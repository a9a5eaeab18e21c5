//! Records, and the rows in which the storage layer hands them over.

use crate::error::{get_none_error, Error, ErrorView};
use vstd::prelude::*;

verus! {

/// One value of a row, as the storage layer types it.
#[derive(Debug)]
pub enum Cell {
    /// Binary data.
    Binary(Vec<u8>),
    /// A floating-point number, held as the bits of its IEEE 754 double.
    Float(u64),
    /// An integer number.
    Integer(i64),
    /// A string.
    Text(String),
    /// A null value.
    Null,
}

/// The mathematical value of a [`Cell`].
pub enum CellView {
    Binary(Seq<u8>),
    Float(u64),
    Integer(i64),
    Text(Seq<char>),
    Null,
}

impl View for Cell {
    type V = CellView;

    open spec fn view(&self) -> CellView {
        match self {
            Cell::Binary(b) => CellView::Binary(b@),
            Cell::Float(f) => CellView::Float(*f),
            Cell::Integer(i) => CellView::Integer(*i),
            Cell::Text(s) => CellView::Text(s@),
            Cell::Null => CellView::Null,
        }
    }
}

impl DeepView for Cell {
    type V = CellView;

    open spec fn deep_view(&self) -> CellView {
        self@
    }
}

/// A stored record: under `key`, the identity `public_key` publishes `cid`.
#[derive(Debug)]
pub struct Record {
    /// The identifier that storage assigned when the record was created.
    pub uuid: i64,
    /// The lookup key, shared by all owners that publish under it.
    pub key: String,
    /// The content identifier, the only part that a later write replaces.
    pub cid: String,
    /// The identity that authorized the record.
    pub public_key: String,
}

/// The mathematical value of a [`Record`].
pub struct RecordView {
    pub uuid: i64,
    pub key: Seq<char>,
    pub cid: Seq<char>,
    pub public_key: Seq<char>,
}

impl View for Record {
    type V = RecordView;

    open spec fn view(&self) -> RecordView {
        RecordView { uuid: self.uuid, key: self.key@, cid: self.cid@, public_key: self.public_key@ }
    }
}

impl DeepView for Record {
    type V = RecordView;

    open spec fn deep_view(&self) -> RecordView {
        self@
    }
}

impl Clone for Record {
    fn clone(&self) -> (r: Record)
        ensures
            r@ == self@,
    {
        Record {
            uuid: self.uuid,
            key: self.key.clone(),
            cid: self.cid.clone(),
            public_key: self.public_key.clone(),
        }
    }
}

impl RecordView {
    /// Whether this record is the one that `public_key` holds under `key`.
    pub open spec fn is_for(self, key: Seq<char>, public_key: Seq<char>) -> bool {
        self.key == key && self.public_key == public_key
    }

    /// The row in which storage hands this record over: its identifier, key,
    /// content identifier and owner, in that order.
    pub open spec fn row(self) -> Seq<CellView> {
        seq![
            CellView::Integer(self.uuid),
            CellView::Text(self.key),
            CellView::Text(self.cid),
            CellView::Text(self.public_key),
        ]
    }

    /// The record that a row holds. A row holds one when it has at least four
    /// columns, of which the first is an integer and the next three are
    /// strings; any other row gives the error of a value that is not there.
    pub open spec fn from_row(row: Seq<CellView>) -> Result<RecordView, ErrorView> {
        if row.len() >= 4 && row[0] is Integer && row[1] is Text && row[2] is Text
            && row[3] is Text {
            Ok(
                RecordView {
                    uuid: row[0]->Integer_0,
                    key: row[1]->Text_0,
                    cid: row[2]->Text_0,
                    public_key: row[3]->Text_0,
                },
            )
        } else {
            Err(ErrorView::none())
        }
    }
}

/// The mathematical value of the outcome of reading one record.
pub open spec fn record_result_view(r: Result<Record, Error>) -> Result<RecordView, ErrorView> {
    match r {
        Ok(record) => Ok(record@),
        Err(e) => Err(e@),
    }
}

impl Record {
    /// Reads a record from a row of the record table.
    pub fn from_row(row: &[Cell]) -> (r: Result<Record, Error>)
        ensures
            record_result_view(r) == RecordView::from_row(row.deep_view()),
    {
        if row.len() < 4 {
            return Err(get_none_error());
        }
        match (&row[0], &row[1], &row[2], &row[3]) {
            (Cell::Integer(uuid), Cell::Text(key), Cell::Text(cid), Cell::Text(public_key)) => Ok(
                Record {
                    uuid: *uuid,
                    key: key.clone(),
                    cid: cid.clone(),
                    public_key: public_key.clone(),
                },
            ),
            _ => Err(get_none_error()),
        }
    }

    /// Writes this record as a row of the record table.
    pub fn to_row(&self) -> (row: Vec<Cell>)
        ensures
            row.deep_view() == self@.row(),
    {
        let mut row: Vec<Cell> = Vec::new();
        row.push(Cell::Integer(self.uuid));
        row.push(Cell::Text(self.key.clone()));
        row.push(Cell::Text(self.cid.clone()));
        row.push(Cell::Text(self.public_key.clone()));
        assert(row.deep_view() =~= self@.row());
        row
    }
}

/// Every record is read back from the row that it was written as.
pub proof fn lemma_row_round_trip(record: RecordView)
    ensures
        RecordView::from_row(record.row()) == Ok::<RecordView, ErrorView>(record),
{
}

} // verus!
