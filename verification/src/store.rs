//! The storage primitives of the record store: one command or query each,
//! and the reading of the rows that come back.

use crate::dht::record_option_view;
use crate::error::{get_none_error, Error, ErrorView};
use crate::query::{Command, CommandView, Query, QueryView};
use crate::record::{record_result_view, Cell, CellView, Record, RecordView};
use crate::result::unit_result_view;
use crate::table::{rows_of, Table, TableView};
use vstd::prelude::*;
use vstd::string::StringExecFns;

verus! {

/// The path of the file that holds the database `db_name`.
pub open spec fn path_of(db_name: Seq<char>) -> Seq<char> {
    "tmp/'"@ + db_name + "'_db.sqlite"@
}

/// The path of the file that holds the database `db_name`.
pub fn database_path(db_name: &str) -> (path: String)
    ensures
        path@ == path_of(db_name@),
{
    let mut path = "tmp/'".to_owned();
    path.append(db_name);
    path.append("'_db.sqlite");
    path
}

/// The records that rows hold, where every row holds one; the error of a
/// value that is not there where some row does not.
pub open spec fn records_in(rows: Seq<Seq<CellView>>) -> Result<Seq<RecordView>, ErrorView> {
    if forall|i: int| 0 <= i < rows.len() ==> RecordView::from_row(#[trigger] rows[i]) is Ok {
        Ok(rows.map_values(|row: Seq<CellView>| RecordView::from_row(row)->Ok_0))
    } else {
        Err(ErrorView::none())
    }
}

/// The record that the first row holds; no record where there is no row.
pub open spec fn first_in(rows: Seq<Seq<CellView>>) -> Result<Option<RecordView>, ErrorView> {
    if rows.len() == 0 {
        Ok(None)
    } else {
        match RecordView::from_row(rows[0]) {
            Ok(r) => Ok(Some(r)),
            Err(e) => Err(e),
        }
    }
}

/// The record that the first row holds; the error of a value that is not
/// there where there is no row.
pub open spec fn exact_in(rows: Seq<Seq<CellView>>) -> Result<RecordView, ErrorView> {
    if rows.len() == 0 {
        Err(ErrorView::none())
    } else {
        RecordView::from_row(rows[0])
    }
}

/// The first of `records`, if there is one.
pub open spec fn first_of(records: Seq<RecordView>) -> Option<RecordView> {
    if records.len() == 0 {
        None
    } else {
        Some(records[0])
    }
}

/// The mathematical value of the outcome of reading records.
pub open spec fn records_result_view(out: Result<Vec<Record>, Error>) -> Result<
    Seq<RecordView>,
    ErrorView,
> {
    match out {
        Ok(records) => Ok(records.deep_view()),
        Err(e) => Err(e@),
    }
}

/// The mathematical value of the outcome of looking for one record.
pub open spec fn found_result_view(out: Result<Option<Record>, Error>) -> Result<
    Option<RecordView>,
    ErrorView,
> {
    match out {
        Ok(found) => Ok(record_option_view(found)),
        Err(e) => Err(e@),
    }
}

/// Rows that storage made of records are read back as those records.
pub proof fn lemma_rows_round_trip(records: Seq<RecordView>)
    ensures
        records_in(rows_of(records)) == Ok::<Seq<RecordView>, ErrorView>(records),
        first_in(rows_of(records)) == Ok::<Option<RecordView>, ErrorView>(first_of(records)),
        exact_in(rows_of(records)) == match first_of(records) {
            Some(r) => Ok::<RecordView, ErrorView>(r),
            None => Err::<RecordView, ErrorView>(ErrorView::none()),
        },
{
    let rows = rows_of(records);
    assert forall|i: int| 0 <= i < rows.len() implies RecordView::from_row(#[trigger] rows[i])
        == Ok::<RecordView, ErrorView>(records[i]) by {
        crate::record::lemma_row_round_trip(records[i]);
    }
    assert(records_in(rows)->Ok_0 =~= records);
}

/// Reads the record of every row.
pub fn read_records(rows: &Vec<Vec<Cell>>) -> (out: Result<Vec<Record>, Error>)
    ensures
        records_result_view(out) == records_in(rows.deep_view()),
{
    let mut records: Vec<Record> = Vec::new();
    let mut i: usize = 0;
    while i < rows.len()
        invariant
            i <= rows.len(),
            records.len() == i,
            forall|j: int|
                0 <= j < i ==> RecordView::from_row(#[trigger] rows.deep_view()[j]) == Ok::<
                    RecordView,
                    ErrorView,
                >((records@[j])@),
        decreases rows.len() - i,
    {
        assert(rows.deep_view()[i as int] == rows@[i as int].deep_view());
        match Record::from_row(rows[i].as_slice()) {
            Ok(record) => {
                records.push(record);
            },
            Err(e) => {
                return Err(e);
            },
        }
        i += 1;
    }
    assert(records.deep_view() =~= records_in(rows.deep_view())->Ok_0);
    Ok(records)
}

/// Reads the record of the first row, if there is a row.
pub fn read_first(rows: &Vec<Vec<Cell>>) -> (out: Result<Option<Record>, Error>)
    ensures
        found_result_view(out) == first_in(rows.deep_view()),
{
    if rows.len() == 0 {
        return Ok(None);
    }
    assert(rows.deep_view()[0] == rows@[0].deep_view());
    match Record::from_row(rows[0].as_slice()) {
        Ok(record) => Ok(Some(record)),
        Err(e) => Err(e),
    }
}

/// Reads the record of the first row, which has to be there.
pub fn read_execute(rows: &Vec<Vec<Cell>>) -> (out: Result<Record, Error>)
    ensures
        record_result_view(out) == exact_in(rows.deep_view()),
{
    if rows.len() == 0 {
        return Err(get_none_error());
    }
    assert(rows.deep_view()[0] == rows@[0].deep_view());
    Record::from_row(rows[0].as_slice())
}

impl TableView {
    /// The records that a query finds, or the failure of a table that does
    /// not exist.
    pub open spec fn records(self, query: QueryView) -> Result<Seq<RecordView>, ErrorView> {
        if self.created {
            Ok(self.selected(query))
        } else {
            Err(ErrorView::StoreUninitialized)
        }
    }

    /// The one record that a query finds, if it finds any.
    pub open spec fn found(self, query: QueryView) -> Result<Option<RecordView>, ErrorView> {
        if self.created {
            Ok(first_of(self.selected(query)))
        } else {
            Err(ErrorView::StoreUninitialized)
        }
    }

    /// The one record that a query finds, which has to be there.
    pub open spec fn exact(self, query: QueryView) -> Result<RecordView, ErrorView> {
        if !self.created {
            Err(ErrorView::StoreUninitialized)
        } else if self.selected(query).len() == 0 {
            Err(ErrorView::none())
        } else {
            Ok(self.selected(query)[0])
        }
    }
}

/// Creates the record table unless it exists. Records that are there stay.
pub fn create_dht_table(table: &mut Table) -> (res: Result<(), Error>)
    requires
        old(table).wf(),
    ensures
        final(table).wf(),
        res is Ok,
        final(table)@ == if old(table)@.created {
            old(table)@
        } else {
            TableView::fresh()
        },
{
    table.execute(&Command::CreateTable)
}

/// Drops the record table, and every record with it, if it exists.
pub fn delete_dht_table(table: &mut Table) -> (res: Result<(), Error>)
    requires
        old(table).wf(),
    ensures
        final(table).wf(),
        res is Ok,
        final(table)@ == TableView::absent(),
{
    table.execute(&Command::DropTable)
}

/// Stores a new record under the next identifier. Storage refuses it where
/// the table does not exist, where the owner holds a record under the key
/// already, and where no identifier is left; the table then stays as it is.
pub fn add_record(table: &mut Table, key: String, owner_pk: String, cid: String) -> (res: Result<
    (),
    Error,
>)
    requires
        old(table).wf(),
    ensures
        final(table).wf(),
        (final(table)@, unit_result_view(res)) == old(table)@.execute(
            CommandView::AddRecord { key: key@, owner_pk: owner_pk@, cid: cid@ },
        ),
{
    table.execute(&Command::AddRecord { key, owner_pk, cid })
}

/// Replaces the content identifier of the record that `owner_pk` holds under
/// `key`. No other record changes, and none where the owner holds no record
/// there.
pub fn update_record(table: &mut Table, key: String, owner_pk: String, cid: String) -> (res:
    Result<(), Error>)
    requires
        old(table).wf(),
    ensures
        final(table).wf(),
        (final(table)@, unit_result_view(res)) == old(table)@.execute(
            CommandView::UpdateRecord { key: key@, owner_pk: owner_pk@, cid: cid@ },
        ),
{
    table.execute(&Command::UpdateRecord { key, owner_pk, cid })
}

/// The record that `pk` holds under `key`, which has to be there.
pub fn get_exact_record(table: &Table, key: String, pk: String) -> (res: Result<Record, Error>)
    ensures
        record_result_view(res) == table@.exact(QueryView::RecordsByPkAndKey { key: key@, pk: pk@ }),
{
    let query = Query::RecordsByPkAndKey { key, pk };
    proof {
        lemma_rows_round_trip(table@.selected(query@));
    }
    match table.fetch(&query) {
        Ok(rows) => read_execute(&rows),
        Err(e) => Err(e),
    }
}

/// The records under `key`, of all owners, oldest first.
pub fn get_records(table: &Table, key: String) -> (res: Result<Vec<Record>, Error>)
    ensures
        records_result_view(res) == table@.records(QueryView::RecordsByKey { key: key@ }),
{
    let query = Query::RecordsByKey { key };
    proof {
        lemma_rows_round_trip(table@.selected(query@));
    }
    match table.fetch(&query) {
        Ok(rows) => read_records(&rows),
        Err(e) => Err(e),
    }
}

/// The oldest record of the owner `pk`, if there is one.
pub fn get_record_by_pk(table: &Table, pk: String) -> (res: Result<Option<Record>, Error>)
    ensures
        found_result_view(res) == table@.found(QueryView::RecordsByPk { pk: pk@ }),
{
    let query = Query::RecordsByPk { pk };
    proof {
        lemma_rows_round_trip(table@.selected(query@));
    }
    match table.fetch(&query) {
        Ok(rows) => read_first(&rows),
        Err(e) => Err(e),
    }
}

/// The record that `pk` holds under `key`, if there is one.
pub fn get_record_by_pk_and_key(table: &Table, key: String, pk: String) -> (res: Result<
    Option<Record>,
    Error,
>)
    ensures
        found_result_view(res) == table@.found(QueryView::RecordsByPkAndKey { key: key@, pk: pk@ }),
{
    let query = Query::RecordsByPkAndKey { key, pk };
    proof {
        lemma_rows_round_trip(table@.selected(query@));
    }
    match table.fetch(&query) {
        Ok(rows) => read_first(&rows),
        Err(e) => Err(e),
    }
}

} // verus!
