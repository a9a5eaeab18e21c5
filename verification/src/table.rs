//! The record table: what it holds, and what each query does to it.
//!
//! [`TableView`] is the mathematical table; [`TableView::execute`] and
//! [`TableView::fetch`] are the meaning of every [`Command`] and [`Query`] on
//! it. [`Table`] is a table in memory that answers exactly so.

use crate::error::{Error, ErrorView};
use crate::query::{Command, CommandView, Query, QueryView};
use crate::record::{Cell, CellView, Record, RecordView};
use crate::result::unit_result_view;
use vstd::prelude::*;

verus! {

/// The records that a selection keeps: those under `key`, where one is given,
/// that belong to `pk`, where one is given.
pub open spec fn selects(key: Option<Seq<char>>, pk: Option<Seq<char>>) -> spec_fn(
    RecordView,
) -> bool {
    |r: RecordView|
        (key is Some ==> r.key == key->Some_0) && (pk is Some ==> r.public_key == pk->Some_0)
}

/// The change that an update makes to each record: the one that `pk` holds
/// under `key` gets the content identifier `cid`, every other stays as it is.
pub open spec fn with_cid(key: Seq<char>, pk: Seq<char>, cid: Seq<char>) -> spec_fn(
    RecordView,
) -> RecordView {
    |r: RecordView|
        if r.is_for(key, pk) {
            RecordView { cid, ..r }
        } else {
            r
        }
}

/// The rows in which storage hands over `records`.
pub open spec fn rows_of(records: Seq<RecordView>) -> Seq<Seq<CellView>> {
    records.map_values(|r: RecordView| r.row())
}

/// The failure with which storage refuses a second record for one key and
/// owner.
pub open spec fn unique_violation() -> ErrorView {
    ErrorView::Storage {
        code: Some(19isize),
        message: Some("UNIQUE constraint failed: dht.key, dht.owner_pk"@),
    }
}

/// The failure with which storage refuses a record when it has no identifier
/// left to give.
pub open spec fn identifiers_exhausted() -> ErrorView {
    ErrorView::Storage { code: Some(13isize), message: Some("database or disk is full"@) }
}

/// The mathematical record table.
pub struct TableView {
    /// Whether the table exists.
    pub created: bool,
    /// The records, in the order of their creation.
    pub rows: Seq<RecordView>,
    /// The highest identifier handed out since the table was created.
    pub last_id: i64,
}

impl TableView {
    /// The table before it is created and after it is dropped.
    pub open spec fn absent() -> TableView {
        TableView { created: false, rows: Seq::empty(), last_id: 0 }
    }

    /// The table as it is created: without records.
    pub open spec fn fresh() -> TableView {
        TableView { created: true, rows: Seq::empty(), last_id: 0 }
    }

    /// What holds of every table: a table that does not exist holds nothing,
    /// identifiers are positive, were handed out, and grow in the order of
    /// creation, and no owner holds two records under one key.
    pub open spec fn wf(self) -> bool {
        &&& self.created || self == TableView::absent()
        &&& 0 <= self.last_id
        &&& forall|i: int|
            0 <= i < self.rows.len() ==> 1 <= (#[trigger] self.rows[i]).uuid <= self.last_id
        &&& forall|i: int, j: int|
            #![trigger self.rows[i], self.rows[j]]
            0 <= i < j < self.rows.len() ==> self.rows[i].uuid < self.rows[j].uuid
        &&& forall|i: int, j: int|
            #![trigger self.rows[i], self.rows[j]]
            0 <= i < j < self.rows.len() ==> !self.rows[i].is_for(
                self.rows[j].key,
                self.rows[j].public_key,
            )
    }

    /// Whether `pk` holds a record under `key`.
    pub open spec fn holds(self, key: Seq<char>, pk: Seq<char>) -> bool {
        exists|i: int| 0 <= i < self.rows.len() && (#[trigger] self.rows[i]).is_for(key, pk)
    }

    /// The records under `key`, of all owners, oldest first.
    pub open spec fn by_key(self, key: Seq<char>) -> Seq<RecordView> {
        self.rows.filter(selects(Some(key), None))
    }

    /// The records of the owner `pk`, oldest first.
    pub open spec fn by_pk(self, pk: Seq<char>) -> Seq<RecordView> {
        self.rows.filter(selects(None, Some(pk)))
    }

    /// The records that `pk` holds under `key`.
    pub open spec fn by_pk_and_key(self, key: Seq<char>, pk: Seq<char>) -> Seq<RecordView> {
        self.rows.filter(selects(Some(key), Some(pk)))
    }

    /// The table with a new record at its end, under the next identifier.
    pub open spec fn added(self, key: Seq<char>, pk: Seq<char>, cid: Seq<char>) -> TableView {
        let uuid = (self.last_id + 1) as i64;
        TableView {
            created: self.created,
            rows: self.rows.push(RecordView { uuid, key, cid, public_key: pk }),
            last_id: uuid,
        }
    }

    /// The table in which the record that `pk` holds under `key` has the
    /// content identifier `cid`.
    pub open spec fn updated(self, key: Seq<char>, pk: Seq<char>, cid: Seq<char>) -> TableView {
        TableView { rows: self.rows.map_values(with_cid(key, pk, cid)), ..self }
    }

    /// What a command does: the table after it, and whether storage
    /// accepted it.
    pub open spec fn execute(self, command: CommandView) -> (TableView, Result<(), ErrorView>) {
        match command {
            CommandView::CreateTable => (
                if self.created {
                    self
                } else {
                    TableView::fresh()
                },
                Ok(()),
            ),
            CommandView::DropTable => (TableView::absent(), Ok(())),
            CommandView::AddRecord { key, owner_pk, cid } => if !self.created {
                (self, Err(ErrorView::StoreUninitialized))
            } else if self.holds(key, owner_pk) {
                (self, Err(unique_violation()))
            } else if self.last_id == i64::MAX {
                (self, Err(identifiers_exhausted()))
            } else {
                (self.added(key, owner_pk, cid), Ok(()))
            },
            CommandView::UpdateRecord { key, owner_pk, cid } => if !self.created {
                (self, Err(ErrorView::StoreUninitialized))
            } else {
                (self.updated(key, owner_pk, cid), Ok(()))
            },
        }
    }

    /// The records that a query selects, oldest first.
    pub open spec fn selected(self, query: QueryView) -> Seq<RecordView> {
        match query {
            QueryView::RecordsByKey { key } => self.by_key(key),
            QueryView::RecordsByPk { pk } => self.by_pk(pk),
            QueryView::RecordsByPkAndKey { key, pk } => self.by_pk_and_key(key, pk),
        }
    }

    /// What a query gives: the rows of the records that it selects, or the
    /// failure of a table that does not exist.
    pub open spec fn fetch(self, query: QueryView) -> Result<Seq<Seq<CellView>>, ErrorView> {
        if !self.created {
            Err(ErrorView::StoreUninitialized)
        } else {
            Ok(rows_of(self.selected(query)))
        }
    }
}

/// Filtering a sequence with one more element at its end keeps that element
/// where it passes, and what came before it either way.
pub proof fn lemma_filter_push<A>(s: Seq<A>, x: A, pred: spec_fn(A) -> bool)
    ensures
        s.push(x).filter(pred) == if pred(x) {
            s.filter(pred).push(x)
        } else {
            s.filter(pred)
        },
{
    reveal(Seq::filter);
    assert(s.push(x).drop_last() =~= s);
}

/// No command leaves the table ill-formed.
pub proof fn lemma_execute_wf(table: TableView, command: CommandView)
    requires
        table.wf(),
    ensures
        table.execute(command).0.wf(),
{
    let after = table.execute(command).0;
    match command {
        CommandView::AddRecord { key, owner_pk, cid } => {
            if table.created && !table.holds(key, owner_pk) && table.last_id != i64::MAX {
                assert forall|i: int, j: int|
                    #![trigger after.rows[i], after.rows[j]]
                    0 <= i < j < after.rows.len() implies !after.rows[i].is_for(
                    after.rows[j].key,
                    after.rows[j].public_key,
                ) by {
                    if j == table.rows.len() {
                        assert(after.rows[i] == table.rows[i]);
                    } else {
                        assert(after.rows[i] == table.rows[i]);
                        assert(after.rows[j] == table.rows[j]);
                    }
                }
                assert(after.wf());
            }
        },
        _ => {},
    }
}

/// The mathematical value of what a query gives.
pub open spec fn rows_result_view(out: Result<Vec<Vec<Cell>>, Error>) -> Result<
    Seq<Seq<CellView>>,
    ErrorView,
> {
    match out {
        Ok(rows) => Ok(rows.deep_view()),
        Err(e) => Err(e@),
    }
}

/// The mathematical value of a string that may be missing.
pub open spec fn text_view(text: Option<&String>) -> Option<Seq<char>> {
    match text {
        Some(t) => Some(t@),
        None => None,
    }
}

/// A record table in memory.
#[derive(Debug)]
pub struct Table {
    created: bool,
    rows: Vec<Record>,
    last_id: i64,
}

impl View for Table {
    type V = TableView;

    closed spec fn view(&self) -> TableView {
        TableView { created: self.created, rows: self.rows.deep_view(), last_id: self.last_id }
    }
}

impl Table {
    /// Whether the table is well formed; every table that this module hands
    /// out is.
    pub open spec fn wf(&self) -> bool {
        self@.wf()
    }

    /// A table that has not been created yet.
    pub fn new() -> (table: Table)
        ensures
            table@ == TableView::absent(),
            table.wf(),
    {
        let table = Table { created: false, rows: Vec::new(), last_id: 0 };
        assert(table.rows.deep_view() =~= Seq::<RecordView>::empty());
        table
    }

    /// Whether `pk` holds a record under `key`.
    fn holds(&self, key: &String, pk: &String) -> (found: bool)
        ensures
            found == self@.holds(key@, pk@),
    {
        let mut i: usize = 0;
        while i < self.rows.len()
            invariant
                i <= self.rows.len(),
                forall|j: int| 0 <= j < i ==> !(#[trigger] self@.rows[j]).is_for(key@, pk@),
            decreases self.rows.len() - i,
        {
            if self.rows[i].key == *key && self.rows[i].public_key == *pk {
                assert(self@.rows[i as int].is_for(key@, pk@));
                return true;
            }
            i += 1;
        }
        false
    }

    /// The rows of the records that a selection keeps, oldest first.
    fn select(&self, key: Option<&String>, pk: Option<&String>) -> (out: Vec<Vec<Cell>>)
        ensures
            out.deep_view() == rows_of(self@.rows.filter(selects(text_view(key), text_view(pk)))),
    {
        let ghost pred = selects(text_view(key), text_view(pk));
        let mut out: Vec<Vec<Cell>> = Vec::new();
        let mut i: usize = 0;
        proof {
            reveal(Seq::filter);
            assert(self@.rows.take(0) =~= Seq::<RecordView>::empty());
            assert(out.deep_view() =~= rows_of(self@.rows.take(0).filter(pred)));
        }
        while i < self.rows.len()
            invariant
                i <= self.rows.len(),
                pred == selects(text_view(key), text_view(pk)),
                out.deep_view() == rows_of(self@.rows.take(i as int).filter(pred)),
            decreases self.rows.len() - i,
        {
            let record = &self.rows[i];
            let key_fits = match key {
                Some(k) => record.key == *k,
                None => true,
            };
            let pk_fits = match pk {
                Some(p) => record.public_key == *p,
                None => true,
            };
            proof {
                lemma_filter_push(self@.rows.take(i as int), self@.rows[i as int], pred);
                assert(self@.rows.take(i as int).push(self@.rows[i as int]) =~= self@.rows.take(
                    i + 1,
                ));
                assert(pred(self@.rows[i as int]) == (key_fits && pk_fits));
            }
            if key_fits && pk_fits {
                let ghost before = out.deep_view();
                let row = record.to_row();
                out.push(row);
                assert(out.deep_view() =~= before.push(record@.row()));
                assert(out.deep_view() =~= rows_of(self@.rows.take(i + 1).filter(pred)));
            }
            i += 1;
        }
        assert(self@.rows.take(self.rows.len() as int) =~= self@.rows);
        out
    }

    /// Gives the record that `pk` holds under `key` the content identifier
    /// `cid`.
    fn update(&mut self, key: &String, pk: &String, cid: &String)
        ensures
            final(self)@ == old(self)@.updated(key@, pk@, cid@),
    {
        let ghost change = with_cid(key@, pk@, cid@);
        let mut rows: Vec<Record> = Vec::new();
        let mut i: usize = 0;
        assert(rows.deep_view() =~= self@.rows.take(0).map_values(change));
        while i < self.rows.len()
            invariant
                i <= self.rows.len(),
                change == with_cid(key@, pk@, cid@),
                rows.deep_view() == self@.rows.take(i as int).map_values(change),
            decreases self.rows.len() - i,
        {
            let record = &self.rows[i];
            let hit = record.key == *key && record.public_key == *pk;
            let changed = Record {
                uuid: record.uuid,
                key: record.key.clone(),
                cid: if hit {
                    cid.clone()
                } else {
                    record.cid.clone()
                },
                public_key: record.public_key.clone(),
            };
            assert(changed@ == change(self@.rows[i as int]));
            let ghost before = rows.deep_view();
            rows.push(changed);
            assert(rows.deep_view() =~= before.push(changed@));
            assert(rows.deep_view() =~= self@.rows.take(i + 1).map_values(change));
            i += 1;
        }
        assert(self@.rows.take(self.rows.len() as int) =~= self@.rows);
        self.rows = rows;
    }

    /// Carries out a command as storage would.
    pub fn execute(&mut self, command: &Command) -> (out: Result<(), Error>)
        requires
            old(self).wf(),
        ensures
            final(self).wf(),
            final(self)@ == old(self)@.execute(command@).0,
            unit_result_view(out) == old(self)@.execute(command@).1,
    {
        proof {
            lemma_execute_wf(self@, command@);
        }
        match command {
            Command::CreateTable => {
                self.created = true;
                Ok(())
            },
            Command::DropTable => {
                self.created = false;
                self.rows = Vec::new();
                self.last_id = 0;
                assert(self.rows.deep_view() =~= Seq::<RecordView>::empty());
                Ok(())
            },
            Command::AddRecord { key, owner_pk, cid } => {
                if !self.created {
                    return Err(Error::StoreUninitialized);
                }
                if self.holds(key, owner_pk) {
                    return Err(
                        Error::Storage {
                            code: Some(19),
                            message: Some(
                                "UNIQUE constraint failed: dht.key, dht.owner_pk".to_owned(),
                            ),
                        },
                    );
                }
                if self.last_id == i64::MAX {
                    return Err(
                        Error::Storage {
                            code: Some(13),
                            message: Some("database or disk is full".to_owned()),
                        },
                    );
                }
                let ghost before = self@;
                let uuid: i64 = self.last_id + 1;
                let record = Record {
                    uuid,
                    key: key.clone(),
                    cid: cid.clone(),
                    public_key: owner_pk.clone(),
                };
                self.rows.push(record);
                self.last_id = uuid;
                assert(self@.rows =~= before.added(key@, owner_pk@, cid@).rows);
                Ok(())
            },
            Command::UpdateRecord { key, owner_pk, cid } => {
                if !self.created {
                    return Err(Error::StoreUninitialized);
                }
                self.update(key, owner_pk, cid);
                Ok(())
            },
        }
    }

    /// Answers a query as storage would.
    pub fn fetch(&self, query: &Query) -> (out: Result<Vec<Vec<Cell>>, Error>)
        ensures
            rows_result_view(out) == self@.fetch(query@),
    {
        if !self.created {
            return Err(Error::StoreUninitialized);
        }
        match query {
            Query::RecordsByKey { key } => Ok(self.select(Some(key), None)),
            Query::RecordsByPk { pk } => Ok(self.select(None, Some(pk))),
            Query::RecordsByPkAndKey { key, pk } => Ok(self.select(Some(key), Some(pk))),
        }
    }
}

} // verus!
