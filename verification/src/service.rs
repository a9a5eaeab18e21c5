//! The operations of the record store, and the authorization of writes.
//!
//! A write is *unverified* until its signature has been looked at. It then
//! becomes a rejection, which never reaches storage, or an authorized write,
//! which looks for the owner's record under the key and then stores a new
//! record or replaces the content identifier of the one that is there.

use crate::dht::{FdbDht, FdbDhtView};
use crate::ed25519::{signature_accepts, verify};
use crate::error::{not_owner_text, Error, ErrorView};
use crate::query::{Command, CommandView, Query, QueryView};
use crate::record::{Cell, CellView};
use crate::result::{FdbResult, FdbResultView};
use crate::store::{
    create_dht_table, delete_dht_table, first_in, first_of, lemma_rows_round_trip, read_first,
    read_records, records_in,
};
use crate::table::{identifiers_exhausted, rows_result_view, selects, Table, TableView};
use vstd::prelude::*;

verus! {

/// A write whose signature was accepted.
#[derive(Debug)]
pub struct AuthorizedWrite {
    key: String,
    cid: String,
    public_key: String,
}

/// The mathematical value of an [`AuthorizedWrite`].
pub struct WriteView {
    pub key: Seq<char>,
    pub cid: Seq<char>,
    pub public_key: Seq<char>,
}

impl View for AuthorizedWrite {
    type V = WriteView;

    closed spec fn view(&self) -> WriteView {
        WriteView { key: self.key@, cid: self.cid@, public_key: self.public_key@ }
    }
}

/// What becomes of an unverified write.
#[derive(Debug)]
pub enum Authorization {
    /// The signature was refused. The reply says so, and nothing goes to
    /// storage.
    Rejected(FdbResult),
    /// The signature was accepted.
    Authorized(AuthorizedWrite),
}

/// The mathematical value of a [`Authorization`].
pub enum AuthorizationView {
    Rejected(FdbResultView),
    Authorized(WriteView),
}

impl View for Authorization {
    type V = AuthorizationView;

    open spec fn view(&self) -> AuthorizationView {
        match self {
            Authorization::Rejected(reply) => AuthorizationView::Rejected(reply@),
            Authorization::Authorized(write) => AuthorizationView::Authorized(write@),
        }
    }
}

/// What an authorized write does once storage has answered its lookup.
#[derive(Debug)]
pub enum Decision {
    /// The lookup failed: the reply, and nothing is stored.
    Failed(FdbResult),
    /// The command to carry out.
    Store(Command),
}

/// The mathematical value of a [`Decision`].
pub enum DecisionView {
    Failed(FdbResultView),
    Store(CommandView),
}

impl View for Decision {
    type V = DecisionView;

    open spec fn view(&self) -> DecisionView {
        match self {
            Decision::Failed(reply) => DecisionView::Failed(reply@),
            Decision::Store(command) => DecisionView::Store(command@),
        }
    }
}

impl WriteView {
    /// What becomes of a write whose signature was accepted or not.
    pub open spec fn authorization(accepted: bool, key: Seq<char>, cid: Seq<char>, public_key: Seq<char>)
        -> AuthorizationView {
        if accepted {
            AuthorizationView::Authorized(WriteView { key, cid, public_key })
        } else {
            AuthorizationView::Rejected(FdbResultView::failed(not_owner_text()))
        }
    }

    /// The query that looks for the owner's record under the key.
    pub open spec fn lookup(self) -> QueryView {
        QueryView::RecordsByPkAndKey { key: self.key, pk: self.public_key }
    }

    /// What the write does after the lookup: a failure is reported; where the
    /// owner holds no record under the key, a new one is stored; where it
    /// holds one, that record's content identifier is replaced.
    pub open spec fn decision(self, found: Result<Seq<Seq<CellView>>, ErrorView>) -> DecisionView {
        match found {
            Err(e) => DecisionView::Failed(FdbResultView::failed(e.text())),
            Ok(rows) => match first_in(rows) {
                Err(e) => DecisionView::Failed(FdbResultView::failed(e.text())),
                Ok(None) => DecisionView::Store(
                    CommandView::AddRecord {
                        key: self.key,
                        owner_pk: self.public_key,
                        cid: self.cid,
                    },
                ),
                Ok(Some(_)) => DecisionView::Store(
                    CommandView::UpdateRecord {
                        key: self.key,
                        owner_pk: self.public_key,
                        cid: self.cid,
                    },
                ),
            },
        }
    }
}

/// Authorizes or rejects a write. `accepted` says whether its signature was
/// found valid for its owner.
pub fn authorize(accepted: bool, key: String, cid: String, public_key: String) -> (outcome: Authorization)
    ensures
        outcome@ == WriteView::authorization(accepted, key@, cid@, public_key@),
{
    if accepted {
        Authorization::Authorized(AuthorizedWrite { key, cid, public_key })
    } else {
        Authorization::Rejected(FdbResult::from_err_str("You are not the owner!"))
    }
}

impl AuthorizedWrite {
    /// The query that looks for the owner's record under the key.
    pub fn lookup(&self) -> (query: Query)
        ensures
            query@ == self@.lookup(),
    {
        Query::RecordsByPkAndKey { key: self.key.clone(), pk: self.public_key.clone() }
    }

    /// Decides what to store, from what storage answered to the lookup.
    pub fn decide(self, found: Result<Vec<Vec<Cell>>, Error>) -> (decision: Decision)
        ensures
            decision@ == self@.decision(rows_result_view(found)),
    {
        let rows = match found {
            Ok(rows) => rows,
            Err(e) => {
                return Decision::Failed(FdbResult::from_res(Err(e)));
            },
        };
        match read_first(&rows) {
            Err(e) => Decision::Failed(FdbResult::from_res(Err(e))),
            Ok(None) => Decision::Store(
                Command::AddRecord { key: self.key, owner_pk: self.public_key, cid: self.cid },
            ),
            Ok(Some(_)) => Decision::Store(
                Command::UpdateRecord { key: self.key, owner_pk: self.public_key, cid: self.cid },
            ),
        }
    }
}

impl TableView {
    /// What a write does to the table, and the reply to it. A write whose
    /// signature was refused changes nothing. An accepted one needs the table
    /// to exist; it replaces the content identifier of the record that the
    /// owner holds under the key, or stores a new record where the owner
    /// holds none there and an identifier is left.
    pub open spec fn written(
        self,
        accepted: bool,
        key: Seq<char>,
        cid: Seq<char>,
        pk: Seq<char>,
    ) -> (TableView, FdbResultView) {
        if !accepted {
            (self, FdbResultView::failed(not_owner_text()))
        } else if !self.created {
            (self, FdbResultView::failed(ErrorView::StoreUninitialized.text()))
        } else if self.holds(key, pk) {
            (self.updated(key, pk, cid), FdbResultView::ok())
        } else if self.last_id == i64::MAX {
            (self, FdbResultView::failed(identifiers_exhausted().text()))
        } else {
            (self.added(key, pk, cid), FdbResultView::ok())
        }
    }

    /// What a caller is shown of the records under `key`.
    pub open spec fn listed(self, key: Seq<char>) -> Result<Seq<FdbDhtView>, ErrorView> {
        if self.created {
            Ok(FdbDhtView::of_all(self.by_key(key)))
        } else {
            Err(ErrorView::StoreUninitialized)
        }
    }

    /// What a caller is shown of the record that `pk` holds under `key`.
    pub open spec fn latest(self, key: Seq<char>, pk: Seq<char>) -> Result<
        Option<FdbDhtView>,
        ErrorView,
    > {
        if self.created {
            Ok(FdbDhtView::of_found(first_of(self.by_pk_and_key(key, pk))))
        } else {
            Err(ErrorView::StoreUninitialized)
        }
    }
}

/// An owner holds a record under a key exactly when the lookup for it finds
/// one.
pub proof fn lemma_holds_iff_found(table: TableView, key: Seq<char>, pk: Seq<char>)
    ensures
        table.holds(key, pk) <==> table.by_pk_and_key(key, pk).len() > 0,
{
    let pred = selects(Some(key), Some(pk));
    let found = table.rows.filter(pred);
    if table.holds(key, pk) {
        let i = choose|i: int| 0 <= i < table.rows.len() && (#[trigger] table.rows[i]).is_for(key, pk);
        assert(pred(table.rows[i]));
        table.rows.lemma_filter_contains(pred, i);
    }
    if found.len() > 0 {
        table.rows.lemma_filter_pred(pred, 0);
        assert(found.contains(found[0]));
        table.rows.lemma_filter_contains_rev(pred, found[0]);
        let i = choose|i: int| 0 <= i < table.rows.len() && table.rows[i] == found[0];
        assert(table.rows[i].is_for(key, pk));
    }
}

/// The mathematical value of the outcome of listing records.
pub open spec fn dhts_result_view(out: Result<Vec<FdbDht>, Error>) -> Result<
    Seq<FdbDhtView>,
    ErrorView,
> {
    match out {
        Ok(dhts) => Ok(dhts.deep_view()),
        Err(e) => Err(e@),
    }
}

/// The mathematical value of the outcome of looking for the latest record.
pub open spec fn latest_result_view(out: Result<Option<FdbDht>, Error>) -> Result<
    Option<FdbDhtView>,
    ErrorView,
> {
    match out {
        Ok(found) => Ok(crate::dht::dht_option_view(found)),
        Err(e) => Err(e@),
    }
}

/// What a caller is shown of the rows that storage found: every record, in
/// the order of the rows; or the failure of storage, or of the first row that
/// holds no record.
pub open spec fn listing(found: Result<Seq<Seq<CellView>>, ErrorView>) -> Result<
    Seq<FdbDhtView>,
    ErrorView,
> {
    match found {
        Err(e) => Err(e),
        Ok(rows) => match records_in(rows) {
            Err(e) => Err(e),
            Ok(records) => Ok(FdbDhtView::of_all(records)),
        },
    }
}

/// What a caller is shown of the first row that storage found, if it found
/// any.
pub open spec fn latest_of(found: Result<Seq<Seq<CellView>>, ErrorView>) -> Result<
    Option<FdbDhtView>,
    ErrorView,
> {
    match found {
        Err(e) => Err(e),
        Ok(rows) => match first_in(rows) {
            Err(e) => Err(e),
            Ok(record) => Ok(FdbDhtView::of_found(record)),
        },
    }
}

/// Turns what storage answered to a query into what the caller is shown.
pub fn list_records(found: Result<Vec<Vec<Cell>>, Error>) -> (out: Result<Vec<FdbDht>, Error>)
    ensures
        dhts_result_view(out) == listing(rows_result_view(found)),
{
    match found {
        Err(e) => Err(e),
        Ok(rows) => match read_records(&rows) {
            Err(e) => Err(e),
            Ok(records) => Ok(FdbDht::from_records(&records)),
        },
    }
}

/// Turns what storage answered to a lookup into what the caller is shown.
pub fn latest_record(found: Result<Vec<Vec<Cell>>, Error>) -> (out: Result<Option<FdbDht>, Error>)
    ensures
        latest_result_view(out) == latest_of(rows_result_view(found)),
{
    match found {
        Err(e) => Err(e),
        Ok(rows) => match read_first(&rows) {
            Err(e) => Err(e),
            Ok(record) => Ok(FdbDht::from_found(&record)),
        },
    }
}

/// Creates the record table unless it exists.
pub fn initialize(table: &mut Table) -> (res: FdbResult)
    requires
        old(table).wf(),
    ensures
        final(table).wf(),
        res@ == FdbResultView::ok(),
        final(table)@ == if old(table)@.created {
            old(table)@
        } else {
            TableView::fresh()
        },
{
    let res = create_dht_table(table);
    FdbResult::from_res(res)
}

/// Drops the record table and every record in it.
pub fn shutdown(table: &mut Table) -> (res: FdbResult)
    requires
        old(table).wf(),
    ensures
        final(table).wf(),
        res@ == FdbResultView::ok(),
        final(table)@ == TableView::absent(),
{
    let res = delete_dht_table(table);
    FdbResult::from_res(res)
}

/// Writes `cid` under `key` for the owner `public_key`, if `signature` proves
/// control of that key for `message`. The signature is checked before storage
/// is touched, and a write that fails the check leaves the table as it was.
pub fn insert(
    table: &mut Table,
    key: String,
    cid: String,
    public_key: String,
    signature: String,
    message: String,
) -> (res: FdbResult)
    requires
        old(table).wf(),
    ensures
        final(table).wf(),
        (final(table)@, res@) == old(table)@.written(
            signature_accepts(public_key@, signature@, message@),
            key@,
            cid@,
            public_key@,
        ),
{
    let accepted = verify(public_key.clone(), signature, message);
    match authorize(accepted, key, cid, public_key) {
        Authorization::Rejected(reply) => reply,
        Authorization::Authorized(write) => {
            proof {
                lemma_holds_iff_found(table@, key@, public_key@);
                lemma_rows_round_trip(table@.by_pk_and_key(key@, public_key@));
            }
            let found = table.fetch(&write.lookup());
            match write.decide(found) {
                Decision::Failed(reply) => reply,
                Decision::Store(command) => {
                    let stored = table.execute(&command);
                    FdbResult::from_res(stored)
                },
            }
        },
    }
}

/// The records under `key`, of all owners, oldest first.
pub fn get_records_by_key(table: &Table, key: String) -> (res: Result<Vec<FdbDht>, Error>)
    ensures
        dhts_result_view(res) == table@.listed(key@),
{
    let query = Query::RecordsByKey { key };
    proof {
        lemma_rows_round_trip(table@.selected(query@));
    }
    list_records(table.fetch(&query))
}

/// The record that `public_key` holds under `key`, or `None` where it holds
/// none.
pub fn get_latest_record_by_pk_and_key(table: &Table, key: String, public_key: String) -> (res:
    Result<Option<FdbDht>, Error>)
    ensures
        latest_result_view(res) == table@.latest(key@, public_key@),
{
    let query = Query::RecordsByPkAndKey { key, pk: public_key };
    proof {
        lemma_rows_round_trip(table@.selected(query@));
    }
    latest_record(table.fetch(&query))
}

} // verus!
