//! The statements that the record store sends to its storage layer.
//!
//! A [`Command`] changes what is stored and gives nothing back; a [`Query`]
//! gives rows back and changes nothing. Text that callers supply never
//! becomes part of a statement's text: it travels as bound parameters, one
//! for each `?` of the statement, in order.

use vstd::prelude::*;

verus! {

/// A request to the storage layer that changes what is stored.
#[derive(Debug)]
pub enum Command {
    /// Create the record table unless it exists.
    CreateTable,
    /// Drop the record table if it exists.
    DropTable,
    /// Store a new record.
    AddRecord { key: String, owner_pk: String, cid: String },
    /// Replace the content identifier of the record that `owner_pk` holds
    /// under `key`.
    UpdateRecord { key: String, owner_pk: String, cid: String },
}

/// The mathematical value of a [`Command`].
pub enum CommandView {
    CreateTable,
    DropTable,
    AddRecord { key: Seq<char>, owner_pk: Seq<char>, cid: Seq<char> },
    UpdateRecord { key: Seq<char>, owner_pk: Seq<char>, cid: Seq<char> },
}

impl View for Command {
    type V = CommandView;

    open spec fn view(&self) -> CommandView {
        match self {
            Command::CreateTable => CommandView::CreateTable,
            Command::DropTable => CommandView::DropTable,
            Command::AddRecord { key, owner_pk, cid } => CommandView::AddRecord {
                key: key@,
                owner_pk: owner_pk@,
                cid: cid@,
            },
            Command::UpdateRecord { key, owner_pk, cid } => CommandView::UpdateRecord {
                key: key@,
                owner_pk: owner_pk@,
                cid: cid@,
            },
        }
    }
}

/// A request to the storage layer for records.
#[derive(Debug)]
pub enum Query {
    /// The records under `key`, oldest first.
    RecordsByKey { key: String },
    /// The records of the owner `pk`, oldest first.
    RecordsByPk { pk: String },
    /// The record that `pk` holds under `key`.
    RecordsByPkAndKey { key: String, pk: String },
}

/// The mathematical value of a [`Query`].
pub enum QueryView {
    RecordsByKey { key: Seq<char> },
    RecordsByPk { pk: Seq<char> },
    RecordsByPkAndKey { key: Seq<char>, pk: Seq<char> },
}

impl View for Query {
    type V = QueryView;

    open spec fn view(&self) -> QueryView {
        match self {
            Query::RecordsByKey { key } => QueryView::RecordsByKey { key: key@ },
            Query::RecordsByPk { pk } => QueryView::RecordsByPk { pk: pk@ },
            Query::RecordsByPkAndKey { key, pk } => QueryView::RecordsByPkAndKey {
                key: key@,
                pk: pk@,
            },
        }
    }
}

/// A statement in the storage layer's language, with the values to bind to
/// its parameters.
#[derive(Debug)]
pub struct Statement {
    /// The statement's text, with one `?` for each parameter.
    pub sql: String,
    /// The values of the parameters, leftmost first.
    pub params: Vec<String>,
}

/// The mathematical value of a [`Statement`].
pub struct StatementView {
    pub sql: Seq<char>,
    pub params: Seq<Seq<char>>,
}

impl View for Statement {
    type V = StatementView;

    open spec fn view(&self) -> StatementView {
        StatementView { sql: self.sql@, params: self.params.deep_view() }
    }
}

impl CommandView {
    /// The text of the statement that expresses this command.
    pub open spec fn sql(self) -> Seq<char> {
        match self {
            CommandView::CreateTable =>
                "create table if not exists dht (uuid INTEGER not null primary key AUTOINCREMENT, key TEXT not null, cid TEXT not null, owner_pk TEXT not null, unique (key, owner_pk));"@,
            CommandView::DropTable => "drop table if exists dht;"@,
            CommandView::AddRecord { .. } =>
                "insert into dht (key, cid, owner_pk) values (?, ?, ?);"@,
            CommandView::UpdateRecord { .. } =>
                "update dht set cid = ? where key = ? and owner_pk = ?;"@,
        }
    }

    /// The values bound to the statement's parameters, leftmost first.
    pub open spec fn params(self) -> Seq<Seq<char>> {
        match self {
            CommandView::CreateTable => seq![],
            CommandView::DropTable => seq![],
            CommandView::AddRecord { key, owner_pk, cid } => seq![key, cid, owner_pk],
            CommandView::UpdateRecord { key, owner_pk, cid } => seq![cid, key, owner_pk],
        }
    }

    /// The statement that expresses this command.
    pub open spec fn statement(self) -> StatementView {
        StatementView { sql: self.sql(), params: self.params() }
    }
}

impl QueryView {
    /// The text of the statement that expresses this query.
    pub open spec fn sql(self) -> Seq<char> {
        match self {
            QueryView::RecordsByKey { .. } =>
                "select uuid, key, cid, owner_pk from dht where key = ? order by uuid;"@,
            QueryView::RecordsByPk { .. } =>
                "select uuid, key, cid, owner_pk from dht where owner_pk = ? order by uuid;"@,
            QueryView::RecordsByPkAndKey { .. } =>
                "select uuid, key, cid, owner_pk from dht where owner_pk = ? and key = ? order by uuid;"@,
        }
    }

    /// The values bound to the statement's parameters, leftmost first.
    pub open spec fn params(self) -> Seq<Seq<char>> {
        match self {
            QueryView::RecordsByKey { key } => seq![key],
            QueryView::RecordsByPk { pk } => seq![pk],
            QueryView::RecordsByPkAndKey { key, pk } => seq![pk, key],
        }
    }

    /// The statement that expresses this query.
    pub open spec fn statement(self) -> StatementView {
        StatementView { sql: self.sql(), params: self.params() }
    }
}

impl Command {
    /// The statement that expresses this command: fixed text, and the
    /// caller's values as bound parameters.
    pub fn statement(&self) -> (s: Statement)
        ensures
            s@ == self@.statement(),
    {
        let mut params: Vec<String> = Vec::new();
        let sql = match self {
            Command::CreateTable => {
                "create table if not exists dht (uuid INTEGER not null primary key AUTOINCREMENT, key TEXT not null, cid TEXT not null, owner_pk TEXT not null, unique (key, owner_pk));"
            },
            Command::DropTable => "drop table if exists dht;",
            Command::AddRecord { key, owner_pk, cid } => {
                params.push(key.clone());
                params.push(cid.clone());
                params.push(owner_pk.clone());
                "insert into dht (key, cid, owner_pk) values (?, ?, ?);"
            },
            Command::UpdateRecord { key, owner_pk, cid } => {
                params.push(cid.clone());
                params.push(key.clone());
                params.push(owner_pk.clone());
                "update dht set cid = ? where key = ? and owner_pk = ?;"
            },
        };
        let s = Statement { sql: sql.to_owned(), params };
        assert(s.params.deep_view() =~= self@.params());
        s
    }
}

impl Query {
    /// The statement that expresses this query: fixed text, and the caller's
    /// values as bound parameters.
    pub fn statement(&self) -> (s: Statement)
        ensures
            s@ == self@.statement(),
    {
        let mut params: Vec<String> = Vec::new();
        let sql = match self {
            Query::RecordsByKey { key } => {
                params.push(key.clone());
                "select uuid, key, cid, owner_pk from dht where key = ? order by uuid;"
            },
            Query::RecordsByPk { pk } => {
                params.push(pk.clone());
                "select uuid, key, cid, owner_pk from dht where owner_pk = ? order by uuid;"
            },
            Query::RecordsByPkAndKey { key, pk } => {
                params.push(pk.clone());
                params.push(key.clone());
                "select uuid, key, cid, owner_pk from dht where owner_pk = ? and key = ? order by uuid;"
            },
        };
        let s = Statement { sql: sql.to_owned(), params };
        assert(s.params.deep_view() =~= self@.params());
        s
    }
}

} // verus!
