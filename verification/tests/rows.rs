use fdb_dht::dht::FdbDht;
use fdb_dht::error::{get_none_error, Error};
use fdb_dht::query::{Command, Query};
use fdb_dht::record::{Cell, Record};
use fdb_dht::result::FdbResult;
use fdb_dht::service::{latest_record, list_records};
use fdb_dht::store::{database_path, read_execute, read_first, read_records};

fn text(s: &str) -> Cell {
    Cell::Text(s.to_string())
}

fn row(uuid: i64, key: &str, cid: &str, pk: &str) -> Vec<Cell> {
    vec![Cell::Integer(uuid), text(key), text(cid), text(pk)]
}

fn is_none_error(e: &Error) -> bool {
    match e {
        Error::Storage { code: None, message: Some(m) } => m == "Value doesn't exist",
        _ => false,
    }
}

fn same_record(r: &Record, uuid: i64, key: &str, cid: &str, pk: &str) -> bool {
    r.uuid == uuid && r.key == key && r.cid == cid && r.public_key == pk
}

#[test]
fn none_error_has_no_code_and_its_message() {
    match get_none_error() {
        Error::Storage { code, message } => {
            assert_eq!(code, None);
            assert_eq!(message, Some("Value doesn't exist".to_string()));
        }
        _ => panic!("not a storage error"),
    }
}

#[test]
fn error_texts() {
    assert_eq!(Error::Ownership.text(), "You are not the owner!");
    assert_eq!(Error::StoreUninitialized.text(), "The record store is not initialized");
    assert_eq!(
        Error::Storage { code: Some(5), message: Some("database is locked".to_string()) }.text(),
        "database is locked"
    );
    assert_eq!(Error::Storage { code: Some(5), message: None }.text(), "The storage layer failed");
    assert_eq!(get_none_error().text(), "Value doesn't exist");
}

#[test]
fn missing_table_means_uninitialized() {
    let e = Error::from_storage(Some(1), Some("no such table: dht".to_string()));
    assert!(matches!(e, Error::StoreUninitialized));
}

#[test]
fn other_storage_failures_pass_through() {
    match Error::from_storage(Some(1), Some("no such table: dht2".to_string())) {
        Error::Storage { code, message } => {
            assert_eq!(code, Some(1));
            assert_eq!(message, Some("no such table: dht2".to_string()));
        }
        _ => panic!("not a storage error"),
    }
    match Error::from_storage(Some(14), None) {
        Error::Storage { code, message } => {
            assert_eq!(code, Some(14));
            assert_eq!(message, None);
        }
        _ => panic!("not a storage error"),
    }
    match Error::from_storage(None, Some(String::new())) {
        Error::Storage { code, message } => {
            assert_eq!(code, None);
            assert_eq!(message, Some(String::new()));
        }
        _ => panic!("not a storage error"),
    }
}

#[test]
fn envelope_of_success() {
    let r = FdbResult::from_res(Ok(()));
    assert!(r.success);
    assert_eq!(r.err_msg, "");
}

#[test]
fn envelope_of_failures() {
    let r = FdbResult::from_res(Err(Error::Ownership));
    assert!(!r.success);
    assert_eq!(r.err_msg, "You are not the owner!");
    let r = FdbResult::from_res(Err(Error::StoreUninitialized));
    assert!(!r.success);
    assert_eq!(r.err_msg, "The record store is not initialized");
    let r = FdbResult::from_res(Err(Error::Storage {
        code: Some(11),
        message: Some("database disk image is malformed".to_string()),
    }));
    assert!(!r.success);
    assert_eq!(r.err_msg, "database disk image is malformed");
    let r = FdbResult::from_err_str("anything at all");
    assert!(!r.success);
    assert_eq!(r.err_msg, "anything at all");
}

#[test]
fn create_and_drop_statements() {
    let s = Command::CreateTable.statement();
    assert_eq!(
        s.sql,
        "create table if not exists dht (uuid INTEGER not null primary key AUTOINCREMENT, key TEXT not null, cid TEXT not null, owner_pk TEXT not null, unique (key, owner_pk));"
    );
    assert!(s.params.is_empty());
    let s = Command::DropTable.statement();
    assert_eq!(s.sql, "drop table if exists dht;");
    assert!(s.params.is_empty());
}

#[test]
fn write_statements_bind_their_values() {
    let s = Command::AddRecord {
        key: "k".to_string(),
        owner_pk: "o".to_string(),
        cid: "c".to_string(),
    }
    .statement();
    assert_eq!(s.sql, "insert into dht (key, cid, owner_pk) values (?, ?, ?);");
    assert_eq!(s.params, vec!["k".to_string(), "c".to_string(), "o".to_string()]);
    let s = Command::UpdateRecord {
        key: "k".to_string(),
        owner_pk: "o".to_string(),
        cid: "c".to_string(),
    }
    .statement();
    assert_eq!(s.sql, "update dht set cid = ? where key = ? and owner_pk = ?;");
    assert_eq!(s.params, vec!["c".to_string(), "k".to_string(), "o".to_string()]);
}

#[test]
fn read_statements_bind_their_values() {
    let s = Query::RecordsByKey { key: "k".to_string() }.statement();
    assert_eq!(s.sql, "select uuid, key, cid, owner_pk from dht where key = ? order by uuid;");
    assert_eq!(s.params, vec!["k".to_string()]);
    let s = Query::RecordsByPk { pk: "o".to_string() }.statement();
    assert_eq!(s.sql, "select uuid, key, cid, owner_pk from dht where owner_pk = ? order by uuid;");
    assert_eq!(s.params, vec!["o".to_string()]);
    let s = Query::RecordsByPkAndKey { key: "k".to_string(), pk: "o".to_string() }.statement();
    assert_eq!(
        s.sql,
        "select uuid, key, cid, owner_pk from dht where owner_pk = ? and key = ? order by uuid;"
    );
    assert_eq!(s.params, vec!["o".to_string(), "k".to_string()]);
}

#[test]
fn hostile_text_stays_out_of_the_statement() {
    let hostile = "x'; drop table dht; --".to_string();
    let s = Query::RecordsByKey { key: hostile.clone() }.statement();
    assert_eq!(s.sql, "select uuid, key, cid, owner_pk from dht where key = ? order by uuid;");
    assert_eq!(s.params, vec![hostile.clone()]);
    let s = Command::AddRecord { key: hostile.clone(), owner_pk: hostile.clone(), cid: hostile.clone() }
        .statement();
    assert_eq!(s.sql, "insert into dht (key, cid, owner_pk) values (?, ?, ?);");
    assert_eq!(s.params, vec![hostile.clone(), hostile.clone(), hostile]);
}

#[test]
fn database_path_quotes_the_name() {
    assert_eq!(database_path("dht"), "tmp/'dht'_db.sqlite");
    assert_eq!(database_path(""), "tmp/''_db.sqlite");
}

#[test]
fn from_row_reads_four_columns() {
    let r = Record::from_row(&row(3, "topic1", "Qm111", "P")).ok().unwrap();
    assert!(same_record(&r, 3, "topic1", "Qm111", "P"));
}

#[test]
fn from_row_ignores_further_columns() {
    let mut cells = row(-4, "", "", "");
    cells.push(Cell::Null);
    let r = Record::from_row(&cells).ok().unwrap();
    assert!(same_record(&r, -4, "", "", ""));
}

#[test]
fn from_row_refuses_short_rows() {
    assert!(is_none_error(&Record::from_row(&[]).err().unwrap()));
    let cells = vec![Cell::Integer(1), text("k"), text("c")];
    assert!(is_none_error(&Record::from_row(&cells).err().unwrap()));
}

#[test]
fn from_row_refuses_other_types() {
    let wrong = vec![
        vec![text("1"), text("k"), text("c"), text("o")],
        vec![Cell::Integer(1), Cell::Null, text("c"), text("o")],
        vec![Cell::Integer(1), text("k"), Cell::Integer(2), text("o")],
        vec![Cell::Integer(1), text("k"), text("c"), Cell::Binary(vec![1, 2])],
        vec![Cell::Float(0), text("k"), text("c"), text("o")],
    ];
    for cells in wrong {
        assert!(is_none_error(&Record::from_row(&cells).err().unwrap()));
    }
}

#[test]
fn to_row_and_back() {
    let r = Record {
        uuid: 12,
        key: "topic1".to_string(),
        cid: "Qm111".to_string(),
        public_key: "P".to_string(),
    };
    let cells = r.to_row();
    assert_eq!(cells.len(), 4);
    assert!(matches!(&cells[0], Cell::Integer(12)));
    assert!(matches!(&cells[1], Cell::Text(s) if s == "topic1"));
    assert!(matches!(&cells[2], Cell::Text(s) if s == "Qm111"));
    assert!(matches!(&cells[3], Cell::Text(s) if s == "P"));
    let back = Record::from_row(&cells).ok().unwrap();
    assert!(same_record(&back, 12, "topic1", "Qm111", "P"));
    let copy = r.clone();
    assert!(same_record(&copy, 12, "topic1", "Qm111", "P"));
}

#[test]
fn read_records_reads_every_row_in_order() {
    let rows = vec![row(1, "k", "c1", "a"), row(2, "k", "c2", "b"), row(5, "k", "c3", "c")];
    let records = read_records(&rows).ok().unwrap();
    assert_eq!(records.len(), 3);
    assert!(same_record(&records[0], 1, "k", "c1", "a"));
    assert!(same_record(&records[1], 2, "k", "c2", "b"));
    assert!(same_record(&records[2], 5, "k", "c3", "c"));
    assert!(read_records(&vec![]).ok().unwrap().is_empty());
}

#[test]
fn read_records_fails_on_a_bad_row() {
    let rows = vec![row(1, "k", "c1", "a"), vec![Cell::Null], row(5, "k", "c3", "c")];
    assert!(is_none_error(&read_records(&rows).err().unwrap()));
}

#[test]
fn read_first_takes_the_first_row() {
    let rows = vec![row(4, "k", "c1", "a"), vec![Cell::Null]];
    let found = read_first(&rows).ok().unwrap().unwrap();
    assert!(same_record(&found, 4, "k", "c1", "a"));
    assert!(read_first(&vec![]).ok().unwrap().is_none());
    assert!(is_none_error(&read_first(&vec![vec![Cell::Null]]).err().unwrap()));
}

#[test]
fn read_execute_needs_a_row() {
    let rows = vec![row(4, "k", "c1", "a")];
    assert!(same_record(&read_execute(&rows).ok().unwrap(), 4, "k", "c1", "a"));
    assert!(is_none_error(&read_execute(&vec![]).err().unwrap()));
    assert!(is_none_error(&read_execute(&vec![vec![]]).err().unwrap()));
}

#[test]
fn dht_shows_a_record_without_its_identifier() {
    let r = Record {
        uuid: 12,
        key: "topic1".to_string(),
        cid: "Qm111".to_string(),
        public_key: "P".to_string(),
    };
    let d = FdbDht::from_record(&r);
    assert_eq!(d.public_key, "P");
    assert_eq!(d.cid, "Qm111");
    assert_eq!(d.key, "topic1");
    let all = FdbDht::from_records(&vec![r.clone(), r.clone()]);
    assert_eq!(all.len(), 2);
    assert_eq!(all[1].cid, "Qm111");
    assert!(FdbDht::from_found(&None).is_none());
    assert_eq!(FdbDht::from_found(&Some(r)).unwrap().key, "topic1");
}

#[test]
fn default_dht_is_empty() {
    let d = FdbDht::default();
    assert_eq!(d.public_key, "");
    assert_eq!(d.cid, "");
    assert_eq!(d.key, "");
}

#[test]
fn list_records_shows_rows_or_the_failure() {
    let shown = list_records(Ok(vec![row(1, "k", "c1", "a"), row(2, "k", "c2", "b")])).ok().unwrap();
    assert_eq!(shown.len(), 2);
    assert_eq!((shown[0].public_key.as_str(), shown[0].cid.as_str(), shown[0].key.as_str()), ("a", "c1", "k"));
    assert_eq!((shown[1].public_key.as_str(), shown[1].cid.as_str(), shown[1].key.as_str()), ("b", "c2", "k"));
    assert!(matches!(list_records(Err(Error::StoreUninitialized)), Err(Error::StoreUninitialized)));
    assert!(is_none_error(&list_records(Ok(vec![vec![]])).err().unwrap()));
}

#[test]
fn latest_record_shows_the_first_row_or_nothing() {
    let shown = latest_record(Ok(vec![row(1, "k", "c1", "a")])).ok().unwrap().unwrap();
    assert_eq!((shown.public_key.as_str(), shown.cid.as_str(), shown.key.as_str()), ("a", "c1", "k"));
    assert!(latest_record(Ok(vec![])).ok().unwrap().is_none());
    assert!(matches!(latest_record(Err(Error::StoreUninitialized)), Err(Error::StoreUninitialized)));
    assert!(is_none_error(&latest_record(Ok(vec![vec![]])).err().unwrap()));
}
