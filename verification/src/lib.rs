//! An authenticated record table for one node of a distributed hash table.
//!
//! A record maps a lookup key to a content identifier and belongs to the
//! identity whose Ed25519 signature authorized it. Many identities may publish
//! under one key; each of them holds at most one record there.
//!
//! The library decides and the caller performs: [`service`] turns a request
//! into the statements of [`query`] and reads the rows that come back, and
//! whoever holds the database runs them. [`table`] says what each statement
//! means and holds a table in memory that behaves exactly so; [`laws`] states
//! what follows for every table and every request.

pub mod dht;
pub mod ed25519;
pub mod error;
pub mod hex;
pub mod laws;
pub mod query;
pub mod record;
pub mod result;
pub mod service;
pub mod store;
pub mod table;

pub use dht::FdbDht;
pub use ed25519::verify;
pub use error::{get_none_error, Error};
pub use record::Record;
pub use result::FdbResult;
pub use service::{
    get_latest_record_by_pk_and_key, get_records_by_key, initialize, insert, shutdown,
};
pub use store::{
    add_record, create_dht_table, delete_dht_table, get_exact_record, get_record_by_pk,
    get_record_by_pk_and_key, get_records, update_record,
};
pub use table::Table;
