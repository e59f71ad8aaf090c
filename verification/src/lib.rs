//! A multi-version transactional storage core: snapshot-isolated reads and
//! two-phase-commit writes over an ordered key-value store.

pub mod acquire;
pub mod actions;
pub mod causet_def;
pub mod codec;
pub mod commands;
pub mod context;
pub mod dagger;
pub mod einstein_db;
pub mod error;
pub mod field_type;
pub mod key;
pub mod kv;
pub mod mutation;
pub mod prewrite;
pub mod reader;
pub mod soliton_panic;
pub mod symbols;
pub mod timestamp;
pub mod ttl;
pub mod txn;
pub mod util;
pub mod write;
