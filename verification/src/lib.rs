//! NervusDB: verified core logic of an embedded graph / triple database.
pub mod capi;
pub mod core_db;
pub mod errors;
pub mod node_payload;
pub mod query;
pub mod storage;
pub mod strmap;
pub mod text;
