//! Decoding, filtering and shaping of the pool and trade events of the
//! Verified Network contracts for Substreams modules.
pub mod abi;
pub mod block;
pub mod event_laws;
pub mod db_out;
pub mod group;
pub mod hexstr;
pub mod kv;
pub mod laws;
pub mod margin_factory;
pub mod pools;
pub mod primary_factory;
pub mod primary_pool;
pub mod proto;
pub mod records;
pub mod secondary_factory;
pub mod secondary_pool;
pub mod tracker;
pub mod uint;
