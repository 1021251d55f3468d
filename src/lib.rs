//! An in-process typed data store with three shapes over one key space:
//! scalar key-value pairs, double-ended lists and flat field maps ("objects").

pub mod error;
pub mod key;
pub mod namespaced_key;
pub mod value;
pub mod key_map;
pub mod kv_command;
pub mod entity;
pub mod kv_store;
pub mod list_command;
pub mod list_store;
pub mod map_command;
pub mod map_store;
pub mod db;
