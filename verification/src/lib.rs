//! A versioned state store for the execution results of an EVM-compatible
//! chain: the key schema, the per-key multi-version engine indexed by block
//! height, the block index, and the writer and reader built on them.

pub mod base16;
pub mod codec;
pub mod error;
pub mod getter;
pub mod history;
pub mod keys;
pub mod records;
pub mod setter;
pub mod store;
pub mod table;
pub mod types;
