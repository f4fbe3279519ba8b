pub mod error;
pub mod filesystem;
pub mod resolver;
pub mod rocksdb;
pub mod store;
pub mod util;
