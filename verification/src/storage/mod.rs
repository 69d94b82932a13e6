pub mod engine;
pub mod wal;
