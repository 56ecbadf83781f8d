//! Duplicate-file finding: directory-walk decisions, the table that groups files by a
//! content checksum, the scanning progress protocol and a small worker pool.

pub mod task;
pub mod walk;
pub mod table;
pub mod hashing;
pub mod text;
pub mod date;
pub mod taskpool;
pub mod scan;
pub mod pool;
pub mod workpool;
