//! A size-bounded, content-addressed record store with two secondary indexes
//! (by tag and by author) and a bulk-deletion operation.

pub mod hashing;
pub mod laws;
pub mod model;
pub mod pallet;
pub mod record;
pub mod table;
