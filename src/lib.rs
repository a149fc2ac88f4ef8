//! Multi-replica synchronization of books, documents and their deletions.
//!
//! The storage itself (SQL pools, queries, migrations) lives outside this
//! crate; what is here decides what every replica must receive, and models a
//! replica in memory so that the synchronization rules can be proved.

pub mod timestamp;
pub mod types;
pub mod rows;
pub mod plan;
pub mod table;
pub mod replica;
pub mod laws;
pub mod settings;
pub mod session;
pub mod render;
