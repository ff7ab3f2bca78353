//! An in-memory, ordered, transactional key-value store.
//!
//! The store keeps its committed state in an atomically swappable,
//! structurally shared ordered map. Any number of read-only transactions
//! may run beside at most one writing transaction: each transaction works
//! on the private snapshot it captured when it began, writers are
//! serialized by a single writer lock, and a commit publishes the writer's
//! snapshot as the new committed map in one atomic pointer swap.

pub mod db;
pub mod err;
pub mod omap;
pub mod order;
pub mod ptr;
pub mod tx;

pub use db::new;
pub use db::Database;
pub use err::Error;
pub use ptr::Ptr;
pub use tx::Transaction;
