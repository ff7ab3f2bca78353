//! The database container.
//!
//! A [`Database`] holds the two pieces of shared state: the committed-map
//! cell (an `arc_swap::ArcSwap` pointing at the current committed
//! snapshot) and the writer lock (a `tokio::sync::Mutex<()>` whose owned
//! guard is the writer token). Its one operation, [`Database::begin`],
//! hands out fresh transactions.

use vstd::prelude::*;

use crate::omap::{map_entries, omap_new, Snapshot};
use crate::tx::Transaction;

verus! {

#[verifier::external_type_specification]
#[verifier::external_body]
#[verifier::reject_recursive_types(T)]
pub struct ExTokioMutex<T: ?Sized>(tokio::sync::Mutex<T>);

#[verifier::external_type_specification]
#[verifier::external_body]
#[verifier::reject_recursive_types(T)]
pub struct ExOwnedMutexGuard<T: ?Sized>(tokio::sync::OwnedMutexGuard<T>);

/// A shared handle to the committed-map cell.
///
/// The cell is an `arc_swap::ArcSwap` over the snapshot map; `ArcSwap` is
/// a type alias whose strategy parameter cannot be named outside its
/// crate, so the cell is held opaquely here and reached only through the
/// trusted methods below. What a load returns depends on which commit was
/// published last, so no contract relates two uses of the cell.
#[verifier::external_body]
pub struct Datastore {
    cell: std::sync::Arc<arc_swap::ArcSwap<imbl::OrdMap<String, String>>>,
}

impl Datastore {
    /// Relies on `arc_swap::ArcSwapAny::from_pointee`: a fresh cell whose
    /// initial content is the map handed to it (here always the empty
    /// map, see [`new`]).
    #[verifier::external_body]
    pub(crate) fn init(m: Snapshot) -> (c: Datastore) {
        Datastore { cell: std::sync::Arc::new(arc_swap::ArcSwap::from_pointee(m.map)) }
    }

    /// Relies on `std::sync::Arc::clone`: another handle to the same cell.
    #[verifier::external_body]
    pub(crate) fn share(&self) -> (c: Datastore) {
        Datastore { cell: self.cell.clone() }
    }

    /// Relies on `arc_swap::ArcSwapAny::load` (a lock-free atomic read)
    /// and the map's O(1) `Clone`: returns the map most recently stored
    /// in the cell. Which commit that was depends on scheduling, so
    /// nothing more is stated of the value; every `imbl` map is finite.
    #[verifier::external_body]
    pub(crate) fn load(&self) -> (m: Snapshot)
        ensures
            map_entries(m).dom().finite(),
    {
        Snapshot { map: (**self.cell.load()).clone() }
    }

    /// Relies on `arc_swap::ArcSwapAny::store`: atomically publishes the
    /// map as the cell's new content. This single pointer swap is the
    /// linearization point of a commit.
    #[verifier::external_body]
    pub(crate) fn store(&self, m: Snapshot) {
        self.cell.store(std::sync::Arc::new(m.map));
    }
}

/// Relies on `tokio::sync::Mutex::new`: a fresh, unlocked writer lock.
#[verifier::external_body]
pub(crate) fn writelock_new() -> (m: std::sync::Arc<tokio::sync::Mutex<()>>) {
    std::sync::Arc::new(tokio::sync::Mutex::new(()))
}

/// Relies on `tokio::sync::Mutex::blocking_lock_owned`: blocks the
/// calling thread until the lock is free, then returns the owned guard;
/// the lock stays held until the guard is dropped, so at most one guard
/// exists at a time. Must not be called from inside an async runtime;
/// every operation of this library is synchronous.
#[verifier::external_body]
pub(crate) fn writelock_acquire(m: &std::sync::Arc<tokio::sync::Mutex<()>>) -> (g:
    tokio::sync::OwnedMutexGuard<()>) {
    m.clone().blocking_lock_owned()
}

/// A transactional in-memory database.
pub struct Database {
    /// The writer lock that serializes committing transactions.
    pub(crate) writelock: std::sync::Arc<tokio::sync::Mutex<()>>,
    /// The cell holding the currently committed snapshot.
    pub(crate) datastore: Datastore,
}

/// Create a new transactional in-memory database. Its committed map
/// starts empty and its writer lock starts free; both live behind shared
/// cells whose contents the contracts of [`Database::begin`] and the
/// transaction operations describe per snapshot.
pub fn new() -> (db: Database) {
    Database { writelock: writelock_new(), datastore: Datastore::init(omap_new()) }
}

impl Database {
    /// Start a new read-only or writeable transaction.
    ///
    /// A writing begin first acquires the writer token (blocking while
    /// another writer holds it) and only then loads its snapshot, so a
    /// writer's baseline is the most recently committed map.
    pub fn begin(&self, write: bool) -> (t: Transaction)
        ensures
            !t.spec_closed(),
            t.spec_write() == write,
            t.holds_lease() == write,
            t.wf(),
    {
        if write {
            let lock = writelock_acquire(&self.writelock);
            Transaction::write(self, Some(lock))
        } else {
            Transaction::read(self, None)
        }
    }
}

} // verus!
