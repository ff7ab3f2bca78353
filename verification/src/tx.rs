//! The database transaction logic.
//!
//! A [`Transaction`] owns a private snapshot of the committed map, a
//! writeability flag, a completion flag, a handle to the database's
//! committed-map cell, and — if writing — the writer token. Every
//! operation observes the completion flag first; reads and writes touch
//! only the private snapshot, and only a successful `commit` publishes it.

use vstd::math::min;
use vstd::prelude::*;
use vstd::seq_lib::group_seq_properties;
use vstd::set_lib::group_set_lib_default;

use crate::db::Database;
use crate::err::Error;
use crate::omap::{
    entry_in_range, map_entries, omap_clone, omap_get, omap_insert, omap_range, omap_remove,
    range_key_count, Snapshot,
};
use crate::order::{in_range, lemma_lex_irreflexive, lex_lt};

verus! {

/// The view of an expected-value argument.
pub open spec fn opt_view(chk: Option<&str>) -> Option<Seq<char>> {
    match chk {
        Some(w) => Some(w@),
        None => None,
    }
}

/// Whether the current state of key `k` in `m` matches the expectation of
/// a conditional write: `Some(w)` means present with value `w`, `None`
/// means absent.
pub open spec fn expected_matches(
    m: Map<Seq<char>, Seq<char>>,
    k: Seq<char>,
    chk: Option<Seq<char>>,
) -> bool {
    match chk {
        Some(w) => m.contains_key(k) && m[k] == w,
        None => !m.contains_key(k),
    }
}

/// Whether an optional value is exactly what `m` holds at `k`: the value
/// under the key if present, nothing if absent.
pub open spec fn found_value(
    m: Map<Seq<char>, Seq<char>>,
    k: Seq<char>,
    v: Option<String>,
) -> bool {
    match v {
        Some(s) => m.contains_key(k) && s@ == m[k],
        None => !m.contains_key(k),
    }
}

/// What a `keys` result must be: the first `limit` keys of `m` in
/// `[lo, hi)`, in ascending order.
pub open spec fn keys_valid(
    m: Map<Seq<char>, Seq<char>>,
    lo: Seq<char>,
    hi: Seq<char>,
    limit: int,
    ks: Seq<String>,
) -> bool {
    &&& ks.len() == min(limit, range_key_count(m, lo, hi) as int)
    &&& forall|i: int| 0 <= i < ks.len() ==> m.contains_key(#[trigger] ks[i]@) && in_range(lo, hi, ks[i]@)
    &&& forall|i: int, j: int| 0 <= i < j < ks.len() ==> lex_lt(ks[i]@, ks[j]@)
    &&& forall|k: Seq<char>|
        #[trigger] m.contains_key(k) && in_range(lo, hi, k) ==> (exists|i: int|
            0 <= i < ks.len() && #[trigger] ks[i]@ == k) || (ks.len() == limit && forall|i: int|
            0 <= i < ks.len() ==> lex_lt(#[trigger] ks[i]@, k))
}

/// What a `scan` result must be: the first `limit` entries of `m` whose
/// keys lie in `[lo, hi)`, in ascending key order, each key paired with
/// its value in `m`.
pub open spec fn scan_valid(
    m: Map<Seq<char>, Seq<char>>,
    lo: Seq<char>,
    hi: Seq<char>,
    limit: int,
    ps: Seq<(String, String)>,
) -> bool {
    &&& ps.len() == min(limit, range_key_count(m, lo, hi) as int)
    &&& forall|i: int| 0 <= i < ps.len() ==> entry_in_range(m, lo, hi, #[trigger] ps[i])
    &&& forall|i: int, j: int| 0 <= i < j < ps.len() ==> lex_lt(ps[i].0@, ps[j].0@)
    &&& forall|k: Seq<char>|
        #[trigger] m.contains_key(k) && in_range(lo, hi, k) ==> (exists|i: int|
            0 <= i < ps.len() && #[trigger] ps[i].0@ == k) || (ps.len() == limit && forall|i: int|
            0 <= i < ps.len() ==> lex_lt(#[trigger] ps[i].0@, k))
}

/// A sequence of entries that is strictly ascending by key and holds
/// exactly the keys of `m` lying in `[lo, hi)` has one entry per such
/// key, so its length is the number of those keys.
proof fn lemma_range_vec_len(
    m: Map<Seq<char>, Seq<char>>,
    lo: Seq<char>,
    hi: Seq<char>,
    s: Seq<(String, String)>,
)
    requires
        m.dom().finite(),
        forall|i: int| 0 <= i < s.len() ==> entry_in_range(m, lo, hi, #[trigger] s[i]),
        forall|i: int, j: int| 0 <= i < j < s.len() ==> lex_lt(s[i].0@, s[j].0@),
        forall|k: Seq<char>|
            #[trigger] m.contains_key(k) && in_range(lo, hi, k) ==> exists|i: int|
                0 <= i < s.len() && #[trigger] s[i].0@ == k,
    ensures
        s.len() == range_key_count(m, lo, hi),
{
    broadcast use group_seq_properties, group_set_lib_default;

    let pred = |k: Seq<char>| in_range(lo, hi, k);
    let t = m.dom().filter(pred);
    let ks = s.map_values(|p: (String, String)| p.0@);
    assert forall|i: int, j: int|
        0 <= i < ks.len() && 0 <= j < ks.len() && i != j implies ks[i] != ks[j] by {
        if i < j {
            assert(lex_lt(s[i].0@, s[j].0@));
        } else {
            assert(lex_lt(s[j].0@, s[i].0@));
        }
        lemma_lex_irreflexive(ks[i]);
    }
    assert(ks.no_duplicates());
    assert forall|k: Seq<char>| ks.to_set().contains(k) implies t.contains(k) by {
        let i = choose|i: int| 0 <= i < ks.len() && ks[i] == k;
        assert(entry_in_range(m, lo, hi, s[i]));
    }
    assert forall|k: Seq<char>| t.contains(k) implies ks.to_set().contains(k) by {
        assert(m.contains_key(k) && in_range(lo, hi, k));
        let i = choose|i: int| 0 <= i < s.len() && s[i].0@ == k;
        assert(ks[i] == k);
    }
    assert(ks.to_set() =~= t);
    ks.unique_seq_to_set();
    m.dom().lemma_len_filter(pred);
}

/// A serializable, snapshot-isolated database transaction.
pub struct Transaction {
    /// Is the transaction complete?
    done: bool,
    /// Is the transaction writeable?
    write: bool,
    /// The private snapshot this transaction reads and writes.
    snapshot: Snapshot,
    /// The handle through which a commit publishes its snapshot.
    datastore: crate::db::Datastore,
    /// The writer token, held exactly while a writer is live.
    writelock: Option<tokio::sync::OwnedMutexGuard<()>>,
}

impl View for Transaction {
    type V = Map<Seq<char>, Seq<char>>;

    /// The transaction's observable state: the map its private snapshot
    /// holds.
    closed spec fn view(&self) -> Map<Seq<char>, Seq<char>> {
        map_entries(self.snapshot)
    }
}

impl Transaction {
    /// Whether the transaction has terminated (`done` is set).
    pub closed spec fn spec_closed(&self) -> bool {
        self.done
    }

    /// Whether the transaction was begun writeable.
    pub closed spec fn spec_write(&self) -> bool {
        self.write
    }

    /// Whether the transaction holds the writer token.
    pub closed spec fn holds_lease(&self) -> bool {
        self.writelock is Some
    }

    /// Every snapshot is a finite map.
    pub open spec fn wf(&self) -> bool {
        self@.dom().finite()
    }

    /// Create a new read-only transaction on the current committed map.
    pub(crate) fn read(db: &Database, lock: Option<tokio::sync::OwnedMutexGuard<()>>) -> (t: Transaction)
        ensures
            !t.spec_closed(),
            !t.spec_write(),
            t.holds_lease() == (lock is Some),
            t.wf(),
    {
        Transaction {
            done: false,
            write: false,
            snapshot: db.datastore.load(),
            datastore: db.datastore.share(),
            writelock: lock,
        }
    }

    /// Create a new writeable transaction on the current committed map.
    /// The caller passes the writer token it acquired, so the snapshot is
    /// loaded only after writer exclusion is in force.
    pub(crate) fn write(db: &Database, lock: Option<tokio::sync::OwnedMutexGuard<()>>) -> (t: Transaction)
        ensures
            !t.spec_closed(),
            t.spec_write(),
            t.holds_lease() == (lock is Some),
            t.wf(),
    {
        Transaction {
            done: false,
            write: true,
            snapshot: db.datastore.load(),
            datastore: db.datastore.share(),
            writelock: lock,
        }
    }

    /// Check if the transaction is closed.
    pub fn closed(&self) -> (r: bool)
        ensures
            r == self.spec_closed(),
    {
        self.done
    }

    /// Cancel the transaction and roll back any changes: the private
    /// snapshot is simply never published. The first cancel on a live
    /// transaction always succeeds and releases the writer token if one
    /// is held; any later call reports the transaction closed.
    pub fn cancel(&mut self) -> (r: Result<(), Error>)
        ensures
            old(self).spec_closed() ==> r == Err::<(), Error>(Error::TxClosed) && *final(self)
                == *old(self),
            !old(self).spec_closed() ==> {
                &&& r == Ok::<(), Error>(())
                &&& final(self).spec_closed()
                &&& final(self)@ == old(self)@
                &&& final(self).spec_write() == old(self).spec_write()
                &&& !final(self).holds_lease()
            },
    {
        if self.done {
            return Err(Error::TxClosed);
        }
        self.done = true;
        // Dropping the guard releases the writer lock.
        self.writelock = None;
        Ok(())
    }

    /// Commit the transaction: publish its snapshot as the database's new
    /// committed map (one atomic store, the linearization point), then
    /// release the writer token. Rejected on a closed or read-only
    /// transaction, which is left unchanged.
    pub fn commit(&mut self) -> (r: Result<(), Error>)
        ensures
            old(self).spec_closed() ==> r == Err::<(), Error>(Error::TxClosed) && *final(self)
                == *old(self),
            !old(self).spec_closed() && !old(self).spec_write() ==> r == Err::<(), Error>(
                Error::TxNotWritable,
            ) && *final(self) == *old(self),
            !old(self).spec_closed() && old(self).spec_write() ==> {
                &&& r == Ok::<(), Error>(())
                &&& final(self).spec_closed()
                &&& final(self)@ == old(self)@
                &&& final(self).spec_write()
                &&& !final(self).holds_lease()
            },
    {
        if self.done {
            return Err(Error::TxClosed);
        }
        if !self.write {
            return Err(Error::TxNotWritable);
        }
        self.done = true;
        // Atomically replace the committed map with this snapshot.
        self.datastore.store(omap_clone(&self.snapshot));
        // Dropping the guard releases the writer lock.
        self.writelock = None;
        Ok(())
    }

    /// Check if a key is present in this transaction's snapshot.
    pub fn contains(&self, key: &str) -> (r: Result<bool, Error>)
        ensures
            self.spec_closed() ==> r == Err::<bool, Error>(Error::TxClosed),
            !self.spec_closed() ==> r == Ok::<bool, Error>(self@.contains_key(key@)),
    {
        if self.done {
            return Err(Error::TxClosed);
        }
        Ok(omap_get(&self.snapshot, key).is_some())
    }

    /// Fetch a key's value from this transaction's snapshot.
    pub fn get(&self, key: &str) -> (r: Result<Option<String>, Error>)
        ensures
            self.spec_closed() ==> r == Err::<Option<String>, Error>(Error::TxClosed),
            !self.spec_closed() ==> (r matches Ok(v) && found_value(self@, key@, v)),
    {
        if self.done {
            return Err(Error::TxClosed);
        }
        Ok(omap_get(&self.snapshot, key))
    }

    /// Insert or update a key in the snapshot, unconditionally.
    pub fn set(&mut self, key: &str, val: &str) -> (r: Result<(), Error>)
        ensures
            old(self).spec_closed() ==> r == Err::<(), Error>(Error::TxClosed) && *final(self)
                == *old(self),
            !old(self).spec_closed() && !old(self).spec_write() ==> r == Err::<(), Error>(
                Error::TxNotWritable,
            ) && *final(self) == *old(self),
            !old(self).spec_closed() && old(self).spec_write() ==> r == Ok::<(), Error>(())
                && final(self)@ == old(self)@.insert(key@, val@),
            final(self).spec_closed() == old(self).spec_closed(),
            final(self).spec_write() == old(self).spec_write(),
            final(self).holds_lease() == old(self).holds_lease(),
            old(self).wf() ==> final(self).wf(),
    {
        if self.done {
            return Err(Error::TxClosed);
        }
        if !self.write {
            return Err(Error::TxNotWritable);
        }
        omap_insert(&mut self.snapshot, key, val);
        Ok(())
    }

    /// Insert a key only if it is absent; an existing entry is reported,
    /// not overwritten.
    pub fn put(&mut self, key: &str, val: &str) -> (r: Result<(), Error>)
        ensures
            old(self).spec_closed() ==> r == Err::<(), Error>(Error::TxClosed) && *final(self)
                == *old(self),
            !old(self).spec_closed() && !old(self).spec_write() ==> r == Err::<(), Error>(
                Error::TxNotWritable,
            ) && *final(self) == *old(self),
            !old(self).spec_closed() && old(self).spec_write() && old(self)@.contains_key(key@)
                ==> r == Err::<(), Error>(Error::KeyAlreadyExists) && *final(self) == *old(self),
            !old(self).spec_closed() && old(self).spec_write() && !old(self)@.contains_key(key@)
                ==> r == Ok::<(), Error>(()) && final(self)@ == old(self)@.insert(key@, val@),
            final(self).spec_closed() == old(self).spec_closed(),
            final(self).spec_write() == old(self).spec_write(),
            final(self).holds_lease() == old(self).holds_lease(),
            old(self).wf() ==> final(self).wf(),
    {
        if self.done {
            return Err(Error::TxClosed);
        }
        if !self.write {
            return Err(Error::TxNotWritable);
        }
        match omap_get(&self.snapshot, key) {
            Some(_) => Err(Error::KeyAlreadyExists),
            None => {
                omap_insert(&mut self.snapshot, key, val);
                Ok(())
            },
        }
    }

    /// Insert or update a key only if its current state matches the
    /// expectation: present with value `chk` when `chk` is `Some`, absent
    /// when `chk` is `None`. On a failed check the snapshot is unchanged.
    pub fn putc(&mut self, key: &str, val: &str, chk: Option<&str>) -> (r: Result<(), Error>)
        ensures
            old(self).spec_closed() ==> r == Err::<(), Error>(Error::TxClosed) && *final(self)
                == *old(self),
            !old(self).spec_closed() && !old(self).spec_write() ==> r == Err::<(), Error>(
                Error::TxNotWritable,
            ) && *final(self) == *old(self),
            !old(self).spec_closed() && old(self).spec_write() && expected_matches(
                old(self)@,
                key@,
                opt_view(chk),
            ) ==> r == Ok::<(), Error>(()) && final(self)@ == old(self)@.insert(key@, val@),
            !old(self).spec_closed() && old(self).spec_write() && !expected_matches(
                old(self)@,
                key@,
                opt_view(chk),
            ) ==> r == Err::<(), Error>(Error::ValNotExpectedValue) && *final(self) == *old(self),
            final(self).spec_closed() == old(self).spec_closed(),
            final(self).spec_write() == old(self).spec_write(),
            final(self).holds_lease() == old(self).holds_lease(),
            old(self).wf() ==> final(self).wf(),
    {
        if self.done {
            return Err(Error::TxClosed);
        }
        if !self.write {
            return Err(Error::TxNotWritable);
        }
        match (omap_get(&self.snapshot, key), chk) {
            (Some(cur), Some(w)) => {
                if cur == w.to_owned() {
                    omap_insert(&mut self.snapshot, key, val);
                    Ok(())
                } else {
                    Err(Error::ValNotExpectedValue)
                }
            },
            (None, None) => {
                omap_insert(&mut self.snapshot, key, val);
                Ok(())
            },
            _ => Err(Error::ValNotExpectedValue),
        }
    }

    /// Delete a key from the snapshot; a missing key is a no-op.
    pub fn del(&mut self, key: &str) -> (r: Result<(), Error>)
        ensures
            old(self).spec_closed() ==> r == Err::<(), Error>(Error::TxClosed) && *final(self)
                == *old(self),
            !old(self).spec_closed() && !old(self).spec_write() ==> r == Err::<(), Error>(
                Error::TxNotWritable,
            ) && *final(self) == *old(self),
            !old(self).spec_closed() && old(self).spec_write() ==> r == Ok::<(), Error>(())
                && final(self)@ == old(self)@.remove(key@),
            final(self).spec_closed() == old(self).spec_closed(),
            final(self).spec_write() == old(self).spec_write(),
            final(self).holds_lease() == old(self).holds_lease(),
            old(self).wf() ==> final(self).wf(),
    {
        if self.done {
            return Err(Error::TxClosed);
        }
        if !self.write {
            return Err(Error::TxNotWritable);
        }
        omap_remove(&mut self.snapshot, key);
        Ok(())
    }

    /// Delete a key only if its current state matches the expectation:
    /// present with value `chk` when `chk` is `Some`, absent when `chk`
    /// is `None` (then there is nothing to delete). On a failed check the
    /// snapshot is unchanged.
    pub fn delc(&mut self, key: &str, chk: Option<&str>) -> (r: Result<(), Error>)
        ensures
            old(self).spec_closed() ==> r == Err::<(), Error>(Error::TxClosed) && *final(self)
                == *old(self),
            !old(self).spec_closed() && !old(self).spec_write() ==> r == Err::<(), Error>(
                Error::TxNotWritable,
            ) && *final(self) == *old(self),
            !old(self).spec_closed() && old(self).spec_write() && expected_matches(
                old(self)@,
                key@,
                opt_view(chk),
            ) ==> r == Ok::<(), Error>(()) && final(self)@ == old(self)@.remove(key@),
            !old(self).spec_closed() && old(self).spec_write() && !expected_matches(
                old(self)@,
                key@,
                opt_view(chk),
            ) ==> r == Err::<(), Error>(Error::ValNotExpectedValue) && *final(self) == *old(self),
            final(self).spec_closed() == old(self).spec_closed(),
            final(self).spec_write() == old(self).spec_write(),
            final(self).holds_lease() == old(self).holds_lease(),
            old(self).wf() ==> final(self).wf(),
    {
        if self.done {
            return Err(Error::TxClosed);
        }
        if !self.write {
            return Err(Error::TxNotWritable);
        }
        match (omap_get(&self.snapshot, key), chk) {
            (Some(cur), Some(w)) => {
                if cur == w.to_owned() {
                    omap_remove(&mut self.snapshot, key);
                    Ok(())
                } else {
                    Err(Error::ValNotExpectedValue)
                }
            },
            (None, None) => {
                proof {
                    assert(old(self)@.remove(key@) =~= old(self)@);
                }
                Ok(())
            },
            _ => Err(Error::ValNotExpectedValue),
        }
    }

    /// Retrieve up to `limit` keys in the half-open range `[rng.start,
    /// rng.end)` from the snapshot, in ascending order. An empty or
    /// inverted range yields the empty list.
    #[verifier::loop_isolation(false)]
    pub fn keys(&self, rng: core::ops::Range<&str>, limit: usize) -> (r: Result<Vec<String>, Error>)
        requires
            self.wf(),
        ensures
            self.spec_closed() ==> r == Err::<Vec<String>, Error>(Error::TxClosed),
            !self.spec_closed() ==> (r matches Ok(ks) && keys_valid(
                self@,
                rng.start@,
                rng.end@,
                limit as int,
                ks@,
            )),
    {
        if self.done {
            return Err(Error::TxClosed);
        }
        let all = omap_range(&self.snapshot, rng.start, rng.end);
        proof {
            lemma_range_vec_len(self@, rng.start@, rng.end@, all@);
        }
        let mut out: Vec<String> = Vec::new();
        let mut i: usize = 0;
        while i < all.len() && i < limit
            invariant
                i <= all.len(),
                i <= limit,
                out@.len() == i as int,
                forall|j: int| 0 <= j < i ==> out@[j]@ == all@[j].0@,
            decreases all.len() - i,
        {
            out.push(all[i].0.clone());
            i += 1;
        }
        proof {
            let e = self@;
            let lo = rng.start@;
            let hi = rng.end@;
            let lim = limit as int;
            let taken = out@.map_values(|s: String| s@);
            assert forall|j: int| 0 <= j < taken.len() implies taken[j] == all@[j].0@ by {
                assert(out@[j]@ == all@[j].0@);
            }
            lemma_take_of_range(e, lo, hi, lim, all@, taken);
            assert forall|i2: int| 0 <= i2 < out@.len() implies e.contains_key(
                #[trigger] out@[i2]@,
            ) && in_range(lo, hi, out@[i2]@) by {
                assert(entry_in_range(e, lo, hi, all@[i2]));
            }
            assert forall|k: Seq<char>| #[trigger] e.contains_key(k) && in_range(lo, hi, k) implies (
            exists|i2: int| 0 <= i2 < out@.len() && #[trigger] out@[i2]@ == k) || (out@.len() == lim
                && forall|i2: int| 0 <= i2 < out@.len() ==> lex_lt(#[trigger] out@[i2]@, k)) by {
                if exists|i2: int| 0 <= i2 < taken.len() && #[trigger] taken[i2] == k {
                    let i2 = choose|i2: int| 0 <= i2 < taken.len() && #[trigger] taken[i2] == k;
                    assert(out@[i2]@ == k);
                } else {
                    assert(taken.len() == lim);
                    assert forall|i2: int| 0 <= i2 < out@.len() implies lex_lt(
                        #[trigger] out@[i2]@,
                        k,
                    ) by {
                        assert(lex_lt(taken[i2], k));
                    }
                }
            }
        }
        Ok(out)
    }

    /// Retrieve up to `limit` key-value pairs in the half-open range
    /// `[rng.start, rng.end)` from the snapshot, in ascending key order.
    /// An empty or inverted range yields the empty list.
    #[verifier::loop_isolation(false)]
    pub fn scan(&self, rng: core::ops::Range<&str>, limit: usize) -> (r: Result<
        Vec<(String, String)>,
        Error,
    >)
        requires
            self.wf(),
        ensures
            self.spec_closed() ==> r == Err::<Vec<(String, String)>, Error>(Error::TxClosed),
            !self.spec_closed() ==> (r matches Ok(ps) && scan_valid(
                self@,
                rng.start@,
                rng.end@,
                limit as int,
                ps@,
            )),
    {
        if self.done {
            return Err(Error::TxClosed);
        }
        let all = omap_range(&self.snapshot, rng.start, rng.end);
        proof {
            lemma_range_vec_len(self@, rng.start@, rng.end@, all@);
        }
        let mut out: Vec<(String, String)> = Vec::new();
        let mut i: usize = 0;
        while i < all.len() && i < limit
            invariant
                i <= all.len(),
                i <= limit,
                out@.len() == i as int,
                forall|j: int| 0 <= j < i ==> out@[j].0@ == all@[j].0@ && out@[j].1@ == all@[j].1@,
            decreases all.len() - i,
        {
            out.push((all[i].0.clone(), all[i].1.clone()));
            i += 1;
        }
        proof {
            lemma_take_of_range(self@, rng.start@, rng.end@, limit as int, all@, out@.map_values(|p: (String, String)| p.0@));
        }
        Ok(out)
    }
}

/// The first `min(limit, |s|)` entries of a range result `s` satisfy the
/// completeness and length clauses of `keys_valid` / `scan_valid`, given
/// that `s` itself is the full, ordered, exact range listing.
proof fn lemma_take_of_range(
    m: Map<Seq<char>, Seq<char>>,
    lo: Seq<char>,
    hi: Seq<char>,
    limit: int,
    s: Seq<(String, String)>,
    taken: Seq<Seq<char>>,
)
    requires
        m.dom().finite(),
        forall|i: int| 0 <= i < s.len() ==> entry_in_range(m, lo, hi, #[trigger] s[i]),
        forall|i: int, j: int| 0 <= i < j < s.len() ==> lex_lt(s[i].0@, s[j].0@),
        forall|k: Seq<char>|
            #[trigger] m.contains_key(k) && in_range(lo, hi, k) ==> exists|i: int|
                0 <= i < s.len() && #[trigger] s[i].0@ == k,
        taken.len() == min(limit, s.len() as int),
        forall|j: int| 0 <= j < taken.len() ==> taken[j] == s[j].0@,
    ensures
        taken.len() == min(limit, range_key_count(m, lo, hi) as int),
        forall|k: Seq<char>|
            #[trigger] m.contains_key(k) && in_range(lo, hi, k) ==> (exists|i: int|
                0 <= i < taken.len() && #[trigger] taken[i] == k) || (taken.len() == limit
                && forall|i: int| 0 <= i < taken.len() ==> lex_lt(#[trigger] taken[i], k)),
{
    lemma_range_vec_len(m, lo, hi, s);
    assert forall|k: Seq<char>| #[trigger] m.contains_key(k) && in_range(lo, hi, k) implies (
    exists|i: int| 0 <= i < taken.len() && #[trigger] taken[i] == k) || (taken.len() == limit
        && forall|i: int| 0 <= i < taken.len() ==> lex_lt(#[trigger] taken[i], k)) by {
        let i0 = choose|i: int| 0 <= i < s.len() && s[i].0@ == k;
        if i0 < taken.len() {
            assert(taken[i0] == k);
        } else {
            assert(taken.len() == limit);
            assert forall|i: int| 0 <= i < taken.len() implies lex_lt(#[trigger] taken[i], k) by {
                assert(lex_lt(s[i].0@, s[i0].0@));
            }
        }
    }
}

/// Snapshot stability: a transaction's reads are functions of its own
/// private snapshot alone. No operation of any other transaction can
/// reach that snapshot (each handle owns its own), so every read returns
/// what it would have returned right after `begin`, augmented only by the
/// transaction's own mutations.
pub proof fn lemma_snapshot_determines_reads(a: Transaction, b: Transaction, k: Seq<char>)
    requires
        a@ == b@,
    ensures
        a@.contains_key(k) == b@.contains_key(k),
        a@.contains_key(k) ==> a@[k] == b@[k],
{
}

/// Round trip at the snapshot level: a key just written is read back
/// with the written value. Together with `commit` publishing the
/// snapshot unchanged, a later `begin` that observes that commit reads
/// the same value.
pub proof fn lemma_write_then_read(m: Map<Seq<char>, Seq<char>>, k: Seq<char>, v: Seq<char>)
    ensures
        m.insert(k, v).contains_key(k),
        m.insert(k, v)[k] == v,
{
}

} // verus!
