//! The persistent ordered map that snapshots are made of.
//!
//! Snapshots are `imbl::OrdMap<String, String>` values: immutable,
//! structurally shared B-trees with O(log n) point operations and O(1)
//! clone, which is what makes taking a snapshot cheap. The map is outside
//! code, and its pointer-kind type parameter is bounded by a trait of its
//! crate that cannot be declared to the verifier, so [`Snapshot`] holds
//! it opaquely in a private field. This module names the mathematical map
//! a snapshot holds and wraps the handful of operations the transaction
//! logic uses, each behind a contract over that name.

use vstd::prelude::*;

use crate::order::{in_range, lex_lt};

verus! {

/// A transaction snapshot: one immutable version of the store's ordered
/// map.
#[verifier::external_body]
pub struct Snapshot {
    pub(crate) map: imbl::OrdMap<String, String>,
}

/// The mapping a [`Snapshot`] holds, as a mathematical map from key
/// characters to value characters.
pub uninterp spec fn map_entries(m: Snapshot) -> Map<Seq<char>, Seq<char>>;

/// Relies on `imbl::GenericOrdMap::new`: constructs the empty map.
#[verifier::external_body]
pub(crate) fn omap_new() -> (m: Snapshot)
    ensures
        map_entries(m).dom().finite(),
        forall|k: Seq<char>| !map_entries(m).contains_key(k),
{
    Snapshot { map: imbl::OrdMap::new() }
}

/// Relies on `Clone` for `imbl::GenericOrdMap`: an O(1), structurally
/// shared copy holding the same entries as the original.
#[verifier::external_body]
pub(crate) fn omap_clone(m: &Snapshot) -> (r: Snapshot)
    ensures
        map_entries(r) == map_entries(*m),
{
    Snapshot { map: m.map.clone() }
}

/// Relies on `imbl::GenericOrdMap::get`: returns the value the key maps
/// to, if any (cloned out here, so the caller owns it).
#[verifier::external_body]
pub(crate) fn omap_get(m: &Snapshot, key: &str) -> (r: Option<String>)
    ensures
        match r {
            Some(v) => map_entries(*m).contains_key(key@) && v@ == map_entries(*m)[key@],
            None => !map_entries(*m).contains_key(key@),
        },
{
    m.map.get(key).cloned()
}

/// Relies on `imbl::GenericOrdMap::insert`: maps the key to the value,
/// replacing any previous entry, and leaves every other entry unchanged.
#[verifier::external_body]
pub(crate) fn omap_insert(m: &mut Snapshot, key: &str, val: &str)
    ensures
        map_entries(*final(m)) == map_entries(*old(m)).insert(key@, val@),
{
    m.map.insert(key.to_owned(), val.to_owned());
}

/// Relies on `imbl::GenericOrdMap::remove`: removes the key's entry if
/// present and leaves every other entry unchanged.
#[verifier::external_body]
pub(crate) fn omap_remove(m: &mut Snapshot, key: &str)
    ensures
        map_entries(*final(m)) == map_entries(*old(m)).remove(key@),
{
    m.map.remove(key);
}

/// Whether a pair is an entry of `e` whose key lies in `[lo, hi)`.
pub open spec fn entry_in_range(
    e: Map<Seq<char>, Seq<char>>,
    lo: Seq<char>,
    hi: Seq<char>,
    p: (String, String),
) -> bool {
    &&& e.contains_key(p.0@)
    &&& p.1@ == e[p.0@]
    &&& in_range(lo, hi, p.0@)
}

/// Relies on `imbl::GenericOrdMap::range`: iterates, in ascending key
/// order, over exactly the entries whose keys lie in the half-open range
/// `[lo, hi)`. Its cursors detect an empty or inverted range and yield
/// nothing; no bound makes it panic.
#[verifier::external_body]
pub(crate) fn omap_range(m: &Snapshot, lo: &str, hi: &str) -> (r: Vec<(String, String)>)
    ensures
        forall|i: int|
            0 <= i < r@.len() ==> entry_in_range(map_entries(*m), lo@, hi@, #[trigger] r@[i]),
        forall|i: int, j: int| 0 <= i < j < r@.len() ==> lex_lt(r@[i].0@, r@[j].0@),
        forall|k: Seq<char>|
            #[trigger] map_entries(*m).contains_key(k) && in_range(lo@, hi@, k) ==> exists|i: int|
                0 <= i < r@.len() && #[trigger] r@[i].0@ == k,
{
    let bounds = (core::ops::Bound::Included(lo), core::ops::Bound::Excluded(hi));
    m.map.range::<_, str>(bounds).map(|(k, v)| (k.clone(), v.clone())).collect()
}

/// How many keys of `m` lie in `[lo, hi)`.
pub open spec fn range_key_count(
    m: Map<Seq<char>, Seq<char>>,
    lo: Seq<char>,
    hi: Seq<char>,
) -> nat {
    m.dom().filter(|k: Seq<char>| in_range(lo, hi, k)).len()
}

} // verus!
