//! The key order used by range scans.
//!
//! Keys are `String`s, and the store orders them as Rust's `Ord` on
//! `String` does: lexicographically by character (code point). The spec
//! functions here state that order over key views, so that contracts on
//! range operations can speak about it.

use vstd::prelude::*;

verus! {

/// Strict lexicographic order on key character sequences. This is the
/// order `Ord` on `String` induces on views: byte-wise comparison of
/// UTF-8 text coincides with code-point-wise comparison of its characters.
pub open spec fn lex_lt(a: Seq<char>, b: Seq<char>) -> bool
    decreases a.len(),
{
    if b.len() == 0 {
        false
    } else if a.len() == 0 {
        true
    } else if a[0] != b[0] {
        (a[0] as int) < (b[0] as int)
    } else {
        lex_lt(a.skip(1), b.skip(1))
    }
}

/// Non-strict companion of [`lex_lt`].
pub open spec fn lex_le(a: Seq<char>, b: Seq<char>) -> bool {
    lex_lt(a, b) || a == b
}

/// Whether a key lies in the half-open range `[lo, hi)`.
pub open spec fn in_range(lo: Seq<char>, hi: Seq<char>, k: Seq<char>) -> bool {
    lex_le(lo, k) && lex_lt(k, hi)
}

/// The lexicographic order is irreflexive, so strictly ascending keys are
/// pairwise distinct.
pub proof fn lemma_lex_irreflexive(a: Seq<char>)
    ensures
        !lex_lt(a, a),
    decreases a.len(),
{
    if a.len() > 0 {
        lemma_lex_irreflexive(a.skip(1));
    }
}

} // verus!
