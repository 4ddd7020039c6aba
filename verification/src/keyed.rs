//! Directories as key-addressed sequences.
//!
//! Each record kind carries the identity it is filed under; a directory is a
//! sequence of such records whose keys are pairwise distinct, so that the key
//! alone locates a record, exactly as deterministic address derivation does
//! for the platform. The lemmas here say how lookup behaves under the three
//! edits the ledger performs: updating a record in place, filing a new one,
//! and releasing one.

use vstd::prelude::*;
use crate::identity::Identity;

verus! {

/// A record filed under a deterministically derived address: the address is
/// a pure function of the record's own key.
pub trait Keyed: Sized {
    /// The identity the record is filed under.
    spec fn key(self) -> Identity;
}

/// No two records of the directory are filed under the same key.
pub open spec fn distinct_keys<T: Keyed>(s: Seq<T>) -> bool {
    forall|i: int, j: int| 0 <= i < j < s.len() ==> s[i].key() != s[j].key()
}

/// Some record of the directory is filed under `k`.
pub open spec fn has_key<T: Keyed>(s: Seq<T>, k: Identity) -> bool {
    exists|i: int| 0 <= i < s.len() && (#[trigger] s[i]).key() == k
}

/// The position of the record filed under `k`; meaningful when `has_key`
/// holds and the keys are distinct.
pub open spec fn idx_of<T: Keyed>(s: Seq<T>, k: Identity) -> int {
    choose|i: int| 0 <= i < s.len() && (#[trigger] s[i]).key() == k
}

/// The record filed under `k`; meaningful when `has_key` holds.
pub open spec fn entry_of<T: Keyed>(s: Seq<T>, k: Identity) -> T {
    s[idx_of(s, k)]
}

/// A found position is the position: under distinct keys, any index whose
/// record carries key `k` is `idx_of(s, k)`.
pub proof fn lemma_idx_of_unique<T: Keyed>(s: Seq<T>, i: int, k: Identity)
    requires
        distinct_keys(s),
        0 <= i < s.len(),
        s[i].key() == k,
    ensures
        has_key(s, k),
        idx_of(s, k) == i,
        entry_of(s, k) == s[i],
{
    assert(has_key(s, k));
    let j = idx_of(s, k);
    assert(0 <= j < s.len() && s[j].key() == k);
    if i < j {
        assert(s[i].key() != s[j].key());
    } else if j < i {
        assert(s[j].key() != s[i].key());
    }
}

/// Replacing the record at `i` with one filed under the same key keeps the
/// directory well-keyed, keeps every other record, and makes the new record
/// the one found under that key.
pub proof fn lemma_update_entry<T: Keyed>(s: Seq<T>, i: int, v: T)
    requires
        distinct_keys(s),
        0 <= i < s.len(),
        v.key() == s[i].key(),
    ensures
        distinct_keys(s.update(i, v)),
        forall|k: Identity| has_key(s.update(i, v), k) == has_key(s, k),
        entry_of(s.update(i, v), v.key()) == v,
        forall|k: Identity|
            k != v.key() && has_key(s, k) ==> entry_of(s.update(i, v), k) == entry_of(s, k),
{
    let t = s.update(i, v);
    assert forall|j: int| 0 <= j < s.len() implies (#[trigger] t[j]).key() == s[j].key() by {
        if j != i {
            assert(t[j] == s[j]);
        }
    }
    assert forall|k: Identity| has_key(t, k) == has_key(s, k) by {
        if has_key(t, k) {
            let j = choose|j: int| 0 <= j < t.len() && (#[trigger] t[j]).key() == k;
            assert(s[j].key() == k);
        }
        if has_key(s, k) {
            let j = choose|j: int| 0 <= j < s.len() && (#[trigger] s[j]).key() == k;
            assert(t[j].key() == k);
        }
    }
    lemma_idx_of_unique(t, i, v.key());
    assert forall|k: Identity| k != v.key() && has_key(s, k) implies entry_of(t, k) == entry_of(
        s,
        k,
    ) by {
        let j = idx_of(s, k);
        assert(0 <= j < s.len() && s[j].key() == k);
        assert(j != i);
        lemma_idx_of_unique(t, j, k);
    }
}

/// Filing a record under a fresh key keeps the directory well-keyed, keeps
/// every existing record, and makes the new record the one found under its
/// key.
pub proof fn lemma_push_entry<T: Keyed>(s: Seq<T>, v: T)
    requires
        distinct_keys(s),
        !has_key(s, v.key()),
    ensures
        distinct_keys(s.push(v)),
        forall|k: Identity| has_key(s.push(v), k) == (has_key(s, k) || k == v.key()),
        entry_of(s.push(v), v.key()) == v,
        forall|k: Identity|
            k != v.key() && has_key(s, k) ==> entry_of(s.push(v), k) == entry_of(s, k),
{
    let t = s.push(v);
    assert forall|i: int, j: int| 0 <= i < j < t.len() implies (#[trigger] t[i]).key() != (
    #[trigger] t[j]).key() by {
        if j < s.len() {
            assert(t[i] == s[i] && t[j] == s[j]);
        } else {
            assert(t[j] == v);
            assert(t[i] == s[i]);
            assert(s[i].key() != v.key()) by {
                if s[i].key() == v.key() {
                    assert(has_key(s, v.key()));
                }
            }
        }
    }
    assert forall|k: Identity| has_key(t, k) == (has_key(s, k) || k == v.key()) by {
        if has_key(t, k) {
            let j = choose|j: int| 0 <= j < t.len() && (#[trigger] t[j]).key() == k;
            if j < s.len() {
                assert(s[j].key() == k);
            } else {
                assert(t[j] == v);
            }
        }
        if has_key(s, k) {
            let j = choose|j: int| 0 <= j < s.len() && (#[trigger] s[j]).key() == k;
            assert(t[j].key() == k);
        }
        if k == v.key() {
            assert(t[s.len() as int] == v);
            assert(t[s.len() as int].key() == k);
        }
    }
    lemma_idx_of_unique(t, s.len() as int, v.key());
    assert forall|k: Identity| k != v.key() && has_key(s, k) implies entry_of(t, k) == entry_of(
        s,
        k,
    ) by {
        let j = idx_of(s, k);
        assert(0 <= j < s.len() && s[j].key() == k);
        assert(t[j] == s[j]);
        lemma_idx_of_unique(t, j, k);
    }
}

/// Releasing the record at `i` keeps the directory well-keyed, removes
/// exactly that record's key, and keeps every other record.
pub proof fn lemma_remove_entry<T: Keyed>(s: Seq<T>, i: int)
    requires
        distinct_keys(s),
        0 <= i < s.len(),
    ensures
        distinct_keys(s.remove(i)),
        !has_key(s.remove(i), s[i].key()),
        forall|k: Identity| k != s[i].key() ==> has_key(s.remove(i), k) == has_key(s, k),
        forall|k: Identity|
            k != s[i].key() && has_key(s, k) ==> entry_of(s.remove(i), k) == entry_of(s, k),
{
    let t = s.remove(i);
    assert forall|j: int| 0 <= j < t.len() implies (#[trigger] t[j]).key() == (if j < i {
        s[j].key()
    } else {
        s[j + 1].key()
    }) by {
        s.remove_ensures(i);
    }
    s.remove_ensures(i);
    assert forall|p: int, q: int| 0 <= p < q < t.len() implies (#[trigger] t[p]).key() != (
    #[trigger] t[q]).key() by {
        let p0: int = if p < i { p } else { p + 1 };
        let q0: int = if q < i { q } else { q + 1 };
        assert(t[p] == s[p0] && t[q] == s[q0]);
        assert(p0 < q0);
    }
    assert(!has_key(t, s[i].key())) by {
        if has_key(t, s[i].key()) {
            let j = choose|j: int| 0 <= j < t.len() && (#[trigger] t[j]).key() == s[i].key();
            let j0: int = if j < i { j } else { j + 1 };
            assert(s[j0].key() == s[i].key());
            assert(j0 != i);
        }
    }
    assert forall|k: Identity| k != s[i].key() implies has_key(t, k) == has_key(s, k) by {
        if has_key(t, k) {
            let j = choose|j: int| 0 <= j < t.len() && (#[trigger] t[j]).key() == k;
            let j0: int = if j < i { j } else { j + 1 };
            assert(s[j0].key() == k);
        }
        if has_key(s, k) {
            let j = choose|j: int| 0 <= j < s.len() && (#[trigger] s[j]).key() == k;
            assert(j != i);
            if j < i {
                assert(t[j].key() == k);
            } else {
                assert(t[j - 1] == s[j]);
                assert(t[j - 1].key() == k);
            }
        }
    }
    assert forall|k: Identity| k != s[i].key() && has_key(s, k) implies entry_of(t, k) == entry_of(
        s,
        k,
    ) by {
        let j = idx_of(s, k);
        assert(0 <= j < s.len() && s[j].key() == k);
        assert(j != i);
        if j < i {
            assert(t[j] == s[j]);
            lemma_idx_of_unique(t, j, k);
        } else {
            assert(t[j - 1] == s[j]);
            lemma_idx_of_unique(t, j - 1, k);
        }
    }
}

} // verus!
