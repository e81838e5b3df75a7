//! A tiny verified "table" abstraction: a vector of rows, each with an
//! integer key, with at most one row per key.  The local store keeps every
//! entity table and pending-change queue in this shape.

use vstd::prelude::*;

verus! {

/// How a vector's deep view lines up with its rows.
pub broadcast proof fn lemma_vec_deep_view<T: DeepView>(v: &Vec<T>)
    ensures
        (#[trigger] v.deep_view()).len() == v@.len(),
        forall|j: int| 0 <= j < v@.len() ==> v.deep_view()[j] == v@[j].deep_view(),
{
}

/// A row with an integer key.
pub trait Keyed: Sized {
    /// The key of this row.
    spec fn key(self) -> int;

    /// The key of this row, computed.
    fn exec_key(&self) -> (k: i64)
        ensures
            k as int == self.key(),
    ;
}

/// The first row with key `k`, scanning from the front.
pub open spec fn lookup<T: Keyed>(s: Seq<T>, k: int) -> Option<T>
    decreases s.len(),
{
    if s.len() == 0 {
        None
    } else if s[0].key() == k {
        Some(s[0])
    } else {
        lookup(s.drop_first(), k)
    }
}

/// Whether some row has key `k`.
pub open spec fn has_key<T: Keyed>(s: Seq<T>, k: int) -> bool {
    lookup(s, k) is Some
}

/// No two rows share a key.
pub open spec fn unique_keys<T: Keyed>(s: Seq<T>) -> bool {
    forall|i: int, j: int| 0 <= i < j < s.len() ==> s[i].key() != s[j].key()
}

/// If no row of `s` has key `k`, the lookup fails, and conversely.
pub proof fn lemma_lookup_none<T: Keyed>(s: Seq<T>, k: int)
    ensures
        (lookup(s, k) is None) <==> (forall|i: int| 0 <= i < s.len() ==> s[i].key() != k),
    decreases s.len(),
{
    if s.len() > 0 {
        lemma_lookup_none(s.drop_first(), k);
        if s[0].key() != k {
            let sd = s.drop_first();
            assert(forall|i: int| 0 <= i < sd.len() ==> sd[i] == s[i + 1]);
            if lookup(s, k) is None {
                assert forall|i: int| 0 <= i < s.len() implies s[i].key() != k by {
                    if i > 0 {
                        assert(sd[i - 1] == s[i]);
                    }
                }
            } else {
                assert(exists|i: int| 0 <= i < sd.len() && sd[i].key() == k);
                let i = choose|i: int| 0 <= i < sd.len() && sd[i].key() == k;
                assert(s[i + 1].key() == k);
            }
        }
    }
}

/// If `s[i]` is the first row with key `k`, the lookup returns it.
pub proof fn lemma_lookup_at<T: Keyed>(s: Seq<T>, k: int, i: int)
    requires
        0 <= i < s.len(),
        s[i].key() == k,
        forall|j: int| 0 <= j < i ==> s[j].key() != k,
    ensures
        lookup(s, k) == Some(s[i]),
    decreases s.len(),
{
    if i > 0 {
        lemma_lookup_at(s.drop_first(), k, i - 1);
    }
}

/// With unique keys, the looked-up row is the only one carrying its key.
pub proof fn lemma_lookup_unique<T: Keyed>(s: Seq<T>, k: int, i: int)
    requires
        unique_keys(s),
        0 <= i < s.len(),
        s[i].key() == k,
    ensures
        lookup(s, k) == Some(s[i]),
{
    assert(forall|j: int| 0 <= j < i ==> s[j].key() != k);
    lemma_lookup_at(s, k, i);
}

/// Find the index of the row with key `k`, if any.
pub fn find_key<T: Keyed>(v: &Vec<T>, k: i64) -> (r: Option<usize>)
    ensures
        match r {
            Some(i) => i < v@.len() && v@[i as int].key() == k as int && lookup(v@, k as int)
                == Some(v@[i as int]),
            None => lookup(v@, k as int) is None,
        },
{
    let mut i: usize = 0;
    while i < v.len()
        invariant
            i <= v@.len(),
            forall|j: int| 0 <= j < i ==> v@[j].key() != k as int,
        decreases v@.len() - i,
    {
        if v[i].exec_key() == k {
            proof {
                lemma_lookup_at(v@, k as int, i as int);
            }
            return Some(i);
        }
        i = i + 1;
    }
    proof {
        lemma_lookup_none(v@, k as int);
    }
    None
}

/// Insert the row, or replace the row that already carries its key.
pub fn upsert<T: Keyed>(v: &mut Vec<T>, row: T)
    requires
        unique_keys(old(v)@),
    ensures
        unique_keys(final(v)@),
        lookup(final(v)@, row.key()) == Some(row),
        forall|k: int| k != row.key() ==> lookup(final(v)@, k) == lookup(old(v)@, k),
        final(v)@.len() == if has_key(old(v)@, row.key()) {
            old(v)@.len()
        } else {
            old(v)@.len() + 1
        },
{
    let ghost k = row.key();
    match find_key(v, row.exec_key()) {
        Some(i) => {
            v.set(i, row);
            proof {
                let s0 = old(v)@;
                let s1 = v@;
                assert(s1 =~= s0.update(i as int, row));
                assert(unique_keys(s1));
                lemma_lookup_unique(s1, k, i as int);
                assert forall|k2: int| k2 != k implies lookup(s1, k2) == lookup(s0, k2) by {
                    lemma_lookup_agree(s0, s1, k2);
                }
            }
        },
        None => {
            v.push(row);
            proof {
                let s0 = old(v)@;
                let s1 = v@;
                lemma_lookup_none(s0, k);
                assert(unique_keys(s1));
                lemma_lookup_unique(s1, k, s1.len() - 1);
                assert forall|k2: int| k2 != k implies lookup(s1, k2) == lookup(s0, k2) by {
                    lemma_lookup_push(s0, row, k2);
                }
            }
        },
    }
}

/// Two tables that agree on which rows carry key `k` (position by position)
/// look `k` up to the same row.
proof fn lemma_lookup_agree<T: Keyed>(s0: Seq<T>, s1: Seq<T>, k: int)
    requires
        s0.len() == s1.len(),
        forall|i: int| 0 <= i < s0.len() && s0[i].key() == k ==> s1[i] == s0[i],
        forall|i: int| 0 <= i < s0.len() && s1[i].key() == k ==> s1[i] == s0[i],
    ensures
        lookup(s0, k) == lookup(s1, k),
    decreases s0.len(),
{
    if s0.len() > 0 {
        if s0[0].key() == k || s1[0].key() == k {
        } else {
            assert(forall|i: int|
                0 <= i < s0.drop_first().len() ==> s0.drop_first()[i] == s0[i + 1]
                    && s1.drop_first()[i] == s1[i + 1]);
            lemma_lookup_agree(s0.drop_first(), s1.drop_first(), k);
        }
    }
}

/// Appending a row does not change the lookup of other keys.
pub proof fn lemma_lookup_push<T: Keyed>(s: Seq<T>, row: T, k: int)
    requires
        k != row.key(),
    ensures
        lookup(s.push(row), k) == lookup(s, k),
    decreases s.len(),
{
    if s.len() == 0 {
        assert(s.push(row)[0] == row);
        assert(s.push(row).drop_first() =~= s);
    } else {
        assert(s.push(row)[0] == s[0]);
        assert(s.push(row).drop_first() =~= s.drop_first().push(row));
        lemma_lookup_push(s.drop_first(), row, k);
    }
}

/// A successful lookup returns one of the rows.
pub proof fn lemma_lookup_in<T: Keyed>(s: Seq<T>, k: int)
    ensures
        lookup(s, k) matches Some(x) ==> exists|i: int|
            0 <= i < s.len() && s[i] == x && s[i].key() == k,
    decreases s.len(),
{
    if s.len() > 0 && s[0].key() != k {
        lemma_lookup_in(s.drop_first(), k);
        if lookup(s, k) is Some {
            let x = lookup(s, k).unwrap();
            let i = choose|i: int|
                0 <= i < s.drop_first().len() && s.drop_first()[i] == x && s.drop_first()[i].key()
                    == k;
            assert(s[i + 1] == x);
        }
    }
}

/// Removing row `i` removes exactly its key from a unique-keyed table.
pub proof fn lemma_lookup_remove<T: Keyed>(s: Seq<T>, i: int)
    requires
        unique_keys(s),
        0 <= i < s.len(),
    ensures
        unique_keys(s.remove(i)),
        lookup(s.remove(i), s[i].key()) is None,
        forall|k: int| k != s[i].key() ==> lookup(s.remove(i), k) == lookup(s, k),
    decreases s.len(),
{
    let t = s.remove(i);
    let k0 = s[i].key();
    assert(forall|j: int| 0 <= j < i ==> t[j] == s[j]);
    assert(forall|j: int| i <= j < t.len() ==> t[j] == s[j + 1]);
    assert(unique_keys(t));
    assert forall|j: int| 0 <= j < t.len() implies t[j].key() != k0 by {
        if j < i {
            assert(t[j] == s[j]);
        } else {
            assert(t[j] == s[j + 1]);
        }
    }
    lemma_lookup_none(t, k0);
    if i == 0 {
        assert(t =~= s.drop_first());
        assert forall|k: int| k != k0 implies lookup(t, k) == lookup(s, k) by {
            assert(lookup(s, k) == lookup(s.drop_first(), k));
        }
    } else {
        assert(t[0] == s[0]);
        let sd = s.drop_first();
        let td = t.drop_first();
        assert(forall|j: int| 0 <= j < sd.len() ==> sd[j] == s[j + 1]);
        assert(unique_keys(sd));
        assert(td =~= sd.remove(i - 1));
        lemma_lookup_remove(sd, i - 1);
        assert forall|k: int| k != k0 implies lookup(t, k) == lookup(s, k) by {
            if s[0].key() == k {
                lemma_lookup_unique(s, k, 0);
                lemma_lookup_unique(t, k, 0);
            } else {
                assert(lookup(s, k) == lookup(sd, k));
                assert(lookup(t, k) == lookup(td, k));
                assert(lookup(td, k) == lookup(sd, k));
            }
        }
    }
}

/// Remove the row with key `k`, if any; later rows keep their order.
pub fn remove_key<T: Keyed>(v: &mut Vec<T>, k: i64)
    requires
        unique_keys(old(v)@),
    ensures
        unique_keys(final(v)@),
        lookup(final(v)@, k as int) is None,
        forall|k2: int| k2 != k as int ==> lookup(final(v)@, k2) == lookup(old(v)@, k2),
        match lookup(old(v)@, k as int) {
            Some(_) => exists|i: int|
                0 <= i < old(v)@.len() && old(v)@[i].key() == k as int && final(v)@ == old(
                    v,
                )@.remove(i),
            None => final(v)@ == old(v)@,
        },
{
    match find_key(v, k) {
        Some(i) => {
            v.remove(i);
            proof {
                lemma_lookup_remove(old(v)@, i as int);
            }
        },
        None => {
        },
    }
}

} // verus!
