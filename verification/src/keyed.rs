//! Sequences of entries keyed by name, used as maps: a name stands for the
//! first entry that carries it.

use vstd::prelude::*;

verus! {

/// The names of the entries `p`, in order.
pub open spec fn names_of<V>(p: Seq<(Seq<char>, V)>) -> Seq<Seq<char>> {
    p.map_values(|e: (Seq<char>, V)| e.0)
}

/// The names of the entries `p` of an exec sequence, in order.
pub open spec fn entry_names<V>(p: Seq<(String, V)>) -> Seq<Seq<char>> {
    p.map_values(|e: (String, V)| e.0@)
}

/// Whether `i` is the first position of the name `k` in `ks`.
pub open spec fn is_first(ks: Seq<Seq<char>>, k: Seq<char>, i: int) -> bool {
    &&& 0 <= i < ks.len()
    &&& ks[i] == k
    &&& forall|j: int| 0 <= j < i ==> ks[j] != k
}

/// The first position of the name `k` in `ks`, if it occurs.
pub open spec fn position(ks: Seq<Seq<char>>, k: Seq<char>) -> Option<int> {
    if exists|i: int| is_first(ks, k, i) {
        Some(choose|i: int| is_first(ks, k, i))
    } else {
        None
    }
}

/// The value that `p` holds for the name `k`: that of its first entry named
/// `k`.
pub open spec fn lookup<V>(p: Seq<(Seq<char>, V)>, k: Seq<char>) -> Option<V> {
    match position(names_of(p), k) {
        Some(i) => Some(p[i].1),
        None => None,
    }
}

/// `p` with the value `v` for the name `k`: the first entry named `k` is
/// replaced, or, where there is none, an entry is added at the end.
pub open spec fn upsert<V>(p: Seq<(Seq<char>, V)>, k: Seq<char>, v: V) -> Seq<(Seq<char>, V)> {
    match position(names_of(p), k) {
        Some(i) => p.update(i, (k, v)),
        None => p.push((k, v)),
    }
}

/// Whether no name occurs twice in `ks`.
pub open spec fn names_distinct(ks: Seq<Seq<char>>) -> bool {
    forall|i: int, j: int| 0 <= i < j < ks.len() ==> ks[i] != ks[j]
}

/// The first position of a name is unique, and where the name occurs it has
/// a first position.
pub proof fn lemma_position(ks: Seq<Seq<char>>, k: Seq<char>)
    ensures
        forall|i: int| #[trigger] is_first(ks, k, i) ==> position(ks, k) == Some(i),
        (exists|i: int| 0 <= i < ks.len() && ks[i] == k) <==> position(ks, k) is Some,
{
    if exists|i: int| is_first(ks, k, i) {
        let c = choose|i: int| is_first(ks, k, i);
        assert forall|i: int| #[trigger] is_first(ks, k, i) implies position(ks, k) == Some(i) by {
            if i < c {
                assert(ks[i] != k);
            } else if i > c {
                assert(ks[c] != k);
            }
        }
    }
    if exists|i: int| 0 <= i < ks.len() && ks[i] == k {
        let w = choose|i: int| 0 <= i < ks.len() && ks[i] == k;
        lemma_first_exists(ks, k, w);
    }
}

proof fn lemma_first_exists(ks: Seq<Seq<char>>, k: Seq<char>, w: int)
    requires
        0 <= w < ks.len(),
        ks[w] == k,
    ensures
        exists|i: int| is_first(ks, k, i),
    decreases w,
{
    if exists|j: int| 0 <= j < w && ks[j] == k {
        let j = choose|j: int| 0 <= j < w && ks[j] == k;
        lemma_first_exists(ks, k, j);
    } else {
        assert(is_first(ks, k, w));
    }
}

/// Updating with a name keeps the names distinct.
pub proof fn lemma_upsert_distinct<V>(p: Seq<(Seq<char>, V)>, k: Seq<char>, v: V)
    requires
        names_distinct(names_of(p)),
    ensures
        names_distinct(names_of(upsert(p, k, v))),
        lookup(upsert(p, k, v), k) == Some(v),
{
    lemma_position(names_of(p), k);
    let q = upsert(p, k, v);
    assert(names_of(q) =~= match position(names_of(p), k) {
        Some(i) => names_of(p).update(i, k),
        None => names_of(p).push(k),
    });
    lemma_position(names_of(q), k);
    match position(names_of(p), k) {
        Some(i) => {
            assert(is_first(names_of(q), k, i));
        },
        None => {
            assert(is_first(names_of(q), k, p.len() as int));
        },
    }
}

/// Looking a name up after an entry was added at the end finds the earlier
/// entry of that name where there is one, else the added entry where it
/// carries the name.
pub proof fn lemma_lookup_push<V>(p: Seq<(Seq<char>, V)>, e: (Seq<char>, V), k: Seq<char>)
    ensures
        lookup(p.push(e), k) == if lookup(p, k) is Some {
            lookup(p, k)
        } else if e.0 == k {
            Some(e.1)
        } else {
            None
        },
{
    let ks = names_of(p);
    let qs = names_of(p.push(e));
    assert(qs =~= ks.push(e.0));
    lemma_position(ks, k);
    lemma_position(qs, k);
    match position(ks, k) {
        Some(i) => {
            assert(is_first(qs, k, i));
        },
        None => {
            if e.0 == k {
                assert(is_first(qs, k, p.len() as int));
            } else {
                assert forall|i: int| 0 <= i < qs.len() implies qs[i] != k by {
                    if i < ks.len() {
                        assert(qs[i] == ks[i]);
                    }
                }
            }
        },
    }
}

/// Looking a name up after an update finds the updated value for the updated
/// name, and what was found before for every other name.
pub proof fn lemma_lookup_upsert<V>(p: Seq<(Seq<char>, V)>, k: Seq<char>, v: V, k2: Seq<char>)
    ensures
        lookup(upsert(p, k, v), k2) == if k2 == k {
            Some(v)
        } else {
            lookup(p, k2)
        },
{
    let ks = names_of(p);
    lemma_position(ks, k);
    match position(ks, k) {
        Some(i) => {
            let q = p.update(i, (k, v));
            let qs = names_of(q);
            assert(qs =~= ks.update(i, k));
            lemma_position(qs, k2);
            lemma_position(ks, k2);
            if k2 == k {
                assert(is_first(qs, k2, i));
            } else {
                match position(ks, k2) {
                    Some(j) => {
                        assert(is_first(qs, k2, j));
                    },
                    None => {
                        assert forall|j: int| 0 <= j < qs.len() implies qs[j] != k2 by {
                            if j != i {
                                assert(qs[j] == ks[j]);
                            }
                        }
                    },
                }
            }
        },
        None => {
            lemma_lookup_push(p, (k, v), k2);
            if k2 == k {
                lemma_position(ks, k2);
            }
        },
    }
}

/// Every entry after an update is the updated entry or the entry that stood
/// at its place before.
pub proof fn lemma_upsert_entries<V>(p: Seq<(Seq<char>, V)>, k: Seq<char>, v: V)
    ensures
        forall|i: int|
            0 <= i < upsert(p, k, v).len() ==> #[trigger] upsert(p, k, v)[i] == (k, v) || (i
                < p.len() && upsert(p, k, v)[i] == p[i]),
{
    lemma_position(names_of(p), k);
}

/// A name that is found is found at one of the entries.
pub proof fn lemma_lookup_entry<V>(p: Seq<(Seq<char>, V)>, k: Seq<char>)
    ensures
        lookup(p, k) matches Some(v) ==> exists|i: int| 0 <= i < p.len() && #[trigger] p[i] == (k, v),
{
    lemma_position(names_of(p), k);
    if let Some(i) = position(names_of(p), k) {
        assert(is_first(names_of(p), k, i));
        assert(p[i] == (k, p[i].1));
    }
}

/// The first position of the name `k` among the entries `p`.
pub fn find_name<V>(p: &Vec<(String, V)>, k: &String) -> (r: Option<usize>)
    ensures
        match r {
            Some(i) => is_first(entry_names(p@), k@, i as int),
            None => position(entry_names(p@), k@) is None,
        },
        r matches Some(i) ==> position(entry_names(p@), k@) == Some(i as int),
{
    let n = p.len();
    let ghost ks = entry_names(p@);
    for i in 0..n
        invariant
            n == p@.len(),
            ks == entry_names(p@),
            forall|j: int| 0 <= j < i ==> ks[j] != k@,
    {
        if p[i].0 == *k {
            proof {
                assert(is_first(ks, k@, i as int));
                lemma_position(ks, k@);
            }
            return Some(i);
        }
    }
    proof {
        lemma_position(ks, k@);
    }
    None
}

} // verus!
