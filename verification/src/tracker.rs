//! The displayed sensors of the client, one entry per sensor and module.

use vstd::prelude::*;

verus! {

/// A displayed sensor: its name, the module it belongs to, and what is shown.
#[derive(Debug)]
pub struct DisplayEntry<T> {
    pub name: String,
    pub module: String,
    pub payload: T,
}

/// Whether `i` is the first position among `entries` of the sensor `name`
/// of `module`.
pub open spec fn first_match<T>(entries: Seq<DisplayEntry<T>>, name: Seq<char>, module: Seq<char>, i: int) -> bool {
    &&& 0 <= i < entries.len()
    &&& entries[i].name@ == name && entries[i].module@ == module
    &&& forall|j: int| 0 <= j < i ==> !(entries[j].name@ == name && entries[j].module@ == module)
}

/// `entries` after `entry` was tracked: it replaces the first entry of the
/// same sensor and module, or, where there is none, is added at the end.
pub open spec fn after_track<T>(entries: Seq<DisplayEntry<T>>, entry: DisplayEntry<T>) -> Seq<DisplayEntry<T>> {
    if exists|i: int| first_match(entries, entry.name@, entry.module@, i) {
        entries.update(
            choose|i: int| first_match(entries, entry.name@, entry.module@, i),
            entry,
        )
    } else {
        entries.push(entry)
    }
}

/// Shows `entry` in place of the sensor's earlier entry (see [`after_track`]).
pub fn track<T>(entries: &mut Vec<DisplayEntry<T>>, entry: DisplayEntry<T>)
    ensures
        final(entries)@ == after_track(old(entries)@, entry),
        forall|i: int|
            #![trigger old(entries)@[i]]
            0 <= i < old(entries)@.len() && old(entries)@[i].name@ == entry.name@ && old(
                entries,
            )@[i].module@ == entry.module@ && (forall|j: int|
                0 <= j < i ==> !(old(entries)@[j].name@ == entry.name@ && old(entries)@[j].module@
                    == entry.module@)) ==> final(entries)@ == old(entries)@.update(i, entry),
        (forall|j: int|
            0 <= j < old(entries)@.len() ==> !(old(entries)@[j].name@ == entry.name@ && old(
                entries,
            )@[j].module@ == entry.module@)) ==> final(entries)@ == old(entries)@.push(entry),
{
    proof {
        assert forall|i: int|
            #![trigger entries@[i]]
            0 <= i < entries@.len() && entries@[i].name@ == entry.name@ && entries@[i].module@
                == entry.module@ && (forall|j: int|
                0 <= j < i ==> !(entries@[j].name@ == entry.name@ && entries@[j].module@
                    == entry.module@)) implies after_track(entries@, entry) == entries@.update(
            i,
            entry,
        ) by {
            lemma_track_in_place(entries@, entry, i);
        }
        lemma_track_new(entries@, entry);
    }
    let ghost old_e = entries@;
    let n = entries.len();
    let mut i: usize = 0;
    while i < n
        invariant
            n == entries@.len(),
            entries@ == old_e,
            old_e == old(entries)@,
            i <= n,
            forall|j: int|
                0 <= j < i ==> !(old_e[j].name@ == entry.name@ && old_e[j].module@ == entry.module@),
        decreases n - i,
    {
        if entries[i].name == entry.name && entries[i].module == entry.module {
            proof {
                assert(first_match(old_e, entry.name@, entry.module@, i as int));
                let c = choose|k: int| first_match(old_e, entry.name@, entry.module@, k);
                assert(first_match(old_e, entry.name@, entry.module@, c));
                if c < i {
                    assert(old_e[c].name@ == entry.name@ && old_e[c].module@ == entry.module@);
                    assert(false);
                } else if c > i {
                    assert(false);
                }
                assert(after_track(old_e, entry) == old_e.update(i as int, entry));
            }
            entries.set(i, entry);
            return;
        }
        i = i + 1;
    }
    entries.push(entry);
}


/// Whether no sensor of a module is displayed twice in `entries`.
pub open spec fn entries_distinct<T>(entries: Seq<DisplayEntry<T>>) -> bool {
    forall|i: int, j: int|
        0 <= i < j < entries.len() ==> !(entries[i].name@ == entries[j].name@
            && entries[i].module@ == entries[j].module@)
}

/// Tracking shows every sensor of a module once: entries that were distinct
/// stay distinct, and the tracked entry is among them.
pub proof fn lemma_track_keeps_distinct<T>(entries: Seq<DisplayEntry<T>>, entry: DisplayEntry<T>)
    requires
        entries_distinct(entries),
    ensures
        entries_distinct(after_track(entries, entry)),
        exists|i: int| 0 <= i < after_track(entries, entry).len() && after_track(entries, entry)[i]
            == entry,
{
    let r = after_track(entries, entry);
    if exists|i: int| first_match(entries, entry.name@, entry.module@, i) {
        let c = choose|i: int| first_match(entries, entry.name@, entry.module@, i);
        assert(r[c] == entry);
        assert forall|i: int, j: int| 0 <= i < j < r.len() implies !(r[i].name@ == r[j].name@
            && r[i].module@ == r[j].module@) by {
            if i != c && j != c {
                assert(r[i] == entries[i] && r[j] == entries[j]);
            } else if i == c {
                assert(r[j] == entries[j]);
            } else {
                assert(r[i] == entries[i]);
            }
        }
    } else {
        assert(r[entries.len() as int] == entry);
        assert forall|i: int, j: int| 0 <= i < j < r.len() implies !(r[i].name@ == r[j].name@
            && r[i].module@ == r[j].module@) by {
            if j == entries.len() {
                if entries[i].name@ == entry.name@ && entries[i].module@ == entry.module@ {
                    let w = i;
                    assert(exists|k: int| 0 <= k < entries.len() && entries[k].name@ == entry.name@
                        && entries[k].module@ == entry.module@);
                    lemma_first_match_exists(entries, entry.name@, entry.module@, w);
                }
            }
        }
    }
}

proof fn lemma_first_match_exists<T>(entries: Seq<DisplayEntry<T>>, name: Seq<char>, module: Seq<char>, w: int)
    requires
        0 <= w < entries.len(),
        entries[w].name@ == name && entries[w].module@ == module,
    ensures
        exists|i: int| first_match(entries, name, module, i),
    decreases w,
{
    if exists|j: int| 0 <= j < w && entries[j].name@ == name && entries[j].module@ == module {
        let j = choose|j: int| 0 <= j < w && entries[j].name@ == name && entries[j].module@ == module;
        lemma_first_match_exists(entries, name, module, j);
    } else {
        assert(first_match(entries, name, module, w));
    }
}

/// Tracking a sensor that is already shown replaces its first entry in
/// place: the number of entries and every other entry, with its position,
/// stay as they were, so the display order is kept.
pub proof fn lemma_track_in_place<T>(entries: Seq<DisplayEntry<T>>, entry: DisplayEntry<T>, i: int)
    requires
        0 <= i < entries.len(),
        entries[i].name@ == entry.name@,
        entries[i].module@ == entry.module@,
        forall|j: int|
            0 <= j < i ==> !(entries[j].name@ == entry.name@ && entries[j].module@
                == entry.module@),
    ensures
        after_track(entries, entry) == entries.update(i, entry),
        after_track(entries, entry).len() == entries.len(),
        forall|j: int|
            0 <= j < entries.len() && j != i ==> #[trigger] after_track(entries, entry)[j]
                == entries[j],
        after_track(entries, entry)[i] == entry,
{
    assert(first_match(entries, entry.name@, entry.module@, i));
    let c = choose|k: int| first_match(entries, entry.name@, entry.module@, k);
    assert(first_match(entries, entry.name@, entry.module@, c));
    if c < i {
        assert(entries[c].name@ == entry.name@ && entries[c].module@ == entry.module@);
        assert(false);
    } else if c > i {
        assert(false);
    }
}

/// Tracking a sensor that is not shown yet adds it after all the entries,
/// which stay as they were.
pub proof fn lemma_track_new<T>(entries: Seq<DisplayEntry<T>>, entry: DisplayEntry<T>)
    ensures
        (forall|j: int|
            0 <= j < entries.len() ==> !(entries[j].name@ == entry.name@ && entries[j].module@
                == entry.module@)) ==> after_track(entries, entry) == entries.push(entry),
{
    if exists|i: int| first_match(entries, entry.name@, entry.module@, i) {
        let c = choose|i: int| first_match(entries, entry.name@, entry.module@, i);
        assert(entries[c].name@ == entry.name@ && entries[c].module@ == entry.module@);
    }
}

} // verus!
