//! Small tables keyed by name, kept as lists of entries.
//!
//! A table is read as a map: of two entries with the same name the later
//! one counts.  `put` overwrites in place, so a name occurs once in a table
//! that only `put` has filled.

use vstd::prelude::*;

verus! {

/// The map that a list of entries stands for.
pub open spec fn table<T: View>(entries: Seq<(String, T)>) -> Map<Seq<char>, T::V>
    decreases entries.len(),
{
    if entries.len() == 0 {
        Map::empty()
    } else {
        table(entries.drop_last()).insert(entries.last().0@, entries.last().1@)
    }
}

/// Pushing an entry binds its name.
pub proof fn lemma_table_push<T: View>(entries: Seq<(String, T)>, entry: (String, T))
    ensures
        table(entries.push(entry)) == table(entries).insert(entry.0@, entry.1@),
{
    assert(entries.push(entry).drop_last() =~= entries);
}

/// Replacing the last entry of a name rebinds the name.
pub proof fn lemma_table_update<T: View>(entries: Seq<(String, T)>, i: int, entry: (String, T))
    requires
        0 <= i < entries.len(),
        entries[i].0@ == entry.0@,
        forall|j: int| i < j < entries.len() ==> (#[trigger] entries[j]).0@ != entry.0@,
    ensures
        table(entries.update(i, entry)) == table(entries).insert(entry.0@, entry.1@),
    decreases entries.len(),
{
    let updated = entries.update(i, entry);
    if i == entries.len() - 1 {
        assert(updated.drop_last() =~= entries.drop_last());
        assert(table(updated) =~= table(entries).insert(entry.0@, entry.1@));
    } else {
        lemma_table_update(entries.drop_last(), i, entry);
        assert(updated.drop_last() =~= entries.drop_last().update(i, entry));
        assert(updated.last() == entries.last());
        assert(table(updated) =~= table(entries).insert(entry.0@, entry.1@));
    }
}

/// The place of the last entry named `key`.
pub fn find<T: View>(entries: &Vec<(String, T)>, key: &String) -> (found: Option<usize>)
    ensures
        match found {
            Some(i) => {
                &&& i < entries@.len()
                &&& entries@[i as int].0@ == key@
                &&& forall|j: int| i < j < entries@.len() ==> (#[trigger] entries@[j]).0@ != key@
                &&& table(entries@).contains_key(key@)
                &&& table(entries@)[key@] == entries@[i as int].1@
            },
            None => !table(entries@).contains_key(key@),
        },
{
    let mut i: usize = entries.len();
    proof {
        assert(entries@.take(i as int) =~= entries@);
    }
    while i > 0
        invariant
            i <= entries@.len(),
            forall|j: int| i <= j < entries@.len() ==> (#[trigger] entries@[j]).0@ != key@,
            table(entries@).contains_key(key@) == table(entries@.take(i as int)).contains_key(
                key@,
            ),
            table(entries@).contains_key(key@) ==> table(entries@)[key@] == table(
                entries@.take(i as int),
            )[key@],
        decreases i,
    {
        proof {
            assert(entries@.take(i as int).drop_last() =~= entries@.take(i - 1));
        }
        i -= 1;
        if entries[i].0 == *key {
            return Some(i);
        }
    }
    proof {
        assert(entries@.take(0).len() == 0);
    }
    None
}

/// Binds `key` to `value`: in place where the table has the name, at the
/// end where it has not.
pub fn put<T: View>(entries: &mut Vec<(String, T)>, key: String, value: T)
    ensures
        table(final(entries)@) == table(old(entries)@).insert(key@, value@),
{
    match find(entries, &key) {
        Some(i) => {
            proof {
                lemma_table_update(entries@, i as int, (key, value));
            }
            entries.set(i, (key, value));
        },
        None => {
            proof {
                lemma_table_push(entries@, (key, value));
            }
            entries.push((key, value));
        },
    }
}

} // verus!
