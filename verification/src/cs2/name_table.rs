//! A table keyed by byte strings, kept as the list of its insertions.
//!
//! A later insertion under a name shadows every earlier one, so the table
//! stands for a map from names to values in which the last write wins.

use vstd::prelude::*;
use vstd::slice::*;
use crate::process::bytes_equal;

verus! {

/// One insertion: a name and the value put under it.
pub struct Entry<T> {
    pub name: Vec<u8>,
    pub value: T,
}

/// The map that a list of insertions stands for.
pub open spec fn table_map<T>(entries: Seq<Entry<T>>) -> Map<Seq<u8>, T>
    decreases entries.len(),
{
    if entries.len() == 0 {
        Map::empty()
    } else {
        table_map(entries.drop_last()).insert(entries.last().name@, entries.last().value)
    }
}

/// An insertion under another name decides nothing about `name`.
pub proof fn lemma_table_map_skip<T>(entries: Seq<Entry<T>>, name: Seq<u8>)
    requires
        entries.len() > 0,
        entries.last().name@ != name,
    ensures
        table_map(entries).dom().contains(name) == table_map(entries.drop_last()).dom().contains(
            name,
        ),
        table_map(entries).dom().contains(name) ==> table_map(entries)[name] == table_map(
            entries.drop_last(),
        )[name],
{
}

/// A table from names to values.
pub struct NameTable<T> {
    pub entries: Vec<Entry<T>>,
}

impl<T> View for NameTable<T> {
    type V = Map<Seq<u8>, T>;

    open spec fn view(&self) -> Map<Seq<u8>, T> {
        table_map(self.entries@)
    }
}

impl<T> NameTable<T> {
    /// The empty table.
    pub fn new() -> (r: Self)
        ensures
            r@ == Map::<Seq<u8>, T>::empty(),
    {
        NameTable { entries: Vec::new() }
    }

    /// Puts `value` under `name`, in place of what was there.
    pub fn insert(&mut self, name: Vec<u8>, value: T)
        ensures
            final(self)@ == old(self)@.insert(name@, value),
    {
        let ghost before = self.entries@;
        self.entries.push(Entry { name, value });
        assert(self.entries@.drop_last() =~= before);
    }

    /// The value under `name`, if there is one.
    pub fn get(&self, name: &[u8]) -> (r: Option<&T>)
        ensures
            r == if self@.dom().contains(name@) {
                Some(&self@[name@])
            } else {
                None
            },
    {
        let mut i: usize = self.entries.len();
        assert(self.entries@.take(i as int) =~= self.entries@);
        while i > 0
            invariant
                i <= self.entries@.len(),
                self@.dom().contains(name@) == table_map(self.entries@.take(i as int)).dom().contains(
                    name@,
                ),
                self@.dom().contains(name@) ==> self@[name@] == table_map(
                    self.entries@.take(i as int),
                )[name@],
            decreases i,
        {
            let ghost upto = self.entries@.take(i as int);
            assert(upto.drop_last() =~= self.entries@.take(i - 1));
            assert(upto.last() == self.entries@[i - 1]);
            if bytes_equal(self.entries[i - 1].name.as_slice(), name) {
                return Some(&self.entries[i - 1].value);
            }
            proof {
                lemma_table_map_skip(upto, name@);
            }
            i -= 1;
        }
        None
    }
}

} // verus!
