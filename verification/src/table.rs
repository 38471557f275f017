//! Values that are looked up by name.

use crate::text::same;
use vstd::prelude::*;

verus! {

/// What stands under one name.
#[derive(Debug, Clone)]
pub struct Entry<V> {
    pub name: String,
    pub value: V,
}

/// Values by name, at most one for each name.
#[derive(Debug, Clone)]
pub struct NameTable<V> {
    pub entries: Vec<Entry<V>>,
}

/// Some entry has the name.
pub open spec fn has_name<V>(entries: Seq<Entry<V>>, name: Seq<char>) -> bool {
    exists|i: int| 0 <= i < entries.len() && #[trigger] entries[i].name@ == name
}

/// The position of an entry with the name.
pub open spec fn position<V>(entries: Seq<Entry<V>>, name: Seq<char>) -> int {
    choose|i: int| 0 <= i < entries.len() && #[trigger] entries[i].name@ == name
}

impl<V> View for NameTable<V> {
    type V = Map<Seq<char>, V>;

    /// The values by name.
    open spec fn view(&self) -> Map<Seq<char>, V> {
        let entries = self.entries@;
        Map::new(
            |name: Seq<char>| has_name(entries, name),
            |name: Seq<char>| entries[position(entries, name)].value,
        )
    }
}

impl<V: Copy> NameTable<V> {
    /// No name occurs twice.
    pub open spec fn wf(self) -> bool {
        forall|i: int, j: int|
            0 <= i < j < self.entries@.len() ==> #[trigger] self.entries@[i].name@
                != #[trigger] self.entries@[j].name@
    }

    /// The entry at a position is what the table holds under its name.
    pub proof fn lemma_entry(self, i: int)
        requires
            self.wf(),
            0 <= i < self.entries@.len(),
        ensures
            self@.contains_key(self.entries@[i].name@),
            self@[self.entries@[i].name@] == self.entries@[i].value,
            position(self.entries@, self.entries@[i].name@) == i,
    {
        let name = self.entries@[i].name@;
        assert(has_name(self.entries@, name));
        let p = position(self.entries@, name);
        assert(0 <= p < self.entries@.len() && self.entries@[p].name@ == name);
    }

    /// A table holds the entries and nothing else: a name is in it exactly if an
    /// entry has the name, and then the value is the one of that entry.
    pub proof fn law_table_holds_its_entries(self, name: Seq<char>)
        requires
            self.wf(),
        ensures
            self@.contains_key(name) ==> exists|i: int|
                0 <= i < self.entries@.len() && #[trigger] self.entries@[i].name@ == name
                    && self.entries@[i].value == self@[name],
            forall|i: int|
                0 <= i < self.entries@.len() && #[trigger] self.entries@[i].name@ == name
                    ==> self@.contains_key(name) && self@[name] == self.entries@[i].value,
    {
        if self@.contains_key(name) {
            let i = position(self.entries@, name);
            self.lemma_entry(i);
        }
        assert forall|i: int|
            0 <= i < self.entries@.len() && #[trigger] self.entries@[i].name@
                == name implies self@.contains_key(name) && self@[name]
            == self.entries@[i].value by {
            self.lemma_entry(i);
        }
    }

    /// A table without entries.
    pub fn new() -> (table: NameTable<V>)
        ensures
            table.wf(),
            table@ == Map::<Seq<char>, V>::empty(),
            table.entries@.len() == 0,
    {
        let table = NameTable { entries: Vec::new() };
        proof {
            assert(table@ =~= Map::<Seq<char>, V>::empty());
        }
        table
    }

    /// The value under a name.
    pub fn get(&self, name: &str) -> (r: Option<V>)
        requires
            self.wf(),
        ensures
            r == (if self@.contains_key(name@) {
                Some(self@[name@])
            } else {
                None
            }),
    {
        let mut i: usize = 0;
        while i < self.entries.len()
            invariant
                i <= self.entries.len(),
                self.wf(),
                forall|j: int| 0 <= j < i ==> #[trigger] self.entries@[j].name@ != name@,
            decreases self.entries.len() - i,
        {
            if same(self.entries[i].name.as_str(), name) {
                proof {
                    self.lemma_entry(i as int);
                }
                return Some(self.entries[i].value);
            }
            i = i + 1;
        }
        None
    }

    /// Sets the value under a name, replacing what was there.
    pub fn insert(&mut self, name: String, value: V)
        requires
            old(self).wf(),
        ensures
            final(self).wf(),
            final(self)@ == old(self)@.insert(name@, value),
    {
        let ghost before = self.entries@;
        let mut i: usize = 0;
        while i < self.entries.len()
            invariant
                i <= self.entries.len(),
                self.wf(),
                old(self).wf(),
                self.entries@ == before,
                old(self).entries@ == before,
                forall|j: int| 0 <= j < i ==> #[trigger] before[j].name@ != name@,
            decreases self.entries.len() - i,
        {
            if same(self.entries[i].name.as_str(), name.as_str()) {
                let entry = Entry { name, value };
                self.entries.set(i, entry);
                proof {
                    let after = self.entries@;
                    assert forall|j: int| 0 <= j < after.len() implies #[trigger] after[j].name@
                        == before[j].name@ by {}
                    assert(self.wf());
                    assert forall|k: Seq<char>| has_name(after, k) == has_name(before, k) by {
                        if has_name(before, k) {
                            assert(after[position(before, k)].name@ == k);
                        }
                        if has_name(after, k) {
                            assert(before[position(after, k)].name@ == k);
                        }
                    }
                    assert forall|k: Seq<char>| has_name(after, k) implies #[trigger] self@[k]
                        == old(self)@.insert(name@, value)[k] by {
                        let p = position(after, k);
                        self.lemma_entry(p);
                        old(self).lemma_entry(p);
                        self.lemma_entry(i as int);
                    }
                    assert(before[i as int].name@ == name@);
                    assert(self@ =~= old(self)@.insert(name@, value));
                }
                return ;
            }
            i = i + 1;
        }
        let entry = Entry { name, value };
        self.entries.push(entry);
        proof {
            let after = self.entries@;
            assert(self.wf());
            assert(after[before.len() as int].name@ == name@);
            assert forall|k: Seq<char>| has_name(after, k) == (has_name(before, k) || k == name@) by {
                if has_name(before, k) {
                    assert(after[position(before, k)].name@ == k);
                }
                if has_name(after, k) && k != name@ {
                    assert(before[position(after, k)].name@ == k);
                }
            }
            assert forall|k: Seq<char>| has_name(after, k) implies #[trigger] self@[k] == old(
                self,
            )@.insert(name@, value)[k] by {
                let p = position(after, k);
                self.lemma_entry(p);
                if p < before.len() {
                    old(self).lemma_entry(p);
                }
            }
            assert(self@ =~= old(self)@.insert(name@, value));
        }
    }
}

} // verus!
