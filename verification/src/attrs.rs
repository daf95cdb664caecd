//! Attribute tables: the name-to-value tables that types, modules and scopes
//! own.

use vstd::prelude::*;
use crate::pyobject::ObjRef;

verus! {

/// One binding of a table.
#[derive(Clone, PartialEq, Eq, Debug)]
pub struct Attribute {
    pub name: String,
    pub value: ObjRef,
}

/// A table from names to object handles. No name occurs twice; the order of
/// the entries carries no meaning.
#[derive(Clone, PartialEq, Eq, Debug)]
pub struct AttrTable {
    pub entries: Vec<Attribute>,
}

impl AttrTable {
    /// Some entry binds `name`.
    pub open spec fn has(&self, name: Seq<char>) -> bool {
        exists|i: int| 0 <= i < self.entries@.len() && (#[trigger] self.entries@[i]).name@ == name
    }

    /// The position of an entry that binds `name`.
    pub open spec fn position(&self, name: Seq<char>) -> int {
        choose|i: int| 0 <= i < self.entries@.len() && (#[trigger] self.entries@[i]).name@ == name
    }

    /// No name is bound twice.
    pub open spec fn wf(&self) -> bool {
        forall|i: int, j: int|
            0 <= i < j < self.entries@.len() ==> (#[trigger] self.entries@[i]).name@ != (
            #[trigger] self.entries@[j]).name@
    }

    /// Every bound value is a handle below `limit`.
    pub open spec fn values_below(&self, limit: int) -> bool {
        forall|i: int| 0 <= i < self.entries@.len() ==> (#[trigger] self.entries@[i]).value.index < limit
    }

    /// The entry at `i` is what the table, read as a map, holds for its name.
    pub proof fn lemma_entry(&self, i: int)
        requires
            self.wf(),
            0 <= i < self.entries@.len(),
        ensures
            self@.contains_key(self.entries@[i].name@),
            self@[self.entries@[i].name@] == self.entries@[i].value,
            self.position(self.entries@[i].name@) == i,
    {
    }

    /// A table whose values are handles below `limit` maps every name it
    /// binds to such a handle.
    pub proof fn lemma_values_below(&self, limit: int, name: Seq<char>)
        requires
            self.wf(),
            self.values_below(limit),
            self@.contains_key(name),
        ensures
            self@[name].index < limit,
    {
    }

    /// The empty table.
    pub fn new() -> (table: AttrTable)
        ensures
            table.wf(),
            table.entries@.len() == 0,
            table@ == Map::<Seq<char>, ObjRef>::empty(),
    {
        let table = AttrTable { entries: Vec::new() };
        table
    }

    /// The number of names bound.
    pub fn len(&self) -> (n: usize)
        ensures
            n == self.entries@.len(),
    {
        self.entries.len()
    }

    /// The value bound to `name`, if the table binds it.
    pub fn get(&self, name: &str) -> (found: Option<ObjRef>)
        requires
            self.wf(),
        ensures
            found == (if self@.contains_key(name@) {
                Some(self@[name@])
            } else {
                None
            }),
    {
        let key = String::from_str(name);
        let mut i: usize = 0;
        while i < self.entries.len()
            invariant
                self.wf(),
                key@ == name@,
                i <= self.entries@.len(),
                forall|j: int| 0 <= j < i ==> (#[trigger] self.entries@[j]).name@ != name@,
            decreases self.entries@.len() - i,
        {
            if self.entries[i].name == key {
                proof {
                    self.lemma_entry(i as int);
                }
                return Some(self.entries[i].value);
            }
            i = i + 1;
        }
        None
    }

    /// Binds `name` to `value`, replacing an earlier binding of the name.
    pub fn insert(&mut self, name: String, value: ObjRef)
        requires
            old(self).wf(),
        ensures
            final(self).wf(),
            final(self)@ == old(self)@.insert(name@, value),
            forall|limit: int|
                old(self).values_below(limit) && value.index < limit ==> #[trigger] final(self).values_below(limit),
    {
        let ghost before = *self;
        let ghost key = name@;
        let mut i: usize = 0;
        while i < self.entries.len()
            invariant
                *self == before,
                before == *old(self),
                before.wf(),
                key == name@,
                i <= self.entries@.len(),
                forall|j: int| 0 <= j < i ==> (#[trigger] self.entries@[j]).name@ != key,
            decreases self.entries@.len() - i,
        {
            if self.entries[i].name == name {
                self.entries.set(i, Attribute { name, value });
                proof {
                    let after = *self;
                    assert(forall|j: int|
                        0 <= j < after.entries@.len() ==> (#[trigger] after.entries@[j]).name@
                            == before.entries@[j].name@);
                    assert forall|n: Seq<char>| after.has(n) <==> before@.insert(key, value).contains_key(n) by {
                        if before.has(n) {
                            let p = before.position(n);
                            assert(after.entries@[p].name@ == n);
                        }
                    }
                    assert forall|n: Seq<char>| after.has(n) implies after@[n] == before@.insert(key, value)[n] by {
                        let p = after.position(n);
                        after.lemma_entry(p);
                        if p != i {
                            before.lemma_entry(p);
                        }
                    }
                    assert forall|limit: int|
                        before.values_below(limit) && value.index < limit implies #[trigger] after.values_below(
                        limit) by {
                        assert forall|j: int| 0 <= j < after.entries@.len() implies (
                        #[trigger] after.entries@[j]).value.index < limit by {
                        }
                    }
                }
                return ;
            }
            i = i + 1;
        }
        self.entries.push(Attribute { name, value });
        proof {
            let after = *self;
            let last = before.entries@.len() as int;
            assert(after.entries@ == before.entries@.push(after.entries@[last]));
            assert forall|n: Seq<char>| after.has(n) <==> before@.insert(key, value).contains_key(n) by {
                if before.has(n) {
                    let p = before.position(n);
                    assert(after.entries@[p].name@ == n);
                }
            }
            assert forall|n: Seq<char>| after.has(n) implies after@[n] == before@.insert(key, value)[n] by {
                let p = after.position(n);
                after.lemma_entry(p);
                if p != last {
                    before.lemma_entry(p);
                }
            }
            assert forall|limit: int|
                before.values_below(limit) && value.index < limit implies #[trigger] after.values_below(limit) by {
                assert forall|j: int| 0 <= j < after.entries@.len() implies (
                #[trigger] after.entries@[j]).value.index < limit by {
                }
            }
        }
    }
}

impl View for AttrTable {
    type V = Map<Seq<char>, ObjRef>;

    open spec fn view(&self) -> Map<Seq<char>, ObjRef> {
        Map::new(|name: Seq<char>| self.has(name), |name: Seq<char>| self.entries@[self.position(name)].value)
    }
}

} // verus!
