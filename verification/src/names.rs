//! A map whose keys are names.

use vstd::prelude::*;

use crate::target::Status;
use crate::text::same_text;

verus! {

/// A map from names to values. Where a name was entered twice, the first entry
/// is the one that counts.
#[derive(Clone, Debug)]
pub struct NameMap<V> {
    entries: Vec<(String, V)>,
}

impl<V: View> View for NameMap<V> {
    type V = Map<Seq<char>, V::V>;

    closed spec fn view(&self) -> Map<Seq<char>, V::V> {
        Map::new(
            |name: Seq<char>| self.has(name),
            |name: Seq<char>| self.entries@[self.first(name)].1@,
        )
    }
}

impl<V: View> Default for NameMap<V> {
    fn default() -> (r: Self)
        ensures
            r@ == Map::<Seq<char>, V::V>::empty(),
    {
        NameMap::new()
    }
}

impl<V: View> NameMap<V> {
    spec fn is_first(&self, name: Seq<char>, i: int) -> bool {
        &&& 0 <= i < self.entries@.len()
        &&& self.entries@[i].0@ == name
        &&& forall|j: int| 0 <= j < i ==> self.entries@[j].0@ != name
    }

    spec fn first(&self, name: Seq<char>) -> int {
        choose|i: int| self.is_first(name, i)
    }

    spec fn has(&self, name: Seq<char>) -> bool {
        exists|i: int| 0 <= i < self.entries@.len() && self.entries@[i].0@ == name
    }

    proof fn lemma_first(&self, name: Seq<char>, i: int)
        requires
            self.is_first(name, i),
        ensures
            self.first(name) == i,
            self.has(name),
    {
        let k = self.first(name);
        assert(self.is_first(name, k));
        if k < i {
            assert(self.entries@[k].0@ != name);
        }
    }

    proof fn lemma_first_up_to(&self, name: Seq<char>, i: int)
        requires
            0 <= i < self.entries@.len(),
            self.entries@[i].0@ == name,
        ensures
            self.is_first(name, self.first(name)),
        decreases i,
    {
        if exists|j: int| 0 <= j < i && self.entries@[j].0@ == name {
            let j = choose|j: int| 0 <= j < i && self.entries@[j].0@ == name;
            self.lemma_first_up_to(name, j);
        } else {
            assert(self.is_first(name, i));
        }
    }

    proof fn lemma_has_first(&self, name: Seq<char>)
        requires
            self.has(name),
        ensures
            self.is_first(name, self.first(name)),
    {
        let i = choose|i: int| 0 <= i < self.entries@.len() && self.entries@[i].0@ == name;
        self.lemma_first_up_to(name, i);
    }

    /// Giving the first entry of a name another value is an insertion.
    proof fn lemma_replace(old: Self, new: Self, name: Seq<char>, i: int)
        requires
            old.is_first(name, i),
            new.entries@.len() == old.entries@.len(),
            new.entries@[i].0 == old.entries@[i].0,
            forall|j: int|
                0 <= j < old.entries@.len() && j != i ==> new.entries@[j] == old.entries@[j],
        ensures
            new@ == old@.insert(name, new.entries@[i].1@),
    {
        assert forall|k: Seq<char>| #[trigger] new.has(k) == old.has(k) by {
            if old.has(k) {
                let j = choose|j: int| 0 <= j < old.entries@.len() && old.entries@[j].0@ == k;
                assert(new.entries@[j].0@ == k);
            }
            if new.has(k) {
                let j = choose|j: int| 0 <= j < new.entries@.len() && new.entries@[j].0@ == k;
                assert(old.entries@[j].0@ == k);
            }
        }
        assert(new.is_first(name, i));
        new.lemma_first(name, i);
        old.lemma_first(name, i);
        assert forall|k: Seq<char>| old.has(k) && k != name implies #[trigger] new@[k]
            == old@[k] by {
            old.lemma_has_first(k);
            let j = old.first(k);
            assert(new.is_first(k, j));
            new.lemma_first(k, j);
        }
        assert(new@ =~= old@.insert(name, new.entries@[i].1@));
    }

    /// Appending an entry for a new name is an insertion.
    proof fn lemma_append(old: Self, new: Self, entry: (String, V))
        requires
            !old.has(entry.0@),
            new.entries@ == old.entries@.push(entry),
        ensures
            new@ == old@.insert(entry.0@, entry.1@),
    {
        let n = old.entries@.len() as int;
        let name = entry.0@;
        assert(new.entries@[n] == entry);
        assert(new.is_first(name, n));
        new.lemma_first(name, n);
        assert forall|k: Seq<char>| k != name implies #[trigger] new.has(k) == old.has(k) by {
            if old.has(k) {
                let j = choose|j: int| 0 <= j < old.entries@.len() && old.entries@[j].0@ == k;
                assert(new.entries@[j].0@ == k);
            }
            if new.has(k) {
                let j = choose|j: int| 0 <= j < new.entries@.len() && new.entries@[j].0@ == k;
                assert(old.entries@[j].0@ == k);
            }
        }
        assert forall|k: Seq<char>| old.has(k) implies #[trigger] new@[k] == old@[k] by {
            old.lemma_has_first(k);
            let j = old.first(k);
            assert(new.is_first(k, j));
            new.lemma_first(k, j);
        }
        assert(new@ =~= old@.insert(name, entry.1@));
    }

    /// The empty map.
    pub fn new() -> (r: Self)
        ensures
            r@ == Map::<Seq<char>, V::V>::empty(),
    {
        let r: NameMap<V> = NameMap { entries: Vec::new() };
        assert(r@ =~= Map::<Seq<char>, V::V>::empty());
        r
    }

    fn position(&self, name: &str) -> (r: Option<usize>)
        ensures
            match r {
                Some(i) => self.is_first(name@, i as int),
                None => !self.has(name@),
            },
    {
        let mut i: usize = 0;
        while i < self.entries.len()
            invariant
                i <= self.entries@.len(),
                forall|j: int| 0 <= j < i ==> self.entries@[j].0@ != name@,
            decreases self.entries@.len() - i,
        {
            if same_text(self.entries[i].0.as_str(), name) {
                return Some(i);
            }
            i = i + 1;
        }
        None
    }

    /// The value of `name`.
    pub fn get(&self, name: &str) -> (r: Option<&V>)
        ensures
            match r {
                Some(v) => self@.contains_key(name@) && v@ == self@[name@],
                None => !self@.contains_key(name@),
            },
    {
        match self.position(name) {
            Some(i) => {
                proof {
                    self.lemma_first(name@, i as int);
                }
                Some(&self.entries[i].1)
            },
            None => None,
        }
    }

    /// The value of `name`, to be changed in place.
    pub fn get_mut(&mut self, name: &str) -> (r: Option<&mut V>)
        ensures
            match r {
                Some(v) => {
                    &&& old(self)@.contains_key(name@)
                    &&& v@ == old(self)@[name@]
                    &&& final(self)@ == old(self)@.insert(name@, final(v)@)
                },
                None => !old(self)@.contains_key(name@) && final(self)@ == old(self)@,
            },
    {
        match self.position(name) {
            Some(i) => {
                proof {
                    self.lemma_first(name@, i as int);
                    assert forall|new: Self|
                        new.entries@ == self.entries@.update(i as int, new.entries@[i as int])
                            && new.entries@[i as int].0
                            == self.entries@[i as int].0 implies #[trigger] new@ == self@.insert(
                        name@,
                        new.entries@[i as int].1@,
                    ) by {
                        Self::lemma_replace(*self, new, name@, i as int);
                    }
                }
                Some(&mut self.entries[i].1)
            },
            None => None,
        }
    }

    /// Gives `name` the value `value`.
    pub fn insert(&mut self, name: String, value: V)
        ensures
            final(self)@ == old(self)@.insert(name@, value@),
    {
        match self.position(name.as_str()) {
            Some(i) => {
                let ghost before = *self;
                self.entries[i].1 = value;
                proof {
                    Self::lemma_replace(before, *self, name@, i as int);
                }
            },
            None => {
                let ghost before = *self;
                self.entries.push((name, value));
                proof {
                    Self::lemma_append(before, *self, (name, value));
                }
            },
        }
    }
}

impl NameMap<Status> {
    fn agrees_with(&self, other: &NameMap<Status>) -> (r: bool)
        ensures
            r == forall|name: Seq<char>|
                self@.contains_key(name) ==> other@.contains_key(name) && other@[name]
                    == #[trigger] self@[name],
    {
        let mut i: usize = 0;
        while i < self.entries.len()
            invariant
                i <= self.entries@.len(),
                forall|j: int|
                    0 <= j < i ==> {
                        let name = #[trigger] self.entries@[j].0@;
                        other@.contains_key(name) && other@[name] == self@[name]
                    },
            decreases self.entries@.len() - i,
        {
            let name: &str = self.entries[i].0.as_str();
            assert(self@.contains_key(name@));
            match (self.get(name), other.get(name)) {
                (Some(mine), Some(theirs)) => {
                    if *mine != *theirs {
                        return false;
                    }
                },
                _ => {
                    return false;
                },
            }
            i = i + 1;
        }
        assert forall|name: Seq<char>| self@.contains_key(name) implies other@.contains_key(name)
            && other@[name] == #[trigger] self@[name] by {
            let j = choose|j: int| 0 <= j < self.entries@.len() && self.entries@[j].0@ == name;
            assert(self.entries@[j].0@ == name);
        }
        true
    }

    /// Whether both maps hold the same names with the same statuses.
    pub fn same(&self, other: &NameMap<Status>) -> (r: bool)
        ensures
            r == (self@ == other@),
    {
        let r: bool = self.agrees_with(other) && other.agrees_with(self);
        proof {
            if r {
                assert forall|name: Seq<char>|
                    #[trigger] self@.contains_key(name) == other@.contains_key(name) by {
                    let mine = self@[name];
                    let theirs = other@[name];
                }
                assert(self@ =~= other@);
            }
        }
        r
    }
}

} // verus!
