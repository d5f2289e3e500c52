//! A map keyed by text.

use vstd::prelude::*;

use crate::text::same;

verus! {

/// A map from text to values, kept as a list in which no key occurs twice.
#[derive(Debug)]
pub struct TextMap<V> {
    entries: Vec<(String, V)>,
}

impl<V> View for TextMap<V> {
    type V = Map<Seq<char>, V>;

    closed spec fn view(&self) -> Map<Seq<char>, V> {
        Map::new(
            |key: Seq<char>| self.holds(key),
            |key: Seq<char>| self.entries@[self.place(key)].1,
        )
    }
}

impl<V> TextMap<V> {
    spec fn holds(self, key: Seq<char>) -> bool {
        exists|i: int| 0 <= i < self.entries@.len() && #[trigger] self.entries@[i].0@ == key
    }

    spec fn place(self, key: Seq<char>) -> int {
        choose|i: int| 0 <= i < self.entries@.len() && #[trigger] self.entries@[i].0@ == key
    }

    /// Whether no key occurs twice.
    pub closed spec fn wf(self) -> bool {
        forall|i: int, j: int|
            0 <= i < self.entries@.len() && 0 <= j < self.entries@.len() && i != j
                ==> #[trigger] self.entries@[i].0@ != #[trigger] self.entries@[j].0@
    }

    /// A map without entries.
    pub fn new() -> (map: Self)
        ensures
            map.wf(),
            map@ == Map::<Seq<char>, V>::empty(),
    {
        let map = TextMap { entries: Vec::new() };
        assert(map@ =~= Map::<Seq<char>, V>::empty());
        map
    }

    /// Where `key` stands, if it is held.
    fn find(&self, key: &str) -> (at: Option<usize>)
        requires
            self.wf(),
        ensures
            match at {
                Some(i) => {
                    &&& i < self.entries@.len()
                    &&& self.entries@[i as int].0@ == key@
                    &&& self@.dom().contains(key@)
                    &&& self@[key@] == self.entries@[i as int].1
                },
                None => !self@.dom().contains(key@) && !self.holds(key@),
            },
    {
        let mut i: usize = 0;
        while i < self.entries.len()
            invariant
                i <= self.entries@.len(),
                self.wf(),
                forall|j: int| 0 <= j < i ==> #[trigger] self.entries@[j].0@ != key@,
            decreases self.entries.len() - i,
        {
            if same(self.entries[i].0.as_str(), key) {
                assert(self.entries@[i as int].0@ == key@);
                assert(self.place(key@) == i);
                return Some(i);
            }
            i += 1;
        }
        None
    }

    /// The value of `key`, if it is held.
    pub fn get(&self, key: &str) -> (value: Option<&V>)
        requires
            self.wf(),
        ensures
            match value {
                Some(found) => self@.dom().contains(key@) && *found == self@[key@],
                None => !self@.dom().contains(key@),
            },
    {
        match self.find(key) {
            Some(i) => Some(&self.entries[i].1),
            None => None,
        }
    }

    /// Gives `key` the value `value` and hands back the value that it had.
    pub fn insert(&mut self, key: &str, value: V) -> (previous: Option<V>)
        requires
            old(self).wf(),
        ensures
            final(self).wf(),
            final(self)@ == old(self)@.insert(key@, value),
            previous == if old(self)@.dom().contains(key@) {
                Some(old(self)@[key@])
            } else {
                None
            },
    {
        let ghost before = *self;
        let previous = match self.find(key) {
            Some(i) => {
                let removed = self.entries.remove(i);
                assert forall|k: Seq<char>| k != key@ && before.holds(k) implies self.holds(k) by {
                    let j = before.place(k);
                    if j < i {
                        assert(self.entries@[j].0@ == k);
                    } else {
                        assert(self.entries@[j - 1].0@ == k);
                    }
                }
                assert(!self.holds(key@));
                Some(removed.1)
            },
            None => None,
        };
        let ghost middle = *self;
        self.entries.push((key.to_owned(), value));
        let ghost last = self.entries@.len() - 1;
        assert(self.entries@[last].0@ == key@);
        assert(self.place(key@) == last);
        assert forall|k: Seq<char>| k != key@ implies self.holds(k) == before.holds(k) && (
        before.holds(k) ==> self.entries@[self.place(k)].1 == before.entries@[before.place(k)].1) by {
            if before.holds(k) {
                let m = middle.place(k);
                assert(middle.holds(k));
                assert(self.entries@[m].0@ == k);
                assert(self.holds(k));
            }
            if self.holds(k) {
                let s = self.place(k);
                assert(middle.entries@[s].0@ == k);
                assert(middle.holds(k));
            }
        }
        assert(self@ =~= before@.insert(key@, value));
        previous
    }
}

} // verus!
