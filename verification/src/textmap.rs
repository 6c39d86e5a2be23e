//! A small map from texts to texts, which keeps one value for each key.

use crate::text::same_text;
use vstd::prelude::*;

verus! {

/// A map from texts to texts.
#[derive(Debug)]
pub struct TextMap {
    entries: Vec<(String, String)>,
}

impl TextMap {
    /// No key occurs twice.
    pub closed spec fn well_formed(&self) -> bool {
        forall|i: int, j: int|
            0 <= i < j < self.entries.len() ==> #[trigger] self.entries[i].0@
                != #[trigger] self.entries[j].0@
    }

    spec fn holds_at(&self, key: Seq<char>, i: int) -> bool {
        0 <= i < self.entries.len() && self.entries[i].0@ == key
    }

    proof fn lemma_value_at(&self, i: int)
        requires
            self.well_formed(),
            0 <= i < self.entries.len(),
        ensures
            self@.dom().contains(self.entries[i].0@),
            self@[self.entries[i].0@] == self.entries[i].1@,
    {
        let key = self.entries[i].0@;
        assert(self.holds_at(key, i));
        let j = choose|j: int| self.holds_at(key, j);
        assert(self.holds_at(key, j));
        assert(i == j) by {
            if i < j {
                assert(self.entries[i].0@ != self.entries[j].0@);
            } else if j < i {
                assert(self.entries[j].0@ != self.entries[i].0@);
            }
        }
    }

    /// The empty map.
    pub fn new() -> (r: TextMap)
        ensures
            r.well_formed(),
            r@ == Map::<Seq<char>, Seq<char>>::empty(),
    {
        let r = TextMap { entries: Vec::new() };
        assert(r@ =~= Map::empty()) by {
            assert forall|key: Seq<char>| !r@.dom().contains(key) by {
                assert(!exists|i: int| r.holds_at(key, i));
            }
        }
        r
    }

    fn position(&self, key: &str) -> (r: Option<usize>)
        ensures
            match r {
                Some(i) => i < self.entries.len() && self.entries[i as int].0@ == key@,
                None => forall|i: int|
                    0 <= i < self.entries.len() ==> #[trigger] self.entries[i].0@ != key@,
            },
    {
        let mut i: usize = 0;
        while i < self.entries.len()
            invariant
                i <= self.entries.len(),
                forall|j: int| 0 <= j < i ==> #[trigger] self.entries[j].0@ != key@,
            decreases self.entries.len() - i,
        {
            if same_text(self.entries[i].0.as_str(), key) {
                return Some(i);
            }
            i += 1;
        }
        None
    }

    /// The value of a key.
    pub fn get(&self, key: &str) -> (r: Option<&String>)
        requires
            self.well_formed(),
        ensures
            match r {
                Some(value) => self@.dom().contains(key@) && value@ == self@[key@],
                None => !self@.dom().contains(key@),
            },
    {
        match self.position(key) {
            Some(i) => {
                proof {
                    self.lemma_value_at(i as int);
                }
                Some(&self.entries[i].1)
            },
            None => {
                assert(!exists|i: int| self.holds_at(key@, i));
                None
            },
        }
    }

    /// Sets the value of a key.
    pub fn insert(&mut self, key: String, value: String)
        requires
            old(self).well_formed(),
        ensures
            final(self).well_formed(),
            final(self)@ == old(self)@.insert(key@, value@),
    {
        let ghost before = *self;
        let ghost key_text = key@;
        let ghost value_text = value@;
        let found = self.position(key.as_str());
        match found {
            Some(i) => {
                self.entries[i] = (key, value);
            },
            None => {
                self.entries.push((key, value));
            },
        }
        let ghost after = *self;
        let ghost at = match found {
            Some(i) => i as int,
            None => before.entries.len() as int,
        };
        assert forall|i: int| 0 <= i < before.entries.len() && i != at implies #[trigger] after.entries[i]
            == before.entries[i] by {}
        assert(after.entries[at].0@ == key_text && after.entries[at].1@ == value_text);
        assert(after.well_formed()) by {
            assert forall|i: int, j: int| 0 <= i < j < after.entries.len() implies #[trigger] after.entries[i].0@
                != #[trigger] after.entries[j].0@ by {
                if i < before.entries.len() && j < before.entries.len() {
                    assert(before.entries[i].0@ != before.entries[j].0@);
                }
            }
        }
        let ghost expected = before@.insert(key_text, value_text);
        assert(after@ =~= expected) by {
            assert forall|k: Seq<char>|
                (#[trigger] after@.dom().contains(k)) == expected.dom().contains(k) && (
                after@.dom().contains(k) ==> after@[k] == expected[k]) by {
                if k == key_text {
                    after.lemma_value_at(at);
                } else {
                    if after@.dom().contains(k) {
                        let i = choose|i: int| after.holds_at(k, i);
                        assert(after.holds_at(k, i) && i != at);
                        assert(before.entries[i] == after.entries[i]);
                        before.lemma_value_at(i);
                        after.lemma_value_at(i);
                    }
                    if before@.dom().contains(k) {
                        let i = choose|i: int| before.holds_at(k, i);
                        assert(before.holds_at(k, i));
                        assert(i != at);
                        assert(before.entries[i] == after.entries[i]);
                        after.lemma_value_at(i);
                    }
                }
            }
            assert(after@.dom() =~= expected.dom());
        }
    }
}

impl View for TextMap {
    type V = Map<Seq<char>, Seq<char>>;

    closed spec fn view(&self) -> Map<Seq<char>, Seq<char>> {
        Map::new(
            |key: Seq<char>| exists|i: int| self.holds_at(key, i),
            |key: Seq<char>| self.entries[choose|i: int| self.holds_at(key, i)].1@,
        )
    }
}

} // verus!
