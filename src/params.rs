//! The key/value parameters that configure a policy.
use vstd::prelude::*;
use crate::text::same_text;

verus! {

/// Parameters of a policy: text keys, each with one text value.
pub struct Params {
    entries: Vec<(String, String)>,
}

impl View for Params {
    type V = Map<Seq<char>, Seq<char>>;

    closed spec fn view(&self) -> Map<Seq<char>, Seq<char>> {
        Map::new(
            |k: Seq<char>| exists|i: int| 0 <= i < self.entries.len() && self.entries[i].0@ == k,
            |k: Seq<char>|
                self.entries[choose|i: int|
                    0 <= i < self.entries.len() && self.entries[i].0@ == k].1@,
        )
    }
}

impl Params {
    /// Well formed: no key appears twice.
    pub closed spec fn wf(&self) -> bool {
        forall|i: int, j: int|
            0 <= i < self.entries.len() && 0 <= j < self.entries.len() && i != j
                ==> self.entries[i].0@ != self.entries[j].0@
    }

    proof fn lemma_entry(&self, i: int)
        requires
            self.wf(),
            0 <= i < self.entries.len(),
        ensures
            self@.contains_key(self.entries[i].0@),
            self@[self.entries[i].0@] == self.entries[i].1@,
    {
        let k = self.entries[i].0@;
        assert(0 <= i < self.entries.len() && self.entries[i].0@ == k);
        let j = choose|j: int| 0 <= j < self.entries.len() && self.entries[j].0@ == k;
        assert(j == i);
    }

    /// Parameters with no key.
    pub fn new() -> (p: Params)
        ensures
            p.wf(),
            p@ == Map::<Seq<char>, Seq<char>>::empty(),
    {
        let p = Params { entries: Vec::new() };
        assert(p@ =~= Map::<Seq<char>, Seq<char>>::empty());
        p
    }

    /// Position of `key` among the entries.
    fn position(&self, key: &str) -> (r: Option<usize>)
        ensures
            match r {
                Some(i) => i < self.entries.len() && self.entries[i as int].0@ == key@,
                None => forall|i: int| 0 <= i < self.entries.len() ==> self.entries[i].0@ != key@,
            },
    {
        let mut i: usize = 0;
        while i < self.entries.len()
            invariant
                i <= self.entries.len(),
                forall|j: int| 0 <= j < i ==> self.entries[j].0@ != key@,
            decreases self.entries.len() - i,
        {
            if same_text(self.entries[i].0.as_str(), key) {
                return Some(i);
            }
            i = i + 1;
        }
        None
    }

    /// Sets `key` to `value`; a value it had before is replaced.
    pub fn insert(&mut self, key: &str, value: &str)
        requires
            old(self).wf(),
        ensures
            final(self).wf(),
            final(self)@ == old(self)@.insert(key@, value@),
    {
        let ghost before = *self;
        let entry = (key.to_owned(), value.to_owned());
        match self.position(key) {
            Some(i) => {
                self.entries.set(i, entry);
                proof {
                    self.lemma_entry(i as int);
                    assert forall|k: Seq<char>| #[trigger] before@.contains_key(k) && k != key@
                        implies self@.contains_key(k) && self@[k] == before@[k] by {
                        let j = choose|j: int| 0 <= j < before.entries.len() && before.entries[j].0@ == k;
                        before.lemma_entry(j);
                        self.lemma_entry(j);
                    }
                    assert forall|k: Seq<char>| #[trigger] self@.contains_key(k)
                        implies before@.contains_key(k) || k == key@ by {
                        let j = choose|j: int| 0 <= j < self.entries.len() && self.entries[j].0@ == k;
                        if j != i {
                            before.lemma_entry(j);
                        }
                    }
                    assert(self@ =~= before@.insert(key@, value@));
                }
            },
            None => {
                self.entries.push(entry);
                proof {
                    let n = before.entries.len() as int;
                    self.lemma_entry(n);
                    assert forall|k: Seq<char>| #[trigger] before@.contains_key(k) && k != key@
                        implies self@.contains_key(k) && self@[k] == before@[k] by {
                        let j = choose|j: int| 0 <= j < before.entries.len() && before.entries[j].0@ == k;
                        before.lemma_entry(j);
                        self.lemma_entry(j);
                    }
                    assert forall|k: Seq<char>| #[trigger] self@.contains_key(k)
                        implies before@.contains_key(k) || k == key@ by {
                        let j = choose|j: int| 0 <= j < self.entries.len() && self.entries[j].0@ == k;
                        if j != n {
                            before.lemma_entry(j);
                        }
                    }
                    assert(self@ =~= before@.insert(key@, value@));
                }
            },
        }
    }

    /// The value of `key`, if it has one.
    pub fn get(&self, key: &str) -> (r: Option<&str>)
        requires
            self.wf(),
        ensures
            match r {
                Some(v) => self@.contains_key(key@) && self@[key@] == v@,
                None => !self@.contains_key(key@),
            },
    {
        match self.position(key) {
            Some(i) => {
                proof {
                    self.lemma_entry(i as int);
                }
                Some(self.entries[i].1.as_str())
            },
            None => None,
        }
    }
}

} // verus!
