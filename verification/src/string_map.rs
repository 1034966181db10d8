//! An ordered map of string keys to string values; a key occurs at most once.

use vstd::prelude::*;
use crate::text::str_eq;

verus! {

/// The abstract contents of a `StringMap`: its entries in insertion order.
pub open spec fn entries_view(v: Seq<(String, String)>) -> Seq<(Seq<char>, Seq<char>)> {
    v.map_values(|e: (String, String)| (e.0@, e.1@))
}

/// No name occurs twice.
pub open spec fn names_distinct(s: Seq<(Seq<char>, Seq<char>)>) -> bool {
    forall|i: int, j: int| 0 <= i < s.len() && 0 <= j < s.len() && i != j ==> s[i].0 != s[j].0
}

/// Index of the entry named `k`, if any.
pub open spec fn index_of_name(s: Seq<(Seq<char>, Seq<char>)>, k: Seq<char>) -> Option<int> {
    if exists|i: int| 0 <= i < s.len() && s[i].0 == k {
        Some(choose|i: int| 0 <= i < s.len() && s[i].0 == k)
    } else {
        None
    }
}

/// The entries after setting `k` to `v`: an existing entry keeps its place
/// and gets the new value; otherwise the entry is added at the end.
pub open spec fn map_insert(s: Seq<(Seq<char>, Seq<char>)>, k: Seq<char>, v: Seq<char>) -> Seq<(Seq<char>, Seq<char>)> {
    match index_of_name(s, k) {
        Some(i) => s.update(i, (k, v)),
        None => s.push((k, v)),
    }
}

/// Entries held in insertion order; a key occurs at most once.
#[derive(Debug)]
pub struct StringMap {
    entries: Vec<(String, String)>,
}

impl View for StringMap {
    type V = Seq<(Seq<char>, Seq<char>)>;

    closed spec fn view(&self) -> Seq<(Seq<char>, Seq<char>)> {
        entries_view(self.entries@)
    }
}

impl StringMap {
    #[verifier::type_invariant]
    spec fn inv(self) -> bool {
        names_distinct(entries_view(self.entries@))
    }

    /// Every entry of `self` is an entry of `other` and both have as many
    /// entries: with unique names this is equality of the two maps.
    pub open spec fn same_entries(self, other: StringMap) -> bool {
        &&& self@.len() == other@.len()
        &&& forall|i: int| 0 <= i < self@.len() ==> other@.contains(#[trigger] self@[i])
    }

    /// An empty map.
    pub fn new() -> (m: StringMap)
        ensures
            m@ == Seq::<(Seq<char>, Seq<char>)>::empty(),
    {
        let m = StringMap { entries: Vec::new() };
        assert(m@ =~= Seq::<(Seq<char>, Seq<char>)>::empty());
        m
    }

    /// Number of entries.
    pub fn len(&self) -> (n: usize)
        ensures
            n == self@.len(),
    {
        self.entries.len()
    }

    /// Whether there are no entries.
    pub fn is_empty(&self) -> (b: bool)
        ensures
            b == (self@.len() == 0),
    {
        self.entries.len() == 0
    }

    /// The `i`-th entry, in insertion order.
    pub fn entry(&self, i: usize) -> (e: (&String, &String))
        requires
            i < self@.len(),
        ensures
            e.0@ == self@[i as int].0,
            e.1@ == self@[i as int].1,
    {
        let e = &self.entries[i];
        (&e.0, &e.1)
    }

    /// Position of the entry named `name`.
    pub fn position(&self, name: &str) -> (r: Option<usize>)
        ensures
            match index_of_name(self@, name@) {
                Some(i) => r matches Some(j) && j == i && 0 <= i < self@.len() && self@[i].0 == name@,
                None => r is None,
            },
    {
        proof { use_type_invariant(self); }
        let mut i: usize = 0;
        while i < self.entries.len()
            invariant
                i <= self@.len(),
                self@.len() == self.entries@.len(),
                names_distinct(self@),
                forall|j: int| 0 <= j < i ==> self@[j].0 != name@,
            decreases self@.len() - i,
        {
            assert(self@[i as int] == (self.entries@[i as int].0@, self.entries@[i as int].1@));
            if str_eq(self.entries[i].0.as_str(), name) {
                proof {
                    assert(self@[i as int].0 == name@);
                    let k = choose|k: int| 0 <= k < self@.len() && self@[k].0 == name@;
                    assert(k == i);
                }
                return Some(i);
            }
            i = i + 1;
        }
        None
    }

    /// The value stored under `name`.
    pub fn get(&self, name: &str) -> (r: Option<&String>)
        ensures
            match index_of_name(self@, name@) {
                Some(i) => r matches Some(v) && v@ == self@[i].1,
                None => r is None,
            },
    {
        match self.position(name) {
            Some(i) => {
                proof {
                    let k = index_of_name(self@, name@)->0;
                    assert(k == i as int);
                }
                assert(self@[i as int] == (self.entries@[i as int].0@, self.entries@[i as int].1@));
                Some(&self.entries[i].1)
            },
            None => None,
        }
    }

    /// Sets `name` to `value`: an existing entry keeps its place and gets the
    /// new value; otherwise the entry is added at the end.
    pub fn insert(&mut self, name: String, value: String)
        ensures
            final(self)@ == map_insert(old(self)@, name@, value@),
    {
        proof { use_type_invariant(&*self); }
        match self.position(name.as_str()) {
            Some(i) => {
                let ghost before = self@;
                let mut entries = Vec::new();
                std::mem::swap(&mut entries, &mut self.entries);
                let ghost ev = entries@;
                entries.set(i, (name, value));
                proof {
                    assert(entries_view(entries@) =~= before.update(i as int, (name@, value@)));
                    assert(names_distinct(entries_view(entries@)));
                }
                self.entries = entries;
            }
            None => {
                let ghost before = self@;
                let mut entries = Vec::new();
                std::mem::swap(&mut entries, &mut self.entries);
                entries.push((name, value));
                proof {
                    assert(entries_view(entries@) =~= before.push((name@, value@)));
                    assert(names_distinct(entries_view(entries@)));
                }
                self.entries = entries;
            }
        }
    }

    /// A copy with the same entries in the same order.
    pub fn duplicate(&self) -> (r: StringMap)
        ensures
            r@ == self@,
    {
        proof { use_type_invariant(self); }
        let mut out: Vec<(String, String)> = Vec::new();
        let mut i: usize = 0;
        while i < self.entries.len()
            invariant
                i <= self.entries@.len(),
                entries_view(out@) == self@.subrange(0, i as int),
                self@ == entries_view(self.entries@),
            decreases self.entries@.len() - i,
        {
            let k = self.entries[i].0.clone();
            let v = self.entries[i].1.clone();
            let ghost before = out@;
            out.push((k, v));
            proof {
                assert(out@ == before.push((k, v)));
                assert(self@[i as int] == (self.entries@[i as int].0@, self.entries@[i as int].1@));
                assert(entries_view(out@) =~= entries_view(before).push((k@, v@)));
                assert(entries_view(out@) =~= self@.subrange(0, i + 1));
            }
            i = i + 1;
        }
        proof {
            assert(self@.subrange(0, self@.len() as int) =~= self@);
        }
        StringMap { entries: out }
    }

    /// Whether both maps hold the same entries (order aside).
    pub fn equals(&self, other: &StringMap) -> (b: bool)
        ensures
            b == self.same_entries(*other),
    {
        proof { use_type_invariant(other); }
        if self.entries.len() != other.entries.len() {
            return false;
        }
        let mut i: usize = 0;
        while i < self.entries.len()
            invariant
                i <= self@.len(),
                self@.len() == other@.len(),
                self@.len() == self.entries@.len(),
                forall|j: int| 0 <= j < i ==> other@.contains(#[trigger] self@[j]),
                names_distinct(other@),
            decreases self@.len() - i,
        {
            let name = self.entries[i].0.as_str();
            match other.position(name) {
                Some(j) => {
                    if !str_eq(other.entries[j].1.as_str(), self.entries[i].1.as_str()) {
                        proof {
                            if other@.contains(self@[i as int]) {
                                let k = choose|k: int| 0 <= k < other@.len() && other@[k] == self@[i as int];
                                assert(other@[k].0 == other@[j as int].0);
                            }
                        }
                        return false;
                    }
                    proof {
                        assert(other@[j as int] == self@[i as int]);
                    }
                }
                None => {
                    proof {
                        if other@.contains(self@[i as int]) {
                            let k = choose|k: int| 0 <= k < other@.len() && other@[k] == self@[i as int];
                            assert(other@[k].0 == self@[i as int].0);
                        }
                    }
                    return false;
                }
            }
            i = i + 1;
        }
        true
    }
}

} // verus!
