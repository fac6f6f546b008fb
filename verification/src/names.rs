//! A table of distinct names in the order in which they were first seen,
//! with a hashed index from each name to its place.

use vstd::hash_map::StringHashMap;
use vstd::prelude::*;

verus! {

/// No name stands at two places of `names`.
pub open spec fn distinct(names: Seq<Seq<char>>) -> bool {
    forall|i: int, j: int|
        0 <= i < names.len() && 0 <= j < names.len() && #[trigger] names[i] == #[trigger] names[j]
            ==> i == j
}

/// Place of `name` in `names`: the first one at which it stands, or the
/// length of `names` where it stands nowhere.
pub open spec fn place_of(names: Seq<Seq<char>>, name: Seq<char>) -> int
    decreases names.len(),
{
    if names.len() == 0 {
        0
    } else if names[0] == name {
        0
    } else {
        1 + place_of(names.drop_first(), name)
    }
}

/// `place_of` finds the name where it stands, and nothing before it.
pub proof fn lemma_place_of(names: Seq<Seq<char>>, name: Seq<char>)
    ensures
        0 <= place_of(names, name) <= names.len(),
        place_of(names, name) < names.len() ==> names[place_of(names, name)] == name,
        place_of(names, name) == names.len() <==> !names.contains(name),
        forall|i: int| 0 <= i < place_of(names, name) ==> names[i] != name,
    decreases names.len(),
{
    if names.len() > 0 && names[0] != name {
        let rest = names.drop_first();
        lemma_place_of(rest, name);
        assert forall|i: int| 0 <= i < place_of(names, name) implies names[i] != name by {
            if i > 0 {
                assert(names[i] == rest[i - 1]);
            }
        }
        if place_of(rest, name) < rest.len() {
            assert(names[place_of(names, name)] == rest[place_of(rest, name)]);
        }
        if names.contains(name) {
            let k = choose|k: int| 0 <= k < names.len() && names[k] == name;
            assert(rest[k - 1] == name);
        }
    }
}

/// Where a name stands in a table without repeats is its place.
pub proof fn lemma_place_of_distinct(names: Seq<Seq<char>>, i: int)
    requires
        distinct(names),
        0 <= i < names.len(),
    ensures
        place_of(names, names[i]) == i,
{
    lemma_place_of(names, names[i]);
}

/// A new name stands at the end, and every other name keeps its place, or
/// stays without one.
pub proof fn lemma_place_of_push(names: Seq<Seq<char>>, added: Seq<char>, name: Seq<char>)
    requires
        !names.contains(added),
    ensures
        place_of(names.push(added), added) == names.len(),
        name != added && place_of(names, name) < names.len() ==> place_of(
            names.push(added),
            name,
        ) == place_of(names, name),
        name != added && place_of(names, name) == names.len() ==> place_of(
            names.push(added),
            name,
        ) == names.len() + 1,
{
    let more = names.push(added);
    lemma_place_of(names, name);
    lemma_place_of(more, name);
    lemma_place_of(more, added);
    assert(more[names.len() as int] == added);
    if place_of(more, added) < names.len() {
        assert(names[place_of(more, added)] == more[place_of(more, added)]);
    }
    if name != added {
        let q = place_of(more, name);
        if q < more.len() {
            assert(q < names.len());
            assert(names[q] == more[q]);
        }
        if place_of(names, name) < names.len() {
            let p = place_of(names, name);
            assert(more[p] == name);
            if q < p {
                assert(names[q] == more[q]);
            }
        }
    }
}

/// Distinct names, each at the place at which it was added.
pub struct NameTable {
    names: Vec<String>,
    index: StringHashMap<usize>,
}

impl View for NameTable {
    type V = Seq<Seq<char>>;

    closed spec fn view(&self) -> Seq<Seq<char>> {
        Seq::new(self.names@.len(), |i: int| self.names@[i]@)
    }
}

impl NameTable {
    /// The index holds each name of the table with its place, and no other.
    pub closed spec fn wf(&self) -> bool {
        &&& forall|i: int|
            0 <= i < self.names@.len() ==> self.index@.contains_key(#[trigger] self.names@[i]@)
                && self.index@[self.names@[i]@] == i
        &&& forall|name: Seq<char>| #[trigger]
            self.index@.contains_key(name) ==> 0 <= self.index@[name] < self.names@.len()
                && self.names@[self.index@[name] as int]@ == name
    }

    /// The names of a table are distinct.
    pub proof fn lemma_distinct(&self)
        requires
            self.wf(),
        ensures
            distinct(self@),
    {
        assert forall|i: int, j: int|
            0 <= i < self@.len() && 0 <= j < self@.len() && #[trigger] self@[i]
                == #[trigger] self@[j] implies i == j by {
            assert(self.index@[self.names@[i]@] == i);
            assert(self.index@[self.names@[j]@] == j);
        }
    }

    /// An empty table.
    pub fn new() -> (table: Self)
        ensures
            table.wf(),
            table@ == Seq::<Seq<char>>::empty(),
    {
        let table = NameTable { names: Vec::new(), index: StringHashMap::new() };
        assert(table@ =~= Seq::<Seq<char>>::empty());
        table
    }

    /// Number of names.
    pub fn len(&self) -> (n: usize)
        ensures
            n == self@.len(),
    {
        self.names.len()
    }

    /// The name at place `i`.
    pub fn name(&self, i: usize) -> (name: &String)
        requires
            i < self@.len(),
        ensures
            name@ == self@[i as int],
    {
        &self.names[i]
    }

    /// The place of `name`, where the table holds it.
    pub fn find(&self, name: &str) -> (place: Option<usize>)
        requires
            self.wf(),
        ensures
            match place {
                Some(i) => i < self@.len() && self@[i as int] == name@ && place_of(self@, name@)
                    == i,
                None => !self@.contains(name@) && place_of(self@, name@) == self@.len(),
            },
    {
        proof {
            lemma_place_of(self@, name@);
            self.lemma_distinct();
        }
        match self.index.get(name) {
            Some(i) => {
                proof {
                    lemma_place_of_distinct(self@, *i as int);
                }
                Some(*i)
            },
            None => {
                proof {
                    if self@.contains(name@) {
                        let k = choose|k: int| 0 <= k < self@.len() && self@[k] == name@;
                        assert(self.index@.contains_key(self.names@[k]@));
                    }
                }
                None
            },
        }
    }

    /// Adds a name that the table does not hold yet, at the end.
    pub fn add(&mut self, name: String) -> (place: usize)
        requires
            old(self).wf(),
            !old(self)@.contains(name@),
        ensures
            final(self).wf(),
            final(self)@ == old(self)@.push(name@),
            place == old(self)@.len(),
    {
        let place = self.names.len();
        let ghost added = name@;
        proof {
            if self.index@.contains_key(added) {
                let k = self.index@[added] as int;
                assert(self@[k] == added);
            }
        }
        let key = name.clone();
        self.index.insert(key, place);
        self.names.push(name);
        proof {
            assert(self@ =~= old(self)@.push(added));
            assert forall|i: int| 0 <= i < self.names@.len() implies self.index@.contains_key(
                #[trigger] self.names@[i]@,
            ) && self.index@[self.names@[i]@] == i by {
                if i < place {
                    assert(old(self).names@[i]@ == self.names@[i]@);
                    assert(old(self)@[i] == old(self).names@[i]@);
                }
            }
            assert forall|n: Seq<char>| #[trigger] self.index@.contains_key(n) implies 0
                <= self.index@[n] < self.names@.len() && self.names@[self.index@[n] as int]@
                == n by {
                if n != added {
                    assert(old(self).index@.contains_key(n));
                }
            }
        }
        place
    }
}

impl Clone for NameTable {
    /// A table of its own with the same names at the same places.
    fn clone(&self) -> (copy: Self)
        ensures
            copy.wf(),
            self.wf() ==> copy@ == self@,
    {
        let mut copy = NameTable::new();
        let n = self.names.len();
        let mut i: usize = 0;
        proof {
            if self.wf() {
                self.lemma_distinct();
            }
        }
        while i < n
            invariant
                self.wf() ==> distinct(self@),
                n == self@.len(),
                n == self.names@.len(),
                0 <= i <= n,
                copy.wf(),
                self.wf() ==> copy@ == self@.subrange(0, i as int),
            decreases n - i,
        {
            let name = self.names[i].clone();
            proof {
                let seen = self@.subrange(0, i as int);
                assert(name@ == self@[i as int]);
                if self.wf() && seen.contains(name@) {
                    let k = choose|k: int| 0 <= k < seen.len() && seen[k] == name@;
                    assert(self@[k] == self@[i as int]);
                }
            }
            if copy.find(name.as_str()).is_none() {
                copy.add(name);
            }
            i = i + 1;
            assert(self.wf() ==> copy@ =~= self@.subrange(0, i as int));
        }
        assert(self.wf() ==> copy@ =~= self@);
        copy
    }
}

} // verus!
