//! A set of names.

use crate::text::same;
use vstd::prelude::*;

verus! {

/// A set of names. It is small, so it is searched from end to end.
#[derive(Debug, Clone, PartialEq, Eq)]
pub struct NameSet {
    names: Vec<String>,
}

impl View for NameSet {
    type V = Set<Seq<char>>;

    closed spec fn view(&self) -> Set<Seq<char>> {
        Set::new(|name: Seq<char>| exists|i: int| is_at(self.names@, name, i))
    }
}

/// The name stands in place `i`.
closed spec fn is_at(names: Seq<String>, name: Seq<char>, i: int) -> bool {
    0 <= i < names.len() && names[i]@ == name
}

/// Without the name in place `i`, every other name is still there, and none is new.
proof fn taken_out(names: Seq<String>, i: int, name: Seq<char>)
    requires
        0 <= i < names.len(),
        names[i]@ != name,
    ensures
        (exists|k: int| is_at(names.remove(i), name, k)) == (exists|k: int| is_at(names, name, k)),
{
    let rest = names.remove(i);
    if exists|k: int| is_at(rest, name, k) {
        let k = choose|k: int| is_at(rest, name, k);
        assert(is_at(names, name, if k < i {
            k
        } else {
            k + 1
        }));
    }
    if exists|k: int| is_at(names, name, k) {
        let k = choose|k: int| is_at(names, name, k);
        assert(is_at(rest, name, if k < i {
            k
        } else {
            k - 1
        }));
    }
}

impl NameSet {
    pub fn new() -> (set: Self)
        ensures
            set@ == Set::<Seq<char>>::empty(),
    {
        let set = Self { names: Vec::new() };
        assert(set@ =~= Set::<Seq<char>>::empty()) by {
            assert(forall|name: Seq<char>, i: int| !is_at(set.names@, name, i));
        }
        set
    }

    pub fn contains(&self, name: &str) -> (r: bool)
        ensures
            r == self@.contains(name@),
    {
        let mut i: usize = 0;
        while i < self.names.len()
            invariant
                i <= self.names@.len(),
                forall|k: int| 0 <= k < i ==> (#[trigger] self.names@[k])@ != name@,
            decreases self.names@.len() - i,
        {
            if same(self.names[i].as_str(), name) {
                assert(is_at(self.names@, name@, i as int));
                return true;
            }
            i = i + 1;
        }
        assert(forall|k: int| !is_at(self.names@, name@, k));
        false
    }

    /// Puts a name in. Says whether it is new.
    pub fn insert(&mut self, name: String) -> (r: bool)
        ensures
            r == !old(self)@.contains(name@),
            final(self)@ == old(self)@.insert(name@),
    {
        if self.contains(name.as_str()) {
            assert(self@ =~= old(self)@.insert(name@));
            return false;
        }
        let ghost before = self.names@;
        let ghost added = name@;
        self.names.push(name);
        proof {
            let after = self.names@;
            assert forall|other: Seq<char>|
                #[trigger] self@.contains(other) == old(self)@.insert(added).contains(other) by {
                if exists|k: int| is_at(before, other, k) {
                    let k = choose|k: int| is_at(before, other, k);
                    assert(is_at(after, other, k));
                }
                if exists|k: int| is_at(after, other, k) {
                    let k = choose|k: int| is_at(after, other, k);
                    if k < before.len() {
                        assert(is_at(before, other, k));
                    }
                }
                assert(is_at(after, added, before.len() as int));
            }
            assert(self@ =~= old(self)@.insert(added));
        }
        true
    }

    /// Takes a name out. Says whether it was there.
    pub fn remove(&mut self, name: &str) -> (r: bool)
        ensures
            r == old(self)@.contains(name@),
            final(self)@ == old(self)@.remove(name@),
    {
        let mut removed = false;
        let mut i: usize = 0;
        while i < self.names.len()
            invariant
                i <= self.names@.len(),
                forall|k: int| 0 <= k < i ==> (#[trigger] self.names@[k])@ != name@,
                forall|other: Seq<char>|
                    other != name@ ==> #[trigger] self@.contains(other) == old(self)@.contains(
                        other,
                    ),
                removed ==> old(self)@.contains(name@),
                !removed ==> *self == *old(self),
            decreases self.names@.len() - i,
        {
            if same(self.names[i].as_str(), name) {
                let ghost before = self.names@;
                proof {
                    assert(is_at(before, name@, i as int));
                    assert(self@.contains(name@));
                }
                let ghost set = self@;
                let _taken = self.names.remove(i);
                removed = true;
                proof {
                    assert(self.names@ == before.remove(i as int));
                    assert forall|other: Seq<char>| other != name@ implies #[trigger] self@.contains(
                        other,
                    ) == old(self)@.contains(other) by {
                        assert(set.contains(other) == old(self)@.contains(other));
                        taken_out(before, i as int, other);
                    }
                }
            } else {
                i = i + 1;
            }
        }
        proof {
            assert(forall|k: int| !is_at(self.names@, name@, k));
            assert(!self@.contains(name@));
            assert(self@ =~= old(self)@.remove(name@));
        }
        removed
    }
}

} // verus!
