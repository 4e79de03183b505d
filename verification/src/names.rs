//! Sets of names.

use vstd::prelude::*;

verus! {

/// The texts of a sequence of strings.
pub open spec fn texts(names: Seq<String>) -> Seq<Seq<char>> {
    names.map_values(|name: String| name@)
}

/// The set has this many elements.
pub open spec fn has_size(set: Set<Seq<char>>, size: nat) -> bool {
    set.finite() && set.len() == size
}

/// The list holds each name of the set, once, and no other.
pub open spec fn lists(names: Seq<String>, set: Set<Seq<char>>) -> bool {
    &&& forall|i: int| 0 <= i < names.len() ==> set.contains((#[trigger] names[i])@)
    &&& forall|i: int, j: int|
        0 <= i < j < names.len() ==> (#[trigger] names[i])@ != (#[trigger] names[j])@
    &&& forall|name: Seq<char>| #[trigger]
        set.contains(name) ==> exists|i: int| 0 <= i < names.len() && (#[trigger] names[i])@ == name
}

/// A list without duplicates that has the names of a set holds each of them once.
pub(crate) proof fn lemma_lists(names: Seq<String>, set: Set<Seq<char>>)
    requires
        texts(names).no_duplicates(),
        texts(names).to_set() == set,
    ensures
        lists(names, set),
{
    let all = texts(names);
    assert forall|i: int| 0 <= i < names.len() implies set.contains((#[trigger] names[i])@) by {
        assert(all[i] == names[i]@);
        assert(all.to_set().contains(all[i]));
    }
    assert forall|i: int, j: int| 0 <= i < j < names.len() implies (#[trigger] names[i])@ != (
    #[trigger] names[j])@ by {
        assert(all[i] != all[j]);
    }
    assert forall|name: Seq<char>| #[trigger] set.contains(name) implies exists|i: int|
        0 <= i < names.len() && (#[trigger] names[i])@ == name by {
        assert(all.to_set().contains(name));
        let i = choose|i: int| 0 <= i < all.len() && all[i] == name;
        assert(names[i]@ == name);
    }
}

/// A small set of names.
pub struct NameSet {
    names: Vec<String>,
}

impl View for NameSet {
    type V = Set<Seq<char>>;

    closed spec fn view(&self) -> Set<Seq<char>> {
        texts(self.names@).to_set()
    }
}

impl NameSet {
    /// No name occurs twice.
    pub closed spec fn wf(self) -> bool {
        texts(self.names@).no_duplicates()
    }

    /// The empty set.
    pub fn new() -> (set: NameSet)
        ensures
            set.wf(),
            set@ == Set::<Seq<char>>::empty(),
    {
        let set = NameSet { names: Vec::new() };
        assert(set@ =~= Set::<Seq<char>>::empty());
        set
    }

    /// Where a name stands in the set's list.
    fn position(&self, name: &str) -> (at: Option<usize>)
        ensures
            match at {
                Some(at) => at < self.names@.len() && self.names@[at as int]@ == name@,
                None => !self@.contains(name@),
            },
    {
        let wanted = name.to_owned();
        let mut at: usize = 0;
        while at < self.names.len()
            invariant
                wanted@ == name@,
                at <= self.names@.len(),
                forall|i: int| 0 <= i < at ==> (#[trigger] self.names@[i])@ != name@,
            decreases self.names@.len() - at,
        {
            if self.names[at] == wanted {
                return Some(at);
            }
            at = at + 1;
        }
        assert forall|i: int| 0 <= i < texts(self.names@).len() implies texts(self.names@)[i]
            != name@ by {
            assert(self.names@[i]@ != name@);
        }
        None
    }

    /// Whether a name is in the set.
    pub fn contains(&self, name: &str) -> (yes: bool)
        ensures
            yes == self@.contains(name@),
    {
        match self.position(name) {
            Some(at) => {
                assert(texts(self.names@)[at as int] == name@);
                true
            },
            None => false,
        }
    }

    /// Adds a name.
    pub fn insert(&mut self, name: String)
        requires
            old(self).wf(),
        ensures
            final(self).wf(),
            final(self)@ == old(self)@.insert(name@),
    {
        let ghost before = texts(self.names@);
        match self.position(name.as_str()) {
            Some(at) => {
                assert(before[at as int] == name@);
                assert(self@ =~= old(self)@.insert(name@));
            },
            None => {
                let ghost text = name@;
                self.names.push(name);
                let ghost after = texts(self.names@);
                assert(after =~= before.push(text));
                assert forall|other: Seq<char>| #[trigger] self@.contains(other)
                    == old(self)@.insert(text).contains(other) by {
                    if before.contains(other) {
                        let i = choose|i: int| 0 <= i < before.len() && before[i] == other;
                        assert(after[i] == other);
                    }
                    assert(after[after.len() - 1] == text);
                }
                assert(self@ =~= old(self)@.insert(text));
            },
        }
    }

    /// Takes a name out, if it is there.
    pub fn remove(&mut self, name: &str)
        requires
            old(self).wf(),
        ensures
            final(self).wf(),
            final(self)@ == old(self)@.remove(name@),
    {
        let ghost before = texts(self.names@);
        match self.position(name) {
            Some(at) => {
                self.names.remove(at);
                let ghost after = texts(self.names@);
                assert(after =~= before.remove(at as int));
                assert(before[at as int] == name@);
                assert forall|other: Seq<char>| #[trigger] self@.contains(other)
                    == old(self)@.remove(name@).contains(other) by {
                    if before.contains(other) && other != name@ {
                        let i = choose|i: int| 0 <= i < before.len() && before[i] == other;
                        assert(after[if i < at {
                            i
                        } else {
                            i - 1
                        }] == other);
                    }
                }
                assert(self@ =~= old(self)@.remove(name@));
            },
            None => {
                assert(self@ =~= old(self)@.remove(name@));
            },
        }
    }
}

} // verus!
