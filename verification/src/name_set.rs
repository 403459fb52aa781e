//! A small set of strings with a set view.

use vstd::prelude::*;

verus! {

broadcast use vstd::string::group_string_axioms;

/// The views of a list of strings.
pub open spec fn string_views(v: Seq<String>) -> Seq<Seq<char>> {
    v.map_values(|s: String| s@)
}

/// A finite set of names.
pub struct NameSet {
    names: Vec<String>,
}

impl View for NameSet {
    type V = Set<Seq<char>>;

    closed spec fn view(&self) -> Set<Seq<char>> {
        string_views(self.names@).to_set()
    }
}

impl NameSet {
    /// The empty set.
    pub fn new() -> (r: Self)
        ensures
            r@ == Set::<Seq<char>>::empty(),
    {
        let r = NameSet { names: Vec::new() };
        assert(r@ =~= Set::<Seq<char>>::empty());
        r
    }

    /// Whether `name` is in the set.
    pub fn contains(&self, name: &str) -> (r: bool)
        ensures
            r == self@.contains(name@),
    {
        let key = name.to_owned();
        let mut i: usize = 0;
        while i < self.names.len()
            invariant
                i <= self.names@.len(),
                key@ == name@,
                forall|k: int| 0 <= k < i ==> self.names@[k]@ != name@,
            decreases self.names.len() - i,
        {
            if self.names[i] == key {
                assert(string_views(self.names@)[i as int] == name@);
                return true;
            }
            i = i + 1;
        }
        assert(!string_views(self.names@).contains(name@));
        false
    }

    /// Adds `name`; true when it was not in the set before.
    pub fn insert(&mut self, name: &str) -> (r: bool)
        ensures
            r == !old(self)@.contains(name@),
            final(self)@ == old(self)@.insert(name@),
    {
        if self.contains(name) {
            assert(self@.insert(name@) =~= self@);
            false
        } else {
            let ghost before = string_views(self.names@);
            self.names.push(name.to_owned());
            assert(string_views(self.names@) =~= before.push(name@));
            proof {
                before.lemma_push_to_set_commute(name@);
            }
            true
        }
    }
}

} // verus!
