//! Finite sets of names and of dependences, kept as lists without repeats.

use vstd::prelude::*;
use crate::dependence::{Dependence, Edge};

verus! {

/// A finite set of names.
#[derive(Debug)]
pub struct NameSet {
    items: Vec<String>,
}

impl View for NameSet {
    type V = Set<Seq<char>>;

    open spec fn view(&self) -> Set<Seq<char>> {
        self.listing().to_set()
    }
}

impl NameSet {
    /// The names in the order in which they were first inserted.
    pub closed spec fn listing(&self) -> Seq<Seq<char>> {
        self.items@.map_values(|s: String| s@)
    }

    #[verifier::type_invariant]
    spec fn no_repeats(&self) -> bool {
        self.listing().no_duplicates()
    }

    /// The empty set.
    pub fn new() -> (set: NameSet)
        ensures
            set@ == Set::<Seq<char>>::empty(),
            set.listing() == Seq::<Seq<char>>::empty(),
    {
        let set = NameSet { items: Vec::new() };
        assert(set.listing() =~= Seq::<Seq<char>>::empty());
        assert(set@ =~= Set::<Seq<char>>::empty());
        set
    }

    /// The number of names in the set.
    pub fn len(&self) -> (n: usize)
        ensures
            n == self@.len(),
            n == self.listing().len(),
            self@.finite(),
    {
        proof {
            use_type_invariant(self);
            self.listing().unique_seq_to_set();
        }
        self.items.len()
    }

    /// Whether the set holds no name.
    pub fn is_empty(&self) -> (empty: bool)
        ensures
            empty == (self@ == Set::<Seq<char>>::empty()),
    {
        proof {
            assert(self.listing().len() == self.items@.len());
            if self.listing().len() > 0 {
                assert(self.listing().contains(self.listing()[0]));
                assert(self@.contains(self.listing()[0]));
            } else {
                assert(self@ =~= Set::<Seq<char>>::empty());
            }
        }
        self.items.len() == 0
    }

    /// Whether `name` is in the set.
    pub fn contains(&self, name: &String) -> (found: bool)
        ensures
            found == self@.contains(name@),
    {
        let mut i: usize = 0;
        while i < self.items.len()
            invariant
                i <= self.items.len(),
                forall|j: int| 0 <= j < i ==> self.listing()[j] != name@,
            decreases self.items.len() - i,
        {
            if self.items[i] == *name {
                assert(self.listing()[i as int] == name@);
                return true;
            }
            i += 1;
        }
        false
    }

    /// Adds `name` to the set; says whether it was new.
    pub fn insert(&mut self, name: String) -> (fresh: bool)
        ensures
            final(self)@ == old(self)@.insert(name@),
            fresh == !old(self)@.contains(name@),
            final(self).listing() == if fresh {
                old(self).listing().push(name@)
            } else {
                old(self).listing()
            },
    {
        if self.contains(&name) {
            assert(self@.insert(name@) =~= self@);
            false
        } else {
            proof {
                use_type_invariant(&*self);
            }
            let ghost before = self.listing();
            let mut items: Vec<String> = Vec::new();
            assert(items@.map_values(|s: String| s@) =~= Seq::<Seq<char>>::empty());
            core::mem::swap(&mut self.items, &mut items);
            items.push(name);
            assert(items@.map_values(|s: String| s@) =~= before.push(name@));
            core::mem::swap(&mut self.items, &mut items);
            proof {
                before.lemma_push_to_set_commute(name@);
            }
            true
        }
    }

    /// The names of the set, each once, in the order of insertion.
    pub fn names(&self) -> (names: &Vec<String>)
        ensures
            names@.map_values(|s: String| s@) == self.listing(),
            self.listing().no_duplicates(),
    {
        proof {
            use_type_invariant(self);
        }
        &self.items
    }
}

/// The edges that a list of dependences stands for, in order.
pub open spec fn edges_of(elements: Seq<Dependence>) -> Seq<Edge> {
    elements.map_values(|d: Dependence| d@)
}

/// A finite set of dependences. Two dependences with the same tag and name
/// are one element; the first one inserted stays.
#[derive(Debug)]
pub struct DepSet {
    items: Vec<Dependence>,
}

impl View for DepSet {
    type V = Set<Edge>;

    open spec fn view(&self) -> Set<Edge> {
        edges_of(self.elements()).to_set()
    }
}

impl DepSet {
    /// The dependences of the set in the order of insertion.
    pub closed spec fn elements(&self) -> Seq<Dependence> {
        self.items@
    }

    #[verifier::type_invariant]
    spec fn no_repeats(&self) -> bool {
        edges_of(self.elements()).no_duplicates()
    }

    /// The empty set.
    pub fn new() -> (set: DepSet)
        ensures
            set@ == Set::<Edge>::empty(),
            set.elements() == Seq::<Dependence>::empty(),
    {
        let set = DepSet { items: Vec::new() };
        assert(edges_of(set.elements()) =~= Seq::<Edge>::empty());
        assert(set@ =~= Set::<Edge>::empty());
        set
    }

    /// The number of dependences in the set.
    pub fn len(&self) -> (n: usize)
        ensures
            n == self@.len(),
            n == self.elements().len(),
            self@.finite(),
    {
        proof {
            use_type_invariant(self);
            edges_of(self.elements()).unique_seq_to_set();
        }
        self.items.len()
    }

    /// Whether the set holds no dependence.
    pub fn is_empty(&self) -> (empty: bool)
        ensures
            empty == (self@ == Set::<Edge>::empty()),
    {
        proof {
            let edges = edges_of(self.elements());
            assert(edges.len() == self.items@.len());
            if edges.len() > 0 {
                assert(edges.contains(edges[0]));
                assert(self@.contains(edges[0]));
            } else {
                assert(self@ =~= Set::<Edge>::empty());
            }
        }
        self.items.len() == 0
    }

    /// Whether the edge of `dep` is in the set.
    pub fn contains(&self, dep: &Dependence) -> (found: bool)
        ensures
            found == self@.contains(dep@),
    {
        let mut i: usize = 0;
        while i < self.items.len()
            invariant
                i <= self.items.len(),
                forall|j: int| 0 <= j < i ==> edges_of(self.elements())[j] != dep@,
            decreases self.items.len() - i,
        {
            if self.items[i].same_edge(dep) {
                assert(edges_of(self.elements())[i as int] == dep@);
                return true;
            }
            i += 1;
        }
        false
    }

    /// Adds `dep` to the set unless its edge is there; says whether it was new.
    pub fn insert(&mut self, dep: Dependence) -> (fresh: bool)
        ensures
            final(self)@ == old(self)@.insert(dep@),
            fresh == !old(self)@.contains(dep@),
            final(self).elements() == if fresh {
                old(self).elements().push(dep)
            } else {
                old(self).elements()
            },
    {
        if self.contains(&dep) {
            assert(self@.insert(dep@) =~= self@);
            false
        } else {
            proof {
                use_type_invariant(&*self);
            }
            let ghost before = self.elements();
            let mut items: Vec<Dependence> = Vec::new();
            assert(edges_of(items@) =~= Seq::<Edge>::empty());
            core::mem::swap(&mut self.items, &mut items);
            items.push(dep);
            assert(edges_of(items@) =~= edges_of(before).push(dep@));
            core::mem::swap(&mut self.items, &mut items);
            proof {
                edges_of(before).lemma_push_to_set_commute(dep@);
            }
            true
        }
    }

    /// The dependences of the set, one for each edge, in the order of insertion.
    pub fn items(&self) -> (items: &Vec<Dependence>)
        ensures
            items@ == self.elements(),
            edges_of(self.elements()).no_duplicates(),
    {
        proof {
            use_type_invariant(self);
        }
        &self.items
    }

    /// The set of the edges that are in `self` or in `other`.
    pub fn union(&self, other: &DepSet) -> (both: DepSet)
        ensures
            both@ == self@.union(other@),
            forall|i: int|
                0 <= i < both.elements().len() ==> self.elements().contains(
                    #[trigger] both.elements()[i],
                ) || other.elements().contains(both.elements()[i]),
    {
        let mut both = DepSet::new();
        let mut i: usize = 0;
        while i < self.items.len()
            invariant
                i <= self.items.len(),
                both@ == edges_of(self.elements().take(i as int)).to_set(),
                forall|k: int|
                    0 <= k < both.elements().len() ==> self.elements().contains(
                        #[trigger] both.elements()[k],
                    ),
            decreases self.items.len() - i,
        {
            let ghost seen = self.elements().take(i as int);
            let dep = self.items[i].clone();
            both.insert(dep);
            proof {
                assert(self.elements().take(i + 1) =~= seen.push(self.elements()[i as int]));
                assert(edges_of(seen.push(dep)) =~= edges_of(seen).push(dep@));
                edges_of(seen).lemma_push_to_set_commute(dep@);
                assert(self.elements().contains(dep)) by {
                    assert(self.elements()[i as int] == dep);
                }
            }
            i += 1;
        }
        assert(self.elements().take(i as int) =~= self.elements());
        let mut j: usize = 0;
        while j < other.items.len()
            invariant
                j <= other.items.len(),
                both@ == self@.union(edges_of(other.elements().take(j as int)).to_set()),
                forall|k: int|
                    0 <= k < both.elements().len() ==> self.elements().contains(
                        #[trigger] both.elements()[k],
                    ) || other.elements().contains(both.elements()[k]),
            decreases other.items.len() - j,
        {
            let ghost seen = other.elements().take(j as int);
            let dep = other.items[j].clone();
            both.insert(dep);
            proof {
                assert(other.elements().take(j + 1) =~= seen.push(other.elements()[j as int]));
                assert(edges_of(seen.push(dep)) =~= edges_of(seen).push(dep@));
                edges_of(seen).lemma_push_to_set_commute(dep@);
                assert(other.elements().contains(dep)) by {
                    assert(other.elements()[j as int] == dep);
                }
                assert(both@ =~= self@.union(edges_of(other.elements().take(j + 1)).to_set()));
            }
            j += 1;
        }
        assert(other.elements().take(j as int) =~= other.elements());
        both
    }

    /// The set of the edges that are in `self` and not in `other`.
    pub fn difference(&self, other: &DepSet) -> (rest: DepSet)
        ensures
            rest@ == self@.difference(other@),
            forall|i: int|
                0 <= i < rest.elements().len() ==> self.elements().contains(
                    #[trigger] rest.elements()[i],
                ),
    {
        let mut rest = DepSet::new();
        let mut i: usize = 0;
        while i < self.items.len()
            invariant
                i <= self.items.len(),
                rest@ == edges_of(self.elements().take(i as int)).to_set().difference(other@),
                forall|k: int|
                    0 <= k < rest.elements().len() ==> self.elements().contains(
                        #[trigger] rest.elements()[k],
                    ),
            decreases self.items.len() - i,
        {
            let ghost seen = self.elements().take(i as int);
            proof {
                let dep = self.elements()[i as int];
                assert(self.elements().take(i + 1) =~= seen.push(dep));
                assert(edges_of(seen.push(dep)) =~= edges_of(seen).push(dep@));
                edges_of(seen).lemma_push_to_set_commute(dep@);
            }
            if !other.contains(&self.items[i]) {
                let dep = self.items[i].clone();
                rest.insert(dep);
                proof {
                    assert(self.elements().contains(dep)) by {
                        assert(self.elements()[i as int] == dep);
                    }
                    assert(rest@ =~= edges_of(self.elements().take(i + 1)).to_set().difference(
                        other@,
                    ));
                }
            } else {
                assert(rest@ =~= edges_of(self.elements().take(i + 1)).to_set().difference(
                    other@,
                ));
            }
            i += 1;
        }
        assert(self.elements().take(i as int) =~= self.elements());
        rest
    }

    /// Whether the two sets hold the same edges.
    pub fn same_set(&self, other: &DepSet) -> (same: bool)
        ensures
            same == (self@ == other@),
    {
        let a = self.difference(other);
        let b = other.difference(self);
        let same = a.is_empty() && b.is_empty();
        proof {
            if same {
                assert(self@ =~= other@) by {
                    assert forall|e: Edge| self@.contains(e) <==> other@.contains(e) by {
                        assert(!self@.difference(other@).contains(e));
                        assert(!other@.difference(self@).contains(e));
                    }
                }
            } else {
                if self@ == other@ {
                    assert(self@.difference(other@) =~= Set::<Edge>::empty());
                    assert(other@.difference(self@) =~= Set::<Edge>::empty());
                }
            }
        }
        same
    }
}

} // verus!
