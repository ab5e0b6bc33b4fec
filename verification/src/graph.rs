//! The dependency graph: for each declared name its kind and the set of its
//! dependences.

use vstd::prelude::*;
use crate::dependence::{DependenceType, Edge};
use crate::sets::DepSet;

verus! {

/// One node of the graph: a declared name with its kind and its dependences.
#[derive(Debug)]
pub struct GraphNode {
    pub name: String,
    pub kind: DependenceType,
    pub deps: DepSet,
}

/// The names of the nodes, in order.
pub open spec fn node_names(nodes: Seq<GraphNode>) -> Seq<Seq<char>> {
    nodes.map_values(|node: GraphNode| node.name@)
}

/// A mapping from declared names to their dependences. A name occurs once.
#[derive(Debug)]
pub struct DepGraph {
    nodes: Vec<GraphNode>,
}

impl View for DepGraph {
    type V = Map<Seq<char>, Set<Edge>>;

    /// The graph as a mapping from each declared name to the set of its edges.
    open spec fn view(&self) -> Map<Seq<char>, Set<Edge>> {
        Map::new(
            |name: Seq<char>| node_names(self.listing()).contains(name),
            |name: Seq<char>| self.listing()[node_names(self.listing()).index_of(name)].deps@,
        )
    }
}

impl DepGraph {
    /// The nodes in the order in which their names were first inserted.
    pub closed spec fn listing(&self) -> Seq<GraphNode> {
        self.nodes@
    }

    /// The kind of each declared name.
    pub open spec fn kinds(&self) -> Map<Seq<char>, DependenceType> {
        Map::new(
            |name: Seq<char>| node_names(self.listing()).contains(name),
            |name: Seq<char>| self.listing()[node_names(self.listing()).index_of(name)].kind,
        )
    }

    #[verifier::type_invariant]
    spec fn names_once(&self) -> bool {
        node_names(self.listing()).no_duplicates()
    }

    /// The graph without nodes.
    pub fn new() -> (graph: DepGraph)
        ensures
            graph@ == Map::<Seq<char>, Set<Edge>>::empty(),
            graph.kinds() == Map::<Seq<char>, DependenceType>::empty(),
            graph.listing() == Seq::<GraphNode>::empty(),
    {
        let graph = DepGraph { nodes: Vec::new() };
        assert(graph@ =~= Map::<Seq<char>, Set<Edge>>::empty());
        assert(graph.kinds() =~= Map::<Seq<char>, DependenceType>::empty());
        graph
    }

    /// The number of declared names.
    pub fn len(&self) -> (n: usize)
        ensures
            n == self@.dom().len(),
            n == self.listing().len(),
            self@.dom().finite(),
    {
        proof {
            use_type_invariant(self);
            let names = node_names(self.listing());
            names.unique_seq_to_set();
            assert(self@.dom() =~= names.to_set());
        }
        self.nodes.len()
    }

    /// The place of `name` in the listing, if it is declared.
    fn position(&self, name: &String) -> (place: Option<usize>)
        ensures
            match place {
                Some(i) => i < self.listing().len() && self.listing()[i as int].name@ == name@,
                None => !node_names(self.listing()).contains(name@),
            },
    {
        let mut i: usize = 0;
        while i < self.nodes.len()
            invariant
                i <= self.nodes.len(),
                forall|j: int| 0 <= j < i ==> node_names(self.listing())[j] != name@,
            decreases self.nodes.len() - i,
        {
            if self.nodes[i].name == *name {
                return Some(i);
            }
            i += 1;
        }
        None
    }

    /// Whether `name` is declared.
    pub fn contains_key(&self, name: &String) -> (found: bool)
        ensures
            found == self@.contains_key(name@),
    {
        match self.position(name) {
            Some(i) => {
                assert(node_names(self.listing())[i as int] == name@);
                true
            },
            None => false,
        }
    }

    /// The dependences of `name`, if it is declared.
    pub fn get(&self, name: &String) -> (deps: Option<&DepSet>)
        ensures
            match deps {
                Some(d) => self@.contains_key(name@) && d@ == self@[name@],
                None => !self@.contains_key(name@),
            },
    {
        match self.position(name) {
            Some(i) => {
                proof {
                    use_type_invariant(self);
                    let names = node_names(self.listing());
                    assert(names[i as int] == name@);
                    assert(names.contains(name@));
                    assert(names.index_of(name@) == i);
                }
                Some(&self.nodes[i].deps)
            },
            None => None,
        }
    }

    /// The kind of `name`, if it is declared.
    pub fn kind_of(&self, name: &String) -> (kind: Option<DependenceType>)
        ensures
            match kind {
                Some(k) => self.kinds().contains_key(name@) && k == self.kinds()[name@],
                None => !self.kinds().contains_key(name@),
            },
    {
        match self.position(name) {
            Some(i) => {
                proof {
                    use_type_invariant(self);
                    let names = node_names(self.listing());
                    assert(names[i as int] == name@);
                    assert(names.contains(name@));
                    assert(names.index_of(name@) == i);
                }
                Some(self.nodes[i].kind)
            },
            None => None,
        }
    }

    /// The nodes of the graph, one for each declared name, in the order in
    /// which the names were first inserted.
    pub fn nodes(&self) -> (nodes: &Vec<GraphNode>)
        ensures
            nodes@ == self.listing(),
            node_names(self.listing()).no_duplicates(),
    {
        proof {
            use_type_invariant(self);
        }
        &self.nodes
    }

    /// Gives `name` the kind and the dependences. A node of that name that
    /// is there already is replaced at its place; else the node comes last.
    pub fn insert(&mut self, name: String, kind: DependenceType, deps: DepSet)
        ensures
            final(self)@ == old(self)@.insert(name@, deps@),
            final(self).kinds() == old(self).kinds().insert(name@, kind),
            final(self).listing() == if old(self)@.contains_key(name@) {
                old(self).listing().update(
                    node_names(old(self).listing()).index_of(name@),
                    GraphNode { name, kind, deps },
                )
            } else {
                old(self).listing().push(GraphNode { name, kind, deps })
            },
    {
        proof {
            use_type_invariant(&*self);
        }
        let ghost before = self.listing();
        let ghost old_view = self@;
        let ghost old_kinds = self.kinds();
        let place = self.position(&name);
        let ghost node = GraphNode { name, kind, deps };
        let fresh = GraphNode { name, kind, deps };
        let mut nodes: Vec<GraphNode> = Vec::new();
        assert(node_names(nodes@) =~= Seq::<Seq<char>>::empty());
        core::mem::swap(&mut self.nodes, &mut nodes);
        match place {
            Some(i) => {
                assert(node_names(before)[i as int] == node.name@);
                assert(node_names(before).index_of(node.name@) == i);
                nodes.set(i, fresh);
                assert(node_names(nodes@) =~= node_names(before));
            },
            None => {
                nodes.push(fresh);
                assert(node_names(nodes@) =~= node_names(before).push(node.name@));
            },
        }
        let ghost after = nodes@;
        core::mem::swap(&mut self.nodes, &mut nodes);
        proof {
            lemma_insert_node(before, after, node, place);
            assert(self@ =~= old_view.insert(node.name@, node.deps@));
            assert(self.kinds() =~= old_kinds.insert(node.name@, node.kind));
        }
    }
}

/// What replacing or appending a node does to the names and their places.
proof fn lemma_insert_node(
    before: Seq<GraphNode>,
    after: Seq<GraphNode>,
    node: GraphNode,
    place: Option<usize>,
)
    requires
        node_names(before).no_duplicates(),
        match place {
            Some(i) => i < before.len() && before[i as int].name@ == node.name@ && after
                == before.update(i as int, node),
            None => !node_names(before).contains(node.name@) && after == before.push(node),
        },
    ensures
        node_names(after).no_duplicates(),
        forall|n: Seq<char>|
            node_names(after).contains(n) <==> (n == node.name@ || node_names(before).contains(n)),
        after[node_names(after).index_of(node.name@)] == node,
        forall|n: Seq<char>|
            n != node.name@ && node_names(before).contains(n) ==> after[node_names(after).index_of(
                n,
            )] == before[node_names(before).index_of(n)],
{
    let names = node_names(before);
    let names2 = node_names(after);
    match place {
        Some(i) => {
            assert(names2 =~= names);
            assert(names[i as int] == node.name@);
            assert(names2.contains(node.name@));
            assert forall|n: Seq<char>| n != node.name@ && names.contains(n) implies after[names2.index_of(
                n,
            )] == before[names.index_of(n)] by {
                let k = names.index_of(n);
                assert(k != i);
            }
        },
        None => {
            assert(names2 =~= names.push(node.name@));
            assert(names2[names.len() as int] == node.name@);
            assert(names2.contains(node.name@));
            assert forall|n: Seq<char>| names2.contains(n) implies (n == node.name@
                || names.contains(n)) by {
                let k = names2.index_of(n);
                if k < names.len() {
                    assert(names[k] == n);
                }
            }
            assert forall|n: Seq<char>| names.contains(n) implies names2.contains(n) by {
                let k = names.index_of(n);
                assert(names2[k] == n);
            }
            assert forall|n: Seq<char>| n != node.name@ && names.contains(n) implies after[names2.index_of(
                n,
            )] == before[names.index_of(n)] by {
                let k = names.index_of(n);
                assert(names2[k] == n);
                assert(names2.contains(n));
                let k2 = names2.index_of(n);
                assert(k2 == k);
            }
        },
    }
}

} // verus!
