//! The dependency graph as text in the DOT language of Graphviz.
//!
//! The statements are made and printed by `graphviz_rust`; which statements
//! there are, and in which order, is decided here.

use graphviz_rust::dot_structures::{Attribute, Edge, EdgeTy, Graph, Id, Node, NodeId, Stmt, Vertex};
use graphviz_rust::printer::PrinterContext;
use vstd::prelude::*;
use crate::dependence::Dependence;
use crate::graph::{DepGraph, GraphNode};

verus! {

/// `dot_structures::Stmt`: one statement of a graph in the DOT language.
#[verifier::external_type_specification]
#[verifier::external_body]
pub struct ExStmt(graphviz_rust::dot_structures::Stmt);

/// What the printer of `graphviz_rust` writes for a statement inside a
/// directed graph under its default context, without the indent of the
/// line.
pub uninterp spec fn statement_text(stmt: Stmt) -> Seq<char>;

/// The line of a node with one attribute: `id[key=value]`.
pub open spec fn node_line(id: Seq<char>, key: Seq<char>, value: Seq<char>) -> Seq<char> {
    id + "["@ + key + "="@ + value + "]"@
}

/// The line of an edge: `from -> to`.
pub open spec fn edge_line(from: Seq<char>, to: Seq<char>) -> Seq<char> {
    from + " -> "@ + to
}

/// The lines, each behind an indent of two spaces, joined by line breaks.
pub open spec fn indented(lines: Seq<Seq<char>>) -> Seq<char>
    decreases lines.len(),
{
    if lines.len() == 0 {
        Seq::empty()
    } else if lines.len() == 1 {
        "  "@ + lines[0]
    } else {
        indented(lines.drop_last()) + "\n"@ + "  "@ + lines.last()
    }
}

/// The text of a directed graph with the given name and statement lines.
pub open spec fn digraph_text(id: Seq<char>, lines: Seq<Seq<char>>) -> Seq<char> {
    "digraph "@ + id + " {\n"@ + indented(lines) + "\n}"@
}

/// The texts of the statements, in order.
pub open spec fn statement_texts(stmts: Seq<Stmt>) -> Seq<Seq<char>> {
    stmts.map_values(|stmt: Stmt| statement_text(stmt))
}

/// Makes the `Stmt::Node` of a node with a plain identifier, no port and
/// one attribute with plain key and value. The printer of `graphviz_rust`
/// writes such a node as the identifier and, in square brackets, `key=value`.
#[verifier::external_body]
fn node_statement(id: &str, key: &str, value: &str) -> (stmt: Stmt)
    ensures
        statement_text(stmt) == node_line(id@, key@, value@),
{
    let attribute = Attribute(Id::Plain(key.to_string()), Id::Plain(value.to_string()));
    Stmt::Node(Node::new(NodeId(Id::Plain(id.to_string()), None), vec![attribute]))
}

/// Makes the `Stmt::Edge` of an edge without attributes between two nodes
/// with plain identifiers and no ports. Inside a directed graph the printer
/// of `graphviz_rust` writes such an edge as the two identifiers with
/// ` -> ` between them.
#[verifier::external_body]
fn edge_statement(from: &str, to: &str) -> (stmt: Stmt)
    ensures
        statement_text(stmt) == edge_line(from@, to@),
{
    let left = Vertex::N(NodeId(Id::Plain(from.to_string()), None));
    let right = Vertex::N(NodeId(Id::Plain(to.to_string()), None));
    Stmt::Edge(Edge { ty: EdgeTy::Pair(left, right), attributes: Vec::new() })
}

/// Calls `graphviz_rust::print` on the directed graph, not strict, with a
/// plain identifier and the given statements, under the default printer
/// context: a header line, each statement on a line of its own behind two
/// spaces, and a closing brace on the last line.
#[verifier::external_body]
fn print_digraph(id: &str, stmts: Vec<Stmt>) -> (text: String)
    ensures
        text@ == digraph_text(id@, statement_texts(stmts@)),
{
    let graph = Graph::DiGraph { id: Id::Plain(id.to_string()), strict: false, stmts };
    graphviz_rust::print(graph, &mut PrinterContext::default())
}

/// The lines of the nodes: one for each declared name, drawn as a square.
pub open spec fn node_lines(nodes: Seq<GraphNode>) -> Seq<Seq<char>> {
    nodes.map_values(|node: GraphNode| node_line(node.name@, "shape"@, "square"@))
}

/// The lines of the edges that leave one node: one for each of its
/// dependences, from the name of the node to the name of the dependence.
pub open spec fn edge_lines_from(node: GraphNode) -> Seq<Seq<char>> {
    node.deps.elements().map_values(|dep: Dependence| edge_line(node.name@, dep@.name()))
}

/// The lines of the edges of all nodes, node by node.
pub open spec fn edge_lines(nodes: Seq<GraphNode>) -> Seq<Seq<char>>
    decreases nodes.len(),
{
    if nodes.len() == 0 {
        Seq::empty()
    } else {
        edge_lines(nodes.drop_last()) + edge_lines_from(nodes.last())
    }
}

/// The statement lines of a graph: the nodes first, then the edges.
pub open spec fn dot_lines(nodes: Seq<GraphNode>) -> Seq<Seq<char>> {
    node_lines(nodes) + edge_lines(nodes)
}

/// The graph as a directed graph named `typemap` in the DOT language: a
/// square node for each declared name, in the order of the listing, then
/// an edge for each dependence of each node.
pub fn generate_dot(graph: &DepGraph) -> (text: String)
    ensures
        text@ == digraph_text("typemap"@, dot_lines(graph.listing())),
{
    let nodes = graph.nodes();
    let ghost listing = graph.listing();
    let mut stmts: Vec<Stmt> = Vec::new();
    let mut i: usize = 0;
    while i < nodes.len()
        invariant
            i <= nodes.len(),
            nodes@ == listing,
            statement_texts(stmts@) == node_lines(listing.take(i as int)),
        decreases nodes.len() - i,
    {
        let ghost before = stmts@;
        let stmt = node_statement(nodes[i].name.as_str(), "shape", "square");
        stmts.push(stmt);
        proof {
            assert(listing.take(i + 1) =~= listing.take(i as int).push(listing[i as int]));
            assert(statement_texts(stmts@) =~= statement_texts(before).push(
                statement_text(stmt),
            ));
            assert(node_lines(listing.take(i + 1)) =~= node_lines(listing.take(i as int)).push(
                node_line(listing[i as int].name@, "shape"@, "square"@),
            ));
        }
        i += 1;
    }
    assert(listing.take(i as int) =~= listing);
    let mut j: usize = 0;
    assert(edge_lines(listing.take(0)) =~= Seq::<Seq<char>>::empty());
    assert(statement_texts(stmts@) =~= node_lines(listing) + edge_lines(listing.take(0)));
    while j < nodes.len()
        invariant
            j <= nodes.len(),
            nodes@ == listing,
            statement_texts(stmts@) == node_lines(listing) + edge_lines(listing.take(j as int)),
        decreases nodes.len() - j,
    {
        let node = &nodes[j];
        let deps = node.deps.items();
        let ghost start = stmts@;
        let ghost lines = edge_lines_from(*node);
        let mut k: usize = 0;
        assert(statement_texts(stmts@) =~= statement_texts(start) + lines.take(0));
        while k < deps.len()
            invariant
                k <= deps.len(),
                deps@ == node.deps.elements(),
                lines == edge_lines_from(*node),
                statement_texts(stmts@) == statement_texts(start) + lines.take(k as int),
            decreases deps.len() - k,
        {
            let ghost before = stmts@;
            let target = deps[k].name();
            let stmt = edge_statement(node.name.as_str(), target.as_str());
            stmts.push(stmt);
            proof {
                assert(lines[k as int] == statement_text(stmt));
                assert(lines.take(k + 1) =~= lines.take(k as int).push(lines[k as int]));
                assert(statement_texts(stmts@) =~= statement_texts(before).push(
                    statement_text(stmt),
                ));
                assert(statement_texts(stmts@) =~= statement_texts(start) + lines.take(k + 1));
            }
            k += 1;
        }
        proof {
            assert(lines.take(k as int) =~= lines);
            assert(listing.take(j + 1).drop_last() =~= listing.take(j as int));
            assert(listing.take(j + 1).last() == *node);
            assert(edge_lines(listing.take(j + 1)) == edge_lines(listing.take(j as int)) + lines);
            assert(statement_texts(stmts@) =~= node_lines(listing) + edge_lines(
                listing.take(j + 1),
            ));
        }
        j += 1;
    }
    assert(listing.take(j as int) =~= listing);
    print_digraph("typemap", stmts)
}

} // verus!
