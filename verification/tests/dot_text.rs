use typemap::dot::generate_dot;
use typemap::TypeMap;

#[test]
fn dot_of_two_structs() {
    let map = TypeMap::build("struct A { b: B }\nstruct B;").unwrap();
    let text = generate_dot(map.graph());
    assert_eq!(text, "digraph typemap {\n  A[shape=square]\n  B[shape=square]\n  A -> B\n}");
}

#[test]
fn dot_of_an_empty_file() {
    let map = TypeMap::build("").unwrap();
    assert_eq!(generate_dot(map.graph()), "digraph typemap {\n\n}");
}

#[test]
fn dot_lists_nodes_before_edges() {
    let map = TypeMap::build("struct A { b: B, c: Vec<C> }\nenum B { X(A), Y }\ntrait C {}").unwrap();
    let text = generate_dot(map.graph());
    let expected = [
        "digraph typemap {",
        "  A[shape=square]",
        "  B[shape=square]",
        "  C[shape=square]",
        "  A -> B",
        "  A -> C",
        "  A -> Vec",
        "  B -> A",
        "}",
    ]
    .join("\n");
    assert_eq!(text, expected);
}

#[test]
fn test_gen() {
    let source = "struct A;\ntype B = A;\nstruct C<T: D> { t: T }\ntrait D<T: E + F + G> {}\n";
    let tm = TypeMap::build(source).unwrap();
    let text = generate_dot(tm.graph());
    let expected = [
        "digraph typemap {",
        "  A[shape=square]",
        "  B[shape=square]",
        "  C[shape=square]",
        "  D[shape=square]",
        "  C -> D",
        "  D -> E",
        "  D -> F",
        "  D -> G",
        "}",
    ]
    .join("\n");
    assert_eq!(text, expected);
}
