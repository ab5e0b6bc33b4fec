use typemap::{DepSet, Dependence, DependenceType, TypeMap};

fn field(name: &str) -> Dependence {
    Dependence::Field(name.to_string(), DependenceType::Type)
}

fn tr(name: &str) -> Dependence {
    Dependence::Trait(name.to_string(), DependenceType::Trait)
}

fn set_of(deps: Vec<Dependence>) -> DepSet {
    let mut set = DepSet::new();
    for dep in deps {
        set.insert(dep);
    }
    set
}

fn edges(map: &TypeMap, name: &str) -> DepSet {
    let deps = map.graph().get(&name.to_string()).expect("the name is declared");
    set_of(deps.items().clone())
}

fn assert_edges(map: &TypeMap, name: &str, expected: Vec<Dependence>) {
    let expected = set_of(expected);
    let found = edges(map, name);
    assert!(
        found.same_set(&expected),
        "{}: found {:?}, expected {:?}",
        name,
        found.items(),
        expected.items()
    );
    assert_eq!(found.len(), expected.len());
}

#[test]
fn round_trip_of_three_structs() {
    let map = TypeMap::build("struct A { b: B, c: C }\nstruct B;\nstruct C;\n").unwrap();
    assert_eq!(map.graph().len(), 3);
    assert_edges(&map, "A", vec![field("B"), field("C")]);
    assert_edges(&map, "B", vec![]);
    assert_edges(&map, "C", vec![]);
}

#[test]
fn chain_of_three_structs() {
    let map = TypeMap::build("struct A { b: B }\nstruct B { c: C }\nstruct C;\n").unwrap();
    assert_edges(&map, "A", vec![field("B")]);
    assert_edges(&map, "B", vec![field("C")]);
    assert_edges(&map, "C", vec![]);
}

#[test]
fn leaf_types_need_no_entry() {
    let map = TypeMap::build("struct D { x: i32, y: usize }").unwrap();
    assert_edges(&map, "D", vec![field("i32"), field("usize")]);
    assert_eq!(map.graph().len(), 1);
    assert!(map.graph().get(&"i32".to_string()).is_none());
    assert!(!map.graph().contains_key(&"usize".to_string()));
}

#[test]
fn self_reference_is_an_edge() {
    let map = TypeMap::build("struct A { next: Box<A> }").unwrap();
    assert_edges(&map, "A", vec![field("Box"), field("A")]);
}
