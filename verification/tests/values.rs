use typemap::{DepGraph, DepSet, Dependence, DependenceType, NameSet};

fn field(name: &str) -> Dependence {
    Dependence::Field(name.to_string(), DependenceType::Type)
}

fn tr(name: &str) -> Dependence {
    Dependence::Trait(name.to_string(), DependenceType::Trait)
}

fn set_of(deps: Vec<Dependence>) -> DepSet {
    let mut set = DepSet::new();
    for dep in deps {
        set.insert(dep);
    }
    set
}

#[test]
fn kind_as_text() {
    assert_eq!(DependenceType::Struct.to_ty(), "Struct");
    assert_eq!(DependenceType::Enum.to_ty(), "Enum");
    assert_eq!(DependenceType::Union.to_ty(), "Union");
    assert_eq!(DependenceType::Type.to_ty(), "Type");
    assert_eq!(DependenceType::Trait.to_ty(), "Trait");
    assert_eq!(DependenceType::Temp.to_ty(), "Temp");
}

#[test]
fn name_and_kind_of_a_dependence() {
    let a = Dependence::Field("A".to_string(), DependenceType::Struct);
    let b = Dependence::Trait("std::fmt::Debug".to_string(), DependenceType::Trait);
    assert_eq!(a.name(), "A");
    assert_eq!(a.dep_type(), "Struct");
    assert_eq!(a.to_string(), "A");
    assert_eq!(b.name(), "std::fmt::Debug");
    assert_eq!(b.dep_type(), "Trait");
    assert_eq!(b.to_string(), "std::fmt::Debug");
}

#[test]
fn dependences_are_equal_by_tag_and_name() {
    let a = Dependence::Field("A".to_string(), DependenceType::Struct);
    assert_eq!(a, Dependence::Field("A".to_string(), DependenceType::Temp));
    assert_ne!(a, Dependence::Trait("A".to_string(), DependenceType::Struct));
    assert_ne!(a, Dependence::Field("B".to_string(), DependenceType::Struct));
    assert!(a.same_edge(&field("A")));
    assert!(!a.same_edge(&tr("A")));
    let copy = a.clone();
    assert_eq!(copy, a);
    assert_eq!(copy.dep_type(), "Struct");
}

#[test]
fn name_set_holds_each_name_once() {
    let mut set = NameSet::new();
    assert!(set.is_empty());
    assert!(set.insert("A".to_string()));
    assert!(set.insert("B".to_string()));
    assert!(!set.insert("A".to_string()));
    assert_eq!(set.len(), 2);
    assert!(!set.is_empty());
    assert!(set.contains(&"A".to_string()));
    assert!(!set.contains(&"C".to_string()));
    assert_eq!(set.names(), &vec!["A".to_string(), "B".to_string()]);
}

#[test]
fn dep_set_holds_each_edge_once() {
    let mut set = DepSet::new();
    assert!(set.is_empty());
    assert!(set.insert(Dependence::Field("A".to_string(), DependenceType::Struct)));
    assert!(!set.insert(Dependence::Field("A".to_string(), DependenceType::Temp)));
    assert!(set.insert(tr("A")));
    assert_eq!(set.len(), 2);
    assert!(set.contains(&field("A")));
    assert!(set.contains(&tr("A")));
    assert!(!set.contains(&field("B")));
    assert_eq!(set.items()[0].dep_type(), "Struct");
}

#[test]
fn union_and_difference_of_dep_sets() {
    let left = set_of(vec![field("A"), field("B"), tr("C")]);
    let right = set_of(vec![field("B"), tr("A"), tr("C"), field("D")]);
    let both = left.union(&right);
    assert!(both.same_set(&set_of(vec![field("A"), field("B"), tr("C"), tr("A"), field("D")])));
    assert_eq!(both.len(), 5);
    let rest = left.difference(&right);
    assert!(rest.same_set(&set_of(vec![field("A")])));
    assert_eq!(rest.len(), 1);
    assert!(left.difference(&left).is_empty());
    assert!(left.union(&DepSet::new()).same_set(&left));
    assert!(!left.same_set(&right));
    assert!(set_of(vec![field("A"), tr("B")]).same_set(&set_of(vec![tr("B"), field("A")])));
}

#[test]
fn graph_keeps_one_node_for_a_name() {
    let mut graph = DepGraph::new();
    assert_eq!(graph.len(), 0);
    graph.insert("A".to_string(), DependenceType::Struct, set_of(vec![field("B")]));
    graph.insert("B".to_string(), DependenceType::Enum, DepSet::new());
    graph.insert("A".to_string(), DependenceType::Union, set_of(vec![field("C"), tr("D")]));
    assert_eq!(graph.len(), 2);
    assert!(graph.contains_key(&"A".to_string()));
    assert!(!graph.contains_key(&"C".to_string()));
    assert!(graph.get(&"A".to_string()).unwrap().same_set(&set_of(vec![field("C"), tr("D")])));
    assert!(graph.get(&"B".to_string()).unwrap().is_empty());
    assert!(graph.get(&"C".to_string()).is_none());
    assert_eq!(graph.kind_of(&"A".to_string()), Some(DependenceType::Union));
    assert_eq!(graph.kind_of(&"B".to_string()), Some(DependenceType::Enum));
    assert_eq!(graph.kind_of(&"C".to_string()), None);
    let names: Vec<&str> = graph.nodes().iter().map(|n| n.name.as_str()).collect();
    assert_eq!(names, vec!["A", "B"]);
}
