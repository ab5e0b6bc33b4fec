use typemap::{BuildError, DepSet, Dependence, DependenceType, Mode, TypeMap, Warning};

fn field(name: &str) -> Dependence {
    Dependence::Field(name.to_string(), DependenceType::Type)
}

fn tr(name: &str) -> Dependence {
    Dependence::Trait(name.to_string(), DependenceType::Trait)
}

fn set_of(deps: Vec<Dependence>) -> DepSet {
    let mut set = DepSet::new();
    for dep in deps {
        set.insert(dep);
    }
    set
}

fn assert_edges(map: &TypeMap, name: &str, expected: Vec<Dependence>) {
    let expected = set_of(expected);
    let found = map.graph().get(&name.to_string()).expect("the name is declared");
    assert!(
        found.same_set(&expected),
        "{}: found {:?}, expected {:?}",
        name,
        found.items(),
        expected.items()
    );
    assert_eq!(found.len(), expected.len());
}

fn assert_only(source: &str, name: &str, expected: Vec<Dependence>) {
    let map = TypeMap::build(source).unwrap();
    assert_eq!(map.graph().len(), 1);
    assert_edges(&map, name, expected);
}

#[test]
fn declaration_without_fields_and_generics_has_no_dependence() {
    assert_only("struct U;", "U", vec![]);
    assert_only("struct E {}", "E", vec![]);
    assert_only("struct T();", "T", vec![]);
    assert_only("enum N {}", "N", vec![]);
    assert_only("enum V { A, B, C }", "V", vec![]);
    assert_only("trait R {}", "R", vec![]);
}

#[test]
fn one_concrete_field_is_one_field_dependence() {
    assert_only("struct S { x: X }", "S", vec![field("X")]);
    assert_only("struct S(X);", "S", vec![field("X")]);
}

#[test]
fn parameter_used_as_field_type_is_no_dependence() {
    assert_only("struct W<T> { v: T }", "W", vec![]);
}

#[test]
fn bound_of_a_parameter_is_a_trait_dependence() {
    assert_only("struct W<T: Bound> { v: T }", "W", vec![tr("Bound")]);
}

#[test]
fn nested_path_gives_each_of_its_names() {
    assert_only("struct S { f: Vec<Box<A>> }", "S", vec![field("Vec"), field("Box"), field("A")]);
}

#[test]
fn nested_path_does_not_give_the_name_of_a_parameter() {
    assert_only("struct S<A> { f: Vec<Box<A>> }", "S", vec![field("Vec"), field("Box")]);
}

#[test]
fn tuple_gives_its_elements_and_nothing_of_its_own() {
    assert_only("struct S { f: (A, B) }", "S", vec![field("A"), field("B")]);
}

#[test]
fn building_twice_gives_the_same_graph() {
    let source = "struct A<T: Into<B>> { t: T, c: (C, [D; 2]) }\nenum B { X(A<i32>) }\nfn skipped() {}";
    let first = TypeMap::build(source).unwrap();
    let second = TypeMap::build(source).unwrap();
    assert_eq!(first.graph().len(), second.graph().len());
    for node in first.graph().nodes() {
        let other = second.graph().get(&node.name).expect("the same names");
        assert!(node.deps.same_set(other));
        assert_eq!(second.graph().kind_of(&node.name), Some(node.kind));
    }
    assert_eq!(first.warnings(), second.warnings());
}

#[test]
fn path_of_several_segments_is_one_name() {
    assert_only(
        "struct S { m: std::collections::HashMap<K, V> }",
        "S",
        vec![field("std::collections::HashMap"), field("K"), field("V")],
    );
}

#[test]
fn arguments_of_an_inner_segment_count() {
    assert_only("struct S { m: a::B<X>::C<Y> }", "S", vec![field("a::B::C"), field("X"), field("Y")]);
}

#[test]
fn array_slice_and_reference_give_their_element() {
    assert_only("struct S { a: [A; 3] }", "S", vec![field("A")]);
    assert_only("struct S<'a> { a: &'a [B] }", "S", vec![field("B")]);
    assert_only("struct S<'a> { a: &'a mut C }", "S", vec![field("C")]);
}

#[test]
fn function_pointer_gives_parameters_and_return_type() {
    assert_only("struct S { f: fn(A, &B) -> C }", "S", vec![field("A"), field("B"), field("C")]);
    assert_only("struct S { f: fn(A) }", "S", vec![field("A")]);
    assert_only("struct S { f: fn() }", "S", vec![]);
}

#[test]
fn impl_trait_bounds_come_out_as_fields() {
    assert_only(
        "struct S { f: impl Into<A> + std::marker::Send + 'static }",
        "S",
        vec![field("Into"), field("std::marker::Send")],
    );
}

#[test]
fn other_type_forms_give_nothing() {
    assert_only("struct S { p: *const A }", "S", vec![]);
    assert_only("struct S { p: (A) }", "S", vec![]);
    assert_only("struct S { p: Box<dyn Tr> }", "S", vec![field("Box")]);
    assert_only("struct S { p: ! }", "S", vec![]);
}

#[test]
fn arguments_that_are_no_types_give_nothing() {
    assert_only("struct S<'a> { c: Cow<'a, str> }", "S", vec![field("Cow"), field("str")]);
}

#[test]
fn const_argument_gives_nothing() {
    assert_only("struct S { a: Arr<3> }", "S", vec![field("Arr")]);
}

#[test]
fn associated_type_argument_gives_nothing() {
    assert_only("struct S { i: Box<Iter<Item = A>> }", "S", vec![field("Box"), field("Iter")]);
}

#[test]
fn arguments_in_round_brackets_give_nothing() {
    assert_only("struct S<F: Fn(A) -> B> { f: F }", "S", vec![tr("Fn")]);
}

#[test]
fn enum_gives_the_fields_of_all_variants() {
    assert_only("enum E { A(X), B { y: Y, z: X }, C }", "E", vec![field("X"), field("Y")]);
}

#[test]
fn union_gives_its_named_fields() {
    assert_only("union U { a: A, b: B }", "U", vec![field("A"), field("B")]);
}

#[test]
fn type_alias_has_no_field_but_its_bounds_count() {
    assert_only("type X = Vec<A>;", "X", vec![]);
    assert_only("type X<T: Clone> = Vec<T>;", "X", vec![tr("Clone")]);
}

#[test]
fn trait_has_no_field_but_its_bounds_count() {
    assert_only("trait T<U: Other>: Super { fn f(&self) -> A; }", "T", vec![tr("Other")]);
}

#[test]
fn lifetimes_give_nothing() {
    assert_only("struct S<'a, T: 'a + Clone> { r: &'a T }", "S", vec![tr("Clone")]);
}

#[test]
fn bound_gives_the_name_of_its_path_and_not_its_arguments() {
    assert_only("struct S<T: Into<A>> { t: T }", "S", vec![tr("Into")]);
    assert_only("struct S<T: std::convert::Into<Vec<A>>> { t: T }", "S", vec![tr("std::convert::Into")]);
    assert_only("struct S<T: ?Sized> { t: Box<T> }", "S", vec![field("Box"), tr("Sized")]);
}

#[test]
fn where_clause_gives_nothing() {
    assert_only("struct S<T> where T: Clone { t: T }", "S", vec![]);
}

#[test]
fn field_and_trait_of_one_name_are_two_edges() {
    assert_only("struct S<T: A> { t: T, a: A }", "S", vec![field("A"), tr("A")]);
}

#[test]
fn later_declaration_of_a_name_replaces_the_former() {
    let map = TypeMap::build("struct A { b: B }\nenum A { X(C) }").unwrap();
    assert_eq!(map.graph().len(), 1);
    assert_edges(&map, "A", vec![field("C")]);
    assert_eq!(map.graph().kind_of(&"A".to_string()), Some(DependenceType::Enum));
}

#[test]
fn kinds_of_declarations() {
    let map = TypeMap::build("struct S;\nenum E {}\nunion U { a: u8 }\ntype A = S;\ntrait T {}").unwrap();
    let kind = |name: &str| map.graph().kind_of(&name.to_string());
    assert_eq!(kind("S"), Some(DependenceType::Struct));
    assert_eq!(kind("E"), Some(DependenceType::Enum));
    assert_eq!(kind("U"), Some(DependenceType::Union));
    assert_eq!(kind("A"), Some(DependenceType::Type));
    assert_eq!(kind("T"), Some(DependenceType::Trait));
    assert_eq!(kind("X"), None);
    let names: Vec<&str> = map.graph().nodes().iter().map(|n| n.name.as_str()).collect();
    assert_eq!(names, vec!["S", "E", "U", "A", "T"]);
}

#[test]
fn dependences_carry_the_kind_of_their_tag() {
    let map = TypeMap::build("struct S<T: Tr> { a: A, t: T }").unwrap();
    let deps = map.graph().get(&"S".to_string()).unwrap();
    assert_eq!(deps.len(), 2);
    for dep in deps.items() {
        match dep {
            Dependence::Field(name, kind) => {
                assert_eq!(name, "A");
                assert_eq!(*kind, DependenceType::Type);
            }
            Dependence::Trait(name, kind) => {
                assert_eq!(name, "Tr");
                assert_eq!(*kind, DependenceType::Trait);
            }
        }
    }
}

#[test]
fn permissive_build_skips_what_declares_no_type() {
    let map = TypeMap::build("use std::fmt;\nstruct A { b: B }\nfn f() {}\nimpl A {}\nmod m {}").unwrap();
    assert_eq!(map.graph().len(), 1);
    assert_edges(&map, "A", vec![field("B")]);
    assert_eq!(
        map.warnings(),
        &vec![Warning::SkippedItem(0), Warning::SkippedItem(2), Warning::SkippedItem(3), Warning::SkippedItem(4)]
    );
}

#[test]
fn strict_build_fails_on_the_first_item_that_declares_no_type() {
    let built = TypeMap::build_with("struct A;\nfn f() {}\nconst C: u8 = 0;", Mode::Strict);
    assert!(matches!(built, Err(BuildError::UnsupportedDeclaration(1))));
}

#[test]
fn permissive_build_drops_a_const_parameter() {
    let map = TypeMap::build("struct A;\nstruct S<const N: usize, T: Tr> { a: [u8; N], t: T }").unwrap();
    assert_edges(&map, "S", vec![field("u8"), tr("Tr")]);
    assert_eq!(map.warnings(), &vec![Warning::DroppedConstParameter(1)]);
}

#[test]
fn strict_build_fails_on_the_first_const_parameter() {
    let built = TypeMap::build_with("struct A;\nstruct S<const N: usize> { a: [u8; N] }", Mode::Strict);
    assert!(matches!(built, Err(BuildError::UnsupportedGenericParameter(1))));
}

#[test]
fn strict_build_reports_an_unsupported_item_before_a_const_parameter() {
    let built = TypeMap::build_with("struct S<const N: usize>;\nfn f() {}", Mode::Strict);
    assert!(matches!(built, Err(BuildError::UnsupportedDeclaration(1))));
}

#[test]
fn strict_build_of_supported_items_is_the_permissive_build() {
    let source = "struct A { b: B }\nenum B { X(A) }";
    let strict = TypeMap::build_with(source, Mode::Strict).unwrap();
    let permissive = TypeMap::build_with(source, Mode::Permissive).unwrap();
    assert!(strict.warnings().is_empty());
    assert!(permissive.warnings().is_empty());
    assert_eq!(strict.graph().len(), 2);
    for node in strict.graph().nodes() {
        assert!(node.deps.same_set(permissive.graph().get(&node.name).unwrap()));
    }
}

#[test]
fn text_that_does_not_parse_fails_with_the_diagnostic() {
    for mode in [Mode::Strict, Mode::Permissive] {
        match TypeMap::build_with("struct ;", mode) {
            Err(BuildError::Parse(text)) => assert_eq!(text, "expected identifier"),
            other => panic!("expected a parse error, found {:?}", other),
        }
        match TypeMap::build_with("struct A {", mode) {
            Err(BuildError::Parse(text)) => assert_eq!(text, "cannot parse string into token stream"),
            other => panic!("expected a parse error, found {:?}", other),
        }
    }
}

#[test]
fn empty_text_is_an_empty_graph() {
    let map = TypeMap::build("").unwrap();
    assert_eq!(map.graph().len(), 0);
    assert!(map.warnings().is_empty());
    assert!(map.graph().nodes().is_empty());
}
