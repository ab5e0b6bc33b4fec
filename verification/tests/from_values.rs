use typemap::assemble::{first_const_generic, holds_const_parameter, user_defined_types, warnings_for};
use typemap::extract::{base_types, path_text, types_from_path};
use typemap::resolve::{dependencies_of, field_dependents, generic_dependents, generic_names};
use typemap::syntax::{
    Argument, Declaration, FieldGroup, NamedField, Parameter, Segment, SourceItem, TypeBound,
    TypeExpr, TypePath,
};
use typemap::{BuildError, DepSet, Dependence, DependenceType, Mode, NameSet, TypeMap, Warning};

fn segment(ident: &str, arguments: Vec<Argument>) -> Segment {
    Segment { ident: ident.to_string(), arguments }
}

fn path(idents: &[&str]) -> TypePath {
    TypePath { segments: idents.iter().map(|i| segment(i, vec![])).collect() }
}

fn plain(name: &str) -> TypeExpr {
    TypeExpr::Path(path(&[name]))
}

fn applied(name: &str, arguments: Vec<TypeExpr>) -> TypeExpr {
    let arguments = arguments.into_iter().map(Argument::Type).collect();
    TypeExpr::Path(TypePath { segments: vec![segment(name, arguments)] })
}

fn named(fields: Vec<(&str, TypeExpr)>) -> FieldGroup {
    FieldGroup::Named(
        fields.into_iter().map(|(name, ty)| NamedField { name: name.to_string(), ty }).collect(),
    )
}

fn type_param(name: &str, bounds: Vec<TypeBound>) -> Parameter {
    Parameter::Type { name: name.to_string(), bounds }
}

fn declaration(
    name: &str,
    kind: DependenceType,
    fields: Vec<FieldGroup>,
    generics: Vec<Parameter>,
) -> Declaration {
    Declaration { name: name.to_string(), kind, fields, generics }
}

fn names_of(set: &NameSet) -> Vec<String> {
    let mut names = set.names().clone();
    names.sort();
    names
}

fn assert_names(set: &NameSet, expected: &[&str]) {
    let mut expected: Vec<String> = expected.iter().map(|n| n.to_string()).collect();
    expected.sort();
    assert_eq!(names_of(set), expected);
    assert_eq!(set.len(), expected.len());
}

fn field(name: &str) -> Dependence {
    Dependence::Field(name.to_string(), DependenceType::Type)
}

fn tr(name: &str) -> Dependence {
    Dependence::Trait(name.to_string(), DependenceType::Trait)
}

fn assert_deps(set: &DepSet, expected: Vec<Dependence>) {
    let mut wanted = DepSet::new();
    for dep in expected {
        wanted.insert(dep);
    }
    assert!(set.same_set(&wanted), "found {:?}, expected {:?}", set.items(), wanted.items());
    assert_eq!(set.len(), wanted.len());
}

#[test]
fn name_of_a_path_joins_its_segments() {
    assert_eq!(path_text(&path(&["std", "collections", "HashMap"])), "std::collections::HashMap");
    assert_eq!(path_text(&path(&["A"])), "A");
    assert_eq!(path_text(&path(&[])), "");
}

#[test]
fn path_gives_its_name_and_the_names_of_its_type_arguments() {
    let with_arguments = TypePath {
        segments: vec![
            segment("a", vec![Argument::Type(plain("X")), Argument::Other]),
            segment("B", vec![Argument::Type(applied("Y", vec![plain("Z")]))]),
        ],
    };
    assert_names(&types_from_path(&with_arguments), &["a::B", "X", "Y", "Z"]);
    assert_names(&types_from_path(&path(&["A"])), &["A"]);
    assert_names(&types_from_path(&path(&[])), &[""]);
}

#[test]
fn base_types_of_each_form() {
    assert_names(&base_types(&plain("A")), &["A"]);
    assert_names(&base_types(&TypeExpr::Array(Box::new(plain("A")))), &["A"]);
    assert_names(&base_types(&TypeExpr::Slice(Box::new(plain("B")))), &["B"]);
    assert_names(&base_types(&TypeExpr::Reference(Box::new(plain("C")))), &["C"]);
    assert_names(&base_types(&TypeExpr::Tuple(vec![plain("A"), plain("B"), plain("A")])), &["A", "B"]);
    assert_names(&base_types(&TypeExpr::Tuple(vec![])), &[]);
    assert_names(
        &base_types(&TypeExpr::BareFn {
            inputs: vec![plain("A"), plain("B")],
            output: Some(Box::new(plain("C"))),
        }),
        &["A", "B", "C"],
    );
    assert_names(&base_types(&TypeExpr::BareFn { inputs: vec![plain("A")], output: None }), &["A"]);
    assert_names(
        &base_types(&TypeExpr::ImplTrait(vec![
            TypeBound::Trait(path(&["X"])),
            TypeBound::Other,
            TypeBound::Trait(path(&["Y"])),
        ])),
        &["X", "Y"],
    );
    assert_names(&base_types(&TypeExpr::Other), &[]);
}

#[test]
fn bound_counts_by_the_name_of_its_path_alone() {
    let into_a = TypePath { segments: vec![segment("Into", vec![Argument::Type(plain("A"))])] };
    assert_names(&base_types(&TypeExpr::ImplTrait(vec![TypeBound::Trait(into_a)])), &["Into"]);
    let into_b = TypePath { segments: vec![segment("Into", vec![Argument::Type(plain("B"))])] };
    let generics = vec![type_param("T", vec![TypeBound::Trait(into_b)])];
    assert_deps(&generic_dependents(&generics), vec![tr("Into")]);
}

#[test]
fn base_types_of_a_nested_path() {
    let ty = applied("Vec", vec![applied("Box", vec![plain("A")])]);
    assert_names(&base_types(&ty), &["Vec", "Box", "A"]);
}

#[test]
fn base_types_of_a_deep_expression() {
    let ty = TypeExpr::Reference(Box::new(TypeExpr::Slice(Box::new(TypeExpr::Tuple(vec![
        applied("Option", vec![TypeExpr::Array(Box::new(plain("A")))]),
        TypeExpr::BareFn { inputs: vec![], output: Some(Box::new(plain("B"))) },
    ])))));
    assert_names(&base_types(&ty), &["Option", "A", "B"]);
}

#[test]
fn field_dependents_of_groups() {
    let groups = vec![
        FieldGroup::Unit,
        named(vec![("a", plain("A")), ("b", applied("Vec", vec![plain("B")]))]),
        FieldGroup::Unnamed(vec![plain("A"), plain("C")]),
    ];
    assert_deps(&field_dependents(&groups), vec![field("A"), field("Vec"), field("B"), field("C")]);
    assert_deps(&field_dependents(&vec![]), vec![]);
    assert_deps(&field_dependents(&vec![FieldGroup::Unit, FieldGroup::Named(vec![])]), vec![]);
}

#[test]
fn generic_dependents_and_names() {
    let generics = vec![
        Parameter::Lifetime,
        type_param("T", vec![TypeBound::Trait(path(&["Clone"])), TypeBound::Other]),
        Parameter::Const,
        type_param("U", vec![]),
        type_param("V", vec![TypeBound::Trait(path(&["fmt", "Debug"])), TypeBound::Trait(path(&["Clone"]))]),
    ];
    assert_deps(&generic_dependents(&generics), vec![tr("Clone"), tr("fmt::Debug")]);
    assert_names(&generic_names(&generics), &["T", "U", "V"]);
    assert_deps(&generic_dependents(&vec![]), vec![]);
    assert_names(&generic_names(&vec![Parameter::Lifetime, Parameter::Const]), &[]);
    assert!(holds_const_parameter(&generics));
    assert!(!holds_const_parameter(&vec![Parameter::Lifetime, type_param("T", vec![])]));
}

#[test]
fn dependencies_leave_out_parameters_and_keep_bounds() {
    let decl = declaration(
        "W",
        DependenceType::Struct,
        vec![named(vec![("v", plain("T")), ("w", applied("Vec", vec![plain("U")])), ("x", plain("X"))])],
        vec![type_param("T", vec![TypeBound::Trait(path(&["Bound"]))]), type_param("U", vec![])],
    );
    assert_deps(&dependencies_of(&decl), vec![field("Vec"), field("X"), tr("Bound")]);
}

#[test]
fn parameter_name_is_left_out_as_field_only() {
    let decl = declaration(
        "W",
        DependenceType::Struct,
        vec![named(vec![("v", plain("T"))])],
        vec![type_param("T", vec![TypeBound::Trait(path(&["T"]))])],
    );
    assert_deps(&dependencies_of(&decl), vec![tr("T")]);
}

#[test]
fn collector_keeps_declarations_in_order() {
    let items = vec![
        SourceItem::Unsupported,
        SourceItem::Declaration(declaration("A", DependenceType::Struct, vec![], vec![])),
        SourceItem::Unsupported,
        SourceItem::Declaration(declaration("B", DependenceType::Trait, vec![], vec![Parameter::Const])),
    ];
    let found = user_defined_types(&items, Mode::Permissive).unwrap();
    let names: Vec<&str> = found.iter().map(|d| d.name.as_str()).collect();
    assert_eq!(names, vec!["A", "B"]);
    assert!(matches!(
        user_defined_types(&items, Mode::Strict),
        Err(BuildError::UnsupportedDeclaration(0))
    ));
    assert_eq!(first_const_generic(&items), Some(3));
    assert_eq!(
        warnings_for(&items),
        vec![Warning::SkippedItem(0), Warning::SkippedItem(2), Warning::DroppedConstParameter(3)]
    );
}

#[test]
fn graph_from_items() {
    let items = vec![
        SourceItem::Declaration(declaration(
            "A",
            DependenceType::Struct,
            vec![named(vec![("b", plain("B")), ("c", plain("C"))])],
            vec![],
        )),
        SourceItem::Declaration(declaration("B", DependenceType::Struct, vec![FieldGroup::Unit], vec![])),
        SourceItem::Declaration(declaration("C", DependenceType::Enum, vec![], vec![])),
    ];
    for mode in [Mode::Strict, Mode::Permissive] {
        let map = TypeMap::from_items(&items, mode).unwrap();
        assert_eq!(map.graph().len(), 3);
        assert_deps(map.graph().get(&"A".to_string()).unwrap(), vec![field("B"), field("C")]);
        assert_deps(map.graph().get(&"B".to_string()).unwrap(), vec![]);
        assert_deps(map.graph().get(&"C".to_string()).unwrap(), vec![]);
        assert_eq!(map.graph().kind_of(&"C".to_string()), Some(DependenceType::Enum));
        assert!(map.warnings().is_empty());
    }
}

#[test]
fn strict_build_from_items_fails_on_a_const_parameter() {
    let items = vec![
        SourceItem::Declaration(declaration("A", DependenceType::Struct, vec![], vec![])),
        SourceItem::Declaration(declaration("B", DependenceType::Struct, vec![], vec![Parameter::Const])),
        SourceItem::Declaration(declaration("C", DependenceType::Struct, vec![], vec![Parameter::Const])),
    ];
    assert!(matches!(
        TypeMap::from_items(&items, Mode::Strict),
        Err(BuildError::UnsupportedGenericParameter(1))
    ));
    let map = TypeMap::from_items(&items, Mode::Permissive).unwrap();
    assert_eq!(map.graph().len(), 3);
    assert_eq!(
        map.warnings(),
        &vec![Warning::DroppedConstParameter(1), Warning::DroppedConstParameter(2)]
    );
}
