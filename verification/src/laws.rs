//! What holds of the dependences of every declaration.

use vstd::prelude::*;
use crate::assemble::{graph_of, is_build_of, BuildError, Mode, TypeMap};
use crate::dependence::Edge;
use crate::extract::{
    argument_mentions, arguments_mention, base_names, bound_mentions, bounds_mention, joined,
    path_mentions, path_name, segments_mention, type_mentions, types_mention,
};
use crate::resolve::{
    as_fields, as_traits, bound_names, dependencies, field_edges, field_names, group_mentions,
    groups_mention, param_bound_mentions, parameter_names,
};
use crate::syntax::{
    ArgumentView, DeclarationView, FieldGroupView, NamedFieldView, ParameterView, SegmentView,
    TypeBoundView, TypeExprView, TypePathView,
};

verus! {

/// The path of one segment with the given name and without arguments.
pub open spec fn plain_path(name: Seq<char>) -> TypePathView {
    TypePathView { segments: seq![SegmentView { ident: name, arguments: Seq::empty() }] }
}

/// The type that is written as the given name alone.
pub open spec fn plain_type(name: Seq<char>) -> TypeExprView {
    TypeExprView::Path(plain_path(name))
}

/// The type `outer<inner>`: a path of one segment with one type argument.
pub open spec fn applied_type(outer: Seq<char>, inner: TypeExprView) -> TypeExprView {
    TypeExprView::Path(
        TypePathView {
            segments: seq![
                SegmentView { ident: outer, arguments: seq![ArgumentView::Type(inner)] },
            ],
        },
    )
}

/// The types of the fields of a group, in order.
pub open spec fn field_types(group: FieldGroupView) -> Seq<TypeExprView> {
    match group {
        FieldGroupView::Unit => Seq::empty(),
        FieldGroupView::Named(fields) => fields.map_values(|f: NamedFieldView| f.ty),
        FieldGroupView::Unnamed(tys) => tys,
    }
}

/// Whether the declaration has a field of the given type.
pub open spec fn has_field(decl: DeclarationView, ty: TypeExprView) -> bool {
    exists|g: int, k: int|
        0 <= g < decl.fields.len() && 0 <= k < field_types(decl.fields[g]).len() && #[trigger] field_types(
            decl.fields[g],
        )[k] == ty
}

/// Whether the declaration has no field at all.
pub open spec fn has_no_field(decl: DeclarationView) -> bool {
    forall|g: int| 0 <= g < decl.fields.len() ==> field_types(#[trigger] decl.fields[g]).len() == 0
}

/// Whether the declaration has one group of fields, and one field in it,
/// of the given type.
pub open spec fn has_one_field(decl: DeclarationView, ty: TypeExprView) -> bool {
    decl.fields.len() == 1 && field_types(decl.fields[0]) == seq![ty]
}

/// Whether no declaration after place `i` has the name of the one at `i`.
pub open spec fn is_last_of_name(decls: Seq<DeclarationView>, i: int) -> bool {
    forall|j: int| i < j < decls.len() ==> (#[trigger] decls[j]).name != decls[i].name
}

/// Whether no two of the declarations have one name.
pub open spec fn names_differ(decls: Seq<DeclarationView>) -> bool {
    forall|i: int, j: int|
        0 <= i < j < decls.len() ==> (#[trigger] decls[i]).name != (#[trigger] decls[j]).name
}

/// A group mentions what the types of its fields mention.
pub proof fn lemma_group_mentions(group: FieldGroupView, n: Seq<char>)
    ensures
        group_mentions(group, n) <==> types_mention(field_types(group), n),
{
    match group {
        FieldGroupView::Unit => {},
        FieldGroupView::Named(fields) => {
            let tys = field_types(group);
            if group_mentions(group, n) {
                let i = choose|i: int|
                    0 <= i < fields.len() && type_mentions((#[trigger] fields[i]).ty, n);
                assert(type_mentions(tys[i], n));
            }
            if types_mention(tys, n) {
                let i = choose|i: int| 0 <= i < tys.len() && type_mentions(#[trigger] tys[i], n);
                assert(type_mentions(fields[i].ty, n));
            }
        },
        FieldGroupView::Unnamed(tys) => {},
    }
}

/// The name of a plain path is the name that it was made of, and the path
/// mentions nothing else.
pub proof fn lemma_plain_path(name: Seq<char>)
    ensures
        path_name(plain_path(name)) == name,
        forall|n: Seq<char>| path_mentions(plain_path(name), n) <==> n == name,
        base_names(plain_type(name)) == set![name],
{
    let path = plain_path(name);
    let idents = path.segments.map_values(|s: SegmentView| s.ident);
    assert(idents.len() == 1);
    assert(idents[0] == name);
    assert(joined(idents) == name);
    assert forall|n: Seq<char>| !segments_mention(path.segments, n) by {
        if segments_mention(path.segments, n) {
            let i = choose|i: int|
                0 <= i < path.segments.len() && arguments_mention(
                    (#[trigger] path.segments[i]).arguments,
                    n,
                );
            assert(path.segments[i].arguments.len() == 0);
        }
    }
    assert forall|n: Seq<char>| type_mentions(plain_type(name), n) <==> n == name by {
        assert(type_mentions(plain_type(name), n) == path_mentions(path, n));
    }
    assert(base_names(plain_type(name)) =~= set![name]);
}

/// The type `outer<inner>` mentions `outer` and what `inner` mentions.
pub proof fn lemma_applied_type(outer: Seq<char>, inner: TypeExprView)
    ensures
        base_names(applied_type(outer, inner)) == base_names(inner).insert(outer),
{
    let ty = applied_type(outer, inner);
    let path = ty->Path_0;
    let idents = path.segments.map_values(|s: SegmentView| s.ident);
    assert(idents.len() == 1);
    assert(idents[0] == outer);
    assert(joined(idents) == outer);
    assert forall|n: Seq<char>| segments_mention(path.segments, n) <==> type_mentions(
        inner,
        n,
    ) by {
        let arguments = path.segments[0].arguments;
        if segments_mention(path.segments, n) {
            let i = choose|i: int|
                0 <= i < path.segments.len() && arguments_mention(
                    (#[trigger] path.segments[i]).arguments,
                    n,
                );
            assert(i == 0);
            let j = choose|j: int|
                0 <= j < arguments.len() && argument_mentions(
                    #[trigger] arguments[j],
                    n,
                );
            assert(j == 0);
        }
        if type_mentions(inner, n) {
            assert(argument_mentions(arguments[0], n));
            assert(arguments_mention(path.segments[0].arguments, n));
        }
    }
    assert forall|n: Seq<char>| type_mentions(ty, n) <==> (n == outer || type_mentions(
        inner,
        n,
    )) by {
        assert(type_mentions(ty, n) == path_mentions(path, n));
    }
    assert(base_names(ty) =~= base_names(inner).insert(outer));
}

/// A tuple mentions what its elements mention and nothing of its own.
pub proof fn lemma_pair_type(first: TypeExprView, second: TypeExprView)
    ensures
        base_names(TypeExprView::Tuple(seq![first, second])) == base_names(first).union(
            base_names(second),
        ),
{
    let elems = seq![first, second];
    assert forall|n: Seq<char>| types_mention(elems, n) <==> (type_mentions(first, n)
        || type_mentions(second, n)) by {
        if types_mention(elems, n) {
            let i = choose|i: int| 0 <= i < elems.len() && type_mentions(#[trigger] elems[i], n);
            assert(i == 0 || i == 1);
        }
        if type_mentions(first, n) {
            assert(type_mentions(elems[0], n));
        }
        if type_mentions(second, n) {
            assert(type_mentions(elems[1], n));
        }
    }
    assert(base_names(TypeExprView::Tuple(elems)) =~= base_names(first).union(
        base_names(second),
    ));
}

/// What a field mentions is a `Field` dependence of its declaration,
/// unless it is the name of a type parameter of the declaration.
pub proof fn lemma_field_dependence(decl: DeclarationView, ty: TypeExprView, n: Seq<char>)
    requires
        has_field(decl, ty),
        base_names(ty).contains(n),
        !parameter_names(decl.generics).contains(n),
    ensures
        dependencies(decl).contains(Edge::Field(n)),
{
    let (g, k) = choose|g: int, k: int|
        0 <= g < decl.fields.len() && 0 <= k < field_types(decl.fields[g]).len() && #[trigger] field_types(
            decl.fields[g],
        )[k] == ty;
    let tys = field_types(decl.fields[g]);
    assert(type_mentions(tys[k], n));
    assert(types_mention(tys, n));
    lemma_group_mentions(decl.fields[g], n);
    assert(group_mentions(decl.fields[g], n));
    assert(groups_mention(decl.fields, n));
    assert(field_names(decl.fields).contains(n));
    assert(field_edges(decl.fields).contains(Edge::Field(n)));
}

/// A declaration without fields and without generic parameters has no
/// dependence.
pub proof fn lemma_bare_declaration(decl: DeclarationView)
    requires
        has_no_field(decl),
        decl.generics.len() == 0,
    ensures
        dependencies(decl) == Set::<Edge>::empty(),
{
    assert forall|n: Seq<char>| !groups_mention(decl.fields, n) by {
        if groups_mention(decl.fields, n) {
            let g = choose|g: int|
                0 <= g < decl.fields.len() && group_mentions(#[trigger] decl.fields[g], n);
            lemma_group_mentions(decl.fields[g], n);
        }
    }
    assert(dependencies(decl) =~= Set::<Edge>::empty());
}

/// What the fields of a declaration with one field mention.
proof fn lemma_one_field_names(decl: DeclarationView, ty: TypeExprView)
    requires
        has_one_field(decl, ty),
    ensures
        field_names(decl.fields) == base_names(ty),
{
    assert forall|n: Seq<char>| groups_mention(decl.fields, n) <==> type_mentions(ty, n) by {
        let tys = field_types(decl.fields[0]);
        lemma_group_mentions(decl.fields[0], n);
        if groups_mention(decl.fields, n) {
            let g = choose|g: int|
                0 <= g < decl.fields.len() && group_mentions(#[trigger] decl.fields[g], n);
            assert(g == 0);
            let k = choose|k: int| 0 <= k < tys.len() && type_mentions(#[trigger] tys[k], n);
            assert(k == 0);
        }
        if type_mentions(ty, n) {
            assert(type_mentions(tys[0], n));
            assert(group_mentions(decl.fields[0], n));
        }
    }
    assert(field_names(decl.fields) =~= base_names(ty));
}

/// The dependences of a declaration with one field: a `Field` for each
/// name that the type of the field mentions and that is no type parameter,
/// and a `Trait` for each name that the trait bounds give.
pub proof fn lemma_one_field(decl: DeclarationView, ty: TypeExprView)
    requires
        has_one_field(decl, ty),
    ensures
        dependencies(decl) == as_fields(
            base_names(ty).difference(parameter_names(decl.generics)),
        ).union(as_traits(bound_names(decl.generics))),
{
    lemma_one_field_names(decl, ty);
    assert(dependencies(decl) =~= as_fields(
        base_names(ty).difference(parameter_names(decl.generics)),
    ).union(as_traits(bound_names(decl.generics))));
}

/// A declaration whose one field has the plain type `x`, where `x` is no
/// type parameter of the declaration and no parameter has a trait bound,
/// has the one dependence `Field(x)`.
pub proof fn lemma_one_concrete_field(decl: DeclarationView, x: Seq<char>)
    requires
        has_one_field(decl, plain_type(x)),
        !parameter_names(decl.generics).contains(x),
        bound_names(decl.generics) == Set::<Seq<char>>::empty(),
    ensures
        dependencies(decl) == set![Edge::Field(x)],
{
    lemma_one_field(decl, plain_type(x));
    lemma_plain_path(x);
    assert(dependencies(decl) =~= set![Edge::Field(x)]);
}

/// A declaration whose one field has the plain type `t`, where `t` is a
/// type parameter of the declaration and no parameter has a trait bound,
/// has no dependence: the name of a parameter is no type to depend on.
pub proof fn lemma_parameter_is_no_dependence(decl: DeclarationView, t: Seq<char>)
    requires
        has_one_field(decl, plain_type(t)),
        parameter_names(decl.generics).contains(t),
        bound_names(decl.generics) == Set::<Seq<char>>::empty(),
    ensures
        dependencies(decl) == Set::<Edge>::empty(),
{
    lemma_one_field(decl, plain_type(t));
    lemma_plain_path(t);
    assert(dependencies(decl) =~= Set::<Edge>::empty());
}

/// The one type parameter `t` without bounds has the name `t` and gives no
/// bound name.
pub proof fn lemma_unbounded_parameter(t: Seq<char>)
    ensures
        parameter_names(seq![ParameterView::Type { name: t, bounds: Seq::empty() }]) == set![t],
        bound_names(seq![ParameterView::Type { name: t, bounds: Seq::empty() }]) == Set::<
            Seq<char>,
        >::empty(),
{
    let generics = seq![ParameterView::Type { name: t, bounds: Seq::empty() }];
    assert(generics[0] is Type);
    assert forall|n: Seq<char>| parameter_names(generics).contains(n) <==> n == t by {
        if parameter_names(generics).contains(n) {
            let i = choose|i: int|
                0 <= i < generics.len() && (#[trigger] generics[i] matches ParameterView::Type {
                    name,
                    ..
                } && name == n);
            assert(i == 0);
        }
    }
    assert forall|n: Seq<char>| !bound_names(generics).contains(n) by {
        if bound_names(generics).contains(n) {
            let i = choose|i: int|
                0 <= i < generics.len() && param_bound_mentions(#[trigger] generics[i], n);
            assert(i == 0);
        }
    }
    assert(parameter_names(generics) =~= set![t]);
    assert(bound_names(generics) =~= Set::<Seq<char>>::empty());
}

/// The one type parameter `t` with the one trait bound `bound`, a plain
/// path, has the name `t` and gives the bound name `bound`.
pub proof fn lemma_bounded_parameter(t: Seq<char>, bound: Seq<char>)
    ensures
        parameter_names(
            seq![
                ParameterView::Type {
                    name: t,
                    bounds: seq![TypeBoundView::Trait(plain_path(bound))],
                },
            ],
        ) == set![t],
        bound_names(
            seq![
                ParameterView::Type {
                    name: t,
                    bounds: seq![TypeBoundView::Trait(plain_path(bound))],
                },
            ],
        ) == set![bound],
{
    let bounds = seq![TypeBoundView::Trait(plain_path(bound))];
    let generics = seq![ParameterView::Type { name: t, bounds }];
    lemma_plain_path(bound);
    assert(generics[0] is Type);
    assert(generics[0]->bounds == bounds);
    assert forall|n: Seq<char>| parameter_names(generics).contains(n) <==> n == t by {
        if parameter_names(generics).contains(n) {
            let i = choose|i: int|
                0 <= i < generics.len() && (#[trigger] generics[i] matches ParameterView::Type {
                    name,
                    ..
                } && name == n);
            assert(i == 0);
        }
    }
    assert forall|n: Seq<char>| bound_names(generics).contains(n) <==> n == bound by {
        if bound_names(generics).contains(n) {
            let i = choose|i: int|
                0 <= i < generics.len() && param_bound_mentions(#[trigger] generics[i], n);
            assert(i == 0);
            let j = choose|j: int| 0 <= j < bounds.len() && bound_mentions(#[trigger] bounds[j], n);
            assert(j == 0);
        }
        if n == bound {
            assert(bound_mentions(bounds[0], n));
            assert(bounds_mention(bounds, n));
            assert(param_bound_mentions(generics[0], n));
        }
    }
    assert(parameter_names(generics) =~= set![t]);
    assert(bound_names(generics) =~= set![bound]);
}

/// The declaration `W<T> { v: T }` has no dependence.
pub proof fn lemma_wrapper_of_parameter(decl: DeclarationView, t: Seq<char>)
    requires
        has_one_field(decl, plain_type(t)),
        decl.generics == seq![ParameterView::Type { name: t, bounds: Seq::empty() }],
    ensures
        dependencies(decl) == Set::<Edge>::empty(),
{
    lemma_unbounded_parameter(t);
    lemma_parameter_is_no_dependence(decl, t);
}

/// A declaration whose one field has the plain type `t`, where `t` is a
/// type parameter of the declaration and the trait bounds of its
/// parameters give the one name `bound`, has the one dependence
/// `Trait(bound)`: the bound counts, the name of the parameter does not.
pub proof fn lemma_bound_is_a_dependence(decl: DeclarationView, t: Seq<char>, bound: Seq<char>)
    requires
        has_one_field(decl, plain_type(t)),
        parameter_names(decl.generics).contains(t),
        bound_names(decl.generics) == set![bound],
    ensures
        dependencies(decl) == set![Edge::Trait(bound)],
{
    lemma_one_field(decl, plain_type(t));
    lemma_plain_path(t);
    assert(dependencies(decl) =~= set![Edge::Trait(bound)]);
}

/// The declaration `W<T: Bound> { v: T }` has the one dependence
/// `Trait(Bound)`.
pub proof fn lemma_wrapper_of_bounded_parameter(
    decl: DeclarationView,
    t: Seq<char>,
    bound: Seq<char>,
)
    requires
        has_one_field(decl, plain_type(t)),
        decl.generics == seq![
            ParameterView::Type {
                name: t,
                bounds: seq![TypeBoundView::Trait(plain_path(bound))],
            },
        ],
    ensures
        dependencies(decl) == set![Edge::Trait(bound)],
{
    lemma_bounded_parameter(t, bound);
    lemma_bound_is_a_dependence(decl, t, bound);
}

/// A declaration with a field of the type `outer<inner<leaf>>` depends on
/// each of the three names as a `Field`, where none of them is the name of
/// a type parameter of the declaration.
pub proof fn lemma_nested_field(
    decl: DeclarationView,
    outer: Seq<char>,
    inner: Seq<char>,
    leaf: Seq<char>,
)
    requires
        has_field(decl, applied_type(outer, applied_type(inner, plain_type(leaf)))),
        !parameter_names(decl.generics).contains(outer),
        !parameter_names(decl.generics).contains(inner),
        !parameter_names(decl.generics).contains(leaf),
    ensures
        dependencies(decl).contains(Edge::Field(outer)),
        dependencies(decl).contains(Edge::Field(inner)),
        dependencies(decl).contains(Edge::Field(leaf)),
{
    let middle = applied_type(inner, plain_type(leaf));
    let ty = applied_type(outer, middle);
    lemma_plain_path(leaf);
    lemma_applied_type(inner, plain_type(leaf));
    lemma_applied_type(outer, middle);
    lemma_field_dependence(decl, ty, outer);
    lemma_field_dependence(decl, ty, inner);
    lemma_field_dependence(decl, ty, leaf);
}

/// The tuple type `(a, b)` mentions `a` and `b` and nothing for being a
/// tuple; a declaration with a field of that type depends on both names as
/// a `Field`, where neither is the name of a type parameter of the
/// declaration.
pub proof fn lemma_pair_field(decl: DeclarationView, a: Seq<char>, b: Seq<char>)
    requires
        has_field(decl, TypeExprView::Tuple(seq![plain_type(a), plain_type(b)])),
        !parameter_names(decl.generics).contains(a),
        !parameter_names(decl.generics).contains(b),
    ensures
        base_names(TypeExprView::Tuple(seq![plain_type(a), plain_type(b)])) == set![a, b],
        dependencies(decl).contains(Edge::Field(a)),
        dependencies(decl).contains(Edge::Field(b)),
{
    let ty = TypeExprView::Tuple(seq![plain_type(a), plain_type(b)]);
    lemma_plain_path(a);
    lemma_plain_path(b);
    lemma_pair_type(plain_type(a), plain_type(b));
    assert(base_names(ty) =~= set![a, b]);
    lemma_field_dependence(decl, ty, a);
    lemma_field_dependence(decl, ty, b);
}

/// The names of the graph are the names of the declarations, and a name
/// is mapped to the dependences of the last declaration of that name.
pub proof fn lemma_graph_of(decls: Seq<DeclarationView>)
    ensures
        forall|n: Seq<char>|
            graph_of(decls).contains_key(n) <==> exists|i: int|
                0 <= i < decls.len() && (#[trigger] decls[i]).name == n,
        forall|i: int|
            0 <= i < decls.len() && is_last_of_name(decls, i) ==> graph_of(decls)[(
            #[trigger] decls[i]).name] == dependencies(decls[i]),
        graph_of(decls).dom().finite(),
    decreases decls.len(),
{
    if decls.len() > 0 {
        let front = decls.drop_last();
        let last = decls.last();
        lemma_graph_of(front);
        assert forall|n: Seq<char>| graph_of(decls).contains_key(n) <==> exists|i: int|
            0 <= i < decls.len() && (#[trigger] decls[i]).name == n by {
            if graph_of(decls).contains_key(n) {
                if n == last.name {
                    assert(decls[decls.len() - 1].name == n);
                } else {
                    let i = choose|i: int| 0 <= i < front.len() && (#[trigger] front[i]).name == n;
                    assert(decls[i].name == n);
                }
            }
            if exists|i: int| 0 <= i < decls.len() && (#[trigger] decls[i]).name == n {
                let i = choose|i: int| 0 <= i < decls.len() && (#[trigger] decls[i]).name == n;
                if i < front.len() {
                    assert(front[i].name == n);
                }
            }
        }
        assert forall|i: int| 0 <= i < decls.len() && is_last_of_name(decls, i) implies graph_of(
            decls,
        )[(#[trigger] decls[i]).name] == dependencies(decls[i]) by {
            if i < front.len() {
                assert(decls[i].name != last.name) by {
                    assert(decls[decls.len() - 1].name == last.name);
                }
                assert(front[i] == decls[i]);
                assert(is_last_of_name(front, i)) by {
                    assert forall|j: int| i < j < front.len() implies (#[trigger] front[j]).name
                        != front[i].name by {
                        assert(decls[j].name != decls[i].name);
                    }
                }
            }
        }
    }
}

/// The order of the declarations does not matter to the graph, where no
/// two declarations have one name: two lists that hold the same
/// declarations have the same graph.
pub proof fn lemma_order_of_declarations(first: Seq<DeclarationView>, second: Seq<DeclarationView>)
    requires
        names_differ(first),
        names_differ(second),
        forall|d: DeclarationView| first.contains(d) <==> second.contains(d),
    ensures
        graph_of(first) == graph_of(second),
{
    lemma_graph_of(first);
    lemma_graph_of(second);
    assert forall|n: Seq<char>| graph_of(first).contains_key(n) implies graph_of(
        second,
    ).contains_key(n) && graph_of(first)[n] == graph_of(second)[n] by {
        let i = choose|i: int| 0 <= i < first.len() && (#[trigger] first[i]).name == n;
        assert(first.contains(first[i]));
        assert(second.contains(first[i]));
        let j = choose|j: int| 0 <= j < second.len() && second[j] == first[i];
        assert(second[j].name == n);
        assert(is_last_of_name(first, i));
        assert(is_last_of_name(second, j));
    }
    assert forall|n: Seq<char>| graph_of(second).contains_key(n) implies graph_of(
        first,
    ).contains_key(n) by {
        let j = choose|j: int| 0 <= j < second.len() && (#[trigger] second[j]).name == n;
        assert(second.contains(second[j]));
        assert(first.contains(second[j]));
        let i = choose|i: int| 0 <= i < first.len() && first[i] == second[j];
        assert(first[i].name == n);
    }
    assert(graph_of(first) =~= graph_of(second));
}

/// The order of the field groups and of the generic parameters does not
/// matter to the dependences of a declaration: two declarations that hold
/// the same groups and the same parameters have the same dependences.
pub proof fn lemma_order_within_declaration(first: DeclarationView, second: DeclarationView)
    requires
        forall|g: FieldGroupView| first.fields.contains(g) <==> second.fields.contains(g),
        forall|p: ParameterView| first.generics.contains(p) <==> second.generics.contains(p),
    ensures
        dependencies(first) == dependencies(second),
{
    lemma_same_groups(first.fields, second.fields);
    lemma_same_groups(second.fields, first.fields);
    lemma_same_parameters(first.generics, second.generics);
    lemma_same_parameters(second.generics, first.generics);
    assert(field_names(first.fields) =~= field_names(second.fields));
    assert(parameter_names(first.generics) =~= parameter_names(second.generics));
    assert(bound_names(first.generics) =~= bound_names(second.generics));
}

/// What the groups of one list mention, the groups of a list that holds
/// them all mention too.
proof fn lemma_same_groups(first: Seq<FieldGroupView>, second: Seq<FieldGroupView>)
    requires
        forall|g: FieldGroupView| first.contains(g) ==> second.contains(g),
    ensures
        forall|n: Seq<char>| groups_mention(first, n) ==> groups_mention(second, n),
{
    assert forall|n: Seq<char>| groups_mention(first, n) implies groups_mention(second, n) by {
        let i = choose|i: int| 0 <= i < first.len() && group_mentions(#[trigger] first[i], n);
        assert(first.contains(first[i]));
        let j = choose|j: int| 0 <= j < second.len() && second[j] == first[i];
        assert(group_mentions(second[j], n));
    }
}

/// The names and bound names of the parameters of one list are among
/// those of a list that holds them all.
proof fn lemma_same_parameters(first: Seq<ParameterView>, second: Seq<ParameterView>)
    requires
        forall|p: ParameterView| first.contains(p) ==> second.contains(p),
    ensures
        forall|n: Seq<char>| parameter_names(first).contains(n) ==> parameter_names(second).contains(n),
        forall|n: Seq<char>| bound_names(first).contains(n) ==> bound_names(second).contains(n),
{
    assert forall|n: Seq<char>| parameter_names(first).contains(n) implies parameter_names(
        second,
    ).contains(n) by {
        let i = choose|i: int|
            0 <= i < first.len() && (#[trigger] first[i] matches ParameterView::Type { name, .. }
                && name == n);
        assert(first.contains(first[i]));
        let j = choose|j: int| 0 <= j < second.len() && second[j] == first[i];
        assert(second[j] matches ParameterView::Type { name, .. } && name == n);
    }
    assert forall|n: Seq<char>| bound_names(first).contains(n) implies bound_names(
        second,
    ).contains(n) by {
        let i = choose|i: int| 0 <= i < first.len() && param_bound_mentions(#[trigger] first[i], n);
        assert(first.contains(first[i]));
        let j = choose|j: int| 0 <= j < second.len() && second[j] == first[i];
        assert(param_bound_mentions(second[j], n));
    }
}

/// Two builds of one source text in one mode agree: both fail, or both
/// succeed with graphs that have the same names and, for each name, the
/// same set of dependences and the same kind.
pub proof fn lemma_build_is_repeatable(
    source: Seq<char>,
    mode: Mode,
    first: Result<TypeMap, BuildError>,
    second: Result<TypeMap, BuildError>,
)
    requires
        is_build_of(source, mode, first),
        is_build_of(source, mode, second),
    ensures
        first is Ok <==> second is Ok,
        first matches Ok(a) ==> second matches Ok(b) && a@ == b@ && a.kinds() == b.kinds()
            && a.passed_over() == b.passed_over(),
        first matches Err(BuildError::Parse(s)) ==> second matches Err(BuildError::Parse(t)) && s@
            == t@,
        first matches Err(BuildError::UnsupportedDeclaration(i)) ==> second matches Err(
            BuildError::UnsupportedDeclaration(j),
        ) && i == j,
        first matches Err(BuildError::UnsupportedGenericParameter(i)) ==> second matches Err(
            BuildError::UnsupportedGenericParameter(j),
        ) && i == j,
{
}

} // verus!
