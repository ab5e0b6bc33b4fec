//! The dependences of a declaration: what its fields and the bounds of its
//! generic parameters give, without the names of the parameters themselves.

use vstd::prelude::*;
use crate::dependence::{Dependence, DependenceType, Edge};
use crate::extract::{
    add_names_of_bounds, add_names_of_types, add_type_names, bounds_mention, type_mentions,
    types_mention,
};
use crate::sets::{DepSet, NameSet};
use crate::syntax::{
    Declaration, DeclarationView, FieldGroup, FieldGroupView, NamedField, Parameter,
    ParameterView,
};

verus! {

/// Whether a field of the group mentions `n`.
pub open spec fn group_mentions(group: FieldGroupView, n: Seq<char>) -> bool {
    match group {
        FieldGroupView::Unit => false,
        FieldGroupView::Named(fs) => exists|i: int|
            0 <= i < fs.len() && type_mentions((#[trigger] fs[i]).ty, n),
        FieldGroupView::Unnamed(ts) => types_mention(ts, n),
    }
}

/// Whether a field of one of the groups mentions `n`.
pub open spec fn groups_mention(groups: Seq<FieldGroupView>, n: Seq<char>) -> bool {
    exists|i: int| 0 <= i < groups.len() && group_mentions(#[trigger] groups[i], n)
}

/// The base type names of all fields of the groups.
pub open spec fn field_names(groups: Seq<FieldGroupView>) -> Set<Seq<char>> {
    Set::new(|n: Seq<char>| groups_mention(groups, n))
}

/// Whether the parameter is a type parameter with a trait bound whose path
/// has the name `n`.
pub open spec fn param_bound_mentions(param: ParameterView, n: Seq<char>) -> bool {
    param matches ParameterView::Type { bounds, .. } && bounds_mention(bounds, n)
}

/// The names of the traits that bound the type parameters: for each trait
/// bound the name of its path. Lifetime and const parameters give none.
pub open spec fn bound_names(generics: Seq<ParameterView>) -> Set<Seq<char>> {
    Set::new(
        |n: Seq<char>|
            exists|i: int|
                0 <= i < generics.len() && param_bound_mentions(#[trigger] generics[i], n),
    )
}

/// The names of the type parameters. Lifetime and const parameters have
/// no part in it.
pub open spec fn parameter_names(generics: Seq<ParameterView>) -> Set<Seq<char>> {
    Set::new(
        |n: Seq<char>|
            exists|i: int|
                0 <= i < generics.len() && (#[trigger] generics[i] matches ParameterView::Type {
                    name,
                    ..
                } && name == n),
    )
}

/// The `Field` edges to the names.
pub open spec fn as_fields(names: Set<Seq<char>>) -> Set<Edge> {
    Set::new(|e: Edge| e matches Edge::Field(n) && names.contains(n))
}

/// The `Trait` edges to the names.
pub open spec fn as_traits(names: Set<Seq<char>>) -> Set<Edge> {
    Set::new(|e: Edge| e matches Edge::Trait(n) && names.contains(n))
}

/// The structural dependences of the field groups: a `Field` edge to each
/// base type name of each field.
pub open spec fn field_edges(groups: Seq<FieldGroupView>) -> Set<Edge> {
    as_fields(field_names(groups))
}

/// The behavioral dependences of the generic parameters: a `Trait` edge to
/// the name of each trait that bounds a type parameter.
pub open spec fn bound_edges(generics: Seq<ParameterView>) -> Set<Edge> {
    as_traits(bound_names(generics))
}

/// The dependences of a declaration: those of its fields, without the
/// `Field` edges to its own type parameters, together with those of its
/// trait bounds.
pub open spec fn dependencies(decl: DeclarationView) -> Set<Edge> {
    field_edges(decl.fields).difference(as_fields(parameter_names(decl.generics))).union(
        bound_edges(decl.generics),
    )
}

/// The views of the field groups, in order.
pub open spec fn group_views(groups: Seq<FieldGroup>) -> Seq<FieldGroupView> {
    groups.map_values(|g: FieldGroup| g@)
}

/// The views of the generic parameters, in order.
pub open spec fn param_views(generics: Seq<Parameter>) -> Seq<ParameterView> {
    generics.map_values(|p: Parameter| p@)
}

/// Adds to `acc` the base type names of the fields of the group.
fn add_group_names(group: &FieldGroup, acc: &mut NameSet)
    ensures
        final(acc)@ == old(acc)@.union(Set::new(|n: Seq<char>| group_mentions(group@, n))),
{
    let ghost start = acc@;
    match group {
        FieldGroup::Unit => {
            assert(acc@ =~= start.union(Set::new(|n: Seq<char>| group_mentions(group@, n))));
        },
        FieldGroup::Named(fs) => {
            let ghost views = fs@.map_values(|f: NamedField| f@);
            assert(acc@ =~= start.union(
                Set::new(|n: Seq<char>| group_mentions(FieldGroupView::Named(views.take(0)), n)),
            ));
            let mut i: usize = 0;
            while i < fs.len()
                invariant
                    i <= fs.len(),
                    views == fs@.map_values(|f: NamedField| f@),
                    acc@ == start.union(
                        Set::new(
                            |n: Seq<char>|
                                group_mentions(FieldGroupView::Named(views.take(i as int)), n),
                        ),
                    ),
                decreases fs.len() - i,
            {
                add_type_names(&fs[i].ty, acc);
                proof {
                    let seen = views.take(i as int);
                    let next = views.take(i + 1);
                    assert(next =~= seen.push(views[i as int]));
                    assert forall|n: Seq<char>|
                        group_mentions(FieldGroupView::Named(next), n) <==> (group_mentions(
                            FieldGroupView::Named(seen),
                            n,
                        ) || type_mentions(views[i as int].ty, n)) by {
                        if group_mentions(FieldGroupView::Named(seen), n) {
                            let k = choose|k: int|
                                0 <= k < seen.len() && type_mentions((#[trigger] seen[k]).ty, n);
                            assert(type_mentions(next[k].ty, n));
                        }
                        if type_mentions(views[i as int].ty, n) {
                            assert(type_mentions(next[i as int].ty, n));
                        }
                    }
                    assert(acc@ =~= start.union(
                        Set::new(|n: Seq<char>| group_mentions(FieldGroupView::Named(next), n)),
                    ));
                }
                i += 1;
            }
            assert(views.take(i as int) =~= views);
        },
        FieldGroup::Unnamed(ts) => {
            add_names_of_types(ts, acc);
            assert(acc@ =~= start.union(Set::new(|n: Seq<char>| group_mentions(group@, n))));
        },
    }
}

/// One more group adds the names that its fields mention.
proof fn lemma_field_names_push(groups: Seq<FieldGroupView>, group: FieldGroupView)
    ensures
        field_names(groups.push(group)) == field_names(groups).union(
            Set::new(|n: Seq<char>| group_mentions(group, n)),
        ),
{
    let next = groups.push(group);
    assert forall|n: Seq<char>| groups_mention(next, n) <==> (groups_mention(groups, n)
        || group_mentions(group, n)) by {
        if groups_mention(groups, n) {
            let k = choose|k: int| 0 <= k < groups.len() && group_mentions(#[trigger] groups[k], n);
            assert(group_mentions(next[k], n));
        }
        if group_mentions(group, n) {
            assert(group_mentions(next[groups.len() as int], n));
        }
    }
    assert(field_names(next) =~= field_names(groups).union(
        Set::new(|n: Seq<char>| group_mentions(group, n)),
    ));
}

/// The base type names of all fields of the groups.
fn names_of_fields(fields: &Vec<FieldGroup>) -> (names: NameSet)
    ensures
        names@ == field_names(group_views(fields@)),
{
    let ghost views = group_views(fields@);
    let mut names = NameSet::new();
    assert(names@ =~= field_names(views.take(0)));
    let mut i: usize = 0;
    while i < fields.len()
        invariant
            i <= fields.len(),
            views == group_views(fields@),
            names@ == field_names(views.take(i as int)),
        decreases fields.len() - i,
    {
        add_group_names(&fields[i], &mut names);
        proof {
            lemma_field_names_push(views.take(i as int), views[i as int]);
            assert(views.take(i + 1) =~= views.take(i as int).push(views[i as int]));
        }
        i += 1;
    }
    assert(views.take(i as int) =~= views);
    names
}

/// Whether every dependence of the list has the kind that goes with its tag.
pub open spec fn kinds_follow_tags(elements: Seq<Dependence>) -> bool {
    forall|i: int| 0 <= i < elements.len() ==> (#[trigger] elements[i]).kind_follows_tag()
}

/// Whether every dependence of the list is a `Field` of the given kind.
pub open spec fn all_fields_of(elements: Seq<Dependence>, kind: DependenceType) -> bool {
    forall|i: int|
        0 <= i < elements.len() ==> (#[trigger] elements[i]) is Field && elements[i].kind() == kind
}

/// A `Field` dependence of the given kind on each of the names.
fn fields_from_names(names: &NameSet, kind: DependenceType) -> (deps: DepSet)
    ensures
        deps@ == as_fields(names@),
        all_fields_of(deps.elements(), kind),
{
    let list = names.names();
    let ghost listing = names.listing();
    let mut deps = DepSet::new();
    assert(deps@ =~= as_fields(listing.take(0).to_set()));
    let mut i: usize = 0;
    while i < list.len()
        invariant
            i <= list.len(),
            listing == list@.map_values(|s: String| s@),
            deps@ == as_fields(listing.take(i as int).to_set()),
            all_fields_of(deps.elements(), kind),
        decreases list.len() - i,
    {
        let dep = Dependence::Field(list[i].clone(), kind);
        deps.insert(dep);
        proof {
            let seen = listing.take(i as int);
            assert(listing.take(i + 1) =~= seen.push(listing[i as int]));
            seen.lemma_push_to_set_commute(listing[i as int]);
            assert(deps@ =~= as_fields(listing.take(i + 1).to_set()));
        }
        i += 1;
    }
    assert(listing.take(i as int) =~= listing);
    deps
}

/// A `Trait` dependence of kind `Trait` on each of the names.
fn traits_from_names(names: &NameSet) -> (deps: DepSet)
    ensures
        deps@ == as_traits(names@),
        kinds_follow_tags(deps.elements()),
{
    let list = names.names();
    let ghost listing = names.listing();
    let mut deps = DepSet::new();
    assert(deps@ =~= as_traits(listing.take(0).to_set()));
    let mut i: usize = 0;
    while i < list.len()
        invariant
            i <= list.len(),
            listing == list@.map_values(|s: String| s@),
            deps@ == as_traits(listing.take(i as int).to_set()),
            kinds_follow_tags(deps.elements()),
        decreases list.len() - i,
    {
        let dep = Dependence::Trait(list[i].clone(), DependenceType::Trait);
        deps.insert(dep);
        proof {
            let seen = listing.take(i as int);
            assert(listing.take(i + 1) =~= seen.push(listing[i as int]));
            seen.lemma_push_to_set_commute(listing[i as int]);
            assert(deps@ =~= as_traits(listing.take(i + 1).to_set()));
        }
        i += 1;
    }
    assert(listing.take(i as int) =~= listing);
    deps
}

/// The structural dependences of the field groups: for each base type name
/// of each field, a `Field` dependence of kind `Type`.
pub fn field_dependents(fields: &Vec<FieldGroup>) -> (deps: DepSet)
    ensures
        deps@ == field_edges(group_views(fields@)),
        kinds_follow_tags(deps.elements()),
{
    let names = names_of_fields(fields);
    fields_from_names(&names, DependenceType::Type)
}

/// The behavioral dependences of the generic parameters: for each trait
/// that bounds a type parameter, a `Trait` dependence of kind `Trait` on
/// the name of its path.
pub fn generic_dependents(generics: &Vec<Parameter>) -> (deps: DepSet)
    ensures
        deps@ == bound_edges(param_views(generics@)),
        kinds_follow_tags(deps.elements()),
{
    let ghost views = param_views(generics@);
    let mut names = NameSet::new();
    assert(names@ =~= bound_names(views.take(0)));
    let mut i: usize = 0;
    while i < generics.len()
        invariant
            i <= generics.len(),
            views == param_views(generics@),
            names@ == bound_names(views.take(i as int)),
        decreases generics.len() - i,
    {
        match &generics[i] {
            Parameter::Type { name: _, bounds } => {
                add_names_of_bounds(bounds, &mut names);
            },
            Parameter::Lifetime => {},
            Parameter::Const => {},
        }
        proof {
            let seen = views.take(i as int);
            let next = views.take(i + 1);
            assert(next =~= seen.push(views[i as int]));
            assert forall|n: Seq<char>|
                bound_names(next).contains(n) <==> (bound_names(seen).contains(n)
                    || param_bound_mentions(views[i as int], n)) by {
                if bound_names(seen).contains(n) {
                    let k = choose|k: int|
                        0 <= k < seen.len() && param_bound_mentions(#[trigger] seen[k], n);
                    assert(param_bound_mentions(next[k], n));
                }
                if param_bound_mentions(views[i as int], n) {
                    assert(param_bound_mentions(next[i as int], n));
                }
            }
            assert(names@ =~= bound_names(next));
        }
        i += 1;
    }
    assert(views.take(i as int) =~= views);
    traits_from_names(&names)
}

/// The names of the type parameters.
pub fn generic_names(generics: &Vec<Parameter>) -> (names: NameSet)
    ensures
        names@ == parameter_names(param_views(generics@)),
{
    let ghost views = param_views(generics@);
    let mut names = NameSet::new();
    assert(names@ =~= parameter_names(views.take(0)));
    let mut i: usize = 0;
    while i < generics.len()
        invariant
            i <= generics.len(),
            views == param_views(generics@),
            names@ == parameter_names(views.take(i as int)),
        decreases generics.len() - i,
    {
        match &generics[i] {
            Parameter::Type { name, bounds: _ } => {
                names.insert(name.clone());
            },
            Parameter::Lifetime => {},
            Parameter::Const => {},
        }
        proof {
            let seen = views.take(i as int);
            let next = views.take(i + 1);
            let param = views[i as int];
            assert(next =~= seen.push(param));
            assert forall|n: Seq<char>|
                parameter_names(next).contains(n) <==> (parameter_names(seen).contains(n) || (
                param matches ParameterView::Type { name, .. } && name == n)) by {
                if parameter_names(seen).contains(n) {
                    let k = choose|k: int|
                        0 <= k < seen.len() && (#[trigger] seen[k] matches ParameterView::Type {
                            name,
                            ..
                        } && name == n);
                    assert(next[k] == seen[k]);
                }
                if param matches ParameterView::Type { name, .. } && name == n {
                    assert(next[i as int] == param);
                }
            }
            assert(names@ =~= parameter_names(next));
        }
        i += 1;
    }
    assert(views.take(i as int) =~= views);
    names
}

/// The dependences of a declaration.
pub fn dependencies_of(decl: &Declaration) -> (deps: DepSet)
    ensures
        deps@ == dependencies(decl@),
        kinds_follow_tags(deps.elements()),
{
    let field_deps = field_dependents(&decl.fields);
    let generic_deps = generic_dependents(&decl.generics);
    let names = generic_names(&decl.generics);
    let placeholders = fields_from_names(&names, DependenceType::Temp);
    let rest = field_deps.difference(&placeholders);
    let deps = rest.union(&generic_deps);
    proof {
        assert forall|i: int| 0 <= i < deps.elements().len() implies (
        #[trigger] deps.elements()[i]).kind_follows_tag() by {
            let d = deps.elements()[i];
            if !generic_deps.elements().contains(d) {
                assert(rest.elements().contains(d));
                let j = choose|j: int| 0 <= j < rest.elements().len() && rest.elements()[j] == d;
                assert(field_deps.elements().contains(rest.elements()[j]));
            }
        }
    }
    deps
}

} // verus!
