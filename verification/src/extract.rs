//! The names that a type expression mentions.

use vstd::prelude::*;
use vstd::string::StringExecFns;
use crate::sets::NameSet;
use crate::syntax::{
    argument_views, bound_views, segment_views, type_views, Argument, ArgumentView, SegmentView,
    TypeBound, TypeBoundView, TypeExpr, TypeExprView, TypePath, TypePathView,
};

verus! {

/// The names joined by `::`.
pub open spec fn joined(names: Seq<Seq<char>>) -> Seq<char>
    decreases names.len(),
{
    if names.len() == 0 {
        Seq::empty()
    } else if names.len() == 1 {
        names[0]
    } else {
        joined(names.drop_last()) + "::"@ + names.last()
    }
}

/// The name of a path: the names of its segments joined by `::`.
pub open spec fn path_name(path: TypePathView) -> Seq<char> {
    joined(path.segments.map_values(|s: SegmentView| s.ident))
}

/// Whether the type expression mentions the name `n`.
///
/// A path mentions its own name and what the type arguments in its angle
/// brackets mention. An array, a slice, a reference, a tuple and a function
/// pointer mention what their parts mention and nothing of their own. An
/// `impl Trait` type mentions the names of the paths of its trait bounds:
/// names of traits, which come out among the names of types. Any other
/// form mentions nothing.
pub open spec fn type_mentions(ty: TypeExprView, n: Seq<char>) -> bool
    decreases ty,
{
    match ty {
        TypeExprView::Path(p) => path_mentions(p, n),
        TypeExprView::Array(e) => type_mentions(*e, n),
        TypeExprView::Slice(e) => type_mentions(*e, n),
        TypeExprView::Reference(e) => type_mentions(*e, n),
        TypeExprView::Tuple(es) => types_mention(es, n),
        TypeExprView::BareFn { inputs, output } => types_mention(inputs, n) || (output matches Some(
            o,
        ) && type_mentions(*o, n)),
        TypeExprView::ImplTrait(bs) => bounds_mention(bs, n),
        TypeExprView::Other => false,
    }
}

/// Whether one of the type expressions mentions `n`.
pub open spec fn types_mention(tys: Seq<TypeExprView>, n: Seq<char>) -> bool
    decreases tys,
{
    exists|i: int| 0 <= i < tys.len() && type_mentions(#[trigger] tys[i], n)
}

/// Whether the path mentions `n`: as its name, or in a type argument.
pub open spec fn path_mentions(path: TypePathView, n: Seq<char>) -> bool
    decreases path,
{
    n == path_name(path) || segments_mention(path.segments, n)
}

/// Whether a type argument of one of the segments mentions `n`.
pub open spec fn segments_mention(segments: Seq<SegmentView>, n: Seq<char>) -> bool
    decreases segments,
{
    exists|i: int| 0 <= i < segments.len() && arguments_mention((#[trigger] segments[i]).arguments, n)
}

/// Whether one of the arguments is a type that mentions `n`.
pub open spec fn arguments_mention(arguments: Seq<ArgumentView>, n: Seq<char>) -> bool
    decreases arguments,
{
    exists|i: int| 0 <= i < arguments.len() && argument_mentions(#[trigger] arguments[i], n)
}

/// Whether the argument is a type that mentions `n`.
pub open spec fn argument_mentions(argument: ArgumentView, n: Seq<char>) -> bool
    decreases argument,
{
    argument matches ArgumentView::Type(t) && type_mentions(t, n)
}

/// Whether the bound is a trait bound whose path has the name `n`. What
/// stands in the angle brackets of the path does not count.
pub open spec fn bound_mentions(bound: TypeBoundView, n: Seq<char>) -> bool {
    bound matches TypeBoundView::Trait(p) && n == path_name(p)
}

/// Whether one of the bounds is a trait bound whose path has the name `n`.
pub open spec fn bounds_mention(bounds: Seq<TypeBoundView>, n: Seq<char>) -> bool {
    exists|i: int| 0 <= i < bounds.len() && bound_mentions(#[trigger] bounds[i], n)
}

/// The base type names of a type expression.
pub open spec fn base_names(ty: TypeExprView) -> Set<Seq<char>> {
    Set::new(|n: Seq<char>| type_mentions(ty, n))
}

/// The names that a path gives: its own and those of its type arguments.
pub open spec fn path_names(path: TypePathView) -> Set<Seq<char>> {
    Set::new(|n: Seq<char>| path_mentions(path, n))
}

/// The names that one of the type expressions mentions.
pub open spec fn names_of_types(tys: Seq<TypeExprView>) -> Set<Seq<char>> {
    Set::new(|n: Seq<char>| types_mention(tys, n))
}

/// The names of the paths of the trait bounds among `bounds`.
pub open spec fn names_of_bounds(bounds: Seq<TypeBoundView>) -> Set<Seq<char>> {
    Set::new(|n: Seq<char>| bounds_mention(bounds, n))
}

/// The names that the types among the arguments mention.
pub open spec fn names_of_arguments(arguments: Seq<ArgumentView>) -> Set<Seq<char>> {
    Set::new(|n: Seq<char>| arguments_mention(arguments, n))
}

/// The names that the type arguments of the segments mention.
pub open spec fn names_of_segments(segments: Seq<SegmentView>) -> Set<Seq<char>> {
    Set::new(|n: Seq<char>| segments_mention(segments, n))
}

/// One more bound adds the name of its path.
proof fn lemma_names_of_bounds_push(bounds: Seq<TypeBoundView>, bound: TypeBoundView)
    ensures
        names_of_bounds(bounds.push(bound)) == names_of_bounds(bounds).union(
            Set::new(|n: Seq<char>| bound_mentions(bound, n)),
        ),
{
    let next = bounds.push(bound);
    assert forall|n: Seq<char>| bounds_mention(next, n) <==> (bounds_mention(bounds, n)
        || bound_mentions(bound, n)) by {
        if bounds_mention(bounds, n) {
            let k = choose|k: int| 0 <= k < bounds.len() && bound_mentions(#[trigger] bounds[k], n);
            assert(bound_mentions(next[k], n));
        }
        if bound_mentions(bound, n) {
            assert(bound_mentions(next[bounds.len() as int], n));
        }
    }
    assert(names_of_bounds(next) =~= names_of_bounds(bounds).union(
        Set::new(|n: Seq<char>| bound_mentions(bound, n)),
    ));
}

/// One more argument adds the names that it mentions.
proof fn lemma_names_of_arguments_push(
    arguments: Seq<ArgumentView>,
    argument: ArgumentView,
)
    ensures
        names_of_arguments(arguments.push(argument)) == names_of_arguments(arguments).union(
            Set::new(|n: Seq<char>| argument_mentions(argument, n)),
        ),
{
    let next = arguments.push(argument);
    assert forall|n: Seq<char>| arguments_mention(next, n) <==> (arguments_mention(arguments, n)
        || argument_mentions(argument, n)) by {
        if arguments_mention(arguments, n) {
            let k = choose|k: int|
                0 <= k < arguments.len() && argument_mentions(#[trigger] arguments[k], n);
            assert(argument_mentions(next[k], n));
        }
        if argument_mentions(argument, n) {
            assert(argument_mentions(next[arguments.len() as int], n));
        }
    }
    assert(names_of_arguments(next) =~= names_of_arguments(arguments).union(
        Set::new(|n: Seq<char>| argument_mentions(argument, n)),
    ));
}

/// One more segment adds the names that its type arguments mention.
proof fn lemma_names_of_segments_push(segments: Seq<SegmentView>, segment: SegmentView)
    ensures
        names_of_segments(segments.push(segment)) == names_of_segments(segments).union(
            names_of_arguments(segment.arguments),
        ),
{
    let next = segments.push(segment);
    assert forall|n: Seq<char>| segments_mention(next, n) <==> (segments_mention(segments, n)
        || arguments_mention(segment.arguments, n)) by {
        if segments_mention(segments, n) {
            let k = choose|k: int|
                0 <= k < segments.len() && arguments_mention((#[trigger] segments[k]).arguments, n);
            assert(arguments_mention(next[k].arguments, n));
        }
        if arguments_mention(segment.arguments, n) {
            assert(arguments_mention(next[segments.len() as int].arguments, n));
        }
    }
    assert(names_of_segments(next) =~= names_of_segments(segments).union(
        names_of_arguments(segment.arguments),
    ));
}

/// One more type expression adds the names that it mentions.
proof fn lemma_names_of_types_push(tys: Seq<TypeExprView>, ty: TypeExprView)
    ensures
        names_of_types(tys.push(ty)) == names_of_types(tys).union(base_names(ty)),
{
    let next = tys.push(ty);
    assert forall|n: Seq<char>| types_mention(next, n) <==> (types_mention(tys, n)
        || type_mentions(ty, n)) by {
        if types_mention(tys, n) {
            let k = choose|k: int| 0 <= k < tys.len() && type_mentions(#[trigger] tys[k], n);
            assert(type_mentions(next[k], n));
        }
        if type_mentions(ty, n) {
            assert(type_mentions(next[tys.len() as int], n));
        }
    }
    assert(names_of_types(next) =~= names_of_types(tys).union(base_names(ty)));
}

/// The name of a path as text.
pub fn path_text(path: &TypePath) -> (name: String)
    ensures
        name@ == path_name(path@),
{
    let ghost idents = path@.segments.map_values(|s: SegmentView| s.ident);
    let mut name = String::new();
    let mut i: usize = 0;
    while i < path.segments.len()
        invariant
            i <= path.segments.len(),
            idents == path@.segments.map_values(|s: SegmentView| s.ident),
            idents.len() == path.segments.len(),
            name@ == joined(idents.take(i as int)),
        decreases path.segments.len() - i,
    {
        proof {
            let next = idents.take(i + 1);
            assert(next.drop_last() =~= idents.take(i as int));
            assert(next.last() == path.segments@[i as int].ident@);
            if i == 0 {
                assert(name@ + path.segments@[i as int].ident@ =~= next[0]);
            }
        }
        if i > 0 {
            name.append("::");
        }
        name.append(path.segments[i].ident.as_str());
        i += 1;
    }
    assert(idents.take(i as int) =~= idents);
    name
}

/// Adds to `acc` the names that the type expression mentions.
pub(crate) fn add_type_names(ty: &TypeExpr, acc: &mut NameSet)
    ensures
        final(acc)@ == old(acc)@.union(base_names(ty@)),
    decreases ty,
{
    match ty {
        TypeExpr::Path(p) => {
            add_path_names(p, acc);
            assert(path_names(p@) =~= base_names(ty@));
        },
        TypeExpr::Array(e) => {
            add_type_names(e, acc);
            assert(base_names(e@) =~= base_names(ty@));
        },
        TypeExpr::Slice(e) => {
            add_type_names(e, acc);
            assert(base_names(e@) =~= base_names(ty@));
        },
        TypeExpr::Reference(e) => {
            add_type_names(e, acc);
            assert(base_names(e@) =~= base_names(ty@));
        },
        TypeExpr::Tuple(es) => {
            add_names_of_types(es, acc);
            assert(names_of_types(type_views(es@)) =~= base_names(ty@));
        },
        TypeExpr::BareFn { inputs, output } => {
            let ghost start = acc@;
            match output {
                Some(o) => {
                    add_type_names(o, acc);
                },
                None => {},
            }
            add_names_of_types(inputs, acc);
            assert(acc@ =~= start.union(base_names(ty@)));
        },
        TypeExpr::ImplTrait(bs) => {
            add_names_of_bounds(bs, acc);
            assert(names_of_bounds(bound_views(bs@)) =~= base_names(ty@));
        },
        TypeExpr::Other => {
            assert(acc@ =~= acc@.union(base_names(ty@)));
        },
    }
}

/// Adds to `acc` the names that the type expressions mention.
pub(crate) fn add_names_of_types(tys: &Vec<TypeExpr>, acc: &mut NameSet)
    ensures
        final(acc)@ == old(acc)@.union(names_of_types(type_views(tys@))),
    decreases tys,
{
    let ghost start = acc@;
    let ghost views = type_views(tys@);
    assert(acc@ =~= start.union(names_of_types(views.take(0))));
    let mut i: usize = 0;
    while i < tys.len()
        invariant
            i <= tys.len(),
            views == type_views(tys@),
            views.len() == tys.len(),
            acc@ == start.union(names_of_types(views.take(i as int))),
        decreases tys.len() - i,
    {
        add_type_names(&tys[i], acc);
        proof {
            assert(views[i as int] == tys@[i as int]@);
            lemma_names_of_types_push(views.take(i as int), views[i as int]);
            assert(views.take(i + 1) =~= views.take(i as int).push(views[i as int]));
            assert(acc@ =~= start.union(names_of_types(views.take(i + 1))));
        }
        i += 1;
    }
    proof {
        assert(views.take(i as int) =~= views);
    }
}

/// Adds to `acc` the names that the path gives.
fn add_path_names(path: &TypePath, acc: &mut NameSet)
    ensures
        final(acc)@ == old(acc)@.union(path_names(path@)),
    decreases path,
{
    let ghost start = acc@;
    let ghost segments = segment_views(path.segments@);
    assert(acc@ =~= start.union(names_of_segments(segments.take(0))));
    let mut i: usize = 0;
    while i < path.segments.len()
        invariant
            i <= path.segments.len(),
            segments == segment_views(path.segments@),
            segments.len() == path.segments.len(),
            acc@ == start.union(names_of_segments(segments.take(i as int))),
        decreases path.segments.len() - i,
    {
        add_names_of_arguments(&path.segments[i].arguments, acc);
        proof {
            assert(segments[i as int] == path.segments@[i as int]@);
            lemma_names_of_segments_push(segments.take(i as int), segments[i as int]);
            assert(segments.take(i + 1) =~= segments.take(i as int).push(segments[i as int]));
            assert(acc@ =~= start.union(names_of_segments(segments.take(i + 1))));
        }
        i += 1;
    }
    let name = path_text(path);
    acc.insert(name);
    proof {
        assert(segments.take(i as int) =~= segments);
        assert(acc@ =~= start.union(path_names(path@)));
    }
}

/// Adds to `acc` the names that the types among the arguments mention.
fn add_names_of_arguments(arguments: &Vec<Argument>, acc: &mut NameSet)
    ensures
        final(acc)@ == old(acc)@.union(names_of_arguments(argument_views(arguments@))),
    decreases arguments,
{
    let ghost start = acc@;
    let ghost views = argument_views(arguments@);
    assert(acc@ =~= start.union(names_of_arguments(views.take(0))));
    let mut i: usize = 0;
    while i < arguments.len()
        invariant
            i <= arguments.len(),
            views == argument_views(arguments@),
            views.len() == arguments.len(),
            acc@ == start.union(names_of_arguments(views.take(i as int))),
        decreases arguments.len() - i,
    {
        match &arguments[i] {
            Argument::Type(t) => {
                add_type_names(t, acc);
            },
            Argument::Other => {},
        }
        proof {
            assert(views[i as int] == arguments@[i as int]@);
            lemma_names_of_arguments_push(views.take(i as int), views[i as int]);
            assert(views.take(i + 1) =~= views.take(i as int).push(views[i as int]));
            assert(acc@ =~= start.union(names_of_arguments(views.take(i + 1))));
        }
        i += 1;
    }
    proof {
        assert(views.take(i as int) =~= views);
    }
}

/// Adds to `acc` the names of the paths of the trait bounds among `bounds`.
pub(crate) fn add_names_of_bounds(bounds: &Vec<TypeBound>, acc: &mut NameSet)
    ensures
        final(acc)@ == old(acc)@.union(names_of_bounds(bound_views(bounds@))),
{
    let ghost start = acc@;
    let ghost views = bound_views(bounds@);
    assert(acc@ =~= start.union(names_of_bounds(views.take(0))));
    let mut i: usize = 0;
    while i < bounds.len()
        invariant
            i <= bounds.len(),
            views == bound_views(bounds@),
            views.len() == bounds.len(),
            acc@ == start.union(names_of_bounds(views.take(i as int))),
        decreases bounds.len() - i,
    {
        match &bounds[i] {
            TypeBound::Trait(p) => {
                acc.insert(path_text(p));
            },
            TypeBound::Other => {},
        }
        proof {
            assert(views[i as int] == bounds@[i as int]@);
            lemma_names_of_bounds_push(views.take(i as int), views[i as int]);
            assert(views.take(i + 1) =~= views.take(i as int).push(views[i as int]));
            assert(acc@ =~= start.union(names_of_bounds(views.take(i + 1))));
        }
        i += 1;
    }
    proof {
        assert(views.take(i as int) =~= views);
    }
}

/// The base type names of a type expression.
pub fn base_types(ty: &TypeExpr) -> (names: NameSet)
    ensures
        names@ == base_names(ty@),
{
    let mut names = NameSet::new();
    add_type_names(ty, &mut names);
    assert(names@ =~= base_names(ty@));
    names
}

/// The names that a path gives: its own name and the base type names of the
/// type arguments in its angle brackets.
pub fn types_from_path(path: &TypePath) -> (names: NameSet)
    ensures
        names@ == path_names(path@),
{
    let mut names = NameSet::new();
    add_path_names(path, &mut names);
    assert(names@ =~= path_names(path@));
    names
}

} // verus!
