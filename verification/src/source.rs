//! Reading source text: the parser is `syn`, and this module turns what it
//! returns into the items of [`crate::syntax`].
//!
//! A syntax node of `syn` is opaque to the verifier. For each kind of node a
//! function without a body names the shape that the node stands for, and a
//! small function opens one level of a node and says how the shape of the
//! node is made of the shapes of its parts. The verified functions of this
//! module walk a tree with these and rebuild it as a value of the library.

use vstd::prelude::*;
use crate::assemble::{item_views, BuildError};
use crate::dependence::DependenceType;
use crate::syntax::{
    argument_views, bound_views, segment_views, type_views, Argument, ArgumentView, Declaration,
    FieldGroup, FieldGroupView, NamedField, NamedFieldView, Parameter, ParameterView, Segment,
    SegmentView, SourceItem, SourceItemView, TypeBound, TypeBoundView, TypeExpr, TypeExprView,
    TypePath, TypePathView,
};

verus! {

/// `syn::Item`: a top-level item of a parsed file.
#[verifier::external_type_specification]
#[verifier::external_body]
pub struct ExItem(syn::Item);

/// `syn::Fields`: the fields of a struct or of an enum variant.
#[verifier::external_type_specification]
#[verifier::external_body]
pub struct ExFields(syn::Fields);

/// `syn::GenericParam`: one parameter between the angle brackets of a
/// declaration.
#[verifier::external_type_specification]
#[verifier::external_body]
pub struct ExGenericParam(syn::GenericParam);

/// `syn::TypeParamBound`: one bound of a type parameter or of an
/// `impl Trait` type.
#[verifier::external_type_specification]
#[verifier::external_body]
pub struct ExTypeParamBound(syn::TypeParamBound);

/// `syn::PathSegment`: one segment of a path.
#[verifier::external_type_specification]
#[verifier::external_body]
pub struct ExPathSegment(syn::PathSegment);

/// `syn::Type`: a type expression.
#[verifier::external_type_specification]
#[verifier::external_body]
pub struct ExType(syn::Type);

/// `syn::Error`: why a source text could not be parsed.
#[verifier::external_type_specification]
#[verifier::external_body]
pub struct ExError(syn::Error);

/// What `syn::parse_file` makes of a source text: the shapes of the items
/// of the file in order, or the text of the error.
pub uninterp spec fn parsed(source: Seq<char>) -> Result<Seq<SourceItemView>, Seq<char>>;

/// The message of a parse error, as `error_text` hands it out.
pub uninterp spec fn diagnostic(error: syn::Error) -> Seq<char>;

/// The shape of an item: the declaration that it is, with its kind, name,
/// field groups and generic parameters, or `Unsupported`. The contracts of
/// `item_name`, `item_generics` and `item_fields` say how it is read off
/// the node.
pub uninterp spec fn item_model(item: syn::Item) -> SourceItemView;

/// The shape of the fields of a struct or of a variant, as the contract of
/// `fields_node` reads it off the node.
pub uninterp spec fn fields_model(fields: syn::Fields) -> FieldGroupView;

/// The shape of a generic parameter, as the contract of `param_node` reads
/// it off the node.
pub uninterp spec fn param_model(param: syn::GenericParam) -> ParameterView;

/// The shape of a bound, as the contract of `bound_node` reads it off the
/// node.
pub uninterp spec fn bound_model(bound: syn::TypeParamBound) -> TypeBoundView;

/// The shape of a path segment, as the contract of `segment_node` reads it
/// off the node.
pub uninterp spec fn segment_model(segment: syn::PathSegment) -> SegmentView;

/// The shape of a type expression, as the contracts of `type_node` and
/// `bare_fn_node` read it off the node.
pub uninterp spec fn type_model(ty: syn::Type) -> TypeExprView;

/// The shapes of the items, in order.
pub open spec fn item_models(items: Seq<syn::Item>) -> Seq<SourceItemView> {
    items.map_values(|item: syn::Item| item_model(item))
}

/// The shapes of the field groups, in order.
pub open spec fn fields_models(groups: Seq<&syn::Fields>) -> Seq<FieldGroupView> {
    groups.map_values(|fields: &syn::Fields| fields_model(*fields))
}

/// The shapes of the generic parameters, in order.
pub open spec fn param_models(params: Seq<&syn::GenericParam>) -> Seq<ParameterView> {
    params.map_values(|param: &syn::GenericParam| param_model(*param))
}

/// The shapes of the bounds, in order.
pub open spec fn bound_models(bounds: Seq<&syn::TypeParamBound>) -> Seq<TypeBoundView> {
    bounds.map_values(|bound: &syn::TypeParamBound| bound_model(*bound))
}

/// The shapes of the path segments, in order.
pub open spec fn segment_models(segments: Seq<&syn::PathSegment>) -> Seq<SegmentView> {
    segments.map_values(|segment: &syn::PathSegment| segment_model(*segment))
}

/// The generic arguments that are given by their types, in order: a type
/// argument by its type, every other argument by nothing.
pub open spec fn argument_models(arguments: Seq<Option<&syn::Type>>) -> Seq<ArgumentView> {
    arguments.map_values(
        |argument: Option<&syn::Type>|
            match argument {
                Some(ty) => ArgumentView::Type(type_model(*ty)),
                None => ArgumentView::Other,
            },
    )
}

/// The shapes of the type expressions, in order.
pub open spec fn type_models(tys: Seq<&syn::Type>) -> Seq<TypeExprView> {
    tys.map_values(|ty: &syn::Type| type_model(*ty))
}

/// The name of a field as text: the empty text where it has none.
pub open spec fn name_text(name: Option<String>) -> Seq<char> {
    match name {
        Some(n) => n@,
        None => Seq::empty(),
    }
}

/// The shapes of fields given by name and type, in order.
pub open spec fn named_models(fields: Seq<(Option<String>, &syn::Type)>) -> Seq<NamedFieldView> {
    fields.map_values(
        |field: (Option<String>, &syn::Type)|
            NamedFieldView { name: name_text(field.0), ty: type_model(*field.1) },
    )
}

/// The fields of an item: the groups of a struct or an enum, or the named
/// fields of a union.
enum ItemFields<'a> {
    Groups(Vec<&'a syn::Fields>),
    Union(Vec<(Option<String>, &'a syn::Type)>),
}

/// One level of the fields of a struct or of a variant.
enum FieldsNode<'a> {
    Unit,
    Named(Vec<(Option<String>, &'a syn::Type)>),
    Unnamed(Vec<&'a syn::Type>),
}

/// One level of a generic parameter.
enum ParamNode<'a> {
    Type(String, Vec<&'a syn::TypeParamBound>),
    Lifetime,
    Const,
}

/// One level of a bound.
enum BoundNode<'a> {
    Trait(Vec<&'a syn::PathSegment>),
    Other,
}

/// One level of a type expression that is no function pointer.
enum TypeNode<'a> {
    Path(Vec<&'a syn::PathSegment>),
    Array(&'a syn::Type),
    Slice(&'a syn::Type),
    Reference(&'a syn::Type),
    Tuple(Vec<&'a syn::Type>),
    ImplTrait(Vec<&'a syn::TypeParamBound>),
    Other,
}

/// The field groups that the fields of an item stand for.
spec fn item_fields_model(fields: ItemFields) -> Seq<FieldGroupView> {
    match fields {
        ItemFields::Groups(groups) => fields_models(groups@),
        ItemFields::Union(named) => seq![FieldGroupView::Named(named_models(named@))],
    }
}

/// The field group that one level of fields stands for.
spec fn fields_node_model(node: FieldsNode) -> FieldGroupView {
    match node {
        FieldsNode::Unit => FieldGroupView::Unit,
        FieldsNode::Named(named) => FieldGroupView::Named(named_models(named@)),
        FieldsNode::Unnamed(tys) => FieldGroupView::Unnamed(type_models(tys@)),
    }
}

/// The generic parameter that one level of a parameter stands for.
spec fn param_node_model(node: ParamNode) -> ParameterView {
    match node {
        ParamNode::Type(name, bounds) => ParameterView::Type {
            name: name@,
            bounds: bound_models(bounds@),
        },
        ParamNode::Lifetime => ParameterView::Lifetime,
        ParamNode::Const => ParameterView::Const,
    }
}

/// The bound that one level of a bound stands for.
spec fn bound_node_model(node: BoundNode) -> TypeBoundView {
    match node {
        BoundNode::Trait(segments) => TypeBoundView::Trait(
            TypePathView { segments: segment_models(segments@) },
        ),
        BoundNode::Other => TypeBoundView::Other,
    }
}

/// The type expression that one level of a type stands for.
spec fn type_node_model(node: TypeNode) -> TypeExprView {
    match node {
        TypeNode::Path(segments) => TypeExprView::Path(
            TypePathView { segments: segment_models(segments@) },
        ),
        TypeNode::Array(elem) => TypeExprView::Array(Box::new(type_model(*elem))),
        TypeNode::Slice(elem) => TypeExprView::Slice(Box::new(type_model(*elem))),
        TypeNode::Reference(elem) => TypeExprView::Reference(Box::new(type_model(*elem))),
        TypeNode::Tuple(elems) => TypeExprView::Tuple(type_models(elems@)),
        TypeNode::ImplTrait(bounds) => TypeExprView::ImplTrait(bound_models(bounds@)),
        TypeNode::Other => TypeExprView::Other,
    }
}

/// The function pointer type with these parameter types and this return type.
spec fn bare_fn_model(inputs: Vec<&syn::Type>, output: Option<&syn::Type>) -> TypeExprView {
    TypeExprView::BareFn {
        inputs: type_models(inputs@),
        output: match output {
            Some(ty) => Some(Box::new(type_model(*ty))),
            None => None,
        },
    }
}

/// Calls `syn::parse_file` and hands out the items of the file.
///
/// The contract names what the parser makes of the text: it says that the
/// result is a function of the text alone, and nothing about which texts
/// parse.
#[verifier::external_body]
fn parse_source(source: &str) -> (outcome: Result<Vec<syn::Item>, syn::Error>)
    ensures
        match outcome {
            Ok(items) => parsed(source@) == Ok::<Seq<SourceItemView>, Seq<char>>(
                item_models(items@),
            ),
            Err(error) => parsed(source@) == Err::<Seq<SourceItemView>, Seq<char>>(
                diagnostic(error),
            ),
        },
{
    match syn::parse_file(source) {
        Ok(file) => Ok(file.items),
        Err(error) => Err(error),
    }
}

/// Calls `to_string` on a `syn::Error`: the message of the error.
#[verifier::external_body]
fn error_text(error: &syn::Error) -> (text: String)
    ensures
        text@ == diagnostic(*error),
{
    error.to_string()
}

/// Tells the variants of `syn::Item` apart: a struct, an enum, a union, a
/// type alias and a trait are declarations, with the kind of the variant
/// and the identifier as name; every other item is unsupported.
#[verifier::external_body]
fn item_name(item: &syn::Item) -> (header: Option<(DependenceType, String)>)
    ensures
        match header {
            Some((kind, name)) => item_model(*item) matches SourceItemView::Declaration(d)
                && d.kind == kind && d.name == name@,
            None => item_model(*item) is Unsupported,
        },
{
    match item {
        syn::Item::Struct(s) => Some((DependenceType::Struct, s.ident.to_string())),
        syn::Item::Enum(e) => Some((DependenceType::Enum, e.ident.to_string())),
        syn::Item::Union(u) => Some((DependenceType::Union, u.ident.to_string())),
        syn::Item::Type(t) => Some((DependenceType::Type, t.ident.to_string())),
        syn::Item::Trait(t) => Some((DependenceType::Trait, t.ident.to_string())),
        _ => None,
    }
}

/// Reads the field `generics.params` of a struct, an enum, a union, a type
/// alias or a trait: the generic parameters of the declaration, in order.
#[verifier::external_body]
fn item_generics(item: &syn::Item) -> (params: Vec<&syn::GenericParam>)
    ensures
        item_model(*item) matches SourceItemView::Declaration(d) ==> d.generics == param_models(
            params@,
        ),
{
    match item {
        syn::Item::Struct(s) => s.generics.params.iter().collect(),
        syn::Item::Enum(e) => e.generics.params.iter().collect(),
        syn::Item::Union(u) => u.generics.params.iter().collect(),
        syn::Item::Type(t) => t.generics.params.iter().collect(),
        syn::Item::Trait(t) => t.generics.params.iter().collect(),
        _ => Vec::new(),
    }
}

/// Reads the fields of an item: of a struct its one group of fields, of an
/// enum the group of each variant in order, of a union its named fields as
/// one group. A type alias and a trait have no group.
#[verifier::external_body]
fn item_fields(item: &syn::Item) -> (fields: ItemFields<'_>)
    ensures
        item_model(*item) matches SourceItemView::Declaration(d) ==> d.fields == item_fields_model(
            fields,
        ),
{
    match item {
        syn::Item::Struct(s) => ItemFields::Groups(vec![&s.fields]),
        syn::Item::Enum(e) => ItemFields::Groups(e.variants.iter().map(|v| &v.fields).collect()),
        syn::Item::Union(u) => ItemFields::Union(
            u.fields.named.iter().map(|f| (f.ident.as_ref().map(|i| i.to_string()), &f.ty)).collect(),
        ),
        _ => ItemFields::Groups(Vec::new()),
    }
}

/// Tells the variants of `syn::Fields` apart and hands out the fields in
/// order: of a named field its identifier and its type, of an unnamed
/// field its type.
#[verifier::external_body]
fn fields_node(fields: &syn::Fields) -> (node: FieldsNode<'_>)
    ensures
        fields_node_model(node) == fields_model(*fields),
{
    match fields {
        syn::Fields::Unit => FieldsNode::Unit,
        syn::Fields::Named(f) => FieldsNode::Named(
            f.named.iter().map(|f| (f.ident.as_ref().map(|i| i.to_string()), &f.ty)).collect(),
        ),
        syn::Fields::Unnamed(f) => FieldsNode::Unnamed(f.unnamed.iter().map(|f| &f.ty).collect()),
    }
}

/// Tells the variants of `syn::GenericParam` apart; of a type parameter it
/// hands out the identifier and the bounds in order.
#[verifier::external_body]
fn param_node(param: &syn::GenericParam) -> (node: ParamNode<'_>)
    ensures
        param_node_model(node) == param_model(*param),
{
    match param {
        syn::GenericParam::Type(t) => ParamNode::Type(t.ident.to_string(), t.bounds.iter().collect()),
        syn::GenericParam::Lifetime(_) => ParamNode::Lifetime,
        syn::GenericParam::Const(_) => ParamNode::Const,
    }
}

/// Tells a trait bound from the other variants of `syn::TypeParamBound`
/// and hands out the segments of its path in order.
#[verifier::external_body]
fn bound_node(bound: &syn::TypeParamBound) -> (node: BoundNode<'_>)
    ensures
        bound_node_model(node) == bound_model(*bound),
{
    match bound {
        syn::TypeParamBound::Trait(t) => BoundNode::Trait(t.path.segments.iter().collect()),
        _ => BoundNode::Other,
    }
}

/// Reads a `syn::PathSegment`: its identifier as text and the arguments
/// between its angle brackets in order, a type argument as its type and
/// every other argument as `None`. A segment without arguments, or with
/// arguments in round brackets, has none.
#[verifier::external_body]
fn segment_node(segment: &syn::PathSegment) -> (node: (String, Vec<Option<&syn::Type>>))
    ensures
        segment_model(*segment) == (SegmentView {
            ident: node.0@,
            arguments: argument_models(node.1@),
        }),
{
    let arguments = match &segment.arguments {
        syn::PathArguments::AngleBracketed(a) => a.args.iter().map(|argument| match argument {
            syn::GenericArgument::Type(ty) => Some(ty),
            _ => None,
        }).collect(),
        _ => Vec::new(),
    };
    (segment.ident.to_string(), arguments)
}

/// Tells a function pointer type from the other variants of `syn::Type`
/// and hands out the types of its parameters in order and its return type.
#[verifier::external_body]
fn bare_fn_node(ty: &syn::Type) -> (node: Option<(Vec<&syn::Type>, Option<&syn::Type>)>)
    ensures
        match node {
            Some((inputs, output)) => type_model(*ty) == bare_fn_model(inputs, output),
            None => !(type_model(*ty) is BareFn),
        },
{
    match ty {
        syn::Type::BareFn(f) => {
            let inputs = f.inputs.iter().map(|a| &a.ty).collect();
            match &f.output {
                syn::ReturnType::Type(_, t) => Some((inputs, Some(&**t))),
                syn::ReturnType::Default => Some((inputs, None)),
            }
        },
        _ => None,
    }
}

/// Tells the variants of `syn::Type` apart: a path with its segments, an
/// array, a slice and a reference with the type of their elements, a tuple
/// with the types of its elements, an `impl Trait` type with its bounds.
/// Every other variant comes out as `Other`.
#[verifier::external_body]
fn type_node(ty: &syn::Type) -> (node: TypeNode<'_>)
    ensures
        !(type_model(*ty) is BareFn) ==> type_node_model(node) == type_model(*ty),
{
    match ty {
        syn::Type::Path(p) => TypeNode::Path(p.path.segments.iter().collect()),
        syn::Type::Array(a) => TypeNode::Array(&a.elem),
        syn::Type::Slice(s) => TypeNode::Slice(&s.elem),
        syn::Type::Reference(r) => TypeNode::Reference(&r.elem),
        syn::Type::Tuple(t) => TypeNode::Tuple(t.elems.iter().collect()),
        syn::Type::ImplTrait(i) => TypeNode::ImplTrait(i.bounds.iter().collect()),
        _ => TypeNode::Other,
    }
}

/// The type expression that a type of `syn` stands for.
fn lower_type(ty: &syn::Type) -> (lowered: TypeExpr)
    ensures
        lowered@ == type_model(*ty),
    decreases type_model(*ty),
{
    match bare_fn_node(ty) {
        Some((inputs, output)) => {
            let ghost model = type_model(*ty);
            assert(model matches TypeExprView::BareFn { inputs: ins, output: _ } && ins
                == type_models(inputs@));
            let lowered_inputs = lower_types(&inputs);
            let lowered_output = match output {
                Some(out) => {
                    assert(model matches TypeExprView::BareFn { inputs: _, output: Some(o) } && *o
                        == type_model(*out));
                    Some(Box::new(lower_type(out)))
                },
                None => None,
            };
            TypeExpr::BareFn { inputs: lowered_inputs, output: lowered_output }
        },
        None => {
            let ghost model = type_model(*ty);
            match type_node(ty) {
                TypeNode::Path(segments) => {
                    assert(model matches TypeExprView::Path(p) && p.segments == segment_models(
                        segments@,
                    ));
                    TypeExpr::Path(lower_path(&segments))
                },
                TypeNode::Array(elem) => {
                    assert(model matches TypeExprView::Array(e) && *e == type_model(*elem));
                    TypeExpr::Array(Box::new(lower_type(elem)))
                },
                TypeNode::Slice(elem) => {
                    assert(model matches TypeExprView::Slice(e) && *e == type_model(*elem));
                    TypeExpr::Slice(Box::new(lower_type(elem)))
                },
                TypeNode::Reference(elem) => {
                    assert(model matches TypeExprView::Reference(e) && *e == type_model(*elem));
                    TypeExpr::Reference(Box::new(lower_type(elem)))
                },
                TypeNode::Tuple(elems) => {
                    assert(model matches TypeExprView::Tuple(es) && es == type_models(elems@));
                    TypeExpr::Tuple(lower_types(&elems))
                },
                TypeNode::ImplTrait(bounds) => {
                    assert(model matches TypeExprView::ImplTrait(bs) && bs == bound_models(
                        bounds@,
                    ));
                    TypeExpr::ImplTrait(lower_bounds(&bounds))
                },
                TypeNode::Other => TypeExpr::Other,
            }
        },
    }
}

/// The type expressions that the types stand for, in order.
fn lower_types(tys: &Vec<&syn::Type>) -> (lowered: Vec<TypeExpr>)
    ensures
        type_views(lowered@) == type_models(tys@),
    decreases type_models(tys@),
{
    let ghost models = type_models(tys@);
    let mut lowered: Vec<TypeExpr> = Vec::new();
    let mut i: usize = 0;
    while i < tys.len()
        invariant
            i <= tys.len(),
            models == type_models(tys@),
            lowered@.len() == i,
            forall|j: int| 0 <= j < i ==> (#[trigger] lowered@[j])@ == models[j],
        decreases tys.len() - i,
    {
        proof {
            assert(models[i as int] == type_model(*tys@[i as int]));
            assert(decreases_to!(models => models[i as int]));
        }
        let ty = lower_type(tys[i]);
        lowered.push(ty);
        i += 1;
    }
    assert(type_views(lowered@) =~= models);
    lowered
}

/// The path with these segments.
fn lower_path(segments: &Vec<&syn::PathSegment>) -> (lowered: TypePath)
    ensures
        lowered@ == (TypePathView { segments: segment_models(segments@) }),
    decreases segment_models(segments@),
{
    let ghost models = segment_models(segments@);
    let mut lowered: Vec<Segment> = Vec::new();
    let mut i: usize = 0;
    while i < segments.len()
        invariant
            i <= segments.len(),
            models == segment_models(segments@),
            lowered@.len() == i,
            forall|j: int| 0 <= j < i ==> (#[trigger] lowered@[j])@ == models[j],
        decreases segments.len() - i,
    {
        proof {
            assert(models[i as int] == segment_model(*segments@[i as int]));
            assert(decreases_to!(models => models[i as int]));
        }
        let segment = lower_segment(segments[i]);
        lowered.push(segment);
        i += 1;
    }
    assert(segment_views(lowered@) =~= models);
    TypePath { segments: lowered }
}

/// The segment that a path segment of `syn` stands for.
fn lower_segment(segment: &syn::PathSegment) -> (lowered: Segment)
    ensures
        lowered@ == segment_model(*segment),
    decreases segment_model(*segment),
{
    let (ident, arguments) = segment_node(segment);
    let ghost models = argument_models(arguments@);
    assert(segment_model(*segment).arguments == models);
    let mut lowered: Vec<Argument> = Vec::new();
    let mut i: usize = 0;
    while i < arguments.len()
        invariant
            i <= arguments.len(),
            models == argument_models(arguments@),
            segment_model(*segment).arguments == models,
            lowered@.len() == i,
            forall|j: int| 0 <= j < i ==> (#[trigger] lowered@[j])@ == models[j],
        decreases arguments.len() - i,
    {
        let ghost model = models[i as int];
        proof {
            assert(decreases_to!(models => models[i as int]));
        }
        let argument = match arguments[i] {
            Some(ty) => {
                assert(model matches ArgumentView::Type(t) && t == type_model(*ty));
                Argument::Type(lower_type(ty))
            },
            None => Argument::Other,
        };
        lowered.push(argument);
        i += 1;
    }
    assert(argument_views(lowered@) =~= models);
    Segment { ident, arguments: lowered }
}

/// The bounds that the bounds of `syn` stand for, in order.
fn lower_bounds(bounds: &Vec<&syn::TypeParamBound>) -> (lowered: Vec<TypeBound>)
    ensures
        bound_views(lowered@) == bound_models(bounds@),
    decreases bound_models(bounds@),
{
    let ghost models = bound_models(bounds@);
    let mut lowered: Vec<TypeBound> = Vec::new();
    let mut i: usize = 0;
    while i < bounds.len()
        invariant
            i <= bounds.len(),
            models == bound_models(bounds@),
            lowered@.len() == i,
            forall|j: int| 0 <= j < i ==> (#[trigger] lowered@[j])@ == models[j],
        decreases bounds.len() - i,
    {
        let ghost model = models[i as int];
        proof {
            assert(model == bound_model(*bounds@[i as int]));
            assert(decreases_to!(models => models[i as int]));
        }
        let bound = match bound_node(bounds[i]) {
            BoundNode::Trait(segments) => {
                assert(model matches TypeBoundView::Trait(p) && p.segments == segment_models(
                    segments@,
                ));
                TypeBound::Trait(lower_path(&segments))
            },
            BoundNode::Other => TypeBound::Other,
        };
        lowered.push(bound);
        i += 1;
    }
    assert(bound_views(lowered@) =~= models);
    lowered
}

/// The named fields that the names and types stand for, in order.
fn lower_named(fields: &Vec<(Option<String>, &syn::Type)>) -> (lowered: Vec<NamedField>)
    ensures
        lowered@.map_values(|f: NamedField| f@) == named_models(fields@),
{
    let ghost models = named_models(fields@);
    let mut lowered: Vec<NamedField> = Vec::new();
    let mut i: usize = 0;
    while i < fields.len()
        invariant
            i <= fields.len(),
            models == named_models(fields@),
            lowered@.len() == i,
            forall|j: int| 0 <= j < i ==> (#[trigger] lowered@[j])@ == models[j],
        decreases fields.len() - i,
    {
        let name = match &fields[i].0 {
            Some(n) => n.clone(),
            None => String::new(),
        };
        let ty = lower_type(fields[i].1);
        lowered.push(NamedField { name, ty });
        i += 1;
    }
    assert(lowered@.map_values(|f: NamedField| f@) =~= models);
    lowered
}

/// The field group that the fields of a struct or of a variant stand for.
fn lower_fields(fields: &syn::Fields) -> (lowered: FieldGroup)
    ensures
        lowered@ == fields_model(*fields),
{
    match fields_node(fields) {
        FieldsNode::Unit => FieldGroup::Unit,
        FieldsNode::Named(named) => FieldGroup::Named(lower_named(&named)),
        FieldsNode::Unnamed(tys) => FieldGroup::Unnamed(lower_types(&tys)),
    }
}

/// The field groups of an item, in order.
fn lower_item_fields(fields: &ItemFields) -> (lowered: Vec<FieldGroup>)
    ensures
        lowered@.map_values(|g: FieldGroup| g@) == item_fields_model(*fields),
{
    match fields {
        ItemFields::Groups(groups) => {
            let ghost models = fields_models(groups@);
            let mut lowered: Vec<FieldGroup> = Vec::new();
            let mut i: usize = 0;
            while i < groups.len()
                invariant
                    i <= groups.len(),
                    models == fields_models(groups@),
                    lowered@.len() == i,
                    forall|j: int| 0 <= j < i ==> (#[trigger] lowered@[j])@ == models[j],
                decreases groups.len() - i,
            {
                let group = lower_fields(groups[i]);
                lowered.push(group);
                i += 1;
            }
            assert(lowered@.map_values(|g: FieldGroup| g@) =~= models);
            lowered
        },
        ItemFields::Union(named) => {
            let mut lowered: Vec<FieldGroup> = Vec::new();
            lowered.push(FieldGroup::Named(lower_named(named)));
            assert(lowered@.map_values(|g: FieldGroup| g@) =~= item_fields_model(*fields));
            lowered
        },
    }
}

/// The generic parameters that the parameters of `syn` stand for, in order.
fn lower_params(params: &Vec<&syn::GenericParam>) -> (lowered: Vec<Parameter>)
    ensures
        lowered@.map_values(|p: Parameter| p@) == param_models(params@),
{
    let ghost models = param_models(params@);
    let mut lowered: Vec<Parameter> = Vec::new();
    let mut i: usize = 0;
    while i < params.len()
        invariant
            i <= params.len(),
            models == param_models(params@),
            lowered@.len() == i,
            forall|j: int| 0 <= j < i ==> (#[trigger] lowered@[j])@ == models[j],
        decreases params.len() - i,
    {
        let param = match param_node(params[i]) {
            ParamNode::Type(name, bounds) => Parameter::Type { name, bounds: lower_bounds(&bounds) },
            ParamNode::Lifetime => Parameter::Lifetime,
            ParamNode::Const => Parameter::Const,
        };
        lowered.push(param);
        i += 1;
    }
    assert(lowered@.map_values(|p: Parameter| p@) =~= models);
    lowered
}

/// The item that an item of `syn` stands for.
fn lower_item(item: &syn::Item) -> (lowered: SourceItem)
    ensures
        lowered@ == item_model(*item),
{
    match item_name(item) {
        Some((kind, name)) => {
            let fields = lower_item_fields(&item_fields(item));
            let generics = lower_params(&item_generics(item));
            SourceItem::Declaration(Declaration { name, kind, fields, generics })
        },
        None => SourceItem::Unsupported,
    }
}

/// Parses a source text and hands out its top-level items in order.
///
/// The call fails with [`BuildError::Parse`] where `syn` rejects the text.
pub fn read_items(source: &str) -> (read: Result<Vec<SourceItem>, BuildError>)
    ensures
        match read {
            Ok(items) => parsed(source@) == Ok::<Seq<SourceItemView>, Seq<char>>(
                item_views(items@),
            ),
            Err(BuildError::Parse(text)) => parsed(source@) == Err::<
                Seq<SourceItemView>,
                Seq<char>,
            >(text@),
            Err(_) => false,
        },
{
    match parse_source(source) {
        Ok(items) => {
            let ghost models = item_models(items@);
            let mut lowered: Vec<SourceItem> = Vec::new();
            let mut i: usize = 0;
            while i < items.len()
                invariant
                    i <= items.len(),
                    models == item_models(items@),
                    lowered@.len() == i,
                    forall|j: int| 0 <= j < i ==> (#[trigger] lowered@[j])@ == models[j],
                decreases items.len() - i,
            {
                let item = lower_item(&items[i]);
                lowered.push(item);
                i += 1;
            }
            assert(item_views(lowered@) =~= models);
            Ok(lowered)
        },
        Err(error) => Err(BuildError::Parse(error_text(&error))),
    }
}

} // verus!
