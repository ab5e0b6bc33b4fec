//! The shape of what a source file declares: declarations, their field
//! groups and generic parameters, and the type expressions inside them.

use vstd::prelude::*;
use crate::dependence::DependenceType;

verus! {

/// A path such as `std::collections::HashMap<K, V>`.
#[derive(Debug)]
pub struct TypePath {
    pub segments: Vec<Segment>,
}

/// One segment of a path: its name and what stands in its angle brackets.
#[derive(Debug)]
pub struct Segment {
    pub ident: String,
    pub arguments: Vec<Argument>,
}

/// One argument in the angle brackets of a path segment.
#[derive(Debug)]
pub enum Argument {
    Type(TypeExpr),
    /// A lifetime, a constant, a binding or a constraint.
    Other,
}

/// One bound of a generic parameter or of an `impl Trait` type.
#[derive(Debug)]
pub enum TypeBound {
    Trait(TypePath),
    /// A lifetime or another bound that names no trait.
    Other,
}

/// How a field or a bound refers to other types.
#[derive(Debug)]
pub enum TypeExpr {
    Path(TypePath),
    Array(Box<TypeExpr>),
    Slice(Box<TypeExpr>),
    Reference(Box<TypeExpr>),
    Tuple(Vec<TypeExpr>),
    BareFn { inputs: Vec<TypeExpr>, output: Option<Box<TypeExpr>> },
    ImplTrait(Vec<TypeBound>),
    /// Any other form of type.
    Other,
}

/// One generic parameter of a declaration.
#[derive(Debug)]
pub enum Parameter {
    Type { name: String, bounds: Vec<TypeBound> },
    Lifetime,
    Const,
}

/// A field with a name.
#[derive(Debug)]
pub struct NamedField {
    pub name: String,
    pub ty: TypeExpr,
}

/// The data of a struct, of a union or of one variant of an enum.
#[derive(Debug)]
pub enum FieldGroup {
    Unit,
    Named(Vec<NamedField>),
    Unnamed(Vec<TypeExpr>),
}

/// A type that the source file declares.
#[derive(Debug)]
pub struct Declaration {
    pub name: String,
    pub kind: DependenceType,
    pub fields: Vec<FieldGroup>,
    pub generics: Vec<Parameter>,
}

/// A top-level item of a source file.
#[derive(Debug)]
pub enum SourceItem {
    Declaration(Declaration),
    /// A function, a module, an impl or anything else that declares no type.
    Unsupported,
}

/// The view of a [`TypePath`]: texts as sequences of characters, lists as
/// sequences.
pub ghost struct TypePathView {
    pub segments: Seq<SegmentView>,
}

/// The view of a [`Segment`]: texts as sequences of characters, lists as
/// sequences.
pub ghost struct SegmentView {
    pub ident: Seq<char>,
    pub arguments: Seq<ArgumentView>,
}

/// The view of a [`Argument`]: texts as sequences of characters, lists as
/// sequences.
pub ghost enum ArgumentView {
    Type(TypeExprView),
    Other,
}

/// The view of a [`TypeBound`]: texts as sequences of characters, lists as
/// sequences.
pub ghost enum TypeBoundView {
    Trait(TypePathView),
    Other,
}

/// The view of a [`TypeExpr`]: texts as sequences of characters, lists as
/// sequences.
pub ghost enum TypeExprView {
    Path(TypePathView),
    Array(Box<TypeExprView>),
    Slice(Box<TypeExprView>),
    Reference(Box<TypeExprView>),
    Tuple(Seq<TypeExprView>),
    BareFn { inputs: Seq<TypeExprView>, output: Option<Box<TypeExprView>> },
    ImplTrait(Seq<TypeBoundView>),
    Other,
}

/// The view of a [`Parameter`]: texts as sequences of characters, lists as
/// sequences.
pub ghost enum ParameterView {
    Type { name: Seq<char>, bounds: Seq<TypeBoundView> },
    Lifetime,
    Const,
}

/// The view of a [`NamedField`]: texts as sequences of characters, lists as
/// sequences.
pub ghost struct NamedFieldView {
    pub name: Seq<char>,
    pub ty: TypeExprView,
}

/// The view of a [`FieldGroup`]: texts as sequences of characters, lists as
/// sequences.
pub ghost enum FieldGroupView {
    Unit,
    Named(Seq<NamedFieldView>),
    Unnamed(Seq<TypeExprView>),
}

/// The view of a [`Declaration`]: texts as sequences of characters, lists as
/// sequences.
pub ghost struct DeclarationView {
    pub name: Seq<char>,
    pub kind: DependenceType,
    pub fields: Seq<FieldGroupView>,
    pub generics: Seq<ParameterView>,
}

/// The view of a [`SourceItem`]: texts as sequences of characters, lists as
/// sequences.
pub ghost enum SourceItemView {
    Declaration(DeclarationView),
    Unsupported,
}

/// The view of a type expression.
pub open spec fn type_view(ty: TypeExpr) -> TypeExprView
    decreases ty,
{
    match ty {
        TypeExpr::Path(p) => TypeExprView::Path(path_view(p)),
        TypeExpr::Array(e) => TypeExprView::Array(Box::new(type_view(*e))),
        TypeExpr::Slice(e) => TypeExprView::Slice(Box::new(type_view(*e))),
        TypeExpr::Reference(e) => TypeExprView::Reference(Box::new(type_view(*e))),
        TypeExpr::Tuple(es) => TypeExprView::Tuple(type_views(es@)),
        TypeExpr::BareFn { inputs, output } => TypeExprView::BareFn {
            inputs: type_views(inputs@),
            output: match output {
                Some(o) => Some(Box::new(type_view(*o))),
                None => None,
            },
        },
        TypeExpr::ImplTrait(bs) => TypeExprView::ImplTrait(bound_views(bs@)),
        TypeExpr::Other => TypeExprView::Other,
    }
}

/// The views of the type expressions, in order.
pub open spec fn type_views(tys: Seq<TypeExpr>) -> Seq<TypeExprView>
    decreases tys,
{
    Seq::new(
        tys.len(),
        |i: int|
            if 0 <= i < tys.len() {
                type_view(tys[i])
            } else {
                arbitrary()
            },
    )
}

/// The view of a path.
pub open spec fn path_view(path: TypePath) -> TypePathView
    decreases path,
{
    TypePathView { segments: segment_views(path.segments@) }
}

/// The view of a path segment.
pub open spec fn segment_view(segment: Segment) -> SegmentView
    decreases segment,
{
    SegmentView { ident: segment.ident@, arguments: argument_views(segment.arguments@) }
}

/// The views of the path segments, in order.
pub open spec fn segment_views(segments: Seq<Segment>) -> Seq<SegmentView>
    decreases segments,
{
    Seq::new(
        segments.len(),
        |i: int|
            if 0 <= i < segments.len() {
                segment_view(segments[i])
            } else {
                arbitrary()
            },
    )
}

/// The view of a generic argument.
pub open spec fn argument_view(argument: Argument) -> ArgumentView
    decreases argument,
{
    match argument {
        Argument::Type(t) => ArgumentView::Type(type_view(t)),
        Argument::Other => ArgumentView::Other,
    }
}

/// The views of the generic arguments, in order.
pub open spec fn argument_views(arguments: Seq<Argument>) -> Seq<ArgumentView>
    decreases arguments,
{
    Seq::new(
        arguments.len(),
        |i: int|
            if 0 <= i < arguments.len() {
                argument_view(arguments[i])
            } else {
                arbitrary()
            },
    )
}

/// The view of a bound.
pub open spec fn bound_view(bound: TypeBound) -> TypeBoundView
    decreases bound,
{
    match bound {
        TypeBound::Trait(p) => TypeBoundView::Trait(path_view(p)),
        TypeBound::Other => TypeBoundView::Other,
    }
}

/// The views of the bounds, in order.
pub open spec fn bound_views(bounds: Seq<TypeBound>) -> Seq<TypeBoundView>
    decreases bounds,
{
    Seq::new(
        bounds.len(),
        |i: int|
            if 0 <= i < bounds.len() {
                bound_view(bounds[i])
            } else {
                arbitrary()
            },
    )
}

impl View for TypePath {
    type V = TypePathView;

    open spec fn view(&self) -> TypePathView {
        path_view(*self)
    }
}

impl View for Segment {
    type V = SegmentView;

    open spec fn view(&self) -> SegmentView {
        segment_view(*self)
    }
}

impl View for Argument {
    type V = ArgumentView;

    open spec fn view(&self) -> ArgumentView {
        argument_view(*self)
    }
}

impl View for TypeBound {
    type V = TypeBoundView;

    open spec fn view(&self) -> TypeBoundView {
        bound_view(*self)
    }
}

impl View for TypeExpr {
    type V = TypeExprView;

    open spec fn view(&self) -> TypeExprView {
        type_view(*self)
    }
}

impl View for Parameter {
    type V = ParameterView;

    open spec fn view(&self) -> ParameterView {
        match self {
            Parameter::Type { name, bounds } => ParameterView::Type {
                name: name@,
                bounds: bound_views(bounds@),
            },
            Parameter::Lifetime => ParameterView::Lifetime,
            Parameter::Const => ParameterView::Const,
        }
    }
}

impl View for NamedField {
    type V = NamedFieldView;

    open spec fn view(&self) -> NamedFieldView {
        NamedFieldView { name: self.name@, ty: self.ty@ }
    }
}

impl View for FieldGroup {
    type V = FieldGroupView;

    open spec fn view(&self) -> FieldGroupView {
        match self {
            FieldGroup::Unit => FieldGroupView::Unit,
            FieldGroup::Named(fs) => FieldGroupView::Named(fs@.map_values(|f: NamedField| f@)),
            FieldGroup::Unnamed(ts) => FieldGroupView::Unnamed(type_views(ts@)),
        }
    }
}

impl View for Declaration {
    type V = DeclarationView;

    open spec fn view(&self) -> DeclarationView {
        DeclarationView {
            name: self.name@,
            kind: self.kind,
            fields: self.fields@.map_values(|g: FieldGroup| g@),
            generics: self.generics@.map_values(|p: Parameter| p@),
        }
    }
}

impl View for SourceItem {
    type V = SourceItemView;

    open spec fn view(&self) -> SourceItemView {
        match self {
            SourceItem::Declaration(d) => SourceItemView::Declaration(d@),
            SourceItem::Unsupported => SourceItemView::Unsupported,
        }
    }
}

/// The views of a list are as many as the list is long, and each is the
/// view of the item at its place.
pub proof fn lemma_type_views(tys: Seq<TypeExpr>)
    ensures
        type_views(tys).len() == tys.len(),
        forall|i: int| 0 <= i < tys.len() ==> (#[trigger] type_views(tys)[i]) == tys[i]@,
{
}

} // verus!
