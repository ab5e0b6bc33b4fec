//! From the items of a source file to its dependency graph.

use vstd::prelude::*;
use crate::dependence::{DependenceType, Edge};
use crate::resolve::{dependencies, dependencies_of};
use crate::graph::DepGraph;
use crate::source::{parsed, read_items};
use crate::syntax::{
    Declaration, DeclarationView, Parameter, ParameterView, SourceItem, SourceItemView,
};

verus! {

/// What to do with a construct that the library does not support: an item
/// that declares no type, or a const generic parameter.
#[derive(Debug, Clone, Copy, PartialEq, Eq, Structural)]
pub enum Mode {
    /// The build fails on the first such construct.
    Strict,
    /// Such an item is skipped and such a parameter is dropped.
    Permissive,
}

impl Default for Mode {
    /// The permissive mode.
    fn default() -> (mode: Mode)
        ensures
            mode == Mode::Permissive,
    {
        Mode::Permissive
    }
}

/// Why a build failed.
#[derive(Debug)]
pub enum BuildError {
    /// The source text is not a valid source file; the text is the
    /// parser's diagnostic.
    Parse(String),
    /// In strict mode: the item at this place declares no type.
    UnsupportedDeclaration(usize),
    /// In strict mode: the declaration at this place has a const generic
    /// parameter.
    UnsupportedGenericParameter(usize),
}

/// What a permissive build passed over.
#[derive(Debug, Clone, Copy, PartialEq, Eq, Structural)]
pub enum Warning {
    /// The item at this place declares no type and was skipped.
    SkippedItem(usize),
    /// The declaration at this place has a const generic parameter, which
    /// was dropped.
    DroppedConstParameter(usize),
}

/// The views of the items, in order.
pub open spec fn item_views(items: Seq<SourceItem>) -> Seq<SourceItemView> {
    items.map_values(|item: SourceItem| item@)
}

/// The views of the declarations, in order.
pub open spec fn declaration_views(decls: Seq<&Declaration>) -> Seq<DeclarationView> {
    decls.map_values(|decl: &Declaration| decl@)
}

/// The declarations among the items, in the order of the items.
pub open spec fn declarations_in(items: Seq<SourceItemView>) -> Seq<DeclarationView>
    decreases items.len(),
{
    if items.len() == 0 {
        Seq::empty()
    } else {
        match items.last() {
            SourceItemView::Declaration(d) => declarations_in(items.drop_last()).push(d),
            SourceItemView::Unsupported => declarations_in(items.drop_last()),
        }
    }
}

/// Whether no item before place `i` is unsupported.
pub open spec fn supported_before(items: Seq<SourceItemView>, i: int) -> bool {
    forall|j: int| 0 <= j < i && j < items.len() ==> (#[trigger] items[j]) is Declaration
}

/// Whether the item at place `i` is the first unsupported one.
pub open spec fn first_unsupported_at(items: Seq<SourceItemView>, i: int) -> bool {
    0 <= i < items.len() && items[i] is Unsupported && supported_before(items, i)
}

/// Whether the parameters hold a const parameter.
pub open spec fn has_const_parameter(generics: Seq<ParameterView>) -> bool {
    exists|i: int| 0 <= i < generics.len() && (#[trigger] generics[i]) is Const
}

/// Whether the item is a declaration with a const generic parameter.
pub open spec fn item_has_const(item: SourceItemView) -> bool {
    item matches SourceItemView::Declaration(d) && has_const_parameter(d.generics)
}

/// Whether no item before place `i` has a const generic parameter.
pub open spec fn no_const_before(items: Seq<SourceItemView>, i: int) -> bool {
    forall|j: int| 0 <= j < i && j < items.len() ==> !item_has_const(#[trigger] items[j])
}

/// Whether the item at place `i` is the first with a const generic parameter.
pub open spec fn first_const_at(items: Seq<SourceItemView>, i: int) -> bool {
    0 <= i < items.len() && item_has_const(items[i]) && no_const_before(items, i)
}

/// What a permissive build passes over, in the order of the items: each
/// item that declares no type, and each declaration with a const generic
/// parameter.
pub open spec fn warnings_of(items: Seq<SourceItemView>) -> Seq<Warning>
    decreases items.len(),
{
    if items.len() == 0 {
        Seq::empty()
    } else {
        let before = warnings_of(items.drop_last());
        let place = (items.len() - 1) as usize;
        match items.last() {
            SourceItemView::Unsupported => before.push(Warning::SkippedItem(place)),
            SourceItemView::Declaration(d) => if has_const_parameter(d.generics) {
                before.push(Warning::DroppedConstParameter(place))
            } else {
                before
            },
        }
    }
}

/// The graph of the declarations: each name is mapped to the dependences
/// of its declaration, and of two declarations of one name the later counts.
pub open spec fn graph_of(decls: Seq<DeclarationView>) -> Map<Seq<char>, Set<Edge>>
    decreases decls.len(),
{
    if decls.len() == 0 {
        Map::empty()
    } else {
        graph_of(decls.drop_last()).insert(decls.last().name, dependencies(decls.last()))
    }
}

/// The kinds of the declarations by name; of two declarations of one name
/// the later counts.
pub open spec fn kinds_of(decls: Seq<DeclarationView>) -> Map<Seq<char>, DependenceType>
    decreases decls.len(),
{
    if decls.len() == 0 {
        Map::empty()
    } else {
        kinds_of(decls.drop_last()).insert(decls.last().name, decls.last().kind)
    }
}

/// The declarations among the items, in order.
///
/// In permissive mode an item that declares no type is skipped. In strict
/// mode the first such item fails the call.
pub fn user_defined_types(items: &Vec<SourceItem>, mode: Mode) -> (found: Result<
    Vec<&Declaration>,
    BuildError,
>)
    ensures
        match found {
            Ok(decls) => {
                &&& declaration_views(decls@) == declarations_in(item_views(items@))
                &&& mode == Mode::Strict ==> supported_before(
                    item_views(items@),
                    items@.len() as int,
                )
            },
            Err(BuildError::UnsupportedDeclaration(i)) => mode == Mode::Strict
                && first_unsupported_at(item_views(items@), i as int),
            Err(_) => false,
        },
{
    let ghost views = item_views(items@);
    let mut decls: Vec<&Declaration> = Vec::new();
    assert(declaration_views(decls@) =~= declarations_in(views.take(0)));
    let mut i: usize = 0;
    while i < items.len()
        invariant
            i <= items.len(),
            views == item_views(items@),
            declaration_views(decls@) == declarations_in(views.take(i as int)),
            mode == Mode::Strict ==> supported_before(views, i as int),
        decreases items.len() - i,
    {
        proof {
            assert(views.take(i + 1).drop_last() =~= views.take(i as int));
            assert(views.take(i + 1).last() == views[i as int]);
        }
        let ghost before = decls@;
        match &items[i] {
            SourceItem::Declaration(d) => {
                decls.push(d);
                assert(declaration_views(decls@) =~= declaration_views(before).push(d@));
            },
            SourceItem::Unsupported => {
                match mode {
                    Mode::Strict => {
                        return Err(BuildError::UnsupportedDeclaration(i));
                    },
                    Mode::Permissive => {},
                }
            },
        }
        i += 1;
    }
    assert(views.take(i as int) =~= views);
    Ok(decls)
}

/// Whether the parameters hold a const parameter.
pub fn holds_const_parameter(generics: &Vec<Parameter>) -> (found: bool)
    ensures
        found == has_const_parameter(generics@.map_values(|p: Parameter| p@)),
{
    let ghost views = generics@.map_values(|p: Parameter| p@);
    let mut i: usize = 0;
    while i < generics.len()
        invariant
            i <= generics.len(),
            views == generics@.map_values(|p: Parameter| p@),
            forall|j: int| 0 <= j < i ==> !((#[trigger] views[j]) is Const),
        decreases generics.len() - i,
    {
        match &generics[i] {
            Parameter::Const => {
                assert(views[i as int] is Const);
                return true;
            },
            _ => {},
        }
        i += 1;
    }
    false
}

/// The place of the first declaration with a const generic parameter.
pub fn first_const_generic(items: &Vec<SourceItem>) -> (place: Option<usize>)
    ensures
        match place {
            Some(i) => first_const_at(item_views(items@), i as int),
            None => no_const_before(item_views(items@), items@.len() as int),
        },
{
    let ghost views = item_views(items@);
    let mut i: usize = 0;
    while i < items.len()
        invariant
            i <= items.len(),
            views == item_views(items@),
            no_const_before(views, i as int),
        decreases items.len() - i,
    {
        match &items[i] {
            SourceItem::Declaration(d) => {
                if holds_const_parameter(&d.generics) {
                    return Some(i);
                }
            },
            SourceItem::Unsupported => {},
        }
        i += 1;
    }
    None
}

/// What a permissive build of the items passes over.
pub fn warnings_for(items: &Vec<SourceItem>) -> (warnings: Vec<Warning>)
    ensures
        warnings@ == warnings_of(item_views(items@)),
{
    let ghost views = item_views(items@);
    let mut warnings: Vec<Warning> = Vec::new();
    let mut i: usize = 0;
    while i < items.len()
        invariant
            i <= items.len(),
            views == item_views(items@),
            warnings@ == warnings_of(views.take(i as int)),
        decreases items.len() - i,
    {
        proof {
            assert(views.take(i + 1).drop_last() =~= views.take(i as int));
            assert(views.take(i + 1).last() == views[i as int]);
        }
        match &items[i] {
            SourceItem::Declaration(d) => {
                if holds_const_parameter(&d.generics) {
                    warnings.push(Warning::DroppedConstParameter(i));
                }
            },
            SourceItem::Unsupported => {
                warnings.push(Warning::SkippedItem(i));
            },
        }
        i += 1;
    }
    assert(views.take(i as int) =~= views);
    warnings
}

/// The dependency graph of one source file.
#[derive(Debug)]
pub struct TypeMap {
    graph: DepGraph,
    warnings: Vec<Warning>,
}

impl View for TypeMap {
    type V = Map<Seq<char>, Set<Edge>>;

    closed spec fn view(&self) -> Map<Seq<char>, Set<Edge>> {
        self.graph@
    }
}

/// What a build from items must return.
///
/// In permissive mode it succeeds. In strict mode it fails on the first
/// item that declares no type; where there is none, on the first
/// declaration with a const generic parameter; else it succeeds. The graph
/// of a success is that of the declarations among the items.
pub open spec fn is_build_of_items(
    items: Seq<SourceItemView>,
    mode: Mode,
    built: Result<TypeMap, BuildError>,
) -> bool {
    match built {
        Ok(map) => {
            &&& map@ == graph_of(declarations_in(items))
            &&& map.kinds() == kinds_of(declarations_in(items))
            &&& map.passed_over() == warnings_of(items)
            &&& mode == Mode::Strict ==> supported_before(items, items.len() as int)
                && no_const_before(items, items.len() as int)
        },
        Err(BuildError::UnsupportedDeclaration(i)) => mode == Mode::Strict && first_unsupported_at(
            items,
            i as int,
        ),
        Err(BuildError::UnsupportedGenericParameter(i)) => mode == Mode::Strict && supported_before(
            items,
            items.len() as int,
        ) && first_const_at(items, i as int),
        Err(BuildError::Parse(_)) => false,
    }
}

/// What a build from source text must return.
///
/// Where the parser rejects the text, it fails with the parser's
/// diagnostic. Else it returns what a build from the items of the text
/// must return.
pub open spec fn is_build_of(
    source: Seq<char>,
    mode: Mode,
    built: Result<TypeMap, BuildError>,
) -> bool {
    match parsed(source) {
        Ok(items) => is_build_of_items(items, mode, built),
        Err(text) => built matches Err(BuildError::Parse(t)) && t@ == text,
    }
}

impl TypeMap {
    /// The kind of each declared name.
    pub closed spec fn kinds(&self) -> Map<Seq<char>, DependenceType> {
        self.graph.kinds()
    }

    /// What the build passed over, in the order of the items.
    pub closed spec fn passed_over(&self) -> Seq<Warning> {
        self.warnings@
    }

    /// What the build passed over, in the order of the items. A strict
    /// build passes over nothing.
    pub fn warnings(&self) -> (warnings: &Vec<Warning>)
        ensures
            warnings@ == self.passed_over(),
    {
        &self.warnings
    }

    /// The graph as the value that [`TypeMap::graph`] hands out.
    pub closed spec fn spec_graph(&self) -> &DepGraph {
        &self.graph
    }

    /// The graph.
    #[verifier::when_used_as_spec(spec_graph)]
    pub fn graph(&self) -> (graph: &DepGraph)
        ensures
            graph == self.spec_graph(),
            graph@ == self@,
            graph.kinds() == self.kinds(),
    {
        &self.graph
    }

    /// Builds the graph of a source text in permissive mode: an item that
    /// declares no type is skipped, a const generic parameter is dropped.
    pub fn build(source: &str) -> (built: Result<TypeMap, BuildError>)
        ensures
            is_build_of(source@, Mode::Permissive, built),
    {
        TypeMap::build_with(source, Mode::Permissive)
    }

    /// Builds the graph of a source text.
    pub fn build_with(source: &str, mode: Mode) -> (built: Result<TypeMap, BuildError>)
        ensures
            is_build_of(source@, mode, built),
    {
        match read_items(source) {
            Ok(items) => TypeMap::from_items(&items, mode),
            Err(error) => Err(error),
        }
    }

    /// Builds the graph of the items of a source file.
    pub fn from_items(items: &Vec<SourceItem>, mode: Mode) -> (built: Result<TypeMap, BuildError>)
        ensures
            is_build_of_items(item_views(items@), mode, built),
    {
        let decls = match user_defined_types(items, mode) {
            Ok(decls) => decls,
            Err(e) => {
                return Err(e);
            },
        };
        match mode {
            Mode::Strict => {
                match first_const_generic(items) {
                    Some(i) => {
                        return Err(BuildError::UnsupportedGenericParameter(i));
                    },
                    None => {},
                }
            },
            Mode::Permissive => {},
        }
        let ghost decl_views = declaration_views(decls@);
        let mut graph = DepGraph::new();
        let mut i: usize = 0;
        while i < decls.len()
            invariant
                i <= decls.len(),
                decl_views == declaration_views(decls@),
                graph@ == graph_of(decl_views.take(i as int)),
                graph.kinds() == kinds_of(decl_views.take(i as int)),
            decreases decls.len() - i,
        {
            proof {
                assert(decl_views.take(i + 1).drop_last() =~= decl_views.take(i as int));
                assert(decl_views.take(i + 1).last() == decls@[i as int]@);
            }
            let decl = decls[i];
            let deps = dependencies_of(decl);
            graph.insert(decl.name.clone(), decl.kind, deps);
            i += 1;
        }
        assert(decl_views.take(i as int) =~= decl_views);
        let warnings = warnings_for(items);
        Ok(TypeMap { graph, warnings })
    }
}

} // verus!
