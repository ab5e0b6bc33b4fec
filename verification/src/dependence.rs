//! Edge labels of the dependency graph.

use vstd::prelude::*;
use vstd::string::StringExecFns;

verus! {

/// What kind of declaration a name belongs to.
///
/// The kind rides along with a name so that a consumer can draw nodes
/// differently; it never decides whether two edges are the same edge.
#[derive(Debug, Clone, Copy, PartialEq, Eq, Hash, Structural)]
pub enum DependenceType {
    Struct,
    Enum,
    Union,
    /// A type alias, or a type that is only known by its name.
    Type,
    Trait,
    /// A placeholder, such as the name of a generic parameter.
    Temp,
}

/// A dependency of a declaration on a name.
///
/// `Field` is structural: the name occurs in the data of the declaration.
/// `Trait` is behavioral: the name bounds one of its generic parameters.
#[derive(Debug)]
pub enum Dependence {
    Field(String, DependenceType),
    Trait(String, DependenceType),
}

/// The identity of a [`Dependence`]: its tag and its name.
pub ghost enum Edge {
    Field(Seq<char>),
    Trait(Seq<char>),
}

impl Edge {
    /// The name that the edge points to.
    pub open spec fn name(self) -> Seq<char> {
        match self {
            Edge::Field(n) => n,
            Edge::Trait(n) => n,
        }
    }
}

/// The text that names a kind.
pub open spec fn kind_text(kind: DependenceType) -> Seq<char> {
    match kind {
        DependenceType::Struct => "Struct"@,
        DependenceType::Enum => "Enum"@,
        DependenceType::Union => "Union"@,
        DependenceType::Type => "Type"@,
        DependenceType::Trait => "Trait"@,
        DependenceType::Temp => "Temp"@,
    }
}

impl DependenceType {
    /// The kind as text: the name of the variant.
    pub fn to_ty(&self) -> (text: String)
        ensures
            text@ == kind_text(*self),
    {
        match self {
            DependenceType::Struct => String::from_str("Struct"),
            DependenceType::Enum => String::from_str("Enum"),
            DependenceType::Union => String::from_str("Union"),
            DependenceType::Type => String::from_str("Type"),
            DependenceType::Trait => String::from_str("Trait"),
            DependenceType::Temp => String::from_str("Temp"),
        }
    }
}

impl Clone for Dependence {
    fn clone(&self) -> (copy: Self)
        ensures
            copy == *self,
    {
        match self {
            Dependence::Field(n, k) => Dependence::Field(n.clone(), *k),
            Dependence::Trait(n, k) => Dependence::Trait(n.clone(), *k),
        }
    }
}

impl PartialEq for Dependence {
    /// Two dependences are equal when they are the same edge: the kind
    /// that rides along is not compared.
    fn eq(&self, other: &Self) -> (same: bool) {
        self.same_edge(other)
    }
}

impl Eq for Dependence {}

impl vstd::std_specs::cmp::PartialEqSpecImpl for Dependence {
    open spec fn obeys_eq_spec() -> bool {
        true
    }

    open spec fn eq_spec(&self, other: &Self) -> bool {
        self@ == other@
    }
}

impl View for Dependence {
    type V = Edge;

    open spec fn view(&self) -> Edge {
        match self {
            Dependence::Field(n, _) => Edge::Field(n@),
            Dependence::Trait(n, _) => Edge::Trait(n@),
        }
    }
}

impl Dependence {
    /// The kind that rides along with the name.
    pub open spec fn kind(&self) -> DependenceType {
        match self {
            Dependence::Field(_, k) => *k,
            Dependence::Trait(_, k) => *k,
        }
    }

    /// Whether the kind is the one that the library gives with the tag:
    /// `Type` with `Field`, `Trait` with `Trait`.
    pub open spec fn kind_follows_tag(&self) -> bool {
        match self {
            Dependence::Field(_, k) => *k == DependenceType::Type,
            Dependence::Trait(_, k) => *k == DependenceType::Trait,
        }
    }

    /// The name that the dependence points to.
    pub fn name(&self) -> (text: String)
        ensures
            text@ == self@.name(),
    {
        match self {
            Dependence::Field(n, _) => n.clone(),
            Dependence::Trait(n, _) => n.clone(),
        }
    }

    /// The kind of the dependence as text.
    pub fn dep_type(&self) -> (text: String)
        ensures
            text@ == kind_text(self.kind()),
    {
        match self {
            Dependence::Field(_, k) => k.to_ty(),
            Dependence::Trait(_, k) => k.to_ty(),
        }
    }

    /// The dependence as text: its name, without tag or kind.
    pub fn to_string(&self) -> (text: String)
        ensures
            text@ == self@.name(),
    {
        self.name()
    }

    /// Whether two dependences are the same edge: same tag, same name.
    pub fn same_edge(&self, other: &Dependence) -> (same: bool)
        ensures
            same == (self@ == other@),
    {
        match (self, other) {
            (Dependence::Field(a, _), Dependence::Field(b, _)) => *a == *b,
            (Dependence::Trait(a, _), Dependence::Trait(b, _)) => *a == *b,
            _ => false,
        }
    }
}

} // verus!
