//! The kinds of construct that are counted, a kind paired with a count, and
//! the structural pattern by which each kind is recognised.

use vstd::prelude::*;

verus! {

/// A category of syntactic construct.
#[derive(Clone, Copy, Debug, PartialEq, Eq, Structural)]
pub enum ConstructKind {
    Method,
    Variable,
}

impl ConstructKind {
    /// The label under which findings of this kind are logged.
    pub open spec fn label(&self) -> Seq<char> {
        match *self {
            ConstructKind::Method => "Method"@,
            ConstructKind::Variable => "Variable"@,
        }
    }

    /// The structural pattern that recognises this kind in a Java syntax tree.
    pub open spec fn pattern(&self) -> Seq<char> {
        match *self {
            ConstructKind::Method => "[(method_declaration name: (identifier) @method.name)]"@,
            ConstructKind::Variable =>
                "[(local_variable_declaration declarator: (variable_declarator name: (identifier) @variable.name)) (field_declaration declarator: (variable_declarator name: (identifier) @variable.name))]"@,
        }
    }

    /// The name of the capture that marks the identifier in this kind's pattern.
    pub open spec fn capture_name(&self) -> Seq<char> {
        match *self {
            ConstructKind::Method => "method.name"@,
            ConstructKind::Variable => "variable.name"@,
        }
    }
}

/// The pattern for `kind` and the name of the capture that marks the matched
/// identifier in it.
pub fn pattern_for(kind: ConstructKind) -> (entry: (&'static str, &'static str))
    ensures
        entry.0@ == kind.pattern(),
        entry.1@ == kind.capture_name(),
{
    match kind {
        ConstructKind::Method => (
            "[(method_declaration name: (identifier) @method.name)]",
            "method.name",
        ),
        ConstructKind::Variable => (
            "[(local_variable_declaration declarator: (variable_declarator name: (identifier) @variable.name)) (field_declaration declarator: (variable_declarator name: (identifier) @variable.name))]",
            "variable.name",
        ),
    }
}

/// A construct kind together with a count of its occurrences.
#[derive(Clone, Copy, Debug, PartialEq, Eq, Structural)]
pub enum TypeQuery {
    Variable(usize),
    Method(usize),
}

impl TypeQuery {
    /// The kind this query counts.
    pub open spec fn spec_kind(&self) -> ConstructKind {
        match *self {
            TypeQuery::Variable(_) => ConstructKind::Variable,
            TypeQuery::Method(_) => ConstructKind::Method,
        }
    }

    /// The count this query carries.
    pub open spec fn spec_count(&self) -> usize {
        match *self {
            TypeQuery::Variable(n) => n,
            TypeQuery::Method(n) => n,
        }
    }

    /// The query for `kind` that carries `count`.
    pub fn new(kind: ConstructKind, count: usize) -> (query: TypeQuery)
        ensures
            query.spec_kind() == kind,
            query.spec_count() == count,
    {
        match kind {
            ConstructKind::Variable => TypeQuery::Variable(count),
            ConstructKind::Method => TypeQuery::Method(count),
        }
    }

    /// The kind this query counts.
    #[verifier::when_used_as_spec(spec_kind)]
    pub fn kind(&self) -> (kind: ConstructKind)
        ensures
            kind == self.spec_kind(),
    {
        match self {
            TypeQuery::Variable(_) => ConstructKind::Variable,
            TypeQuery::Method(_) => ConstructKind::Method,
        }
    }

    /// The label of the query's kind.
    pub fn name(&self) -> (label: &'static str)
        ensures
            label@ == self.spec_kind().label(),
    {
        match self {
            TypeQuery::Variable(_) => "Variable",
            TypeQuery::Method(_) => "Method",
        }
    }

    /// The count carried by the query.
    #[verifier::when_used_as_spec(spec_count)]
    pub fn count(&self) -> (n: usize)
        ensures
            n == self.spec_count(),
    {
        match self {
            TypeQuery::Variable(n) => *n,
            TypeQuery::Method(n) => *n,
        }
    }
}

} // verus!
