//! The Java grammar as the rest of the library sees it: parsing, pattern
//! compilation and pattern matching are done by `tree_sitter` and are trusted
//! here, not proved.

use tree_sitter::StreamingIterator;
use vstd::prelude::*;

verus! {

/// `tree_sitter::Tree`, a syntax tree. Nothing inside it is seen here.
#[verifier::external_type_specification]
#[verifier::external_body]
pub struct ExTree(tree_sitter::Tree);

/// `tree_sitter::Query`, a compiled pattern. Nothing inside it is seen here.
#[verifier::external_type_specification]
#[verifier::external_body]
pub struct ExQuery(tree_sitter::Query);

/// `tree_sitter::QueryError`, why a pattern did not compile. Nothing inside
/// it is seen here.
#[verifier::external_type_specification]
#[verifier::external_body]
pub struct ExQueryError(tree_sitter::QueryError);

/// One captured node of a pattern match: the index of the capture's name in
/// the pattern's list of capture names, and the byte span of the node.
#[derive(Clone, Copy, Debug, PartialEq, Eq, Structural)]
pub struct Capture {
    pub index: u32,
    pub start: usize,
    pub end: usize,
}

/// What a syntax tree holds: the text of which it is the Java syntax tree, if
/// it is the Java syntax tree of a text.
pub uninterp spec fn tree_source(tree: tree_sitter::Tree) -> Option<Seq<char>>;

/// What a compiled query holds: the pattern of which it is the query for the
/// Java grammar, if it is one.
pub uninterp spec fn query_source(query: tree_sitter::Query) -> Option<Seq<char>>;

/// Whether the Java parser produces a syntax tree for `code`.
pub uninterp spec fn java_parses(code: Seq<char>) -> bool;

/// Whether the Java syntax tree of `code` contains a syntax error.
pub uninterp spec fn java_has_error(code: Seq<char>) -> bool;

/// Whether `pattern` compiles against the Java grammar.
pub uninterp spec fn java_pattern_compiles(pattern: Seq<char>) -> bool;

/// The capture names of `pattern` compiled against the Java grammar.
pub uninterp spec fn java_capture_names(pattern: Seq<char>) -> Seq<Seq<char>>;

/// The matches of `pattern` in the Java syntax tree of `code`, in the order
/// in which they are found, each with its captures.
pub uninterp spec fn java_matches(pattern: Seq<char>, code: Seq<char>) -> Seq<Seq<Capture>>;

/// The captures of each match, as sequences.
pub open spec fn matches_view(hits: Seq<Vec<Capture>>) -> Seq<Seq<Capture>> {
    Seq::new(hits.len(), |i: int| hits[i]@)
}

/// The names, as sequences of characters.
pub open spec fn names_view(names: Seq<String>) -> Seq<Seq<char>> {
    Seq::new(names.len(), |i: int| names[i]@)
}

/// `tree_sitter::Parser::parse` on a fresh parser that has been given the Java
/// grammar of `tree_sitter_java`. Trusted: a returned tree is the Java syntax
/// tree of `code`, and whether one is returned depends on `code` alone. There
/// is none where the parser does not take the grammar.
#[verifier::external_body]
pub(crate) fn parse_java(code: &str) -> (tree: Option<tree_sitter::Tree>)
    ensures
        tree is Some <==> java_parses(code@),
        tree matches Some(t) ==> tree_source(t) == Some(code@),
{
    let mut parser = tree_sitter::Parser::new();
    parser.set_language(&tree_sitter_java::LANGUAGE.into()).ok()?;
    parser.parse(code, None)
}

/// `tree_sitter::Node::has_error` on the root node of `tree`. Trusted: for
/// the Java syntax tree of a text the answer, whether the tree holds a syntax
/// error anywhere, depends only on that text.
#[verifier::external_body]
pub(crate) fn tree_has_error(tree: &tree_sitter::Tree) -> (broken: bool)
    ensures
        tree_source(*tree) matches Some(code) ==> broken == java_has_error(code),
{
    tree.root_node().has_error()
}

/// `tree_sitter::Query::new` with the Java grammar. Trusted: whether the
/// pattern compiles depends on the pattern alone, and a query that comes back
/// is the query of that pattern.
#[verifier::external_body]
pub(crate) fn compile_java_query(pattern: &str) -> (query: Result<
    tree_sitter::Query,
    tree_sitter::QueryError,
>)
    ensures
        query is Ok <==> java_pattern_compiles(pattern@),
        query matches Ok(q) ==> query_source(q) == Some(pattern@),
{
    tree_sitter::Query::new(&tree_sitter_java::LANGUAGE.into(), pattern)
}

/// `tree_sitter::Query::capture_names`, each name copied into a `String`.
/// Trusted: the names of a query for the Java grammar, in the order of their
/// indices, depend only on the pattern that the query was compiled from.
#[verifier::external_body]
pub(crate) fn query_capture_names(query: &tree_sitter::Query) -> (names: Vec<String>)
    ensures
        query_source(*query) matches Some(pattern) ==> names_view(names@) == java_capture_names(
            pattern,
        ),
{
    query.capture_names().iter().map(|name| name.to_string()).collect()
}

/// `tree_sitter::QueryCursor::matches` on a fresh cursor, from the root of
/// `tree`, walked to its end with `StreamingIterator::next`. Each match is
/// handed out as the list of its captures, each capture as its name index and
/// the start and end byte of its node. Trusted: for a query for the Java
/// grammar and the Java syntax tree of `code`, the matches and their order
/// depend only on the pattern of the query and on `code`.
#[verifier::external_body]
pub(crate) fn query_matches(query: &tree_sitter::Query, tree: &tree_sitter::Tree, code: &str) -> (hits:
    Vec<Vec<Capture>>)
    requires
        tree_source(*tree) == Some(code@),
    ensures
        query_source(*query) matches Some(pattern) ==> matches_view(hits@) == java_matches(
            pattern,
            code@,
        ),
{
    let mut cursor = tree_sitter::QueryCursor::new();
    let mut found = cursor.matches(query, tree.root_node(), code.as_bytes());
    let mut hits = Vec::new();
    while let Some(hit) = found.next() {
        let spans = hit.captures().iter().map(
            |c| Capture { index: c.index, start: c.node.start_byte(), end: c.node.end_byte() },
        );
        hits.push(spans.collect());
    }
    hits
}

} // verus!
