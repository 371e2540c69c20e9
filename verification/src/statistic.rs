//! Scans one source text: finds its constructs and records them.

use crate::aggregator::{lemma_absorb_joined, Aggregator, Tally};
use crate::error::FileSkipError;
use crate::matcher::{
    constructs, find_matches, found_view, parses_cleanly, MatchView, PatternCatalog, SyntaxTree,
};
use crate::query::ConstructKind;
use vstd::prelude::*;

verus! {

/// What a scan of `code` for `kind` finds: the constructs of that kind, in
/// order, or the reason why the source is skipped.
pub open spec fn scan_kind(code: Seq<char>, kind: ConstructKind) -> Result<
    Seq<MatchView>,
    FileSkipError,
> {
    if !parses_cleanly(code) {
        Err(FileSkipError::Parse)
    } else {
        constructs(code, kind)
    }
}

/// What a scan of `code` finds: the methods, then the variables, or the
/// reason why the source is skipped.
pub open spec fn scan_source(code: Seq<char>) -> Result<Seq<MatchView>, FileSkipError> {
    if !parses_cleanly(code) {
        Err(FileSkipError::Parse)
    } else {
        match constructs(code, ConstructKind::Method) {
            Err(e) => Err(e),
            Ok(methods) => match constructs(code, ConstructKind::Variable) {
                Err(e) => Err(e),
                Ok(variables) => Ok(methods + variables),
            },
        }
    }
}

/// A source text with the name of the file it came from.
pub struct SourceText {
    pub name: Seq<char>,
    pub content: Seq<char>,
}

/// The counters and the log after `texts` have been scanned, one after the
/// other, starting with nothing recorded. A text that is skipped leaves no
/// trace.
pub open spec fn scan_all(texts: Seq<SourceText>) -> Tally
    decreases texts.len(),
{
    if texts.len() == 0 {
        Tally::empty()
    } else {
        let before = scan_all(texts.drop_last());
        match scan_source(texts.last().content) {
            Ok(found) => before.absorb(found, texts.last().name),
            Err(_) => before,
        }
    }
}

/// How many of the matches `found` are of `kind`.
pub open spec fn count_of(found: Seq<MatchView>, kind: ConstructKind) -> nat {
    found.filter(|m: MatchView| m.kind == kind).len()
}

/// What a text adds to the count of `kind`: the number of its constructs of
/// that kind, and nothing if the text is skipped.
pub open spec fn contribution(content: Seq<char>, kind: ConstructKind) -> nat {
    match scan_source(content) {
        Ok(found) => count_of(found, kind),
        Err(_) => 0,
    }
}

/// What `texts` add to the count of `kind`, all together.
pub open spec fn total(texts: Seq<SourceText>, kind: ConstructKind) -> nat
    decreases texts.len(),
{
    if texts.len() == 0 {
        0
    } else {
        total(texts.drop_last(), kind) + contribution(texts.last().content, kind)
    }
}

/// Counts the constructs of `kind` in `code`: records each of them in
/// `aggregator` under the file name `filename` and returns how many there are.
/// A source that is skipped leaves the aggregator as it was.
pub fn statistic(
    catalog: &PatternCatalog,
    code: &str,
    kind: ConstructKind,
    filename: &str,
    aggregator: &mut Aggregator,
) -> (counted: Result<usize, FileSkipError>)
    requires
        catalog.wf(),
        old(aggregator).wf(),
    ensures
        final(aggregator).wf(),
        match scan_kind(code@, kind) {
            Ok(found) => {
                &&& counted matches Ok(n)
                &&& n == found.len()
                &&& final(aggregator)@ == old(aggregator)@.absorb(found, filename@)
            },
            Err(e) => counted == Err::<usize, FileSkipError>(e) && final(aggregator)@ == old(
                aggregator,
            )@,
        },
{
    let tree = match SyntaxTree::parse(code) {
        Ok(tree) => tree,
        Err(e) => {
            return Err(e);
        },
    };
    let found = match find_matches(catalog, &tree, code, kind) {
        Ok(found) => found,
        Err(e) => {
            return Err(e);
        },
    };
    Ok(aggregator.record_all(&found, filename))
}

/// Counts the constructs of every kind in the content `code` of one file:
/// records the methods, then the variables, under the file name `filename`.
/// The content is parsed once. A file that is skipped leaves the aggregator as
/// it was: either all of a file's constructs are recorded or none.
pub fn statistic_file(
    catalog: &PatternCatalog,
    code: &str,
    filename: &str,
    aggregator: &mut Aggregator,
) -> (scanned: Result<(), FileSkipError>)
    requires
        catalog.wf(),
        old(aggregator).wf(),
    ensures
        final(aggregator).wf(),
        match scan_source(code@) {
            Ok(found) => scanned is Ok && final(aggregator)@ == old(aggregator)@.absorb(
                found,
                filename@,
            ),
            Err(e) => scanned == Err::<(), FileSkipError>(e) && final(aggregator)@ == old(
                aggregator,
            )@,
        },
{
    let tree = match SyntaxTree::parse(code) {
        Ok(tree) => tree,
        Err(e) => {
            return Err(e);
        },
    };
    let methods = match find_matches(catalog, &tree, code, ConstructKind::Method) {
        Ok(found) => found,
        Err(e) => {
            return Err(e);
        },
    };
    let variables = match find_matches(catalog, &tree, code, ConstructKind::Variable) {
        Ok(found) => found,
        Err(e) => {
            return Err(e);
        },
    };
    proof {
        lemma_absorb_joined(
            old(aggregator)@,
            found_view(methods@),
            found_view(variables@),
            filename@,
        );
    }
    aggregator.record_all(&methods, filename);
    aggregator.record_all(&variables, filename);
    Ok(())
}

} // verus!
