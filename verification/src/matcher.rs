//! Finds the constructs of one kind in a parsed source: runs the kind's
//! pattern over the syntax tree, keeps the captures that carry the kind's
//! capture name and cuts the identifier of each out of the source.

use crate::error::{FileSkipError, PatternCompileError};
use crate::grammar::{
    compile_java_query, java_capture_names, java_has_error, java_matches, java_parses,
    java_pattern_compiles, matches_view, names_view, parse_java, query_capture_names,
    query_matches, query_source, tree_has_error, tree_source, Capture,
};
use crate::query::{pattern_for, ConstructKind};
use vstd::prelude::*;
use vstd::string::{StringExecFns, StringSliceAdditionalSpecFns};
use vstd::utf8::{decode_utf8, encode_utf8, is_char_boundary, valid_utf8};

verus! {

/// One occurrence of a construct: its kind, the matched identifier and the
/// byte span of the identifier in the source.
#[derive(Clone, Debug, PartialEq, Eq)]
pub struct Match {
    pub kind: ConstructKind,
    pub text: String,
    pub start: usize,
    pub end: usize,
}

/// The mathematical content of a [`Match`].
pub struct MatchView {
    pub kind: ConstructKind,
    pub text: Seq<char>,
    pub start: int,
    pub end: int,
}

impl View for Match {
    type V = MatchView;

    open spec fn view(&self) -> MatchView {
        MatchView { kind: self.kind, text: self.text@, start: self.start as int, end: self.end as int }
    }
}

/// The views of a sequence of matches.
pub open spec fn found_view(found: Seq<Match>) -> Seq<MatchView> {
    found.map_values(|m: Match| m@)
}

/// Whether the bytes from `start` up to `end` are a run of whole characters
/// of `code`.
pub open spec fn span_ok(code: Seq<char>, start: int, end: int) -> bool {
    let bytes = encode_utf8(code);
    &&& 0 <= start <= end <= bytes.len()
    &&& is_char_boundary(bytes, start)
    &&& is_char_boundary(bytes, end)
}

/// The text that the bytes from `start` up to `end` of `code` spell.
pub open spec fn span_text(code: Seq<char>, start: int, end: int) -> Seq<char> {
    decode_utf8(encode_utf8(code).subrange(start, end))
}

/// Whether `capture` carries the name `wanted` among the capture names `names`.
pub open spec fn named(names: Seq<Seq<char>>, capture: Capture, wanted: Seq<char>) -> bool {
    capture.index < names.len() && names[capture.index as int] == wanted
}

/// The captures named `wanted` of all the matches `hits`, in order.
pub open spec fn selected(hits: Seq<Seq<Capture>>, names: Seq<Seq<char>>, wanted: Seq<char>) -> Seq<
    Capture,
> {
    hits.flatten().filter(|c: Capture| named(names, c, wanted))
}

/// Whether every capture spans whole characters of `code`.
pub open spec fn all_cut(code: Seq<char>, captures: Seq<Capture>) -> bool {
    forall|i: int|
        0 <= i < captures.len() ==> span_ok(
            code,
            (#[trigger] captures[i]).start as int,
            captures[i].end as int,
        )
}

/// The match of `kind` that `capture` stands for in `code`.
pub open spec fn match_of(code: Seq<char>, kind: ConstructKind, capture: Capture) -> MatchView {
    MatchView {
        kind,
        text: span_text(code, capture.start as int, capture.end as int),
        start: capture.start as int,
        end: capture.end as int,
    }
}

/// The matches of `kind` that `captures` stand for in `code`.
pub open spec fn matches_of(code: Seq<char>, kind: ConstructKind, captures: Seq<Capture>) -> Seq<
    MatchView,
> {
    captures.map_values(|c: Capture| match_of(code, kind, c))
}

/// In valid UTF-8 cut at a character boundary, an index into the first part is
/// a character boundary of the part exactly if it is one of the whole.
proof fn lemma_boundary_in_prefix(bytes: Seq<u8>, start: int, end: int)
    requires
        valid_utf8(bytes),
        0 <= start <= end <= bytes.len(),
        is_char_boundary(bytes, end),
    ensures
        is_char_boundary(bytes.subrange(0, end), start) <==> is_char_boundary(bytes, start),
{
    let head = bytes.subrange(0, end);
    vstd::utf8::valid_utf8_split(bytes, end);
    if start == end {
        vstd::utf8::is_char_boundary_start_end_of_seq(head);
    } else {
        vstd::utf8::is_char_boundary_iff_not_is_continuation_byte(head, start);
        vstd::utf8::is_char_boundary_iff_not_is_continuation_byte(bytes, start);
        assert(head[start] == bytes[start]);
    }
}

/// The part of `code` from byte `start` up to byte `end`, if those bytes are a
/// run of whole characters.
pub fn slice_text<'a>(code: &'a str, start: usize, end: usize) -> (text: Option<&'a str>)
    ensures
        text is Some <==> span_ok(code@, start as int, end as int),
        text matches Some(t) ==> t@ == span_text(code@, start as int, end as int),
{
    let ghost bytes = code.spec_bytes();
    proof {
        vstd::utf8::encode_utf8_valid_utf8(code@);
    }
    let len = code.as_bytes().len();
    if start <= end && end <= len && code.is_char_boundary(end) {
        let (head, _) = code.split_at(end);
        proof {
            vstd::utf8::encode_utf8_valid_utf8(head@);
            lemma_boundary_in_prefix(bytes, start as int, end as int);
        }
        if head.is_char_boundary(start) {
            let (_, text) = head.split_at(start);
            proof {
                assert(text.spec_bytes() =~= bytes.subrange(start as int, end as int));
                vstd::utf8::encode_utf8_decode_utf8(text@);
            }
            Some(text)
        } else {
            None
        }
    } else {
        None
    }
}

/// Whether `capture` carries the name `wanted`.
fn capture_is_named(names: &Vec<String>, capture: Capture, wanted: &String) -> (yes: bool)
    ensures
        yes == named(names_view(names@), capture, wanted@),
{
    let index = capture.index as usize;
    index < names.len() && names[index] == *wanted
}

/// The captures of the first `i` matches, followed by the first `j` captures
/// of the next match, are the first captures of all the matches.
proof fn lemma_flatten_prefix(hits: Seq<Seq<Capture>>, i: int, j: int)
    requires
        0 <= i < hits.len(),
        0 <= j <= hits[i].len(),
    ensures
        hits.take(i).flatten().len() + j <= hits.flatten().len(),
        hits.flatten().take(hits.take(i).flatten().len() + j) == hits.take(i).flatten()
            + hits[i].take(j),
        hits.take(i + 1).flatten() == hits.take(i).flatten() + hits[i],
        j < hits[i].len() ==> hits.flatten()[hits.take(i).flatten().len() + j] == hits[i][j],
{
    let before = hits.take(i);
    let one = seq![hits[i]];
    let after = hits.skip(i + 1);
    assert(hits =~= before + one + after);
    assert(hits.take(i + 1) =~= before + one);
    one.lemma_flatten_one_element();
    vstd::seq_lib::lemma_flatten_concat(before, one);
    vstd::seq_lib::lemma_flatten_concat(before + one, after);
    assert(hits.flatten() =~= before.flatten() + hits[i] + after.flatten());
    assert(hits.flatten().take(before.flatten().len() + j) =~= before.flatten() + hits[i].take(j));
}

/// The matches of `kind` among the pattern matches `hits` of `code`: one for
/// each capture that carries the kind's capture name, in order, with the
/// identifier cut out of `code`. Fails if one of those captures does not span
/// whole characters of `code`.
pub fn select_matches(
    hits: &Vec<Vec<Capture>>,
    names: &Vec<String>,
    code: &str,
    kind: ConstructKind,
) -> (found: Result<Vec<Match>, FileSkipError>)
    ensures
        found is Ok <==> all_cut(
            code@,
            selected(matches_view(hits@), names_view(names@), kind.capture_name()),
        ),
        found matches Ok(list) ==> found_view(list@) == matches_of(
            code@,
            kind,
            selected(matches_view(hits@), names_view(names@), kind.capture_name()),
        ),
        found matches Err(e) ==> e == FileSkipError::Span,
{
    let wanted = String::from_str(pattern_for(kind).1);
    let ghost all = matches_view(hits@);
    let ghost flat = all.flatten();
    let ghost keep = |c: Capture| named(names_view(names@), c, wanted@);
    let mut found: Vec<Match> = Vec::new();
    let ghost mut done: int = 0;
    proof {
        assert(all.take(0) =~= Seq::<Seq<Capture>>::empty());
        assert(flat.take(0) =~= Seq::<Capture>::empty());
        assert(flat.take(0).filter(keep) =~= Seq::<Capture>::empty()) by {
            flat.take(0).lemma_filter_len(keep);
        }
        assert(found_view(found@) =~= matches_of(code@, kind, flat.take(0).filter(keep)));
    }
    let mut i: usize = 0;
    while i < hits.len()
        invariant
            0 <= i <= hits.len(),
            all == matches_view(hits@),
            flat == all.flatten(),
            keep == |c: Capture| named(names_view(names@), c, wanted@),
            wanted@ == kind.capture_name(),
            done == all.take(i as int).flatten().len(),
            0 <= done <= flat.len(),
            flat.take(done) == all.take(i as int).flatten(),
            all_cut(code@, flat.take(done).filter(keep)),
            found_view(found@) == matches_of(code@, kind, flat.take(done).filter(keep)),
        decreases hits.len() - i,
    {
        let hit = &hits[i];
        let ghost base = done;
        let mut j: usize = 0;
        proof {
            lemma_flatten_prefix(all, i as int, 0);
            assert(all[i as int].take(0) =~= Seq::<Capture>::empty());
        }
        while j < hit.len()
            invariant
                0 <= i < hits.len(),
                0 <= j <= hit.len(),
                hit@ == all[i as int],
                all == matches_view(hits@),
                flat == all.flatten(),
                keep == |c: Capture| named(names_view(names@), c, wanted@),
                wanted@ == kind.capture_name(),
                base == all.take(i as int).flatten().len(),
                done == base + j,
                0 <= done <= flat.len(),
                all_cut(code@, flat.take(done).filter(keep)),
                found_view(found@) == matches_of(code@, kind, flat.take(done).filter(keep)),
            decreases hit.len() - j,
        {
            let capture = hit[j];
            let ghost before = flat.take(done).filter(keep);
            proof {
                lemma_flatten_prefix(all, i as int, j as int);
                lemma_flatten_prefix(all, i as int, j as int + 1);
                assert(flat[done] == capture);
                assert(flat.take(done + 1) =~= flat.take(done).push(capture));
                flat.take(done).lemma_filter_push(capture, keep);
            }
            if capture_is_named(names, capture, &wanted) {
                match slice_text(code, capture.start, capture.end) {
                    Some(text) => {
                        let ghost old_found = found@;
                        found.push(
                            Match {
                                kind,
                                text: String::from_str(text),
                                start: capture.start,
                                end: capture.end,
                            },
                        );
                        proof {
                            assert(found_view(found@) =~= found_view(old_found).push(
                                match_of(code@, kind, capture),
                            ));
                            assert(matches_of(code@, kind, before.push(capture)) =~= matches_of(
                                code@,
                                kind,
                                before,
                            ).push(match_of(code@, kind, capture)));
                        }
                    },
                    None => {
                        proof {
                            flat.lemma_filter_contains(keep, done);
                            let at = choose|at: int|
                                0 <= at < flat.filter(keep).len() && flat.filter(keep)[at]
                                    == capture;
                            assert(!span_ok(
                                code@,
                                flat.filter(keep)[at].start as int,
                                flat.filter(keep)[at].end as int,
                            ));
                        }
                        return Err(FileSkipError::Span);
                    },
                }
            }
            j += 1;
            proof {
                done = done + 1;
            }
        }
        proof {
            lemma_flatten_prefix(all, i as int, hit@.len() as int);
            assert(all[i as int].take(hit@.len() as int) =~= all[i as int]);
        }
        i += 1;
    }
    proof {
        assert(all.take(hits.len() as int) =~= all);
        assert(flat.take(done) =~= flat);
    }
    Ok(found)
}

/// A parsed source: the syntax tree of a text that is valid Java.
pub struct SyntaxTree {
    tree: tree_sitter::Tree,
}

/// Whether `code` parses as Java without a syntax error.
pub open spec fn parses_cleanly(code: Seq<char>) -> bool {
    java_parses(code) && !java_has_error(code)
}

impl SyntaxTree {
    /// Whether this is the syntax tree of `code`.
    pub closed spec fn is_tree_of(&self, code: Seq<char>) -> bool {
        tree_source(self.tree) == Some(code)
    }

    /// Parses `code` as Java. Text with a syntax error anywhere is refused.
    pub fn parse(code: &str) -> (parsed: Result<SyntaxTree, FileSkipError>)
        ensures
            parsed is Ok <==> parses_cleanly(code@),
            parsed matches Ok(tree) ==> tree.is_tree_of(code@),
            parsed matches Err(e) ==> e == FileSkipError::Parse,
    {
        match parse_java(code) {
            Some(tree) => {
                if tree_has_error(&tree) {
                    Err(FileSkipError::Parse)
                } else {
                    Ok(SyntaxTree { tree })
                }
            },
            None => Err(FileSkipError::Parse),
        }
    }
}

/// The patterns of all construct kinds, compiled against the grammar. They are
/// compiled once and used for every source of a scan.
pub struct PatternCatalog {
    method: tree_sitter::Query,
    variable: tree_sitter::Query,
}

/// The first declared kind whose pattern does not compile, if there is one.
pub open spec fn first_broken_pattern() -> Option<ConstructKind> {
    if !java_pattern_compiles(ConstructKind::Method.pattern()) {
        Some(ConstructKind::Method)
    } else if !java_pattern_compiles(ConstructKind::Variable.pattern()) {
        Some(ConstructKind::Variable)
    } else {
        None
    }
}

impl PatternCatalog {
    /// Each compiled query is that of its kind's pattern.
    pub closed spec fn wf(&self) -> bool {
        &&& query_source(self.method) == Some(ConstructKind::Method.pattern())
        &&& query_source(self.variable) == Some(ConstructKind::Variable.pattern())
    }

    /// Compiles the pattern of every kind. Fails on the first kind, in
    /// declared order, whose pattern does not compile.
    pub fn compile() -> (catalog: Result<PatternCatalog, PatternCompileError>)
        ensures
            catalog is Ok <==> first_broken_pattern() is None,
            catalog matches Ok(c) ==> c.wf(),
            catalog matches Err(e) ==> first_broken_pattern() == Some(e.kind),
    {
        let method = match compile_java_query(pattern_for(ConstructKind::Method).0) {
            Ok(query) => query,
            Err(_) => {
                return Err(PatternCompileError { kind: ConstructKind::Method });
            },
        };
        let variable = match compile_java_query(pattern_for(ConstructKind::Variable).0) {
            Ok(query) => query,
            Err(_) => {
                return Err(PatternCompileError { kind: ConstructKind::Variable });
            },
        };
        Ok(PatternCatalog { method, variable })
    }

    fn query(&self, kind: ConstructKind) -> (query: &tree_sitter::Query)
        requires
            self.wf(),
        ensures
            query_source(*query) == Some(kind.pattern()),
    {
        match kind {
            ConstructKind::Method => &self.method,
            ConstructKind::Variable => &self.variable,
        }
    }
}

/// The captures in `code` that stand for constructs of `kind`: those that the
/// kind's pattern yields under the kind's capture name.
pub open spec fn captures_of(code: Seq<char>, kind: ConstructKind) -> Seq<Capture> {
    selected(
        java_matches(kind.pattern(), code),
        java_capture_names(kind.pattern()),
        kind.capture_name(),
    )
}

/// The constructs of `kind` in `code`, in the order in which the pattern
/// finds them, or the reason why `code` yields none.
pub open spec fn constructs(code: Seq<char>, kind: ConstructKind) -> Result<
    Seq<MatchView>,
    FileSkipError,
> {
    if all_cut(code, captures_of(code, kind)) {
        Ok(matches_of(code, kind, captures_of(code, kind)))
    } else {
        Err(FileSkipError::Span)
    }
}

/// Finds the constructs of `kind` in a parsed source.
pub fn find_matches(catalog: &PatternCatalog, tree: &SyntaxTree, code: &str, kind: ConstructKind) -> (found:
    Result<Vec<Match>, FileSkipError>)
    requires
        catalog.wf(),
        tree.is_tree_of(code@),
    ensures
        found is Ok <==> constructs(code@, kind) is Ok,
        found matches Ok(list) ==> constructs(code@, kind) == Ok::<Seq<MatchView>, FileSkipError>(
            found_view(list@),
        ),
        found matches Err(e) ==> constructs(code@, kind) == Err::<Seq<MatchView>, FileSkipError>(e),
{
    let query = catalog.query(kind);
    let names = query_capture_names(query);
    let hits = query_matches(query, &tree.tree, code);
    select_matches(&hits, &names, code, kind)
}

} // verus!
