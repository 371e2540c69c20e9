//! What holds of every scan, whatever the sources are.

use crate::aggregator::{
    arrivals_of, lemma_absorb_consistent, lemma_record_consistent, lemma_record_streams, stream,
    Arrival, Tally,
};
use crate::error::{FatalError, WritePolicy};
use crate::finding::FindingView;
use crate::matcher::{constructs, MatchView};
use crate::query::ConstructKind;
use crate::scan::{ActionView, EventView, ScanView, SkippedView};
use crate::statistic::{contribution, count_of, scan_all, scan_source, total, SourceText};
use vstd::prelude::*;

verus! {

/// Recording a run of matches raises the count of a kind by the number of
/// matches of that kind in the run.
pub proof fn law_absorb_counts(
    tally: Tally,
    found: Seq<MatchView>,
    file: Seq<char>,
    kind: ConstructKind,
)
    ensures
        tally.absorb(found, file).count(kind) == tally.count(kind) + count_of(found, kind),
    decreases found.len(),
{
    let of_kind = |m: MatchView| m.kind == kind;
    if found.len() == 0 {
        found.lemma_filter_len(of_kind);
    } else {
        law_absorb_counts(tally, found.drop_last(), file, kind);
        assert(found =~= found.drop_last().push(found.last()));
        found.drop_last().lemma_filter_push(found.last(), of_kind);
    }
}

/// A run of matches with none of a kind leaves the count of that kind and its
/// findings in the log as they were.
pub proof fn law_no_match_no_finding(
    tally: Tally,
    found: Seq<MatchView>,
    file: Seq<char>,
    kind: ConstructKind,
)
    requires
        count_of(found, kind) == 0,
    ensures
        tally.absorb(found, file).count(kind) == tally.count(kind),
        stream(tally.absorb(found, file).log, kind) == stream(tally.log, kind),
    decreases found.len(),
{
    let of_kind = |m: MatchView| m.kind == kind;
    law_absorb_counts(tally, found, file, kind);
    if found.len() > 0 {
        assert(found =~= found.drop_last().push(found.last()));
        found.drop_last().lemma_filter_push(found.last(), of_kind);
        law_no_match_no_finding(tally, found.drop_last(), file, kind);
        lemma_record_streams(
            tally.absorb(found.drop_last(), file),
            found.last().kind,
            found.last().text,
            file,
            kind,
        );
    }
}

/// Before anything is recorded, counters and log agree.
pub proof fn law_empty_consistent()
    ensures
        Tally::empty().consistent(),
{
    assert forall|kind: ConstructKind| (#[trigger] stream(Tally::empty().log, kind)).len() == 0 by {
        Tally::empty().log.lemma_filter_len(|f: FindingView| f.kind == kind);
    }
}

/// Count and log agree after any scan: for each kind the counter is the
/// number of findings of that kind in the log, and those findings carry the
/// counts 1, 2, 3, ... in log order.
pub proof fn law_counts_match_log(texts: Seq<SourceText>, kind: ConstructKind)
    ensures
        scan_all(texts).consistent(),
        scan_all(texts).count(kind) == stream(scan_all(texts).log, kind).len(),
        forall|i: int|
            0 <= i < stream(scan_all(texts).log, kind).len() ==> (#[trigger] stream(
                scan_all(texts).log,
                kind,
            )[i]).count == i + 1,
    decreases texts.len(),
{
    if texts.len() == 0 {
        law_empty_consistent();
    } else {
        law_counts_match_log(texts.drop_last(), kind);
        match scan_source(texts.last().content) {
            Ok(found) => {
                lemma_absorb_consistent(scan_all(texts.drop_last()), found, texts.last().name);
            },
            Err(_) => {},
        }
    }
    assert(stream(scan_all(texts).log, kind).len() == scan_all(texts).count(kind));
}

/// No two findings of one kind carry the same running count.
pub proof fn law_running_counts_differ(tally: Tally, kind: ConstructKind, i: int, j: int)
    requires
        tally.consistent(),
        0 <= i < stream(tally.log, kind).len(),
        0 <= j < stream(tally.log, kind).len(),
        i != j,
    ensures
        stream(tally.log, kind)[i].count != stream(tally.log, kind)[j].count,
{
    assert(stream(tally.log, kind)[i].count == i + 1);
    assert(stream(tally.log, kind)[j].count == j + 1);
}

/// The count of a kind after a scan is what the texts add to it, one by one.
pub proof fn law_count_is_total(texts: Seq<SourceText>, kind: ConstructKind)
    ensures
        scan_all(texts).count(kind) == total(texts, kind),
    decreases texts.len(),
{
    if texts.len() > 0 {
        law_count_is_total(texts.drop_last(), kind);
        match scan_source(texts.last().content) {
            Ok(found) => {
                law_absorb_counts(scan_all(texts.drop_last()), found, texts.last().name, kind);
            },
            Err(_) => {},
        }
    }
}

/// Leaving one text out lowers the total by what that text adds.
pub proof fn law_total_without(texts: Seq<SourceText>, at: int, kind: ConstructKind)
    requires
        0 <= at < texts.len(),
    ensures
        total(texts, kind) == total(texts.remove(at), kind) + contribution(
            texts[at].content,
            kind,
        ),
    decreases texts.len(),
{
    if at == texts.len() - 1 {
        assert(texts.remove(at) =~= texts.drop_last());
    } else {
        law_total_without(texts.drop_last(), at, kind);
        assert(texts.remove(at).drop_last() =~= texts.drop_last().remove(at));
        assert(texts.remove(at).last() == texts.last());
    }
}

/// The final counts do not depend on the order in which the texts are
/// scanned: two scans of the same texts, in whatever order, count the same.
pub proof fn law_order_does_not_matter(
    first: Seq<SourceText>,
    second: Seq<SourceText>,
    kind: ConstructKind,
)
    requires
        first.to_multiset() == second.to_multiset(),
    ensures
        scan_all(first).count(kind) == scan_all(second).count(kind),
    decreases first.len(),
{
    law_count_is_total(first, kind);
    law_count_is_total(second, kind);
    vstd::seq_lib::to_multiset_len(first);
    vstd::seq_lib::to_multiset_len(second);
    if first.len() > 0 {
        let text = first.last();
        let last = first.len() - 1;
        assert(first.contains(text));
        vstd::seq_lib::to_multiset_contains(first, text);
        vstd::seq_lib::to_multiset_contains(second, text);
        let at = choose|at: int| 0 <= at < second.len() && second[at] == text;
        vstd::seq_lib::to_multiset_remove(first, last);
        vstd::seq_lib::to_multiset_remove(second, at);
        law_order_does_not_matter(first.remove(last), second.remove(at), kind);
        law_count_is_total(first.remove(last), kind);
        law_count_is_total(second.remove(at), kind);
        law_total_without(first, last, kind);
        law_total_without(second, at, kind);
    }
}

/// A text that is skipped is absent from every count and from the log, and
/// the texts scanned before and after it count as if it had not been there.
pub proof fn law_skipped_text_leaves_no_trace(
    before: Seq<SourceText>,
    skipped: SourceText,
    after: Seq<SourceText>,
    kind: ConstructKind,
)
    requires
        scan_source(skipped.content) is Err,
    ensures
        scan_all(before.push(skipped)) == scan_all(before),
        scan_all(before.push(skipped) + after).count(kind) == scan_all(before + after).count(kind),
{
    assert(before.push(skipped).drop_last() =~= before);
    let with = before.push(skipped) + after;
    let at = before.len() as int;
    assert(with[at] == skipped);
    assert(with.remove(at) =~= before + after);
    law_total_without(with, at, kind);
    law_count_is_total(with, kind);
    law_count_is_total(before + after, kind);
}

/// A text without a construct of a kind adds nothing to the count of that
/// kind and no finding of that kind to the log.
pub proof fn law_text_without_match(texts: Seq<SourceText>, text: SourceText, kind: ConstructKind)
    requires
        contribution(text.content, kind) == 0,
    ensures
        scan_all(texts.push(text)).count(kind) == scan_all(texts).count(kind),
        stream(scan_all(texts.push(text)).log, kind) == stream(scan_all(texts).log, kind),
{
    assert(texts.push(text).drop_last() =~= texts);
    match scan_source(text.content) {
        Ok(found) => {
            law_no_match_no_finding(scan_all(texts), found, text.name, kind);
        },
        Err(_) => {},
    }
}

/// Where each of the texts holds the same number of constructs of a kind, the
/// final count of that kind is the number of texts times that number.
pub proof fn law_files_times_matches(texts: Seq<SourceText>, kind: ConstructKind, each: nat)
    requires
        forall|i: int| 0 <= i < texts.len() ==> contribution((#[trigger] texts[i]).content, kind) == each,
    ensures
        scan_all(texts).count(kind) == texts.len() * each,
    decreases texts.len(),
{
    law_count_is_total(texts, kind);
    if texts.len() > 0 {
        let rest = texts.drop_last();
        assert forall|i: int| 0 <= i < rest.len() implies contribution(
            (#[trigger] rest[i]).content,
            kind,
        ) == each by {
            assert(rest[i] == texts[i]);
        }
        law_files_times_matches(rest, kind, each);
        law_count_is_total(rest, kind);
        assert(contribution(texts.last().content, kind) == each) by {
            assert(texts.last() == texts[texts.len() - 1]);
        }
        assert(texts.len() * each == rest.len() * each + each) by (nonlinear_arith)
            requires
                texts.len() == rest.len() + 1,
        ;
    }
}

/// Whatever is reported, a scan stays in a state in which counters and log
/// agree and are what the texts handed in so far give.
pub proof fn law_step_keeps_sound(scan: ScanView, event: EventView)
    requires
        scan.sound(),
    ensures
        scan.step(event).sound(),
{
    if scan.state is Scanning {
        match event {
            EventView::Text { name, content } => {
                let text = SourceText { name, content };
                assert(scan.texts.push(text).drop_last() =~= scan.texts);
                match scan_source(content) {
                    Ok(found) => {
                        lemma_absorb_consistent(scan.tally, found, name);
                    },
                    Err(_) => {},
                }
            },
            _ => {},
        }
    }
}

/// A scan that has not started is in such a state, and starting it, a failed
/// write of the log and calling it off keep it in one.
pub proof fn law_run_keeps_sound(scan: ScanView, root: Seq<char>, policy: WritePolicy)
    requires
        scan.sound(),
    ensures
        ScanView::idle().sound(),
        scan.run(root).sound(),
        scan.write_failed(policy).sound(),
        scan.cancel().sound(),
{
    law_empty_consistent();
}

/// A file that does not parse, or whose matches cannot be cut out, is noted
/// as skipped and counts nothing. The scan does not fail on it: it moves on
/// to the next path as after any other file.
pub proof fn law_broken_file_is_skipped(scan: ScanView, name: Seq<char>, content: Seq<char>)
    requires
        scan.state is Scanning,
        scan_source(content) is Err,
    ensures
        !(scan.step(EventView::Text { name, content }).state is Failed),
        scan.step(EventView::Text { name, content }).tally == scan.tally,
        scan.step(EventView::Text { name, content }).skipped == scan.skipped.push(
            SkippedView { path: scan.current, reason: scan_source(content)->Err_0 },
        ),
        scan.visitor.pending.len() > 0 ==> {
            &&& scan.step(EventView::Text { name, content }).state is Scanning
            &&& scan.step(EventView::Text { name, content }).current == scan.visitor.pending.last()
        },
{
}

/// A root that is an empty directory ends the scan at once: done, with
/// nothing counted, nothing logged and nothing skipped.
pub proof fn law_empty_root_is_done(root: Seq<char>, id: u128)
    ensures
        ({
            let end = ScanView::idle().run(root).step(
                EventView::Directory { id, children: Seq::empty() },
            );
            &&& end.state is Done
            &&& end.tally == Tally::empty()
            &&& end.skipped.len() == 0
            &&& end.action() == Some(ActionView::Finish { methods: 0, variables: 0 })
        }),
{
    let started = ScanView::idle().run(root);
    let entered = started.handle(EventView::Directory { id, children: Seq::empty() });
    assert(entered.visitor.pending =~= Seq::<Seq<char>>::empty());
}

/// A root that cannot be visited fails the scan: nothing is counted and
/// nothing is logged.
pub proof fn law_missing_root_fails(root: Seq<char>)
    ensures
        ({
            let end = ScanView::idle().run(root).step(EventView::Unreadable);
            &&& end.state is Failed
            &&& end.failure == FatalError::Root
            &&& end.tally == Tally::empty()
            &&& end.action() == Some(ActionView::Fail(FatalError::Root))
        }),
{
}

/// Only the root can fail a scan by being unreadable: any other entry that
/// cannot be read is skipped.
pub proof fn law_only_root_is_fatal(scan: ScanView, event: EventView)
    requires
        scan.state is Scanning,
        !scan.at_root,
    ensures
        !(scan.step(event).state is Failed),
{
}

/// A root that is a single file yields that one file: after its text is
/// handed in the scan is done, and it has counted what that text holds.
pub proof fn law_single_file_root(root: Seq<char>, name: Seq<char>, content: Seq<char>)
    ensures
        ({
            let end = ScanView::idle().run(root).step(EventView::Text { name, content });
            &&& end.state is Done
            &&& end.tally == scan_all(seq![SourceText { name, content }])
        }),
{
    let text = SourceText { name, content };
    assert(seq![text].drop_last() =~= Seq::<SourceText>::empty());
    assert(Seq::<SourceText>::empty().push(text) =~= seq![text]);
    assert(scan_all(seq![text].drop_last()) == Tally::empty());
}

/// The constructs that a scan of a text finds for a kind are all of that
/// kind, so a text adds to the count of a kind exactly the number of
/// constructs of that kind in it.
pub proof fn law_contribution_is_constructs(content: Seq<char>, kind: ConstructKind)
    requires
        scan_source(content) is Ok,
    ensures
        constructs(content, kind) is Ok,
        contribution(content, kind) == constructs(content, kind)->Ok_0.len(),
{
    let methods = constructs(content, ConstructKind::Method)->Ok_0;
    let variables = constructs(content, ConstructKind::Variable)->Ok_0;
    let of_kind = |m: MatchView| m.kind == kind;
    lemma_all_of_one_kind(content, ConstructKind::Method, kind);
    lemma_all_of_one_kind(content, ConstructKind::Variable, kind);
    Seq::filter_distributes_over_add(methods, variables, of_kind);
}

/// The constructs found for `searched` are all counted under `searched`
/// and none under another kind.
proof fn lemma_all_of_one_kind(content: Seq<char>, searched: ConstructKind, kind: ConstructKind)
    requires
        constructs(content, searched) is Ok,
    ensures
        count_of(constructs(content, searched)->Ok_0, kind) == if kind == searched {
            constructs(content, searched)->Ok_0.len()
        } else {
            0
        },
{
    let found = constructs(content, searched)->Ok_0;
    lemma_count_of_uniform(found, searched, kind);
}

/// Counting matches that are all of one kind.
proof fn lemma_count_of_uniform(found: Seq<MatchView>, searched: ConstructKind, kind: ConstructKind)
    requires
        forall|i: int| 0 <= i < found.len() ==> (#[trigger] found[i]).kind == searched,
    ensures
        count_of(found, kind) == if kind == searched {
            found.len()
        } else {
            0
        },
    decreases found.len(),
{
    let of_kind = |m: MatchView| m.kind == kind;
    if found.len() == 0 {
        found.lemma_filter_len(of_kind);
    } else {
        let rest = found.drop_last();
        assert forall|i: int| 0 <= i < rest.len() implies (#[trigger] rest[i]).kind == searched by {
            assert(rest[i] == found[i]);
        }
        lemma_count_of_uniform(rest, searched, kind);
        assert(found =~= rest.push(found.last()));
        rest.lemma_filter_push(found.last(), of_kind);
        assert(found.last() == found[found.len() - 1]);
    }
}

/// However the matches of several files arrive, one after the other or mixed,
/// each is recorded once: counters and log stay in agreement, and the count
/// of a kind rises by the number of arrivals of that kind.
pub proof fn law_every_arrival_counts_once(tally: Tally, arrivals: Seq<Arrival>, kind: ConstructKind)
    requires
        tally.consistent(),
    ensures
        tally.record_each(arrivals).consistent(),
        tally.record_each(arrivals).count(kind) == tally.count(kind) + arrivals_of(arrivals, kind),
        tally.record_each(arrivals).log.len() == tally.log.len() + arrivals.len(),
    decreases arrivals.len(),
{
    let of_kind = |a: Arrival| a.kind == kind;
    if arrivals.len() == 0 {
        arrivals.lemma_filter_len(of_kind);
    } else {
        let rest = arrivals.drop_last();
        let last = arrivals.last();
        law_every_arrival_counts_once(tally, rest, kind);
        lemma_record_consistent(tally.record_each(rest), last.kind, last.identifier, last.file);
        assert(arrivals =~= rest.push(last));
        rest.lemma_filter_push(last, of_kind);
    }
}

/// Leaving one arrival out lowers the number of arrivals of its kind by one
/// and that of the other kind not at all.
proof fn lemma_arrivals_without(arrivals: Seq<Arrival>, at: int, kind: ConstructKind)
    requires
        0 <= at < arrivals.len(),
    ensures
        arrivals_of(arrivals, kind) == arrivals_of(arrivals.remove(at), kind) + if arrivals[at].kind
            == kind {
            1nat
        } else {
            0nat
        },
{
    let of_kind = |a: Arrival| a.kind == kind;
    let head = arrivals.take(at);
    let tail = arrivals.skip(at + 1);
    assert(arrivals =~= head.push(arrivals[at]) + tail);
    assert(arrivals.remove(at) =~= head + tail);
    Seq::filter_distributes_over_add(head.push(arrivals[at]), tail, of_kind);
    Seq::filter_distributes_over_add(head, tail, of_kind);
    head.lemma_filter_push(arrivals[at], of_kind);
}

/// The same arrivals in another order hold as many of each kind.
proof fn lemma_arrivals_reordered(first: Seq<Arrival>, second: Seq<Arrival>, kind: ConstructKind)
    requires
        first.to_multiset() == second.to_multiset(),
    ensures
        arrivals_of(first, kind) == arrivals_of(second, kind),
    decreases first.len(),
{
    vstd::seq_lib::to_multiset_len(first);
    vstd::seq_lib::to_multiset_len(second);
    if first.len() == 0 {
        assert(first =~= second);
    } else {
        let arrival = first.last();
        let last = first.len() - 1;
        assert(first.contains(arrival));
        vstd::seq_lib::to_multiset_contains(first, arrival);
        vstd::seq_lib::to_multiset_contains(second, arrival);
        let at = choose|at: int| 0 <= at < second.len() && second[at] == arrival;
        vstd::seq_lib::to_multiset_remove(first, last);
        vstd::seq_lib::to_multiset_remove(second, at);
        lemma_arrivals_reordered(first.remove(last), second.remove(at), kind);
        lemma_arrivals_without(first, last, kind);
        lemma_arrivals_without(second, at, kind);
    }
}

/// Matches that arrive mixed count as they would one file after the other:
/// the final counts depend on which matches arrive, not on their order.
pub proof fn law_interleaving_keeps_counts(
    tally: Tally,
    first: Seq<Arrival>,
    second: Seq<Arrival>,
    kind: ConstructKind,
)
    requires
        tally.consistent(),
        first.to_multiset() == second.to_multiset(),
    ensures
        tally.record_each(first).count(kind) == tally.record_each(second).count(kind),
{
    law_every_arrival_counts_once(tally, first, kind);
    law_every_arrival_counts_once(tally, second, kind);
    lemma_arrivals_reordered(first, second, kind);
}

/// The arrivals that the matches `found` of one file make.
pub open spec fn arrivals_from(found: Seq<MatchView>, file: Seq<char>) -> Seq<Arrival> {
    found.map_values(|m: MatchView| Arrival { kind: m.kind, identifier: m.text, file })
}

/// Recording the matches of a file is recording the arrivals they make, in
/// order.
pub proof fn law_absorb_is_record_each(tally: Tally, found: Seq<MatchView>, file: Seq<char>)
    ensures
        tally.absorb(found, file) == tally.record_each(arrivals_from(found, file)),
    decreases found.len(),
{
    if found.len() > 0 {
        law_absorb_is_record_each(tally, found.drop_last(), file);
        assert(arrivals_from(found, file).drop_last() =~= arrivals_from(found.drop_last(), file));
    }
}

} // verus!
