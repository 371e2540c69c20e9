//! A whole scan, seen from above: the orchestrator is stepped along a tree of
//! files until it stops. What is proved here is that such a walk hands in the
//! text of every regular file under the root, once.

use crate::error::FileSkipError;
use crate::scan::{EventView, ScanView};
use crate::statistic::SourceText;
use vstd::prelude::*;

verus! {

/// The scan after at most `steps` paths of the tree `at` have been looked at:
/// at each step the orchestrator is told what stands at the path it asked
/// about.
pub open spec fn walk(scan: ScanView, at: spec_fn(Seq<char>) -> EventView, steps: nat) -> ScanView
    decreases steps,
{
    if steps == 0 || !(scan.state is Scanning) {
        scan
    } else {
        walk(scan.step(at(scan.current)), at, (steps - 1) as nat)
    }
}

/// Whether the tree below `path` is at most `depth` directories deep.
pub open spec fn bounded(at: spec_fn(Seq<char>) -> EventView, path: Seq<char>, depth: nat) -> bool
    decreases depth,
{
    match at(path) {
        EventView::Directory { id, children } => depth > 0 && forall|i: int|
            0 <= i < children.len() ==> bounded(at, #[trigger] children[i], (depth - 1) as nat),
        _ => true,
    }
}

/// The texts of the regular files at and below `path`, in the order in which
/// a scan comes to them, as far as `depth` directories down.
pub open spec fn texts_under(
    at: spec_fn(Seq<char>) -> EventView,
    path: Seq<char>,
    depth: nat,
) -> Seq<SourceText>
    decreases depth, 0nat, 0nat,
{
    match at(path) {
        EventView::Text { name, content } => seq![SourceText { name, content }],
        EventView::Directory { id, children } => if depth == 0 {
            Seq::empty()
        } else {
            texts_of_all(at, children, (depth - 1) as nat)
        },
        _ => Seq::empty(),
    }
}

/// The texts at and below each of `paths`, the last path first.
pub open spec fn texts_of_all(
    at: spec_fn(Seq<char>) -> EventView,
    paths: Seq<Seq<char>>,
    depth: nat,
) -> Seq<SourceText>
    decreases depth, 1nat, paths.len(),
{
    if paths.len() == 0 {
        Seq::empty()
    } else {
        texts_under(at, paths.last(), depth) + texts_of_all(at, paths.drop_last(), depth)
    }
}

/// Whether every path of `paths` heads a tree at most `depth` directories
/// deep.
pub open spec fn all_bounded(
    at: spec_fn(Seq<char>) -> EventView,
    paths: Seq<Seq<char>>,
    depth: nat,
) -> bool {
    forall|i: int| 0 <= i < paths.len() ==> bounded(at, #[trigger] paths[i], depth)
}

/// Whether no entry from position `from` on was skipped as a directory met
/// for the second time.
pub open spec fn no_cycle_since(scan: ScanView, from: int) -> bool {
    forall|i: int|
        from <= i < scan.skipped.len() ==> (#[trigger] scan.skipped[i]).reason
            != FileSkipError::Cycle
}

/// A tree that is at most `depth` deep is at most `depth + 1` deep, and one
/// level more brings no further text.
proof fn lemma_depth_slack(at: spec_fn(Seq<char>) -> EventView, path: Seq<char>, depth: nat)
    requires
        bounded(at, path, depth),
    ensures
        bounded(at, path, depth + 1),
        texts_under(at, path, depth + 1) == texts_under(at, path, depth),
    decreases depth, 0nat, 0nat,
{
    match at(path) {
        EventView::Directory { id, children } => {
            assert(all_bounded(at, children, (depth - 1) as nat));
            lemma_all_slack(at, children, (depth - 1) as nat);
            assert forall|i: int| 0 <= i < children.len() implies bounded(
                at,
                #[trigger] children[i],
                depth,
            ) by {
                assert(bounded(at, children[i], ((depth - 1) as nat) + 1));
            }
            assert(texts_of_all(at, children, depth) == texts_of_all(
                at,
                children,
                ((depth - 1) as nat) + 1,
            ));
        },
        _ => {},
    }
}

/// The same of several trees.
proof fn lemma_all_slack(at: spec_fn(Seq<char>) -> EventView, paths: Seq<Seq<char>>, depth: nat)
    requires
        all_bounded(at, paths, depth),
    ensures
        all_bounded(at, paths, depth + 1),
        texts_of_all(at, paths, depth + 1) == texts_of_all(at, paths, depth),
    decreases depth, 1nat, paths.len(),
{
    if paths.len() > 0 {
        let rest = paths.drop_last();
        assert(bounded(at, paths.last(), depth)) by {
            assert(paths.last() == paths[paths.len() - 1]);
        }
        assert forall|i: int| 0 <= i < rest.len() implies bounded(at, #[trigger] rest[i], depth) by {
            assert(rest[i] == paths[i]);
        }
        lemma_depth_slack(at, paths.last(), depth);
        lemma_all_slack(at, rest, depth);
        assert forall|i: int| 0 <= i < paths.len() implies bounded(
            at,
            #[trigger] paths[i],
            depth + 1,
        ) by {
            if i < rest.len() {
                assert(rest[i] == paths[i]);
            }
        }
    }
}

/// The texts of two runs of paths joined are those of the second run followed
/// by those of the first.
proof fn lemma_texts_joined(
    at: spec_fn(Seq<char>) -> EventView,
    first: Seq<Seq<char>>,
    second: Seq<Seq<char>>,
    depth: nat,
)
    ensures
        texts_of_all(at, first + second, depth) == texts_of_all(at, second, depth) + texts_of_all(
            at,
            first,
            depth,
        ),
    decreases second.len(),
{
    if second.len() == 0 {
        assert(first + second =~= first);
        assert(texts_of_all(at, second, depth) + texts_of_all(at, first, depth) =~= texts_of_all(
            at,
            first,
            depth,
        ));
    } else {
        lemma_texts_joined(at, first, second.drop_last(), depth);
        assert((first + second).drop_last() =~= first + second.drop_last());
        assert((first + second).last() == second.last());
        assert(texts_under(at, second.last(), depth) + (texts_of_all(
            at,
            second.drop_last(),
            depth,
        ) + texts_of_all(at, first, depth)) =~= (texts_under(at, second.last(), depth)
            + texts_of_all(at, second.drop_last(), depth)) + texts_of_all(at, first, depth));
    }
}

/// A walk only adds to the list of skipped entries.
proof fn lemma_walk_keeps_skipped(scan: ScanView, at: spec_fn(Seq<char>) -> EventView, steps: nat)
    ensures
        walk(scan, at, steps).skipped.len() >= scan.skipped.len(),
        forall|i: int|
            0 <= i < scan.skipped.len() ==> walk(scan, at, steps).skipped[i] == scan.skipped[i],
    decreases steps,
{
    if steps > 0 && scan.state is Scanning {
        let next = scan.step(at(scan.current));
        lemma_walk_keeps_skipped(next, at, (steps - 1) as nat);
        assert forall|i: int| 0 <= i < scan.skipped.len() implies walk(scan, at, steps).skipped[i]
            == scan.skipped[i] by {
            assert(next.skipped[i] == scan.skipped[i]);
        }
    }
}

/// From a scan that is under way, a walk that comes to its end without
/// meeting a directory twice hands in the texts at and below the path under
/// inspection and then those at and below the paths still to be looked at.
proof fn lemma_walk_hands_in(
    scan: ScanView,
    at: spec_fn(Seq<char>) -> EventView,
    depth: nat,
    steps: nat,
)
    requires
        scan.state is Scanning,
        bounded(at, scan.current, depth),
        all_bounded(at, scan.visitor.pending, depth),
        walk(scan, at, steps).state is Done,
        no_cycle_since(walk(scan, at, steps), scan.skipped.len() as int),
    ensures
        walk(scan, at, steps).texts == scan.texts + texts_under(at, scan.current, depth)
            + texts_of_all(at, scan.visitor.pending, depth),
    decreases steps,
{
    let end = walk(scan, at, steps);
    let event = at(scan.current);
    let handled = scan.handle(event);
    let next = scan.step(event);
    let pending = scan.visitor.pending;
    assert(steps > 0);
    assert(end == walk(next, at, (steps - 1) as nat));
    lemma_walk_keeps_skipped(next, at, (steps - 1) as nat);
    // What the report leaves of texts and paths, before the scan moves on.
    assert(!(handled.state is Failed)) by {
        if handled.state is Failed {
            assert(next == handled);
        }
    }
    assert(handled.texts + texts_of_all(at, handled.visitor.pending, depth) == scan.texts
        + texts_under(at, scan.current, depth) + texts_of_all(at, pending, depth)
        && all_bounded(at, handled.visitor.pending, depth)
        && handled.skipped.len() >= scan.skipped.len()
        && no_cycle_since(end, handled.skipped.len() as int)) by {
        match event {
            EventView::Text { name, content } => {
                assert(scan.texts.push(SourceText { name, content }) =~= scan.texts
                    + texts_under(at, scan.current, depth));
                assert(handled.texts == scan.texts.push(SourceText { name, content }));
            },
            EventView::Directory { id, children } => {
                if scan.visitor.entered.contains(id) {
                    let slot = scan.skipped.len() as int;
                    assert(next.skipped[slot].reason == FileSkipError::Cycle);
                    assert(end.skipped[slot] == next.skipped[slot]);
                    assert(false);
                } else {
                    lemma_texts_joined(at, pending, children, depth);
                    assert(all_bounded(at, children, (depth - 1) as nat));
                    lemma_all_slack(at, children, (depth - 1) as nat);
                    assert(texts_of_all(at, children, depth) == texts_of_all(
                        at,
                        children,
                        ((depth - 1) as nat) + 1,
                    ));
                    assert forall|i: int| 0 <= i < (pending + children).len() implies bounded(
                        at,
                        #[trigger] (pending + children)[i],
                        depth,
                    ) by {
                        if i < pending.len() {
                            assert((pending + children)[i] == pending[i]);
                        } else {
                            assert((pending + children)[i] == children[i - pending.len()]);
                            assert(bounded(at, children[i - pending.len()], ((depth - 1) as nat) + 1));
                        }
                    }
                    assert(handled.visitor.pending == pending + children);
                    assert(scan.texts + texts_under(at, scan.current, depth) + texts_of_all(
                        at,
                        pending,
                        depth,
                    ) =~= scan.texts + (texts_of_all(at, children, depth) + texts_of_all(
                        at,
                        pending,
                        depth,
                    )));
                }
            },
            _ => {
                assert(scan.texts =~= scan.texts + texts_under(at, scan.current, depth));
            },
        }
    }
    let gathered = handled.texts + texts_of_all(at, handled.visitor.pending, depth);
    if handled.visitor.pending.len() > 0 {
        let left = handled.visitor.pending;
        assert(bounded(at, left.last(), depth)) by {
            assert(left.last() == left[left.len() - 1]);
        }
        assert forall|i: int| 0 <= i < left.drop_last().len() implies bounded(
            at,
            #[trigger] left.drop_last()[i],
            depth,
        ) by {
            assert(left.drop_last()[i] == left[i]);
        }
        lemma_walk_hands_in(next, at, depth, (steps - 1) as nat);
        assert(end.texts =~= handled.texts + (texts_under(at, left.last(), depth) + texts_of_all(
            at,
            left.drop_last(),
            depth,
        )));
        assert(end.texts == gathered);
    } else {
        assert(end == next);
        assert(end.texts =~= gathered);
    }
}

/// A scan of a tree of files that comes to its end, and meets no directory
/// twice on its way, has been handed the text of every regular file under the
/// root, each once, in the order of the walk. Its counters and its log are
/// what those texts give.
pub proof fn law_walk_hands_in_every_text(
    at: spec_fn(Seq<char>) -> EventView,
    root: Seq<char>,
    depth: nat,
    steps: nat,
)
    requires
        bounded(at, root, depth),
        walk(ScanView::idle().run(root), at, steps).state is Done,
        no_cycle_since(walk(ScanView::idle().run(root), at, steps), 0),
    ensures
        walk(ScanView::idle().run(root), at, steps).texts == texts_under(at, root, depth),
        walk(ScanView::idle().run(root), at, steps).tally == crate::statistic::scan_all(
            texts_under(at, root, depth),
        ),
{
    let start = ScanView::idle().run(root);
    lemma_walk_hands_in(start, at, depth, steps);
    assert(start.texts + texts_under(at, root, depth) + texts_of_all(
        at,
        start.visitor.pending,
        depth,
    ) =~= texts_under(at, root, depth));
    crate::laws::law_run_keeps_sound(ScanView::idle(), root, crate::error::WritePolicy::Required);
    lemma_walk_keeps_sound(start, at, steps);
}

/// A walk keeps the scan in a state in which counters and log agree and are
/// what the texts handed in give.
pub proof fn lemma_walk_keeps_sound(scan: ScanView, at: spec_fn(Seq<char>) -> EventView, steps: nat)
    requires
        scan.sound(),
    ensures
        walk(scan, at, steps).sound(),
    decreases steps,
{
    if steps > 0 && scan.state is Scanning {
        crate::laws::law_step_keeps_sound(scan, at(scan.current));
        lemma_walk_keeps_sound(scan.step(at(scan.current)), at, (steps - 1) as nat);
    }
}

} // verus!
