//! Walks a directory tree without touching it: the visitor hands out the next
//! path to look at and is told what was found there. It keeps the paths that
//! are still to be looked at and the directories that it has entered, and
//! never enters the same directory twice.

use crate::error::FileSkipError;
use std::collections::HashSet;
use vstd::prelude::*;
use vstd::string::StringExecFns;

verus! {

/// The paths, as sequences of characters.
pub open spec fn paths_view(paths: Seq<String>) -> Seq<Seq<char>> {
    Seq::new(paths.len(), |i: int| paths[i]@)
}

/// The state of a [`FileVisitor`].
pub struct VisitorView {
    /// The paths still to be looked at. The last one is looked at next.
    pub pending: Seq<Seq<char>>,
    /// The identities of the directories entered so far.
    pub entered: Set<u128>,
}

impl VisitorView {
    /// The state of a walk that starts at `root`.
    pub open spec fn start(root: Seq<char>) -> VisitorView {
        VisitorView { pending: seq![root], entered: Set::empty() }
    }

    /// The state after the next path has been handed out.
    pub open spec fn advance(self) -> VisitorView {
        VisitorView { pending: self.pending.drop_last(), entered: self.entered }
    }

    /// The state after the directory `id` with the entries `children` has been
    /// found: unchanged if the directory was entered before, else the
    /// directory counts as entered and its entries are to be looked at next.
    pub open spec fn enter(self, id: u128, children: Seq<Seq<char>>) -> VisitorView {
        if self.entered.contains(id) {
            self
        } else {
            VisitorView { pending: self.pending + children, entered: self.entered.insert(id) }
        }
    }
}

/// A walk over a directory tree, driven from outside.
pub struct FileVisitor {
    pending: Vec<String>,
    entered: HashSet<u128>,
}

impl View for FileVisitor {
    type V = VisitorView;

    closed spec fn view(&self) -> VisitorView {
        VisitorView { pending: paths_view(self.pending@), entered: self.entered@ }
    }
}

impl FileVisitor {
    /// A walk with nothing to look at.
    pub fn new() -> (visitor: FileVisitor)
        ensures
            visitor@ == (VisitorView { pending: Seq::empty(), entered: Set::empty() }),
    {
        let visitor = FileVisitor { pending: Vec::new(), entered: HashSet::new() };
        assert(paths_view(visitor.pending@) =~= Seq::<Seq<char>>::empty());
        visitor
    }

    /// A walk that starts at `root`.
    pub fn start(root: &str) -> (visitor: FileVisitor)
        ensures
            visitor@ == VisitorView::start(root@),
    {
        let mut pending = Vec::new();
        pending.push(String::from_str(root));
        let visitor = FileVisitor { pending, entered: HashSet::new() };
        assert(paths_view(visitor.pending@) =~= seq![root@]);
        visitor
    }

    /// The next path to look at, if any is left.
    pub fn next(&mut self) -> (path: Option<String>)
        ensures
            path is Some <==> old(self)@.pending.len() > 0,
            path is None ==> final(self)@ == old(self)@,
            path matches Some(p) ==> p@ == old(self)@.pending.last() && final(self)@ == old(
                self,
            )@.advance(),
    {
        let path = self.pending.pop();
        proof {
            if old(self)@.pending.len() > 0 {
                assert(paths_view(self.pending@) =~= old(self)@.pending.drop_last());
            } else {
                assert(paths_view(self.pending@) =~= old(self)@.pending);
            }
        }
        path
    }

    /// Takes note of a directory found at the path that was handed out last:
    /// `id` identifies the directory itself, whatever path led to it, and
    /// `children` are the paths of its entries. A directory that was entered
    /// before is refused and its entries are dropped.
    pub fn enter(&mut self, id: u128, children: Vec<String>) -> (entered: Result<(), FileSkipError>)
        ensures
            final(self)@ == old(self)@.enter(id, paths_view(children@)),
            entered is Ok <==> !old(self)@.entered.contains(id),
            entered matches Err(e) ==> e == FileSkipError::Cycle,
    {
        broadcast use vstd::std_specs::hash::group_hash_axioms;

        let ghost entries = paths_view(children@);
        let mut children = children;
        let is_new = self.entered.insert(id);
        if is_new {
            self.pending.append(&mut children);
            assert(paths_view(self.pending@) =~= old(self)@.pending + entries);
            Ok(())
        } else {
            assert(self.entered@ =~= old(self)@.entered);
            Err(FileSkipError::Cycle)
        }
    }
}

} // verus!
