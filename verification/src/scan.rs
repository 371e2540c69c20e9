//! Drives a scan. The orchestrator decides; whoever runs it does the looking:
//! it is told where to look, reports what it found there, and is told where
//! to look next, until the scan is done or has failed.

use crate::aggregator::{Aggregator, CounterSet, Tally};
use crate::error::{FatalError, FileSkipError, PatternCompileError, WritePolicy};
use crate::finding::{findings_view, Finding};
use crate::matcher::{first_broken_pattern, PatternCatalog};
use crate::statistic::{scan_all, scan_source, statistic_file, SourceText};
use crate::visitor::{paths_view, FileVisitor, VisitorView};
use vstd::prelude::*;
use vstd::string::StringExecFns;

verus! {

/// The final counts of a scan.
pub type ScanResult = CounterSet;

/// A source to scan when no path is given.
pub const CODE: &'static str =
    "\n        class MyClass {\n            private int number = 42;\n\n            public void aMethod() {\n                String message = \"Hello, Rust!\";\n                boolean isValid = true;\n            }\n        }\n    ";

/// Where a scan stands.
#[derive(Clone, Copy, Debug, PartialEq, Eq, Structural)]
pub enum ScanState {
    /// Not started.
    Idle,
    /// Under way: a path is being looked at.
    Scanning,
    /// Ended: every path has been looked at.
    Done,
    /// Ended without a result.
    Failed,
}

/// What was found at the path that the orchestrator asked about.
#[derive(Clone, Debug, PartialEq, Eq)]
pub enum Event {
    /// A regular file with text in it: its base name and its content.
    Text { name: String, content: String },
    /// A regular file whose content is not text.
    NotText,
    /// A directory: what identifies it, whatever path led to it, and the
    /// paths of its entries.
    Directory { id: u128, children: Vec<String> },
    /// Something that is neither a regular file nor a directory.
    Other,
    /// Nothing that can be visited: the path does not exist or may not be
    /// read.
    Unreadable,
}

/// The mathematical content of an [`Event`].
pub enum EventView {
    Text { name: Seq<char>, content: Seq<char> },
    NotText,
    Directory { id: u128, children: Seq<Seq<char>> },
    Other,
    Unreadable,
}

impl View for Event {
    type V = EventView;

    open spec fn view(&self) -> EventView {
        match *self {
            Event::Text { name, content } => EventView::Text { name: name@, content: content@ },
            Event::NotText => EventView::NotText,
            Event::Directory { id, children } => EventView::Directory {
                id,
                children: paths_view(children@),
            },
            Event::Other => EventView::Other,
            Event::Unreadable => EventView::Unreadable,
        }
    }
}

/// What the orchestrator asks for next.
#[derive(Clone, Debug, PartialEq, Eq)]
pub enum Action {
    /// Look at this path and report what is there.
    Inspect(String),
    /// The scan is done: these are the final counts.
    Finish(ScanResult),
    /// The scan has failed.
    Fail(FatalError),
}

/// The mathematical content of an [`Action`].
pub enum ActionView {
    Inspect(Seq<char>),
    Finish { methods: nat, variables: nat },
    Fail(FatalError),
}

impl View for Action {
    type V = ActionView;

    open spec fn view(&self) -> ActionView {
        match *self {
            Action::Inspect(path) => ActionView::Inspect(path@),
            Action::Finish(counts) => ActionView::Finish {
                methods: counts.methods as nat,
                variables: counts.variables as nat,
            },
            Action::Fail(error) => ActionView::Fail(error),
        }
    }
}

/// An entry that the scan left out, and why.
#[derive(Clone, Debug, PartialEq, Eq)]
pub struct Skipped {
    pub path: String,
    pub reason: FileSkipError,
}

/// The mathematical content of a [`Skipped`].
pub struct SkippedView {
    pub path: Seq<char>,
    pub reason: FileSkipError,
}

impl View for Skipped {
    type V = SkippedView;

    open spec fn view(&self) -> SkippedView {
        SkippedView { path: self.path@, reason: self.reason }
    }
}

/// The views of a sequence of skipped entries.
pub open spec fn skipped_view(skipped: Seq<Skipped>) -> Seq<SkippedView> {
    skipped.map_values(|s: Skipped| s@)
}

/// The state of a [`ScanOrchestrator`].
pub struct ScanView {
    pub state: ScanState,
    /// Why the scan failed, once it has.
    pub failure: FatalError,
    /// The path that is being looked at, while scanning.
    pub current: Seq<char>,
    /// Whether that path is the root of the scan.
    pub at_root: bool,
    pub visitor: VisitorView,
    /// The counters and the findings log.
    pub tally: Tally,
    /// The entries left out so far, oldest first.
    pub skipped: Seq<SkippedView>,
    /// How often a failed write of the log was let pass, as far as a `usize`
    /// counts.
    pub write_warnings: nat,
    /// The texts handed in so far, oldest first.
    pub texts: Seq<SourceText>,
}

impl ScanView {
    /// The state of a scan that has not started.
    pub open spec fn idle() -> ScanView {
        ScanView {
            state: ScanState::Idle,
            failure: FatalError::Root,
            current: Seq::empty(),
            at_root: false,
            visitor: VisitorView { pending: Seq::empty(), entered: Set::empty() },
            tally: Tally::empty(),
            skipped: Seq::empty(),
            write_warnings: 0,
            texts: Seq::empty(),
        }
    }

    /// The state after the scan is started at `root`. A scan that is not idle
    /// cannot be started.
    pub open spec fn run(self, root: Seq<char>) -> ScanView {
        if self.state is Idle {
            ScanView { state: ScanState::Scanning, current: root, at_root: true, ..self }
        } else {
            self
        }
    }

    /// The state with the path under inspection noted as left out.
    pub open spec fn skip(self, reason: FileSkipError) -> ScanView {
        ScanView {
            skipped: self.skipped.push(SkippedView { path: self.current, reason }),
            ..self
        }
    }

    /// The state after what was found at the path under inspection has been
    /// dealt with, before the scan moves on.
    pub open spec fn handle(self, event: EventView) -> ScanView {
        match event {
            EventView::Unreadable => if self.at_root {
                ScanView { state: ScanState::Failed, failure: FatalError::Root, ..self }
            } else {
                self.skip(FileSkipError::Unreadable)
            },
            EventView::Other => self.skip(FileSkipError::NotRegular),
            EventView::NotText => self.skip(FileSkipError::NotText),
            EventView::Directory { id, children } => if self.visitor.entered.contains(id) {
                self.skip(FileSkipError::Cycle)
            } else {
                ScanView { visitor: self.visitor.enter(id, children), ..self }
            },
            EventView::Text { name, content } => {
                let seen = ScanView {
                    texts: self.texts.push(SourceText { name, content }),
                    ..self
                };
                match scan_source(content) {
                    Ok(found) => ScanView { tally: self.tally.absorb(found, name), ..seen },
                    Err(reason) => seen.skip(reason),
                }
            },
        }
    }

    /// The state after the scan has moved on: to the next path, if one is
    /// left, else to its end. A failed scan stays as it is.
    pub open spec fn move_on(self) -> ScanView {
        if self.state is Failed {
            self
        } else if self.visitor.pending.len() > 0 {
            ScanView {
                current: self.visitor.pending.last(),
                at_root: false,
                visitor: self.visitor.advance(),
                ..self
            }
        } else {
            ScanView { state: ScanState::Done, ..self }
        }
    }

    /// The state after `event` is reported. While nothing is being looked at,
    /// a report changes nothing.
    pub open spec fn step(self, event: EventView) -> ScanView {
        if self.state is Scanning {
            self.handle(event).move_on()
        } else {
            self
        }
    }

    /// The state after the built-in sample source has been scanned as the one
    /// file of a scan, under an empty file name. A scan that is not idle
    /// stays as it is.
    pub open spec fn run_sample(self) -> ScanView {
        if self.state is Idle {
            self.run(Seq::empty()).step(EventView::Text { name: Seq::empty(), content: CODE@ })
        } else {
            self
        }
    }

    /// The state after a write of the findings log has failed. Before the
    /// scan has started and after it has failed, this changes nothing.
    pub open spec fn write_failed(self, policy: WritePolicy) -> ScanView {
        if self.state is Idle || self.state is Failed {
            self
        } else {
            match policy {
                WritePolicy::Required => ScanView {
                    state: ScanState::Failed,
                    failure: FatalError::Write,
                    ..self
                },
                WritePolicy::BestEffort => ScanView {
                    write_warnings: if self.write_warnings < usize::MAX {
                        self.write_warnings + 1
                    } else {
                        self.write_warnings
                    },
                    ..self
                },
            }
        }
    }

    /// The state after the scan is called off. Only a scan that is under way
    /// can be called off: it fails, and no further path is looked at. What
    /// was recorded stays.
    pub open spec fn cancel(self) -> ScanView {
        if self.state is Scanning {
            ScanView { state: ScanState::Failed, failure: FatalError::Cancelled, ..self }
        } else {
            self
        }
    }

    /// What the state asks of whoever runs the scan: nothing while idle.
    pub open spec fn action(self) -> Option<ActionView> {
        match self.state {
            ScanState::Idle => None,
            ScanState::Scanning => Some(ActionView::Inspect(self.current)),
            ScanState::Done => Some(
                ActionView::Finish { methods: self.tally.methods, variables: self.tally.variables },
            ),
            ScanState::Failed => Some(ActionView::Fail(self.failure)),
        }
    }

    /// What holds of every state that a scan can reach: counters and log
    /// agree, and they are what scanning the texts handed in so far gives.
    pub open spec fn sound(self) -> bool {
        &&& self.tally.consistent()
        &&& self.tally == scan_all(self.texts)
    }
}

/// A scan of a directory tree, driven from outside.
pub struct ScanOrchestrator {
    state: ScanState,
    failure: FatalError,
    catalog: PatternCatalog,
    visitor: FileVisitor,
    aggregator: Aggregator,
    skipped: Vec<Skipped>,
    write_warnings: usize,
    current: String,
    at_root: bool,
    texts: Ghost<Seq<SourceText>>,
}

impl View for ScanOrchestrator {
    type V = ScanView;

    closed spec fn view(&self) -> ScanView {
        ScanView {
            state: self.state,
            failure: self.failure,
            current: self.current@,
            at_root: self.at_root,
            visitor: self.visitor@,
            tally: self.aggregator@,
            skipped: skipped_view(self.skipped@),
            write_warnings: self.write_warnings as nat,
            texts: self.texts@,
        }
    }
}

impl ScanOrchestrator {
    /// The patterns are compiled and the state is one that a scan can reach.
    pub closed spec fn wf(&self) -> bool {
        &&& self.catalog.wf()
        &&& self.aggregator.wf()
        &&& self@.sound()
    }

    /// A well-formed orchestrator is in a state that a scan can reach.
    pub proof fn lemma_wf_is_sound(&self)
        requires
            self.wf(),
        ensures
            self@.sound(),
    {
    }

    /// An orchestrator that uses the compiled patterns `catalog`. The scan has
    /// not started.
    pub fn with_catalog(catalog: PatternCatalog) -> (orchestrator: ScanOrchestrator)
        requires
            catalog.wf(),
        ensures
            orchestrator.wf(),
            orchestrator@ == ScanView::idle(),
    {
        let orchestrator = ScanOrchestrator {
            state: ScanState::Idle,
            failure: FatalError::Root,
            catalog,
            visitor: FileVisitor::new(),
            aggregator: Aggregator::new(),
            skipped: Vec::new(),
            write_warnings: 0,
            current: String::from_str(""),
            at_root: false,
            texts: Ghost(Seq::empty()),
        };
        proof {
            reveal_strlit("");
            assert(orchestrator.current@ =~= Seq::<char>::empty());
            assert(skipped_view(orchestrator.skipped@) =~= Seq::<SkippedView>::empty());
        }
        orchestrator
    }

    /// Compiles the patterns and makes an orchestrator. Fails, before any
    /// scan starts, if a pattern does not compile.
    pub fn new() -> (made: Result<ScanOrchestrator, PatternCompileError>)
        ensures
            made is Ok <==> first_broken_pattern() is None,
            made matches Ok(orchestrator) ==> orchestrator.wf() && orchestrator@ == ScanView::idle(),
            made matches Err(e) ==> first_broken_pattern() == Some(e.kind),
    {
        match PatternCatalog::compile() {
            Ok(catalog) => Ok(ScanOrchestrator::with_catalog(catalog)),
            Err(e) => Err(e),
        }
    }

    /// Where the scan stands.
    pub fn state(&self) -> (state: ScanState)
        ensures
            state == self@.state,
    {
        self.state
    }

    /// The counters as they stand.
    pub fn snapshot(&self) -> (counts: CounterSet)
        ensures
            counts.methods == self@.tally.methods,
            counts.variables == self@.tally.variables,
    {
        self.aggregator.snapshot()
    }

    /// The final counts, once the scan is done.
    pub fn result(&self) -> (counts: Option<ScanResult>)
        ensures
            counts is Some <==> self@.state is Done,
            counts matches Some(c) ==> c.methods == self@.tally.methods && c.variables
                == self@.tally.variables,
    {
        match self.state {
            ScanState::Done => Some(self.aggregator.snapshot()),
            _ => None,
        }
    }

    /// The findings recorded so far, oldest first.
    pub fn findings(&self) -> (log: &Vec<Finding>)
        ensures
            findings_view(log@) == self@.tally.log,
    {
        self.aggregator.findings()
    }

    /// The entries left out so far, oldest first.
    pub fn skipped(&self) -> (skipped: &Vec<Skipped>)
        ensures
            skipped_view(skipped@) == self@.skipped,
    {
        &self.skipped
    }

    /// What the orchestrator asks for as it stands: nothing while idle.
    pub fn action(&self) -> (action: Option<Action>)
        ensures
            action.is_some() == self@.action().is_some(),
            action matches Some(a) ==> self@.action() == Some(a@),
    {
        match self.state {
            ScanState::Idle => None,
            ScanState::Scanning => Some(Action::Inspect(self.current.clone())),
            ScanState::Done => Some(Action::Finish(self.aggregator.snapshot())),
            ScanState::Failed => Some(Action::Fail(self.failure)),
        }
    }

    /// Starts the scan at `root_path` and asks for that path to be looked at.
    /// A scan that has been started before stays as it is, and nothing is
    /// asked.
    pub fn run(&mut self, root_path: &str) -> (action: Option<Action>)
        requires
            old(self).wf(),
        ensures
            final(self).wf(),
            final(self)@ == old(self)@.run(root_path@),
            action is Some <==> old(self)@.state is Idle,
            action matches Some(a) ==> a@ == ActionView::Inspect(root_path@),
    {
        match self.state {
            ScanState::Idle => {
                self.state = ScanState::Scanning;
                self.current = String::from_str(root_path);
                self.at_root = true;
                Some(Action::Inspect(String::from_str(root_path)))
            },
            _ => None,
        }
    }

    fn skip(&mut self, reason: FileSkipError)
        requires
            old(self).wf(),
        ensures
            final(self).wf(),
            final(self)@ == old(self)@.skip(reason),
    {
        self.skipped.push(Skipped { path: self.current.clone(), reason });
        assert(skipped_view(self.skipped@) =~= old(self)@.skipped.push(
            SkippedView { path: old(self)@.current, reason },
        ));
    }

    fn note_text(&mut self, name: &String, content: &String)
        requires
            old(self).wf(),
        ensures
            final(self).wf(),
            final(self)@ == old(self)@.handle(EventView::Text { name: name@, content: content@ }),
    {
        let ghost text = SourceText { name: name@, content: content@ };
        let ghost before = self.texts@;
        proof {
            assert(before.push(text).drop_last() =~= before);
        }
        let scanned = statistic_file(
            &self.catalog,
            content.as_str(),
            name.as_str(),
            &mut self.aggregator,
        );
        self.texts = Ghost(before.push(text));
        match scanned {
            Ok(()) => {},
            Err(reason) => {
                self.skip(reason);
            },
        }
    }

    fn handle(&mut self, event: Event)
        requires
            old(self).wf(),
        ensures
            final(self).wf(),
            final(self)@ == old(self)@.handle(event@),
    {
        match event {
            Event::Unreadable => {
                if self.at_root {
                    self.state = ScanState::Failed;
                    self.failure = FatalError::Root;
                } else {
                    self.skip(FileSkipError::Unreadable);
                }
            },
            Event::Other => {
                self.skip(FileSkipError::NotRegular);
            },
            Event::NotText => {
                self.skip(FileSkipError::NotText);
            },
            Event::Directory { id, children } => {
                match self.visitor.enter(id, children) {
                    Ok(()) => {},
                    Err(reason) => {
                        self.skip(reason);
                    },
                }
            },
            Event::Text { name, content } => {
                self.note_text(&name, &content);
            },
        }
    }

    fn move_on(&mut self)
        requires
            old(self).wf(),
        ensures
            final(self).wf(),
            final(self)@ == old(self)@.move_on(),
    {
        match self.state {
            ScanState::Failed => {},
            _ => {
                match self.visitor.next() {
                    Some(path) => {
                        self.current = path;
                        self.at_root = false;
                    },
                    None => {
                        self.state = ScanState::Done;
                    },
                }
            },
        }
    }

    /// Takes the report of what was found at the path under inspection, deals
    /// with it and says what to do next. While nothing is being looked at, a
    /// report changes nothing, and nothing is asked.
    pub fn step(&mut self, event: Event) -> (action: Option<Action>)
        requires
            old(self).wf(),
        ensures
            final(self).wf(),
            final(self)@ == old(self)@.step(event@),
            action is Some <==> old(self)@.state is Scanning,
            action matches Some(a) ==> final(self)@.action() == Some(a@),
    {
        match self.state {
            ScanState::Scanning => {
                self.handle(event);
                self.move_on();
                self.action()
            },
            _ => None,
        }
    }

    /// Scans the built-in sample source as if it were the one file of a
    /// scan, under an empty file name.
    pub fn run_sample(&mut self) -> (action: Option<Action>)
        requires
            old(self).wf(),
        ensures
            final(self).wf(),
            final(self)@ == old(self)@.run_sample(),
            action is Some <==> old(self)@.state is Idle,
            action matches Some(a) ==> final(self)@.action() == Some(a@),
    {
        proof {
            reveal_strlit("");
        }
        assert(""@ =~= Seq::<char>::empty());
        match self.run("") {
            Some(_) => self.step(
                Event::Text { name: String::from_str(""), content: String::from_str(CODE) },
            ),
            None => None,
        }
    }

    /// Calls the scan off. A scan that is under way fails and asks for no
    /// further path; the file that was handed in last has been recorded whole.
    /// Returns whether the scan was under way.
    pub fn cancel(&mut self) -> (cancelled: bool)
        requires
            old(self).wf(),
        ensures
            final(self).wf(),
            final(self)@ == old(self)@.cancel(),
            cancelled <==> old(self)@.state is Scanning,
    {
        match self.state {
            ScanState::Scanning => {
                self.state = ScanState::Failed;
                self.failure = FatalError::Cancelled;
                true
            },
            _ => false,
        }
    }

    /// Takes note that a write of the findings log has failed. Where the log
    /// is required the scan fails; else the failure is counted and the scan
    /// stays as it is. Returns whether the scan has failed on this account.
    pub fn write_failed(&mut self, policy: WritePolicy) -> (failed: bool)
        requires
            old(self).wf(),
        ensures
            final(self).wf(),
            final(self)@ == old(self)@.write_failed(policy),
            failed <==> final(self)@.state is Failed && !(old(self)@.state is Failed),
    {
        match self.state {
            ScanState::Idle => false,
            ScanState::Failed => false,
            _ => match policy {
                WritePolicy::Required => {
                    self.state = ScanState::Failed;
                    self.failure = FatalError::Write;
                    true
                },
                WritePolicy::BestEffort => {
                    self.write_warnings = self.write_warnings.saturating_add(1);
                    false
                },
            },
        }
    }
}

} // verus!
