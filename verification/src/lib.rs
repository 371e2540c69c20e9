//! Counts method and variable declarations in Java sources and keeps a log of
//! every declaration found.
//!
//! A scan is driven from outside: the [`ScanOrchestrator`] says which path to
//! look at, is told what is there, and counts the constructs of every text it
//! is handed. Parsing and pattern matching are done by `tree_sitter` with the
//! Java grammar; everything around them is proved.

pub mod aggregator;
pub mod error;
pub mod finding;
pub mod grammar;
pub mod laws;
pub mod matcher;
pub mod query;
pub mod scan;
pub mod statistic;
pub mod visitor;
pub mod walk;

pub use aggregator::{Aggregator, CounterSet};
pub use error::{FatalError, FileSkipError, PatternCompileError, WritePolicy};
pub use finding::{decimal_string, Finding};
pub use grammar::Capture;
pub use matcher::{find_matches, select_matches, slice_text, Match, PatternCatalog, SyntaxTree};
pub use query::{pattern_for, ConstructKind, TypeQuery};
pub use scan::{Action, Event, ScanOrchestrator, ScanResult, ScanState, Skipped, CODE};
pub use statistic::{statistic, statistic_file};
pub use visitor::FileVisitor;
