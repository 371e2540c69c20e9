use java_statistic::{
    Action, CounterSet, Event, FatalError, FileSkipError, ScanOrchestrator, ScanState, Skipped,
    WritePolicy, CODE,
};

fn text(name: &str, content: &str) -> Event {
    Event::Text { name: name.to_string(), content: content.to_string() }
}

fn directory(id: u128, children: &[&str]) -> Event {
    Event::Directory { id, children: children.iter().map(|c| c.to_string()).collect() }
}

fn inspect(path: &str) -> Option<Action> {
    Some(Action::Inspect(path.to_string()))
}

fn finish(methods: usize, variables: usize) -> Option<Action> {
    Some(Action::Finish(CounterSet { methods, variables }))
}

#[test]
fn new_orchestrator_is_idle() {
    let scan = ScanOrchestrator::new().unwrap();
    assert_eq!(scan.state(), ScanState::Idle);
    assert_eq!(scan.action(), None);
    assert_eq!(scan.result(), None);
    assert_eq!(scan.snapshot(), CounterSet { methods: 0, variables: 0 });
    assert_eq!(scan.findings().len(), 0);
    assert_eq!(scan.skipped().len(), 0);
}

#[test]
fn empty_directory_as_root_ends_done_with_zero_counts() {
    let mut scan = ScanOrchestrator::new().unwrap();
    assert_eq!(scan.run("/empty"), inspect("/empty"));
    assert_eq!(scan.state(), ScanState::Scanning);
    assert_eq!(scan.step(directory(1, &[])), finish(0, 0));
    assert_eq!(scan.state(), ScanState::Done);
    assert_eq!(scan.result(), Some(CounterSet { methods: 0, variables: 0 }));
    assert_eq!(scan.findings().len(), 0);
    assert_eq!(scan.skipped().len(), 0);
}

#[test]
fn missing_root_fails_the_scan_and_logs_nothing() {
    let mut scan = ScanOrchestrator::new().unwrap();
    assert_eq!(scan.run("/nowhere"), inspect("/nowhere"));
    assert_eq!(scan.step(Event::Unreadable), Some(Action::Fail(FatalError::Root)));
    assert_eq!(scan.state(), ScanState::Failed);
    assert_eq!(scan.result(), None);
    assert_eq!(scan.findings().len(), 0);
    assert_eq!(scan.action(), Some(Action::Fail(FatalError::Root)));
}

#[test]
fn root_that_is_one_file_yields_that_file() {
    let mut scan = ScanOrchestrator::new().unwrap();
    assert_eq!(scan.run("/src/C.java"), inspect("/src/C.java"));
    let done = scan.step(text("C.java", "class C { int x = 1; void m(){ int y = 2; } }"));
    assert_eq!(done, finish(1, 2));
    assert_eq!(scan.state(), ScanState::Done);
    let lines: Vec<String> = scan.findings().iter().map(|f| f.line()).collect();
    assert_eq!(
        lines,
        vec![
            "Method, 1, C.java, m".to_string(),
            "Variable, 1, C.java, x".to_string(),
            "Variable, 2, C.java, y".to_string()
        ]
    );
}

#[test]
fn invalid_file_is_skipped_and_siblings_are_scanned() {
    let mut scan = ScanOrchestrator::new().unwrap();
    assert_eq!(scan.run("/r"), inspect("/r"));
    assert_eq!(scan.step(directory(1, &["/r/A.java", "/r/Bad.java", "/r/C.java"])), inspect("/r/C.java"));
    assert_eq!(scan.step(text("C.java", "class C { int c; }")), inspect("/r/Bad.java"));
    assert_eq!(scan.step(text("Bad.java", "class { int ; ")), inspect("/r/A.java"));
    assert_eq!(scan.state(), ScanState::Scanning);
    assert_eq!(scan.step(text("A.java", "class A { void a() {} }")), finish(1, 1));
    assert_eq!(scan.state(), ScanState::Done);
    assert_eq!(
        scan.skipped(),
        &vec![Skipped { path: "/r/Bad.java".to_string(), reason: FileSkipError::Parse }]
    );
    assert!(scan.findings().iter().all(|f| f.file != "Bad.java"));
    assert_eq!(scan.findings().len(), 2);
}

#[test]
fn entries_that_are_not_files_are_skipped_with_a_reason() {
    let mut scan = ScanOrchestrator::new().unwrap();
    assert_eq!(scan.run("/r"), inspect("/r"));
    assert_eq!(
        scan.step(directory(1, &["/r/pipe", "/r/locked", "/r/image.bin", "/r/again"])),
        inspect("/r/again")
    );
    assert_eq!(scan.step(directory(1, &["/r/again/again"])), inspect("/r/image.bin"));
    assert_eq!(scan.step(Event::NotText), inspect("/r/locked"));
    assert_eq!(scan.step(Event::Unreadable), inspect("/r/pipe"));
    assert_eq!(scan.step(Event::Other), finish(0, 0));
    assert_eq!(scan.state(), ScanState::Done);
    assert_eq!(
        scan.skipped(),
        &vec![
            Skipped { path: "/r/again".to_string(), reason: FileSkipError::Cycle },
            Skipped { path: "/r/image.bin".to_string(), reason: FileSkipError::NotText },
            Skipped { path: "/r/locked".to_string(), reason: FileSkipError::Unreadable },
            Skipped { path: "/r/pipe".to_string(), reason: FileSkipError::NotRegular },
        ]
    );
}

#[test]
fn root_that_is_no_file_and_no_directory_ends_done() {
    let mut scan = ScanOrchestrator::new().unwrap();
    assert_eq!(scan.run("/dev/null"), inspect("/dev/null"));
    assert_eq!(scan.step(Event::Other), finish(0, 0));
    assert_eq!(scan.state(), ScanState::Done);
    assert_eq!(scan.skipped().len(), 1);
}

#[test]
fn nested_directories_are_walked_to_the_end() {
    let mut scan = ScanOrchestrator::new().unwrap();
    assert_eq!(scan.run("/r"), inspect("/r"));
    assert_eq!(scan.step(directory(1, &["/r/A.java", "/r/sub"])), inspect("/r/sub"));
    assert_eq!(scan.step(directory(2, &["/r/sub/B.java"])), inspect("/r/sub/B.java"));
    assert_eq!(scan.step(text("B.java", "class B { void b() { int n = 0; } }")), inspect("/r/A.java"));
    assert_eq!(scan.snapshot(), CounterSet { methods: 1, variables: 1 });
    assert_eq!(scan.result(), None);
    assert_eq!(scan.step(text("A.java", "class A { void a() {} void aa() {} }")), finish(3, 1));
    assert_eq!(scan.result(), Some(CounterSet { methods: 3, variables: 1 }));
}

#[test]
fn a_scan_starts_only_once() {
    let mut scan = ScanOrchestrator::new().unwrap();
    assert_eq!(scan.run("/r"), inspect("/r"));
    assert_eq!(scan.run("/other"), None);
    assert_eq!(scan.action(), inspect("/r"));
    assert_eq!(scan.step(directory(1, &[])), finish(0, 0));
    assert_eq!(scan.run("/r"), None);
    assert_eq!(scan.state(), ScanState::Done);
}

#[test]
fn reports_outside_a_scan_change_nothing() {
    let mut scan = ScanOrchestrator::new().unwrap();
    assert_eq!(scan.step(text("C.java", "class C { int x; }")), None);
    assert_eq!(scan.state(), ScanState::Idle);
    assert_eq!(scan.findings().len(), 0);
    assert_eq!(scan.run("/r"), inspect("/r"));
    assert_eq!(scan.step(directory(1, &[])), finish(0, 0));
    assert_eq!(scan.step(text("C.java", "class C { int x; }")), None);
    assert_eq!(scan.snapshot(), CounterSet { methods: 0, variables: 0 });
}

#[test]
fn sample_source_is_scanned_as_one_unnamed_file() {
    let mut scan = ScanOrchestrator::new().unwrap();
    assert_eq!(scan.run_sample(), finish(1, 3));
    assert_eq!(scan.state(), ScanState::Done);
    let lines: Vec<String> = scan.findings().iter().map(|f| f.line()).collect();
    assert_eq!(
        lines,
        vec![
            "Method, 1, , aMethod".to_string(),
            "Variable, 1, , number".to_string(),
            "Variable, 2, , message".to_string(),
            "Variable, 3, , isValid".to_string()
        ]
    );
    assert_eq!(scan.run_sample(), None);
}

#[test]
fn sample_source_is_a_small_class() {
    assert!(CODE.contains("class MyClass"));
    assert!(CODE.contains("String message = \"Hello, Rust!\";"));
}

#[test]
fn required_log_that_cannot_be_written_fails_the_scan() {
    let mut scan = ScanOrchestrator::new().unwrap();
    assert_eq!(scan.run("/r"), inspect("/r"));
    assert_eq!(scan.step(directory(1, &[])), finish(0, 0));
    assert!(scan.write_failed(WritePolicy::Required));
    assert_eq!(scan.state(), ScanState::Failed);
    assert_eq!(scan.action(), Some(Action::Fail(FatalError::Write)));
    assert!(!scan.write_failed(WritePolicy::Required));
}

#[test]
fn optional_log_that_cannot_be_written_lets_the_scan_stand() {
    let mut scan = ScanOrchestrator::new().unwrap();
    assert!(!scan.write_failed(WritePolicy::BestEffort));
    assert_eq!(scan.state(), ScanState::Idle);
    assert_eq!(scan.run("/r"), inspect("/r"));
    assert!(!scan.write_failed(WritePolicy::BestEffort));
    assert_eq!(scan.state(), ScanState::Scanning);
    assert_eq!(scan.step(directory(1, &[])), finish(0, 0));
    assert!(!scan.write_failed(WritePolicy::BestEffort));
    assert_eq!(scan.state(), ScanState::Done);
    assert_eq!(scan.result(), Some(CounterSet { methods: 0, variables: 0 }));
}

#[test]
fn write_failure_before_the_scan_starts_is_ignored() {
    let mut scan = ScanOrchestrator::new().unwrap();
    assert!(!scan.write_failed(WritePolicy::Required));
    assert_eq!(scan.state(), ScanState::Idle);
}

#[test]
fn cancelled_scan_fails_and_keeps_what_was_recorded() {
    let mut scan = ScanOrchestrator::new().unwrap();
    assert!(!scan.cancel());
    assert_eq!(scan.state(), ScanState::Idle);
    assert_eq!(scan.run("/r"), inspect("/r"));
    assert_eq!(scan.step(directory(1, &["/r/A.java", "/r/B.java"])), inspect("/r/B.java"));
    assert_eq!(scan.step(text("B.java", "class B { int b; }")), inspect("/r/A.java"));
    assert!(scan.cancel());
    assert_eq!(scan.state(), ScanState::Failed);
    assert_eq!(scan.action(), Some(Action::Fail(FatalError::Cancelled)));
    assert_eq!(scan.step(text("A.java", "class A { int a; }")), None);
    assert_eq!(scan.snapshot(), CounterSet { methods: 0, variables: 1 });
    assert_eq!(scan.findings().len(), 1);
    assert!(!scan.cancel());
}
