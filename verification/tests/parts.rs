use java_statistic::{
    decimal_string, pattern_for, select_matches, slice_text, Aggregator, Capture, ConstructKind,
    CounterSet, FileSkipError, FileVisitor, Finding, Match, TypeQuery,
};

#[test]
fn query_names_are_the_kind_labels() {
    assert_eq!(TypeQuery::Variable(0).name(), "Variable");
    assert_eq!(TypeQuery::Method(0).name(), "Method");
}

#[test]
fn query_count_is_the_count_it_carries() {
    assert_eq!(TypeQuery::Variable(0).count(), 0);
    assert_eq!(TypeQuery::Variable(17).count(), 17);
    assert_eq!(TypeQuery::Method(usize::MAX).count(), usize::MAX);
}

#[test]
fn query_is_made_of_kind_and_count() {
    assert_eq!(TypeQuery::new(ConstructKind::Method, 5), TypeQuery::Method(5));
    assert_eq!(TypeQuery::new(ConstructKind::Variable, 6), TypeQuery::Variable(6));
    assert_eq!(TypeQuery::Method(5).kind(), ConstructKind::Method);
    assert_eq!(TypeQuery::Variable(5).kind(), ConstructKind::Variable);
}

#[test]
fn each_kind_has_its_pattern_and_capture_name() {
    let (pattern, capture) = pattern_for(ConstructKind::Method);
    assert_eq!(pattern, "[(method_declaration name: (identifier) @method.name)]");
    assert_eq!(capture, "method.name");
    let (pattern, capture) = pattern_for(ConstructKind::Variable);
    assert!(pattern.contains("local_variable_declaration"));
    assert!(pattern.contains("field_declaration"));
    assert!(pattern.contains("@variable.name"));
    assert_eq!(capture, "variable.name");
}

#[test]
fn decimal_string_writes_base_ten() {
    assert_eq!(decimal_string(0), "0");
    assert_eq!(decimal_string(7), "7");
    assert_eq!(decimal_string(9), "9");
    assert_eq!(decimal_string(10), "10");
    assert_eq!(decimal_string(42), "42");
    assert_eq!(decimal_string(100), "100");
    assert_eq!(decimal_string(1234567890), "1234567890");
    assert_eq!(decimal_string(usize::MAX), usize::MAX.to_string());
}

#[test]
fn finding_line_has_four_fields() {
    let finding = Finding {
        query: TypeQuery::Variable(12),
        file: "Main.java".to_string(),
        identifier: "total".to_string(),
    };
    assert_eq!(finding.line(), "Variable, 12, Main.java, total");
    let unnamed = Finding {
        query: TypeQuery::Method(1),
        file: String::new(),
        identifier: "run".to_string(),
    };
    assert_eq!(unnamed.line(), "Method, 1, , run");
}

#[test]
fn record_returns_the_new_count_and_logs_it() {
    let mut aggregator = Aggregator::new();
    assert_eq!(aggregator.snapshot(), CounterSet { methods: 0, variables: 0 });
    assert_eq!(aggregator.record(ConstructKind::Method, "a", "F.java"), 1);
    assert_eq!(aggregator.record(ConstructKind::Variable, "x", "F.java"), 1);
    assert_eq!(aggregator.record(ConstructKind::Method, "b", "G.java"), 2);
    assert_eq!(aggregator.snapshot(), CounterSet { methods: 2, variables: 1 });
    assert_eq!(aggregator.snapshot().get(ConstructKind::Method), 2);
    assert_eq!(aggregator.snapshot().query(ConstructKind::Variable), TypeQuery::Variable(1));
    let log = aggregator.findings();
    assert_eq!(log.len(), 3);
    assert_eq!(
        log[2],
        Finding {
            query: TypeQuery::Method(2),
            file: "G.java".to_string(),
            identifier: "b".to_string()
        }
    );
}

#[test]
fn counters_equal_the_findings_of_each_kind() {
    let mut aggregator = Aggregator::new();
    let kinds = [
        ConstructKind::Method,
        ConstructKind::Variable,
        ConstructKind::Variable,
        ConstructKind::Method,
        ConstructKind::Variable,
    ];
    for kind in kinds.iter() {
        aggregator.record(*kind, "n", "F.java");
    }
    for kind in [ConstructKind::Method, ConstructKind::Variable] {
        let logged =
            aggregator.findings().iter().filter(|f| f.query.kind() == kind).count();
        assert_eq!(aggregator.snapshot().get(kind), logged);
    }
}

#[test]
fn record_all_records_in_order() {
    let mut aggregator = Aggregator::new();
    let found = vec![
        Match { kind: ConstructKind::Variable, text: "x".to_string(), start: 0, end: 1 },
        Match { kind: ConstructKind::Method, text: "m".to_string(), start: 2, end: 3 },
        Match { kind: ConstructKind::Variable, text: "y".to_string(), start: 4, end: 5 },
    ];
    assert_eq!(aggregator.record_all(&found, "F.java"), 3);
    let lines: Vec<String> = aggregator.findings().iter().map(|f| f.line()).collect();
    assert_eq!(
        lines,
        vec![
            "Variable, 1, F.java, x".to_string(),
            "Method, 1, F.java, m".to_string(),
            "Variable, 2, F.java, y".to_string()
        ]
    );
    assert_eq!(aggregator.record_all(&Vec::new(), "G.java"), 0);
    assert_eq!(aggregator.findings().len(), 3);
}

#[test]
fn slice_text_cuts_whole_characters_only() {
    assert_eq!(slice_text("hello", 1, 3), Some("el"));
    assert_eq!(slice_text("hello", 0, 5), Some("hello"));
    assert_eq!(slice_text("hello", 2, 2), Some(""));
    assert_eq!(slice_text("hello", 3, 2), None);
    assert_eq!(slice_text("hello", 0, 6), None);
    assert_eq!(slice_text("hello", 6, 6), None);
    // "añb": a = 1 byte, ñ = 2 bytes, b = 1 byte
    assert_eq!(slice_text("añb", 1, 3), Some("ñ"));
    assert_eq!(slice_text("añb", 0, 2), None);
    assert_eq!(slice_text("añb", 2, 4), None);
    assert_eq!(slice_text("añb", 2, 2), None);
    assert_eq!(slice_text("añb", 3, 4), Some("b"));
    assert_eq!(slice_text("", 0, 0), Some(""));
}

#[test]
fn select_matches_keeps_captures_of_the_wanted_name() {
    let names = vec!["variable.name".to_string(), "other".to_string()];
    let hits = vec![
        vec![Capture { index: 0, start: 0, end: 2 }, Capture { index: 1, start: 3, end: 5 }],
        vec![],
        vec![Capture { index: 7, start: 0, end: 1 }, Capture { index: 0, start: 6, end: 8 }],
    ];
    let found = select_matches(&hits, &names, "ab cd ef", ConstructKind::Variable).unwrap();
    assert_eq!(
        found,
        vec![
            Match { kind: ConstructKind::Variable, text: "ab".to_string(), start: 0, end: 2 },
            Match { kind: ConstructKind::Variable, text: "ef".to_string(), start: 6, end: 8 },
        ]
    );
    let none = select_matches(&hits, &names, "ab cd ef", ConstructKind::Method).unwrap();
    assert_eq!(none, Vec::new());
}

#[test]
fn select_matches_refuses_a_span_that_cannot_be_cut() {
    let names = vec!["method.name".to_string()];
    let outside = vec![vec![Capture { index: 0, start: 2, end: 9 }]];
    assert_eq!(
        select_matches(&outside, &names, "abc", ConstructKind::Method),
        Err(FileSkipError::Span)
    );
    let split = vec![vec![Capture { index: 0, start: 0, end: 2 }]];
    assert_eq!(
        select_matches(&split, &names, "añb", ConstructKind::Method),
        Err(FileSkipError::Span)
    );
    // a capture under another name is not cut at all
    assert_eq!(select_matches(&outside, &names, "abc", ConstructKind::Variable), Ok(Vec::new()));
}

#[test]
fn visitor_hands_out_the_root_first() {
    let mut visitor = FileVisitor::start("/src");
    assert_eq!(visitor.next(), Some("/src".to_string()));
    assert_eq!(visitor.next(), None);
    assert_eq!(visitor.next(), None);
}

#[test]
fn visitor_with_nothing_to_look_at_is_exhausted() {
    let mut visitor = FileVisitor::new();
    assert_eq!(visitor.next(), None);
}

#[test]
fn visitor_goes_depth_first_and_last_entry_first() {
    let mut visitor = FileVisitor::start("/r");
    assert_eq!(visitor.next(), Some("/r".to_string()));
    assert_eq!(visitor.enter(1, vec!["/r/a".to_string(), "/r/b".to_string()]), Ok(()));
    assert_eq!(visitor.next(), Some("/r/b".to_string()));
    assert_eq!(visitor.enter(2, vec!["/r/b/c".to_string()]), Ok(()));
    assert_eq!(visitor.next(), Some("/r/b/c".to_string()));
    assert_eq!(visitor.next(), Some("/r/a".to_string()));
    assert_eq!(visitor.next(), None);
}

#[test]
fn visitor_refuses_a_directory_it_has_entered() {
    let mut visitor = FileVisitor::start("/r");
    assert_eq!(visitor.next(), Some("/r".to_string()));
    assert_eq!(visitor.enter(10, vec!["/r/loop".to_string()]), Ok(()));
    assert_eq!(visitor.next(), Some("/r/loop".to_string()));
    assert_eq!(visitor.enter(10, vec!["/r/loop/loop".to_string()]), Err(FileSkipError::Cycle));
    assert_eq!(visitor.next(), None);
}

#[test]
fn visitor_takes_an_empty_directory() {
    let mut visitor = FileVisitor::start("/r");
    assert_eq!(visitor.next(), Some("/r".to_string()));
    assert_eq!(visitor.enter(3, Vec::new()), Ok(()));
    assert_eq!(visitor.next(), None);
}
