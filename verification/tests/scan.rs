use java_statistic::{
    find_matches, statistic, statistic_file, Aggregator, ConstructKind, FileSkipError,
    PatternCatalog, SyntaxTree,
};

const SMALL_CLASS: &str = "class C { int x = 1; void m(){ int y = 2; } }";

fn lines(aggregator: &Aggregator) -> Vec<String> {
    aggregator.findings().iter().map(|f| f.line()).collect()
}

#[test]
fn variable_scan_of_small_class_finds_x_and_y() {
    let catalog = PatternCatalog::compile().unwrap();
    let mut aggregator = Aggregator::new();
    let counted =
        statistic(&catalog, SMALL_CLASS, ConstructKind::Variable, "C.java", &mut aggregator);
    assert_eq!(counted, Ok(2));
    let log = aggregator.findings();
    assert_eq!(log.len(), 2);
    assert_eq!(log[0].identifier, "x");
    assert_eq!(log[1].identifier, "y");
    assert_eq!(aggregator.snapshot().variables, 2);
    assert_eq!(aggregator.snapshot().methods, 0);
}

#[test]
fn method_scan_of_small_class_finds_m() {
    let catalog = PatternCatalog::compile().unwrap();
    let mut aggregator = Aggregator::new();
    let counted =
        statistic(&catalog, SMALL_CLASS, ConstructKind::Method, "C.java", &mut aggregator);
    assert_eq!(counted, Ok(1));
    assert_eq!(aggregator.findings().len(), 1);
    assert_eq!(aggregator.findings()[0].identifier, "m");
    assert_eq!(aggregator.findings()[0].line(), "Method, 1, C.java, m");
}

#[test]
fn file_scan_records_methods_then_variables() {
    let catalog = PatternCatalog::compile().unwrap();
    let mut aggregator = Aggregator::new();
    assert_eq!(statistic_file(&catalog, SMALL_CLASS, "C.java", &mut aggregator), Ok(()));
    assert_eq!(
        lines(&aggregator),
        vec![
            "Method, 1, C.java, m".to_string(),
            "Variable, 1, C.java, x".to_string(),
            "Variable, 2, C.java, y".to_string(),
        ]
    );
}

#[test]
fn running_counts_continue_across_files() {
    let catalog = PatternCatalog::compile().unwrap();
    let mut aggregator = Aggregator::new();
    assert_eq!(statistic_file(&catalog, SMALL_CLASS, "C.java", &mut aggregator), Ok(()));
    let second = "class D { void a() {} void b() {} long z; }";
    assert_eq!(statistic_file(&catalog, second, "D.java", &mut aggregator), Ok(()));
    assert_eq!(
        lines(&aggregator),
        vec![
            "Method, 1, C.java, m".to_string(),
            "Variable, 1, C.java, x".to_string(),
            "Variable, 2, C.java, y".to_string(),
            "Method, 2, D.java, a".to_string(),
            "Method, 3, D.java, b".to_string(),
            "Variable, 3, D.java, z".to_string(),
        ]
    );
    assert_eq!(aggregator.snapshot().methods, 3);
    assert_eq!(aggregator.snapshot().variables, 3);
}

#[test]
fn broken_source_is_skipped_and_counts_nothing() {
    let catalog = PatternCatalog::compile().unwrap();
    let mut aggregator = Aggregator::new();
    let broken = "class C { int x = ; void m( { }";
    assert_eq!(
        statistic_file(&catalog, broken, "C.java", &mut aggregator),
        Err(FileSkipError::Parse)
    );
    assert_eq!(
        statistic(&catalog, broken, ConstructKind::Variable, "C.java", &mut aggregator),
        Err(FileSkipError::Parse)
    );
    assert_eq!(aggregator.findings().len(), 0);
    assert_eq!(aggregator.snapshot().methods, 0);
    assert_eq!(aggregator.snapshot().variables, 0);
}

#[test]
fn broken_source_leaves_earlier_counts_alone() {
    let catalog = PatternCatalog::compile().unwrap();
    let mut aggregator = Aggregator::new();
    assert_eq!(statistic_file(&catalog, SMALL_CLASS, "C.java", &mut aggregator), Ok(()));
    assert_eq!(
        statistic_file(&catalog, "void void void {", "Bad.java", &mut aggregator),
        Err(FileSkipError::Parse)
    );
    assert_eq!(aggregator.snapshot().methods, 1);
    assert_eq!(aggregator.snapshot().variables, 2);
    assert_eq!(aggregator.findings().len(), 3);
}

#[test]
fn source_without_variables_adds_no_variable_finding() {
    let catalog = PatternCatalog::compile().unwrap();
    let mut aggregator = Aggregator::new();
    let only_methods = "class C { void a() {} void b() {} }";
    assert_eq!(
        statistic(&catalog, only_methods, ConstructKind::Variable, "C.java", &mut aggregator),
        Ok(0)
    );
    assert_eq!(aggregator.findings().len(), 0);
    assert_eq!(statistic_file(&catalog, only_methods, "C.java", &mut aggregator), Ok(()));
    assert_eq!(aggregator.snapshot().variables, 0);
    assert_eq!(aggregator.snapshot().methods, 2);
    assert!(aggregator.findings().iter().all(|f| f.query.kind() == ConstructKind::Method));
}

#[test]
fn empty_source_is_valid_and_counts_nothing() {
    let catalog = PatternCatalog::compile().unwrap();
    let mut aggregator = Aggregator::new();
    assert_eq!(statistic_file(&catalog, "", "Empty.java", &mut aggregator), Ok(()));
    assert_eq!(aggregator.findings().len(), 0);
}

#[test]
fn parse_accepts_valid_and_refuses_broken_text() {
    assert!(SyntaxTree::parse(SMALL_CLASS).is_ok());
    assert!(SyntaxTree::parse("class C { }").is_ok());
    assert_eq!(SyntaxTree::parse("class C {").err(), Some(FileSkipError::Parse));
    assert_eq!(SyntaxTree::parse("int int int").err(), Some(FileSkipError::Parse));
}

#[test]
fn find_matches_gives_identifier_and_byte_span() {
    let catalog = PatternCatalog::compile().unwrap();
    let tree = SyntaxTree::parse(SMALL_CLASS).unwrap();
    let methods = find_matches(&catalog, &tree, SMALL_CLASS, ConstructKind::Method).unwrap();
    assert_eq!(methods.len(), 1);
    assert_eq!(methods[0].kind, ConstructKind::Method);
    assert_eq!(methods[0].text, "m");
    assert_eq!(methods[0].start, 26);
    assert_eq!(methods[0].end, 27);
    let variables = find_matches(&catalog, &tree, SMALL_CLASS, ConstructKind::Variable).unwrap();
    let spans: Vec<(usize, usize)> = variables.iter().map(|m| (m.start, m.end)).collect();
    assert_eq!(spans, vec![(14, 15), (35, 36)]);
    assert_eq!(&SMALL_CLASS[14..15], "x");
    assert_eq!(&SMALL_CLASS[35..36], "y");
}

#[test]
fn identifiers_of_several_bytes_are_cut_whole() {
    let catalog = PatternCatalog::compile().unwrap();
    let mut aggregator = Aggregator::new();
    let code = "class C { int año = 1; void café() { int π = 3; } }";
    assert_eq!(statistic_file(&catalog, code, "C.java", &mut aggregator), Ok(()));
    assert_eq!(
        lines(&aggregator),
        vec![
            "Method, 1, C.java, café".to_string(),
            "Variable, 1, C.java, año".to_string(),
            "Variable, 2, C.java, π".to_string(),
        ]
    );
}

#[test]
fn fields_and_locals_both_count_as_variables() {
    let catalog = PatternCatalog::compile().unwrap();
    let mut aggregator = Aggregator::new();
    let code = "class C { private int a, b; void m(int p) { String s = \"t\"; for (int i = 0; i < 1; i++) {} } }";
    let counted = statistic(&catalog, code, ConstructKind::Variable, "C.java", &mut aggregator);
    assert_eq!(counted, Ok(4));
    let names: Vec<String> = aggregator.findings().iter().map(|f| f.identifier.clone()).collect();
    assert_eq!(names, vec!["a", "b", "s", "i"]);
}

#[test]
fn patterns_compile_against_the_grammar() {
    assert!(PatternCatalog::compile().is_ok());
}

#[test]
fn scanning_twice_gives_the_same_counts() {
    let catalog = PatternCatalog::compile().unwrap();
    let sources = [("A.java", SMALL_CLASS), ("B.java", "class B { int q; void r() {} void s() {} }")];
    let mut first = Aggregator::new();
    let mut second = Aggregator::new();
    for (name, code) in sources.iter() {
        assert_eq!(statistic_file(&catalog, code, name, &mut first), Ok(()));
    }
    for (name, code) in sources.iter().rev() {
        assert_eq!(statistic_file(&catalog, code, name, &mut second), Ok(()));
    }
    assert_eq!(first.snapshot(), second.snapshot());
    assert_eq!(first.snapshot().methods, 3);
    assert_eq!(first.snapshot().variables, 3);
}

#[test]
fn files_times_matches_is_the_final_count() {
    let catalog = PatternCatalog::compile().unwrap();
    let mut aggregator = Aggregator::new();
    let code = "class K { void a() {} void b() {} void c() {} int v; }";
    let files = 7;
    for i in 0..files {
        let name = format!("K{}.java", i);
        assert_eq!(statistic_file(&catalog, code, &name, &mut aggregator), Ok(()));
    }
    assert_eq!(aggregator.snapshot().methods, files * 3);
    assert_eq!(aggregator.snapshot().variables, files);
    let counts: Vec<usize> = aggregator
        .findings()
        .iter()
        .filter(|f| f.query.kind() == ConstructKind::Method)
        .map(|f| f.query.count())
        .collect();
    let expected: Vec<usize> = (1..=files * 3).collect();
    assert_eq!(counts, expected);
}
