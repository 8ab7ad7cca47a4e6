use bot::components::quantum_pruner::{
    estimate_impact, extract_function_name, ASTAnalyzer, ConditionType, DirectoryAnalysis, Impact,
    PathPattern, PathPruner, PathType, SuggestionType,
};

#[test]
fn test_analyzer_creation() {
    let analyzer = ASTAnalyzer::new();
    assert!(analyzer.has_pattern("panic!"));
    assert!(analyzer.has_pattern("unreachable!"));
}

#[test]
fn test_pruner_threshold() {
    // 0.05 expressed in parts per million
    let pruner = PathPruner::new(50_000);
    assert_eq!(pruner.threshold_ppm(), 50_000);
}

#[test]
fn default_pruner_threshold_is_one_in_a_hundred() {
    let pruner: PathPruner = Default::default();
    assert_eq!(pruner.threshold_ppm(), 10_000);
    assert!(pruner.analyzer().has_pattern("todo!"));
    assert!(!pruner.analyzer().has_pattern("expect"));
}

#[test]
fn function_names_come_from_the_nearest_declaration_above() {
    let src = "use x;\npub fn alpha(a: u8) {\n    let y = 1;\n}\n  fn beta (\n    z();\n}\n";
    assert_eq!(extract_function_name(src, 0), None);
    // the word after "fn" is taken whole, less the parentheses that end it
    assert_eq!(extract_function_name(src, 1), Some("alpha(a:".to_string()));
    assert_eq!(extract_function_name(src, 2), Some("alpha(a:".to_string()));
    assert_eq!(extract_function_name(src, 5), Some("beta".to_string()));
    // past the last line, the last declaration counts
    assert_eq!(extract_function_name(src, 100), Some("beta".to_string()));
}

#[test]
fn function_names_lose_their_opening_parentheses_only() {
    assert_eq!(extract_function_name("fn ((", 0), Some(String::new()));
    assert_eq!(extract_function_name("fn f((\n", 0), Some("f".to_string()));
    assert_eq!(extract_function_name("pub fn g (x)\r\n", 0), Some("g".to_string()));
    // a line beginning with "pub(crate) fn" is no declaration here
    assert_eq!(extract_function_name("pub(crate) fn h()", 0), None);
    // "fn" alone is no declaration
    assert_eq!(extract_function_name("fn", 0), None);
}

#[test]
fn analysis_finds_pattern_text_line_by_line() {
    let analyzer = ASTAnalyzer::new();
    let content = "fn run() {\n    x.unwrap_err();\n    panic!(\"no\");\n}\r\n";
    let fa = analyzer.analyze_content("src/a.rs", content);
    assert_eq!(fa.file_path, "src/a.rs");
    assert_eq!(fa.total_paths, 2);
    assert_eq!(fa.paths.len(), 2);
    let first = &fa.paths[0];
    assert_eq!(first.path_id, "src/a.rs-unwrap_err-1");
    assert_eq!(first.function, "run()");
    assert_eq!(first.line_start, 2);
    assert_eq!(first.line_end, 2);
    assert_eq!(first.probability_ppm, 10_000);
    assert_eq!(first.path_type, PathType::Error);
    assert_eq!(first.conditions.len(), 1);
    assert_eq!(first.conditions[0].expression, "x.unwrap_err();");
    assert_eq!(first.conditions[0].line, 2);
    assert_eq!(first.conditions[0].condition_type, ConditionType::Branch);
    let second = &fa.paths[1];
    assert_eq!(second.path_id, "src/a.rs-panic!-2");
    assert_eq!(second.path_type, PathType::Panic);
    assert_eq!(second.probability_ppm, 1000);
    // only the panic is rare enough, and may be pruned
    assert_eq!(fa.low_probability_paths, 1);
    assert_eq!(fa.low_prob_paths[0].path_id, "src/a.rs-panic!-2");
}

#[test]
fn patterns_match_as_regular_expressions() {
    let analyzer = ASTAnalyzer::new();
    let fa = analyzer.analyze_content("b.rs", "panic!(\"x\");\ntodo!()\n");
    assert_eq!(fa.total_paths, 2);
    assert_eq!(fa.low_probability_paths, 2);
    // the escapes stand for the characters themselves, not for backslashes
    let fa = analyzer.analyze_content("b.rs", "panic!\\(\"x\")\n");
    assert_eq!(fa.total_paths, 0);
    // `.*` spans anything between the two errors
    let fa = analyzer.analyze_content("b.rs", "match r { Err(e) => Err(e.into()) }\nErr(x)\n");
    assert_eq!(fa.total_paths, 1);
    assert_eq!(fa.paths[0].path_type, PathType::Error);
    assert_eq!(fa.paths[0].line_start, 1);
    assert_eq!(fa.paths[0].probability_ppm, 50_000);
}

#[test]
fn a_panic_in_a_function_is_a_rare_path() {
    let analyzer = ASTAnalyzer::new();
    let fa = analyzer.analyze_content("f.rs", "fn f() {\n    panic!(\"boom\");\n}");
    assert_eq!(fa.total_paths, 1);
    assert_eq!(fa.low_probability_paths, 1);
    assert_eq!(fa.paths[0].line_start, 2);
    assert_eq!(fa.paths[0].path_type, PathType::Panic);
    assert_eq!(fa.paths[0].probability_ppm, 1000);
    assert_eq!(fa.paths[0].function, "f()");
}

#[test]
fn lines_outside_functions_are_unknown() {
    let analyzer = ASTAnalyzer::new();
    let fa = analyzer.analyze_content("c.rs", "todo!()");
    assert_eq!(fa.total_paths, 1);
    assert_eq!(fa.paths[0].function, "unknown");
    assert_eq!(fa.paths[0].path_type, PathType::EdgeCase);
    assert_eq!(fa.paths[0].path_id, "c.rs-todo!-0");
}

#[test]
fn added_patterns_replace_those_of_the_same_name() {
    let mut analyzer = ASTAnalyzer::new();
    analyzer.add_pattern(
        "expect".to_string(),
        PathPattern { pattern: "expect(".to_string(), probability_ppm: 50, prune_candidate: true },
    );
    analyzer.add_pattern(
        "panic!".to_string(),
        PathPattern { pattern: "panic!(".to_string(), probability_ppm: 5, prune_candidate: true },
    );
    assert!(analyzer.has_pattern("expect"));
    let fa = analyzer.analyze_content("d.rs", "a.expect(\"m\");\npanic!(\"p\");\n");
    assert_eq!(fa.total_paths, 2);
    assert_eq!(fa.paths[0].probability_ppm, 50);
    assert_eq!(fa.paths[0].path_type, PathType::Happy);
    assert_eq!(fa.paths[1].probability_ppm, 5);
    assert_eq!(fa.low_probability_paths, 2);
}

#[test]
fn impact_follows_the_probability() {
    assert_eq!(estimate_impact(0), Impact::High);
    assert_eq!(estimate_impact(99), Impact::High);
    assert_eq!(estimate_impact(100), Impact::Medium);
    assert_eq!(estimate_impact(9_999), Impact::Medium);
    assert_eq!(estimate_impact(10_000), Impact::Low);
}

#[test]
fn directory_totals_and_suggestions() {
    let analyzer = ASTAnalyzer::new();
    let mut dir = DirectoryAnalysis::new("src".to_string());
    dir.add_file(analyzer.analyze_content("src/a.rs", "fn a() {\n unreachable!()\n}\n"));
    dir.add_file(analyzer.analyze_content("src/b.rs", "fn b() {}\n"));
    dir.add_file(analyzer.analyze_content("src/c.rs", " todo!() \n"));
    assert_eq!(dir.files_analyzed, 3);
    assert_eq!(dir.total_paths, 2);
    assert_eq!(dir.total_low_probability_paths, 2);
    let pruner = PathPruner::default();
    let s = pruner.get_suggestions(&dir);
    assert_eq!(s.len(), 2);
    assert_eq!(s[0].file, "src/a.rs");
    assert_eq!(s[0].line, 2);
    assert_eq!(s[0].suggestion_type, SuggestionType::ReplaceWithResult);
    assert_eq!(s[0].original_code, "unreachable!()");
    assert_eq!(s[0].suggested_code, "return Err(anyhow::anyhow!(\"Error condition\"))");
    assert_eq!(s[0].impact, Impact::Medium);
    assert_eq!(s[1].file, "src/c.rs");
    assert_eq!(s[1].line, 1);
    assert_eq!(s[1].suggestion_type, SuggestionType::ImplementOrRemove);
    assert_eq!(s[1].original_code, "todo!()");
    assert_eq!(s[1].impact, Impact::High);
}
