use excel_tools::check::{
    check_headers, contains_str, sort_strings, str_lex_le, unrecognized_headers, CheckOutcome,
    CheckReport,
};

fn strings(items: &[&str]) -> Vec<String> {
    items.iter().map(|s| s.to_string()).collect()
}

#[test]
fn unrecognized_is_set_difference() {
    let vocab = strings(&["Title", "Author"]);
    let headers = strings(&["Title", "Author", "Note"]);
    let out = unrecognized_headers(&headers, &vocab);
    assert_eq!(out, strings(&["Note"]));
}

#[test]
fn unrecognized_of_identical_sets_is_empty() {
    let vocab = strings(&["Alpha", "Beta", "Gamma"]);
    let headers = strings(&["Gamma", "Alpha", "Beta"]);
    let out = unrecognized_headers(&headers, &vocab);
    assert!(out.is_empty());
}

#[test]
fn unrecognized_of_empty_headers_is_empty() {
    let vocab = strings(&["Alpha", "Beta"]);
    let headers: Vec<String> = Vec::new();
    let out = unrecognized_headers(&headers, &vocab);
    assert!(out.is_empty());
}

#[test]
fn unrecognized_result_is_sorted_and_deduplicated() {
    let vocab = strings(&["Known"]);
    let headers = strings(&["zeta", "alpha", "zeta", "Known", "beta", "alpha"]);
    let out = unrecognized_headers(&headers, &vocab);
    assert_eq!(out, strings(&["alpha", "beta", "zeta"]));
}

#[test]
fn matching_is_case_sensitive_and_exact() {
    let vocab = strings(&["Title", "Author "]);
    let headers = strings(&["title", "Author"]);
    let out = unrecognized_headers(&headers, &vocab);
    assert_eq!(out, strings(&["Author", "title"]));
}

#[test]
fn sort_strings_orders_lexicographically() {
    let out = sort_strings(strings(&["b", "aa", "a", "B", "A"]));
    assert_eq!(out, strings(&["A", "B", "a", "aa", "b"]));
}

#[test]
fn string_order_is_lexicographic_by_code_point() {
    assert!(str_lex_le("", "a"));
    assert!(str_lex_le("a", "a"));
    assert!(str_lex_le("a", "aa"));
    assert!(str_lex_le("abc", "abd"));
    assert!(!str_lex_le("b", "aa"));
    assert!(str_lex_le("Z", "a"));
    assert!(str_lex_le("标", "题"));
}

#[test]
fn membership_is_exact_string_equality() {
    let v = strings(&["Title", "标题"]);
    assert!(contains_str(&v, &"Title".to_string()));
    assert!(contains_str(&v, &"标题".to_string()));
    assert!(!contains_str(&v, &"title".to_string()));
    assert!(!contains_str(&v, &"Title ".to_string()));
}

#[test]
fn check_headers_reports_empty() {
    let vocab = strings(&["Title"]);
    let headers: Vec<String> = Vec::new();
    assert_eq!(check_headers(&headers, &vocab), CheckOutcome::EmptyHeaders);
}

#[test]
fn check_headers_reports_all_recognized() {
    let vocab = strings(&["Title", "Author"]);
    let headers = strings(&["Author", "Title"]);
    assert_eq!(check_headers(&headers, &vocab), CheckOutcome::AllRecognized);
}

#[test]
fn check_headers_reports_unrecognized_sorted() {
    let vocab = strings(&["Title", "Author"]);
    let headers = strings(&["Note", "Title", "Extra"]);
    match check_headers(&headers, &vocab) {
        CheckOutcome::Unrecognized(cols) => assert_eq!(cols, strings(&["Extra", "Note"])),
        other => panic!("expected unrecognized columns, got {:?}", other),
    }
}

#[test]
fn report_aggregates_without_double_counting() {
    let mut report = CheckReport::new();
    report.record("one.xlsx".to_string(), strings(&["Note", "Extra"]));
    report.record("two.xlsx".to_string(), strings(&["Note"]));
    let agg = report.sorted_aggregate();
    assert_eq!(agg, strings(&["Extra", "Note"]));
    assert_eq!(report.findings.len(), 2);
    assert_eq!(report.findings[0].path, "one.xlsx");
    assert_eq!(report.findings[0].columns, strings(&["Note", "Extra"]));
}

#[test]
fn report_ignores_files_with_nothing_unrecognized() {
    let mut report = CheckReport::new();
    report.record("clean.xlsx".to_string(), Vec::new());
    assert_eq!(report.findings.len(), 0);
    assert!(report.sorted_aggregate().is_empty());
}

#[test]
fn aggregate_is_order_independent() {
    let files: Vec<Vec<String>> = vec![
        strings(&["b", "a"]),
        strings(&["c"]),
        strings(&["a", "c"]),
    ];
    let mut forward = CheckReport::new();
    for (i, cols) in files.iter().enumerate() {
        forward.record(format!("f{}.xlsx", i), cols.clone());
    }
    let mut backward = CheckReport::new();
    for (i, cols) in files.iter().enumerate().rev() {
        backward.record(format!("f{}.xlsx", i), cols.clone());
    }
    assert_eq!(forward.sorted_aggregate(), backward.sorted_aggregate());
    assert_eq!(forward.sorted_aggregate(), strings(&["a", "b", "c"]));
}
