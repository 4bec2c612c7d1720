use excel_tools::check::{check_headers, unrecognized_headers, CheckOutcome};
use excel_tools::vocab::system_columns;

#[test]
fn vocabulary_has_all_recognized_columns() {
    let vocab = system_columns();
    assert_eq!(vocab.len(), 166);
    assert_eq!(vocab[0], "标题");
    assert!(vocab.contains(&"申请人".to_string()));
    assert!(vocab.contains(&"IPC".to_string()));
    assert!(vocab.contains(&"F-term".to_string()));
    assert!(vocab.contains(&"大类名称".to_string()));
    assert!(!vocab.contains(&"未知列".to_string()));
}

#[test]
fn known_headers_pass_the_vocabulary_check() {
    let vocab = system_columns();
    let headers = vec!["标题".to_string(), "申请人".to_string(), "摘要".to_string()];
    assert_eq!(check_headers(&headers, &vocab), CheckOutcome::AllRecognized);
}

#[test]
fn unknown_headers_are_flagged_against_the_vocabulary() {
    let vocab = system_columns();
    let headers = vec!["标题".to_string(), "自定义备注".to_string()];
    let out = unrecognized_headers(&headers, &vocab);
    assert_eq!(out, vec!["自定义备注".to_string()]);
}
