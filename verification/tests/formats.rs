use excel_tools::format::{
    classify_extension, converted_file_name, is_legacy_extension, is_spreadsheet_extension,
    SourceFormat,
};
use excel_tools::report::{BatchStats, SplitStats, ToolError};

#[test]
fn extensions_classify_without_regard_to_case() {
    assert_eq!(classify_extension(&"xlsx".to_string()), Some(SourceFormat::Modern));
    assert_eq!(classify_extension(&"XLSX".to_string()), Some(SourceFormat::Modern));
    assert_eq!(classify_extension(&"xlsm".to_string()), Some(SourceFormat::MacroEnabled));
    assert_eq!(classify_extension(&"XlsM".to_string()), Some(SourceFormat::MacroEnabled));
    assert_eq!(classify_extension(&"xls".to_string()), Some(SourceFormat::Legacy));
    assert_eq!(classify_extension(&"XLS".to_string()), Some(SourceFormat::Legacy));
}

#[test]
fn unknown_extensions_classify_as_unsupported() {
    assert_eq!(classify_extension(&"csv".to_string()), None);
    assert_eq!(classify_extension(&"".to_string()), None);
    assert_eq!(classify_extension(&"xlsb".to_string()), None);
    assert_eq!(classify_extension(&"xl".to_string()), None);
}

#[test]
fn directory_walks_match_extensions_exactly() {
    assert!(is_spreadsheet_extension(&"xlsx".to_string()));
    assert!(is_spreadsheet_extension(&"xls".to_string()));
    assert!(is_spreadsheet_extension(&"xlsm".to_string()));
    assert!(!is_spreadsheet_extension(&"XLSX".to_string()));
    assert!(!is_spreadsheet_extension(&"csv".to_string()));
    assert!(is_legacy_extension(&"xls".to_string()));
    assert!(!is_legacy_extension(&"xlsx".to_string()));
    assert!(!is_legacy_extension(&"XLS".to_string()));
}

#[test]
fn converted_files_keep_their_relative_path() {
    assert_eq!(converted_file_name(&"book.xls".to_string()), "book.xlsx");
    assert_eq!(converted_file_name(&"sub/dir/book.xls".to_string()), "sub/dir/book.xlsx");
    assert_eq!(converted_file_name(&"a.b.xls".to_string()), "a.b.xlsx");
}

#[test]
fn errors_render_with_their_cause() {
    assert_eq!(ToolError::Read("bad signature".to_string()).message(), "read error: bad signature");
    assert_eq!(ToolError::Write("disk full".to_string()).message(), "write error: disk full");
    assert_eq!(
        ToolError::UnsupportedFormat("csv".to_string()).message(),
        "unsupported file format: csv"
    );
    assert_eq!(ToolError::EmptyData.message(), "no data rows to split");
    assert_eq!(
        ToolError::Manifest("missing field".to_string()).message(),
        "manifest error: missing field"
    );
}

#[test]
fn batch_counters_count() {
    let mut stats = BatchStats::new();
    stats.record_success();
    stats.record_success();
    stats.record_failure();
    assert_eq!(stats.succeeded, 2);
    assert_eq!(stats.failed, 1);
}

#[test]
fn split_counters_accumulate_partition_files() {
    let mut stats = SplitStats::new();
    stats.record_split(3);
    stats.record_split(1);
    stats.record_failure();
    assert_eq!(stats.sources_split, 2);
    assert_eq!(stats.files_produced, 4);
    assert_eq!(stats.failed, 1);
}
