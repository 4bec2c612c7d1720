use excel_tools::cell::{
    cell_display, cell_write_data, error_display, error_write_text, transcribe_cell, Cell,
    CellError, WriteData,
};
use excel_tools::text::{i64_text, u64_text};

#[test]
fn unsigned_numbers_render_in_decimal() {
    assert_eq!(u64_text(0), "0");
    assert_eq!(u64_text(7), "7");
    assert_eq!(u64_text(42), "42");
    assert_eq!(u64_text(60000), "60000");
    assert_eq!(u64_text(u64::MAX), "18446744073709551615");
}

#[test]
fn signed_numbers_render_with_sign() {
    assert_eq!(i64_text(0), "0");
    assert_eq!(i64_text(123), "123");
    assert_eq!(i64_text(-5), "-5");
    assert_eq!(i64_text(i64::MAX), "9223372036854775807");
    assert_eq!(i64_text(i64::MIN), "-9223372036854775808");
}

#[test]
fn cells_render_to_display_strings() {
    assert_eq!(cell_display(&Cell::Int(42)), "42");
    assert_eq!(cell_display(&Cell::Float("3.25".to_string())), "3.25");
    assert_eq!(cell_display(&Cell::Text("hello".to_string())), "hello");
    assert_eq!(cell_display(&Cell::Bool(true)), "true");
    assert_eq!(cell_display(&Cell::Bool(false)), "false");
    assert_eq!(cell_display(&Cell::DateTime("44484.79".to_string())), "44484.79");
    assert_eq!(cell_display(&Cell::Error(CellError::Div0)), "#DIV/0!");
    assert_eq!(cell_display(&Cell::Empty), "");
}

#[test]
fn error_markers_have_display_and_diagnostic_forms() {
    assert_eq!(error_display(CellError::Na), "#N/A");
    assert_eq!(error_display(CellError::Value), "#VALUE!");
    assert_eq!(error_display(CellError::GettingData), "#DATA!");
    assert_eq!(error_write_text(CellError::Div0), "ERROR: Div0");
    assert_eq!(error_write_text(CellError::Ref), "ERROR: Ref");
    assert_eq!(error_write_text(CellError::GettingData), "ERROR: GettingData");
}

#[test]
fn boolean_cell_writes_as_boolean_not_text() {
    let w = cell_write_data(&Cell::Bool(true));
    assert_eq!(w, Some(WriteData::Bool(true)));
    assert_ne!(w, Some(WriteData::Text("true".to_string())));
}

#[test]
fn each_cell_kind_writes_through_the_universal_writer() {
    assert_eq!(cell_write_data(&Cell::Int(-3)), Some(WriteData::Int(-3)));
    assert_eq!(
        cell_write_data(&Cell::Float("2.5".to_string())),
        Some(WriteData::Number("2.5".to_string()))
    );
    assert_eq!(
        cell_write_data(&Cell::Text("t".to_string())),
        Some(WriteData::Text("t".to_string()))
    );
    assert_eq!(
        cell_write_data(&Cell::DateTime("45000".to_string())),
        Some(WriteData::Text("45000".to_string()))
    );
    assert_eq!(
        cell_write_data(&Cell::Error(CellError::Num)),
        Some(WriteData::Text("ERROR: Num".to_string()))
    );
}

#[test]
fn empty_cells_are_never_written() {
    assert_eq!(cell_write_data(&Cell::Empty), None);
}

#[test]
fn transcription_coerces_only_datetimes_and_errors() {
    assert_eq!(transcribe_cell(&Cell::Int(7)), Cell::Int(7));
    assert_eq!(
        transcribe_cell(&Cell::Float("1.5".to_string())),
        Cell::Float("1.5".to_string())
    );
    assert_eq!(transcribe_cell(&Cell::Bool(false)), Cell::Bool(false));
    assert_eq!(
        transcribe_cell(&Cell::DateTime("45000".to_string())),
        Cell::Text("45000".to_string())
    );
    assert_eq!(
        transcribe_cell(&Cell::Error(CellError::Null)),
        Cell::Text("ERROR: Null".to_string())
    );
    assert_eq!(transcribe_cell(&Cell::Empty), Cell::Empty);
}
