use excel_tools::cell::Cell;
use excel_tools::format::split_file_name;
use excel_tools::partition::partition_rows;
use excel_tools::report::ToolError;

fn text(s: &str) -> Cell {
    Cell::Text(s.to_string())
}

fn row(s: &str) -> Vec<Cell> {
    vec![text(s)]
}

fn header() -> Vec<Cell> {
    vec![text("Title"), text("Author")]
}

#[test]
fn zero_data_rows_fail_with_empty_data() {
    let data: Vec<Vec<Cell>> = Vec::new();
    let r = partition_rows(&header(), &data, 10);
    assert_eq!(r, Err(ToolError::EmptyData));
}

#[test]
fn exactly_the_limit_gives_one_file() {
    let data = vec![row("a"), row("b"), row("c")];
    let chunks = partition_rows(&header(), &data, 3).unwrap();
    assert_eq!(chunks.len(), 1);
    assert_eq!(chunks[0].len(), 4);
    assert_eq!(chunks[0][0], header());
    assert_eq!(&chunks[0][1..], &[row("a"), row("b"), row("c")]);
}

#[test]
fn one_over_the_limit_gives_two_files() {
    let data = vec![row("a"), row("b"), row("c"), row("d")];
    let chunks = partition_rows(&header(), &data, 3).unwrap();
    assert_eq!(chunks.len(), 2);
    assert_eq!(chunks[0].len(), 4);
    assert_eq!(chunks[1].len(), 2);
    assert_eq!(chunks[1][0], header());
    assert_eq!(chunks[1][1], row("d"));
}

#[test]
fn five_rows_with_limit_two_give_three_files() {
    let data = vec![row("A"), row("B"), row("C"), row("D"), row("E")];
    let chunks = partition_rows(&header(), &data, 2).unwrap();
    assert_eq!(chunks.len(), 3);
    for chunk in &chunks {
        assert_eq!(chunk[0], header());
    }
    assert_eq!(&chunks[0][1..], &[row("A"), row("B")]);
    assert_eq!(&chunks[1][1..], &[row("C"), row("D")]);
    assert_eq!(&chunks[2][1..], &[row("E")]);
}

#[test]
fn partitions_tile_the_data_rows_exactly() {
    let data: Vec<Vec<Cell>> = (0..17).map(|i| vec![Cell::Int(i)]).collect();
    let chunks = partition_rows(&header(), &data, 5).unwrap();
    assert_eq!(chunks.len(), 4);
    let mut rebuilt: Vec<Vec<Cell>> = Vec::new();
    for chunk in &chunks {
        assert!(chunk.len() >= 2);
        assert!(chunk.len() <= 6);
        rebuilt.extend(chunk[1..].iter().cloned());
    }
    assert_eq!(rebuilt, data);
}

#[test]
fn limit_one_gives_one_file_per_row() {
    let data = vec![row("a"), row("b")];
    let chunks = partition_rows(&header(), &data, 1).unwrap();
    assert_eq!(chunks.len(), 2);
    assert_eq!(&chunks[0][1..], &[row("a")]);
    assert_eq!(&chunks[1][1..], &[row("b")]);
}

#[test]
fn split_files_are_named_from_stem_and_index() {
    assert_eq!(split_file_name(&"data".to_string(), 1), "data_split_1.xlsx");
    assert_eq!(split_file_name(&"data".to_string(), 12), "data_split_12.xlsx");
    assert_eq!(split_file_name(&"月度报表".to_string(), 3), "月度报表_split_3.xlsx");
}

#[test]
fn split_naming_is_deterministic() {
    let a = split_file_name(&"report".to_string(), 2);
    let b = split_file_name(&"report".to_string(), 2);
    assert_eq!(a, b);
}
