use excel_tools::cell::{Cell, CellError, WriteData};
use excel_tools::workbook::{extract_headers, sheet_write_ops, transcribe_workbook, Sheet, Workbook};

fn text(s: &str) -> Cell {
    Cell::Text(s.to_string())
}

#[test]
fn headers_come_from_the_first_row_only() {
    let rows = vec![
        vec![text("Title"), Cell::Int(7), Cell::Bool(true)],
        vec![text("ignored"), text("rows")],
    ];
    let headers = extract_headers(&rows);
    assert_eq!(headers, vec!["Title".to_string(), "7".to_string(), "true".to_string()]);
}

#[test]
fn headers_of_an_empty_sheet_are_empty() {
    let rows: Vec<Vec<Cell>> = Vec::new();
    assert!(extract_headers(&rows).is_empty());
}

#[test]
fn headers_render_every_cell_kind() {
    let rows = vec![vec![
        Cell::Float("2.5".to_string()),
        Cell::DateTime("45000".to_string()),
        Cell::Error(CellError::Div0),
        Cell::Empty,
    ]];
    let headers = extract_headers(&rows);
    assert_eq!(
        headers,
        vec!["2.5".to_string(), "45000".to_string(), "#DIV/0!".to_string(), String::new()]
    );
}

#[test]
fn transcription_keeps_sheet_names_and_positions() {
    let wb = Workbook {
        sheets: vec![
            Sheet {
                name: "数据".to_string(),
                rows: vec![
                    vec![Cell::Int(1), Cell::Empty, Cell::Bool(true)],
                    vec![Cell::DateTime("45000".to_string())],
                ],
            },
            Sheet { name: "Sheet2".to_string(), rows: Vec::new() },
        ],
    };
    let out = transcribe_workbook(&wb);
    assert_eq!(out.sheets.len(), 2);
    assert_eq!(out.sheets[0].name, "数据");
    assert_eq!(out.sheets[1].name, "Sheet2");
    assert_eq!(out.sheets[0].rows[0], vec![Cell::Int(1), Cell::Empty, Cell::Bool(true)]);
    assert_eq!(out.sheets[0].rows[1], vec![Cell::Text("45000".to_string())]);
    assert!(out.sheets[1].rows.is_empty());
}

#[test]
fn transcription_is_idempotent() {
    let wb = Workbook {
        sheets: vec![Sheet {
            name: "S".to_string(),
            rows: vec![vec![
                Cell::Error(CellError::Na),
                Cell::DateTime("1".to_string()),
                Cell::Int(3),
            ]],
        }],
    };
    let once = transcribe_workbook(&wb);
    let twice = transcribe_workbook(&once);
    assert_eq!(once.sheets[0].rows, twice.sheets[0].rows);
    assert_eq!(once.sheets[0].name, twice.sheets[0].name);
}

#[test]
fn write_plan_skips_empty_cells_and_keeps_positions() {
    let rows = vec![
        vec![text("A"), Cell::Empty, Cell::Int(5)],
        vec![],
        vec![Cell::Empty],
        vec![Cell::Bool(false)],
    ];
    let ops = sheet_write_ops(&rows);
    assert_eq!(ops.len(), 3);
    assert_eq!((ops[0].row, ops[0].col), (0, 0));
    assert_eq!(ops[0].data, WriteData::Text("A".to_string()));
    assert_eq!((ops[1].row, ops[1].col), (0, 2));
    assert_eq!(ops[1].data, WriteData::Int(5));
    assert_eq!((ops[2].row, ops[2].col), (3, 0));
    assert_eq!(ops[2].data, WriteData::Bool(false));
}

#[test]
fn write_plan_is_row_major_then_column_major() {
    let rows = vec![
        vec![Cell::Int(1), Cell::Int(2)],
        vec![Cell::Int(3), Cell::Int(4)],
    ];
    let ops = sheet_write_ops(&rows);
    let positions: Vec<(u32, u16)> = ops.iter().map(|o| (o.row, o.col)).collect();
    assert_eq!(positions, vec![(0, 0), (0, 1), (1, 0), (1, 1)]);
}

#[test]
fn write_plan_of_a_resave_is_unchanged() {
    let wb = Workbook {
        sheets: vec![Sheet {
            name: "S".to_string(),
            rows: vec![vec![
                Cell::Int(1),
                Cell::Empty,
                Cell::DateTime("45000".to_string()),
                Cell::Error(CellError::Div0),
            ]],
        }],
    };
    let out = transcribe_workbook(&wb);
    let before = sheet_write_ops(&wb.sheets[0].rows);
    let after = sheet_write_ops(&out.sheets[0].rows);
    assert_eq!(before.len(), after.len());
    for (a, b) in before.iter().zip(after.iter()) {
        assert_eq!((a.row, a.col), (b.row, b.col));
        assert_eq!(a.data, b.data);
    }
}
