//! Workbooks as ordered named sheets of typed cells, the header
//! extractor, the transcriber, and the write plan a sheet compiles to.
//!
//! Transcription re-emits every sheet under its original name, every
//! cell through the universal writer conversion, position preserved.
//! The write plan lists the typed writes for a sheet in row-major,
//! column-minor order, one write per non-empty cell.

use vstd::prelude::*;
use crate::cell::{
    Cell, CellV, WriteData, WriteDataV, cell_display, cell_write_data, cells_view,
    lemma_cells_view_push, lemma_transcribe_cell_display, lemma_transcribe_cell_idempotent,
    lemma_transcribe_cell_same_write, spec_cell_display, spec_transcribe_cell, spec_write_data,
    transcribe_cell,
};
use crate::text::str_views;

verus! {

/// The mathematical values of a sequence of rows, element by element.
pub open spec fn rows_view(s: Seq<Vec<Cell>>) -> Seq<Seq<CellV>> {
    s.map_values(|r: Vec<Cell>| cells_view(r@))
}

/// Appending a row appends its cell values to the views.
pub proof fn lemma_rows_view_push(s: Seq<Vec<Cell>>, x: Vec<Cell>)
    ensures
        rows_view(s.push(x)) == rows_view(s).push(cells_view(x@)),
{
    assert(rows_view(s.push(x)) =~= rows_view(s).push(cells_view(x@)));
}

/// A named grid of rows of typed cells.
pub struct Sheet {
    /// The sheet's name, preserved exactly by transcription.
    pub name: String,
    /// The sheet's rows; rows may be jagged.
    pub rows: Vec<Vec<Cell>>,
}

/// The mathematical value of a sheet.
pub struct SheetV {
    pub name: Seq<char>,
    pub rows: Seq<Seq<CellV>>,
}

impl View for Sheet {
    type V = SheetV;

    open spec fn view(&self) -> SheetV {
        SheetV { name: self.name@, rows: rows_view(self.rows@) }
    }
}

/// The mathematical values of a sequence of sheets, element by element.
pub open spec fn sheets_view(s: Seq<Sheet>) -> Seq<SheetV> {
    s.map_values(|x: Sheet| x@)
}

/// Appending a sheet appends its value to the views.
pub proof fn lemma_sheets_view_push(s: Seq<Sheet>, x: Sheet)
    ensures
        sheets_view(s.push(x)) == sheets_view(s).push(x@),
{
    assert(sheets_view(s.push(x)) =~= sheets_view(s).push(x@));
}

/// A workbook: an ordered sequence of named sheets.
pub struct Workbook {
    pub sheets: Vec<Sheet>,
}

impl View for Workbook {
    type V = Seq<SheetV>;

    open spec fn view(&self) -> Seq<SheetV> {
        sheets_view(self.sheets@)
    }
}

/// The display strings of a row of cells, in column order.
pub open spec fn spec_display_row(row: Seq<CellV>) -> Seq<Seq<char>> {
    row.map_values(|c: CellV| spec_cell_display(c))
}

proof fn lemma_display_row_push(row: Seq<CellV>, x: CellV)
    ensures
        spec_display_row(row.push(x)) == spec_display_row(row).push(spec_cell_display(x)),
{
    assert(spec_display_row(row.push(x)) =~= spec_display_row(row).push(spec_cell_display(x)));
}

/// The headers of a sheet: the display string of every cell of the first
/// row, in column order, or nothing at all when the sheet has no rows.
pub open spec fn spec_extract_headers(rows: Seq<Seq<CellV>>) -> Seq<Seq<char>> {
    if rows.len() == 0 {
        Seq::<Seq<char>>::empty()
    } else {
        spec_display_row(rows[0])
    }
}

/// Reads the header row of a sheet: every cell of the first row rendered
/// to its display string.  A sheet with no rows yields an empty list,
/// which callers treat as "nothing to check", not as a mismatch.
pub fn extract_headers(rows: &Vec<Vec<Cell>>) -> (headers: Vec<String>)
    ensures
        str_views(headers@) == spec_extract_headers(rows_view(rows@)),
{
    let mut headers: Vec<String> = Vec::new();
    if rows.len() == 0 {
        proof {
            assert(str_views(headers@) =~= spec_extract_headers(rows_view(rows@)));
        }
        return headers;
    }
    let first = &rows[0];
    let ghost cells = cells_view(first@);
    proof {
        assert(cells.take(0) =~= Seq::<CellV>::empty());
        assert(str_views(headers@) =~= spec_display_row(cells.take(0)));
    }
    let mut i: usize = 0;
    while i < first.len()
        invariant
            i <= first@.len(),
            cells == cells_view(first@),
            cells.len() == first@.len(),
            str_views(headers@) == spec_display_row(cells.take(i as int)),
        decreases first@.len() - i,
    {
        let ghost prev = headers@;
        let rendered = cell_display(&first[i]);
        headers.push(rendered);
        proof {
            crate::text::lemma_str_views_push(prev, rendered);
            lemma_display_row_push(cells.take(i as int), cells[i as int]);
            assert(cells.take(i + 1) =~= cells.take(i as int).push(cells[i as int]));
            assert(cells[i as int] == first@[i as int]@);
        }
        i += 1;
    }
    proof {
        assert(cells.take(first@.len() as int) =~= cells);
        assert(rows_view(rows@)[0] == cells_view(first@));
    }
    headers
}

/// Transcription of one row: every cell through the universal writer
/// conversion, column positions unchanged.
pub open spec fn spec_transcribe_row(row: Seq<CellV>) -> Seq<CellV> {
    row.map_values(|c: CellV| spec_transcribe_cell(c))
}

proof fn lemma_transcribe_row_push(row: Seq<CellV>, x: CellV)
    ensures
        spec_transcribe_row(row.push(x)) == spec_transcribe_row(row).push(spec_transcribe_cell(x)),
{
    assert(spec_transcribe_row(row.push(x)) =~= spec_transcribe_row(row).push(
        spec_transcribe_cell(x),
    ));
}

/// Transcription of a grid of rows: every cell converted, every position
/// preserved.
pub open spec fn spec_transcribe_rows(rows: Seq<Seq<CellV>>) -> Seq<Seq<CellV>> {
    rows.map_values(|row: Seq<CellV>| spec_transcribe_row(row))
}

proof fn lemma_transcribe_rows_push(rows: Seq<Seq<CellV>>, x: Seq<CellV>)
    ensures
        spec_transcribe_rows(rows.push(x)) == spec_transcribe_rows(rows).push(
            spec_transcribe_row(x),
        ),
{
    assert(spec_transcribe_rows(rows.push(x)) =~= spec_transcribe_rows(rows).push(
        spec_transcribe_row(x),
    ));
}

/// Transcription of a sheet: the name kept, every cell converted.
pub open spec fn spec_transcribe_sheet(s: SheetV) -> SheetV {
    SheetV { name: s.name, rows: spec_transcribe_rows(s.rows) }
}

/// Transcription of a workbook: every sheet in original order.
pub open spec fn spec_transcribe_workbook(wb: Seq<SheetV>) -> Seq<SheetV> {
    wb.map_values(|s: SheetV| spec_transcribe_sheet(s))
}

proof fn lemma_transcribe_workbook_push(wb: Seq<SheetV>, x: SheetV)
    ensures
        spec_transcribe_workbook(wb.push(x)) == spec_transcribe_workbook(wb).push(
            spec_transcribe_sheet(x),
        ),
{
    assert(spec_transcribe_workbook(wb.push(x)) =~= spec_transcribe_workbook(wb).push(
        spec_transcribe_sheet(x),
    ));
}

fn transcribe_rows(rows: &Vec<Vec<Cell>>) -> (out: Vec<Vec<Cell>>)
    ensures
        rows_view(out@) == spec_transcribe_rows(rows_view(rows@)),
{
    let ghost all = rows_view(rows@);
    let mut out: Vec<Vec<Cell>> = Vec::new();
    proof {
        assert(all.take(0) =~= Seq::<Seq<CellV>>::empty());
        assert(rows_view(out@) =~= spec_transcribe_rows(all.take(0)));
    }
    let mut r: usize = 0;
    while r < rows.len()
        invariant
            r <= rows@.len(),
            all == rows_view(rows@),
            all.len() == rows@.len(),
            rows_view(out@) == spec_transcribe_rows(all.take(r as int)),
        decreases rows@.len() - r,
    {
        let row = &rows[r];
        let ghost rcells = cells_view(row@);
        let mut new_row: Vec<Cell> = Vec::new();
        proof {
            assert(rcells.take(0) =~= Seq::<CellV>::empty());
            assert(cells_view(new_row@) =~= spec_transcribe_row(rcells.take(0)));
        }
        let mut c: usize = 0;
        while c < row.len()
            invariant
                c <= row@.len(),
                rcells == cells_view(row@),
                rcells.len() == row@.len(),
                cells_view(new_row@) == spec_transcribe_row(rcells.take(c as int)),
            decreases row@.len() - c,
        {
            let ghost prev = new_row@;
            let tcell = transcribe_cell(&row[c]);
            new_row.push(tcell);
            proof {
                lemma_cells_view_push(prev, tcell);
                lemma_transcribe_row_push(rcells.take(c as int), rcells[c as int]);
                assert(rcells.take(c + 1) =~= rcells.take(c as int).push(rcells[c as int]));
                assert(rcells[c as int] == row@[c as int]@);
            }
            c += 1;
        }
        proof {
            assert(rcells.take(row@.len() as int) =~= rcells);
        }
        let ghost prev_out = out@;
        out.push(new_row);
        proof {
            lemma_rows_view_push(prev_out, new_row);
            lemma_transcribe_rows_push(all.take(r as int), all[r as int]);
            assert(all.take(r + 1) =~= all.take(r as int).push(all[r as int]));
            assert(all[r as int] == cells_view(rows@[r as int]@));
        }
        r += 1;
    }
    proof {
        assert(all.take(rows@.len() as int) =~= all);
    }
    out
}

/// Transcribes one sheet: the identical name, every cell through the
/// universal writer conversion, row and column positions unchanged.
pub fn transcribe_sheet(s: &Sheet) -> (out: Sheet)
    ensures
        out@ == spec_transcribe_sheet(s@),
{
    Sheet { name: s.name.clone(), rows: transcribe_rows(&s.rows) }
}

/// Transcribes a whole workbook: every sheet in original order, each
/// under its original name, every cell through the universal writer.
pub fn transcribe_workbook(wb: &Workbook) -> (out: Workbook)
    ensures
        out@ == spec_transcribe_workbook(wb@),
{
    let ghost all = sheets_view(wb.sheets@);
    let mut sheets: Vec<Sheet> = Vec::new();
    proof {
        assert(all.take(0) =~= Seq::<SheetV>::empty());
        assert(sheets_view(sheets@) =~= spec_transcribe_workbook(all.take(0)));
    }
    let mut i: usize = 0;
    while i < wb.sheets.len()
        invariant
            i <= wb.sheets@.len(),
            all == sheets_view(wb.sheets@),
            all.len() == wb.sheets@.len(),
            sheets@.len() == i,
            sheets_view(sheets@) == spec_transcribe_workbook(all.take(i as int)),
        decreases wb.sheets@.len() - i,
    {
        let new_sheet = transcribe_sheet(&wb.sheets[i]);
        let ghost prev = sheets@;
        let ghost new_v = new_sheet@;
        sheets.push(new_sheet);
        proof {
            lemma_sheets_view_push(prev, sheets@[i as int]);
            assert(sheets@[i as int]@ == new_v);
            lemma_transcribe_workbook_push(all.take(i as int), all[i as int]);
            assert(all.take(i + 1) =~= all.take(i as int).push(all[i as int]));
            assert(all[i as int] == wb.sheets@[i as int]@);
        }
        i += 1;
    }
    proof {
        assert(all.take(wb.sheets@.len() as int) =~= all);
    }
    Workbook { sheets }
}

/// Transcribing a workbook twice gives exactly what transcribing it once
/// gives: re-saving an already transcribed workbook changes nothing.
pub proof fn lemma_transcribe_workbook_idempotent(wb: Seq<SheetV>)
    ensures
        spec_transcribe_workbook(spec_transcribe_workbook(wb)) == spec_transcribe_workbook(wb),
{
    let once = spec_transcribe_workbook(wb);
    let twice = spec_transcribe_workbook(once);
    assert forall|i: int| 0 <= i < wb.len() implies twice[i] == once[i] by {
        let rows1 = spec_transcribe_rows(wb[i].rows);
        let rows2 = spec_transcribe_rows(rows1);
        assert forall|r: int| 0 <= r < rows1.len() implies rows2[r] == rows1[r] by {
            assert forall|c: int| 0 <= c < rows1[r].len() implies rows2[r][c] == rows1[r][c] by {
                lemma_transcribe_cell_idempotent(wb[i].rows[r][c]);
            }
            assert(rows2[r] =~= rows1[r]);
        }
        assert(rows2 =~= rows1);
    }
    assert(twice =~= once);
}

/// Whether any cell anywhere in a workbook is an error marker.
pub open spec fn spec_wb_has_error(wb: Seq<SheetV>) -> bool {
    exists|s: int, r: int, c: int|
        0 <= s < wb.len() && 0 <= r < wb[s].rows.len() && 0 <= c < wb[s].rows[r].len()
            && (#[trigger] wb[s].rows[r][c]) is Error
}

/// Re-saving preserves rendering: for a workbook without error markers,
/// transcription keeps the sheet count, every sheet name, every row and
/// column extent, which cells are empty, and every non-empty cell's
/// display string, all at unchanged positions.  (An error marker is
/// written as a diagnostic string, which renders differently from the
/// marker itself, so such cells are excluded.)
pub proof fn lemma_resave_preserves_rendering(wb: Seq<SheetV>)
    requires
        !spec_wb_has_error(wb),
    ensures
        spec_transcribe_workbook(wb).len() == wb.len(),
        forall|s: int|
            0 <= s < wb.len() ==> #[trigger] spec_transcribe_workbook(wb)[s].name == wb[s].name,
        forall|s: int|
            0 <= s < wb.len() ==> #[trigger] spec_transcribe_workbook(wb)[s].rows.len()
                == wb[s].rows.len(),
        forall|s: int, r: int|
            0 <= s < wb.len() && 0 <= r < wb[s].rows.len()
                ==> (#[trigger] spec_transcribe_workbook(wb)[s].rows[r]).len()
                == wb[s].rows[r].len(),
        forall|s: int, r: int, c: int|
            0 <= s < wb.len() && 0 <= r < wb[s].rows.len() && 0 <= c < wb[s].rows[r].len() ==> ((
            #[trigger] spec_transcribe_workbook(wb)[s].rows[r][c]) is Empty <==> wb[s].rows[r][c]
                is Empty),
        forall|s: int, r: int, c: int|
            0 <= s < wb.len() && 0 <= r < wb[s].rows.len() && 0 <= c < wb[s].rows[r].len()
                ==> spec_cell_display(#[trigger] spec_transcribe_workbook(wb)[s].rows[r][c])
                == spec_cell_display(wb[s].rows[r][c]),
{
    let out = spec_transcribe_workbook(wb);
    assert forall|s: int, r: int, c: int|
        0 <= s < wb.len() && 0 <= r < wb[s].rows.len() && 0 <= c < wb[s].rows[r].len() implies ((
    #[trigger] out[s].rows[r][c]) is Empty <==> wb[s].rows[r][c] is Empty) && spec_cell_display(
        out[s].rows[r][c],
    ) == spec_cell_display(wb[s].rows[r][c]) by {
        assert(!(wb[s].rows[r][c] is Error));
        lemma_transcribe_cell_display(wb[s].rows[r][c]);
    }
}

/// One typed write at a destination position.
pub struct WriteOp {
    /// Destination row index, 0-based.
    pub row: u32,
    /// Destination column index, 0-based.
    pub col: u16,
    /// The typed content to write there.
    pub data: WriteData,
}

/// The mathematical value of one write.
pub struct WriteOpV {
    pub row: int,
    pub col: int,
    pub data: WriteDataV,
}

impl View for WriteOp {
    type V = WriteOpV;

    open spec fn view(&self) -> WriteOpV {
        WriteOpV { row: self.row as int, col: self.col as int, data: self.data@ }
    }
}

/// The mathematical values of a sequence of writes, element by element.
pub open spec fn ops_views(s: Seq<WriteOp>) -> Seq<WriteOpV> {
    s.map_values(|o: WriteOp| o@)
}

proof fn lemma_ops_views_push(s: Seq<WriteOp>, x: WriteOp)
    ensures
        ops_views(s.push(x)) == ops_views(s).push(x@),
{
    assert(ops_views(s.push(x)) =~= ops_views(s).push(x@));
}

/// The writes one cell contributes at position `(r, col)`: one typed
/// write for a non-empty cell, none for an empty one.
pub open spec fn spec_cell_ops(c: CellV, r: int, col: int) -> Seq<WriteOpV> {
    match spec_write_data(c) {
        Some(d) => seq![WriteOpV { row: r, col, data: d }],
        None => Seq::<WriteOpV>::empty(),
    }
}

/// The writes of one row starting at column `c0`, in column order.
pub open spec fn spec_row_ops(row: Seq<CellV>, r: int, c0: int) -> Seq<WriteOpV>
    decreases row.len(),
{
    if row.len() == 0 {
        Seq::<WriteOpV>::empty()
    } else {
        spec_cell_ops(row[0], r, c0) + spec_row_ops(row.drop_first(), r, c0 + 1)
    }
}

/// The writes of a grid of rows starting at row `r0`, row-major.
pub open spec fn spec_rows_ops(rows: Seq<Seq<CellV>>, r0: int) -> Seq<WriteOpV>
    decreases rows.len(),
{
    if rows.len() == 0 {
        Seq::<WriteOpV>::empty()
    } else {
        spec_row_ops(rows[0], r0, 0) + spec_rows_ops(rows.drop_first(), r0 + 1)
    }
}

/// The write plan of a sheet: the typed writes of all its cells in
/// row-major, column-minor order, skipping exactly the empty cells.
pub open spec fn spec_sheet_write_ops(rows: Seq<Seq<CellV>>) -> Seq<WriteOpV> {
    spec_rows_ops(rows, 0)
}

proof fn lemma_row_ops_push(row: Seq<CellV>, x: CellV, r: int, c0: int)
    ensures
        spec_row_ops(row.push(x), r, c0) == spec_row_ops(row, r, c0) + spec_cell_ops(
            x,
            r,
            c0 + row.len(),
        ),
    decreases row.len(),
{
    if row.len() == 0 {
        assert(row.push(x)[0] == x);
        assert(row.push(x).drop_first() =~= Seq::<CellV>::empty());
        assert(spec_row_ops(Seq::<CellV>::empty(), r, c0 + 1) == Seq::<WriteOpV>::empty());
        assert(spec_row_ops(row, r, c0) == Seq::<WriteOpV>::empty());
        assert(spec_row_ops(row.push(x), r, c0) =~= spec_row_ops(row, r, c0) + spec_cell_ops(
            x,
            r,
            c0 + row.len(),
        ));
    } else {
        assert(row.push(x).drop_first() =~= row.drop_first().push(x));
        lemma_row_ops_push(row.drop_first(), x, r, c0 + 1);
        assert(spec_row_ops(row.push(x), r, c0) =~= spec_row_ops(row, r, c0) + spec_cell_ops(
            x,
            r,
            c0 + row.len(),
        ));
    }
}

proof fn lemma_rows_ops_push(rows: Seq<Seq<CellV>>, x: Seq<CellV>, r0: int)
    ensures
        spec_rows_ops(rows.push(x), r0) == spec_rows_ops(rows, r0) + spec_row_ops(
            x,
            r0 + rows.len(),
            0,
        ),
    decreases rows.len(),
{
    if rows.len() == 0 {
        assert(rows.push(x)[0] == x);
        assert(rows.push(x).drop_first() =~= Seq::<Seq<CellV>>::empty());
        assert(spec_rows_ops(Seq::<Seq<CellV>>::empty(), r0 + 1) == Seq::<WriteOpV>::empty());
        assert(spec_rows_ops(rows, r0) == Seq::<WriteOpV>::empty());
        assert(spec_rows_ops(rows.push(x), r0) =~= spec_rows_ops(rows, r0) + spec_row_ops(
            x,
            r0 + rows.len(),
            0,
        ));
    } else {
        assert(rows.push(x).drop_first() =~= rows.drop_first().push(x));
        lemma_rows_ops_push(rows.drop_first(), x, r0 + 1);
        assert(spec_rows_ops(rows.push(x), r0) =~= spec_rows_ops(rows, r0) + spec_row_ops(
            x,
            r0 + rows.len(),
            0,
        ));
    }
}

/// Compiles a sheet's rows to its write plan: one typed write per
/// non-empty cell, row-major, column-minor, positions carried through
/// unchanged.  Row and column indices must fit the destination's index
/// types.
pub fn sheet_write_ops(rows: &Vec<Vec<Cell>>) -> (ops: Vec<WriteOp>)
    requires
        rows@.len() <= u32::MAX,
        forall|i: int| 0 <= i < rows@.len() ==> (#[trigger] rows@[i])@.len() <= 65536,
    ensures
        ops_views(ops@) == spec_sheet_write_ops(rows_view(rows@)),
{
    let ghost all = rows_view(rows@);
    let mut ops: Vec<WriteOp> = Vec::new();
    proof {
        assert(all.take(0) =~= Seq::<Seq<CellV>>::empty());
        assert(ops_views(ops@) =~= spec_rows_ops(all.take(0), 0));
    }
    let mut r: usize = 0;
    while r < rows.len()
        invariant
            r <= rows@.len(),
            rows@.len() <= u32::MAX,
            forall|i: int| 0 <= i < rows@.len() ==> (#[trigger] rows@[i])@.len() <= 65536,
            all == rows_view(rows@),
            all.len() == rows@.len(),
            ops_views(ops@) == spec_rows_ops(all.take(r as int), 0),
        decreases rows@.len() - r,
    {
        let row = &rows[r];
        let ghost rcells = cells_view(row@);
        let ghost row_start_ops = ops_views(ops@);
        proof {
            assert(rcells.take(0) =~= Seq::<CellV>::empty());
            assert(spec_row_ops(rcells.take(0), r as int, 0) == Seq::<WriteOpV>::empty());
            assert(row_start_ops + spec_row_ops(rcells.take(0), r as int, 0) =~= row_start_ops);
        }
        let mut c: usize = 0;
        while c < row.len()
            invariant
                c <= row@.len(),
                r < rows@.len(),
                rows@.len() <= u32::MAX,
                row@.len() <= 65536,
                rcells == cells_view(row@),
                rcells.len() == row@.len(),
                row_start_ops == spec_rows_ops(all.take(r as int), 0),
                all == rows_view(rows@),
                all.len() == rows@.len(),
                ops_views(ops@) == row_start_ops + spec_row_ops(rcells.take(c as int), r as int, 0),
            decreases row@.len() - c,
    {
            let ghost prefix = rcells.take(c as int);
            let data = cell_write_data(&row[c]);
            proof {
                lemma_row_ops_push(prefix, rcells[c as int], r as int, 0);
                assert(rcells.take(c + 1) =~= prefix.push(rcells[c as int]));
                assert(rcells[c as int] == row@[c as int]@);
            }
            match data {
                Some(d) => {
                    let op = WriteOp { row: r as u32, col: c as u16, data: d };
                    let ghost prev_ops = ops@;
                    ops.push(op);
                    proof {
                        lemma_ops_views_push(prev_ops, op);
                        assert(op@ == WriteOpV {
                            row: r as int,
                            col: c as int,
                            data: spec_write_data(rcells[c as int])->0,
                        });
                        assert(spec_cell_ops(rcells[c as int], r as int, c as int) =~= seq![op@]);
                        assert(ops_views(ops@) =~= row_start_ops + spec_row_ops(
                            rcells.take(c + 1),
                            r as int,
                            0,
                        ));
                    }
                },
                None => {
                    proof {
                        assert(spec_cell_ops(rcells[c as int], r as int, c as int)
                            == Seq::<WriteOpV>::empty());
                        assert(ops_views(ops@) =~= row_start_ops + spec_row_ops(
                            rcells.take(c + 1),
                            r as int,
                            0,
                        ));
                    }
                },
            }
            c += 1;
        }
        proof {
            assert(rcells.take(row@.len() as int) =~= rcells);
            lemma_rows_ops_push(all.take(r as int), rcells, 0);
            assert(all.take(r + 1) =~= all.take(r as int).push(all[r as int]));
            assert(all[r as int] == cells_view(rows@[r as int]@));
            assert(all.take(r as int).len() == r as int);
            assert(ops_views(ops@) =~= spec_rows_ops(all.take(r + 1), 0));
        }
        r += 1;
    }
    proof {
        assert(all.take(rows@.len() as int) =~= all);
    }
    ops
}

proof fn lemma_row_ops_transcribed(row: Seq<CellV>, r: int, c0: int)
    ensures
        spec_row_ops(spec_transcribe_row(row), r, c0) == spec_row_ops(row, r, c0),
    decreases row.len(),
{
    let mapped = spec_transcribe_row(row);
    if row.len() == 0 {
        assert(mapped =~= Seq::<CellV>::empty());
    } else {
        lemma_transcribe_cell_same_write(row[0]);
        lemma_row_ops_transcribed(row.drop_first(), r, c0 + 1);
        assert(mapped.drop_first() =~= spec_transcribe_row(row.drop_first()));
        assert(spec_cell_ops(mapped[0], r, c0) == spec_cell_ops(row[0], r, c0));
    }
}

proof fn lemma_rows_ops_transcribed(rows: Seq<Seq<CellV>>, r0: int)
    ensures
        spec_rows_ops(spec_transcribe_rows(rows), r0) == spec_rows_ops(rows, r0),
    decreases rows.len(),
{
    let mapped = spec_transcribe_rows(rows);
    if rows.len() == 0 {
        assert(mapped =~= Seq::<Seq<CellV>>::empty());
    } else {
        lemma_row_ops_transcribed(rows[0], r0, 0);
        lemma_rows_ops_transcribed(rows.drop_first(), r0 + 1);
        assert(mapped.drop_first() =~= spec_transcribe_rows(rows.drop_first()));
        assert(spec_rows_ops(mapped, r0) == spec_row_ops(mapped[0], r0, 0) + spec_rows_ops(
            mapped.drop_first(),
            r0 + 1,
        ));
    }
}

/// Re-saving writes the same content: the write plan of a transcribed
/// sheet is exactly the write plan of the original sheet.
pub proof fn lemma_write_ops_of_transcribed(rows: Seq<Seq<CellV>>)
    ensures
        spec_sheet_write_ops(spec_transcribe_rows(rows)) == spec_sheet_write_ops(rows),
{
    lemma_rows_ops_transcribed(rows, 0);
}

} // verus!
