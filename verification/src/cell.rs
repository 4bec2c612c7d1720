//! The typed cell value model.
//!
//! A cell holds one of six kinds of content: a signed integer, a
//! floating-point number (carried as its decimal rendering, so that the
//! verified core never manipulates machine floats), a text string, a
//! boolean, a date-time (carried as its rendered timestamp text), or an
//! error marker; or it is empty.  Every writer goes through one universal
//! conversion, [`spec_write_data`], which maps a cell to the typed write
//! it produces, and maps empty cells to no write at all.

use vstd::prelude::*;
use crate::text::{i64_text, spec_i64_text};

verus! {

/// The error markers a spreadsheet cell can hold.
#[derive(Clone, Copy, PartialEq, Eq, Debug)]
pub enum CellError {
    /// Division by zero.
    Div0,
    /// Unavailable value.
    Na,
    /// Invalid name.
    Name,
    /// Null value.
    Null,
    /// Bad number.
    Num,
    /// Invalid cell reference.
    Ref,
    /// Value error.
    Value,
    /// Data is still being fetched.
    GettingData,
}

/// The display form of an error marker, as a sheet shows it.
pub open spec fn spec_error_display(e: CellError) -> Seq<char> {
    match e {
        CellError::Div0 => "#DIV/0!"@,
        CellError::Na => "#N/A"@,
        CellError::Name => "#NAME?"@,
        CellError::Null => "#NULL!"@,
        CellError::Num => "#NUM!"@,
        CellError::Ref => "#REF!"@,
        CellError::Value => "#VALUE!"@,
        CellError::GettingData => "#DATA!"@,
    }
}

/// The diagnostic text an error marker is written as when a workbook is
/// transcribed: the marker's name behind an "ERROR: " tag.
pub open spec fn spec_error_write_text(e: CellError) -> Seq<char> {
    match e {
        CellError::Div0 => "ERROR: Div0"@,
        CellError::Na => "ERROR: NA"@,
        CellError::Name => "ERROR: Name"@,
        CellError::Null => "ERROR: Null"@,
        CellError::Num => "ERROR: Num"@,
        CellError::Ref => "ERROR: Ref"@,
        CellError::Value => "ERROR: Value"@,
        CellError::GettingData => "ERROR: GettingData"@,
    }
}

/// Returns the display form of an error marker.
pub fn error_display(e: CellError) -> (r: String)
    ensures
        r@ == spec_error_display(e),
{
    match e {
        CellError::Div0 => "#DIV/0!".to_owned(),
        CellError::Na => "#N/A".to_owned(),
        CellError::Name => "#NAME?".to_owned(),
        CellError::Null => "#NULL!".to_owned(),
        CellError::Num => "#NUM!".to_owned(),
        CellError::Ref => "#REF!".to_owned(),
        CellError::Value => "#VALUE!".to_owned(),
        CellError::GettingData => "#DATA!".to_owned(),
    }
}

/// Returns the diagnostic text an error marker is written as.
pub fn error_write_text(e: CellError) -> (r: String)
    ensures
        r@ == spec_error_write_text(e),
{
    match e {
        CellError::Div0 => "ERROR: Div0".to_owned(),
        CellError::Na => "ERROR: NA".to_owned(),
        CellError::Name => "ERROR: Name".to_owned(),
        CellError::Null => "ERROR: Null".to_owned(),
        CellError::Num => "ERROR: Num".to_owned(),
        CellError::Ref => "ERROR: Ref".to_owned(),
        CellError::Value => "ERROR: Value".to_owned(),
        CellError::GettingData => "ERROR: GettingData".to_owned(),
    }
}

/// One spreadsheet cell's typed content.
///
/// `Float` carries the number's decimal rendering and `DateTime` its
/// rendered timestamp text: the boundary that opens workbook files
/// converts machine values to these renderings and back, while the
/// verified core treats them as opaque text payloads.
#[derive(PartialEq, Eq, Debug)]
pub enum Cell {
    /// A 64-bit signed integer.
    Int(i64),
    /// A floating-point number, as its decimal rendering.
    Float(String),
    /// A text string.
    Text(String),
    /// A boolean.
    Bool(bool),
    /// A date or time, as its rendered timestamp text.
    DateTime(String),
    /// An error marker.
    Error(CellError),
    /// Absence of content; never written to output.
    Empty,
}

/// The mathematical value of a cell.
pub enum CellV {
    Int(int),
    Float(Seq<char>),
    Text(Seq<char>),
    Bool(bool),
    DateTime(Seq<char>),
    Error(CellError),
    Empty,
}

impl View for Cell {
    type V = CellV;

    open spec fn view(&self) -> CellV {
        match self {
            Cell::Int(i) => CellV::Int(*i as int),
            Cell::Float(t) => CellV::Float(t@),
            Cell::Text(s) => CellV::Text(s@),
            Cell::Bool(b) => CellV::Bool(*b),
            Cell::DateTime(t) => CellV::DateTime(t@),
            Cell::Error(e) => CellV::Error(*e),
            Cell::Empty => CellV::Empty,
        }
    }
}

impl DeepView for Cell {
    type V = CellV;

    open spec fn deep_view(&self) -> CellV {
        self.view()
    }
}

impl Clone for Cell {
    fn clone(&self) -> (r: Self)
        ensures
            r == *self,
    {
        match self {
            Cell::Int(i) => Cell::Int(*i),
            Cell::Float(t) => Cell::Float(t.clone()),
            Cell::Text(s) => Cell::Text(s.clone()),
            Cell::Bool(b) => Cell::Bool(*b),
            Cell::DateTime(t) => Cell::DateTime(t.clone()),
            Cell::Error(e) => Cell::Error(*e),
            Cell::Empty => Cell::Empty,
        }
    }
}

/// The mathematical values of a sequence of cells, element by element.
pub open spec fn cells_view(s: Seq<Cell>) -> Seq<CellV> {
    s.map_values(|c: Cell| c@)
}

/// Appending a cell appends its value to the views.
pub proof fn lemma_cells_view_push(s: Seq<Cell>, x: Cell)
    ensures
        cells_view(s.push(x)) == cells_view(s).push(x@),
{
    assert(cells_view(s.push(x)) =~= cells_view(s).push(x@));
}

/// The display-string form of a cell, as the header extractor renders it:
/// numbers, booleans, dates and errors are stringified, and an empty cell
/// shows as the empty string.
pub open spec fn spec_cell_display(c: CellV) -> Seq<char> {
    match c {
        CellV::Int(i) => spec_i64_text(i),
        CellV::Float(t) => t,
        CellV::Text(s) => s,
        CellV::Bool(b) => if b {
            "true"@
        } else {
            "false"@
        },
        CellV::DateTime(t) => t,
        CellV::Error(e) => spec_error_display(e),
        CellV::Empty => Seq::<char>::empty(),
    }
}

/// Renders a cell to its display-string form.
pub fn cell_display(c: &Cell) -> (r: String)
    ensures
        r@ == spec_cell_display(c@),
{
    match c {
        Cell::Int(i) => i64_text(*i),
        Cell::Float(t) => t.clone(),
        Cell::Text(s) => s.clone(),
        Cell::Bool(b) => if *b {
            "true".to_owned()
        } else {
            "false".to_owned()
        },
        Cell::DateTime(t) => t.clone(),
        Cell::Error(e) => error_display(*e),
        Cell::Empty => String::new(),
    }
}

/// One typed write into a destination worksheet cell.
#[derive(PartialEq, Eq, Debug)]
pub enum WriteData {
    /// Write a number cell holding this integer value.
    Int(i64),
    /// Write a number cell holding the value this text renders.
    Number(String),
    /// Write a string cell.
    Text(String),
    /// Write a boolean cell.
    Bool(bool),
}

/// The mathematical value of a typed write.
pub enum WriteDataV {
    Int(int),
    Number(Seq<char>),
    Text(Seq<char>),
    Bool(bool),
}

impl View for WriteData {
    type V = WriteDataV;

    open spec fn view(&self) -> WriteDataV {
        match self {
            WriteData::Int(i) => WriteDataV::Int(*i as int),
            WriteData::Number(t) => WriteDataV::Number(t@),
            WriteData::Text(s) => WriteDataV::Text(s@),
            WriteData::Bool(b) => WriteDataV::Bool(*b),
        }
    }
}

impl DeepView for WriteData {
    type V = WriteDataV;

    open spec fn deep_view(&self) -> WriteDataV {
        self.view()
    }
}

/// The universal writer conversion: the typed write a cell produces, or
/// `None` for an empty cell, which is skipped entirely.
///
/// Integers and floating-point renderings become number cells, booleans
/// become boolean cells, text stays text, and date-times and error
/// markers are coerced to their rendered text.
pub open spec fn spec_write_data(c: CellV) -> Option<WriteDataV> {
    match c {
        CellV::Int(i) => Some(WriteDataV::Int(i)),
        CellV::Float(t) => Some(WriteDataV::Number(t)),
        CellV::Text(s) => Some(WriteDataV::Text(s)),
        CellV::Bool(b) => Some(WriteDataV::Bool(b)),
        CellV::DateTime(t) => Some(WriteDataV::Text(t)),
        CellV::Error(e) => Some(WriteDataV::Text(spec_error_write_text(e))),
        CellV::Empty => None,
    }
}

/// Computes the typed write a cell produces, or `None` for an empty cell.
pub fn cell_write_data(c: &Cell) -> (r: Option<WriteData>)
    ensures
        r.deep_view() == spec_write_data(c@),
{
    match c {
        Cell::Int(i) => Some(WriteData::Int(*i)),
        Cell::Float(t) => Some(WriteData::Number(t.clone())),
        Cell::Text(s) => Some(WriteData::Text(s.clone())),
        Cell::Bool(b) => Some(WriteData::Bool(*b)),
        Cell::DateTime(t) => Some(WriteData::Text(t.clone())),
        Cell::Error(e) => Some(WriteData::Text(error_write_text(*e))),
        Cell::Empty => None,
    }
}

/// What transcription turns a cell into: date-times and error markers
/// are coerced to text through the universal writer's rendering, every
/// other kind is kept, and empty cells stay absent.
pub open spec fn spec_transcribe_cell(c: CellV) -> CellV {
    match c {
        CellV::DateTime(t) => CellV::Text(t),
        CellV::Error(e) => CellV::Text(spec_error_write_text(e)),
        _ => c,
    }
}

/// Transcribes one cell.
pub fn transcribe_cell(c: &Cell) -> (r: Cell)
    ensures
        r@ == spec_transcribe_cell(c@),
{
    match c {
        Cell::DateTime(t) => Cell::Text(t.clone()),
        Cell::Error(e) => Cell::Text(error_write_text(*e)),
        Cell::Int(i) => Cell::Int(*i),
        Cell::Float(t) => Cell::Float(t.clone()),
        Cell::Text(s) => Cell::Text(s.clone()),
        Cell::Bool(b) => Cell::Bool(*b),
        Cell::Empty => Cell::Empty,
    }
}

/// Transcribing a cell twice gives the same cell as transcribing it once:
/// the universal writer's image is a fixed point.
pub proof fn lemma_transcribe_cell_idempotent(c: CellV)
    ensures
        spec_transcribe_cell(spec_transcribe_cell(c)) == spec_transcribe_cell(c),
{
}

/// Transcription does not change the write a cell produces: writing a
/// transcribed cell writes exactly what the original cell would.
pub proof fn lemma_transcribe_cell_same_write(c: CellV)
    ensures
        spec_write_data(spec_transcribe_cell(c)) == spec_write_data(c),
{
}

/// Transcription keeps a cell's emptiness, and for every kind except an
/// error marker it keeps the cell's display string too.
pub proof fn lemma_transcribe_cell_display(c: CellV)
    ensures
        spec_transcribe_cell(c) is Empty <==> c is Empty,
        !(c is Error) ==> spec_cell_display(spec_transcribe_cell(c)) == spec_cell_display(c),
{
}

} // verus!
