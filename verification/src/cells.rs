use vstd::prelude::*;

use crate::numbers::i64_text;

verus! {

/// One spreadsheet cell, as the decoder sees it.
///
/// A numeric cell with a finite fractional value keeps both the value
/// truncated toward zero (what integer columns take) and the cell's
/// display text (what textual and fractional columns take).  A numeric
/// cell without a finite value carries only its display text, and no
/// numeric column accepts it: it must never be conflated with zero or any
/// other number.  Date, time, duration and error cells arrive as their
/// display text.
#[derive(Debug)]
pub enum Cell {
    Empty,
    Bool(bool),
    Int(i64),
    Num { trunc: i64, text: String },
    NonFinite(String),
    Text(String),
}

/// The mathematical shape of a cell.
pub enum CellView {
    Empty,
    Bool(bool),
    Int(int),
    Num { trunc: int, text: Seq<char> },
    NonFinite(Seq<char>),
    Text(Seq<char>),
}

impl View for Cell {
    type V = CellView;

    open spec fn view(&self) -> CellView {
        match self {
            Cell::Empty => CellView::Empty,
            Cell::Bool(b) => CellView::Bool(*b),
            Cell::Int(i) => CellView::Int(*i as int),
            Cell::Num { trunc, text } => CellView::Num { trunc: *trunc as int, text: text@ },
            Cell::NonFinite(t) => CellView::NonFinite(t@),
            Cell::Text(s) => CellView::Text(s@),
        }
    }
}

impl DeepView for Cell {
    type V = CellView;

    open spec fn deep_view(&self) -> CellView {
        self.view()
    }
}

/// A cell rendered to its textual form, the value a string column takes:
/// nothing for an empty cell, the words `true` and `false` for booleans,
/// decimal text for integers, and the carried text otherwise.
pub open spec fn cell_text(c: CellView) -> Seq<char> {
    match c {
        CellView::Empty => Seq::empty(),
        CellView::Bool(b) => if b {
            "true"@
        } else {
            "false"@
        },
        CellView::Int(i) => i64_text(i),
        CellView::Num { trunc, text } => text,
        CellView::NonFinite(t) => t,
        CellView::Text(s) => s,
    }
}

/// Renders a cell to its textual form.
pub fn render_cell(c: &Cell) -> (r: String)
    ensures
        r@ == cell_text(c@),
{
    match c {
        Cell::Empty => String::new(),
        Cell::Bool(b) => {
            if *b {
                "true".to_owned()
            } else {
                "false".to_owned()
            }
        },
        Cell::Int(i) => crate::numbers::render_i64(*i),
        Cell::Num { trunc, text } => text.clone(),
        Cell::NonFinite(t) => t.clone(),
        Cell::Text(s) => s.clone(),
    }
}

} // verus!
