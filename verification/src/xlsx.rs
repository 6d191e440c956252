use vstd::prelude::*;

use calamine::{open_workbook_auto_from_rs, Data, Reader};
use std::io::Cursor;

use crate::cells::{Cell, CellView};
use crate::errors::{IngestError, SheetId};
use crate::text::str_eq_str;

verus! {

/// A raw tabular range: a grid of cells whose first row holds the column
/// names.
pub type RawTable = Vec<Vec<Cell>>;

/// The two raw tables extracted from an edition's spreadsheet.
#[derive(Debug)]
pub struct XlsxData {
    pub uebernachtungen_nach_herkunftsland: RawTable,
    pub uebernachtungen_pro_land: RawTable,
}

/// What the spreadsheet library reads as the workbook's sheet names, in
/// workbook order; `None` when the bytes do not open as a workbook.
pub uninterp spec fn workbook_sheet_names(b: Seq<u8>) -> Option<Seq<Seq<char>>>;

/// What the spreadsheet library reads as the named sheet's cell grid;
/// `None` when the bytes do not open or no sheet has that name.
pub uninterp spec fn sheet_cells(b: Seq<u8>, name: Seq<char>) -> Option<Seq<Seq<CellView>>>;

/// Relies on calamine's `open_workbook_auto_from_rs` and
/// `Reader::sheet_names`: the sheet names of the workbook parsed from the
/// bytes, in workbook order.
#[verifier::external_body]
fn read_sheet_names(bytes: &[u8]) -> (r: Option<Vec<String>>)
    ensures
        r.deep_view() == workbook_sheet_names(bytes@),
{
    let wb = open_workbook_auto_from_rs(Cursor::new(bytes)).ok()?;
    Some(wb.sheet_names())
}

/// Relies on calamine's `open_workbook_auto_from_rs`,
/// `Reader::worksheet_range`, `Range::rows` and the `Display` of `Data`
/// cell values: the named sheet's grid, each cell carried over one for
/// one.  A finite fractional cell keeps its value truncated toward zero
/// and its display text; one without a finite value keeps only its
/// display text, in the variant every numeric column refuses; date,
/// duration and error cells keep their display text.
#[verifier::external_body]
fn read_sheet_cells(bytes: &[u8], name: &str) -> (r: Option<Vec<Vec<Cell>>>)
    ensures
        r.deep_view() == sheet_cells(bytes@, name@),
{
    let range = open_workbook_auto_from_rs(Cursor::new(bytes)).ok()?.worksheet_range(name).ok()?;
    let mut grid = Vec::new();
    for row in range.rows() {
        grid.push(row.iter().map(|d| match d {
            Data::Empty => Cell::Empty,
            Data::Bool(b) => Cell::Bool(*b),
            Data::Int(i) => Cell::Int(*i),
            Data::Float(f) if f.is_finite() => Cell::Num { trunc: *f as i64, text: f.to_string() },
            Data::Float(f) => Cell::NonFinite(f.to_string()),
            Data::String(s) => Cell::Text(s.clone()),
            d => Cell::Text(d.to_string()),
        }).collect());
    }
    Some(grid)
}

/// Whether one of the names equals the target.
fn names_contain(names: &Vec<String>, target: &str) -> (r: bool)
    ensures
        r == names.deep_view().contains(target@),
{
    let mut i: usize = 0;
    while i < names.len()
        invariant
            0 <= i <= names.len(),
            forall|k: int| 0 <= k < i ==> names.deep_view()[k] != target@,
        decreases names.len() - i,
    {
        if str_eq_str(names[i].as_str(), target) {
            proof {
                assert(names.deep_view()[i as int] == target@);
            }
            return true;
        }
        i += 1;
    }
    proof {
        assert(!names.deep_view().contains(target@));
    }
    false
}

/// How an edition's workbook resolves to its two raw tables: the bytes
/// must open, the workbook must have sheets, and both required sheets
/// must be present by exact name.
pub open spec fn spec_load_xlsx(b: Seq<u8>) -> Result<
    (Seq<Seq<CellView>>, Seq<Seq<CellView>>),
    IngestError,
> {
    match workbook_sheet_names(b) {
        Option::None => Err(IngestError::SchemaUnreadableWorkbook),
        Option::Some(names) => {
            if names.len() == 0 {
                Err(IngestError::SchemaNoSheets)
            } else if !names.contains(SheetId::NachHerkunftsland.spec_name()) {
                Err(IngestError::SchemaSheetMissing { sheet: SheetId::NachHerkunftsland })
            } else if !names.contains(SheetId::ProLand.spec_name()) {
                Err(IngestError::SchemaSheetMissing { sheet: SheetId::ProLand })
            } else {
                match (
                    sheet_cells(b, SheetId::NachHerkunftsland.spec_name()),
                    sheet_cells(b, SheetId::ProLand.spec_name()),
                ) {
                    (Option::Some(a), Option::Some(c)) => Ok((a, c)),
                    _ => Err(IngestError::SchemaUnreadableWorkbook),
                }
            }
        },
    }
}

/// Opens the spreadsheet bytes and extracts the two required sheets'
/// full cell ranges, failing with the schema error that names what is
/// missing.
pub fn load_xlsx_file(bytes: &[u8]) -> (r: Result<XlsxData, IngestError>)
    ensures
        match spec_load_xlsx(bytes@) {
            Ok(grids) => r matches Ok(x) && x.uebernachtungen_nach_herkunftsland.deep_view()
                == grids.0 && x.uebernachtungen_pro_land.deep_view() == grids.1,
            Err(e) => r == Err::<XlsxData, IngestError>(e),
        },
{
    let names = match read_sheet_names(bytes) {
        Option::None => {
            return Err(IngestError::SchemaUnreadableWorkbook);
        },
        Option::Some(names) => names,
    };
    if names.len() == 0 {
        return Err(IngestError::SchemaNoSheets);
    }
    if !names_contain(&names, SheetId::NachHerkunftsland.name()) {
        return Err(IngestError::SchemaSheetMissing { sheet: SheetId::NachHerkunftsland });
    }
    if !names_contain(&names, SheetId::ProLand.name()) {
        return Err(IngestError::SchemaSheetMissing { sheet: SheetId::ProLand });
    }
    let first = match read_sheet_cells(bytes, SheetId::NachHerkunftsland.name()) {
        Option::None => {
            return Err(IngestError::SchemaUnreadableWorkbook);
        },
        Option::Some(g) => g,
    };
    let second = match read_sheet_cells(bytes, SheetId::ProLand.name()) {
        Option::None => {
            return Err(IngestError::SchemaUnreadableWorkbook);
        },
        Option::Some(g) => g,
    };
    Ok(
        XlsxData {
            uebernachtungen_nach_herkunftsland: first,
            uebernachtungen_pro_land: second,
        },
    )
}

} // verus!
