use vstd::prelude::*;

use crate::cells::{cell_text, render_cell, Cell, CellView};
use crate::errors::{ColumnId, IngestError};
use crate::numbers::{i64_text, is_float_str, is_float_text, parse_i64, parse_i64_spec, render_i64};
use crate::text::{str_eq_str, trim_spec, trim_str};
use crate::xlsx::RawTable;

verus! {

// ---------------------------------------------------------------------------
// The two record kinds
// ---------------------------------------------------------------------------
/// One row of the overnight-stays-by-origin-region table.
///
/// The three percentage and duration columns carry fractional values; they
/// are held as validated numeric text, exactly as the cell presented them.
#[derive(Debug, PartialEq)]
pub struct UebernachtungenNachHerkunftslandStruct {
    pub herkunftsregion: String,
    pub jahr: i64,
    pub monat: String,
    pub ankuenfte_anzahl: Option<i64>,
    pub ankuenfte_veraenderung_zum_vorjahreszeitraum_prozent: Option<String>,
    pub uebernachtungen_anzahl: Option<i64>,
    pub uebernachtungen_veraenderung_zum_vorjahreszeitraum_prozent: Option<String>,
    pub durchsch_aufenthaltsdauer_tage: Option<String>,
}

/// One row of the overnight-stays-by-country table.
#[derive(Debug, PartialEq)]
pub struct UebernachtungenProLandStruct {
    pub land: String,
    pub wohnsitz: String,
    pub jahr: i64,
    pub monat: String,
    pub ankuenfte_anzahl: Option<i64>,
    pub ankuenfte_veraenderung_zum_vorjahreszeitraum_prozent: Option<String>,
    pub uebernachtungen_anzahl: Option<i64>,
    pub uebernachtungen_veraenderung_zum_vorjahreszeitraum_prozent: Option<String>,
    pub durchsch_aufenthaltsdauer_tage: Option<String>,
}

/// An optional machine integer, as a mathematical value.
pub open spec fn opt_int(o: Option<i64>) -> Option<int> {
    match o {
        Option::Some(v) => Option::Some(v as int),
        Option::None => Option::None,
    }
}

/// An optional string, as a mathematical value.
pub open spec fn opt_seq(o: Option<String>) -> Option<Seq<char>> {
    match o {
        Option::Some(s) => Option::Some(s@),
        Option::None => Option::None,
    }
}

/// The mathematical shape of an origin-region row.
pub struct HerkunftslandV {
    pub herkunftsregion: Seq<char>,
    pub jahr: int,
    pub monat: Seq<char>,
    pub ankuenfte_anzahl: Option<int>,
    pub ankuenfte_veraenderung: Option<Seq<char>>,
    pub uebernachtungen_anzahl: Option<int>,
    pub uebernachtungen_veraenderung: Option<Seq<char>>,
    pub durchsch_aufenthaltsdauer: Option<Seq<char>>,
}

/// The mathematical shape of a by-country row.
pub struct ProLandV {
    pub land: Seq<char>,
    pub wohnsitz: Seq<char>,
    pub jahr: int,
    pub monat: Seq<char>,
    pub ankuenfte_anzahl: Option<int>,
    pub ankuenfte_veraenderung: Option<Seq<char>>,
    pub uebernachtungen_anzahl: Option<int>,
    pub uebernachtungen_veraenderung: Option<Seq<char>>,
    pub durchsch_aufenthaltsdauer: Option<Seq<char>>,
}

impl View for UebernachtungenNachHerkunftslandStruct {
    type V = HerkunftslandV;

    open spec fn view(&self) -> HerkunftslandV {
        HerkunftslandV {
            herkunftsregion: self.herkunftsregion@,
            jahr: self.jahr as int,
            monat: self.monat@,
            ankuenfte_anzahl: opt_int(self.ankuenfte_anzahl),
            ankuenfte_veraenderung: opt_seq(
                self.ankuenfte_veraenderung_zum_vorjahreszeitraum_prozent,
            ),
            uebernachtungen_anzahl: opt_int(self.uebernachtungen_anzahl),
            uebernachtungen_veraenderung: opt_seq(
                self.uebernachtungen_veraenderung_zum_vorjahreszeitraum_prozent,
            ),
            durchsch_aufenthaltsdauer: opt_seq(self.durchsch_aufenthaltsdauer_tage),
        }
    }
}

impl DeepView for UebernachtungenNachHerkunftslandStruct {
    type V = HerkunftslandV;

    open spec fn deep_view(&self) -> HerkunftslandV {
        self.view()
    }
}

impl View for UebernachtungenProLandStruct {
    type V = ProLandV;

    open spec fn view(&self) -> ProLandV {
        ProLandV {
            land: self.land@,
            wohnsitz: self.wohnsitz@,
            jahr: self.jahr as int,
            monat: self.monat@,
            ankuenfte_anzahl: opt_int(self.ankuenfte_anzahl),
            ankuenfte_veraenderung: opt_seq(
                self.ankuenfte_veraenderung_zum_vorjahreszeitraum_prozent,
            ),
            uebernachtungen_anzahl: opt_int(self.uebernachtungen_anzahl),
            uebernachtungen_veraenderung: opt_seq(
                self.uebernachtungen_veraenderung_zum_vorjahreszeitraum_prozent,
            ),
            durchsch_aufenthaltsdauer: opt_seq(self.durchsch_aufenthaltsdauer_tage),
        }
    }
}

impl DeepView for UebernachtungenProLandStruct {
    type V = ProLandV;

    open spec fn deep_view(&self) -> ProLandV {
        self.view()
    }
}

// ---------------------------------------------------------------------------
// Header-name-driven cell lookup
// ---------------------------------------------------------------------------
/// The column names of a header row: each cell's text, trimmed.
pub open spec fn header_names(row: Seq<CellView>) -> Seq<Seq<char>> {
    row.map_values(|c: CellView| trim_spec(cell_text(c)))
}

/// The greatest index below `n` whose header equals `name`, or -1: when a
/// name repeats, the later column wins, as building a map by insertion
/// makes it.
pub open spec fn last_col(headers: Seq<Seq<char>>, name: Seq<char>, n: int) -> int
    decreases n,
{
    if n <= 0 {
        -1
    } else if headers[n - 1] == name {
        n - 1
    } else {
        last_col(headers, name, n - 1)
    }
}

/// The cell a data row presents under a column name.  Only columns the row
/// reaches take part: a short row loses its trailing columns.
pub open spec fn lookup_cell(
    headers: Seq<Seq<char>>,
    row: Seq<CellView>,
    name: Seq<char>,
) -> Option<CellView> {
    let n = if headers.len() <= row.len() {
        headers.len() as int
    } else {
        row.len() as int
    };
    let i = last_col(headers, name, n);
    if i < 0 {
        Option::None
    } else {
        Option::Some(row[i])
    }
}

/// Skipping headers that do not match leaves the winning column unchanged.
proof fn lemma_last_col_skip(headers: Seq<Seq<char>>, name: Seq<char>, i: int, n: int)
    requires
        0 <= i <= n <= headers.len(),
        forall|k: int| i <= k < n ==> headers[k] != name,
    ensures
        last_col(headers, name, n) == last_col(headers, name, i),
    decreases n - i,
{
    if n > i {
        lemma_last_col_skip(headers, name, i, n - 1);
    }
}

/// Builds the trimmed column names of a header row.
pub fn header_row_names(row: &Vec<Cell>) -> (r: Vec<String>)
    ensures
        r.deep_view() == header_names(row.deep_view()),
{
    let mut out: Vec<String> = Vec::new();
    let mut i: usize = 0;
    while i < row.len()
        invariant
            0 <= i <= row.len(),
            out.deep_view().len() == i,
            forall|k: int|
                0 <= k < i ==> out.deep_view()[k] == trim_spec(cell_text(row.deep_view()[k])),
        decreases row.len() - i,
    {
        let rendered = render_cell(&row[i]);
        let trimmed = trim_str(rendered.as_str());
        let ghost old_deep = out.deep_view();
        let ghost tv = trimmed@;
        out.push(trimmed);
        proof {
            assert(out.deep_view() =~= old_deep.push(tv));
        }
        i += 1;
    }
    proof {
        assert(out.deep_view() =~= header_names(row.deep_view()));
    }
    out
}

/// Finds the cell a data row presents under a column name.
pub fn find_cell<'a>(headers: &Vec<String>, row: &'a Vec<Cell>, name: &str) -> (r: Option<
    &'a Cell,
>)
    ensures
        match lookup_cell(headers.deep_view(), row.deep_view(), name@) {
            Option::Some(cv) => r matches Some(c) && c@ == cv,
            Option::None => r is None,
        },
{
    let ghost h = headers.deep_view();
    let ghost n0 = if h.len() <= row.deep_view().len() {
        h.len() as int
    } else {
        row.deep_view().len() as int
    };
    let n: usize = if headers.len() <= row.len() {
        headers.len()
    } else {
        row.len()
    };
    let mut i: usize = n;
    while i > 0
        invariant
            0 <= i <= n,
            n == n0,
            h == headers.deep_view(),
            n0 == if h.len() <= row.deep_view().len() {
                h.len() as int
            } else {
                row.deep_view().len() as int
            },
            n0 <= h.len(),
            n <= row.len(),
            forall|k: int| i <= k < n ==> h[k] != name@,
        decreases i,
    {
        if str_eq_str(headers[i - 1].as_str(), name) {
            proof {
                assert(h[i - 1] == name@);
                lemma_last_col_skip(h, name@, i as int, n0);
                assert(last_col(h, name@, i as int) == i - 1);
                assert(row.deep_view()[i - 1] == row@[i - 1]@);
            }
            return Some(&row[i - 1]);
        }
        proof {
            assert(h[i - 1] != name@);
        }
        i -= 1;
    }
    proof {
        lemma_last_col_skip(h, name@, 0, n0);
        assert(last_col(h, name@, 0) == -1);
    }
    None
}

// ---------------------------------------------------------------------------
// Per-field coercion rules
// ---------------------------------------------------------------------------
/// The placeholder strings that mean "value intentionally absent" in an
/// optional numeric column; distinct both from zero and from a parse
/// failure.
pub open spec fn is_sentinel(s: Seq<char>) -> bool {
    s == "."@ || s == "-"@ || s == "X"@
}

/// Runtime test for [`is_sentinel`].
pub fn sentinel(s: &str) -> (r: bool)
    ensures
        r == is_sentinel(s@),
{
    str_eq_str(s, ".") || str_eq_str(s, "-") || str_eq_str(s, "X")
}

/// A required integer column takes numeric cells only; finite fractional
/// values are truncated toward zero, a numeric cell without a finite
/// value refuses to decode like everything else.
pub open spec fn spec_required_i64(c: CellView) -> Option<int> {
    match c {
        CellView::Int(i) => Option::Some(i),
        CellView::Num { trunc, text } => Option::Some(trunc),
        CellView::NonFinite(_) => Option::None,
        _ => Option::None,
    }
}

/// An optional integer column additionally takes sentinel strings as an
/// absent value and parses any other string as a decimal integer; a
/// numeric cell without a finite value refuses to decode.
pub open spec fn spec_optional_i64(c: CellView) -> Option<Option<int>> {
    match c {
        CellView::Int(i) => Option::Some(Option::Some(i)),
        CellView::Num { trunc, text } => Option::Some(Option::Some(trunc)),
        CellView::NonFinite(_) => Option::None,
        CellView::Text(s) => if is_sentinel(s) {
            Option::Some(Option::None)
        } else {
            match parse_i64_spec(s) {
                Option::Some(v) => Option::Some(Option::Some(v as int)),
                Option::None => Option::None,
            }
        },
        _ => Option::None,
    }
}

/// An optional fractional column keeps a finite numeric cell's text,
/// takes sentinel strings as an absent value, and accepts any other
/// string that reads as a number; a numeric cell without a finite value
/// refuses to decode, though its words would pass the string grammar.
pub open spec fn spec_optional_numtext(c: CellView) -> Option<Option<Seq<char>>> {
    match c {
        CellView::Int(i) => Option::Some(Option::Some(i64_text(i))),
        CellView::Num { trunc, text } => Option::Some(Option::Some(text)),
        CellView::NonFinite(_) => Option::None,
        CellView::Text(s) => if is_sentinel(s) {
            Option::Some(Option::None)
        } else if is_float_text(s) {
            Option::Some(Option::Some(s))
        } else {
            Option::None
        },
        _ => Option::None,
    }
}

/// Coerces a required integer cell; `None` refuses the cell.
pub fn de_as_i64(c: &Cell) -> (r: Option<i64>)
    ensures
        opt_int(r) == spec_required_i64(c@),
{
    match c {
        Cell::Int(i) => Some(*i),
        Cell::Num { trunc, text } => Some(*trunc),
        _ => None,
    }
}

/// Coerces an optional integer cell; the outer `None` refuses the cell,
/// the inner one is the absent value a sentinel stands for.
pub fn de_as_i64_option(c: &Cell) -> (r: Option<Option<i64>>)
    ensures
        match spec_optional_i64(c@) {
            Option::Some(o) => r matches Some(x) && opt_int(x) == o,
            Option::None => r is None,
        },
{
    match c {
        Cell::Int(i) => Some(Some(*i)),
        Cell::Num { trunc, text } => Some(Some(*trunc)),
        Cell::Text(s) => {
            if sentinel(s.as_str()) {
                Some(None)
            } else {
                match parse_i64(s.as_str()) {
                    Some(v) => Some(Some(v)),
                    None => None,
                }
            }
        },
        _ => None,
    }
}

/// Coerces an optional fractional cell to its numeric text; the outer
/// `None` refuses the cell.
pub fn de_as_f64_option(c: &Cell) -> (r: Option<Option<String>>)
    ensures
        match spec_optional_numtext(c@) {
            Option::Some(o) => r matches Some(x) && opt_seq(x) == o,
            Option::None => r is None,
        },
{
    match c {
        Cell::Int(i) => Some(Some(render_i64(*i))),
        Cell::Num { trunc, text } => Some(Some(text.clone())),
        Cell::Text(s) => {
            if sentinel(s.as_str()) {
                Some(None)
            } else if is_float_str(s.as_str()) {
                Some(Some(s.clone()))
            } else {
                None
            }
        },
        _ => None,
    }
}

// ---------------------------------------------------------------------------
// Field extraction over a row
// ---------------------------------------------------------------------------
/// The cell under a column, or the schema error naming the absent column.
pub open spec fn field_cell(
    h: Seq<Seq<char>>,
    row: Seq<CellView>,
    col: ColumnId,
    rix: int,
) -> Result<CellView, IngestError> {
    match lookup_cell(h, row, col.spec_name()) {
        Option::Some(c) => Ok(c),
        Option::None => Err(IngestError::SchemaColumnMissing { column: col, row: rix as usize }),
    }
}

/// A string column: the cell's text, untrimmed at decode time.
pub open spec fn text_field(
    h: Seq<Seq<char>>,
    row: Seq<CellView>,
    col: ColumnId,
    rix: int,
) -> Result<Seq<char>, IngestError> {
    match field_cell(h, row, col, rix) {
        Err(e) => Err(e),
        Ok(c) => Ok(cell_text(c)),
    }
}

/// A required integer column.
pub open spec fn req_i64_field(
    h: Seq<Seq<char>>,
    row: Seq<CellView>,
    col: ColumnId,
    rix: int,
) -> Result<int, IngestError> {
    match field_cell(h, row, col, rix) {
        Err(e) => Err(e),
        Ok(c) => match spec_required_i64(c) {
            Option::Some(v) => Ok(v),
            Option::None => Err(IngestError::DecodeError { column: col, row: rix as usize }),
        },
    }
}

/// An optional integer column.
pub open spec fn opt_i64_field(
    h: Seq<Seq<char>>,
    row: Seq<CellView>,
    col: ColumnId,
    rix: int,
) -> Result<Option<int>, IngestError> {
    match field_cell(h, row, col, rix) {
        Err(e) => Err(e),
        Ok(c) => match spec_optional_i64(c) {
            Option::Some(v) => Ok(v),
            Option::None => Err(IngestError::DecodeError { column: col, row: rix as usize }),
        },
    }
}

/// An optional fractional column.
pub open spec fn numtext_field(
    h: Seq<Seq<char>>,
    row: Seq<CellView>,
    col: ColumnId,
    rix: int,
) -> Result<Option<Seq<char>>, IngestError> {
    match field_cell(h, row, col, rix) {
        Err(e) => Err(e),
        Ok(c) => match spec_optional_numtext(c) {
            Option::Some(v) => Ok(v),
            Option::None => Err(IngestError::DecodeError { column: col, row: rix as usize }),
        },
    }
}

/// Extracts a string column from a row.
fn take_text(headers: &Vec<String>, row: &Vec<Cell>, col: ColumnId, rix: usize) -> (r: Result<
    String,
    IngestError,
>)
    ensures
        match text_field(headers.deep_view(), row.deep_view(), col, rix as int) {
            Ok(s) => r matches Ok(x) && x@ == s,
            Err(e) => r == Err::<String, IngestError>(e),
        },
{
    match find_cell(headers, row, col.name()) {
        Option::None => Err(IngestError::SchemaColumnMissing { column: col, row: rix }),
        Option::Some(c) => Ok(render_cell(c)),
    }
}

/// Extracts a required integer column from a row.
fn take_req_i64(headers: &Vec<String>, row: &Vec<Cell>, col: ColumnId, rix: usize) -> (r: Result<
    i64,
    IngestError,
>)
    ensures
        match req_i64_field(headers.deep_view(), row.deep_view(), col, rix as int) {
            Ok(v) => r matches Ok(x) && x as int == v,
            Err(e) => r == Err::<i64, IngestError>(e),
        },
{
    match find_cell(headers, row, col.name()) {
        Option::None => Err(IngestError::SchemaColumnMissing { column: col, row: rix }),
        Option::Some(c) => match de_as_i64(c) {
            Option::Some(v) => Ok(v),
            Option::None => Err(IngestError::DecodeError { column: col, row: rix }),
        },
    }
}

/// Extracts an optional integer column from a row.
fn take_opt_i64(headers: &Vec<String>, row: &Vec<Cell>, col: ColumnId, rix: usize) -> (r: Result<
    Option<i64>,
    IngestError,
>)
    ensures
        match opt_i64_field(headers.deep_view(), row.deep_view(), col, rix as int) {
            Ok(v) => r matches Ok(x) && opt_int(x) == v,
            Err(e) => r == Err::<Option<i64>, IngestError>(e),
        },
{
    match find_cell(headers, row, col.name()) {
        Option::None => Err(IngestError::SchemaColumnMissing { column: col, row: rix }),
        Option::Some(c) => match de_as_i64_option(c) {
            Option::Some(v) => Ok(v),
            Option::None => Err(IngestError::DecodeError { column: col, row: rix }),
        },
    }
}

/// Extracts an optional fractional column from a row.
fn take_numtext(headers: &Vec<String>, row: &Vec<Cell>, col: ColumnId, rix: usize) -> (r: Result<
    Option<String>,
    IngestError,
>)
    ensures
        match numtext_field(headers.deep_view(), row.deep_view(), col, rix as int) {
            Ok(v) => r matches Ok(x) && opt_seq(x) == v,
            Err(e) => r == Err::<Option<String>, IngestError>(e),
        },
{
    match find_cell(headers, row, col.name()) {
        Option::None => Err(IngestError::SchemaColumnMissing { column: col, row: rix }),
        Option::Some(c) => match de_as_f64_option(c) {
            Option::Some(v) => Ok(v),
            Option::None => Err(IngestError::DecodeError { column: col, row: rix }),
        },
    }
}

} // verus!

verus! {

// ---------------------------------------------------------------------------
// Row decoding
// ---------------------------------------------------------------------------
/// How one data row decodes to an origin-region record: fields are
/// extracted by column name, in declaration order, the first failure
/// aborting the row with its column and row named.
pub open spec fn spec_decode_origin_row(
    h: Seq<Seq<char>>,
    row: Seq<CellView>,
    rix: int,
) -> Result<HerkunftslandV, IngestError> {
    match text_field(h, row, ColumnId::Herkunftsregion, rix) {
        Err(e) => Err(e),
        Ok(region) => match req_i64_field(h, row, ColumnId::Jahr, rix) {
            Err(e) => Err(e),
            Ok(jahr) => match text_field(h, row, ColumnId::Monat, rix) {
                Err(e) => Err(e),
                Ok(monat) => match opt_i64_field(h, row, ColumnId::AnkuenfteAnzahl, rix) {
                    Err(e) => Err(e),
                    Ok(ank) => match numtext_field(h, row, ColumnId::AnkuenfteVeraenderung, rix) {
                        Err(e) => Err(e),
                        Ok(ankp) => match opt_i64_field(
                            h,
                            row,
                            ColumnId::UebernachtungenAnzahl,
                            rix,
                        ) {
                            Err(e) => Err(e),
                            Ok(ueb) => match numtext_field(
                                h,
                                row,
                                ColumnId::UebernachtungenVeraenderung,
                                rix,
                            ) {
                                Err(e) => Err(e),
                                Ok(uebp) => match numtext_field(
                                    h,
                                    row,
                                    ColumnId::DurchschAufenthaltsdauer,
                                    rix,
                                ) {
                                    Err(e) => Err(e),
                                    Ok(dauer) => Ok(
                                        HerkunftslandV {
                                            herkunftsregion: region,
                                            jahr: jahr,
                                            monat: monat,
                                            ankuenfte_anzahl: ank,
                                            ankuenfte_veraenderung: ankp,
                                            uebernachtungen_anzahl: ueb,
                                            uebernachtungen_veraenderung: uebp,
                                            durchsch_aufenthaltsdauer: dauer,
                                        },
                                    ),
                                },
                            },
                        },
                    },
                },
            },
        },
    }
}

/// How one data row decodes to a by-country record.
pub open spec fn spec_decode_country_row(
    h: Seq<Seq<char>>,
    row: Seq<CellView>,
    rix: int,
) -> Result<ProLandV, IngestError> {
    match text_field(h, row, ColumnId::Land, rix) {
        Err(e) => Err(e),
        Ok(land) => match text_field(h, row, ColumnId::Wohnsitz, rix) {
            Err(e) => Err(e),
            Ok(wohnsitz) => match req_i64_field(h, row, ColumnId::Jahr, rix) {
                Err(e) => Err(e),
                Ok(jahr) => match text_field(h, row, ColumnId::Monat, rix) {
                    Err(e) => Err(e),
                    Ok(monat) => match opt_i64_field(h, row, ColumnId::AnkuenfteAnzahl, rix) {
                        Err(e) => Err(e),
                        Ok(ank) => match numtext_field(
                            h,
                            row,
                            ColumnId::AnkuenfteVeraenderung,
                            rix,
                        ) {
                            Err(e) => Err(e),
                            Ok(ankp) => match opt_i64_field(
                                h,
                                row,
                                ColumnId::UebernachtungenAnzahl,
                                rix,
                            ) {
                                Err(e) => Err(e),
                                Ok(ueb) => match numtext_field(
                                    h,
                                    row,
                                    ColumnId::UebernachtungenVeraenderung,
                                    rix,
                                ) {
                                    Err(e) => Err(e),
                                    Ok(uebp) => match numtext_field(
                                        h,
                                        row,
                                        ColumnId::DurchschAufenthaltsdauer,
                                        rix,
                                    ) {
                                        Err(e) => Err(e),
                                        Ok(dauer) => Ok(
                                            ProLandV {
                                                land: land,
                                                wohnsitz: wohnsitz,
                                                jahr: jahr,
                                                monat: monat,
                                                ankuenfte_anzahl: ank,
                                                ankuenfte_veraenderung: ankp,
                                                uebernachtungen_anzahl: ueb,
                                                uebernachtungen_veraenderung: uebp,
                                                durchsch_aufenthaltsdauer: dauer,
                                            },
                                        ),
                                    },
                                },
                            },
                        },
                    },
                },
            },
        },
    }
}

/// Decodes one data row into an origin-region record.
pub fn decode_origin_row(headers: &Vec<String>, row: &Vec<Cell>, rix: usize) -> (r: Result<
    UebernachtungenNachHerkunftslandStruct,
    IngestError,
>)
    ensures
        match spec_decode_origin_row(headers.deep_view(), row.deep_view(), rix as int) {
            Ok(v) => r matches Ok(x) && x@ == v,
            Err(e) => r == Err::<UebernachtungenNachHerkunftslandStruct, IngestError>(e),
        },
{
    let region = match take_text(headers, row, ColumnId::Herkunftsregion, rix) {
        Ok(v) => v,
        Err(e) => {
            return Err(e);
        },
    };
    let jahr = match take_req_i64(headers, row, ColumnId::Jahr, rix) {
        Ok(v) => v,
        Err(e) => {
            return Err(e);
        },
    };
    let monat = match take_text(headers, row, ColumnId::Monat, rix) {
        Ok(v) => v,
        Err(e) => {
            return Err(e);
        },
    };
    let ank = match take_opt_i64(headers, row, ColumnId::AnkuenfteAnzahl, rix) {
        Ok(v) => v,
        Err(e) => {
            return Err(e);
        },
    };
    let ankp = match take_numtext(headers, row, ColumnId::AnkuenfteVeraenderung, rix) {
        Ok(v) => v,
        Err(e) => {
            return Err(e);
        },
    };
    let ueb = match take_opt_i64(headers, row, ColumnId::UebernachtungenAnzahl, rix) {
        Ok(v) => v,
        Err(e) => {
            return Err(e);
        },
    };
    let uebp = match take_numtext(headers, row, ColumnId::UebernachtungenVeraenderung, rix) {
        Ok(v) => v,
        Err(e) => {
            return Err(e);
        },
    };
    let dauer = match take_numtext(headers, row, ColumnId::DurchschAufenthaltsdauer, rix) {
        Ok(v) => v,
        Err(e) => {
            return Err(e);
        },
    };
    Ok(
        UebernachtungenNachHerkunftslandStruct {
            herkunftsregion: region,
            jahr,
            monat,
            ankuenfte_anzahl: ank,
            ankuenfte_veraenderung_zum_vorjahreszeitraum_prozent: ankp,
            uebernachtungen_anzahl: ueb,
            uebernachtungen_veraenderung_zum_vorjahreszeitraum_prozent: uebp,
            durchsch_aufenthaltsdauer_tage: dauer,
        },
    )
}

/// Decodes one data row into a by-country record.
pub fn decode_country_row(headers: &Vec<String>, row: &Vec<Cell>, rix: usize) -> (r: Result<
    UebernachtungenProLandStruct,
    IngestError,
>)
    ensures
        match spec_decode_country_row(headers.deep_view(), row.deep_view(), rix as int) {
            Ok(v) => r matches Ok(x) && x@ == v,
            Err(e) => r == Err::<UebernachtungenProLandStruct, IngestError>(e),
        },
{
    let land = match take_text(headers, row, ColumnId::Land, rix) {
        Ok(v) => v,
        Err(e) => {
            return Err(e);
        },
    };
    let wohnsitz = match take_text(headers, row, ColumnId::Wohnsitz, rix) {
        Ok(v) => v,
        Err(e) => {
            return Err(e);
        },
    };
    let jahr = match take_req_i64(headers, row, ColumnId::Jahr, rix) {
        Ok(v) => v,
        Err(e) => {
            return Err(e);
        },
    };
    let monat = match take_text(headers, row, ColumnId::Monat, rix) {
        Ok(v) => v,
        Err(e) => {
            return Err(e);
        },
    };
    let ank = match take_opt_i64(headers, row, ColumnId::AnkuenfteAnzahl, rix) {
        Ok(v) => v,
        Err(e) => {
            return Err(e);
        },
    };
    let ankp = match take_numtext(headers, row, ColumnId::AnkuenfteVeraenderung, rix) {
        Ok(v) => v,
        Err(e) => {
            return Err(e);
        },
    };
    let ueb = match take_opt_i64(headers, row, ColumnId::UebernachtungenAnzahl, rix) {
        Ok(v) => v,
        Err(e) => {
            return Err(e);
        },
    };
    let uebp = match take_numtext(headers, row, ColumnId::UebernachtungenVeraenderung, rix) {
        Ok(v) => v,
        Err(e) => {
            return Err(e);
        },
    };
    let dauer = match take_numtext(headers, row, ColumnId::DurchschAufenthaltsdauer, rix) {
        Ok(v) => v,
        Err(e) => {
            return Err(e);
        },
    };
    Ok(
        UebernachtungenProLandStruct {
            land,
            wohnsitz,
            jahr,
            monat,
            ankuenfte_anzahl: ank,
            ankuenfte_veraenderung_zum_vorjahreszeitraum_prozent: ankp,
            uebernachtungen_anzahl: ueb,
            uebernachtungen_veraenderung_zum_vorjahreszeitraum_prozent: uebp,
            durchsch_aufenthaltsdauer_tage: dauer,
        },
    )
}

} // verus!

verus! {

// ---------------------------------------------------------------------------
// Table decoding
// ---------------------------------------------------------------------------
/// How the data rows from `i` on decode to origin-region records, left to
/// right, the first failing row aborting the whole table.
pub open spec fn spec_decode_origin_rows(
    h: Seq<Seq<char>>,
    t: Seq<Seq<CellView>>,
    i: int,
) -> Result<Seq<HerkunftslandV>, IngestError>
    decreases t.len() - i,
{
    if i < 1 || i >= t.len() {
        Ok(Seq::empty())
    } else {
        match spec_decode_origin_row(h, t[i], i) {
            Err(e) => Err(e),
            Ok(v) => match spec_decode_origin_rows(h, t, i + 1) {
                Err(e) => Err(e),
                Ok(vs) => Ok(seq![v] + vs),
            },
        }
    }
}

/// How a raw table decodes to origin-region records: row 0 names the
/// columns; every further row is projected by name.
pub open spec fn spec_parse_origin_table(t: Seq<Seq<CellView>>) -> Result<
    Seq<HerkunftslandV>,
    IngestError,
> {
    if t.len() == 0 {
        Err(IngestError::SchemaNoHeaderRow)
    } else {
        spec_decode_origin_rows(header_names(t[0]), t, 1)
    }
}

/// How the data rows from `i` on decode to by-country records.
pub open spec fn spec_decode_country_rows(
    h: Seq<Seq<char>>,
    t: Seq<Seq<CellView>>,
    i: int,
) -> Result<Seq<ProLandV>, IngestError>
    decreases t.len() - i,
{
    if i < 1 || i >= t.len() {
        Ok(Seq::empty())
    } else {
        match spec_decode_country_row(h, t[i], i) {
            Err(e) => Err(e),
            Ok(v) => match spec_decode_country_rows(h, t, i + 1) {
                Err(e) => Err(e),
                Ok(vs) => Ok(seq![v] + vs),
            },
        }
    }
}

/// How a raw table decodes to by-country records.
pub open spec fn spec_parse_country_table(t: Seq<Seq<CellView>>) -> Result<
    Seq<ProLandV>,
    IngestError,
> {
    if t.len() == 0 {
        Err(IngestError::SchemaNoHeaderRow)
    } else {
        spec_decode_country_rows(header_names(t[0]), t, 1)
    }
}

/// Decodes a raw table into origin-region records, tolerating reordered
/// columns and failing on a missing column or an uncoercible cell.
pub fn parse_range_herkunftsland(table: &RawTable) -> (r: Result<
    Vec<UebernachtungenNachHerkunftslandStruct>,
    IngestError,
>)
    ensures
        match spec_parse_origin_table(table.deep_view()) {
            Ok(vs) => r matches Ok(v) && v.deep_view() == vs,
            Err(e) => r == Err::<Vec<UebernachtungenNachHerkunftslandStruct>, IngestError>(e),
        },
{
    let ghost t = table.deep_view();
    if table.len() == 0 {
        return Err(IngestError::SchemaNoHeaderRow);
    }
    let headers = header_row_names(&table[0]);
    proof {
        assert(table.deep_view()[0] == table@[0].deep_view());
        assert(headers.deep_view() == header_names(t[0]));
    }
    let ghost h = headers.deep_view();
    let mut out: Vec<UebernachtungenNachHerkunftslandStruct> = Vec::new();
    let mut i: usize = 1;
    while i < table.len()
        invariant
            1 <= i <= table.len(),
            t == table.deep_view(),
            t.len() == table@.len(),
            t.len() > 0,
            h == headers.deep_view(),
            h == header_names(t[0]),
            spec_decode_origin_rows(h, t, 1) == (match spec_decode_origin_rows(h, t, i as int) {
                Err(e) => Err::<Seq<HerkunftslandV>, IngestError>(e),
                Ok(vs) => Ok::<Seq<HerkunftslandV>, IngestError>(out.deep_view() + vs),
            }),
        decreases table.len() - i,
    {
        let row = &table[i];
        proof {
            assert(t[i as int] == table@[i as int].deep_view());
        }
        match decode_origin_row(&headers, row, i) {
            Err(e) => {
                proof {
                    assert(spec_decode_origin_rows(h, t, i as int) == Err::<
                        Seq<HerkunftslandV>,
                        IngestError,
                    >(e));
                }
                return Err(e);
            },
            Ok(v) => {
                let ghost old_out = out.deep_view();
                let ghost vv = v@;
                out.push(v);
                proof {
                    assert(out.deep_view() =~= old_out.push(vv));
                    match spec_decode_origin_rows(h, t, i + 1) {
                        Err(e) => {},
                        Ok(vs) => {
                            assert(old_out + (seq![vv] + vs) =~= out.deep_view() + vs);
                        },
                    }
                }
            },
        }
        i += 1;
    }
    proof {
        assert(spec_decode_origin_rows(h, t, i as int) == Ok::<Seq<HerkunftslandV>, IngestError>(
            Seq::empty(),
        ));
        assert(out.deep_view() + Seq::<HerkunftslandV>::empty() =~= out.deep_view());
    }
    Ok(out)
}

/// Decodes a raw table into by-country records.
pub fn parse_range_pro_land(table: &RawTable) -> (r: Result<
    Vec<UebernachtungenProLandStruct>,
    IngestError,
>)
    ensures
        match spec_parse_country_table(table.deep_view()) {
            Ok(vs) => r matches Ok(v) && v.deep_view() == vs,
            Err(e) => r == Err::<Vec<UebernachtungenProLandStruct>, IngestError>(e),
        },
{
    let ghost t = table.deep_view();
    if table.len() == 0 {
        return Err(IngestError::SchemaNoHeaderRow);
    }
    let headers = header_row_names(&table[0]);
    proof {
        assert(table.deep_view()[0] == table@[0].deep_view());
        assert(headers.deep_view() == header_names(t[0]));
    }
    let ghost h = headers.deep_view();
    let mut out: Vec<UebernachtungenProLandStruct> = Vec::new();
    let mut i: usize = 1;
    while i < table.len()
        invariant
            1 <= i <= table.len(),
            t == table.deep_view(),
            t.len() == table@.len(),
            t.len() > 0,
            h == headers.deep_view(),
            h == header_names(t[0]),
            spec_decode_country_rows(h, t, 1) == (match spec_decode_country_rows(h, t, i as int) {
                Err(e) => Err::<Seq<ProLandV>, IngestError>(e),
                Ok(vs) => Ok::<Seq<ProLandV>, IngestError>(out.deep_view() + vs),
            }),
        decreases table.len() - i,
    {
        let row = &table[i];
        proof {
            assert(t[i as int] == table@[i as int].deep_view());
        }
        match decode_country_row(&headers, row, i) {
            Err(e) => {
                proof {
                    assert(spec_decode_country_rows(h, t, i as int) == Err::<
                        Seq<ProLandV>,
                        IngestError,
                    >(e));
                }
                return Err(e);
            },
            Ok(v) => {
                let ghost old_out = out.deep_view();
                let ghost vv = v@;
                out.push(v);
                proof {
                    assert(out.deep_view() =~= old_out.push(vv));
                    match spec_decode_country_rows(h, t, i + 1) {
                        Err(e) => {},
                        Ok(vs) => {
                            assert(old_out + (seq![vv] + vs) =~= out.deep_view() + vs);
                        },
                    }
                }
            },
        }
        i += 1;
    }
    proof {
        assert(spec_decode_country_rows(h, t, i as int) == Ok::<Seq<ProLandV>, IngestError>(
            Seq::empty(),
        ));
        assert(out.deep_view() + Seq::<ProLandV>::empty() =~= out.deep_view());
    }
    Ok(out)
}

// ---------------------------------------------------------------------------
// Decoding laws
// ---------------------------------------------------------------------------
/// Decoding is a function of the raw table alone: decoding equal tables,
/// as decoding one table twice does, yields structurally equal record
/// sequences and equal failures.
pub proof fn lemma_decode_deterministic(t1: Seq<Seq<CellView>>, t2: Seq<Seq<CellView>>)
    requires
        t1 == t2,
    ensures
        spec_parse_origin_table(t1) == spec_parse_origin_table(t2),
        spec_parse_country_table(t1) == spec_parse_country_table(t2),
{
}

/// A sentinel string in an optional numeric column always decodes to the
/// absent value: never to zero, and never to a failure.
pub proof fn lemma_sentinel_decodes_absent(c: CellView)
    requires
        c matches CellView::Text(s) && is_sentinel(s),
    ensures
        spec_optional_i64(c) == Option::Some(Option::<int>::None),
        spec_optional_numtext(c) == Option::Some(Option::<Seq<char>>::None),
{
}

/// A numeric cell without a finite value never decodes to a number: the
/// required and the optional integer coercions and the fractional
/// coercion all refuse it, so no column conflates it with zero.
pub proof fn lemma_non_finite_never_a_number(c: CellView)
    requires
        c matches CellView::NonFinite(_),
    ensures
        spec_required_i64(c) is None,
        spec_optional_i64(c) is None,
        spec_optional_numtext(c) is None,
{
}

/// A required integer column never defaults: any cell that is not numeric
/// refuses to decode, and the row fails with the decode error naming the
/// column and row.
pub proof fn lemma_required_non_numeric_fails(
    h: Seq<Seq<char>>,
    row: Seq<CellView>,
    col: ColumnId,
    rix: int,
)
    requires
        lookup_cell(h, row, col.spec_name()) matches Some(c) && !(c matches CellView::Int(_))
            && !(c matches CellView::Num { .. }),
    ensures
        req_i64_field(h, row, col, rix) == Err::<int, IngestError>(
            IngestError::DecodeError { column: col, row: rix as usize },
        ),
{
}

} // verus!

verus! {

// ---------------------------------------------------------------------------
// Column order does not matter
// ---------------------------------------------------------------------------
/// The winning column is the unique match when one exists.
proof fn lemma_last_col_found(headers: Seq<Seq<char>>, name: Seq<char>, n: int, i: int)
    requires
        0 <= i < n <= headers.len(),
        headers[i] == name,
        forall|k: int| 0 <= k < n && k != i ==> headers[k] != name,
    ensures
        last_col(headers, name, n) == i,
{
    lemma_last_col_skip(headers, name, i + 1, n);
}

/// Without a match, no column wins.
proof fn lemma_last_col_none(headers: Seq<Seq<char>>, name: Seq<char>, n: int)
    requires
        0 <= n <= headers.len(),
        forall|k: int| 0 <= k < n ==> headers[k] != name,
    ensures
        last_col(headers, name, n) == -1,
{
    lemma_last_col_skip(headers, name, 0, n);
}

/// Some position is sent to `i` by the reordering.
pub open spec fn perm_hits(p: Seq<int>, i: int) -> bool {
    exists|j: int| 0 <= j < p.len() && #[trigger] p[j] == i
}

/// A reordering of `n` columns: position `j` takes what stood at `p[j]`,
/// one source per target and every source taken.
pub open spec fn is_col_permutation(p: Seq<int>, n: int) -> bool {
    p.len() == n && (forall|j: int| 0 <= j < n ==> 0 <= #[trigger] p[j] < n) && (forall|
        j1: int,
        j2: int,
    |
        0 <= j1 < j2 < n ==> p[j1] != p[j2]) && (forall|i: int|
        0 <= i < n ==> #[trigger] perm_hits(p, i))
}

/// Reordering the columns of a row, header names and cells together,
/// changes no lookup, as long as the names are pairwise distinct and the
/// row reaches every column: projection is by name, not by position.
pub proof fn lemma_lookup_permuted(
    h1: Seq<Seq<char>>,
    row1: Seq<CellView>,
    h2: Seq<Seq<char>>,
    row2: Seq<CellView>,
    p: Seq<int>,
    name: Seq<char>,
)
    requires
        h1.len() == row1.len(),
        h2.len() == row2.len(),
        h2.len() == h1.len(),
        is_col_permutation(p, h1.len() as int),
        forall|j: int| 0 <= j < h1.len() ==> #[trigger] h2[j] == h1[p[j]],
        forall|j: int| 0 <= j < h1.len() ==> #[trigger] row2[j] == row1[p[j]],
        forall|i1: int, i2: int| 0 <= i1 < i2 < h1.len() ==> h1[i1] != h1[i2],
    ensures
        lookup_cell(h1, row1, name) == lookup_cell(h2, row2, name),
{
    let n = h1.len() as int;
    if exists|i: int| 0 <= i < n && #[trigger] h1[i] == name {
        let i = choose|i: int| 0 <= i < n && #[trigger] h1[i] == name;
        assert(forall|k: int| 0 <= k < n && k != i ==> h1[k] != name);
        lemma_last_col_found(h1, name, n, i);
        assert(perm_hits(p, i));
        let j = choose|j: int| 0 <= j < p.len() && #[trigger] p[j] == i;
        assert(h2[j] == name);
        assert forall|k: int| 0 <= k < n && k != j implies h2[k] != name by {
            assert(h2[k] == h1[p[k]]);
            if p[k] == i {
                if k < j {
                    assert(p[k] != p[j]);
                } else {
                    assert(p[j] != p[k]);
                }
            }
        }
        lemma_last_col_found(h2, name, n, j);
        assert(row2[j] == row1[i]);
    } else {
        assert(forall|k: int| 0 <= k < n ==> h1[k] != name);
        lemma_last_col_none(h1, name, n);
        assert forall|k: int| 0 <= k < n implies h2[k] != name by {
            assert(h2[k] == h1[p[k]]);
        }
        lemma_last_col_none(h2, name, n);
    }
}

} // verus!

verus! {

/// Row decoding sees a row only through named lookups: two rows that
/// present the same cell under every column name decode identically, for
/// both record kinds.
pub proof fn lemma_decode_row_by_name(
    h1: Seq<Seq<char>>,
    row1: Seq<CellView>,
    h2: Seq<Seq<char>>,
    row2: Seq<CellView>,
    rix: int,
)
    requires
        forall|name: Seq<char>| #[trigger] lookup_cell(h1, row1, name) == lookup_cell(
            h2,
            row2,
            name,
        ),
    ensures
        spec_decode_origin_row(h1, row1, rix) == spec_decode_origin_row(h2, row2, rix),
        spec_decode_country_row(h1, row1, rix) == spec_decode_country_row(h2, row2, rix),
{
    assert(lookup_cell(h1, row1, ColumnId::Herkunftsregion.spec_name()) == lookup_cell(
        h2,
        row2,
        ColumnId::Herkunftsregion.spec_name(),
    ));
    assert(lookup_cell(h1, row1, ColumnId::Land.spec_name()) == lookup_cell(
        h2,
        row2,
        ColumnId::Land.spec_name(),
    ));
    assert(lookup_cell(h1, row1, ColumnId::Wohnsitz.spec_name()) == lookup_cell(
        h2,
        row2,
        ColumnId::Wohnsitz.spec_name(),
    ));
    assert(lookup_cell(h1, row1, ColumnId::Jahr.spec_name()) == lookup_cell(
        h2,
        row2,
        ColumnId::Jahr.spec_name(),
    ));
    assert(lookup_cell(h1, row1, ColumnId::Monat.spec_name()) == lookup_cell(
        h2,
        row2,
        ColumnId::Monat.spec_name(),
    ));
    assert(lookup_cell(h1, row1, ColumnId::AnkuenfteAnzahl.spec_name()) == lookup_cell(
        h2,
        row2,
        ColumnId::AnkuenfteAnzahl.spec_name(),
    ));
    assert(lookup_cell(h1, row1, ColumnId::AnkuenfteVeraenderung.spec_name()) == lookup_cell(
        h2,
        row2,
        ColumnId::AnkuenfteVeraenderung.spec_name(),
    ));
    assert(lookup_cell(h1, row1, ColumnId::UebernachtungenAnzahl.spec_name()) == lookup_cell(
        h2,
        row2,
        ColumnId::UebernachtungenAnzahl.spec_name(),
    ));
    assert(lookup_cell(h1, row1, ColumnId::UebernachtungenVeraenderung.spec_name()) == lookup_cell(
        h2,
        row2,
        ColumnId::UebernachtungenVeraenderung.spec_name(),
    ));
    assert(lookup_cell(h1, row1, ColumnId::DurchschAufenthaltsdauer.spec_name()) == lookup_cell(
        h2,
        row2,
        ColumnId::DurchschAufenthaltsdauer.spec_name(),
    ));
}

} // verus!

verus! {

/// The shape hypothesis of a column reordering of a whole table: equal
/// height, every row of both tables reaching every one of the `n`
/// columns, and row `r` of `t2` presenting at `j` what row `r` of `t1`
/// presents at `p[j]`.
pub open spec fn cols_permuted(
    t1: Seq<Seq<CellView>>,
    t2: Seq<Seq<CellView>>,
    p: Seq<int>,
    n: int,
) -> bool {
    t1.len() == t2.len() && (forall|r: int|
        0 <= r < t1.len() ==> (#[trigger] t1[r]).len() == n) && (forall|r: int|
        0 <= r < t2.len() ==> (#[trigger] t2[r]).len() == n) && (forall|r: int, j: int|
        0 <= r < t2.len() && 0 <= j < n ==> #[trigger] t2[r][j] == t1[r][p[j]])
}

/// Pairwise-distinct column names.
pub open spec fn distinct_names(h: Seq<Seq<char>>) -> bool {
    forall|i1: int, i2: int| 0 <= i1 < i2 < h.len() ==> h[i1] != h[i2]
}

/// The induction behind column-order invariance: from any starting row,
/// the reordered table's rows decode as the original's do.
proof fn lemma_decode_rows_permuted(
    h1: Seq<Seq<char>>,
    t1: Seq<Seq<CellView>>,
    h2: Seq<Seq<char>>,
    t2: Seq<Seq<CellView>>,
    p: Seq<int>,
    i: int,
)
    requires
        t1.len() > 0,
        h1 == header_names(t1[0]),
        h2 == header_names(t2[0]),
        cols_permuted(t1, t2, p, h1.len() as int),
        is_col_permutation(p, h1.len() as int),
        distinct_names(h1),
    ensures
        spec_decode_origin_rows(h1, t1, i) == spec_decode_origin_rows(h2, t2, i),
        spec_decode_country_rows(h1, t1, i) == spec_decode_country_rows(h2, t2, i),
    decreases t1.len() - i,
{
    let n = h1.len() as int;
    assert(t1[0].len() == n);
    assert(h2.len() == t2[0].len());
    assert forall|j: int| 0 <= j < n implies #[trigger] h2[j] == h1[p[j]] by {
        assert(t2[0][j] == t1[0][p[j]]);
    }
    if i < 1 || i >= t1.len() {
    } else {
        assert forall|name: Seq<char>| #[trigger] lookup_cell(h1, t1[i], name) == lookup_cell(
            h2,
            t2[i],
            name,
        ) by {
            lemma_lookup_permuted(h1, t1[i], h2, t2[i], p, name);
        }
        lemma_decode_row_by_name(h1, t1[i], h2, t2[i], i);
        lemma_decode_rows_permuted(h1, t1, h2, t2, p, i + 1);
    }
}

/// Reordering the columns of a raw table, header cell and data cells
/// moved together, changes nothing about what it decodes to, for both
/// record kinds, provided the trimmed column names are pairwise distinct
/// and every row reaches every column.  (Those provisos are where order
/// genuinely matters: of a repeated name the later column wins, and a
/// short row loses its trailing columns by position.)
pub proof fn lemma_reordered_columns_decode_equal(
    t1: Seq<Seq<CellView>>,
    t2: Seq<Seq<CellView>>,
    p: Seq<int>,
)
    requires
        t1.len() > 0,
        cols_permuted(t1, t2, p, t1[0].len() as int),
        is_col_permutation(p, t1[0].len() as int),
        distinct_names(header_names(t1[0])),
    ensures
        spec_parse_origin_table(t1) == spec_parse_origin_table(t2),
        spec_parse_country_table(t1) == spec_parse_country_table(t2),
{
    let h1 = header_names(t1[0]);
    let h2 = header_names(t2[0]);
    assert(h1.len() == t1[0].len());
    lemma_decode_rows_permuted(h1, t1, h2, t2, p, 1);
}

} // verus!
