use vstd::prelude::*;

verus! {

/// The two sheets that every edition's spreadsheet must contain.
#[derive(Clone, Copy, Debug, PartialEq, Eq, Structural)]
pub enum SheetId {
    /// Sheet `csv-45412-07`, overnight stays by origin region.
    NachHerkunftsland,
    /// Sheet `csv-45412-08`, overnight stays by country and residence.
    ProLand,
}

/// The columns that the two record kinds are projected from, by header name.
#[derive(Clone, Copy, Debug, PartialEq, Eq, Structural)]
pub enum ColumnId {
    Herkunftsregion,
    Land,
    Wohnsitz,
    Jahr,
    Monat,
    AnkuenfteAnzahl,
    AnkuenfteVeraenderung,
    UebernachtungenAnzahl,
    UebernachtungenVeraenderung,
    DurchschAufenthaltsdauer,
}

/// Everything that can abort an ingestion run.
///
/// The variants group into the error kinds of the design: transport
/// failures, structural drift of the catalog page, a missing container
/// object, malformed metadata, a spreadsheet that cannot be read or lacks
/// an expected sheet or column, a cell that cannot be coerced, and a
/// failed transactional write.
#[derive(Clone, Copy, Debug, PartialEq, Eq, Structural)]
pub enum IngestError {
    /// Transport failure or non-2xx response; raised by the I/O layer.
    NetworkError,
    /// The catalog page lacks the addressed list container.
    ParseNoContainer,
    /// A catalog item's leading four characters are not a year of digits.
    ParseBadYear { item: usize },
    /// A catalog item's sixth and seventh characters are not a month of digits.
    ParseBadMonth { item: usize },
    /// A catalog item holds no link.
    ParseNoLink { item: usize },
    /// The link's final path segment does not carry the expected prefix.
    ParseBadEditionId { item: usize },
    /// The metadata endpoint returned zero container objects for an edition.
    NotFoundError,
    /// A container object's content listing holds no entries.
    ParseNoChildren,
    /// The spreadsheet container format could not be opened.
    SchemaUnreadableWorkbook,
    /// The workbook holds no sheets at all.
    SchemaNoSheets,
    /// A required sheet is absent from the workbook.
    SchemaSheetMissing { sheet: SheetId },
    /// A raw table has no header row.
    SchemaNoHeaderRow,
    /// A required column is absent from a data row.
    SchemaColumnMissing { column: ColumnId, row: usize },
    /// A cell could not be coerced to its column's target type.
    DecodeError { column: ColumnId, row: usize },
    /// The transactional write failed; the edition was rolled back.
    StoreError { at: usize },
}

impl SheetId {
    /// The exact sheet name addressed in the workbook.
    pub open spec fn spec_name(self) -> Seq<char> {
        match self {
            SheetId::NachHerkunftsland => "csv-45412-07"@,
            SheetId::ProLand => "csv-45412-08"@,
        }
    }

    /// The exact sheet name addressed in the workbook.
    pub fn name(&self) -> (r: &'static str)
        ensures
            r@ == self.spec_name(),
    {
        match self {
            SheetId::NachHerkunftsland => "csv-45412-07",
            SheetId::ProLand => "csv-45412-08",
        }
    }
}

impl ColumnId {
    /// The exact header name the column is looked up by.
    pub open spec fn spec_name(self) -> Seq<char> {
        match self {
            ColumnId::Herkunftsregion => "Herkunftsregion"@,
            ColumnId::Land => "Land"@,
            ColumnId::Wohnsitz => "Wohnsitz"@,
            ColumnId::Jahr => "Jahr"@,
            ColumnId::Monat => "Monat"@,
            ColumnId::AnkuenfteAnzahl => "Ankuenfte_Anzahl"@,
            ColumnId::AnkuenfteVeraenderung => {
                "Ankuenfte_Veraenderung_zum_Vorjahreszeitraum_Prozent"@
            },
            ColumnId::UebernachtungenAnzahl => "Uebernachtungen_Anzahl"@,
            ColumnId::UebernachtungenVeraenderung => {
                "Uebernachtungen_Veraenderung_zum_Vorjahreszeitraum_Prozent"@
            },
            ColumnId::DurchschAufenthaltsdauer => "Durchsch_Aufenthaltsdauer_Tage"@,
        }
    }

    /// The exact header name the column is looked up by.
    pub fn name(&self) -> (r: &'static str)
        ensures
            r@ == self.spec_name(),
    {
        match self {
            ColumnId::Herkunftsregion => "Herkunftsregion",
            ColumnId::Land => "Land",
            ColumnId::Wohnsitz => "Wohnsitz",
            ColumnId::Jahr => "Jahr",
            ColumnId::Monat => "Monat",
            ColumnId::AnkuenfteAnzahl => "Ankuenfte_Anzahl",
            ColumnId::AnkuenfteVeraenderung => {
                "Ankuenfte_Veraenderung_zum_Vorjahreszeitraum_Prozent"
            },
            ColumnId::UebernachtungenAnzahl => "Uebernachtungen_Anzahl",
            ColumnId::UebernachtungenVeraenderung => {
                "Uebernachtungen_Veraenderung_zum_Vorjahreszeitraum_Prozent"
            },
            ColumnId::DurchschAufenthaltsdauer => "Durchsch_Aufenthaltsdauer_Tage",
        }
    }
}

} // verus!
