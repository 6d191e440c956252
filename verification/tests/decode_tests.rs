use data_scraper::cells::Cell;
use data_scraper::decode::{parse_range_herkunftsland, parse_range_pro_land};
use data_scraper::errors::{ColumnId, IngestError};
use data_scraper::xlsx::RawTable;

fn txt(s: &str) -> Cell {
    Cell::Text(s.to_string())
}

fn num(trunc: i64, text: &str) -> Cell {
    Cell::Num {
        trunc,
        text: text.to_string(),
    }
}

fn origin_headers() -> Vec<Cell> {
    vec![
        txt("Herkunftsregion"),
        txt(" Jahr "),
        txt("Monat"),
        txt("Ankuenfte_Anzahl"),
        txt("Ankuenfte_Veraenderung_zum_Vorjahreszeitraum_Prozent"),
        txt("Uebernachtungen_Anzahl"),
        txt("Uebernachtungen_Veraenderung_zum_Vorjahreszeitraum_Prozent"),
        txt("Durchsch_Aufenthaltsdauer_Tage"),
    ]
}

fn origin_table() -> RawTable {
    vec![
        origin_headers(),
        vec![
            txt("Nordamerika"),
            Cell::Int(2024),
            txt("Januar"),
            Cell::Int(100),
            txt("."),
            num(5, "5.7"),
            txt("3.4"),
            num(2, "2.5"),
        ],
    ]
}

#[test]
fn decodes_origin_row_with_all_coercions() {
    let rows = parse_range_herkunftsland(&origin_table()).unwrap();
    assert_eq!(rows.len(), 1);
    let r = &rows[0];
    assert_eq!(r.herkunftsregion, "Nordamerika");
    assert_eq!(r.jahr, 2024);
    assert_eq!(r.monat, "Januar");
    assert_eq!(r.ankuenfte_anzahl, Some(100));
    assert_eq!(r.ankuenfte_veraenderung_zum_vorjahreszeitraum_prozent, None);
    assert_eq!(r.uebernachtungen_anzahl, Some(5));
    assert_eq!(
        r.uebernachtungen_veraenderung_zum_vorjahreszeitraum_prozent,
        Some("3.4".to_string())
    );
    assert_eq!(r.durchsch_aufenthaltsdauer_tage, Some("2.5".to_string()));
}

#[test]
fn decoding_twice_yields_equal_sequences() {
    let a = parse_range_herkunftsland(&origin_table()).unwrap();
    let b = parse_range_herkunftsland(&origin_table()).unwrap();
    assert_eq!(a, b);
}

#[test]
fn reordered_columns_decode_the_same() {
    let shuffled: RawTable = vec![
        vec![
            txt("Monat"),
            txt("Durchsch_Aufenthaltsdauer_Tage"),
            txt("Herkunftsregion"),
            txt("Uebernachtungen_Veraenderung_zum_Vorjahreszeitraum_Prozent"),
            txt("Jahr"),
            txt("Uebernachtungen_Anzahl"),
            txt("Ankuenfte_Veraenderung_zum_Vorjahreszeitraum_Prozent"),
            txt("Ankuenfte_Anzahl"),
        ],
        vec![
            txt("Januar"),
            num(2, "2.5"),
            txt("Nordamerika"),
            txt("3.4"),
            Cell::Int(2024),
            num(5, "5.7"),
            txt("."),
            Cell::Int(100),
        ],
    ];
    let straight = parse_range_herkunftsland(&origin_table()).unwrap();
    let rows = parse_range_herkunftsland(&shuffled).unwrap();
    assert_eq!(rows, straight);
}

#[test]
fn every_sentinel_decodes_to_absent_not_zero() {
    for s in [".", "-", "X"] {
        let table: RawTable = vec![
            origin_headers(),
            vec![
                txt("Europa"),
                Cell::Int(2024),
                txt("Mai"),
                txt(s),
                txt(s),
                txt(s),
                txt(s),
                txt(s),
            ],
        ];
        let rows = parse_range_herkunftsland(&table).unwrap();
        assert_eq!(rows[0].ankuenfte_anzahl, None);
        assert_eq!(rows[0].ankuenfte_veraenderung_zum_vorjahreszeitraum_prozent, None);
        assert_eq!(rows[0].uebernachtungen_anzahl, None);
        assert_eq!(
            rows[0].uebernachtungen_veraenderung_zum_vorjahreszeitraum_prozent,
            None
        );
        assert_eq!(rows[0].durchsch_aufenthaltsdauer_tage, None);
    }
}

#[test]
fn required_year_refuses_a_string_cell() {
    let table: RawTable = vec![
        origin_headers(),
        vec![
            txt("Europa"),
            txt("2024"),
            txt("Mai"),
            txt("."),
            txt("."),
            txt("."),
            txt("."),
            txt("."),
        ],
    ];
    assert_eq!(
        parse_range_herkunftsland(&table).unwrap_err(),
        IngestError::DecodeError {
            column: ColumnId::Jahr,
            row: 1
        }
    );
}

#[test]
fn required_year_refuses_an_empty_cell() {
    let table: RawTable = vec![
        origin_headers(),
        vec![
            txt("Europa"),
            Cell::Empty,
            txt("Mai"),
            txt("."),
            txt("."),
            txt("."),
            txt("."),
            txt("."),
        ],
    ];
    assert_eq!(
        parse_range_herkunftsland(&table).unwrap_err(),
        IngestError::DecodeError {
            column: ColumnId::Jahr,
            row: 1
        }
    );
}

#[test]
fn unparsable_optional_integer_fails_decode() {
    let table: RawTable = vec![
        origin_headers(),
        vec![
            txt("Europa"),
            Cell::Int(2024),
            txt("Mai"),
            txt("abc"),
            txt("."),
            txt("."),
            txt("."),
            txt("."),
        ],
    ];
    assert_eq!(
        parse_range_herkunftsland(&table).unwrap_err(),
        IngestError::DecodeError {
            column: ColumnId::AnkuenfteAnzahl,
            row: 1
        }
    );
}

#[test]
fn unparsable_optional_fraction_fails_decode() {
    let table: RawTable = vec![
        origin_headers(),
        vec![
            txt("Europa"),
            Cell::Int(2024),
            txt("Mai"),
            txt("."),
            txt("1,5"),
            txt("."),
            txt("."),
            txt("."),
        ],
    ];
    assert_eq!(
        parse_range_herkunftsland(&table).unwrap_err(),
        IngestError::DecodeError {
            column: ColumnId::AnkuenfteVeraenderung,
            row: 1
        }
    );
}

#[test]
fn absent_column_is_a_schema_error() {
    let mut headers = origin_headers();
    headers.remove(2);
    let table: RawTable = vec![
        headers,
        vec![
            txt("Europa"),
            Cell::Int(2024),
            txt("."),
            txt("."),
            txt("."),
            txt("."),
            txt("."),
        ],
    ];
    assert_eq!(
        parse_range_herkunftsland(&table).unwrap_err(),
        IngestError::SchemaColumnMissing {
            column: ColumnId::Monat,
            row: 1
        }
    );
}

#[test]
fn short_row_loses_its_trailing_columns() {
    let table: RawTable = vec![origin_headers(), vec![txt("Europa"), Cell::Int(2024)]];
    assert_eq!(
        parse_range_herkunftsland(&table).unwrap_err(),
        IngestError::SchemaColumnMissing {
            column: ColumnId::Monat,
            row: 1
        }
    );
}

#[test]
fn later_duplicate_header_wins() {
    let table: RawTable = vec![
        vec![
            txt("Herkunftsregion"),
            txt("Jahr"),
            txt("Jahr"),
            txt("Monat"),
            txt("Ankuenfte_Anzahl"),
            txt("Ankuenfte_Veraenderung_zum_Vorjahreszeitraum_Prozent"),
            txt("Uebernachtungen_Anzahl"),
            txt("Uebernachtungen_Veraenderung_zum_Vorjahreszeitraum_Prozent"),
            txt("Durchsch_Aufenthaltsdauer_Tage"),
        ],
        vec![
            txt("Europa"),
            Cell::Int(2000),
            Cell::Int(2024),
            txt("Mai"),
            txt("."),
            txt("."),
            txt("."),
            txt("."),
            txt("."),
        ],
    ];
    let rows = parse_range_herkunftsland(&table).unwrap();
    assert_eq!(rows[0].jahr, 2024);
}

#[test]
fn string_column_renders_any_cell_kind() {
    let table: RawTable = vec![
        origin_headers(),
        vec![
            Cell::Bool(true),
            Cell::Int(2024),
            Cell::Int(5),
            txt("."),
            txt("."),
            txt("."),
            txt("."),
            txt("."),
        ],
    ];
    let rows = parse_range_herkunftsland(&table).unwrap();
    assert_eq!(rows[0].herkunftsregion, "true");
    assert_eq!(rows[0].monat, "5");
}

#[test]
fn empty_table_has_no_header_row() {
    let table: RawTable = vec![];
    assert_eq!(
        parse_range_herkunftsland(&table).unwrap_err(),
        IngestError::SchemaNoHeaderRow
    );
}

#[test]
fn headers_only_decodes_to_nothing() {
    let table: RawTable = vec![origin_headers()];
    assert_eq!(parse_range_herkunftsland(&table).unwrap(), vec![]);
}

#[test]
fn decodes_country_row() {
    let table: RawTable = vec![
        vec![
            txt("Land"),
            txt("Wohnsitz"),
            txt("Jahr"),
            txt("Monat"),
            txt("Ankuenfte_Anzahl"),
            txt("Ankuenfte_Veraenderung_zum_Vorjahreszeitraum_Prozent"),
            txt("Uebernachtungen_Anzahl"),
            txt("Uebernachtungen_Veraenderung_zum_Vorjahreszeitraum_Prozent"),
            txt("Durchsch_Aufenthaltsdauer_Tage"),
        ],
        vec![
            txt("Bayern"),
            txt("Ausland"),
            num(2024, "2024"),
            txt("Februar"),
            txt("42"),
            txt("-1.5"),
            txt("X"),
            txt("2e1"),
            txt("inf"),
        ],
    ];
    let rows = parse_range_pro_land(&table).unwrap();
    assert_eq!(rows.len(), 1);
    let r = &rows[0];
    assert_eq!(r.land, "Bayern");
    assert_eq!(r.wohnsitz, "Ausland");
    assert_eq!(r.jahr, 2024);
    assert_eq!(r.monat, "Februar");
    assert_eq!(r.ankuenfte_anzahl, Some(42));
    assert_eq!(
        r.ankuenfte_veraenderung_zum_vorjahreszeitraum_prozent,
        Some("-1.5".to_string())
    );
    assert_eq!(r.uebernachtungen_anzahl, None);
    assert_eq!(
        r.uebernachtungen_veraenderung_zum_vorjahreszeitraum_prozent,
        Some("2e1".to_string())
    );
    assert_eq!(r.durchsch_aufenthaltsdauer_tage, Some("inf".to_string()));
}

#[test]
fn non_finite_numeric_cell_fails_a_required_column() {
    for t in ["NaN", "inf", "-inf"] {
        let table: RawTable = vec![
            origin_headers(),
            vec![
                txt("Europa"),
                Cell::NonFinite(t.to_string()),
                txt("Mai"),
                txt("."),
                txt("."),
                txt("."),
                txt("."),
                txt("."),
            ],
        ];
        assert_eq!(
            parse_range_herkunftsland(&table).unwrap_err(),
            IngestError::DecodeError {
                column: ColumnId::Jahr,
                row: 1
            }
        );
    }
}

#[test]
fn non_finite_numeric_cell_fails_an_optional_integer_column() {
    let table: RawTable = vec![
        origin_headers(),
        vec![
            txt("Europa"),
            Cell::Int(2024),
            txt("Mai"),
            Cell::NonFinite("NaN".to_string()),
            txt("."),
            txt("."),
            txt("."),
            txt("."),
        ],
    ];
    assert_eq!(
        parse_range_herkunftsland(&table).unwrap_err(),
        IngestError::DecodeError {
            column: ColumnId::AnkuenfteAnzahl,
            row: 1
        }
    );
}

#[test]
fn non_finite_numeric_cell_fails_a_fractional_column() {
    // unlike the string cell "inf", which parses as a number, a numeric
    // cell that lost its value never reaches a fractional column
    let table: RawTable = vec![
        origin_headers(),
        vec![
            txt("Europa"),
            Cell::Int(2024),
            txt("Mai"),
            txt("."),
            Cell::NonFinite("inf".to_string()),
            txt("."),
            txt("."),
            txt("."),
        ],
    ];
    assert_eq!(
        parse_range_herkunftsland(&table).unwrap_err(),
        IngestError::DecodeError {
            column: ColumnId::AnkuenfteVeraenderung,
            row: 1
        }
    );
}

#[test]
fn non_finite_numeric_cell_renders_in_a_string_column() {
    let table: RawTable = vec![
        origin_headers(),
        vec![
            Cell::NonFinite("NaN".to_string()),
            Cell::Int(2024),
            txt("Mai"),
            txt("."),
            txt("."),
            txt("."),
            txt("."),
            txt("."),
        ],
    ];
    let rows = parse_range_herkunftsland(&table).unwrap();
    assert_eq!(rows[0].herkunftsregion, "NaN");
}
