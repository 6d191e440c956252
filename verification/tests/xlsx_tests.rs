use data_scraper::errors::{IngestError, SheetId};
use data_scraper::run::decode_edition;
use data_scraper::xlsx::load_xlsx_file;
use rust_xlsxwriter::Workbook;

const ORIGIN_HEADERS: [&str; 8] = [
    "Herkunftsregion",
    "Jahr",
    "Monat",
    "Ankuenfte_Anzahl",
    "Ankuenfte_Veraenderung_zum_Vorjahreszeitraum_Prozent",
    "Uebernachtungen_Anzahl",
    "Uebernachtungen_Veraenderung_zum_Vorjahreszeitraum_Prozent",
    "Durchsch_Aufenthaltsdauer_Tage",
];

const COUNTRY_HEADERS: [&str; 9] = [
    "Land",
    "Wohnsitz",
    "Jahr",
    "Monat",
    "Ankuenfte_Anzahl",
    "Ankuenfte_Veraenderung_zum_Vorjahreszeitraum_Prozent",
    "Uebernachtungen_Anzahl",
    "Uebernachtungen_Veraenderung_zum_Vorjahreszeitraum_Prozent",
    "Durchsch_Aufenthaltsdauer_Tage",
];

fn edition_workbook() -> Vec<u8> {
    let mut wb = Workbook::new();
    let ws = wb.add_worksheet();
    ws.set_name("csv-45412-07").unwrap();
    for (c, h) in ORIGIN_HEADERS.iter().enumerate() {
        ws.write_string(0, c as u16, *h).unwrap();
    }
    ws.write_string(1, 0, "Nordamerika").unwrap();
    ws.write_number(1, 1, 2024.0).unwrap();
    ws.write_string(1, 2, "Januar").unwrap();
    ws.write_number(1, 3, 100.0).unwrap();
    ws.write_string(1, 4, ".").unwrap();
    ws.write_number(1, 5, 5.7).unwrap();
    ws.write_string(1, 6, "3.4").unwrap();
    ws.write_number(1, 7, 2.5).unwrap();
    let ws2 = wb.add_worksheet();
    ws2.set_name("csv-45412-08").unwrap();
    for (c, h) in COUNTRY_HEADERS.iter().enumerate() {
        ws2.write_string(0, c as u16, *h).unwrap();
    }
    ws2.write_string(1, 0, "Bayern").unwrap();
    ws2.write_string(1, 1, "Ausland").unwrap();
    ws2.write_number(1, 2, 2024.0).unwrap();
    ws2.write_string(1, 3, "Januar").unwrap();
    ws2.write_string(1, 4, "X").unwrap();
    ws2.write_string(1, 5, "-1.5").unwrap();
    ws2.write_number(1, 6, 7.0).unwrap();
    ws2.write_string(1, 7, "-").unwrap();
    ws2.write_number(1, 8, 2.25).unwrap();
    wb.save_to_buffer().unwrap()
}

#[test]
fn extracts_both_sheets_from_real_workbook_bytes() {
    let bytes = edition_workbook();
    let data = load_xlsx_file(&bytes).unwrap();
    assert_eq!(data.uebernachtungen_nach_herkunftsland.len(), 2);
    assert_eq!(data.uebernachtungen_pro_land.len(), 2);
}

#[test]
fn decodes_an_edition_end_to_end() {
    let bytes = edition_workbook();
    let (origin, country) = decode_edition(&bytes).unwrap();
    assert_eq!(origin.len(), 1);
    let o = &origin[0];
    assert_eq!(o.herkunftsregion, "Nordamerika");
    assert_eq!(o.jahr, 2024);
    assert_eq!(o.monat, "Januar");
    assert_eq!(o.ankuenfte_anzahl, Some(100));
    assert_eq!(o.ankuenfte_veraenderung_zum_vorjahreszeitraum_prozent, None);
    assert_eq!(o.uebernachtungen_anzahl, Some(5));
    assert_eq!(
        o.uebernachtungen_veraenderung_zum_vorjahreszeitraum_prozent,
        Some("3.4".to_string())
    );
    assert_eq!(o.durchsch_aufenthaltsdauer_tage, Some("2.5".to_string()));
    assert_eq!(country.len(), 1);
    let c = &country[0];
    assert_eq!(c.land, "Bayern");
    assert_eq!(c.wohnsitz, "Ausland");
    assert_eq!(c.ankuenfte_anzahl, None);
    assert_eq!(
        c.ankuenfte_veraenderung_zum_vorjahreszeitraum_prozent,
        Some("-1.5".to_string())
    );
    assert_eq!(c.uebernachtungen_anzahl, Some(7));
    assert_eq!(c.uebernachtungen_veraenderung_zum_vorjahreszeitraum_prozent, None);
    assert_eq!(c.durchsch_aufenthaltsdauer_tage, Some("2.25".to_string()));
}

#[test]
fn missing_second_sheet_names_it() {
    let mut wb = Workbook::new();
    let ws = wb.add_worksheet();
    ws.set_name("csv-45412-07").unwrap();
    ws.write_string(0, 0, "Herkunftsregion").unwrap();
    let bytes = wb.save_to_buffer().unwrap();
    assert_eq!(
        load_xlsx_file(&bytes).unwrap_err(),
        IngestError::SchemaSheetMissing {
            sheet: SheetId::ProLand
        }
    );
}

#[test]
fn missing_first_sheet_names_it() {
    let mut wb = Workbook::new();
    let ws = wb.add_worksheet();
    ws.set_name("csv-45412-08").unwrap();
    ws.write_string(0, 0, "Land").unwrap();
    let bytes = wb.save_to_buffer().unwrap();
    assert_eq!(
        load_xlsx_file(&bytes).unwrap_err(),
        IngestError::SchemaSheetMissing {
            sheet: SheetId::NachHerkunftsland
        }
    );
}

#[test]
fn unreadable_bytes_are_a_schema_error() {
    let bytes = vec![0u8, 1, 2, 3, 4, 5, 6, 7];
    assert_eq!(
        load_xlsx_file(&bytes).unwrap_err(),
        IngestError::SchemaUnreadableWorkbook
    );
}
