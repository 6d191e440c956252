use data_scraper::decode::{UebernachtungenNachHerkunftslandStruct, UebernachtungenProLandStruct};
use data_scraper::errors::IngestError;
use data_scraper::store::StoreModel;

fn origin_rec(region: &str, jahr: i64, monat: &str) -> UebernachtungenNachHerkunftslandStruct {
    UebernachtungenNachHerkunftslandStruct {
        herkunftsregion: region.to_string(),
        jahr,
        monat: monat.to_string(),
        ankuenfte_anzahl: Some(10),
        ankuenfte_veraenderung_zum_vorjahreszeitraum_prozent: None,
        uebernachtungen_anzahl: Some(20),
        uebernachtungen_veraenderung_zum_vorjahreszeitraum_prozent: Some("1.5".to_string()),
        durchsch_aufenthaltsdauer_tage: None,
    }
}

fn country_rec(land: &str, jahr: i64, monat: &str) -> UebernachtungenProLandStruct {
    UebernachtungenProLandStruct {
        land: land.to_string(),
        wohnsitz: "Ausland".to_string(),
        jahr,
        monat: monat.to_string(),
        ankuenfte_anzahl: None,
        ankuenfte_veraenderung_zum_vorjahreszeitraum_prozent: None,
        uebernachtungen_anzahl: Some(7),
        uebernachtungen_veraenderung_zum_vorjahreszeitraum_prozent: None,
        durchsch_aufenthaltsdauer_tage: Some("2.25".to_string()),
    }
}

#[test]
fn commit_appends_trimmed_rows() {
    let mut store = StoreModel::new();
    let origin = vec![origin_rec(" Nordamerika ", 2024, " Januar ")];
    let country = vec![country_rec(" Bayern ", 2024, "Januar")];
    store.commit_edition(&origin, &country, None).unwrap();
    assert_eq!(store.origin_rows.len(), 1);
    assert_eq!(store.country_rows.len(), 1);
    assert_eq!(store.origin_rows[0].herkunftsregion, "Nordamerika");
    assert_eq!(store.origin_rows[0].monat, "Januar");
    assert_eq!(store.country_rows[0].land, "Bayern");
    // non-dimension fields are written as decoded
    assert_eq!(store.origin_rows[0].ankuenfte_anzahl, Some(10));
    assert_eq!(
        store.origin_rows[0].uebernachtungen_veraenderung_zum_vorjahreszeitraum_prozent,
        Some("1.5".to_string())
    );
}

#[test]
fn failing_insert_rolls_back_whole_edition() {
    // the edition has 3 origin + 2 country rows; fail on each insert in turn
    for k in 0..5usize {
        let mut store = StoreModel::new();
        store
            .commit_edition(&vec![origin_rec("A", 2020, "Mai")], &vec![], None)
            .unwrap();
        let origin = vec![
            origin_rec("B", 2024, "Januar"),
            origin_rec("C", 2024, "Januar"),
            origin_rec("D", 2024, "Januar"),
        ];
        let country = vec![country_rec("E", 2024, "Januar"), country_rec("F", 2024, "Januar")];
        let err = store.commit_edition(&origin, &country, Some(k)).unwrap_err();
        assert_eq!(err, IngestError::StoreError { at: k });
        // nothing of the failing edition is observable; earlier editions stay
        assert_eq!(store.origin_rows.len(), 1);
        assert_eq!(store.origin_rows[0].herkunftsregion, "A");
        assert_eq!(store.country_rows.len(), 0);
    }
}

#[test]
fn failure_index_beyond_the_edition_commits() {
    let mut store = StoreModel::new();
    let origin = vec![origin_rec("B", 2024, "Januar")];
    let country = vec![country_rec("E", 2024, "Januar")];
    store.commit_edition(&origin, &country, Some(2)).unwrap();
    assert_eq!(store.origin_rows.len(), 1);
    assert_eq!(store.country_rows.len(), 1);
}

#[test]
fn already_ingested_is_the_distinct_period_set() {
    let mut store = StoreModel::new();
    let origin = vec![
        origin_rec("A", 2024, "Januar"),
        origin_rec("B", 2024, "Januar"),
        origin_rec("C", 2024, "Februar"),
    ];
    let country = vec![country_rec("D", 2023, "Dezember"), country_rec("E", 2024, "Januar")];
    store.commit_edition(&origin, &country, None).unwrap();
    let periods = store.already_ingested();
    assert_eq!(periods.len(), 3);
    let mut pairs: Vec<(i64, String)> =
        periods.iter().map(|p| (p.jahr, p.monat.clone())).collect();
    pairs.sort();
    assert_eq!(
        pairs,
        vec![
            (2023, "Dezember".to_string()),
            (2024, "Februar".to_string()),
            (2024, "Januar".to_string()),
        ]
    );
}

#[test]
fn empty_store_reports_no_periods() {
    let store = StoreModel::new();
    assert_eq!(store.already_ingested().len(), 0);
}
