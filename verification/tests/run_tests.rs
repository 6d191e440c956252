use data_scraper::catalog::TableOfContent;
use data_scraper::cells::Cell;
use data_scraper::decode::{parse_range_herkunftsland, UebernachtungenNachHerkunftslandStruct};
use data_scraper::run::{compute_new_editions, should_notify};
use data_scraper::store::{IngestedPeriod, StoreModel};
use data_scraper::xlsx::RawTable;

fn toc(year: i32, month: i32) -> TableOfContent {
    TableOfContent {
        year,
        month,
        url: format!("https://host/receive/DEHeft_mods_{}_{}", year, month),
        mods_id: format!("DEHeft_mods_{}_{}", year, month),
    }
}

fn origin_rec(jahr: i64, monat: &str) -> UebernachtungenNachHerkunftslandStruct {
    UebernachtungenNachHerkunftslandStruct {
        herkunftsregion: "Europa".to_string(),
        jahr,
        monat: monat.to_string(),
        ankuenfte_anzahl: Some(1),
        ankuenfte_veraenderung_zum_vorjahreszeitraum_prozent: None,
        uebernachtungen_anzahl: None,
        uebernachtungen_veraenderung_zum_vorjahreszeitraum_prozent: None,
        durchsch_aufenthaltsdauer_tage: None,
    }
}

#[test]
fn already_ingested_editions_are_excluded() {
    let catalog = vec![toc(2024, 1), toc(2024, 2), toc(2023, 12)];
    let already = vec![
        IngestedPeriod {
            jahr: 2024,
            monat: "Januar".to_string(),
        },
        IngestedPeriod {
            jahr: 2023,
            monat: "Dezember".to_string(),
        },
    ];
    let fresh = compute_new_editions(&catalog, &already);
    assert_eq!(fresh.len(), 1);
    assert_eq!(fresh[0].year, 2024);
    assert_eq!(fresh[0].month, 2);
}

#[test]
fn catalog_order_is_kept_in_the_work_set() {
    let catalog = vec![toc(2023, 11), toc(2024, 2), toc(2023, 12)];
    let fresh = compute_new_editions(&catalog, &vec![]);
    let months: Vec<i32> = fresh.iter().map(|e| e.month).collect();
    assert_eq!(months, vec![11, 2, 12]);
}

#[test]
fn same_month_of_another_year_is_new_work() {
    let catalog = vec![toc(2025, 1)];
    let already = vec![IngestedPeriod {
        jahr: 2024,
        monat: "Januar".to_string(),
    }];
    let fresh = compute_new_editions(&catalog, &already);
    assert_eq!(fresh.len(), 1);
}

#[test]
fn one_new_edition_notifies_exactly_once() {
    // catalog offers January and February 2024; January is committed
    let mut store = StoreModel::new();
    store
        .commit_edition(&vec![origin_rec(2024, "Januar")], &vec![], None)
        .unwrap();

    let catalog = vec![toc(2024, 1), toc(2024, 2)];
    let already = store.already_ingested();
    let fresh = compute_new_editions(&catalog, &already);
    assert_eq!(fresh.len(), 1);
    assert_eq!(fresh[0].month, 2);

    // the one new edition decodes and commits; the flag fires one message
    let table: RawTable = vec![
        vec![
            Cell::Text("Herkunftsregion".to_string()),
            Cell::Text("Jahr".to_string()),
            Cell::Text("Monat".to_string()),
            Cell::Text("Ankuenfte_Anzahl".to_string()),
            Cell::Text("Ankuenfte_Veraenderung_zum_Vorjahreszeitraum_Prozent".to_string()),
            Cell::Text("Uebernachtungen_Anzahl".to_string()),
            Cell::Text("Uebernachtungen_Veraenderung_zum_Vorjahreszeitraum_Prozent".to_string()),
            Cell::Text("Durchsch_Aufenthaltsdauer_Tage".to_string()),
        ],
        vec![
            Cell::Text("Europa".to_string()),
            Cell::Int(2024),
            Cell::Text("Februar".to_string()),
            Cell::Int(1),
            Cell::Text(".".to_string()),
            Cell::Text(".".to_string()),
            Cell::Text(".".to_string()),
            Cell::Text(".".to_string()),
        ],
    ];
    let decoded = parse_range_herkunftsland(&table).unwrap();
    let mut notifications = 0;
    store.commit_edition(&decoded, &vec![], None).unwrap();
    if should_notify(&fresh) {
        notifications += 1;
    }
    assert_eq!(notifications, 1);

    // the next run sees nothing new and stays silent
    let already2 = store.already_ingested();
    let fresh2 = compute_new_editions(&catalog, &already2);
    assert_eq!(fresh2.len(), 0);
    assert!(!should_notify(&fresh2));
}
