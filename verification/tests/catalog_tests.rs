use data_scraper::catalog::get_table_of_contents;
use data_scraper::errors::IngestError;

fn page(items: &str) -> String {
    format!(
        "<html><body><div id=\"main_col\"><div>intro</div><div><ul>{}</ul></div></div></body></html>",
        items
    )
}

#[test]
fn parses_well_formed_catalog() {
    let html = page(
        "<li> 2024,01 Bericht <a href=\"https://host/receive/DEHeft_mods_00012345\">x</a></li>\
         <li> 2024,02 Bericht <a href=\"https://host/receive/DEHeft_mods_00012346\">x</a></li>",
    );
    let toc = get_table_of_contents(&html).unwrap();
    assert_eq!(toc.len(), 2);
    assert_eq!(toc[0].year, 2024);
    assert_eq!(toc[0].month, 1);
    assert_eq!(toc[0].url, "https://host/receive/DEHeft_mods_00012345");
    assert_eq!(toc[0].mods_id, "DEHeft_mods_00012345");
    assert_eq!(toc[1].year, 2024);
    assert_eq!(toc[1].month, 2);
    assert_eq!(toc[1].mods_id, "DEHeft_mods_00012346");
}

#[test]
fn missing_container_is_a_parse_error() {
    let html = "<html><body><p>nothing here</p></body></html>";
    assert_eq!(
        get_table_of_contents(html).unwrap_err(),
        IngestError::ParseNoContainer
    );
}

#[test]
fn non_digit_year_fails_the_listing() {
    let html = page("<li>20x4,01 <a href=\"https://h/DEHeft_mods_1\">x</a></li>");
    assert_eq!(
        get_table_of_contents(&html).unwrap_err(),
        IngestError::ParseBadYear { item: 0 }
    );
}

#[test]
fn short_item_text_fails_as_bad_year() {
    let html = page("<li>24</li>");
    assert_eq!(
        get_table_of_contents(&html).unwrap_err(),
        IngestError::ParseBadYear { item: 0 }
    );
}

#[test]
fn non_digit_month_fails_the_listing() {
    let html = page("<li>2024,x1 <a href=\"https://h/DEHeft_mods_1\">x</a></li>");
    assert_eq!(
        get_table_of_contents(&html).unwrap_err(),
        IngestError::ParseBadMonth { item: 0 }
    );
}

#[test]
fn item_without_link_fails_the_listing() {
    let html = page("<li>2024,01 kein Link</li>");
    assert_eq!(
        get_table_of_contents(&html).unwrap_err(),
        IngestError::ParseNoLink { item: 0 }
    );
}

#[test]
fn wrong_identifier_prefix_fails_the_listing() {
    let html = page("<li>2024,01 <a href=\"https://host/receive/Other_id_7\">x</a></li>");
    assert_eq!(
        get_table_of_contents(&html).unwrap_err(),
        IngestError::ParseBadEditionId { item: 0 }
    );
}

#[test]
fn one_bad_item_invalidates_the_whole_listing() {
    let html = page(
        "<li>2024,01 <a href=\"https://host/DEHeft_mods_1\">x</a></li>\
         <li>oops</li>",
    );
    assert_eq!(
        get_table_of_contents(&html).unwrap_err(),
        IngestError::ParseBadYear { item: 1 }
    );
}
