use data_scraper::months::translate_to_month;

#[test]
fn translates_all_twelve_months() {
    assert_eq!(translate_to_month(1), "Januar");
    assert_eq!(translate_to_month(2), "Februar");
    assert_eq!(translate_to_month(3), "März");
    assert_eq!(translate_to_month(4), "April");
    assert_eq!(translate_to_month(5), "Mai");
    assert_eq!(translate_to_month(6), "Juni");
    assert_eq!(translate_to_month(7), "Juli");
    assert_eq!(translate_to_month(8), "August");
    assert_eq!(translate_to_month(9), "September");
    assert_eq!(translate_to_month(10), "Oktober");
    assert_eq!(translate_to_month(11), "November");
    assert_eq!(translate_to_month(12), "Dezember");
}

#[test]
fn month_names_are_pairwise_distinct() {
    let names: Vec<String> = (1..=12).map(translate_to_month).collect();
    for i in 0..names.len() {
        for j in 0..names.len() {
            if i != j {
                assert_ne!(names[i], names[j]);
            }
        }
    }
}
