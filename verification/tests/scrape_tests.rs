use media_ingest::antiwar::{
    candidate_entries, detail_body, index_date, index_is_fresh, is_native_url,
};
use media_ingest::forbes::{get_largest_billionaires_map, BillionaireRecord};
use media_ingest::gate::{status_is_success, FetchGate};
use media_ingest::regions::get_iso_from_name;

fn sample_index_page() -> String {
    [
        "<html><div align=\"right\">Updated January 1, 2020 - 22:00</div>",
        "<tr><td colspan=\"2\"><h1>News</h1>",
        "<td width=\"50%\"><a href=\"https://original.antiwar.com/a1\">Title One</a>",
        "<td width=\"50%\"><a href=\"https://example.com/b2\">Title Two</a>",
        "<tr><td colspan=\"2\"><h1>End",
    ]
    .concat()
}

#[test]
fn index_date_is_extracted() {
    let page = sample_index_page();
    assert_eq!(index_date(&page), Some("January 1, 2020".to_string()));
}

#[test]
fn fresh_index_matches_today_only() {
    let page = sample_index_page();
    assert!(index_is_fresh(&page, "January 1, 2020"));
    assert!(!index_is_fresh(&page, "January 2, 2020"));
}

#[test]
fn stale_index_yields_no_items() {
    // The page reports yesterday's date: the scraper must return zero
    // candidate items and never look at detail pages.
    let page = sample_index_page();
    let today = "January 2, 2020";
    let items = if index_is_fresh(&page, today) {
        candidate_entries(&page)
    } else {
        Vec::new()
    };
    assert!(items.is_empty());
}

#[test]
fn candidate_entries_are_listed() {
    let page = sample_index_page();
    let entries = candidate_entries(&page);
    assert_eq!(entries.len(), 2);
    assert_eq!(entries[0].url, "https://original.antiwar.com/a1");
    assert_eq!(entries[0].title, "Title One");
    assert_eq!(entries[1].url, "https://example.com/b2");
    assert_eq!(entries[1].title, "Title Two");
}

#[test]
fn candidate_without_href_is_skipped() {
    let page = [
        "<tr><td colspan=\"2\"><h1>News</h1>",
        "<td width=\"50%\">no link here",
        "<td width=\"50%\"><a href=\"https://example.com/only\">Only</a>",
        "<tr><td colspan=\"2\"><h1>End",
    ]
    .concat();
    let entries = candidate_entries(&page);
    assert_eq!(entries.len(), 1);
    assert_eq!(entries[0].url, "https://example.com/only");
}

#[test]
fn page_without_item_region_yields_nothing() {
    assert!(candidate_entries("<html>nothing to see</html>").is_empty());
}

#[test]
fn detail_body_reads_description() {
    let page = "<head><meta property=\"og:description\" content=\"The story.\"></head>";
    assert_eq!(detail_body(page), Some("The story.\"".to_string()));
    assert_eq!(detail_body("<head></head>"), None);
}

#[test]
fn native_urls_are_recognized() {
    assert!(is_native_url("https://original.antiwar.com/a1"));
    assert!(!is_native_url("https://example.com/b2"));
}

#[test]
fn same_origin_burst_is_delayed_once() {
    // Two candidate items from the same origin appear consecutively: the
    // second fetch is preceded by the politeness delay; a third item from
    // a newly seen origin is fetched without delay.
    let mut gate = FetchGate::new();
    assert!(!gate.note_origin("https://a.example"));
    assert!(gate.note_origin("https://a.example"));
    assert!(!gate.note_origin("https://b.example"));
}

#[test]
fn recurring_origin_clears_tracked_set() {
    let mut gate = FetchGate::new();
    assert!(!gate.note_origin("https://a.example"));
    assert!(!gate.note_origin("https://b.example"));
    assert!(gate.note_origin("https://b.example"));
    // The set was cleared by the delay, so even the first origin is new
    // again.
    assert!(!gate.note_origin("https://a.example"));
}

#[test]
fn iso_lookup_resolves_known_names() {
    assert_eq!(get_iso_from_name("France"), Some("FR".to_string()));
    assert_eq!(get_iso_from_name("United States"), Some("US".to_string()));
    assert_eq!(get_iso_from_name("Saudi Arabia"), Some("SA".to_string()));
    assert_eq!(get_iso_from_name("United Arab Emirates"), Some("AE".to_string()));
    assert_eq!(get_iso_from_name("Taiwan"), Some("TW".to_string()));
    assert_eq!(get_iso_from_name("Thailand"), Some("TH".to_string()));
    assert_eq!(get_iso_from_name("Turkey"), Some("TR".to_string()));
    assert_eq!(get_iso_from_name("Colombia"), Some("CO".to_string()));
    assert_eq!(get_iso_from_name("Czech Republic"), Some("CZ".to_string()));
    assert_eq!(get_iso_from_name("Unknownland"), None);
    assert_eq!(get_iso_from_name("france"), None);
}

fn rec(worth: Option<u64>, citizenship: &str, name: &str) -> BillionaireRecord {
    BillionaireRecord {
        final_worth: worth,
        citizenship: Some(citizenship.to_string()),
        name: Some(name.to_string()),
    }
}

#[test]
fn below_threshold_record_is_filtered() {
    // finalWorth 9500 against threshold 9900: the record is filtered out.
    let records = vec![rec(Some(9500), "United States", "Alice Alpha")];
    let groups = get_largest_billionaires_map(&records, 9900);
    assert!(groups.is_empty());
}

#[test]
fn unknown_country_is_dropped_and_run_continues() {
    let records = vec![
        rec(Some(20000), "Unknownland", "Bob Beta"),
        rec(Some(15000), "United States", "Carol Gamma"),
    ];
    let groups = get_largest_billionaires_map(&records, 9900);
    assert_eq!(groups.len(), 1);
    assert_eq!(groups[0].region, "US");
    assert_eq!(groups[0].names, vec!["Carol Gamma".to_string()]);
}

#[test]
fn names_group_by_region_in_order() {
    let records = vec![
        rec(Some(12000), "United States", "Alice Alpha"),
        rec(Some(11000), "France", "Bernard Beta"),
        rec(Some(10000), "United States", "Carol Gamma & family"),
    ];
    let groups = get_largest_billionaires_map(&records, 9900);
    assert_eq!(groups.len(), 2);
    assert_eq!(groups[0].region, "US");
    assert_eq!(
        groups[0].names,
        vec!["Alice Alpha".to_string(), "Carol Gamma".to_string()]
    );
    assert_eq!(groups[1].region, "FR");
    assert_eq!(groups[1].names, vec!["Bernard Beta".to_string()]);
}

#[test]
fn record_without_worth_is_dropped() {
    // A worth the API gave in no parseable form is a parse failure: the
    // record is skipped, and the run continues with the rest.
    let records = vec![
        BillionaireRecord {
            final_worth: None,
            citizenship: Some("Germany".to_string()),
            name: Some("Dora Delta".to_string()),
        },
        rec(Some(10000), "France", "Emile Epsilon"),
    ];
    let groups = get_largest_billionaires_map(&records, 9900);
    assert_eq!(groups.len(), 1);
    assert_eq!(groups[0].region, "FR");
    assert_eq!(groups[0].names, vec!["Emile Epsilon".to_string()]);
}

#[test]
fn record_without_name_or_citizenship_is_dropped() {
    let records = vec![
        BillionaireRecord {
            final_worth: Some(20000),
            citizenship: None,
            name: Some("No Country".to_string()),
        },
        BillionaireRecord {
            final_worth: Some(20000),
            citizenship: Some("Japan".to_string()),
            name: None,
        },
    ];
    assert!(get_largest_billionaires_map(&records, 9900).is_empty());
}

#[test]
fn only_success_statuses_allow_content() {
    assert!(status_is_success(200));
    assert!(status_is_success(204));
    assert!(!status_is_success(301));
    assert!(!status_is_success(404));
    assert!(!status_is_success(500));
    assert!(!status_is_success(199));
}
