use media_ingest::pipeline::{build_records, url_seen, CandidateItem, SourceConfig, MAX_BODY_LEN};
use media_ingest::regions::KeyphraseIndex;

#[test]
fn unlisted_sources_are_disabled() {
    let config = SourceConfig::new();
    assert!(!config.is_enabled("ANTIWAR_B"));
}

#[test]
fn source_flags_enable_and_disable() {
    let mut config = SourceConfig::new();
    config.add_source("ANTIWAR_B".to_string(), true);
    config.add_source("FORBES400_B".to_string(), false);
    assert!(config.is_enabled("ANTIWAR_B"));
    assert!(!config.is_enabled("FORBES400_B"));
}

fn sample_index() -> KeyphraseIndex {
    let mut index = KeyphraseIndex::new();
    assert!(index.add_region(
        "UA".to_string(),
        vec!["Ukraine".to_string(), "Kyiv".to_string()],
    ));
    assert!(index.add_region("RU".to_string(), vec!["Russia".to_string()]));
    assert!(index.add_region("FR".to_string(), vec!["France".to_string()]));
    index
}

#[test]
fn region_with_no_keyphrases_is_dropped() {
    let mut index = KeyphraseIndex::new();
    assert!(!index.add_region("XX".to_string(), Vec::new()));
    let frags = vec!["anything".to_string()];
    assert!(index.tag(&frags).is_empty());
}

#[test]
fn duplicate_region_is_refused() {
    // The index is a mapping: a second entry for the same region is
    // dropped, so no item is ever tagged with a duplicate identifier.
    let mut index = KeyphraseIndex::new();
    assert!(index.add_region("UA".to_string(), vec!["Ukraine".to_string()]));
    assert!(!index.add_region("UA".to_string(), vec!["Kyiv".to_string()]));
    let frags = vec!["Ukraine".to_string()];
    assert_eq!(index.tag(&frags), vec!["UA".to_string()]);
}

#[test]
fn tagging_unions_across_fragments() {
    let index = sample_index();
    let frags = vec![
        "Strikes reported near Kyiv".to_string(),
        "Talks in Russia continue".to_string(),
    ];
    assert_eq!(index.tag(&frags), vec!["UA".to_string(), "RU".to_string()]);
}

#[test]
fn tagging_may_be_empty() {
    let index = sample_index();
    let frags = vec!["weather stays mild".to_string()];
    assert!(index.tag(&frags).is_empty());
}

#[test]
fn tagging_title_and_body_is_superset_of_title_alone() {
    let index = sample_index();
    let title = "Summit on Ukraine".to_string();
    let body = "Delegates from France attended.".to_string();
    let title_only = index.tag(&vec![title.clone()]);
    let both = index.tag(&vec![title, body]);
    for region in &title_only {
        assert!(both.contains(region));
    }
    assert_eq!(title_only, vec!["UA".to_string()]);
    assert_eq!(both, vec!["UA".to_string(), "FR".to_string()]);
}

#[test]
fn url_seen_is_exact_string_match() {
    let seen = vec!["https://a.example/x".to_string()];
    assert!(url_seen(&seen, "https://a.example/x"));
    assert!(!url_seen(&seen, "https://a.example/x?v=2"));
}

#[test]
fn seen_urls_are_never_reemitted() {
    let index = sample_index();
    let items = vec![
        CandidateItem {
            url: "https://a.example/old".to_string(),
            title: "Old piece".to_string(),
            body: "already ingested".to_string(),
        },
        CandidateItem {
            url: "https://a.example/new".to_string(),
            title: "New piece".to_string(),
            body: "fresh".to_string(),
        },
    ];
    let seen = vec!["https://a.example/old".to_string()];
    let records = build_records(&items, &seen, &index);
    assert_eq!(records.len(), 1);
    assert_eq!(records[0].url, "https://a.example/new");
}

#[test]
fn records_are_normalized_and_tagged() {
    let index = sample_index();
    let items = vec![CandidateItem {
        url: "https://a.example/p".to_string(),
        title: "<b>Report on Ukraine</b>".to_string(),
        body: "<p>Troops left Russia.</p>".to_string(),
    }];
    let records = build_records(&items, &Vec::new(), &index);
    assert_eq!(records.len(), 1);
    let r = &records[0];
    assert_eq!(r.title, "Report on Ukraine");
    assert_eq!(r.body, "Troops left Russia.");
    assert_eq!(r.regions, vec!["UA".to_string(), "RU".to_string()]);
}

#[test]
fn long_bodies_are_truncated_to_the_bound() {
    let index = sample_index();
    let long_body = "x".repeat(MAX_BODY_LEN + 250);
    let items = vec![CandidateItem {
        url: "https://a.example/long".to_string(),
        title: "t".to_string(),
        body: long_body,
    }];
    let records = build_records(&items, &Vec::new(), &index);
    assert_eq!(records[0].body.chars().count(), MAX_BODY_LEN);
}

#[test]
fn untagged_items_are_kept() {
    // An item matching no region is still emitted, with an empty region
    // set.
    let index = sample_index();
    let items = vec![CandidateItem {
        url: "https://a.example/misc".to_string(),
        title: "Local notes".to_string(),
        body: "nothing geographic".to_string(),
    }];
    let records = build_records(&items, &Vec::new(), &index);
    assert_eq!(records.len(), 1);
    assert!(records[0].regions.is_empty());
}
