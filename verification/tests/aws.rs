use analog::aws::{
    build_config, fetch_logs, find_region, get_log_groups, EventQuery, LoaderSettings, AWS_REGIONS,
};
use analog::config::AppConfig;
use analog::models::SavedLogEvent;
use analog::paginator::{Page, RemoteCallError};

fn event(id: &str) -> SavedLogEvent {
    SavedLogEvent {
        log_stream_name: None,
        timestamp: Some(1),
        message: None,
        ingestion_time: None,
        event_id: Some(id.to_string()),
    }
}

fn query(next_token: Option<&str>) -> EventQuery {
    EventQuery {
        log_group_name: "G".to_string(),
        start_time: 10,
        end_time: 20,
        next_token: next_token.map(|token| token.to_string()),
    }
}

#[test]
fn every_known_region_is_found() {
    assert_eq!(AWS_REGIONS.len(), 26);
    for region in AWS_REGIONS {
        assert_eq!(find_region(region), Some(region));
    }
    assert_eq!(find_region("us-east-1"), Some("us-east-1"));
    assert_eq!(find_region("sa-east-1"), Some("sa-east-1"));
}

#[test]
fn what_is_no_known_region_is_not_found() {
    for input in ["", "mars-north-1", "US-EAST-1", "us-east-1 ", "us-east", "us-east-11"] {
        assert_eq!(find_region(input), None);
    }
}

#[test]
fn profile_and_region_are_handed_on_as_they_are() {
    let config = AppConfig {
        region: Some("mars-north-1".to_string()),
        profile: Some("ops".to_string()),
        ..AppConfig::default()
    };
    assert_eq!(
        build_config(&config),
        LoaderSettings {
            profile_name: Some("ops".to_string()),
            region: Some("mars-north-1".to_string())
        }
    );
    let bare = AppConfig { region: None, profile: None, ..AppConfig::default() };
    assert_eq!(build_config(&bare), LoaderSettings { profile_name: None, region: None });
}

#[test]
fn the_listing_of_log_groups_starts_without_cursor() {
    let groups = get_log_groups();
    assert!(groups.is_fetching());
    assert_eq!(groups.cursor(), None);
}

#[test]
fn each_fetch_of_events_names_group_interval_and_cursor() {
    let mut fetcher = fetch_logs("G", 10, 20);
    assert_eq!(fetcher.group_name(), "G");
    assert_eq!(fetcher.next_query(), Some(query(None)));
    fetcher = fetcher.on_page(Page { items: vec![event("b")], next_token: Some("t1".to_string()) });
    assert!(fetcher.is_fetching());
    assert_eq!(fetcher.next_query(), Some(query(Some("t1"))));
    fetcher = fetcher.on_page(Page { items: vec![event("a")], next_token: None });
    assert!(!fetcher.is_fetching());
    assert_eq!(fetcher.next_query(), None);
    assert_eq!(fetcher.finish(), Some(Ok(vec![event("b"), event("a")])));
}

#[test]
fn a_failed_fetch_of_events_is_handed_on_unchanged() {
    let fetcher = fetch_logs("G", 10, 20)
        .on_page(Page { items: vec![event("a")], next_token: Some("t".to_string()) })
        .on_failure(RemoteCallError { message: "throttled".to_string() });
    assert_eq!(fetcher.next_query(), None);
    assert_eq!(fetcher.finish(), Some(Err(RemoteCallError { message: "throttled".to_string() })));
}

#[test]
fn events_in_progress_have_no_result() {
    assert_eq!(fetch_logs("G", 0, 0).finish(), None);
}
