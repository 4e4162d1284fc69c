use browser_selector::clock::{Moment, HISTORY_MONTHS};
use browser_selector::entities::SelectionEntity;
use browser_selector::error::ErrorKind;
use browser_selector::statistics_repository::StatisticsRepository;
use browser_selector::store::Store;
use browser_selector::tld::UrlHost;

const SUFFIXES: &str = "com\nuk\nco.uk\n";

fn repo() -> StatisticsRepository {
    let mut r = StatisticsRepository::new();
    r.set_db_path("/tmp/statistics.sqlite");
    r
}

fn entry(path: &str, hash: &str) -> SelectionEntity {
    SelectionEntity { id: None, path_hash: Some(String::from(hash)), path: Some(String::from(path)) }
}

fn noon() -> Moment {
    Moment { weekday: 2, hour: 12, timestamp: 1_700_000_000, month_ago: Some(1_697_000_000) }
}

fn rows(store: &Store) -> Vec<(usize, String, String)> {
    store
        .selections
        .iter()
        .map(|s| (s.id.unwrap(), s.path.clone().unwrap(), s.path_hash.clone().unwrap()))
        .collect()
}

#[test]
fn db_path_is_empty_until_set() {
    let mut r = StatisticsRepository::new();
    assert!(!r.has_db_path());
    assert_eq!(r.get_db_path(), "");
    r.set_db_path("/var/db/stats.sqlite");
    assert!(r.has_db_path());
    assert_eq!(r.get_db_path(), "/var/db/stats.sqlite");
    assert_eq!(r.clone().get_db_path(), "/var/db/stats.sqlite");
}

#[test]
fn new_store_is_empty() {
    let store = Store::new();
    assert!(store.selections.is_empty());
    assert!(store.history.is_empty());
    assert_eq!(store.next_selection_id, 1);
    assert_eq!(store.next_event_id, 1);
}

#[test]
fn update_selections_inserts_new_paths() {
    let mut store = Store::new();
    repo().update_selections(&mut store, vec![entry("/a", "h1"), entry("/b", "h2")]).unwrap();
    assert_eq!(
        rows(&store),
        vec![(1, String::from("/a"), String::from("h1")), (2, String::from("/b"), String::from("h2"))]
    );
    assert_eq!(store.next_selection_id, 3);
}

#[test]
fn update_selections_twice_keeps_one_row_per_path() {
    let mut store = Store::new();
    let r = repo();
    r.update_selections(&mut store, vec![entry("/a", "h1"), entry("/b", "h2")]).unwrap();
    r.update_selections(&mut store, vec![entry("/b", "h2-new"), entry("/c", "h3")]).unwrap();
    assert_eq!(
        rows(&store),
        vec![
            (1, String::from("/a"), String::from("h1")),
            (2, String::from("/b"), String::from("h2-new")),
            (3, String::from("/c"), String::from("h3")),
        ]
    );
}

#[test]
fn update_selections_last_write_wins_within_one_list() {
    let mut store = Store::new();
    repo().update_selections(&mut store, vec![entry("/a", "old"), entry("/a", "mid"), entry("/a", "new")]).unwrap();
    assert_eq!(rows(&store), vec![(1, String::from("/a"), String::from("new"))]);
}

#[test]
fn update_selections_writes_the_entries_around_one_without_path() {
    let mut store = Store::new();
    let nameless = SelectionEntity { id: None, path_hash: Some(String::from("h")), path: None };
    let err = repo()
        .update_selections(&mut store, vec![entry("/a", "h1"), nameless, entry("/b", "h2")])
        .unwrap_err();
    assert_eq!(err.kind, ErrorKind::Store);
    assert_eq!(err.message(), "A selection must have a path.");
    // the entry that was turned down is left out, the others are written
    assert_eq!(
        rows(&store),
        vec![(1, String::from("/a"), String::from("h1")), (2, String::from("/b"), String::from("h2"))]
    );
}

#[test]
fn update_selections_gives_a_known_row_its_new_fingerprint_after_a_rejected_entry() {
    let mut store = Store::new();
    let r = repo();
    r.update_selections(&mut store, vec![entry("/a", "old")]).unwrap();
    r.save_choice(&mut store, None, "http://10.0.0.1/", "old", "/a", &noon(), SUFFIXES).unwrap();
    let nameless = SelectionEntity { id: None, path_hash: Some(String::from("h")), path: None };
    let err = r.update_selections(&mut store, vec![nameless, entry("/a", "new")]).unwrap_err();
    assert_eq!(err.kind, ErrorKind::Store);
    // the row is changed in place: same identity, new fingerprint
    assert_eq!(rows(&store), vec![(1, String::from("/a"), String::from("new"))]);
    assert_eq!(store.history[0].selection_id, Some(1));
    r.save_choice(&mut store, None, "http://10.0.0.1/", "new", "/a", &noon(), SUFFIXES).unwrap();
    assert_eq!(store.history.len(), 2);
}

#[test]
fn update_selections_names_the_first_entry_that_was_turned_down() {
    let mut store = Store::new();
    store.next_selection_id = usize::MAX;
    let nameless = SelectionEntity { id: None, path_hash: None, path: None };
    let err = repo().update_selections(&mut store, vec![entry("/a", "h1"), nameless]).unwrap_err();
    assert_eq!(err.message(), "No identity is left for the selection.");
    assert!(store.selections.is_empty());
}

#[test]
fn update_selections_of_one_entry_without_path_changes_nothing() {
    let mut store = Store::new();
    let nameless = SelectionEntity { id: None, path_hash: Some(String::from("h")), path: None };
    let err = repo().update_selections(&mut store, vec![nameless]).unwrap_err();
    assert_eq!(err.kind, ErrorKind::Store);
    assert!(store.selections.is_empty());
    assert_eq!(store.next_selection_id, 1);
}

#[test]
fn update_selections_fails_without_a_free_identity() {
    let mut store = Store::new();
    let r = repo();
    r.update_selections(&mut store, vec![entry("/a", "h1")]).unwrap();
    store.next_selection_id = usize::MAX;
    let err = r.update_selections(&mut store, vec![entry("/b", "h2")]).unwrap_err();
    assert_eq!(err.kind, ErrorKind::Store);
    assert_eq!(err.message(), "No identity is left for the selection.");
    assert_eq!(store.selections.len(), 1);
    // a known path needs no identity
    r.update_selections(&mut store, vec![entry("/a", "h1-new")]).unwrap();
    assert_eq!(rows(&store), vec![(1, String::from("/a"), String::from("h1-new"))]);
}

#[test]
fn update_selections_of_an_empty_list_succeeds() {
    let mut store = Store::new();
    repo().update_selections(&mut store, Vec::new()).unwrap();
    assert!(store.selections.is_empty());
}

#[test]
fn select_returns_every_row() {
    let mut store = Store::new();
    let r = repo();
    r.update_selections(&mut store, vec![entry("/a", "h1"), entry("/b", "h2")]).unwrap();
    let all = r.select(&store);
    assert_eq!(all.len(), 2);
    assert_eq!(all[1].path.as_deref(), Some("/b"));
}

#[test]
fn select_by_params_filters_on_given_fields() {
    let mut store = Store::new();
    let r = repo();
    r.update_selections(&mut store, vec![entry("/a", "h1"), entry("/b", "h2"), entry("/c", "h1")]).unwrap();
    let by_hash = SelectionEntity { id: None, path_hash: Some(String::from("h1")), path: None };
    let found = r.select_by_params(&store, &by_hash);
    assert_eq!(found.iter().map(|s| s.id.unwrap()).collect::<Vec<_>>(), vec![1, 3]);
    let by_both = SelectionEntity { id: Some(3), path_hash: Some(String::from("h1")), path: None };
    assert_eq!(r.select_by_params(&store, &by_both).len(), 1);
    let by_nothing = SelectionEntity { id: None, path_hash: None, path: None };
    assert_eq!(r.select_by_params(&store, &by_nothing).len(), 3);
    let by_path = SelectionEntity { id: None, path_hash: None, path: Some(String::from("/zzz")) };
    assert!(r.select_by_params(&store, &by_path).is_empty());
}

#[test]
fn get_selection_from_browser_finds_first_match() {
    let mut store = Store::new();
    let r = repo();
    r.update_selections(&mut store, vec![entry("/a", "h1"), entry("/b", "h2"), entry("/c", "h2")]).unwrap();
    let found = r.get_selection_from_browser(&store, "h2").unwrap();
    assert_eq!(found.id, Some(2));
    assert_eq!(found.path.as_deref(), Some("/b"));
    assert!(r.get_selection_from_browser(&store, "nope").is_none());
}

#[test]
fn save_choice_with_unknown_hash_is_not_found() {
    let mut store = Store::new();
    let r = repo();
    r.update_selections(&mut store, vec![entry("/a", "h1")]).unwrap();
    let err = r
        .save_choice(&mut store, None, "https://example.com/", "missing", "/x", &noon(), SUFFIXES)
        .unwrap_err();
    assert_eq!(err.kind, ErrorKind::NotFound);
    assert_eq!(err.message(), "Couldn't find selection by path_hash missing to save the choice.");
    assert!(store.history.is_empty());
    assert_eq!(store.next_event_id, 1);
}

#[test]
fn save_choice_not_found_comes_before_parse_error() {
    let mut store = Store::new();
    let err = repo()
        .save_choice(&mut store, None, "no url", "missing", "/x", &noon(), SUFFIXES)
        .unwrap_err();
    assert_eq!(err.kind, ErrorKind::NotFound);
}

#[test]
fn save_choice_with_bad_url_is_a_parse_error() {
    let mut store = Store::new();
    let r = repo();
    r.update_selections(&mut store, vec![entry("/a", "h1")]).unwrap();
    let err = r.save_choice(&mut store, None, "no url", "h1", "/a", &noon(), SUFFIXES).unwrap_err();
    assert_eq!(err.kind, ErrorKind::Parse);
    assert!(store.history.is_empty());
}

#[test]
fn save_choice_appends_one_event() {
    let mut store = Store::new();
    let r = repo();
    r.update_selections(&mut store, vec![entry("/a", "h1"), entry("/b", "h2")]).unwrap();
    r.save_choice(
        &mut store,
        Some(String::from("/usr/bin/mail")),
        "https://mail.google.co.uk/x",
        "h2",
        "/b",
        &noon(),
        SUFFIXES,
    )
    .unwrap();
    assert_eq!(store.history.len(), 1);
    let e = &store.history[0];
    assert_eq!(e.id, Some(1));
    assert_eq!(e.url.as_deref(), Some("https://mail.google.co.uk/x"));
    assert_eq!(e.src.as_deref(), Some("/usr/bin/mail"));
    assert_eq!(e.tld.as_deref(), Some("google.co.uk"));
    assert_eq!(e.weekday, Some(2));
    assert_eq!(e.hour, Some(12));
    assert_eq!(e.selection_id, Some(2));
    assert_eq!(e.date, Some(1_700_000_000));
    assert_eq!(e.count, Some(1));
    assert_eq!(store.next_event_id, 2);
}

#[test]
fn save_choice_without_source_records_empty_source() {
    let mut store = Store::new();
    let r = repo();
    r.update_selections(&mut store, vec![entry("/a", "h1")]).unwrap();
    r.save_choice(&mut store, None, "http://10.1.2.3/", "h1", "/a", &noon(), SUFFIXES).unwrap();
    assert_eq!(store.history[0].src.as_deref(), Some(""));
    assert_eq!(store.history[0].tld.as_deref(), Some("10.1.2.3"));
}

#[test]
fn save_choice_without_event_identity_is_a_store_error() {
    let mut store = Store::new();
    let r = repo();
    r.update_selections(&mut store, vec![entry("/a", "h1")]).unwrap();
    store.next_event_id = usize::MAX;
    let err = r.save_choice(&mut store, None, "http://x.com/", "h1", "/a", &noon(), SUFFIXES).unwrap_err();
    assert_eq!(err.kind, ErrorKind::Store);
    assert!(store.history.is_empty());
}

#[test]
fn save_choice_for_host_takes_the_host_as_given() {
    let mut store = Store::new();
    let r = repo();
    r.update_selections(&mut store, vec![entry("/a", "h1")]).unwrap();
    let host = UrlHost::Domain(String::from("www.example.com"));
    r.save_choice_for_host(&mut store, None, "ignored", &host, "h1", &noon(), SUFFIXES).unwrap();
    assert_eq!(store.history[0].tld.as_deref(), Some("example.com"));
    let missing = r
        .save_choice_for_host(&mut store, None, "ignored", &UrlHost::Missing, "h1", &noon(), SUFFIXES)
        .unwrap_err();
    assert_eq!(missing.kind, ErrorKind::Parse);
    assert_eq!(store.history.len(), 1);
}

#[test]
fn predict_on_empty_store_is_empty_state() {
    let store = Store::new();
    let r = repo();
    let err = r.predict(&store, None, "https://example.com/", &noon(), SUFFIXES).unwrap_err();
    assert_eq!(err.kind, ErrorKind::EmptyState);
    assert_eq!(err.message(), "Selections table is empty.");
    // the guard comes before the URL is looked at
    let err = r.predict(&store, None, "no url", &noon(), SUFFIXES).unwrap_err();
    assert_eq!(err.kind, ErrorKind::EmptyState);
}

#[test]
fn predict_with_bad_url_is_a_parse_error() {
    let mut store = Store::new();
    let r = repo();
    r.update_selections(&mut store, vec![entry("/a", "h1")]).unwrap();
    let err = r.predict(&store, None, "no url", &noon(), SUFFIXES).unwrap_err();
    assert_eq!(err.kind, ErrorKind::Parse);
}

#[test]
fn predict_ranks_by_recorded_choices() {
    let mut store = Store::new();
    let r = repo();
    r.update_selections(&mut store, vec![entry("/a", "ha"), entry("/b", "hb")]).unwrap();
    let now = noon();
    for _ in 0..5 {
        r.save_choice(&mut store, None, "https://docs.example.com/other", "ha", "/a", &now, SUFFIXES).unwrap();
    }
    let elsewhere = Moment { weekday: 6, hour: 3, timestamp: 1_699_000_000, month_ago: Some(1_696_000_000) };
    r.save_choice(
        &mut store,
        Some(String::from("/bin/chat")),
        "https://www.example.com/page",
        "hb",
        "/b",
        &elsewhere,
        "org\n",
    )
    .unwrap();
    let ranked = r.predict(&store, None, "https://www.example.com/page", &now, SUFFIXES).unwrap();
    let paths: Vec<_> = ranked.iter().map(|s| s.path.clone().unwrap()).collect();
    assert_eq!(paths, vec!["/a", "/b"]);
}

#[test]
fn predict_without_the_month_is_an_error_after_the_url_was_read() {
    let mut store = Store::new();
    let r = repo();
    r.update_selections(&mut store, vec![entry("/a", "ha")]).unwrap();
    let now = Moment { weekday: 2, hour: 12, timestamp: 1_700_000_000, month_ago: None };
    let err = r.predict(&store, None, "https://www.example.com/", &now, SUFFIXES).unwrap_err();
    assert_eq!(err.kind, ErrorKind::Other);
    assert_eq!(err.message(), "The calendar cannot tell the moment a month ago.");
    let err = r.predict(&store, None, "no url", &now, SUFFIXES).unwrap_err();
    assert_eq!(err.kind, ErrorKind::Parse);
    let err = r.predict(&Store::new(), None, "no url", &now, SUFFIXES).unwrap_err();
    assert_eq!(err.kind, ErrorKind::EmptyState);
}

#[test]
fn save_choice_does_not_need_the_month() {
    let mut store = Store::new();
    let r = repo();
    r.update_selections(&mut store, vec![entry("/a", "ha")]).unwrap();
    let now = Moment { weekday: 7, hour: 23, timestamp: 1_700_000_000, month_ago: None };
    r.save_choice(&mut store, None, "https://www.example.com/", "ha", "/a", &now, SUFFIXES).unwrap();
    assert_eq!(store.history.len(), 1);
    assert_eq!(store.history[0].weekday, Some(7));
    assert_eq!(store.history[0].hour, Some(23));
}

#[test]
fn save_choice_error_messages() {
    let mut store = Store::new();
    let r = repo();
    r.update_selections(&mut store, vec![entry("/a", "ha")]).unwrap();
    let err = r.save_choice(&mut store, None, "mailto:x@example.com", "ha", "/a", &noon(), SUFFIXES).unwrap_err();
    assert_eq!(err.kind, ErrorKind::Parse);
    assert_eq!(err.message(), "URL has no host");
    let err = r.save_choice(&mut store, None, "no url", "ha", "/a", &noon(), SUFFIXES).unwrap_err();
    assert_eq!(err.message(), "relative URL without a base");
    store.next_event_id = usize::MAX;
    let err = r.save_choice(&mut store, None, "http://x.com/", "ha", "/a", &noon(), SUFFIXES).unwrap_err();
    assert_eq!(err.message(), "No identity is left for the event.");
}

#[test]
fn moment_is_held_to_its_ranges() {
    let now = Moment::new(1, 0, 5, Some(4)).unwrap();
    assert_eq!((now.weekday, now.hour, now.timestamp, now.month_ago), (1, 0, 5, Some(4)));
    let late = Moment::new(7, 23, -1, None).unwrap();
    assert_eq!((late.weekday, late.hour, late.timestamp, late.month_ago), (7, 23, -1, None));
    assert!(Moment::new(0, 12, 0, None).is_none());
    assert!(Moment::new(8, 12, 0, None).is_none());
    assert!(Moment::new(3, 24, 0, None).is_none());
    assert!(Moment::new(65537, 0, 0, None).is_none());
    assert!(Moment::new(1, 65536, 0, None).is_none());
    assert_eq!(HISTORY_MONTHS, 1);
}
