use browser_selector::entities::{SelectionEntity, StatisticsEntity};
use browser_selector::error::ErrorKind;
use browser_selector::predict::{rank_selections, score_selection, Context};

fn selection(id: usize, path: &str) -> SelectionEntity {
    SelectionEntity { id: Some(id), path_hash: Some(format!("hash-{}", id)), path: Some(String::from(path)) }
}

fn context() -> Context {
    Context {
        url: String::from("https://example.com/page"),
        src: String::from("/usr/bin/mail"),
        tld: String::from("example.com"),
        weekday: 3,
        hour: 14,
        month_ago: 1_000,
    }
}

fn event(selection_id: usize, url: &str, src: &str, tld: &str, weekday: u16, hour: u16, date: i64) -> StatisticsEntity {
    StatisticsEntity {
        id: None,
        url: Some(String::from(url)),
        src: Some(String::from(src)),
        tld: Some(String::from(tld)),
        weekday: Some(weekday),
        hour: Some(hour),
        selection_id: Some(selection_id),
        date: Some(date),
        count: Some(1),
    }
}

fn paths(list: &[SelectionEntity]) -> Vec<String> {
    list.iter().map(|s| s.path.clone().unwrap()).collect()
}

#[test]
fn predict_ranking_example() {
    let selections = vec![selection(1, "/a"), selection(2, "/b")];
    let mut events = Vec::new();
    for _ in 0..5 {
        events.push(event(1, "https://other.example.com/", "/bin/other", "example.com", 3, 14, 2_000));
    }
    events.push(event(2, "https://example.com/page", "/bin/other", "elsewhere.org", 5, 9, 2_000));
    let ranked = rank_selections(&selections, &events, &context()).unwrap();
    assert_eq!(paths(&ranked), vec!["/a", "/b"]);
    assert_eq!(score_selection(&events, 1, &context()), 75);
    assert_eq!(score_selection(&events, 2, &context()), 2);
}

#[test]
fn predict_on_no_selections_is_empty_state() {
    let err = rank_selections(&Vec::new(), &Vec::new(), &context()).unwrap_err();
    assert_eq!(err.kind, ErrorKind::EmptyState);
}

#[test]
fn score_of_a_full_match_is_twenty_two() {
    let events = vec![event(7, "https://example.com/page", "/usr/bin/mail", "example.com", 3, 14, 1_001)];
    assert_eq!(score_selection(&events, 7, &context()), 22);
    assert_eq!(score_selection(&events, 8, &context()), 0);
}

#[test]
fn score_of_each_factor() {
    let c = context();
    let none = vec![event(1, "u", "s", "t", 1, 1, 2_000)];
    assert_eq!(score_selection(&none, 1, &c), 1);
    let url = vec![event(1, "https://example.com/page", "s", "t", 1, 1, 2_000)];
    assert_eq!(score_selection(&url, 1, &c), 2);
    let src = vec![event(1, "u", "/usr/bin/mail", "t", 1, 1, 2_000)];
    assert_eq!(score_selection(&src, 1, &c), 7);
    let weekday = vec![event(1, "u", "s", "t", 3, 1, 2_000)];
    assert_eq!(score_selection(&weekday, 1, &c), 5);
    let hour = vec![event(1, "u", "s", "t", 1, 14, 2_000)];
    assert_eq!(score_selection(&hour, 1, &c), 5);
    let tld = vec![event(1, "u", "s", "example.com", 1, 1, 2_000)];
    assert_eq!(score_selection(&tld, 1, &c), 7);
}

#[test]
fn events_of_a_month_ago_or_older_do_not_count() {
    let c = context();
    let events = vec![
        event(1, "u", "s", "t", 1, 1, 1_000),
        event(1, "u", "s", "t", 1, 1, 999),
        event(1, "u", "s", "t", 1, 1, 1_001),
    ];
    assert_eq!(score_selection(&events, 1, &c), 1);
    let mut undated = event(1, "u", "s", "t", 1, 1, 0);
    undated.date = None;
    assert_eq!(score_selection(&vec![undated], 1, &c), 0);
}

#[test]
fn missing_fields_earn_nothing() {
    let c = context();
    let mut e = event(1, "https://example.com/page", "/usr/bin/mail", "example.com", 3, 14, 2_000);
    e.url = None;
    e.weekday = None;
    assert_eq!(score_selection(&vec![e], 1, &c), 1 + 6 + 4 + 6);
}

#[test]
fn equal_scores_share_one_place() {
    let selections = vec![selection(1, "/a"), selection(2, "/b"), selection(3, "/c")];
    let events = vec![event(1, "u", "s", "t", 1, 1, 2_000)];
    let ranked = rank_selections(&selections, &events, &context()).unwrap();
    // /b and /c both score 0: the place goes to the larger identity.
    assert_eq!(paths(&ranked), vec!["/a", "/c"]);
}

#[test]
fn ranking_without_history_lists_the_last_selection() {
    let selections = vec![selection(4, "/x"), selection(9, "/y"), selection(2, "/z")];
    let ranked = rank_selections(&selections, &Vec::new(), &context()).unwrap();
    assert_eq!(paths(&ranked), vec!["/y"]);
}

#[test]
fn ranking_orders_by_falling_score() {
    let selections = vec![selection(1, "/a"), selection(2, "/b"), selection(3, "/c")];
    let events = vec![
        event(2, "u", "s", "example.com", 1, 1, 2_000),
        event(3, "u", "s", "t", 1, 1, 2_000),
        event(3, "u", "s", "t", 1, 1, 2_000),
        event(3, "https://example.com/page", "/usr/bin/mail", "example.com", 3, 14, 2_000),
    ];
    let ranked = rank_selections(&selections, &events, &context()).unwrap();
    assert_eq!(paths(&ranked), vec!["/c", "/b", "/a"]);
}

#[test]
fn ranking_is_the_same_on_every_call() {
    let selections = vec![selection(1, "/a"), selection(2, "/b"), selection(3, "/c")];
    let events = vec![
        event(2, "u", "s", "example.com", 1, 1, 2_000),
        event(1, "u", "/usr/bin/mail", "t", 1, 1, 2_000),
    ];
    let first = rank_selections(&selections, &events, &context()).unwrap();
    let second = rank_selections(&selections, &events, &context()).unwrap();
    assert_eq!(paths(&first), paths(&second));
    assert_eq!(paths(&first), vec!["/b", "/c"]);
}

#[test]
fn events_of_unknown_selections_are_ignored() {
    let selections = vec![selection(1, "/a")];
    let events = vec![event(99, "u", "s", "t", 1, 1, 2_000)];
    let ranked = rank_selections(&selections, &events, &context()).unwrap();
    assert_eq!(paths(&ranked), vec!["/a"]);
}

#[test]
fn the_first_of_two_selections_with_one_identity_stands_for_it() {
    let selections = vec![selection(1, "/first"), selection(1, "/second"), selection(2, "/other")];
    let events = vec![event(1, "u", "s", "t", 1, 1, 2_000)];
    let ranked = rank_selections(&selections, &events, &context()).unwrap();
    assert_eq!(paths(&ranked), vec!["/first", "/other"]);
    let ranked = rank_selections(&selections, &Vec::new(), &context()).unwrap();
    assert_eq!(paths(&ranked), vec!["/other"]);
}

#[test]
fn selections_without_identity_rank_below_those_with_one() {
    let mut nameless = selection(0, "/nameless");
    nameless.id = None;
    let mut also = selection(0, "/also");
    also.id = None;
    let ranked = rank_selections(&vec![nameless.clone(), also.clone()], &Vec::new(), &context()).unwrap();
    assert_eq!(paths(&ranked), vec!["/nameless"]);
    let ranked = rank_selections(&vec![nameless, selection(0, "/zero"), also], &Vec::new(), &context()).unwrap();
    assert_eq!(paths(&ranked), vec!["/zero"]);
}
