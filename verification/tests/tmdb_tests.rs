use reelname::tmdb::{filter_multi_results, rate_limit_decision, tag_results, TmdbSearchResult, RATE_LIMIT_MAX};

fn result(title: Option<&str>, name: Option<&str>, date: Option<&str>) -> TmdbSearchResult {
    TmdbSearchResult {
        id: 1,
        title: title.map(|s| s.to_string()),
        name: name.map(|s| s.to_string()),
        release_date: date.map(|s| s.to_string()),
        first_air_date: None,
        poster_path: None,
        overview: None,
        popularity: None,
        media_type: None,
        vote_average: None,
    }
}

#[test]
fn display_title_prefers_title_then_name() {
    assert_eq!(result(Some("Heat"), Some("Other"), None).display_title(), "Heat");
    assert_eq!(result(None, Some("The Wire"), None).display_title(), "The Wire");
    assert_eq!(result(None, None, None).display_title(), "Unknown");
}

#[test]
fn year_from_dates() {
    assert_eq!(result(None, None, Some("1999-03-31")).year(), Some(1999));
    assert_eq!(result(None, None, Some("19xx-03-31")).year(), None);
    assert_eq!(result(None, None, Some("99")).year(), None);
    let mut r = result(None, None, None);
    r.first_air_date = Some("2008-01-20".to_string());
    assert_eq!(r.year(), Some(2008));
}

#[test]
fn resolved_media_type_defaults_to_unknown() {
    let mut r = result(None, None, None);
    assert_eq!(r.resolved_media_type(), "unknown");
    r.media_type = Some("movie".to_string());
    assert_eq!(r.resolved_media_type(), "movie");
}

#[test]
fn rate_limiter_admits_under_the_cap() {
    let ts: Vec<u64> = vec![100, 200, 300];
    let (kept, wait) = rate_limit_decision(&ts, 1000);
    assert!(wait.is_none());
    // All three are inside the window and the new instant is recorded.
    assert_eq!(kept, vec![100, 200, 300, 1000]);
}

#[test]
fn rate_limiter_prunes_stale_instants() {
    let ts: Vec<u64> = vec![100, 200, 50_000];
    let (kept, wait) = rate_limit_decision(&ts, 55_000);
    assert!(wait.is_none());
    assert_eq!(kept, vec![50_000, 55_000]);
}

#[test]
fn rate_limiter_blocks_at_the_cap() {
    let mut ts: Vec<u64> = Vec::new();
    for i in 0..RATE_LIMIT_MAX as u64 {
        ts.push(10_000 + i);
    }
    let (kept, wait) = rate_limit_decision(&ts, 15_000);
    assert!(wait.is_some());
    assert_eq!(kept.len(), RATE_LIMIT_MAX);
    // The wait runs until the oldest instant leaves the window, plus a
    // small margin.
    assert_eq!(wait.unwrap(), 10_000 - (15_000 - 10_000) + 100);
}

#[test]
fn rate_limiter_never_holds_more_than_the_cap() {
    let mut ts: Vec<u64> = Vec::new();
    let mut now: u64 = 100_000;
    for _ in 0..100 {
        let (kept, wait) = rate_limit_decision(&ts, now);
        assert!(kept.len() <= RATE_LIMIT_MAX);
        ts = kept;
        if wait.is_some() {
            now += 300;
        } else {
            now += 1;
        }
    }
}

#[test]
fn combined_search_keeps_only_movies_and_shows() {
    let mut a = result(Some("A"), None, None);
    a.media_type = Some("movie".to_string());
    let mut b = result(Some("B"), None, None);
    b.media_type = Some("person".to_string());
    let mut c = result(None, Some("C"), None);
    c.media_type = Some("tv".to_string());
    let d = result(Some("D"), None, None);
    let filtered = filter_multi_results(&vec![a, b, c, d]);
    assert_eq!(filtered.len(), 2);
    assert_eq!(filtered[0].title.as_deref(), Some("A"));
    assert_eq!(filtered[1].name.as_deref(), Some("C"));
}

#[test]
fn single_kind_searches_tag_their_results() {
    let a = result(Some("A"), None, Some("1999-01-01"));
    let b = result(Some("B"), None, None);
    let tagged = tag_results(&vec![a, b], "movie");
    assert_eq!(tagged.len(), 2);
    assert_eq!(tagged[0].media_type.as_deref(), Some("movie"));
    assert_eq!(tagged[1].media_type.as_deref(), Some("movie"));
    assert_eq!(tagged[0].title.as_deref(), Some("A"));
    assert_eq!(tagged[0].release_date.as_deref(), Some("1999-01-01"));
}
