use reelname::matcher::{
    apply_auto_match, calculate_confidence, cascade_status, decide_match, episode_lookup_plan,
    group_decision, is_matchable, rank_candidates, search_kind, tally_decisions,
    title_similarity, MatchDecision, SearchKind,
};
use reelname::schema::{FileCategory, GroupStatus, Job, MediaType};
use reelname::tmdb::TmdbSearchResult;

fn result(
    id: i64,
    title: Option<&str>,
    name: Option<&str>,
    date: Option<&str>,
    media_type: Option<&str>,
    popularity: Option<i64>,
) -> TmdbSearchResult {
    TmdbSearchResult {
        id,
        title: title.map(|s| s.to_string()),
        name: name.map(|s| s.to_string()),
        release_date: date.map(|s| s.to_string()),
        first_air_date: None,
        poster_path: None,
        overview: None,
        popularity,
        media_type: media_type.map(|s| s.to_string()),
        vote_average: None,
    }
}

#[test]
fn title_similarity_exact_values() {
    assert_eq!(title_similarity("abc", "abc"), 1000);
    assert_eq!(title_similarity("The Matrix", "the matrix"), 1000);
    // one substitution over three characters: (3 - 1) * 1000 / 3
    assert_eq!(title_similarity("abc", "abd"), 666);
    assert_eq!(title_similarity("", "abc"), 0);
    assert_eq!(title_similarity("abc", ""), 0);
    assert_eq!(title_similarity("ab", "ba"), 0);
}

#[test]
fn confidence_exact_value_perfect_match() {
    // Exact title (600) + exact year (250) + type agreement (100) +
    // popularity 80.00 of 100 (40) = 990.
    let c = result(1, Some("The Matrix"), None, Some("1999-03-31"), Some("movie"), Some(8000));
    let score = calculate_confidence("The Matrix", Some(1999), MediaType::Movie, &c);
    assert_eq!(score, 990);
}

#[test]
fn confidence_year_falloff() {
    let c = result(1, Some("Heat"), None, Some("1995-12-15"), Some("movie"), None);
    let exact = calculate_confidence("Heat", Some(1995), MediaType::Movie, &c);
    let off1 = calculate_confidence("Heat", Some(1996), MediaType::Movie, &c);
    let off2 = calculate_confidence("Heat", Some(1997), MediaType::Movie, &c);
    let off3 = calculate_confidence("Heat", Some(1998), MediaType::Movie, &c);
    assert_eq!(exact, 600 + 250 + 100);
    assert_eq!(off1, 600 + 150 + 100);
    assert_eq!(off2, 600 + 50 + 100);
    assert_eq!(off3, 600 + 100);
}

#[test]
fn confidence_neutral_factors() {
    // No parsed year (neutral 100), unknown parsed type (neutral 50).
    let c = result(1, Some("Heat"), None, Some("1995-12-15"), Some("movie"), None);
    let score = calculate_confidence("Heat", None, MediaType::Unknown, &c);
    assert_eq!(score, 600 + 100 + 50);
}

#[test]
fn scores_stay_within_unit_range() {
    // Every candidate scores within [0, 1000], whatever its fields hold.
    let candidates = vec![
        result(1, Some("The Matrix"), None, Some("1999-03-31"), Some("movie"), Some(1000000)),
        result(2, None, Some("Matrix"), None, Some("tv"), Some(-500)),
        result(3, None, None, Some("x"), None, None),
        result(4, Some(""), None, Some("2020-01-01"), Some("movie"), Some(10000)),
    ];
    for c in &candidates {
        let s = calculate_confidence("The Matrix", Some(1999), MediaType::Movie, c);
        assert!(0 <= s && s <= 1000);
        let s2 = calculate_confidence("", None, MediaType::Unknown, c);
        assert!(0 <= s2 && s2 <= 1000);
    }
}

#[test]
fn gap_failure_is_ambiguous_even_above_threshold() {
    // top 0.86, second 0.80, threshold 0.85: the gap of 0.06 fails.
    let d = decide_match(860, Some(800), 850);
    assert_eq!(d, MatchDecision::Ambiguous);
}

#[test]
fn single_candidate_gap_counts_as_full() {
    // A single candidate at 0.90 against threshold 0.85 auto-matches.
    let d = decide_match(900, None, 850);
    assert_eq!(d, MatchDecision::AutoMatch);
}

#[test]
fn clear_winner_auto_matches() {
    let d = decide_match(900, Some(700), 850);
    assert_eq!(d, MatchDecision::AutoMatch);
    let below = decide_match(840, Some(100), 850);
    assert_eq!(below, MatchDecision::Ambiguous);
}

#[test]
fn ranking_is_descending_and_stable() {
    let candidates = vec![
        // Scores: id 1 poor title, id 2 exact, id 3 exact (same score as 2).
        result(1, Some("Something Else"), None, Some("1999-01-01"), Some("movie"), None),
        result(2, Some("The Matrix"), None, Some("1999-03-31"), Some("movie"), None),
        result(3, Some("The Matrix"), None, Some("1999-06-01"), Some("movie"), None),
    ];
    let ranked = rank_candidates("The Matrix", Some(1999), MediaType::Movie, &candidates);
    assert_eq!(ranked.len(), 3);
    // Equal scores keep catalog order: index 1 before index 2.
    assert_eq!(ranked[0].0, 1);
    assert_eq!(ranked[1].0, 2);
    assert_eq!(ranked[2].0, 0);
    assert!(ranked[0].1 >= ranked[1].1 && ranked[1].1 >= ranked[2].1);
    assert_eq!(ranked[0].1, ranked[1].1);
}

#[test]
fn ranking_takes_at_most_ten() {
    let mut candidates = Vec::new();
    for i in 0..14 {
        candidates.push(result(i, Some("A"), None, None, Some("movie"), Some(i * 100)));
    }
    let ranked = rank_candidates("A", None, MediaType::Unknown, &candidates);
    assert_eq!(ranked.len(), 10);
}

#[test]
fn empty_candidate_list_is_ambiguous() {
    let ranked: Vec<(usize, i64)> = Vec::new();
    assert_eq!(group_decision(&ranked, 850), MatchDecision::Ambiguous);
}

#[test]
fn batch_tally_counts_both_outcomes() {
    let ds = vec![
        MatchDecision::AutoMatch,
        MatchDecision::Ambiguous,
        MatchDecision::AutoMatch,
        MatchDecision::Ambiguous,
        MatchDecision::Ambiguous,
    ];
    let r = tally_decisions(&ds);
    assert_eq!(r.matched_count, 2);
    assert_eq!(r.ambiguous_count, 3);
}

fn job(id: i64, season: Option<i64>, episode: Option<i64>, category: FileCategory) -> Job {
    Job {
        id,
        group_id: Some(1),
        status: GroupStatus::Matched,
        media_type: MediaType::Tv,
        file_category: category,
        extra_type: None,
        source_path: String::new(),
        file_name: String::new(),
        file_size: 0,
        file_extension: String::new(),
        parsed_title: None,
        parsed_year: None,
        parsed_season: season,
        parsed_episode: episode,
        parsed_quality: None,
        parsed_codec: None,
        tmdb_id: None,
        tmdb_title: None,
        tmdb_year: None,
        tmdb_poster_path: None,
        tmdb_episode_title: None,
        match_confidence: None,
        destination_id: None,
        destination_path: None,
        transfer_progress: None,
        transfer_error: None,
        created_at: String::new(),
        updated_at: String::new(),
    }
}

#[test]
fn episode_plan_skips_extras_and_incomplete_jobs() {
    let jobs = vec![
        job(1, Some(1), Some(1), FileCategory::Episode),
        job(2, Some(1), None, FileCategory::Episode),
        job(3, Some(1), Some(3), FileCategory::Extra),
        job(4, None, Some(4), FileCategory::Episode),
        job(5, Some(2), Some(5), FileCategory::Special),
    ];
    let plan = episode_lookup_plan(&jobs);
    assert_eq!(plan.len(), 2);
    assert_eq!(plan[0].job_id, 1);
    assert_eq!(plan[0].season, 1);
    assert_eq!(plan[0].episode, 1);
    assert_eq!(plan[1].job_id, 5);
    assert_eq!(plan[1].season, 2);
    assert_eq!(plan[1].episode, 5);
}

#[test]
fn search_strategy_follows_media_type() {
    assert_eq!(search_kind(MediaType::Movie), SearchKind::Movies);
    assert_eq!(search_kind(MediaType::Tv), SearchKind::Tv);
    assert_eq!(search_kind(MediaType::Unknown), SearchKind::Multi);
}

#[test]
fn bulk_status_cascades_to_every_job() {
    let mut group = reelname::schema::Group {
        id: 7,
        status: GroupStatus::Matched,
        media_type: MediaType::Tv,
        folder_path: "/in/show".to_string(),
        folder_name: "show".to_string(),
        total_file_count: 2,
        total_file_size: 100,
        parsed_title: Some("Show".to_string()),
        parsed_year: Some(2020),
        tmdb_id: None,
        tmdb_title: None,
        tmdb_year: None,
        tmdb_poster_path: None,
        match_confidence: None,
        destination_id: None,
        created_at: String::new(),
        updated_at: String::new(),
    };
    let mut jobs = vec![
        job(1, Some(1), Some(1), FileCategory::Episode),
        job(2, Some(1), Some(2), FileCategory::Episode),
    ];
    cascade_status(&mut group, &mut jobs, GroupStatus::Confirmed);
    assert_eq!(group.status, GroupStatus::Confirmed);
    assert_eq!(group.folder_name, "show");
    assert_eq!(jobs.len(), 2);
    assert_eq!(jobs[0].status, GroupStatus::Confirmed);
    assert_eq!(jobs[1].status, GroupStatus::Confirmed);
    assert_eq!(jobs[0].id, 1);
    assert_eq!(jobs[1].parsed_episode, Some(2));
}

#[test]
fn auto_match_cascades_catalog_identity() {
    let mut group = reelname::schema::Group {
        id: 7,
        status: GroupStatus::Scanned,
        media_type: MediaType::Unknown,
        folder_path: "/in/show".to_string(),
        folder_name: "show".to_string(),
        total_file_count: 1,
        total_file_size: 100,
        parsed_title: Some("Breaking Bad".to_string()),
        parsed_year: Some(2008),
        tmdb_id: None,
        tmdb_title: None,
        tmdb_year: None,
        tmdb_poster_path: None,
        match_confidence: None,
        destination_id: None,
        created_at: String::new(),
        updated_at: String::new(),
    };
    let mut jobs = vec![job(1, Some(1), Some(1), FileCategory::Episode)];
    apply_auto_match(
        &mut group,
        &mut jobs,
        1396,
        "Breaking Bad",
        Some(2008),
        &Some("/poster.jpg".to_string()),
        990,
        MediaType::Tv,
    );
    assert_eq!(group.status, GroupStatus::Matched);
    assert_eq!(group.tmdb_id, Some(1396));
    assert_eq!(group.tmdb_title.as_deref(), Some("Breaking Bad"));
    assert_eq!(group.tmdb_year, Some(2008));
    assert_eq!(group.match_confidence, Some(990));
    assert_eq!(group.media_type, MediaType::Tv);
    assert_eq!(group.parsed_title.as_deref(), Some("Breaking Bad"));
    assert_eq!(jobs[0].status, GroupStatus::Matched);
    assert_eq!(jobs[0].tmdb_id, Some(1396));
    assert_eq!(jobs[0].tmdb_title.as_deref(), Some("Breaking Bad"));
    assert_eq!(jobs[0].tmdb_poster_path.as_deref(), Some("/poster.jpg"));
    assert_eq!(jobs[0].media_type, MediaType::Tv);
    assert_eq!(jobs[0].parsed_season, Some(1));
}

#[test]
fn only_scanned_and_ambiguous_groups_rematch() {
    assert!(is_matchable(GroupStatus::Scanned));
    assert!(is_matchable(GroupStatus::Ambiguous));
    assert!(!is_matchable(GroupStatus::Matched));
    assert!(!is_matchable(GroupStatus::Confirmed));
    assert!(!is_matchable(GroupStatus::Completed));
}
