use reelname::parser::{parse_file_name, parse_folder_name};
use reelname::schema::MediaType;

#[test]
fn test_standard_tv() {
    let r = parse_file_name("Breaking.Bad.S01E01.720p.BluRay.x264-DEMAND.mkv");
    assert_eq!(r.season, Some(1));
    assert_eq!(r.episode, Some(1));
    assert_eq!(r.quality, Some("720p".to_string()));
    assert_eq!(r.codec, Some("x264".to_string()));
    assert_eq!(r.media_type, MediaType::Tv);
    assert!(r.title.as_ref().unwrap().contains("Breaking Bad"));
}

#[test]
fn test_movie_with_year() {
    let r = parse_file_name("The.Matrix.1999.1080p.BluRay.x264.mkv");
    assert_eq!(r.year, Some(1999));
    assert_eq!(r.quality, Some("1080p".to_string()));
    assert_eq!(r.media_type, MediaType::Movie);
    assert!(r.title.as_ref().unwrap().contains("The Matrix"));
}

#[test]
fn test_episode_only() {
    let r = parse_file_name("Show.Name.E05.720p.mkv");
    assert_eq!(r.season, Some(1));
    assert_eq!(r.episode, Some(5));
    assert_eq!(r.media_type, MediaType::Tv);
}

#[test]
fn test_2x03_format() {
    let r = parse_file_name("Show.Name.2x03.mkv");
    assert_eq!(r.season, Some(2));
    assert_eq!(r.episode, Some(3));
}

#[test]
fn test_4k_quality() {
    let r = parse_file_name("Movie.2020.2160p.WEB-DL.x265.mkv");
    assert_eq!(r.quality, Some("2160p".to_string()));
    assert_eq!(r.year, Some(2020));
}

#[test]
fn test_folder_with_year_parens() {
    let r = parse_folder_name("The Matrix (1999)");
    assert_eq!(r.title, Some("The Matrix".to_string()));
    assert_eq!(r.year, Some(1999));
}

#[test]
fn test_folder_dots() {
    let r = parse_folder_name("Breaking.Bad.2008");
    assert_eq!(r.title, Some("Breaking Bad".to_string()));
    assert_eq!(r.year, Some(2008));
}

#[test]
fn test_bracket_tags_removed() {
    let r = parse_file_name("[Group] Some.Show.S02E07.1080p.mkv");
    assert_eq!(r.season, Some(2));
    assert_eq!(r.episode, Some(7));
    assert_eq!(r.quality, Some("1080p".to_string()));
    assert_eq!(r.title, Some("Some Show".to_string()));
}

#[test]
fn test_non_year_parens_removed() {
    let r = parse_file_name("Some.Movie.(Director Cut).1999.mkv");
    assert_eq!(r.year, Some(1999));
    assert_eq!(r.title, Some("Some Movie".to_string()));
}

#[test]
fn test_season_episode_words() {
    let r = parse_file_name("My Show Season 3 Episode 12.mkv");
    assert_eq!(r.season, Some(3));
    assert_eq!(r.episode, Some(12));
    assert_eq!(r.media_type, MediaType::Tv);
}

#[test]
fn test_chapter_numbering() {
    let r = parse_file_name("Anime.c2_ep13.720p.mkv");
    assert_eq!(r.season, Some(2));
    assert_eq!(r.episode, Some(13));
}

#[test]
fn test_invalid_year_discarded() {
    let r = parse_file_name("Old.Film.1850.mkv");
    assert_eq!(r.year, None);
    assert_eq!(r.media_type, MediaType::Unknown);
    assert!(r.title.as_ref().unwrap().contains("1850"));
}

#[test]
fn test_no_fields_at_all() {
    let r = parse_file_name("notes.txt");
    assert_eq!(r.year, None);
    assert_eq!(r.season, None);
    assert_eq!(r.episode, None);
    assert_eq!(r.media_type, MediaType::Unknown);
    assert_eq!(r.title, Some("notes".to_string()));
}

#[test]
fn test_empty_title_is_none() {
    let r = parse_file_name("1080p.mkv");
    assert_eq!(r.quality, Some("1080p".to_string()));
    assert_eq!(r.title, None);
}

#[test]
fn test_misc_tags_stripped() {
    let r = parse_file_name("Film.2011.1080p.PROPER.REPACK.HDR.10bit.mkv");
    assert_eq!(r.year, Some(2011));
    assert_eq!(r.title, Some("Film".to_string()));
}

#[test]
fn test_source_and_audio_recognised_but_not_stored() {
    let r = parse_file_name("Show.S01E02.WEBRip.DTS-HD.MA.x265.mkv");
    assert_eq!(r.season, Some(1));
    assert_eq!(r.episode, Some(2));
    assert_eq!(r.codec, Some("x265".to_string()));
    assert_eq!(r.title, Some("Show".to_string()));
}

#[test]
fn test_first_quality_in_priority_order_wins() {
    let r = parse_file_name("Film.2012.720p.2160p.mkv");
    assert_eq!(r.quality, Some("2160p".to_string()));
}

#[test]
fn test_folder_no_year() {
    let r = parse_folder_name("Some Random Folder");
    assert_eq!(r.title, Some("Some Random Folder".to_string()));
    assert_eq!(r.year, None);
}

#[test]
fn test_folder_prefers_paren_year() {
    let r = parse_folder_name("Show (2005) 2008");
    assert_eq!(r.year, Some(2005));
}

#[test]
fn test_pattern_priority_order() {
    // An S01E01-style marker wins over a later 2x03-style one.
    let r = reelname::parser::parse_file_name("Show.S04E08.2x03.mkv");
    assert_eq!(r.season, Some(4));
    assert_eq!(r.episode, Some(8));
}

#[test]
fn test_multiple_trailing_episode_markers() {
    // S01E01E02: the repeats are consumed but only the first pair counts.
    let r = reelname::parser::parse_file_name("Show.S01E01E02.mkv");
    assert_eq!(r.season, Some(1));
    assert_eq!(r.episode, Some(1));
    assert_eq!(r.title, Some("Show".to_string()));
}
