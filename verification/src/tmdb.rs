//! Catalog search results and the client-side rules around them: which
//! display name and year a result carries, and the rolling-window rate
//! limit that gates outbound catalog calls. The HTTP transport itself is
//! an external collaborator; this module holds the data and the decisions.

use vstd::prelude::*;

use crate::text::spec_is_digit;
use crate::text::is_digit;
use crate::text::to_chars;
use crate::text::digits_val;
use crate::text::spec_digits_val;

verus! {

/// Most calls allowed in one rolling window.
pub const RATE_LIMIT_MAX: usize = 35;

/// The rolling window, in milliseconds.
pub const RATE_LIMIT_WINDOW_MS: u64 = 10000;

/// One catalog search result. Popularity and vote average are held in
/// hundredths.
#[derive(Debug, Clone)]
pub struct TmdbSearchResult {
    pub id: i64,
    pub title: Option<String>,
    pub name: Option<String>,
    pub release_date: Option<String>,
    pub first_air_date: Option<String>,
    pub poster_path: Option<String>,
    pub overview: Option<String>,
    pub popularity: Option<i64>,
    pub media_type: Option<String>,
    pub vote_average: Option<i64>,
}

/// One episode of a show, as the catalog reports it.
#[derive(Debug, Clone)]
pub struct TmdbEpisode {
    pub id: i64,
    pub name: String,
    pub episode_number: i64,
    pub season_number: i64,
    pub overview: Option<String>,
    pub still_path: Option<String>,
}

/// One season of a show, as the catalog reports it.
#[derive(Debug, Clone)]
pub struct TmdbSeason {
    pub id: i64,
    pub name: String,
    pub season_number: i64,
    pub episode_count: Option<i64>,
    pub air_date: Option<String>,
    pub overview: Option<String>,
    pub poster_path: Option<String>,
}

/// A season with its episode list.
#[derive(Debug, Clone)]
pub struct TmdbSeasonDetail {
    pub id: i64,
    pub name: String,
    pub season_number: i64,
    pub episodes: Vec<TmdbEpisode>,
}

/// The display name of a result: the movie title, else the show name,
/// else a fixed placeholder.
pub open spec fn spec_display_title(c: &TmdbSearchResult) -> Seq<char> {
    if c.title is Some {
        c.title->0@
    } else if c.name is Some {
        c.name->0@
    } else {
        "Unknown"@
    }
}

/// The year led by a date string: its first four characters, when they
/// are all digits.
pub open spec fn spec_date_year(s: Seq<char>) -> Option<int> {
    if s.len() >= 4 && spec_is_digit(s[0]) && spec_is_digit(s[1]) && spec_is_digit(s[2])
        && spec_is_digit(s[3]) {
        Some(spec_digits_val(s, 0, 4))
    } else {
        None
    }
}

/// The year of a result: from its release date, else its first-air date.
pub open spec fn spec_result_year(c: &TmdbSearchResult) -> Option<int> {
    if c.release_date is Some {
        spec_date_year(c.release_date->0@)
    } else if c.first_air_date is Some {
        spec_date_year(c.first_air_date->0@)
    } else {
        None
    }
}

/// The media type a result resolved to, as a string: its tag, else
/// "unknown".
pub open spec fn spec_resolved_media_type(c: &TmdbSearchResult) -> Seq<char> {
    if c.media_type is Some {
        c.media_type->0@
    } else {
        "unknown"@
    }
}

fn date_year(d: &String) -> (r: Option<i64>)
    ensures
        crate::parser::view_opt_i64(r) == spec_date_year(d@),
{
    let v = to_chars(d.as_str());
    if v.len() >= 4 && is_digit(v[0]) && is_digit(v[1]) && is_digit(v[2]) && is_digit(v[3]) {
        Some(digits_val(&v, 0, 4))
    } else {
        None
    }
}

impl TmdbSearchResult {
    /// Display title: the `title` field for movies, the `name` field for
    /// shows.
    pub fn display_title(&self) -> (r: &str)
        ensures
            r@ == spec_display_title(self),
    {
        match &self.title {
            Some(t) => t.as_str(),
            None => match &self.name {
                Some(n) => n.as_str(),
                None => "Unknown",
            },
        }
    }

    /// Year taken from the release date or the first-air date.
    pub fn year(&self) -> (r: Option<i64>)
        ensures
            crate::parser::view_opt_i64(r) == spec_result_year(self),
    {
        match &self.release_date {
            Some(d) => date_year(d),
            None => match &self.first_air_date {
                Some(d) => date_year(d),
                None => None,
            },
        }
    }

    /// The media type this result resolved to.
    pub fn resolved_media_type(&self) -> (r: &str)
        ensures
            r@ == spec_resolved_media_type(self),
    {
        match &self.media_type {
            Some(m) => m.as_str(),
            None => "unknown",
        }
    }
}

/// A recorded call instant still counts against the window at `now`.
pub open spec fn spec_in_window(t: u64, now: u64) -> bool {
    t <= now && now < t + RATE_LIMIT_WINDOW_MS
}

/// The call instants still inside the window, in their original order.
pub open spec fn spec_retained(ts: Seq<u64>, now: u64) -> Seq<u64> {
    ts.filter(|t: u64| spec_in_window(t, now))
}

/// One step of the rolling-window limiter: stale instants are pruned;
/// when fewer than the cap remain the call is admitted and recorded,
/// otherwise the caller must wait until the oldest instant leaves the
/// window. Pure decision logic: the caller owns the clock and the sleep.
pub fn rate_limit_decision(timestamps: &Vec<u64>, now: u64) -> (r: (Vec<u64>, Option<u64>))
    ensures
        r.1 is None ==> r.0@ == spec_retained(timestamps@, now).push(now)
            && spec_retained(timestamps@, now).len() < RATE_LIMIT_MAX,
        r.1 is Some ==> r.0@ == spec_retained(timestamps@, now) && r.0@.len() >= RATE_LIMIT_MAX
            && r.1->0 <= RATE_LIMIT_WINDOW_MS + 100,
        spec_retained(timestamps@, now).len() < RATE_LIMIT_MAX <==> r.1 is None,
{
    let mut kept: Vec<u64> = Vec::new();
    let mut i: usize = 0;
    proof {
        reveal(Seq::filter);
        assert(timestamps@.take(0) =~= Seq::<u64>::empty());
    }
    while i < timestamps.len()
        invariant
            i <= timestamps@.len(),
            kept@ == spec_retained(timestamps@.take(i as int), now),
        decreases timestamps@.len() - i,
    {
        let t = timestamps[i];
        proof {
            reveal(Seq::filter);
            assert(timestamps@.take(i + 1 as int).drop_last() =~= timestamps@.take(i as int));
            assert(timestamps@.take(i + 1 as int).last() == timestamps@[i as int]);
        }
        if t <= now && now - t < RATE_LIMIT_WINDOW_MS {
            kept.push(t);
        }
        i += 1;
    }
    proof {
        assert(timestamps@.take(timestamps@.len() as int) =~= timestamps@);
    }
    if kept.len() < RATE_LIMIT_MAX {
        let mut admitted = kept;
        admitted.push(now);
        (admitted, None)
    } else {
        let oldest = kept[0];
        let ghost f = |t: u64| spec_in_window(t, now);
        proof {
            assert(spec_retained(timestamps@, now)[0] == kept@[0]);
            timestamps@.lemma_filter_pred(f, 0);
            assert(f(kept@[0]));
        }
        let wait = RATE_LIMIT_WINDOW_MS - (now - oldest) + 100;
        (kept, Some(wait))
    }
}

/// Whether a combined-search result resolved to a movie or a show;
/// results of any other kind are dropped from a combined search.
pub open spec fn spec_is_movie_or_tv(c: &TmdbSearchResult) -> bool {
    c.media_type is Some && (c.media_type->0@ == "movie"@ || c.media_type->0@ == "tv"@)
}

pub open spec fn spec_filter_multi(rs: Seq<TmdbSearchResult>) -> Seq<TmdbSearchResult>
    decreases rs.len(),
{
    if rs.len() == 0 {
        Seq::empty()
    } else {
        let rest = spec_filter_multi(rs.drop_last());
        if spec_is_movie_or_tv(&rs.last()) {
            rest.push(rs.last())
        } else {
            rest
        }
    }
}

fn clone_opt_string(o: &Option<String>) -> (r: Option<String>)
    ensures
        r == *o,
{
    match o {
        Some(s) => Some(s.clone()),
        None => None,
    }
}

/// An exact copy of one search result.
fn clone_result(c: &TmdbSearchResult) -> (r: TmdbSearchResult)
    ensures
        r == *c,
{
    TmdbSearchResult {
        id: c.id,
        title: clone_opt_string(&c.title),
        name: clone_opt_string(&c.name),
        release_date: clone_opt_string(&c.release_date),
        first_air_date: clone_opt_string(&c.first_air_date),
        poster_path: clone_opt_string(&c.poster_path),
        overview: clone_opt_string(&c.overview),
        popularity: c.popularity,
        media_type: clone_opt_string(&c.media_type),
        vote_average: c.vote_average,
    }
}

/// Keep only the results of a combined search that resolved to a movie or
/// a show, in their catalog order.
pub fn filter_multi_results(results: &Vec<TmdbSearchResult>) -> (r: Vec<TmdbSearchResult>)
    ensures
        r@ == spec_filter_multi(results@),
{
    let mut out: Vec<TmdbSearchResult> = Vec::new();
    let mut i: usize = 0;
    proof {
        assert(results@.take(0) =~= Seq::<TmdbSearchResult>::empty());
    }
    while i < results.len()
        invariant
            i <= results@.len(),
            out@ == spec_filter_multi(results@.take(i as int)),
        decreases results@.len() - i,
    {
        proof {
            assert(results@.take(i + 1 as int).drop_last() =~= results@.take(i as int));
            assert(results@.take(i + 1 as int).last() == results@[i as int]);
        }
        let keep = match &results[i].media_type {
            Some(m) => crate::text::str_eq(m.as_str(), "movie") || crate::text::str_eq(
                m.as_str(),
                "tv",
            ),
            None => false,
        };
        proof {
            if keep {
                assert(spec_is_movie_or_tv(&results@[i as int]));
            } else {
                assert(!spec_is_movie_or_tv(&results@[i as int]));
            }
        }
        if keep {
            let copy = clone_result(&results[i]);
            out.push(copy);
        }
        i += 1;
    }
    proof {
        assert(results@.take(results@.len() as int) =~= results@);
    }
    out
}

/// A result carries the media-type tag its search implies: a movie-only
/// search yields movies, a show-only search yields shows.
pub open spec fn spec_tag_one(c: TmdbSearchResult, tag: Seq<char>) -> bool {
    c.media_type is Some && c.media_type->0@ == tag
}

/// Tag every search result with the media type implied by the search that
/// produced it, leaving every other field as it was.
pub fn tag_results(results: &Vec<TmdbSearchResult>, tag: &str) -> (r: Vec<TmdbSearchResult>)
    ensures
        r@.len() == results@.len(),
        forall|k: int|
            0 <= k < results@.len() ==> spec_tag_one(#[trigger] r@[k], tag@) && r@[k].id
                == results@[k].id && r@[k].title == results@[k].title && r@[k].name
                == results@[k].name && r@[k].release_date == results@[k].release_date
                && r@[k].first_air_date == results@[k].first_air_date && r@[k].poster_path
                == results@[k].poster_path && r@[k].overview == results@[k].overview
                && r@[k].popularity == results@[k].popularity && r@[k].vote_average
                == results@[k].vote_average,
{
    let mut out: Vec<TmdbSearchResult> = Vec::new();
    let mut i: usize = 0;
    while i < results.len()
        invariant
            i <= results@.len(),
            out@.len() == i,
            forall|k: int|
                0 <= k < i ==> spec_tag_one(#[trigger] out@[k], tag@) && out@[k].id
                    == results@[k].id && out@[k].title == results@[k].title && out@[k].name
                    == results@[k].name && out@[k].release_date == results@[k].release_date
                    && out@[k].first_air_date == results@[k].first_air_date && out@[k].poster_path
                    == results@[k].poster_path && out@[k].overview == results@[k].overview
                    && out@[k].popularity == results@[k].popularity && out@[k].vote_average
                    == results@[k].vote_average,
        decreases results@.len() - i,
    {
        let mut copy = clone_result(&results[i]);
        copy.media_type = Some(tag.to_owned());
        out.push(copy);
        i += 1;
    }
    out
}

} // verus!
