//! Confidence scorer and auto-match decision rule. A parsed record is held
//! against each catalog candidate with a weighted sum of four sub-scores
//! (title similarity, year proximity, media-type agreement, popularity),
//! expressed in per-mille so that a score always lies in 0 ..= 1000.
//! Candidates are ranked by descending score with ties broken by catalog
//! order, and a group auto-matches only when the best score clears the
//! configured threshold and stands far enough above the runner-up.

use vstd::prelude::*;

use crate::schema::FileCategory;
use crate::schema::Group;
use crate::schema::GroupStatus;
use crate::schema::Job;
use crate::schema::MediaType;
use crate::schema::spec_media_type_from;
use crate::parser::view_opt_i64;
use crate::tmdb::TmdbSearchResult;
use crate::tmdb::spec_display_title;
use crate::tmdb::spec_result_year;
use crate::tmdb::spec_resolved_media_type;
use crate::text::spec_eq_ci;
use crate::text::spec_eq_ci_seq;
use crate::text::eq_ci;
use crate::text::to_chars;

verus! {

pub open spec fn spec_min3(a: int, b: int, c: int) -> int {
    if a <= b && a <= c {
        a
    } else if b <= c {
        b
    } else {
        c
    }
}

/// Edit distance between two names, folding ASCII case: the least number
/// of character insertions, deletions and substitutions turning one into
/// the other.
pub open spec fn spec_lev(a: Seq<char>, b: Seq<char>) -> int
    decreases a.len() + b.len(),
{
    if a.len() == 0 {
        b.len() as int
    } else if b.len() == 0 {
        a.len() as int
    } else {
        let cost: int = if spec_eq_ci(a.last(), b.last()) {
            0
        } else {
            1
        };
        spec_min3(
            spec_lev(a.drop_last(), b) + 1,
            spec_lev(a, b.drop_last()) + 1,
            spec_lev(a.drop_last(), b.drop_last()) + cost,
        )
    }
}

pub open spec fn spec_max(a: int, b: int) -> int {
    if a >= b {
        a
    } else {
        b
    }
}

pub proof fn lemma_lev_bounds(a: Seq<char>, b: Seq<char>)
    ensures
        0 <= spec_lev(a, b) <= spec_max(a.len() as int, b.len() as int),
    decreases a.len() + b.len(),
{
    if a.len() > 0 && b.len() > 0 {
        lemma_lev_bounds(a.drop_last(), b);
        lemma_lev_bounds(a, b.drop_last());
        lemma_lev_bounds(a.drop_last(), b.drop_last());
    }
}

/// Edit distance, computed row by row.
fn lev_ci(a: &Vec<char>, b: &Vec<char>) -> (r: usize)
    ensures
        r == spec_lev(a@, b@),
{
    let na = a.len();
    let nb = b.len();
    let mut prev: Vec<u128> = Vec::new();
    while prev.len() <= nb
        invariant
            nb == b@.len(),
            prev@.len() <= nb + 1,
            forall|q: int|
                0 <= q < prev@.len() ==> prev@[q] == spec_lev(Seq::<char>::empty(), b@.take(q)),
        decreases nb + 1 - prev@.len(),
    {
        let j = prev.len();
        prev.push(j as u128);
        proof {
            assert(b@.take(j as int).len() == j);
            assert(spec_lev(Seq::<char>::empty(), b@.take(j as int)) == j);
        }
    }
    let mut i: usize = 0;
    while i < na
        invariant
            i <= na,
            na == a@.len(),
            nb == b@.len(),
            prev@.len() == nb + 1,
            forall|q: int| 0 <= q <= nb ==> prev@[q] == spec_lev(a@.take(i as int), b@.take(q)),
        decreases na - i,
    {
        let ri = i + 1;
        let mut cur: Vec<u128> = Vec::new();
        cur.push(ri as u128);
        proof {
            assert(a@.take(ri as int).len() == ri);
            assert(spec_lev(a@.take(ri as int), b@.take(0)) == ri) by {
                assert(b@.take(0).len() == 0);
            }
        }
        while cur.len() <= nb
            invariant
                i + 1 == ri <= na,
                na == a@.len(),
                nb == b@.len(),
                prev@.len() == nb + 1,
                1 <= cur@.len() <= nb + 1,
                forall|q: int|
                    0 <= q <= nb ==> prev@[q] == spec_lev(a@.take(i as int), b@.take(q)),
                forall|q: int|
                    0 <= q < cur@.len() ==> cur@[q] == spec_lev(a@.take(ri as int), b@.take(q)),
            decreases nb + 1 - cur@.len(),
        {
            let j = cur.len();
            let cost: u128 = if eq_ci(a[ri - 1], b[j - 1]) {
                0
            } else {
                1
            };
            proof {
                lemma_lev_bounds(a@.take(i as int), b@.take(j as int));
                lemma_lev_bounds(a@.take(ri as int), b@.take(j - 1));
                lemma_lev_bounds(a@.take(i as int), b@.take(j - 1));
            }
            let c1 = prev[j] + 1;
            let c2 = cur[j - 1] + 1;
            let c3 = prev[j - 1] + cost;
            let m = if c1 <= c2 && c1 <= c3 {
                c1
            } else if c2 <= c3 {
                c2
            } else {
                c3
            };
            proof {
                assert(a@.take(ri as int).drop_last() =~= a@.take(i as int));
                assert(b@.take(j as int).drop_last() =~= b@.take(j - 1));
                assert(a@.take(ri as int).last() == a@[i as int]);
                assert(b@.take(j as int).last() == b@[j - 1]);
                assert(spec_lev(a@.take(ri as int), b@.take(j as int)) == spec_min3(
                    spec_lev(a@.take(i as int), b@.take(j as int)) + 1,
                    spec_lev(a@.take(ri as int), b@.take(j - 1)) + 1,
                    spec_lev(a@.take(i as int), b@.take(j - 1)) + cost,
                ));
            }
            cur.push(m);
        }
        prev = cur;
        i += 1;
    }
    let out = prev[nb];
    proof {
        assert(a@.take(na as int) =~= a@);
        assert(b@.take(nb as int) =~= b@);
        lemma_lev_bounds(a@, b@);
    }
    out as usize
}

/// Title similarity in per-mille: 1000 means the names are equal up to
/// ASCII case; an empty name on either side scores 0.
pub open spec fn spec_title_similarity(a: Seq<char>, b: Seq<char>) -> int {
    if a.len() == 0 || b.len() == 0 {
        0
    } else {
        let m = spec_max(a.len() as int, b.len() as int);
        (m - spec_lev(a, b)) * 1000 / m
    }
}

/// Normalised edit-distance similarity of two titles, in per-mille.
pub fn title_similarity(a: &str, b: &str) -> (r: i64)
    ensures
        r == spec_title_similarity(a@, b@),
        0 <= r <= 1000,
{
    let va = to_chars(a);
    let vb = to_chars(b);
    let na = va.len();
    let nb = vb.len();
    if na == 0 || nb == 0 {
        return 0;
    }
    let d = lev_ci(&va, &vb);
    let m = if na >= nb {
        na
    } else {
        nb
    };
    proof {
        lemma_lev_bounds(a@, b@);
    }
    let num = (m - d) as u128 * 1000;
    let r = (num / m as u128) as i64;
    proof {
        let mi = m as int;
        let di = d as int;
        assert((mi - di) * 1000 / mi <= 1000) by (nonlinear_arith)
            requires
                0 < mi,
                0 <= di <= mi,
        ;
        assert((mi - di) * 1000 / mi >= 0) by (nonlinear_arith)
            requires
                0 < mi,
                0 <= di <= mi,
        ;
    }
    r
}

/// Weight of the title-similarity factor, in per-mille of the total.
pub const WEIGHT_TITLE: i64 = 600;

/// Score the auto-match gap must reach, in per-mille.
pub const AUTO_MATCH_GAP: i64 = 150;

/// Title sub-score: similarity scaled into the title weight.
pub open spec fn spec_title_score(a: Seq<char>, b: Seq<char>) -> int {
    if a.len() == 0 || b.len() == 0 {
        0
    } else {
        let m = spec_max(a.len() as int, b.len() as int);
        (m - spec_lev(a, b)) * WEIGHT_TITLE / m
    }
}

/// Year sub-score: full weight for an exact year, falling off sharply
/// with distance; a missing parsed year is neutral.
pub open spec fn spec_year_score(parsed: Option<int>, candidate: Option<int>) -> int {
    match parsed {
        Some(py) => match candidate {
            Some(cy) => {
                let diff = if py >= cy {
                    py - cy
                } else {
                    cy - py
                };
                if diff == 0 {
                    250
                } else if diff == 1 {
                    150
                } else if diff == 2 {
                    50
                } else {
                    0
                }
            },
            None => 0,
        },
        None => 100,
    }
}

/// Media-type sub-score: an unknown parsed type is neutral; agreement
/// earns the full weight.
pub open spec fn spec_type_score(parsed: MediaType, candidate: MediaType) -> int {
    if parsed == MediaType::Unknown {
        50
    } else if parsed == candidate {
        100
    } else {
        0
    }
}

/// Popularity sub-score: candidate popularity (in hundredths) clamped to
/// 100.00 and scaled into the smallest weight.
pub open spec fn spec_pop_score(popularity: Option<int>) -> int {
    let p = match popularity {
        Some(v) => v,
        None => 0,
    };
    let clamped = if p < 0 {
        0
    } else if p > 10000 {
        10000
    } else {
        p
    };
    clamped * 50 / 10000
}

/// Confidence of one candidate against a parsed record, in per-mille: the
/// sum of the four weighted sub-scores. The weights do not renormalise,
/// so a neutral factor keeps even a perfect title below 1000.
pub open spec fn spec_confidence(
    parsed_title: Seq<char>,
    parsed_year: Option<int>,
    parsed_media_type: MediaType,
    c: &TmdbSearchResult,
) -> int {
    spec_title_score(parsed_title, spec_display_title(c)) + spec_year_score(
        parsed_year,
        spec_result_year(c),
    ) + spec_type_score(parsed_media_type, spec_media_type_from(spec_resolved_media_type(c)))
        + spec_pop_score(view_opt_i64(c.popularity))
}

/// Confidence score for one catalog result against parsed identity.
/// Always within 0 ..= 1000.
pub fn calculate_confidence(
    parsed_title: &str,
    parsed_year: Option<i64>,
    parsed_media_type: MediaType,
    result: &TmdbSearchResult,
) -> (r: i64)
    ensures
        r == spec_confidence(parsed_title@, view_opt_i64(parsed_year), parsed_media_type, result),
        0 <= r <= 1000,
{
    let display = result.display_title();
    let va = to_chars(parsed_title);
    let vb = to_chars(display);
    let na = va.len();
    let nb = vb.len();
    let title_score: i64 = if na == 0 || nb == 0 {
        0
    } else {
        let d = lev_ci(&va, &vb);
        let m = if na >= nb {
            na
        } else {
            nb
        };
        proof {
            lemma_lev_bounds(va@, vb@);
            let mi = m as int;
            let di = spec_lev(va@, vb@);
            assert(0 <= (mi - di) * 600 / mi <= 600) by (nonlinear_arith)
                requires
                    0 < mi,
                    0 <= di <= mi,
            ;
        }
        let num = (m - d) as u128 * 600;
        (num / m as u128) as i64
    };
    let cand_year = result.year();
    let year_score: i64 = match (parsed_year, cand_year) {
        (Some(py), Some(cy)) => {
            let diff: i128 = if py >= cy {
                py as i128 - cy as i128
            } else {
                cy as i128 - py as i128
            };
            if diff == 0 {
                250
            } else if diff == 1 {
                150
            } else if diff == 2 {
                50
            } else {
                0
            }
        },
        (None, _) => 100,
        (_, None) => 0,
    };
    let resolved = MediaType::from_str(result.resolved_media_type());
    let type_score: i64 = if parsed_media_type == MediaType::Unknown {
        50
    } else if parsed_media_type == resolved {
        100
    } else {
        0
    };
    let pop = match result.popularity {
        Some(p) => p,
        None => 0,
    };
    let clamped = if pop < 0 {
        0
    } else if pop > 10000 {
        10000
    } else {
        pop
    };
    let pop_score: i64 = clamped * 50 / 10000;
    title_score + year_score + type_score + pop_score
}


/// Strict ranking order on `(catalog index, score)` pairs: higher score
/// first, ties broken by the original catalog order.
pub open spec fn spec_rank_before(x: (usize, i64), y: (usize, i64)) -> bool {
    x.1 > y.1 || (x.1 == y.1 && x.0 < y.0)
}

/// Some entry of the ranked list carries catalog index `k`.
pub open spec fn spec_rank_contains(s: Seq<(usize, i64)>, k: int) -> bool {
    exists|p: int| 0 <= p < s.len() && (#[trigger] s[p].0) as int == k
}

/// How many of the leading results are considered: at most ten.
pub open spec fn spec_rank_count(n: int) -> int {
    if n > 10 {
        10
    } else {
        n
    }
}

/// Score the top ten results and rank them by descending confidence,
/// original catalog order breaking ties. The four clauses pin the output
/// list uniquely: its length, its strict order, each entry's score, and
/// that every considered index appears.
pub fn rank_candidates(
    parsed_title: &str,
    parsed_year: Option<i64>,
    parsed_media_type: MediaType,
    results: &Vec<TmdbSearchResult>,
) -> (r: Vec<(usize, i64)>)
    ensures
        r@.len() == spec_rank_count(results@.len() as int),
        forall|p: int, q: int| 0 <= p < q < r@.len() ==> spec_rank_before(r@[p], r@[q]),
        forall|p: int|
            0 <= p < r@.len() ==> (r@[p].0 as int) < r@.len() && r@[p].1 == spec_confidence(
                parsed_title@,
                view_opt_i64(parsed_year),
                parsed_media_type,
                &results@[r@[p].0 as int],
            ) && 0 <= r@[p].1 <= 1000,
        forall|k: int| 0 <= k < r@.len() ==> spec_rank_contains(r@, k),
{
    let n: usize = if results.len() > 10 {
        10
    } else {
        results.len()
    };
    let mut out: Vec<(usize, i64)> = Vec::new();
    let mut k: usize = 0;
    while k < n
        invariant
            k <= n,
            n == spec_rank_count(results@.len() as int),
            n <= results@.len(),
            out@.len() == k,
            forall|p: int, q: int| 0 <= p < q < k ==> spec_rank_before(out@[p], out@[q]),
            forall|p: int|
                0 <= p < k ==> (out@[p].0 as int) < k && out@[p].1 == spec_confidence(
                    parsed_title@,
                    view_opt_i64(parsed_year),
                    parsed_media_type,
                    &results@[out@[p].0 as int],
                ) && 0 <= out@[p].1 <= 1000,
            forall|j: int| 0 <= j < k ==> spec_rank_contains(out@, j),
        decreases n - k,
    {
        let score = calculate_confidence(parsed_title, parsed_year, parsed_media_type, &results[k]);
        let mut pos: usize = 0;
        while pos < out.len() && out[pos].1 >= score
            invariant
                pos <= out@.len(),
                forall|p: int| 0 <= p < pos ==> out@[p].1 >= score,
            decreases out@.len() - pos,
        {
            pos += 1;
        }
        let ghost old_out = out@;
        proof {
            old_out.insert_ensures(pos as int, (k, score));
        }
        out.insert(pos, (k, score));
        proof {
            assert forall|p: int, q: int| 0 <= p < q < k + 1 implies spec_rank_before(
                out@[p],
                out@[q],
            ) by {
                if q < pos {
                    assert(out@[p] == old_out[p] && out@[q] == old_out[q]);
                } else if p > pos {
                    assert(out@[p] == old_out[p - 1] && out@[q] == old_out[q - 1]);
                } else if p < pos && q == pos {
                    assert(out@[p] == old_out[p]);
                    assert(out@[q] == (k, score));
                    assert(old_out[p].1 >= score);
                    assert(old_out[p].0 < k);
                } else if p == pos && q > pos {
                    assert(out@[p] == (k, score));
                    assert(out@[q] == old_out[q - 1]);
                    assert(old_out[pos as int].1 < score);
                    if q - 1 > pos {
                        assert(spec_rank_before(old_out[pos as int], old_out[q - 1]));
                    }
                    assert(old_out[q - 1].1 < score);
                } else {
                    assert(p < pos && q > pos);
                    assert(out@[p] == old_out[p] && out@[q] == old_out[q - 1]);
                }
            }
            assert forall|j: int| 0 <= j < k + 1 implies spec_rank_contains(out@, j) by {
                if j == k {
                    assert(out@[pos as int].0 as int == k);
                } else {
                    assert(spec_rank_contains(old_out, j));
                    let p0 = choose|p: int| 0 <= p < old_out.len() && (#[trigger] old_out[p].0)
                        as int == j;
                    if p0 < pos {
                        assert(out@[p0].0 as int == j);
                    } else {
                        assert(out@[p0 + 1].0 as int == j);
                    }
                }
            }
        }
        k += 1;
    }
    out
}

/// The outcome of holding a ranked candidate list against the threshold.
#[derive(Debug, Clone, Copy, PartialEq, Eq, Structural)]
pub enum MatchDecision {
    AutoMatch,
    Ambiguous,
}

/// The auto-match gap: the distance from the best score to the runner-up,
/// taken as the full scale when only one candidate exists.
pub open spec fn spec_gap(top: i64, second: Option<i64>) -> int {
    match second {
        Some(s) => top - s,
        None => 1000,
    }
}

/// The decision rule: auto-match exactly when the best score reaches the
/// threshold and the gap to the runner-up reaches the fixed gap floor.
pub open spec fn spec_decide(top: i64, second: Option<i64>, threshold: i64) -> MatchDecision {
    if top >= threshold && spec_gap(top, second) >= AUTO_MATCH_GAP {
        MatchDecision::AutoMatch
    } else {
        MatchDecision::Ambiguous
    }
}

/// Apply the auto-match rule to the best score and the runner-up score.
pub fn decide_match(top: i64, second: Option<i64>, threshold: i64) -> (r: MatchDecision)
    requires
        0 <= top <= 1000,
        match second {
            Some(s) => 0 <= s <= 1000,
            None => true,
        },
    ensures
        r == spec_decide(top, second, threshold),
        r == MatchDecision::AutoMatch <==> top >= threshold && spec_gap(top, second)
            >= AUTO_MATCH_GAP,
{
    let gap: i64 = match second {
        Some(s) => top - s,
        None => 1000,
    };
    if top >= threshold && gap >= AUTO_MATCH_GAP {
        MatchDecision::AutoMatch
    } else {
        MatchDecision::Ambiguous
    }
}

/// The decision for one ranked candidate list, as the match flow takes
/// it: ambiguous when the list is empty, otherwise the rule over the best
/// and runner-up scores.
pub open spec fn spec_group_decision(ranked: Seq<(usize, i64)>, threshold: i64) -> MatchDecision {
    if ranked.len() == 0 {
        MatchDecision::Ambiguous
    } else if ranked.len() == 1 {
        spec_decide(ranked[0].1, None, threshold)
    } else {
        spec_decide(ranked[0].1, Some(ranked[1].1), threshold)
    }
}

/// Decide a group from its ranked candidate list.
pub fn group_decision(ranked: &Vec<(usize, i64)>, threshold: i64) -> (r: MatchDecision)
    requires
        forall|p: int| 0 <= p < ranked@.len() ==> 0 <= (#[trigger] ranked@[p]).1 <= 1000,
    ensures
        r == spec_group_decision(ranked@, threshold),
{
    if ranked.len() == 0 {
        MatchDecision::Ambiguous
    } else if ranked.len() == 1 {
        decide_match(ranked[0].1, None, threshold)
    } else {
        decide_match(ranked[0].1, Some(ranked[1].1), threshold)
    }
}

/// Summary returned by a batch match run.
#[derive(Debug, Clone, Copy, PartialEq, Eq, Structural)]
pub struct MatchResult {
    pub matched_count: usize,
    pub ambiguous_count: usize,
}

/// How many of a batch's decisions auto-matched.
pub open spec fn spec_count_auto(ds: Seq<MatchDecision>) -> int
    decreases ds.len(),
{
    if ds.len() == 0 {
        0
    } else {
        spec_count_auto(ds.drop_last()) + if ds.last() == MatchDecision::AutoMatch {
            1int
        } else {
            0int
        }
    }
}

/// Tally a batch of per-group decisions into the summary handed back to
/// the caller: every group lands in exactly one of the two counts, so a
/// failing group never hides or alters another group's outcome.
pub fn tally_decisions(ds: &Vec<MatchDecision>) -> (r: MatchResult)
    ensures
        r.matched_count == spec_count_auto(ds@),
        r.matched_count + r.ambiguous_count == ds@.len(),
{
    let mut matched: usize = 0;
    let mut i: usize = 0;
    proof {
        assert(ds@.take(0) =~= Seq::<MatchDecision>::empty());
    }
    while i < ds.len()
        invariant
            i <= ds@.len(),
            matched == spec_count_auto(ds@.take(i as int)),
            matched <= i,
        decreases ds@.len() - i,
    {
        proof {
            assert(ds@.take(i + 1 as int).drop_last() =~= ds@.take(i as int));
            assert(ds@.take(i + 1 as int).last() == ds@[i as int]);
        }
        if ds[i] == MatchDecision::AutoMatch {
            matched += 1;
        }
        i += 1;
    }
    proof {
        assert(ds@.take(ds@.len() as int) =~= ds@);
    }
    MatchResult { matched_count: matched, ambiguous_count: ds.len() - matched }
}

/// One per-episode catalog lookup owed after a show auto-matches.
#[derive(Debug, Clone, Copy, PartialEq, Eq, Structural)]
pub struct EpisodeLookup {
    pub job_id: i64,
    pub season: i64,
    pub episode: i64,
}

/// Whether a job needs an episode-title lookup: both season and episode
/// were parsed, and the file is not bonus material.
pub open spec fn spec_needs_episode_lookup(j: &Job) -> bool {
    j.parsed_season is Some && j.parsed_episode is Some && j.file_category != FileCategory::Extra
}

pub open spec fn spec_episode_plan(jobs: Seq<Job>) -> Seq<EpisodeLookup>
    decreases jobs.len(),
{
    if jobs.len() == 0 {
        Seq::empty()
    } else {
        let rest = spec_episode_plan(jobs.drop_last());
        let j = jobs.last();
        if spec_needs_episode_lookup(&j) {
            rest.push(
                EpisodeLookup {
                    job_id: j.id,
                    season: j.parsed_season->0,
                    episode: j.parsed_episode->0,
                },
            )
        } else {
            rest
        }
    }
}

/// The per-episode lookups owed for a group's jobs, in job order: one for
/// each job with both season and episode parsed, skipping bonus material.
pub fn episode_lookup_plan(jobs: &Vec<Job>) -> (r: Vec<EpisodeLookup>)
    ensures
        r@ == spec_episode_plan(jobs@),
{
    let mut out: Vec<EpisodeLookup> = Vec::new();
    let mut i: usize = 0;
    proof {
        assert(jobs@.take(0) =~= Seq::<Job>::empty());
    }
    while i < jobs.len()
        invariant
            i <= jobs@.len(),
            out@ == spec_episode_plan(jobs@.take(i as int)),
        decreases jobs@.len() - i,
    {
        proof {
            assert(jobs@.take(i + 1 as int).drop_last() =~= jobs@.take(i as int));
            assert(jobs@.take(i + 1 as int).last() == jobs@[i as int]);
        }
        let j = &jobs[i];
        if j.parsed_season.is_some() && j.parsed_episode.is_some() && !(j.file_category
            == FileCategory::Extra) {
            let season = match j.parsed_season {
                Some(s) => s,
                None => 0,
            };
            let episode = match j.parsed_episode {
                Some(e) => e,
                None => 0,
            };
            out.push(EpisodeLookup { job_id: j.id, season, episode });
        }
        i += 1;
    }
    proof {
        assert(jobs@.take(jobs@.len() as int) =~= jobs@);
    }
    out
}

/// The search strategy the match flow picks for a group, by its media
/// type: a movie search, a show search, or the combined search.
#[derive(Debug, Clone, Copy, PartialEq, Eq, Structural)]
pub enum SearchKind {
    Movies,
    Tv,
    Multi,
}

pub open spec fn spec_search_kind(m: MediaType) -> SearchKind {
    match m {
        MediaType::Movie => SearchKind::Movies,
        MediaType::Tv => SearchKind::Tv,
        MediaType::Unknown => SearchKind::Multi,
    }
}

pub fn search_kind(media_type: MediaType) -> (r: SearchKind)
    ensures
        r == spec_search_kind(media_type),
{
    match media_type {
        MediaType::Movie => SearchKind::Movies,
        MediaType::Tv => SearchKind::Tv,
        MediaType::Unknown => SearchKind::Multi,
    }
}

/// Everything the match flow decides for one group once its catalog
/// results are in hand: the ranked candidate list to persist and the
/// auto-match verdict over it.
pub fn plan_group_match(
    parsed_title: &str,
    parsed_year: Option<i64>,
    parsed_media_type: MediaType,
    results: &Vec<TmdbSearchResult>,
    threshold: i64,
) -> (r: (Vec<(usize, i64)>, MatchDecision))
    ensures
        r.0@.len() == spec_rank_count(results@.len() as int),
        forall|p: int, q: int| 0 <= p < q < r.0@.len() ==> spec_rank_before(r.0@[p], r.0@[q]),
        forall|p: int|
            0 <= p < r.0@.len() ==> (r.0@[p].0 as int) < r.0@.len() && r.0@[p].1
                == spec_confidence(
                parsed_title@,
                view_opt_i64(parsed_year),
                parsed_media_type,
                &results@[r.0@[p].0 as int],
            ) && 0 <= r.0@[p].1 <= 1000,
        forall|k: int| 0 <= k < r.0@.len() ==> spec_rank_contains(r.0@, k),
        r.1 == spec_group_decision(r.0@, threshold),
{
    let ranked = rank_candidates(parsed_title, parsed_year, parsed_media_type, results);
    let decision = group_decision(&ranked, threshold);
    (ranked, decision)
}

/// One job after a bulk status change: the status replaced, everything
/// else exactly as it was.
pub open spec fn spec_job_with_status(j: Job, s: GroupStatus) -> Job {
    Job { status: s, ..j }
}

/// One group after a bulk status change.
pub open spec fn spec_group_with_status(g: Group, s: GroupStatus) -> Group {
    Group { status: s, ..g }
}

/// Move a group and every job it owns to one status together: the
/// two-step transactional update behind bulk actions. Either every record
/// handed in leaves with the new status, or the caller retries; nothing
/// else about any record changes.
pub fn cascade_status(group: &mut Group, jobs: &mut Vec<Job>, status: GroupStatus)
    ensures
        *final(group) == spec_group_with_status(*old(group), status),
        final(jobs)@.len() == old(jobs)@.len(),
        forall|k: int|
            0 <= k < old(jobs)@.len() ==> final(jobs)@[k] == spec_job_with_status(
                old(jobs)@[k],
                status,
            ),
{
    group.status = status;
    let ghost jobs0 = jobs@;
    let mut i: usize = 0;
    while i < jobs.len()
        invariant
            i <= jobs@.len(),
            jobs@.len() == jobs0.len(),
            forall|k: int| 0 <= k < i ==> jobs@[k] == spec_job_with_status(jobs0[k], status),
            forall|k: int| i <= k < jobs0.len() ==> jobs@[k] == jobs0[k],
        decreases jobs@.len() - i,
    {
        let ghost before = jobs@;
        let mut j = jobs.remove(i);
        j.status = status;
        jobs.insert(i, j);
        proof {
            assert(jobs@ =~= before.update(i as int, spec_job_with_status(jobs0[i as int], status)));
        }
        i += 1;
    }
}

/// The unchanged remainder of a group across the auto-match cascade: its
/// identity, source folder and parse results are untouched.
pub open spec fn spec_group_rest_unchanged(o: Group, n: Group) -> bool {
    n.id == o.id && n.folder_path == o.folder_path && n.folder_name == o.folder_name
        && n.total_file_count == o.total_file_count && n.total_file_size == o.total_file_size
        && n.parsed_title == o.parsed_title && n.parsed_year == o.parsed_year && n.destination_id
        == o.destination_id && n.created_at == o.created_at && n.updated_at == o.updated_at
}

/// The unchanged remainder of a job across the auto-match cascade: its
/// identity, parse results and transfer state are untouched.
pub open spec fn spec_job_rest_unchanged(o: Job, n: Job) -> bool {
    n.id == o.id && n.group_id == o.group_id && n.file_category == o.file_category && n.extra_type
        == o.extra_type && n.source_path == o.source_path && n.file_name == o.file_name
        && n.file_size == o.file_size && n.file_extension == o.file_extension && n.parsed_title
        == o.parsed_title && n.parsed_year == o.parsed_year && n.parsed_season == o.parsed_season
        && n.parsed_episode == o.parsed_episode && n.parsed_quality == o.parsed_quality
        && n.parsed_codec == o.parsed_codec && n.tmdb_episode_title == o.tmdb_episode_title
        && n.destination_id == o.destination_id && n.destination_path == o.destination_path
        && n.transfer_progress == o.transfer_progress && n.transfer_error == o.transfer_error
        && n.created_at == o.created_at && n.updated_at == o.updated_at
}

/// The matched-catalog fields one record carries after an auto-match.
pub open spec fn spec_match_fields(
    status: GroupStatus,
    tmdb_id: Option<i64>,
    tmdb_title: Option<String>,
    tmdb_year: Option<i64>,
    poster: Option<String>,
    confidence: Option<i64>,
    media_type: MediaType,
    id: i64,
    title: Seq<char>,
    year: Option<i64>,
    poster_in: Option<String>,
    conf: i64,
    mt: MediaType,
) -> bool {
    status == GroupStatus::Matched && tmdb_id == Some(id) && (tmdb_title is Some && tmdb_title->0@
        == title) && tmdb_year == year && poster == poster_in && confidence == Some(conf)
        && media_type == mt
}

fn clone_opt_string(o: &Option<String>) -> (r: Option<String>)
    ensures
        r == *o,
{
    match o {
        Some(s) => Some(s.clone()),
        None => None,
    }
}

/// Write the chosen candidate's catalog identity onto the group and
/// cascade the same fields, with status `Matched`, onto every job it
/// owns. Nothing else about any record changes.
pub fn apply_auto_match(
    group: &mut Group,
    jobs: &mut Vec<Job>,
    tmdb_id: i64,
    tmdb_title: &str,
    tmdb_year: Option<i64>,
    poster_path: &Option<String>,
    confidence: i64,
    media_type: MediaType,
)
    ensures
        spec_match_fields(
            final(group).status,
            final(group).tmdb_id,
            final(group).tmdb_title,
            final(group).tmdb_year,
            final(group).tmdb_poster_path,
            final(group).match_confidence,
            final(group).media_type,
            tmdb_id,
            tmdb_title@,
            tmdb_year,
            *poster_path,
            confidence,
            media_type,
        ),
        spec_group_rest_unchanged(*old(group), *final(group)),
        final(jobs)@.len() == old(jobs)@.len(),
        forall|k: int|
            0 <= k < old(jobs)@.len() ==> spec_match_fields(
                (#[trigger] final(jobs)@[k]).status,
                final(jobs)@[k].tmdb_id,
                final(jobs)@[k].tmdb_title,
                final(jobs)@[k].tmdb_year,
                final(jobs)@[k].tmdb_poster_path,
                final(jobs)@[k].match_confidence,
                final(jobs)@[k].media_type,
                tmdb_id,
                tmdb_title@,
                tmdb_year,
                *poster_path,
                confidence,
                media_type,
            ) && spec_job_rest_unchanged(old(jobs)@[k], final(jobs)@[k]),
{
    group.status = GroupStatus::Matched;
    group.tmdb_id = Some(tmdb_id);
    group.tmdb_title = Some(tmdb_title.to_owned());
    group.tmdb_year = tmdb_year;
    group.tmdb_poster_path = clone_opt_string(poster_path);
    group.match_confidence = Some(confidence);
    group.media_type = media_type;
    let ghost jobs0 = jobs@;
    let mut i: usize = 0;
    while i < jobs.len()
        invariant
            i <= jobs@.len(),
            jobs@.len() == jobs0.len(),
            forall|k: int|
                0 <= k < i ==> spec_match_fields(
                    (#[trigger] jobs@[k]).status,
                    jobs@[k].tmdb_id,
                    jobs@[k].tmdb_title,
                    jobs@[k].tmdb_year,
                    jobs@[k].tmdb_poster_path,
                    jobs@[k].match_confidence,
                    jobs@[k].media_type,
                    tmdb_id,
                    tmdb_title@,
                    tmdb_year,
                    *poster_path,
                    confidence,
                    media_type,
                ) && spec_job_rest_unchanged(jobs0[k], jobs@[k]),
            forall|k: int| i <= k < jobs0.len() ==> jobs@[k] == jobs0[k],
        decreases jobs@.len() - i,
    {
        let ghost before = jobs@;
        let mut j = jobs.remove(i);
        j.status = GroupStatus::Matched;
        j.tmdb_id = Some(tmdb_id);
        j.tmdb_title = Some(tmdb_title.to_owned());
        j.tmdb_year = tmdb_year;
        j.tmdb_poster_path = clone_opt_string(poster_path);
        j.match_confidence = Some(confidence);
        j.media_type = media_type;
        jobs.insert(i, j);
        proof {
            assert(jobs@.len() == before.len());
            assert forall|k: int| 0 <= k < jobs0.len() && k != i implies jobs@[k] == before[k] by {
                if k < i {
                    assert(jobs@[k] == before.remove(i as int)[k]);
                } else {
                    assert(before.remove(i as int)[k - 1] == before[k]);
                    assert(jobs@[k] == before.remove(i as int).insert(i as int, jobs@[i as int])[k]);
                }
            }
        }
        i += 1;
    }
}

/// Edit distance vanishes exactly on names equal up to ASCII case.
pub proof fn lemma_lev_zero_on_equal(a: Seq<char>, b: Seq<char>)
    requires
        spec_eq_ci_seq(a, b),
    ensures
        spec_lev(a, b) == 0,
    decreases a.len(),
{
    if a.len() > 0 {
        assert(spec_eq_ci(a.last(), b.last()));
        assert(spec_eq_ci_seq(a.drop_last(), b.drop_last()));
        lemma_lev_zero_on_equal(a.drop_last(), b.drop_last());
        lemma_lev_bounds(a.drop_last(), b);
        lemma_lev_bounds(a, b.drop_last());
    }
}

/// Identical titles (up to ASCII case) score full similarity, and a
/// candidate that agrees on title, year and media type with full
/// popularity scores the whole scale.
pub proof fn lemma_exact_match_scores_full(
    title: Seq<char>,
    year: int,
    mt: MediaType,
    c: &TmdbSearchResult,
)
    requires
        title.len() > 0,
        spec_eq_ci_seq(title, spec_display_title(c)),
        spec_result_year(c) == Some(year),
        mt != MediaType::Unknown,
        spec_media_type_from(spec_resolved_media_type(c)) == mt,
        view_opt_i64(c.popularity) == Some(10000int),
    ensures
        spec_title_similarity(title, spec_display_title(c)) == 1000,
        spec_confidence(title, Some(year), mt, c) == 1000,
{
    lemma_lev_zero_on_equal(title, spec_display_title(c));
    let m = spec_max(title.len() as int, spec_display_title(c).len() as int);
    assert(m > 0);
    assert((m - 0) * 1000 / m == 1000) by (nonlinear_arith)
        requires
            m > 0,
    ;
    assert((m - 0) * 600 / m == 600) by (nonlinear_arith)
        requires
            m > 0,
    ;
}

/// Whether a group takes part in a batch match run: freshly scanned or
/// previously ambiguous.
pub open spec fn spec_is_matchable(s: GroupStatus) -> bool {
    s == GroupStatus::Scanned || s == GroupStatus::Ambiguous
}

pub fn is_matchable(status: GroupStatus) -> (r: bool)
    ensures
        r == spec_is_matchable(status),
{
    status == GroupStatus::Scanned || status == GroupStatus::Ambiguous
}

} // verus!
