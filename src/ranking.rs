//! The ranking engine: top keywords by score and their day-over-day change.

use vstd::prelude::*;
use crate::video_model::{KeywordRankingResponse, KeywordTrend, RankChange, YoutubeKeywordRanking};

verus! {

/// Number of keywords a daily ranking holds at most.
pub const RANKING_LIMIT: usize = 50;

/// `a` ranks ahead of `b`: a higher score, or an equal score and an earlier
/// position in the input.
pub open spec fn ranks_before(scores: Seq<i64>, a: int, b: int) -> bool {
    scores[a] > scores[b] || (scores[a] == scores[b] && a < b)
}

/// `r` lists, in ranking order, the first `min(limit, n)` positions of
/// `scores` under `ranks_before`.
pub open spec fn is_top_ranking(scores: Seq<i64>, limit: nat, r: Seq<usize>) -> bool {
    &&& r.len() == if limit < scores.len() { limit } else { scores.len() }
    &&& forall|i: int| 0 <= i < r.len() ==> (#[trigger] r[i]) < scores.len()
    &&& forall|i: int, j: int|
        0 <= i < j < r.len() ==> ranks_before(scores, #[trigger] r[i] as int, #[trigger] r[j] as int)
    &&& forall|k: int, i: int|
        0 <= k < scores.len() && !r.contains(k as usize) && 0 <= i < r.len()
            ==> #[trigger] ranks_before(scores, r[i] as int, k)
}

/// Positions of the `limit` best scores, best first; equal scores keep their
/// input order.
pub fn top_ranked(scores: &Vec<i64>, limit: usize) -> (r: Vec<usize>)
    ensures
        is_top_ranking(scores@, limit as nat, r@),
{
    let n = scores.len();
    let mut r: Vec<usize> = Vec::new();
    let mut k: usize = 0;
    while k < n
        invariant
            n == scores@.len(),
            k <= n,
            r@.len() == if limit < k { limit as int } else { k as int },
            forall|i: int| 0 <= i < r@.len() ==> (#[trigger] r@[i]) < k,
            forall|i: int, j: int|
                0 <= i < j < r@.len() ==> ranks_before(
                    scores@,
                    #[trigger] r@[i] as int,
                    #[trigger] r@[j] as int,
                ),
            forall|x: int, i: int|
                0 <= x < k && !r@.contains(x as usize) && 0 <= i < r@.len()
                    ==> #[trigger] ranks_before(scores@, r@[i] as int, x),
            r@.len() < limit ==> forall|x: int| 0 <= x < k ==> #[trigger] r@.contains(x as usize),
        decreases n - k,
    {
        let mut pos: usize = 0;
        while pos < r.len() && scores[r[pos]] >= scores[k]
            invariant
                n == scores@.len(),
                k < n,
                pos <= r@.len(),
                forall|i: int| 0 <= i < r@.len() ==> (#[trigger] r@[i]) < k,
                forall|q: int| 0 <= q < pos ==> ranks_before(scores@, #[trigger] r@[q] as int, k as int),
            decreases r@.len() - pos,
        {
            pos = pos + 1;
        }
        let ghost old_r = r@;
        proof {
            if pos < old_r.len() {
                assert(ranks_before(scores@, k as int, old_r[pos as int] as int));
                assert forall|q: int| pos <= q < old_r.len() implies ranks_before(
                    scores@,
                    k as int,
                    #[trigger] old_r[q] as int,
                ) by {
                    if q > pos {
                        assert(ranks_before(scores@, old_r[pos as int] as int, old_r[q] as int));
                    }
                }
            }
        }
        r.insert(pos, k);
        let ghost ins = r@;
        proof {
            assert forall|i: int| 0 <= i < ins.len() implies (#[trigger] ins[i]) < k + 1 by {
                if i < pos {
                    assert(ins[i] == old_r[i]);
                } else if i > pos {
                    assert(ins[i] == old_r[i - 1]);
                }
            }
            assert forall|i: int, j: int| 0 <= i < j < ins.len() implies ranks_before(
                scores@,
                #[trigger] ins[i] as int,
                #[trigger] ins[j] as int,
            ) by {
                if j < pos {
                    assert(ins[i] == old_r[i] && ins[j] == old_r[j]);
                } else if j == pos {
                    assert(ins[i] == old_r[i]);
                } else if i < pos {
                    assert(ins[i] == old_r[i] && ins[j] == old_r[j - 1]);
                    assert(ranks_before(scores@, k as int, old_r[j - 1] as int));
                } else if i == pos {
                    assert(ins[j] == old_r[j - 1]);
                } else {
                    assert(ins[i] == old_r[i - 1] && ins[j] == old_r[j - 1]);
                }
            }
            assert(ins[pos as int] == k);
            assert forall|x: int| 0 <= x < k && #[trigger] old_r.contains(x as usize) implies ins.contains(
                x as usize,
            ) by {
                let w = choose|w: int| 0 <= w < old_r.len() && old_r[w] == x as usize;
                if w < pos {
                    assert(ins[w] == old_r[w]);
                } else {
                    assert(ins[w + 1] == old_r[w]);
                }
            }
        }
        if r.len() > limit {
            let ghost dropped = ins.last();
            r.pop();
            proof {
                let kept = r@;
                assert(kept =~= ins.subrange(0, ins.len() - 1));
                assert forall|x: int, i: int|
                    0 <= x < k + 1 && !kept.contains(x as usize) && 0 <= i < kept.len()
                    implies #[trigger] ranks_before(scores@, kept[i] as int, x) by {
                    assert(kept[i] == ins[i]);
                    if x as usize == dropped {
                        assert(ranks_before(scores@, ins[i] as int, ins[ins.len() - 1] as int));
                    } else {
                        assert(x != k) by {
                            if pos < ins.len() - 1 {
                                assert(kept[pos as int] == k);
                            }
                        }
                        assert(!old_r.contains(x as usize)) by {
                            if old_r.contains(x as usize) {
                                assert(ins.contains(x as usize));
                                let w = choose|w: int| 0 <= w < ins.len() && ins[w] == x as usize;
                                assert(kept[w] == ins[w]);
                            }
                        }
                        let last = old_r.len() - 1;
                        if i < pos {
                            assert(ins[i] == old_r[i]);
                        } else if i > pos {
                            assert(ins[i] == old_r[i - 1]);
                        } else {
                            assert(ranks_before(scores@, old_r[last] as int, x));
                            assert(ranks_before(scores@, k as int, old_r[last] as int));
                        }
                    }
                }
            }
        } else {
            proof {
                assert forall|x: int| 0 <= x < k + 1 implies #[trigger] ins.contains(x as usize) by {
                    if x < k {
                        assert(old_r.contains(x as usize));
                    }
                }
            }
        }
        k = k + 1;
    }
    r
}

/// Score of a keyword trend; a missing sum counts as zero.
pub open spec fn trend_score(t: KeywordTrend) -> i64 {
    match t.total_views {
        Some(v) => v,
        None => 0,
    }
}

pub open spec fn trend_scores(trends: Seq<KeywordTrend>) -> Seq<i64> {
    Seq::new(trends.len(), |i: int| trend_score(trends[i]))
}

/// `row` is the ranking row at 1-based position `pos` for `t` on `date`.
pub open spec fn is_ranking_row(row: YoutubeKeywordRanking, t: KeywordTrend, date: i64, pos: int) -> bool {
    &&& row.ranking_date == date
    &&& row.ranking as int == pos
    &&& row.keyword_id == t.id
    &&& row.keyword_text@ == t.keyword_text@
    &&& row.score == trend_score(t)
}

/// `r` is the daily ranking of `trends` on `date`: the best `RANKING_LIMIT`
/// trends by score, best first, ties in input order, ranked from 1.
pub open spec fn is_daily_ranking(
    trends: Seq<KeywordTrend>,
    date: i64,
    r: Seq<YoutubeKeywordRanking>,
) -> bool {
    exists|order: Seq<usize>|
        #![trigger is_top_ranking(trend_scores(trends), RANKING_LIMIT as nat, order)]
        is_top_ranking(trend_scores(trends), RANKING_LIMIT as nat, order) && order.len() == r.len()
            && forall|j: int|
            0 <= j < r.len() ==> is_ranking_row(#[trigger] r[j], trends[order[j] as int], date, j + 1)
}

/// Ranks the per-keyword scores of one day: highest score first, at most
/// `RANKING_LIMIT` rows, ranks counted from 1.
pub fn compute_daily_rankings(trends: &Vec<KeywordTrend>, ranking_date: i64) -> (r: Vec<
    YoutubeKeywordRanking,
>)
    ensures
        is_daily_ranking(trends@, ranking_date, r@),
{
    let n = trends.len();
    let mut scores: Vec<i64> = Vec::new();
    let mut i: usize = 0;
    while i < n
        invariant
            n == trends@.len(),
            i <= n,
            scores@.len() == i,
            forall|j: int| 0 <= j < i ==> scores@[j] == #[trigger] trend_score(trends@[j]),
        decreases n - i,
    {
        let score = match trends[i].total_views {
            Some(v) => v,
            None => 0,
        };
        scores.push(score);
        i = i + 1;
    }
    assert(scores@ =~= trend_scores(trends@));
    let order = top_ranked(&scores, RANKING_LIMIT);
    let mut rows: Vec<YoutubeKeywordRanking> = Vec::new();
    let mut j: usize = 0;
    while j < order.len()
        invariant
            n == trends@.len(),
            scores@ == trend_scores(trends@),
            is_top_ranking(scores@, RANKING_LIMIT as nat, order@),
            j <= order@.len(),
            rows@.len() == j,
            forall|q: int|
                0 <= q < j ==> is_ranking_row(#[trigger] rows@[q], trends@[order@[q] as int], ranking_date, q + 1),
        decreases order@.len() - j,
    {
        let t = &trends[order[j]];
        let row = YoutubeKeywordRanking {
            id: 0,
            ranking_date,
            ranking: (j + 1) as i32,
            keyword_id: t.id,
            keyword_text: t.keyword_text.clone(),
            score: scores[order[j]],
        };
        rows.push(row);
        j = j + 1;
    }
    assert(is_top_ranking(trend_scores(trends@), RANKING_LIMIT as nat, order@));
    rows
}

/// Change of a keyword's rank from yesterday's rank (if it was ranked) to
/// today's.
pub open spec fn rank_change_of(yesterday: Option<i32>, today: i32) -> RankChange {
    match yesterday {
        None => RankChange::New,
        Some(y) => if y > today {
            RankChange::Up((y - today) as i32)
        } else if y < today {
            RankChange::Down((today - y) as i32)
        } else {
            RankChange::Same
        },
    }
}

/// Rank change between two 1-based ranks.
pub fn rank_change(yesterday: Option<i32>, today: i32) -> (r: RankChange)
    requires
        today >= 1,
        yesterday matches Some(y) ==> y >= 1,
    ensures
        r == rank_change_of(yesterday, today),
{
    match yesterday {
        None => RankChange::New,
        Some(y) => {
            let diff = y - today;
            if diff > 0 {
                RankChange::Up(diff)
            } else if diff < 0 {
                RankChange::Down(-diff)
            } else {
                RankChange::Same
            }
        },
    }
}

/// Rank of `text` in `rows`; where the text occurs more than once the last
/// occurrence counts.
pub open spec fn rank_in(rows: Seq<YoutubeKeywordRanking>, text: Seq<char>) -> Option<i32>
    decreases rows.len(),
{
    if rows.len() == 0 {
        None
    } else if rows.last().keyword_text@ == text {
        Some(rows.last().ranking)
    } else {
        rank_in(rows.drop_last(), text)
    }
}

pub open spec fn all_ranked(rows: Seq<YoutubeKeywordRanking>) -> bool {
    forall|i: int| 0 <= i < rows.len() ==> (#[trigger] rows[i]).ranking >= 1
}

proof fn lemma_rank_in_ranked(rows: Seq<YoutubeKeywordRanking>, text: Seq<char>)
    requires
        all_ranked(rows),
    ensures
        rank_in(rows, text) matches Some(y) ==> y >= 1,
    decreases rows.len(),
{
    if rows.len() > 0 {
        assert(rows.drop_last().len() == rows.len() - 1);
        assert forall|i: int| 0 <= i < rows.drop_last().len() implies (#[trigger] rows.drop_last()[i]).ranking >= 1 by {
            assert(rows.drop_last()[i] == rows[i]);
        }
        lemma_rank_in_ranked(rows.drop_last(), text);
    }
}

/// Looks up the rank of `text` among `rows`, the last occurrence winning.
pub fn find_rank(rows: &Vec<YoutubeKeywordRanking>, text: &String) -> (r: Option<i32>)
    ensures
        r == rank_in(rows@, text@),
{
    let mut i: usize = rows.len();
    assert(rows@.subrange(0, i as int) =~= rows@);
    while i > 0
        invariant
            i <= rows@.len(),
            rank_in(rows@, text@) == rank_in(rows@.subrange(0, i as int), text@),
        decreases i,
    {
        let ghost pre = rows@.subrange(0, i as int);
        assert(pre.drop_last() =~= rows@.subrange(0, i - 1));
        if rows[i - 1].keyword_text == *text {
            return Some(rows[i - 1].ranking);
        }
        i = i - 1;
    }
    None
}

/// The reported entry for today's row `t` given yesterday's rows.
pub open spec fn is_ranking_response(
    r: KeywordRankingResponse,
    t: YoutubeKeywordRanking,
    yesterday: Seq<YoutubeKeywordRanking>,
) -> bool {
    &&& r.ranking == t.ranking
    &&& r.keyword_text@ == t.keyword_text@
    &&& r.score == t.score
    &&& r.rank_change == rank_change_of(rank_in(yesterday, t.keyword_text@), t.ranking)
}

/// Today's ranking, in today's order, each row with its change since
/// yesterday.
pub fn daily_ranking_responses(
    today: &Vec<YoutubeKeywordRanking>,
    yesterday: &Vec<YoutubeKeywordRanking>,
) -> (r: Vec<KeywordRankingResponse>)
    requires
        all_ranked(today@),
        all_ranked(yesterday@),
    ensures
        r@.len() == today@.len(),
        forall|i: int| 0 <= i < r@.len() ==> is_ranking_response(#[trigger] r@[i], today@[i], yesterday@),
{
    let mut out: Vec<KeywordRankingResponse> = Vec::new();
    let mut i: usize = 0;
    while i < today.len()
        invariant
            all_ranked(today@),
            all_ranked(yesterday@),
            i <= today@.len(),
            out@.len() == i,
            forall|q: int| 0 <= q < i ==> is_ranking_response(#[trigger] out@[q], today@[q], yesterday@),
        decreases today@.len() - i,
    {
        let t = &today[i];
        let y = find_rank(yesterday, &t.keyword_text);
        proof {
            lemma_rank_in_ranked(yesterday@, t.keyword_text@);
            assert(today@[i as int].ranking >= 1);
        }
        let change = rank_change(y, t.ranking);
        out.push(
            KeywordRankingResponse {
                ranking: t.ranking,
                keyword_text: t.keyword_text.clone(),
                score: t.score,
                rank_change: change,
            },
        );
        i = i + 1;
    }
    out
}

/// A daily ranking holds `min(RANKING_LIMIT, number of keywords)` rows,
/// ranked 1, 2, 3, ... in order; scores never rise down the list, and they
/// strictly fall when no two keywords share a score.
pub proof fn lemma_daily_ranking_order(
    trends: Seq<KeywordTrend>,
    date: i64,
    r: Seq<YoutubeKeywordRanking>,
)
    requires
        is_daily_ranking(trends, date, r),
    ensures
        r.len() == if trends.len() < RANKING_LIMIT { trends.len() } else { RANKING_LIMIT as nat },
        forall|i: int| 0 <= i < r.len() ==> (#[trigger] r[i]).ranking == i + 1,
        forall|i: int, j: int| 0 <= i < j < r.len() ==> (#[trigger] r[i]).score >= (#[trigger] r[j]).score,
        (forall|a: int, b: int|
            0 <= a < b < trends.len() ==> trend_score(#[trigger] trends[a]) != trend_score(
                #[trigger] trends[b],
            )) ==> forall|i: int, j: int|
            0 <= i < j < r.len() ==> (#[trigger] r[i]).score > (#[trigger] r[j]).score,
{
    let order = choose|order: Seq<usize>|
        is_top_ranking(trend_scores(trends), RANKING_LIMIT as nat, order) && order.len() == r.len()
            && forall|j: int|
            0 <= j < r.len() ==> is_ranking_row(#[trigger] r[j], trends[order[j] as int], date, j + 1);
    let scores = trend_scores(trends);
    assert forall|i: int, j: int| 0 <= i < j < r.len() implies (#[trigger] r[i]).score >= (
    #[trigger] r[j]).score by {
        assert(is_ranking_row(r[i], trends[order[i] as int], date, i + 1));
        assert(is_ranking_row(r[j], trends[order[j] as int], date, j + 1));
        assert(ranks_before(scores, order[i] as int, order[j] as int));
    }
    if forall|a: int, b: int|
        0 <= a < b < trends.len() ==> trend_score(#[trigger] trends[a]) != trend_score(
            #[trigger] trends[b],
        ) {
        assert forall|i: int, j: int| 0 <= i < j < r.len() implies (#[trigger] r[i]).score > (
        #[trigger] r[j]).score by {
            let a = order[i] as int;
            let b = order[j] as int;
            assert(is_ranking_row(r[i], trends[a], date, i + 1));
            assert(is_ranking_row(r[j], trends[b], date, j + 1));
            assert(ranks_before(scores, a, b));
            assert(a != b);
            if a < b {
                assert(trend_score(trends[a]) != trend_score(trends[b]));
            } else {
                assert(trend_score(trends[b]) != trend_score(trends[a]));
            }
        }
    }
    assert forall|i: int| 0 <= i < r.len() implies (#[trigger] r[i]).ranking == i + 1 by {
        assert(is_ranking_row(r[i], trends[order[i] as int], date, i + 1));
    }
}

} // verus!
