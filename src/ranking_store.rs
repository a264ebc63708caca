//! Persisted daily rankings, and the ranking stage of the collection.

use vstd::prelude::*;
use crate::paging::SECONDS_PER_DAY;
use crate::ranking::{
    all_ranked, compute_daily_rankings, daily_ranking_responses, is_daily_ranking, is_ranking_response,
    lemma_daily_ranking_order, RANKING_LIMIT,
};
use crate::store::{trends_in_window, VideoStore};
use crate::video_model::{KeywordRankingResponse, YoutubeKeywordRanking};

verus! {

/// Days of the trailing window that a daily ranking aggregates.
pub const RANKING_WINDOW_DAYS: i64 = 7;

/// Whether rows for `date` are stored.
pub open spec fn has_date(s: Seq<YoutubeKeywordRanking>, date: i64) -> bool {
    exists|i: int| 0 <= i < s.len() && (#[trigger] s[i]).ranking_date == date
}

/// The stored rows of `date`, in stored order.
pub open spec fn dated(s: Seq<YoutubeKeywordRanking>, date: i64) -> Seq<YoutubeKeywordRanking> {
    s.filter(|r: YoutubeKeywordRanking| r.ranking_date == date)
}

/// The first `limit` stored rows of `date`, in stored order.
pub open spec fn rows_on(s: Seq<YoutubeKeywordRanking>, date: i64, limit: nat) -> Seq<YoutubeKeywordRanking> {
    let all = dated(s, date);
    if all.len() <= limit {
        all
    } else {
        all.subrange(0, limit as int)
    }
}

fn copy_ranking(r: &YoutubeKeywordRanking) -> (c: YoutubeKeywordRanking)
    ensures
        c == *r,
{
    YoutubeKeywordRanking {
        id: r.id,
        ranking_date: r.ranking_date,
        ranking: r.ranking,
        keyword_id: r.keyword_id,
        keyword_text: r.keyword_text.clone(),
        score: r.score,
    }
}

/// The stored daily rankings; a date once stored is never rewritten.
#[derive(Debug)]
pub struct RankingStore {
    pub rankings: Vec<YoutubeKeywordRanking>,
}

impl RankingStore {
    /// Every stored rank counts from 1.
    pub open spec fn well_formed(&self) -> bool {
        all_ranked(self.rankings@)
    }

    pub fn new() -> (r: RankingStore)
        ensures
            r.well_formed(),
            r.rankings@.len() == 0,
    {
        RankingStore { rankings: Vec::new() }
    }

    fn stores_date(&self, date: i64) -> (r: bool)
        ensures
            r == has_date(self.rankings@, date),
    {
        let mut i: usize = 0;
        while i < self.rankings.len()
            invariant
                i <= self.rankings@.len(),
                forall|j: int| 0 <= j < i ==> (#[trigger] self.rankings@[j]).ranking_date != date,
            decreases self.rankings@.len() - i,
        {
            if self.rankings[i].ranking_date == date {
                assert(self.rankings@[i as int].ranking_date == date);
                return true;
            }
            i = i + 1;
        }
        false
    }

    /// Stores the ranking of `date` unless that date is already stored;
    /// returns whether it stored.
    pub fn save_keyword_rankings(&mut self, date: i64, rows: Vec<YoutubeKeywordRanking>) -> (saved: bool)
        requires
            old(self).well_formed(),
            all_ranked(rows@),
        ensures
            final(self).well_formed(),
            saved == !has_date(old(self).rankings@, date),
            saved ==> final(self).rankings@ == old(self).rankings@ + rows@,
            !saved ==> final(self).rankings@ == old(self).rankings@,
    {
        if self.stores_date(date) {
            return false;
        }
        let mut more = rows;
        self.rankings.append(&mut more);
        true
    }

    /// The first `limit` stored rows of `date`, in stored order.
    pub fn get_keyword_rankings(&self, date: i64, limit: usize) -> (r: Vec<YoutubeKeywordRanking>)
        ensures
            r@ == rows_on(self.rankings@, date, limit as nat),
    {
        let ghost s = self.rankings@;
        let mut out: Vec<YoutubeKeywordRanking> = Vec::new();
        let mut i: usize = 0;
        while i < self.rankings.len() && out.len() < limit
            invariant
                s == self.rankings@,
                i <= s.len(),
                out@ == dated(s.subrange(0, i as int), date),
                out@.len() <= limit,
            decreases s.len() - i,
        {
            let ghost next = s.subrange(0, i + 1);
            proof {
                assert(next.drop_last() =~= s.subrange(0, i as int));
                reveal(Seq::filter);
            }
            if self.rankings[i].ranking_date == date {
                out.push(copy_ranking(&self.rankings[i]));
            }
            i = i + 1;
        }
        proof {
            let pred = |r: YoutubeKeywordRanking| r.ranking_date == date;
            let all = s.filter(pred);
            let head = s.subrange(0, i as int);
            let tail = s.subrange(i as int, s.len() as int);
            assert(s =~= head + tail);
            Seq::filter_distributes_over_add(head, tail, pred);
            head.lemma_filter_len(pred);
            tail.lemma_filter_len(pred);
            assert(out@ == head.filter(pred));
            assert(all == out@ + tail.filter(pred));
            if i == s.len() {
                assert(tail =~= Seq::<YoutubeKeywordRanking>::empty());
                reveal(Seq::filter);
                assert(tail.filter(pred) =~= Seq::<YoutubeKeywordRanking>::empty());
                assert(all =~= out@);
            } else {
                assert(out@.len() == limit);
                if all.len() <= limit {
                    assert(all =~= out@);
                } else {
                    assert(all.subrange(0, limit as int) =~= out@);
                }
            }
            assert(rows_on(s, date, limit as nat) == if all.len() <= limit {
                all
            } else {
                all.subrange(0, limit as int)
            });
        }
        out
    }
}

proof fn lemma_dated_ranked(s: Seq<YoutubeKeywordRanking>, date: i64)
    requires
        all_ranked(s),
    ensures
        all_ranked(dated(s, date)),
    decreases s.len(),
{
    if s.len() > 0 {
        assert(all_ranked(s.drop_last())) by {
            assert forall|i: int| 0 <= i < s.drop_last().len() implies (#[trigger] s.drop_last()[i]).ranking >= 1 by {
                assert(s.drop_last()[i] == s[i]);
            }
        }
        lemma_dated_ranked(s.drop_last(), date);
        reveal(Seq::filter);
        assert(s.last() == s[s.len() - 1]);
    }
}

proof fn lemma_rows_on_ranked(s: Seq<YoutubeKeywordRanking>, date: i64, limit: nat)
    requires
        all_ranked(s),
    ensures
        all_ranked(rows_on(s, date, limit)),
{
    lemma_dated_ranked(s, date);
    let all = dated(s, date);
    if all.len() > limit {
        assert forall|i: int| 0 <= i < all.subrange(0, limit as int).len() implies (
        #[trigger] all.subrange(0, limit as int)[i]).ranking >= 1 by {
            assert(all.subrange(0, limit as int)[i] == all[i]);
        }
    }
}

/// Earliest day whose ranking window can be stated in seconds.
pub const MIN_RANKING_DAY: i64 = -106751991167293;

/// Latest day whose ranking window can be stated in seconds.
pub const MAX_RANKING_DAY: i64 = 106751991167300;

/// First second of the ranking window of `day`: seven days before the day
/// starts.
pub open spec fn window_start(day: i64) -> int {
    (day - RANKING_WINDOW_DAYS) * SECONDS_PER_DAY
}

/// First second after the ranking window of `day`: the start of the day.
pub open spec fn window_end(day: i64) -> int {
    day * SECONDS_PER_DAY
}

/// Ranks the keywords of the videos last updated in the seven days before
/// `as_of_day` starts, and stores that ranking under `as_of_day` unless the
/// day is already stored; returns whether it stored.
pub fn calculate_and_store_daily_rankings(
    videos: &VideoStore,
    rankings: &mut RankingStore,
    as_of_day: i64,
) -> (saved: bool)
    requires
        old(rankings).well_formed(),
        MIN_RANKING_DAY <= as_of_day <= MAX_RANKING_DAY,
    ensures
        final(rankings).well_formed(),
        saved == !has_date(old(rankings).rankings@, as_of_day),
        saved ==> exists|r: Seq<YoutubeKeywordRanking>|
            #![trigger is_daily_ranking(
                trends_in_window(videos.videos@, videos.keywords@, videos.links@, window_start(as_of_day) as i64, window_end(as_of_day) as i64),
                as_of_day,
                r,
            )]
            is_daily_ranking(
                trends_in_window(
                    videos.videos@,
                    videos.keywords@,
                    videos.links@,
                    window_start(as_of_day) as i64,
                    window_end(as_of_day) as i64,
                ),
                as_of_day,
                r,
            ) && final(rankings).rankings@ == old(rankings).rankings@ + r,
        !saved ==> final(rankings).rankings@ == old(rankings).rankings@,
{
    let since = (as_of_day - RANKING_WINDOW_DAYS) * SECONDS_PER_DAY;
    let until = as_of_day * SECONDS_PER_DAY;
    let trends = videos.keyword_trends(since, until);
    let rows = compute_daily_rankings(&trends, as_of_day);
    proof {
        lemma_daily_ranking_order(trends@, as_of_day, rows@);
    }
    let ghost r = rows@;
    let saved = rankings.save_keyword_rankings(as_of_day, rows);
    proof {
        assert(since == window_start(as_of_day) as i64);
        assert(until == window_end(as_of_day) as i64);
        assert(is_daily_ranking(
            trends_in_window(
                videos.videos@,
                videos.keywords@,
                videos.links@,
                window_start(as_of_day) as i64,
                window_end(as_of_day) as i64,
            ),
            as_of_day,
            r,
        ));
    }
    saved
}

/// Today's ranking as reported: today's first `RANKING_LIMIT` rows in stored
/// order, each with its rank change against yesterday's rows.
pub fn get_daily_rankings(rankings: &RankingStore, today: i64) -> (r: Vec<KeywordRankingResponse>)
    requires
        rankings.well_formed(),
        today > i64::MIN,
    ensures
        r@.len() == rows_on(rankings.rankings@, today, RANKING_LIMIT as nat).len(),
        forall|i: int|
            0 <= i < r@.len() ==> is_ranking_response(
                #[trigger] r@[i],
                rows_on(rankings.rankings@, today, RANKING_LIMIT as nat)[i],
                rows_on(rankings.rankings@, (today - 1) as i64, RANKING_LIMIT as nat),
            ),
{
    let today_rows = rankings.get_keyword_rankings(today, RANKING_LIMIT);
    let yesterday_rows = rankings.get_keyword_rankings(today - 1, RANKING_LIMIT);
    proof {
        lemma_rows_on_ranked(rankings.rankings@, today, RANKING_LIMIT as nat);
        lemma_rows_on_ranked(rankings.rankings@, (today - 1) as i64, RANKING_LIMIT as nat);
    }
    daily_ranking_responses(&today_rows, &yesterday_rows)
}

} // verus!
