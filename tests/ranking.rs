use keyword_trends::ranking::{
    compute_daily_rankings, daily_ranking_responses, find_rank, rank_change, top_ranked,
};
use keyword_trends::video_model::{KeywordTrend, RankChange, YoutubeKeywordRanking};

fn trend(id: i64, text: &str, views: Option<i64>) -> KeywordTrend {
    KeywordTrend { id, keyword_text: text.to_string(), total_views: views }
}

fn row(date: i64, rank: i32, text: &str, score: i64) -> YoutubeKeywordRanking {
    YoutubeKeywordRanking {
        id: 0,
        ranking_date: date,
        ranking: rank,
        keyword_id: 0,
        keyword_text: text.to_string(),
        score,
    }
}

#[test]
fn rankings_descend_by_score_from_rank_one() {
    let trends = vec![
        trend(1, "a", Some(10)),
        trend(2, "b", Some(30)),
        trend(3, "c", None),
        trend(4, "d", Some(20)),
    ];
    let rows = compute_daily_rankings(&trends, 19000);
    let texts: Vec<&str> = rows.iter().map(|r| r.keyword_text.as_str()).collect();
    assert_eq!(texts, vec!["b", "d", "a", "c"]);
    let ranks: Vec<i32> = rows.iter().map(|r| r.ranking).collect();
    assert_eq!(ranks, vec![1, 2, 3, 4]);
    let scores: Vec<i64> = rows.iter().map(|r| r.score).collect();
    assert_eq!(scores, vec![30, 20, 10, 0]);
    assert!(rows.iter().all(|r| r.ranking_date == 19000));
    assert_eq!(rows[0].keyword_id, 2);
}

#[test]
fn rankings_capped_at_fifty() {
    let trends: Vec<KeywordTrend> =
        (0..120).map(|i| trend(i, &format!("k{}", i), Some(i * 7 % 1000))).collect();
    let rows = compute_daily_rankings(&trends, 1);
    assert_eq!(rows.len(), 50);
    for (i, r) in rows.iter().enumerate() {
        assert_eq!(r.ranking, i as i32 + 1);
    }
    for w in rows.windows(2) {
        assert!(w[0].score > w[1].score);
    }
    let lowest_kept = rows[49].score;
    let above = trends.iter().filter(|t| t.total_views.unwrap_or(0) > lowest_kept).count();
    assert_eq!(above, 49);
}

#[test]
fn ranking_ties_keep_input_order() {
    let trends = vec![trend(1, "x", Some(5)), trend(2, "y", Some(9)), trend(3, "z", Some(5))];
    let rows = compute_daily_rankings(&trends, 0);
    let texts: Vec<&str> = rows.iter().map(|r| r.keyword_text.as_str()).collect();
    assert_eq!(texts, vec!["y", "x", "z"]);
}

#[test]
fn ranking_of_no_keyword_is_empty() {
    assert!(compute_daily_rankings(&Vec::new(), 0).is_empty());
}

#[test]
fn top_ranked_positions() {
    assert_eq!(top_ranked(&vec![3, 9, 9, 1], 3), vec![1, 2, 0]);
    assert_eq!(top_ranked(&vec![3, 9], 0), Vec::<usize>::new());
    assert_eq!(top_ranked(&vec![-1, -5, 0], 10), vec![2, 0, 1]);
}

#[test]
fn rank_change_up() {
    assert_eq!(rank_change(Some(3), 1), RankChange::Up(2));
}

#[test]
fn rank_change_down() {
    assert_eq!(rank_change(Some(2), 5), RankChange::Down(3));
}

#[test]
fn rank_change_new() {
    assert_eq!(rank_change(None, 4), RankChange::New);
}

#[test]
fn rank_change_same() {
    assert_eq!(rank_change(Some(7), 7), RankChange::Same);
}

#[test]
fn daily_responses_compare_with_yesterday() {
    let today = vec![row(2, 1, "a", 90), row(2, 2, "b", 80), row(2, 3, "c", 70), row(2, 4, "d", 60)];
    let yesterday = vec![row(1, 3, "a", 50), row(1, 2, "b", 60), row(1, 3, "d", 40)];
    let r = daily_ranking_responses(&today, &yesterday);
    assert_eq!(r.len(), 4);
    assert_eq!(r[0].rank_change, RankChange::Up(2));
    assert_eq!(r[1].rank_change, RankChange::Same);
    assert_eq!(r[2].rank_change, RankChange::New);
    assert_eq!(r[3].rank_change, RankChange::Down(1));
    assert_eq!(r[0].keyword_text, "a");
    assert_eq!(r[0].score, 90);
    assert_eq!(r[3].ranking, 4);
}

#[test]
fn last_occurrence_of_a_keyword_counts() {
    let rows = vec![row(1, 1, "a", 5), row(1, 4, "a", 2)];
    assert_eq!(find_rank(&rows, &"a".to_string()), Some(4));
    assert_eq!(find_rank(&rows, &"b".to_string()), None);
}
