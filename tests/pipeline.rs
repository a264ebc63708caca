use keyword_trends::collection::{normalize_batch, save_extracted_batch};
use keyword_trends::data_api_model::{
    ContentDetails, Player, Snippet, Statistics, TopicDetails, VideoItem,
};
use keyword_trends::extraction::{
    after_failed_attempt, response_text, Candidate, Content, GeminiApiResponse,
    GeminiKeywordResponse, GeminiPromptVideoData, KeywordMap, Part, RetryDecision,
};
use keyword_trends::pagination::{default_page, default_size, total_pages};
use keyword_trends::paging::{Discovery, PlaylistScan, SEARCH_QUERY};
use keyword_trends::ranking_store::{calculate_and_store_daily_rankings, get_daily_rankings, RankingStore};
use keyword_trends::store::VideoStore;
use keyword_trends::video_model::{RankChange, YoutubeRawVideo, YoutubeVideo};

fn item(id: &str, title: &str, views: &str, published: &str) -> VideoItem {
    VideoItem {
        id: id.to_string(),
        snippet: Snippet {
            published_at: published.to_string(),
            channel_id: "ch".to_string(),
            title: title.to_string(),
            description: "desc".to_string(),
            channel_title: "channel".to_string(),
            tags: Some(vec!["t1".to_string(), "t2".to_string()]),
            category_id: "22".to_string(),
        },
        content_details: ContentDetails { duration: "PT45S".to_string() },
        statistics: Statistics {
            view_count: views.to_string(),
            like_count: Some("7".to_string()),
            comment_count: None,
        },
        player: Player { embed_html: "<iframe>".to_string() },
        topic_details: Some(TopicDetails { topic_categories: vec!["music".to_string()] }),
    }
}

fn answer(id: &str, kws: &[&str]) -> GeminiKeywordResponse {
    GeminiKeywordResponse {
        video_id: id.to_string(),
        keywords: kws.iter().map(|k| k.to_string()).collect(),
    }
}

fn raw(id: &str, meta: &str) -> YoutubeRawVideo {
    YoutubeRawVideo::from_metadata(id.to_string(), meta.to_string())
}

#[test]
fn normalization_reads_fields() {
    let v = YoutubeVideo::from_item(item("v1", "title", "1234", "2024-01-01T00:00:00Z"), 5);
    assert_eq!(v.video_id, "v1");
    assert_eq!(v.published_at, 1704067200);
    assert_eq!(v.duration, 45);
    assert_eq!(v.view_count, 1234);
    assert_eq!(v.like_count, 7);
    assert_eq!(v.comment_count, 0);
    assert_eq!(v.tags, Some(vec!["t1".to_string(), "t2".to_string()]));
    assert_eq!(v.topic_categories, Some(vec!["music".to_string()]));
}

#[test]
fn unreadable_publication_time_is_now() {
    let v = YoutubeVideo::from_item(item("v1", "title", "x", "yesterday"), 42);
    assert_eq!(v.published_at, 42);
    assert_eq!(v.view_count, 0);
    let w = YoutubeVideo::from_item(item("v2", "title", "1", "2024-01-01T09:00:00+09:00"), 42);
    assert_eq!(w.published_at, 1704067200);
}

#[test]
fn batch_normalization_keeps_order() {
    let vs = normalize_batch(vec![item("a", "t", "1", ""), item("b", "t", "2", "")], 0);
    let ids: Vec<&str> = vs.iter().map(|v| v.video_id.as_str()).collect();
    assert_eq!(ids, vec!["a", "b"]);
}

#[test]
fn raw_upsert_twice_keeps_one_record() {
    let mut store = VideoStore::new();
    store.save_raw_many(vec![raw("a", "{\"v\":1}"), raw("b", "{}")], 100);
    store.save_raw_many(vec![raw("a", "{\"v\":2}"), raw("b", "{}")], 200);
    assert_eq!(store.raw_videos.len(), 2);
    let a = &store.raw_videos[0];
    assert_eq!(a.video_id, "a");
    assert_eq!(a.raw_metadata, "{\"v\":2}");
    assert_eq!(a.created_at, 100);
    assert_eq!(a.updated_at, 200);
    assert_eq!(a.id, 1);
}

#[test]
fn video_upsert_twice_keeps_one_record() {
    let mut store = VideoStore::new();
    let first = YoutubeVideo::from_item(item("a", "old title", "10", ""), 0);
    store.save_video_and_keywords(first, vec!["k1".to_string(), "k2".to_string()], 100).unwrap();
    let mut second = YoutubeVideo::from_item(item("a", "new title", "20", ""), 0);
    second.channel_id = "other".to_string();
    store.save_video_and_keywords(second, vec!["k2".to_string(), "k3".to_string()], 200).unwrap();
    assert_eq!(store.videos.len(), 1);
    let v = &store.videos[0];
    assert_eq!(v.title, "new title");
    assert_eq!(v.view_count, 20);
    assert_eq!(v.channel_id, "ch");
    assert_eq!(v.created_at, 100);
    assert_eq!(v.updated_at, 200);
    let texts: Vec<&str> = store.keywords.iter().map(|k| k.keyword_text.as_str()).collect();
    assert_eq!(texts, vec!["k1", "k2", "k3"]);
    assert_eq!(store.links, vec![(1, 2), (1, 3)]);
}

#[test]
fn extracted_batch_is_stored_with_links() {
    let mut store = VideoStore::new();
    let videos = normalize_batch(vec![item("a", "t", "10", ""), item("b", "t", "20", "")], 0);
    let map = KeywordMap::from_responses(vec![answer("a", &["x", "y"]), answer("b", &["y", "y"])]);
    let skipped = save_extracted_batch(&mut store, videos, &map, 50);
    assert_eq!(skipped, 0);
    assert_eq!(store.videos.len(), 2);
    assert_eq!(store.links, vec![(1, 1), (1, 2), (2, 2)]);
}

#[test]
fn daily_ranking_from_stored_videos() {
    let day: i64 = 20000;
    let start = day * 86400;
    let mut store = VideoStore::new();
    let videos = normalize_batch(
        vec![item("a", "t", "10", ""), item("b", "t", "30", ""), item("c", "t", "99", "")],
        0,
    );
    let map = KeywordMap::from_responses(vec![
        answer("a", &["x", "y"]),
        answer("b", &["y"]),
        answer("c", &["z"]),
    ]);
    let mut it = videos.into_iter();
    let a = it.next().unwrap();
    let b = it.next().unwrap();
    let c = it.next().unwrap();
    save_extracted_batch(&mut store, vec![a, b], &map, start - 3600);
    // updated at the start of the day itself: outside the window
    save_extracted_batch(&mut store, vec![c], &map, start);
    let trends = store.keyword_trends((day - 7) * 86400, start);
    assert_eq!(trends.len(), 2);
    let mut rankings = RankingStore::new();
    assert!(calculate_and_store_daily_rankings(&store, &mut rankings, day));
    let texts: Vec<&str> = rankings.rankings.iter().map(|r| r.keyword_text.as_str()).collect();
    assert_eq!(texts, vec!["y", "x"]);
    let scores: Vec<i64> = rankings.rankings.iter().map(|r| r.score).collect();
    assert_eq!(scores, vec![40, 10]);
    assert!(!calculate_and_store_daily_rankings(&store, &mut rankings, day));
    assert_eq!(rankings.rankings.len(), 2);
    let report = get_daily_rankings(&rankings, day);
    assert_eq!(report.len(), 2);
    assert_eq!(report[0].rank_change, RankChange::New);
}

#[test]
fn first_attempt_retries_after_base_delay() {
    assert_eq!(after_failed_attempt(1), RetryDecision::RetryAfter(100));
    assert_eq!(after_failed_attempt(2), RetryDecision::RetryAfter(10000));
}

#[test]
fn third_failed_attempt_gives_up() {
    assert_eq!(after_failed_attempt(3), RetryDecision::GiveUp);
    assert_eq!(after_failed_attempt(9), RetryDecision::GiveUp);
}

#[test]
fn answer_text_is_first_part_of_first_candidate() {
    let r = GeminiApiResponse {
        candidates: vec![
            Candidate {
                content: Content {
                    parts: vec![Part { text: "[1]".to_string() }, Part { text: "[2]".to_string() }],
                },
            },
            Candidate { content: Content { parts: vec![Part { text: "[3]".to_string() }] } },
        ],
    };
    assert_eq!(response_text(r), Some("[1]".to_string()));
    assert_eq!(response_text(GeminiApiResponse { candidates: vec![] }), None);
    let empty = GeminiApiResponse { candidates: vec![Candidate { content: Content { parts: vec![] } }] };
    assert_eq!(response_text(empty), None);
}

#[test]
fn later_answer_for_a_video_wins() {
    let map = KeywordMap::from_responses(vec![answer("a", &["x"]), answer("a", &["y", "z"])]);
    assert_eq!(map.keywords_for(&"a".to_string()), vec!["y".to_string(), "z".to_string()]);
    assert!(map.keywords_for(&"b".to_string()).is_empty());
    assert!(KeywordMap::empty().keywords_for(&"a".to_string()).is_empty());
}

#[test]
fn prompt_summary_of_untagged_video() {
    let mut v = YoutubeVideo::from_item(item("a", "t", "1", ""), 0);
    v.tags = None;
    let p = GeminiPromptVideoData::from_video(&v);
    assert_eq!(p.video_id, "a");
    assert!(p.tags.is_empty());
}

#[test]
fn discovery_walks_eight_days_of_at_most_ten_pages() {
    let now = 1_000_000_000;
    let mut d = Discovery::new(now);
    let mut requests = 0;
    let mut days_seen = Vec::new();
    while let Some(req) = d.next_request() {
        requests += 1;
        assert_eq!(req.published_before - req.published_after, 86400);
        if !days_seen.contains(&req.published_before) {
            days_seen.push(req.published_before);
        }
        // every page offers a continuation
        d.record_page(vec![format!("id{}", requests)], Some(format!("tok{}", requests)));
    }
    assert_eq!(requests, 80);
    assert_eq!(days_seen.len(), 8);
    assert_eq!(days_seen[0], now);
    assert_eq!(days_seen[7], now - 7 * 86400);
    assert_eq!(d.ids.len(), 80);
}

#[test]
fn discovery_follows_cursor_then_moves_on() {
    let mut d = Discovery::new(500_000_000);
    let first = d.next_request().unwrap();
    assert_eq!(first.page_token, None);
    d.record_page(vec!["a".to_string()], Some("next".to_string()));
    let second = d.next_request().unwrap();
    assert_eq!(second.page_token, Some("next".to_string()));
    assert_eq!(second.published_after, first.published_after);
    d.record_page(vec!["b".to_string()], None);
    let third = d.next_request().unwrap();
    assert_eq!(third.page_token, None);
    assert_eq!(third.published_before, first.published_after);
    assert!(SEARCH_QUERY.starts_with("#shorts|#"));
}

#[test]
fn playlist_scan_until_cursor_exhausted() {
    let mut p = PlaylistScan::new("UU1".to_string());
    let r = p.next_request().unwrap();
    assert_eq!(r.playlist_id, "UU1");
    assert_eq!(r.page_token, None);
    p.record_page(vec!["a".to_string(), "b".to_string()], Some("c1".to_string()));
    assert_eq!(p.next_request().unwrap().page_token, Some("c1".to_string()));
    p.record_page(vec!["c".to_string()], None);
    assert!(p.next_request().is_none());
    assert_eq!(p.ids, vec!["a".to_string(), "b".to_string(), "c".to_string()]);
}

#[test]
fn page_counts() {
    assert_eq!(default_page(), 0);
    assert_eq!(default_size(), 10);
    assert_eq!(total_pages(0, 10), 0);
    assert_eq!(total_pages(25, 10), 3);
    assert_eq!(total_pages(30, 10), 3);
    assert_eq!(total_pages(5, 0), u32::MAX);
    assert_eq!(total_pages(0, 0), 0);
}

#[test]
fn rerun_of_a_batch_adds_no_record() {
    let mut store = VideoStore::new();
    let first = normalize_batch(vec![item("a", "t", "10", ""), item("b", "t", "20", "")], 0);
    let map = KeywordMap::from_responses(vec![answer("a", &["x"]), answer("b", &["y"])]);
    save_extracted_batch(&mut store, first, &map, 100);
    let second = normalize_batch(vec![item("a", "t2", "11", ""), item("b", "t2", "21", "")], 0);
    save_extracted_batch(&mut store, second, &map, 200);
    assert_eq!(store.videos.len(), 2);
    assert_eq!(store.keywords.len(), 2);
    assert_eq!(store.links, vec![(1, 1), (2, 2)]);
    assert!(store.videos.iter().all(|v| v.created_at == 100 && v.updated_at == 200));
    assert_eq!(store.videos[1].view_count, 21);
    assert_eq!(store.videos[0].title, "t2");
}
