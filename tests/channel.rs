use keyword_trends::channel::{
    channel_is_stale, cleanup_stale_channels, normalize_handle, AnalysisRequestAction,
    AnalysisRequestEvent, AnalysisRequestState, ChannelKeywordTally,
};
use keyword_trends::channel_model::{YoutubeChannel, YoutubeChannelError};
use keyword_trends::channel_store::ChannelStore;
use keyword_trends::data_api_model::{
    ChannelContentDetails, ChannelItem, ChannelSnippet, ChannelStatistics, RelatedPlaylists,
    Thumbnail, ThumbnailDetails,
};
use keyword_trends::extraction::{GeminiKeywordResponse, KeywordMap};
use keyword_trends::pagination::PaginationQuery;
use keyword_trends::video_model::YoutubeVideo;

fn thumb(url: &str) -> Thumbnail {
    Thumbnail { url: url.to_string(), width: 88, height: 88 }
}

fn channel_item() -> ChannelItem {
    ChannelItem {
        id: "UC123".to_string(),
        snippet: ChannelSnippet {
            title: "Title".to_string(),
            description: "About".to_string(),
            custom_url: "@someone".to_string(),
            thumbnails: ThumbnailDetails {
                default: thumb("d.jpg"),
                medium: thumb("m.jpg"),
                high: thumb("h.jpg"),
            },
        },
        content_details: ChannelContentDetails {
            related_playlists: RelatedPlaylists { uploads: "UU123".to_string() },
        },
        statistics: ChannelStatistics {
            view_count: "1000".to_string(),
            subscriber_count: "".to_string(),
            video_count: "12".to_string(),
        },
    }
}

fn channel(handle: &str, finished: bool, created_at: i64) -> YoutubeChannel {
    YoutubeChannel {
        id: 0,
        channel_id: "c".to_string(),
        channel_handle: handle.to_string(),
        channel_title: "t".to_string(),
        thumbnail_url: "u".to_string(),
        description: "d".to_string(),
        subscriber_count: 0,
        view_count: 0,
        video_count: 0,
        is_finished: finished,
        created_at,
        updated_at: created_at,
    }
}

fn video(id: &str, views: i64) -> YoutubeVideo {
    YoutubeVideo {
        id: 0,
        video_id: id.to_string(),
        published_at: 0,
        channel_id: "c".to_string(),
        title: "t".to_string(),
        description: "d".to_string(),
        channel_title: "ct".to_string(),
        tags: None,
        duration: 30,
        view_count: views,
        like_count: 0,
        comment_count: 0,
        embed_html: String::new(),
        topic_categories: None,
        created_at: 0,
        updated_at: 0,
    }
}

fn answer(id: &str, kws: &[&str]) -> GeminiKeywordResponse {
    GeminiKeywordResponse {
        video_id: id.to_string(),
        keywords: kws.iter().map(|k| k.to_string()).collect(),
    }
}

#[test]
fn handle_gets_at_sign() {
    assert_eq!(normalize_handle("someone".to_string()), "@someone");
    assert_eq!(normalize_handle("@someone".to_string()), "@someone");
    assert_eq!(normalize_handle(String::new()), "@");
}

#[test]
fn request_first_checks_for_duplicate() {
    let (state, action) = AnalysisRequestState::start("someone".to_string());
    assert!(matches!(state, AnalysisRequestState::CheckingDuplicate(ref h) if h == "@someone"));
    assert!(matches!(action, AnalysisRequestAction::CheckExists(ref h) if h == "@someone"));
}

#[test]
fn duplicate_request_is_refused_without_fetching_details() {
    let (state, _) = AnalysisRequestState::start("@someone".to_string());
    let (state, action) = state.step(AnalysisRequestEvent::DuplicateChecked(true));
    assert!(matches!(
        action,
        AnalysisRequestAction::Reject(YoutubeChannelError::ChannelDuplicated(ref h)) if h == "@someone"
    ));
    assert!(matches!(state, AnalysisRequestState::Rejected(_)));
    let (_, action) = state.step(AnalysisRequestEvent::DetailsFetched(Some(channel_item())));
    assert!(matches!(action, AnalysisRequestAction::Ignore));
}

#[test]
fn unknown_handle_is_not_found() {
    let (state, _) = AnalysisRequestState::start("nobody".to_string());
    let (state, action) = state.step(AnalysisRequestEvent::DuplicateChecked(false));
    assert!(matches!(action, AnalysisRequestAction::FetchDetails(ref h) if h == "@nobody"));
    let (_, action) = state.step(AnalysisRequestEvent::DetailsFetched(None));
    assert!(matches!(
        action,
        AnalysisRequestAction::Reject(YoutubeChannelError::ChannelNotFound(ref h)) if h == "@nobody"
    ));
}

#[test]
fn accepted_request_saves_then_starts_analysis() {
    let (state, _) = AnalysisRequestState::start("someone".to_string());
    let (state, _) = state.step(AnalysisRequestEvent::DuplicateChecked(false));
    let (state, action) = state.step(AnalysisRequestEvent::DetailsFetched(Some(channel_item())));
    match action {
        AnalysisRequestAction::SaveChannel(c) => {
            assert_eq!(c.channel_id, "UC123");
            assert_eq!(c.channel_handle, "@someone");
            assert_eq!(c.thumbnail_url, "d.jpg");
            assert_eq!(c.view_count, 1000);
            assert_eq!(c.subscriber_count, 0);
            assert_eq!(c.video_count, 12);
            assert!(!c.is_finished);
        }
        other => panic!("unexpected action {:?}", other),
    }
    let (state, action) = state.step(AnalysisRequestEvent::ChannelSaved(7));
    assert!(matches!(
        action,
        AnalysisRequestAction::StartAnalysis { channel_row_id: 7, ref uploads_playlist_id } if uploads_playlist_id == "UU123"
    ));
    assert!(matches!(state, AnalysisRequestState::Accepted { channel_row_id: 7, .. }));
}

#[test]
fn stale_channel_is_deleted_fresh_one_kept() {
    let now = 1_700_000_000;
    let old_unfinished = channel("@old", false, now - 61 * 60);
    let fresh = channel("@fresh", false, now - 30 * 60);
    let old_finished = channel("@done", true, now - 5 * 3600);
    assert!(channel_is_stale(&old_unfinished, now));
    assert!(!channel_is_stale(&fresh, now));
    assert!(!channel_is_stale(&old_finished, now));
    let kept = cleanup_stale_channels(vec![old_unfinished, fresh, old_finished], now);
    let handles: Vec<&str> = kept.iter().map(|c| c.channel_handle.as_str()).collect();
    assert_eq!(handles, vec!["@fresh", "@done"]);
}

#[test]
fn exactly_one_hour_old_is_kept() {
    let now = 10_000;
    assert!(!channel_is_stale(&channel("@edge", false, now - 3600), now));
    assert!(channel_is_stale(&channel("@edge", false, now - 3601), now));
    assert!(!channel_is_stale(&channel("@edge", false, 0), i64::MIN));
}

#[test]
fn channel_store_cleanup_sweep() {
    let now = 1_000_000;
    let mut store = ChannelStore::new();
    let a = store.save_channel(channel("@a", false, 0), now - 61 * 60);
    let b = store.save_channel(channel("@b", false, 0), now - 30 * 60);
    assert_eq!((a, b), (1, 2));
    assert!(store.channel_exists_by_handle(&"@a".to_string()));
    store.delete_channel_not_finished(now);
    assert!(!store.channel_exists_by_handle(&"@a".to_string()));
    assert!(store.channel_exists_by_handle(&"@b".to_string()));
}

#[test]
fn finished_channel_survives_cleanup() {
    let now = 1_000_000;
    let mut store = ChannelStore::new();
    let id = store.save_channel(channel("@a", false, 0), now - 2 * 3600);
    store.update_channel_finished_by_id(id);
    assert!(store.channels[0].is_finished);
    store.delete_channel_not_finished(now);
    assert_eq!(store.channels.len(), 1);
}

#[test]
fn tally_accumulates_over_batches() {
    let mut tally = ChannelKeywordTally::new();
    let first = KeywordMap::from_responses(vec![answer("v1", &["cat", "dog"]), answer("v2", &["cat"])]);
    tally.add_batch(&vec![video("v1", 10), video("v2", 5), video("v3", 100)], &first);
    let second = KeywordMap::from_responses(vec![answer("v4", &["dog", "bird"])]);
    tally.add_batch(&vec![video("v4", 1)], &second);
    let rows = tally.into_rows(9);
    let got: Vec<(String, i64, i64)> =
        rows.iter().map(|r| (r.keyword_text.clone(), r.view_count, r.youtube_channel_id)).collect();
    assert_eq!(
        got,
        vec![
            ("cat".to_string(), 15, 9),
            ("dog".to_string(), 11, 9),
            ("bird".to_string(), 1, 9),
        ]
    );
}

#[test]
fn tally_saturates() {
    let mut tally = ChannelKeywordTally::new();
    tally.add("k".to_string(), i64::MAX);
    tally.add("k".to_string(), 5);
    assert_eq!(tally.entries[0].1, i64::MAX);
}

#[test]
fn channel_keywords_by_view_count() {
    let mut store = ChannelStore::new();
    let mut tally = ChannelKeywordTally::new();
    tally.add("low".to_string(), 1);
    tally.add("high".to_string(), 50);
    tally.add("mid".to_string(), 20);
    store.save_channel_keywords(tally.into_rows(3));
    let mut other = ChannelKeywordTally::new();
    other.add("elsewhere".to_string(), 999);
    store.save_channel_keywords(other.into_rows(4));
    let top = store.find_keywords_by_channel_id_order_by_view_count(3, 2);
    let got: Vec<(&str, i64)> = top.iter().map(|k| (k.keyword_text.as_str(), k.view_count)).collect();
    assert_eq!(got, vec![("high", 50), ("mid", 20)]);
}

#[test]
fn channel_listing_pages() {
    let mut store = ChannelStore::new();
    for i in 0..25 {
        store.save_channel(channel(&format!("@c{}", i), false, 0), 100 + i);
    }
    let page = store.get_youtube_channels(&PaginationQuery { page: 2, size: 10 });
    assert_eq!(page.total_items, 25);
    assert_eq!(page.total_pages, 3);
    assert_eq!(page.items.len(), 5);
    assert_eq!(page.items[0].channel_handle, "@c20");
    assert_eq!(page.items[0].updated_at, 120);
    let beyond = store.get_youtube_channels(&PaginationQuery { page: 9, size: 10 });
    assert!(beyond.items.is_empty());
    assert_eq!(beyond.page, 9);
}
