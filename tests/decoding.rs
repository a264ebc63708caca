use keyword_trends::data_api_model::{
    ContentDetails, Player, Snippet, Statistics, TopicDetails, VideoItem,
};
use keyword_trends::filter::{filter_raw_video_data, is_short_candidate};
use keyword_trends::numbers::parse_count;

fn details(d: &str) -> ContentDetails {
    ContentDetails { duration: d.to_string() }
}

fn video(id: &str, duration: &str, title: &str) -> VideoItem {
    VideoItem {
        id: id.to_string(),
        snippet: Snippet {
            published_at: "2024-01-01T00:00:00Z".to_string(),
            channel_id: "ch".to_string(),
            title: title.to_string(),
            description: "desc".to_string(),
            channel_title: "channel".to_string(),
            tags: Some(vec!["a".to_string()]),
            category_id: "22".to_string(),
        },
        content_details: details(duration),
        statistics: Statistics {
            view_count: "100".to_string(),
            like_count: Some("5".to_string()),
            comment_count: None,
        },
        player: Player { embed_html: "<iframe>".to_string() },
        topic_details: Some(TopicDetails { topic_categories: vec!["music".to_string()] }),
    }
}

#[test]
fn duration_minutes_and_seconds() {
    assert_eq!(details("PT1M5S").as_seconds(), 65);
}

#[test]
fn duration_seconds_only() {
    assert_eq!(details("PT61S").as_seconds(), 61);
}

#[test]
fn duration_empty_body_is_zero() {
    assert_eq!(details("PT").as_seconds(), 0);
}

#[test]
fn duration_hours() {
    assert_eq!(details("PT1H").as_seconds(), 3600);
}

#[test]
fn duration_all_units() {
    assert_eq!(details("PT1H2M3S").as_seconds(), 3723);
}

#[test]
fn duration_unknown_unit_is_ignored() {
    // the digits around an unknown letter keep accumulating
    assert_eq!(details("PT1X5S").as_seconds(), 15);
    assert_eq!(details("PT30X").as_seconds(), 0);
}

#[test]
fn duration_without_prefix_is_zero() {
    assert_eq!(details("1M5S").as_seconds(), 0);
    assert_eq!(details("").as_seconds(), 0);
}

#[test]
fn duration_too_large_is_zero() {
    assert_eq!(details("PT99999999999H").as_seconds(), 0);
    assert_eq!(details("PT596523H14M7S").as_seconds(), 2147483647);
    assert_eq!(details("PT596523H14M8S").as_seconds(), 0);
}

#[test]
fn korean_title_detection() {
    let mut s = video("a", "PT30S", "\u{c1fc}\u{cc20} video").snippet;
    assert!(s.has_korean());
    s.title = "plain title".to_string();
    assert!(!s.has_korean());
    s.title = "\u{ac00}".to_string();
    assert!(s.has_korean());
    s.title = "\u{d7a3}".to_string();
    assert!(s.has_korean());
    s.title = "\u{d7a4}\u{3131}".to_string();
    assert!(!s.has_korean());
}

#[test]
fn filter_upper_bound_is_inclusive() {
    assert!(is_short_candidate(&video("a", "PT61S", "\u{d55c}\u{ae00}")));
    assert!(is_short_candidate(&video("a", "PT1M1S", "\u{d55c}\u{ae00}")));
}

#[test]
fn filter_rejects_above_upper_bound() {
    assert!(!is_short_candidate(&video("a", "PT62S", "\u{d55c}\u{ae00}")));
}

#[test]
fn filter_lower_bound_is_exclusive() {
    assert!(!is_short_candidate(&video("a", "PT10S", "\u{d55c}\u{ae00}")));
    assert!(is_short_candidate(&video("a", "PT11S", "\u{d55c}\u{ae00}")));
}

#[test]
fn filter_requires_korean_title() {
    assert!(!is_short_candidate(&video("a", "PT11S", "english only")));
}

#[test]
fn filter_keeps_order_of_qualifying_records() {
    let items = vec![
        video("a", "PT30S", "\u{d55c} one"),
        video("b", "PT5S", "\u{d55c} two"),
        video("c", "PT45S", "three"),
        video("d", "PT61S", "\u{d55c} four"),
        video("e", "PT", "\u{d55c} five"),
    ];
    let kept = filter_raw_video_data(items);
    let ids: Vec<String> = kept.iter().map(|v| v.id.clone()).collect();
    assert_eq!(ids, vec!["a".to_string(), "d".to_string()]);
}

#[test]
fn filter_of_nothing_is_nothing() {
    assert!(filter_raw_video_data(Vec::new()).is_empty());
}

#[test]
fn counts_parse_like_integers() {
    assert_eq!(parse_count("123"), 123);
    assert_eq!(parse_count("+5"), 5);
    assert_eq!(parse_count("-7"), -7);
    assert_eq!(parse_count("0"), 0);
    assert_eq!(parse_count("9223372036854775807"), i64::MAX);
    assert_eq!(parse_count("-9223372036854775808"), i64::MIN);
}

#[test]
fn unreadable_counts_are_zero() {
    assert_eq!(parse_count(""), 0);
    assert_eq!(parse_count("abc"), 0);
    assert_eq!(parse_count("12a"), 0);
    assert_eq!(parse_count("-"), 0);
    assert_eq!(parse_count("1 000"), 0);
    assert_eq!(parse_count("9223372036854775808"), 0);
    assert_eq!(parse_count("-9223372036854775809"), 0);
}
