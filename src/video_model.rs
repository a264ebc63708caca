//! Persisted video, keyword and ranking records. Instants are seconds since
//! the Unix epoch (UTC); ranking dates are days since the epoch.

use vstd::prelude::*;
use crate::data_api_model::{decoded_duration, VideoItem};
use crate::numbers::{count_value, parse_count};

verus! {

/// A raw detail record, stored as its JSON text and keyed by the external id.
#[derive(Debug)]
pub struct YoutubeRawVideo {
    pub id: i64,
    pub video_id: String,
    pub raw_metadata: String,
    pub created_at: i64,
    pub updated_at: i64,
}

/// A normalized video record, keyed by the external id.
#[derive(Debug)]
pub struct YoutubeVideo {
    pub id: i64,
    pub video_id: String,
    pub published_at: i64,
    pub channel_id: String,
    pub title: String,
    pub description: String,
    pub channel_title: String,
    pub tags: Option<Vec<String>>,
    pub duration: i32,
    pub view_count: i64,
    pub like_count: i64,
    pub comment_count: i64,
    pub embed_html: String,
    pub topic_categories: Option<Vec<String>>,
    pub created_at: i64,
    pub updated_at: i64,
}

/// A keyword, keyed by its text.
#[derive(Debug)]
pub struct YoutubeKeyword {
    pub id: i64,
    pub keyword_text: String,
}

/// One row of a daily ranking.
#[derive(Debug)]
pub struct YoutubeKeywordRanking {
    pub id: i64,
    pub ranking_date: i64,
    pub ranking: i32,
    pub keyword_id: i64,
    pub keyword_text: String,
    pub score: i64,
}

/// A keyword with the summed view count of the videos linked to it.
#[derive(Debug)]
pub struct KeywordTrend {
    pub id: i64,
    pub keyword_text: String,
    pub total_views: Option<i64>,
}

/// A ranking row as reported, with its change since the day before.
#[derive(Debug)]
pub struct KeywordRankingResponse {
    pub ranking: i32,
    pub keyword_text: String,
    pub score: i64,
    pub rank_change: RankChange,
}

/// Movement of a keyword between two daily rankings.
#[derive(PartialEq, Eq, Structural, Debug, Clone, Copy)]
pub enum RankChange {
    Up(i32),
    Down(i32),
    Same,
    New,
}

impl KeywordRankingResponse {
    /// Pairs a ranking row with its rank change.
    pub fn from_ranking(ranking_data: YoutubeKeywordRanking, rank_change: RankChange) -> (r: Self)
        ensures
            r.ranking == ranking_data.ranking,
            r.keyword_text == ranking_data.keyword_text,
            r.score == ranking_data.score,
            r.rank_change == rank_change,
    {
        KeywordRankingResponse {
            ranking: ranking_data.ranking,
            keyword_text: ranking_data.keyword_text,
            score: ranking_data.score,
            rank_change,
        }
    }
}

/// Instant that a date-time text denotes, in whole seconds since the epoch,
/// if the text is a date-time.
pub uninterp spec fn rfc3339_seconds(s: Seq<char>) -> Option<i64>;

/// Relies on chrono's `FromStr` for `DateTime<Utc>` (a relaxed RFC 3339
/// parse) and on `DateTime::timestamp`: the result depends on the text
/// alone.
#[verifier::external_body]
fn parse_instant(s: &str) -> (r: Option<i64>)
    ensures
        r == rfc3339_seconds(s@),
{
    match s.parse::<chrono::DateTime<chrono::Utc>>() {
        Ok(d) => Some(d.timestamp()),
        Err(_) => None,
    }
}

/// An optional count; absent or unreadable counts are zero.
pub open spec fn optional_count(o: Option<String>) -> int {
    match o {
        Some(s) => count_value(s@),
        None => 0,
    }
}

/// The normalized record of a detail record, normalized at `now`: an
/// unreadable publication time becomes `now`, unreadable counts zero.
pub open spec fn video_record(item: VideoItem, now: i64) -> YoutubeVideo {
    YoutubeVideo {
        id: 0,
        video_id: item.id,
        published_at: match rfc3339_seconds(item.snippet.published_at@) {
            Some(t) => t,
            None => now,
        },
        channel_id: item.snippet.channel_id,
        title: item.snippet.title,
        description: item.snippet.description,
        channel_title: item.snippet.channel_title,
        tags: item.snippet.tags,
        duration: decoded_duration(item.content_details.duration@) as i32,
        view_count: count_value(item.statistics.view_count@) as i64,
        like_count: optional_count(item.statistics.like_count) as i64,
        comment_count: optional_count(item.statistics.comment_count) as i64,
        embed_html: item.player.embed_html,
        topic_categories: match item.topic_details {
            Some(d) => Some(d.topic_categories),
            None => None,
        },
        created_at: 0,
        updated_at: 0,
    }
}

fn read_optional_count(o: &Option<String>) -> (r: i64)
    ensures
        r as int == optional_count(*o),
{
    match o {
        Some(s) => parse_count(s.as_str()),
        None => 0,
    }
}

impl YoutubeVideo {
    /// Normalizes a detail record at `now`.
    pub fn from_item(item: VideoItem, now: i64) -> (r: YoutubeVideo)
        ensures
            r == video_record(item, now),
    {
        let duration = item.content_details.as_seconds();
        let published_at = match parse_instant(item.snippet.published_at.as_str()) {
            Some(t) => t,
            None => now,
        };
        let view_count = parse_count(item.statistics.view_count.as_str());
        let like_count = read_optional_count(&item.statistics.like_count);
        let comment_count = read_optional_count(&item.statistics.comment_count);
        let topic_categories = match item.topic_details {
            Some(d) => Some(d.topic_categories),
            None => None,
        };
        YoutubeVideo {
            id: 0,
            video_id: item.id,
            published_at,
            channel_id: item.snippet.channel_id,
            title: item.snippet.title,
            description: item.snippet.description,
            channel_title: item.snippet.channel_title,
            tags: item.snippet.tags,
            duration,
            view_count,
            like_count,
            comment_count,
            embed_html: item.player.embed_html,
            topic_categories,
            created_at: 0,
            updated_at: 0,
        }
    }
}

} // verus!
