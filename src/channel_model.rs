//! Channel records and the errors of a channel-analysis request.

use vstd::prelude::*;
use crate::data_api_model::ChannelItem;
use crate::numbers::{count_value, parse_count};

verus! {

/// A channel under analysis, keyed by its handle. Instants are seconds since
/// the Unix epoch.
#[derive(Debug)]
pub struct YoutubeChannel {
    pub id: i64,
    pub channel_id: String,
    pub channel_handle: String,
    pub channel_title: String,
    pub thumbnail_url: String,
    pub description: String,
    pub subscriber_count: i64,
    pub view_count: i64,
    pub video_count: i64,
    pub is_finished: bool,
    pub created_at: i64,
    pub updated_at: i64,
}

/// A keyword of a channel with its summed view count.
#[derive(Debug)]
pub struct YoutubeChannelKeyword {
    pub id: i64,
    pub youtube_channel_id: i64,
    pub keyword_text: String,
    pub view_count: i64,
}

/// A channel as reported to readers.
#[derive(Debug)]
pub struct ChannelResponse {
    pub channel_id: String,
    pub channel_handle: String,
    pub channel_title: String,
    pub thumbnail_url: String,
    pub description: String,
    pub subscriber_count: i64,
    pub view_count: i64,
    pub video_count: i64,
    pub is_finished: bool,
    pub updated_at: i64,
}

/// A channel keyword as reported to readers.
#[derive(Debug)]
pub struct ChannelKeywordResponse {
    pub keyword_text: String,
    pub view_count: i64,
}

#[derive(Debug)]
pub struct ChannelRequestQuery {
    pub channel_id: String,
}

#[derive(Debug)]
pub struct AnalyzeChannelRequestQuery {
    pub channel_handle: String,
}

/// Why a channel-analysis request was refused; each carries the handle.
#[derive(Debug)]
pub enum YoutubeChannelError {
    /// The platform knows no channel with this handle.
    ChannelNotFound(String),
    /// The channel was already recorded.
    ChannelDuplicated(String),
}

/// The unfinished channel record made from the platform's details.
pub open spec fn channel_record(item: ChannelItem) -> YoutubeChannel {
    YoutubeChannel {
        id: 0,
        channel_id: item.id,
        channel_handle: item.snippet.custom_url,
        channel_title: item.snippet.title,
        thumbnail_url: item.snippet.thumbnails.default.url,
        description: item.snippet.description,
        subscriber_count: count_value(item.statistics.subscriber_count@) as i64,
        view_count: count_value(item.statistics.view_count@) as i64,
        video_count: count_value(item.statistics.video_count@) as i64,
        is_finished: false,
        created_at: 0,
        updated_at: 0,
    }
}

impl YoutubeChannel {
    /// A new, unfinished channel record from the platform's details; the
    /// handle is the channel's custom URL and unreadable counts are zero.
    pub fn from_item(item: ChannelItem) -> (r: YoutubeChannel)
        ensures
            r == channel_record(item),
    {
        let subscriber_count = parse_count(item.statistics.subscriber_count.as_str());
        let view_count = parse_count(item.statistics.view_count.as_str());
        let video_count = parse_count(item.statistics.video_count.as_str());
        YoutubeChannel {
            id: 0,
            channel_id: item.id,
            channel_handle: item.snippet.custom_url,
            channel_title: item.snippet.title,
            thumbnail_url: item.snippet.thumbnails.default.url,
            description: item.snippet.description,
            subscriber_count,
            view_count,
            video_count,
            is_finished: false,
            created_at: 0,
            updated_at: 0,
        }
    }
}

/// The reported form of a channel record.
pub open spec fn channel_response(c: YoutubeChannel) -> ChannelResponse {
    ChannelResponse {
        channel_id: c.channel_id,
        channel_handle: c.channel_handle,
        channel_title: c.channel_title,
        thumbnail_url: c.thumbnail_url,
        description: c.description,
        subscriber_count: c.subscriber_count,
        view_count: c.view_count,
        video_count: c.video_count,
        is_finished: c.is_finished,
        updated_at: c.updated_at,
    }
}

impl ChannelResponse {
    pub fn from_channel(c: &YoutubeChannel) -> (r: ChannelResponse)
        ensures
            r == channel_response(*c),
    {
        ChannelResponse {
            channel_id: c.channel_id.clone(),
            channel_handle: c.channel_handle.clone(),
            channel_title: c.channel_title.clone(),
            thumbnail_url: c.thumbnail_url.clone(),
            description: c.description.clone(),
            subscriber_count: c.subscriber_count,
            view_count: c.view_count,
            video_count: c.video_count,
            is_finished: c.is_finished,
            updated_at: c.updated_at,
        }
    }
}

impl ChannelKeywordResponse {
    pub fn from_keyword(k: &YoutubeChannelKeyword) -> (r: ChannelKeywordResponse)
        ensures
            r.keyword_text == k.keyword_text,
            r.view_count == k.view_count,
    {
        ChannelKeywordResponse { keyword_text: k.keyword_text.clone(), view_count: k.view_count }
    }
}

} // verus!
