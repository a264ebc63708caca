//! Records returned by the external video platform, as plain values.

use vstd::prelude::*;
use vstd::string::*;

verus! {

/// One page of a video search.
#[derive(Debug)]
pub struct SearchListResponse {
    pub items: Vec<SearchResultItem>,
    pub next_page_token: Option<String>,
}

#[derive(Debug)]
pub struct SearchResultItem {
    pub id: SearchResultId,
}

#[derive(Debug)]
pub struct SearchResultId {
    pub video_id: String,
}

/// One page of the detail-fetch call.
#[derive(Debug)]
pub struct VideoListResponse {
    pub items: Vec<VideoItem>,
    pub next_page_token: Option<String>,
}

/// Full metadata of one video.
#[derive(Debug)]
pub struct VideoItem {
    pub id: String,
    pub snippet: Snippet,
    pub content_details: ContentDetails,
    pub statistics: Statistics,
    pub player: Player,
    pub topic_details: Option<TopicDetails>,
}

#[derive(Debug)]
pub struct Snippet {
    pub published_at: String,
    pub channel_id: String,
    pub title: String,
    pub description: String,
    pub channel_title: String,
    pub tags: Option<Vec<String>>,
    pub category_id: String,
}

#[derive(Debug)]
pub struct ContentDetails {
    /// ISO-8601 duration such as `PT1M5S`.
    pub duration: String,
}

#[derive(Debug)]
pub struct Statistics {
    pub view_count: String,
    pub like_count: Option<String>,
    pub comment_count: Option<String>,
}

#[derive(Debug)]
pub struct Player {
    pub embed_html: String,
}

#[derive(Debug)]
pub struct TopicDetails {
    pub topic_categories: Vec<String>,
}

/// Result of a channel search.
#[derive(Debug)]
pub struct ChannelSearchResponse {
    pub items: Vec<ChannelSearchResultItem>,
}

#[derive(Debug)]
pub struct ChannelSearchResultItem {
    pub id: ChannelSearchResultId,
}

#[derive(Debug)]
pub struct ChannelSearchResultId {
    pub channel_id: String,
}

/// Result of the channel-details-by-handle call.
#[derive(Debug)]
pub struct ChannelListResponse {
    pub items: Vec<ChannelItem>,
}

#[derive(Debug)]
pub struct ChannelItem {
    pub id: String,
    pub snippet: ChannelSnippet,
    pub content_details: ChannelContentDetails,
    pub statistics: ChannelStatistics,
}

#[derive(Debug)]
pub struct ChannelSnippet {
    pub title: String,
    pub description: String,
    pub custom_url: String,
    pub thumbnails: ThumbnailDetails,
}

#[derive(Debug)]
pub struct ChannelContentDetails {
    pub related_playlists: RelatedPlaylists,
}

#[derive(Debug)]
pub struct ChannelStatistics {
    pub view_count: String,
    pub subscriber_count: String,
    pub video_count: String,
}

#[derive(Debug)]
pub struct RelatedPlaylists {
    pub uploads: String,
}

#[derive(Debug)]
pub struct ThumbnailDetails {
    pub default: Thumbnail,
    pub medium: Thumbnail,
    pub high: Thumbnail,
}

#[derive(Debug)]
pub struct Thumbnail {
    pub url: String,
    pub width: u32,
    pub height: u32,
}

/// One page of a playlist enumeration.
#[derive(Debug)]
pub struct PlaylistItemListResponse {
    pub items: Vec<PlaylistItem>,
    pub next_page_token: Option<String>,
}

#[derive(Debug)]
pub struct PlaylistItem {
    pub content_details: PlaylistItemContentDetails,
}

#[derive(Debug)]
pub struct PlaylistItemContentDetails {
    pub video_id: String,
}

/// Seconds that a unit letter of a duration stands for; zero for any other
/// character.
pub open spec fn unit_seconds(c: char) -> int {
    if c == 'H' {
        3600
    } else if c == 'M' {
        60
    } else if c == 'S' {
        1
    } else {
        0
    }
}

pub open spec fn is_unit(c: char) -> bool {
    c == 'H' || c == 'M' || c == 'S'
}

pub open spec fn is_ascii_digit(c: char) -> bool {
    '0' <= c <= '9'
}

pub open spec fn digit_value(c: char) -> int {
    c as int - '0' as int
}

/// State of the duration scan after reading `s`: the seconds added so far and
/// the number accumulated since the last unit letter.
pub open spec fn duration_scan(s: Seq<char>) -> (int, int)
    decreases s.len(),
{
    if s.len() == 0 {
        (0, 0)
    } else {
        let prev = duration_scan(s.drop_last());
        let c = s.last();
        if is_ascii_digit(c) {
            (prev.0, prev.1 * 10 + digit_value(c))
        } else if is_unit(c) {
            (prev.0 + prev.1 * unit_seconds(c), 0)
        } else {
            prev
        }
    }
}

pub open spec fn has_duration_prefix(s: Seq<char>) -> bool {
    s.len() >= 2 && s[0] == 'P' && s[1] == 'T'
}

/// Seconds that an ISO-8601 duration text denotes: the `PT` prefix is
/// required, each number is multiplied by the unit letter that follows it,
/// other characters are ignored, and trailing digits without a unit count
/// for nothing.
pub open spec fn duration_seconds(s: Seq<char>) -> int {
    if has_duration_prefix(s) {
        duration_scan(s.subrange(2, s.len() as int)).0
    } else {
        0
    }
}

/// The decoded duration as the library reports it: a total that does not fit
/// an `i32` is unparseable and decodes to zero.
pub open spec fn decoded_duration(s: Seq<char>) -> int {
    let total = duration_seconds(s);
    if total <= i32::MAX { total } else { 0 }
}

/// Hangul syllables, the script that a qualifying title must contain.
pub open spec fn is_hangul_syllable(c: char) -> bool {
    0xAC00 <= c as u32 <= 0xD7A3
}

pub open spec fn has_hangul(s: Seq<char>) -> bool {
    exists|i: int| 0 <= i < s.len() && is_hangul_syllable(#[trigger] s[i])
}

pub proof fn lemma_duration_scan_nonneg(s: Seq<char>)
    ensures
        duration_scan(s).0 >= 0,
        duration_scan(s).1 >= 0,
    decreases s.len(),
{
    if s.len() > 0 {
        lemma_duration_scan_nonneg(s.drop_last());
        let prev = duration_scan(s.drop_last());
        assert(prev.1 * 10 >= 0) by (nonlinear_arith)
            requires
                prev.1 >= 0,
        ;
        assert(prev.1 * unit_seconds(s.last()) >= 0) by (nonlinear_arith)
            requires
                prev.1 >= 0,
                unit_seconds(s.last()) >= 0,
        ;
    }
}

/// A character that is neither a digit nor a unit letter leaves the decoding
/// unchanged wherever it stands: inserting it into the text after the `PT`
/// prefix gives the same number of seconds.
pub proof fn lemma_unknown_letter_ignored(s: Seq<char>, k: int, c: char)
    requires
        has_duration_prefix(s),
        2 <= k <= s.len(),
        !is_ascii_digit(c),
        !is_unit(c),
    ensures
        duration_seconds(s.insert(k, c)) == duration_seconds(s),
{
    let t = s.insert(k, c);
    let body = s.subrange(2, s.len() as int);
    let tbody = t.subrange(2, t.len() as int);
    assert(has_duration_prefix(t)) by {
        assert(t[0] == s[0] && t[1] == s[1]);
    }
    assert(tbody =~= body.insert(k - 2, c));
    lemma_scan_insert_ignored(body, k - 2, c);
}

proof fn lemma_scan_insert_ignored(b: Seq<char>, k: int, c: char)
    requires
        0 <= k <= b.len(),
        !is_ascii_digit(c),
        !is_unit(c),
    ensures
        duration_scan(b.insert(k, c)) == duration_scan(b),
    decreases b.len(),
{
    let t = b.insert(k, c);
    if k == b.len() {
        assert(t.drop_last() =~= b);
        assert(t.last() == c);
    } else {
        lemma_scan_insert_ignored(b.drop_last(), k, c);
        assert(t.drop_last() =~= b.drop_last().insert(k, c));
        assert(t.last() == b.last());
    }
}

/// Largest value the capped scan keeps; one past `i32::MAX`.
pub const DURATION_CAP: u64 = 2147483648;

pub open spec fn capped(x: int) -> int {
    if x < DURATION_CAP as int {
        x
    } else {
        DURATION_CAP as int
    }
}

impl ContentDetails {
    /// Decodes the duration into seconds.
    pub fn as_seconds(&self) -> (r: i32)
        ensures
            r as int == decoded_duration(self.duration@),
    {
        let s = self.duration.as_str();
        let n = s.unicode_len();
        if n < 2 || s.get_char(0) != 'P' || s.get_char(1) != 'T' {
            return 0;
        }
        let ghost body = s@.subrange(2, n as int);
        let mut total: u64 = 0;
        let mut pending: u64 = 0;
        let mut i: usize = 2;
        while i < n
            invariant
                2 <= i <= n,
                n == s@.len(),
                has_duration_prefix(s@),
                body == s@.subrange(2, n as int),
                total <= DURATION_CAP,
                pending <= DURATION_CAP,
                total as int == capped(duration_scan(body.subrange(0, i - 2)).0),
                pending as int == capped(duration_scan(body.subrange(0, i - 2)).1),
            decreases n - i,
        {
            let c = s.get_char(i);
            let ghost pre = body.subrange(0, i - 2);
            let ghost next = body.subrange(0, i - 1);
            proof {
                assert(next.drop_last() =~= pre);
                assert(next.last() == c);
                lemma_duration_scan_nonneg(pre);
            }
            let ghost p = duration_scan(pre).1;
            let ghost t = duration_scan(pre).0;
            if '0' <= c && c <= '9' {
                let d = (c as u32 - '0' as u32) as u64;
                let v = pending * 10 + d;
                pending = if v < DURATION_CAP { v } else { DURATION_CAP };
                proof {
                    assert(d as int == digit_value(c));
                    if p >= DURATION_CAP as int {
                        assert(p * 10 + digit_value(c) >= DURATION_CAP as int);
                    }
                }
            } else if c == 'H' || c == 'M' || c == 'S' {
                let add: u64 = if c == 'H' {
                    pending * 3600
                } else if c == 'M' {
                    pending * 60
                } else {
                    pending
                };
                let v = total + add;
                total = if v < DURATION_CAP { v } else { DURATION_CAP };
                pending = 0;
                proof {
                    if p >= DURATION_CAP as int {
                        assert(p * unit_seconds(c) >= DURATION_CAP as int);
                        assert(add as int >= DURATION_CAP as int);
                    } else {
                        assert(add as int == p * unit_seconds(c));
                    }
                }
            }
            i = i + 1;
        }
        proof {
            assert(body.subrange(0, n - 2) =~= body);
        }
        if total < DURATION_CAP {
            total as i32
        } else {
            0
        }
    }
}

impl Snippet {
    /// Whether the title holds at least one Hangul syllable.
    pub fn has_korean(&self) -> (r: bool)
        ensures
            r == has_hangul(self.title@),
    {
        let s = self.title.as_str();
        assert(s@ == self.title@);
        let n = s.unicode_len();
        let mut i: usize = 0;
        while i < n
            invariant
                s@ == self.title@,
                n == s@.len(),
                i <= n,
                forall|j: int| 0 <= j < i ==> !is_hangul_syllable(#[trigger] s@[j]),
            decreases n - i,
        {
            let c = s.get_char(i);
            let code = c as u32;
            if 0xAC00 <= code && code <= 0xD7A3 {
                assert(is_hangul_syllable(self.title@[i as int]));
                return true;
            }
            i = i + 1;
        }
        false
    }
}

} // verus!
