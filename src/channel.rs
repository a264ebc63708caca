//! On-demand channel analysis: the request's decisions, the channel-wide
//! keyword tally, and the rule that retires abandoned requests.

use vstd::prelude::*;
use vstd::string::*;
use crate::channel_model::{channel_record, YoutubeChannel, YoutubeChannelError, YoutubeChannelKeyword};
use crate::data_api_model::ChannelItem;
use crate::extraction::KeywordMap;
use crate::video_model::YoutubeVideo;

verus! {

/// A handle as looked up: `@` is put in front unless it is already there.
pub open spec fn normalized_handle(h: Seq<char>) -> Seq<char> {
    if h.len() > 0 && h[0] == '@' {
        h
    } else {
        seq!['@'] + h
    }
}

/// Normalizes a channel handle.
pub fn normalize_handle(handle: String) -> (r: String)
    ensures
        r@ == normalized_handle(handle@),
{
    let s = handle.as_str();
    if s.unicode_len() > 0 && s.get_char(0) == '@' {
        handle
    } else {
        let mut r = String::from_str("@");
        proof {
            reveal_strlit("@");
        }
        r.append(s);
        r
    }
}

/// Where an analysis request stands.
#[derive(Debug)]
pub enum AnalysisRequestState {
    /// Waiting to learn whether the handle is already recorded.
    CheckingDuplicate(String),
    /// Waiting for the channel's details.
    FetchingDetails(String),
    /// Waiting for the new channel row to be stored.
    SavingChannel { handle: String, uploads_playlist_id: String },
    /// Acknowledged; the analysis runs in the background.
    Accepted { channel_row_id: i64, uploads_playlist_id: String },
    /// Refused.
    Rejected(YoutubeChannelError),
}

/// What the outside world answered.
pub enum AnalysisRequestEvent {
    /// Whether a channel with the handle is already recorded.
    DuplicateChecked(bool),
    /// The channel's details, if the platform knows the handle.
    DetailsFetched(Option<ChannelItem>),
    /// The row id under which the new channel was stored.
    ChannelSaved(i64),
}

/// What the request asks the outside world to do next.
#[derive(Debug)]
pub enum AnalysisRequestAction {
    CheckExists(String),
    FetchDetails(String),
    SaveChannel(YoutubeChannel),
    /// Acknowledge the request and start the background analysis.
    StartAnalysis { channel_row_id: i64, uploads_playlist_id: String },
    /// Report the error to the caller.
    Reject(YoutubeChannelError),
    /// The event does not belong to this state; nothing to do.
    Ignore,
}

/// The request's transition table.
pub open spec fn request_step(s: AnalysisRequestState, e: AnalysisRequestEvent) -> (
    AnalysisRequestState,
    AnalysisRequestAction,
) {
    match (s, e) {
        (AnalysisRequestState::CheckingDuplicate(h), AnalysisRequestEvent::DuplicateChecked(exists)) => {
            if exists {
                (
                    AnalysisRequestState::Rejected(YoutubeChannelError::ChannelDuplicated(h)),
                    AnalysisRequestAction::Reject(YoutubeChannelError::ChannelDuplicated(h)),
                )
            } else {
                (AnalysisRequestState::FetchingDetails(h), AnalysisRequestAction::FetchDetails(h))
            }
        },
        (AnalysisRequestState::FetchingDetails(h), AnalysisRequestEvent::DetailsFetched(details)) => {
            match details {
                None => (
                    AnalysisRequestState::Rejected(YoutubeChannelError::ChannelNotFound(h)),
                    AnalysisRequestAction::Reject(YoutubeChannelError::ChannelNotFound(h)),
                ),
                Some(item) => (
                    AnalysisRequestState::SavingChannel {
                        handle: h,
                        uploads_playlist_id: item.content_details.related_playlists.uploads,
                    },
                    AnalysisRequestAction::SaveChannel(channel_record(item)),
                ),
            }
        },
        (
            AnalysisRequestState::SavingChannel { handle, uploads_playlist_id },
            AnalysisRequestEvent::ChannelSaved(id),
        ) => (
            AnalysisRequestState::Accepted { channel_row_id: id, uploads_playlist_id },
            AnalysisRequestAction::StartAnalysis { channel_row_id: id, uploads_playlist_id },
        ),
        (s, _) => (s, AnalysisRequestAction::Ignore),
    }
}

impl AnalysisRequestState {
    /// Opens a request for `channel_handle`: the first thing asked is whether
    /// the normalized handle is already recorded, before any external call.
    pub fn start(channel_handle: String) -> (r: (AnalysisRequestState, AnalysisRequestAction))
        ensures
            r.0 matches AnalysisRequestState::CheckingDuplicate(h) && h@ == normalized_handle(
                channel_handle@,
            ),
            r.1 matches AnalysisRequestAction::CheckExists(h) && h@ == normalized_handle(
                channel_handle@,
            ),
    {
        let h = normalize_handle(channel_handle);
        let h2 = h.clone();
        (AnalysisRequestState::CheckingDuplicate(h), AnalysisRequestAction::CheckExists(h2))
    }

    /// Moves the request on by one answer.
    pub fn step(self, e: AnalysisRequestEvent) -> (r: (AnalysisRequestState, AnalysisRequestAction))
        ensures
            r == request_step(self, e),
    {
        match (self, e) {
            (AnalysisRequestState::CheckingDuplicate(h), AnalysisRequestEvent::DuplicateChecked(exists)) => {
                if exists {
                    let h2 = h.clone();
                    (
                        AnalysisRequestState::Rejected(YoutubeChannelError::ChannelDuplicated(h)),
                        AnalysisRequestAction::Reject(YoutubeChannelError::ChannelDuplicated(h2)),
                    )
                } else {
                    let h2 = h.clone();
                    (AnalysisRequestState::FetchingDetails(h), AnalysisRequestAction::FetchDetails(h2))
                }
            },
            (AnalysisRequestState::FetchingDetails(h), AnalysisRequestEvent::DetailsFetched(details)) => {
                match details {
                    None => {
                        let h2 = h.clone();
                        (
                            AnalysisRequestState::Rejected(YoutubeChannelError::ChannelNotFound(h)),
                            AnalysisRequestAction::Reject(YoutubeChannelError::ChannelNotFound(h2)),
                        )
                    },
                    Some(item) => {
                        let uploads = item.content_details.related_playlists.uploads.clone();
                        let channel = YoutubeChannel::from_item(item);
                        (
                            AnalysisRequestState::SavingChannel { handle: h, uploads_playlist_id: uploads },
                            AnalysisRequestAction::SaveChannel(channel),
                        )
                    },
                }
            },
            (
                AnalysisRequestState::SavingChannel { handle, uploads_playlist_id },
                AnalysisRequestEvent::ChannelSaved(id),
            ) => {
                let p2 = uploads_playlist_id.clone();
                (
                    AnalysisRequestState::Accepted { channel_row_id: id, uploads_playlist_id },
                    AnalysisRequestAction::StartAnalysis { channel_row_id: id, uploads_playlist_id: p2 },
                )
            },
            (s, _) => (s, AnalysisRequestAction::Ignore),
        }
    }
}

/// A request whose handle is already recorded is refused with
/// `ChannelDuplicated` for that handle, and the channel details are asked for
/// only after the duplicate check found no record of the handle.
pub proof fn lemma_duplicate_guard(s: AnalysisRequestState, e: AnalysisRequestEvent)
    ensures
        s is CheckingDuplicate && e == AnalysisRequestEvent::DuplicateChecked(true) ==> request_step(
            s,
            e,
        ) == (
            AnalysisRequestState::Rejected(
                YoutubeChannelError::ChannelDuplicated(s->CheckingDuplicate_0),
            ),
            AnalysisRequestAction::Reject(
                YoutubeChannelError::ChannelDuplicated(s->CheckingDuplicate_0),
            ),
        ),
        request_step(s, e).1 is FetchDetails ==> s == AnalysisRequestState::CheckingDuplicate(
            request_step(s, e).1->FetchDetails_0,
        ) && e == AnalysisRequestEvent::DuplicateChecked(false),
{
}

/// `a + b` saturated to the range of an `i64`.
pub open spec fn saturating_sum(a: i64, b: i64) -> i64 {
    let t = a + b;
    if t > i64::MAX {
        i64::MAX
    } else if t < i64::MIN {
        i64::MIN
    } else {
        t as i64
    }
}

pub fn add_saturating(a: i64, b: i64) -> (r: i64)
    ensures
        r == saturating_sum(a, b),
{
    if b > 0 && a > i64::MAX - b {
        i64::MAX
    } else if b < 0 && a < i64::MIN - b {
        i64::MIN
    } else {
        a + b
    }
}

/// Position of the last entry for `k`, or -1.
pub open spec fn entry_index(e: Seq<(String, i64)>, k: Seq<char>) -> int
    decreases e.len(),
{
    if e.len() == 0 {
        -1
    } else if e.last().0@ == k {
        e.len() - 1
    } else {
        entry_index(e.drop_last(), k)
    }
}

/// The tally after `views` more views for keyword `k`.
pub open spec fn tally_add(e: Seq<(String, i64)>, k: String, views: i64) -> Seq<(String, i64)> {
    let i = entry_index(e, k@);
    if i >= 0 {
        e.update(i, (e[i].0, saturating_sum(e[i].1, views)))
    } else {
        e.push((k, views))
    }
}

/// The tally after `views` more views for each keyword of `ks`, in order.
pub open spec fn tally_keywords(e: Seq<(String, i64)>, ks: Seq<String>, views: i64) -> Seq<
    (String, i64),
>
    decreases ks.len(),
{
    if ks.len() == 0 {
        e
    } else {
        tally_add(tally_keywords(e, ks.drop_last(), views), ks.last(), views)
    }
}

/// The tally after each video of `vs`, in order, adds its view count to each
/// keyword that `map` gives it.
pub open spec fn tally_videos(e: Seq<(String, i64)>, vs: Seq<YoutubeVideo>, map: KeywordMap) -> Seq<
    (String, i64),
>
    decreases vs.len(),
{
    if vs.len() == 0 {
        e
    } else {
        let prev = tally_videos(e, vs.drop_last(), map);
        tally_keywords(prev, map.keywords_of(vs.last().video_id@), vs.last().view_count)
    }
}

/// Summed view counts per keyword over a whole channel, in the order in which
/// the keywords were first seen.
#[derive(Debug)]
pub struct ChannelKeywordTally {
    pub entries: Vec<(String, i64)>,
}

impl ChannelKeywordTally {
    pub fn new() -> (r: ChannelKeywordTally)
        ensures
            r.entries@.len() == 0,
    {
        ChannelKeywordTally { entries: Vec::new() }
    }

    /// Adds `views` to keyword `k`.
    pub fn add(&mut self, k: String, views: i64)
        ensures
            final(self).entries@ == tally_add(old(self).entries@, k, views),
    {
        let mut i: usize = self.entries.len();
        let ghost e = self.entries@;
        assert(e.subrange(0, i as int) =~= e);
        while i > 0
            invariant
                self.entries@ == e,
                e == old(self).entries@,
                i <= e.len(),
                entry_index(e, k@) == entry_index(e.subrange(0, i as int), k@),
            decreases i,
        {
            let ghost pre = e.subrange(0, i as int);
            assert(pre.drop_last() =~= e.subrange(0, i - 1));
            if self.entries[i - 1].0 == k {
                assert(pre.last() == e[i - 1]);
                assert(entry_index(e, k@) == i - 1);
                let sum = add_saturating(self.entries[i - 1].1, views);
                let name = self.entries[i - 1].0.clone();
                self.entries.set(i - 1, (name, sum));
                assert(self.entries@ =~= tally_add(e, k, views));
                return;
            }
            i = i - 1;
        }
        self.entries.push((k, views));
    }

    /// Adds `views` to each keyword of `ks`, in order.
    pub fn add_keywords(&mut self, ks: Vec<String>, views: i64)
        ensures
            final(self).entries@ == tally_keywords(old(self).entries@, ks@, views),
    {
        let ghost e0 = self.entries@;
        let ghost all = ks@;
        let mut rest = ks;
        let ghost mut done: int = 0;
        while rest.len() > 0
            invariant
                0 <= done <= all.len(),
                rest@ == all.subrange(done, all.len() as int),
                self.entries@ == tally_keywords(e0, all.subrange(0, done), views),
            decreases rest.len(),
        {
            let k = rest.remove(0);
            proof {
                let next = all.subrange(0, done + 1);
                assert(next.drop_last() =~= all.subrange(0, done));
                assert(next.last() == k);
            }
            self.add(k, views);
            proof {
                done = done + 1;
                assert(rest@ =~= all.subrange(done, all.len() as int));
            }
        }
        assert(all.subrange(0, done) =~= all);
    }

    /// Adds one extracted batch: each video's view count goes to each keyword
    /// that the map gives the video.
    pub fn add_batch(&mut self, videos: &Vec<YoutubeVideo>, map: &KeywordMap)
        ensures
            final(self).entries@ == tally_videos(old(self).entries@, videos@, *map),
    {
        let ghost e0 = self.entries@;
        let mut i: usize = 0;
        while i < videos.len()
            invariant
                i <= videos@.len(),
                self.entries@ == tally_videos(e0, videos@.subrange(0, i as int), *map),
            decreases videos@.len() - i,
        {
            let ghost next = videos@.subrange(0, i + 1);
            assert(next.drop_last() =~= videos@.subrange(0, i as int));
            let ks = map.keywords_for(&videos[i].video_id);
            self.add_keywords(ks, videos[i].view_count);
            i = i + 1;
        }
        assert(videos@.subrange(0, i as int) =~= videos@);
    }

    /// One channel keyword row per tallied keyword, in tally order.
    pub fn into_rows(self, youtube_channel_id: i64) -> (r: Vec<YoutubeChannelKeyword>)
        ensures
            r@.len() == self.entries@.len(),
            forall|i: int|
                0 <= i < r@.len() ==> (#[trigger] r@[i]).id == 0 && r@[i].youtube_channel_id
                    == youtube_channel_id && r@[i].keyword_text == self.entries@[i].0
                    && r@[i].view_count == self.entries@[i].1,
    {
        let ghost e = self.entries@;
        let mut rest = self.entries;
        let mut rows: Vec<YoutubeChannelKeyword> = Vec::new();
        while rest.len() > 0
            invariant
                rows@.len() + rest@.len() == e.len(),
                rest@ == e.subrange(rows@.len() as int, e.len() as int),
                forall|i: int|
                    0 <= i < rows@.len() ==> (#[trigger] rows@[i]).id == 0 && rows@[i].youtube_channel_id
                        == youtube_channel_id && rows@[i].keyword_text == e[i].0 && rows@[i].view_count
                        == e[i].1,
            decreases rest.len(),
        {
            let (text, views) = rest.remove(0);
            rows.push(
                YoutubeChannelKeyword { id: 0, youtube_channel_id, keyword_text: text, view_count: views },
            );
            assert(rest@ =~= e.subrange(rows@.len() as int, e.len() as int));
        }
        rows
    }
}

/// Seconds after which an unfinished channel counts as abandoned.
pub const STALE_AFTER_SECONDS: i64 = 3600;

/// An unfinished channel created more than an hour before `now`.
pub open spec fn is_stale(c: YoutubeChannel, now: i64) -> bool {
    !c.is_finished && c.created_at < now - STALE_AFTER_SECONDS
}

/// Whether the cleanup sweep deletes the channel at `now`.
pub fn channel_is_stale(c: &YoutubeChannel, now: i64) -> (r: bool)
    ensures
        r == is_stale(*c, now),
{
    !c.is_finished && now >= i64::MIN + STALE_AFTER_SECONDS && c.created_at < now - STALE_AFTER_SECONDS
}

/// The channels that survive the cleanup sweep at `now`.
pub open spec fn live_channels(cs: Seq<YoutubeChannel>, now: i64) -> Seq<YoutubeChannel> {
    cs.filter(|c: YoutubeChannel| !is_stale(c, now))
}

/// Deletes the stale channels, keeping the rest in order.
pub fn cleanup_stale_channels(channels: Vec<YoutubeChannel>, now: i64) -> (r: Vec<YoutubeChannel>)
    ensures
        r@ == live_channels(channels@, now),
{
    let ghost orig = channels@;
    let mut rest = channels;
    let mut kept: Vec<YoutubeChannel> = Vec::new();
    let ghost mut k: int = 0;
    while rest.len() > 0
        invariant
            0 <= k <= orig.len(),
            rest@ == orig.subrange(k, orig.len() as int),
            kept@ == live_channels(orig.subrange(0, k), now),
        decreases rest.len(),
    {
        let c = rest.remove(0);
        let ghost next = orig.subrange(0, k + 1);
        proof {
            assert(next.drop_last() =~= orig.subrange(0, k));
            assert(next.last() == c);
            reveal(Seq::filter);
            assert(live_channels(next, now) == if !is_stale(c, now) {
                live_channels(orig.subrange(0, k), now).push(c)
            } else {
                live_channels(orig.subrange(0, k), now)
            });
        }
        if !channel_is_stale(&c, now) {
            kept.push(c);
        }
        proof {
            k = k + 1;
            assert(rest@ =~= orig.subrange(k, orig.len() as int));
        }
    }
    proof {
        assert(orig.subrange(0, k) =~= orig);
    }
    kept
}

/// The cleanup sweep deletes exactly the stale channels: every channel it
/// keeps is finished or at most an hour old, and every such channel is kept.
pub proof fn lemma_cleanup_deletes_only_stale(cs: Seq<YoutubeChannel>, now: i64)
    ensures
        forall|i: int|
            0 <= i < live_channels(cs, now).len() ==> !is_stale(#[trigger] live_channels(cs, now)[i], now),
        forall|i: int|
            0 <= i < cs.len() && !is_stale(#[trigger] cs[i], now) ==> live_channels(cs, now).contains(cs[i]),
{
    broadcast use vstd::seq_lib::group_filter_ensures;

    let pred = |c: YoutubeChannel| !is_stale(c, now);
    assert(live_channels(cs, now) == cs.filter(pred));
    assert forall|i: int| 0 <= i < cs.len() && !is_stale(#[trigger] cs[i], now) implies live_channels(
        cs,
        now,
    ).contains(cs[i]) by {
        cs.lemma_filter_contains(pred, i);
    }
}

} // verus!
