//! In-memory model of the persisted video records. Every record is keyed by
//! the external video id; writes are upserts, so repeating a run leaves one
//! record per id.

use vstd::prelude::*;
use crate::video_model::{KeywordTrend, YoutubeKeyword, YoutubeRawVideo, YoutubeVideo};

verus! {

/// Position of the last raw record for `id`, or -1.
pub open spec fn raw_index(s: Seq<YoutubeRawVideo>, id: Seq<char>) -> int
    decreases s.len(),
{
    if s.len() == 0 {
        -1
    } else if s.last().video_id@ == id {
        s.len() - 1
    } else {
        raw_index(s.drop_last(), id)
    }
}

/// Position of the last video record for `id`, or -1.
pub open spec fn video_index(s: Seq<YoutubeVideo>, id: Seq<char>) -> int
    decreases s.len(),
{
    if s.len() == 0 {
        -1
    } else if s.last().video_id@ == id {
        s.len() - 1
    } else {
        video_index(s.drop_last(), id)
    }
}

pub proof fn lemma_raw_index(s: Seq<YoutubeRawVideo>, id: Seq<char>)
    ensures
        -1 <= raw_index(s, id) < s.len(),
        raw_index(s, id) >= 0 ==> s[raw_index(s, id)].video_id@ == id,
        raw_index(s, id) == -1 ==> forall|i: int| 0 <= i < s.len() ==> (#[trigger] s[i]).video_id@ != id,
    decreases s.len(),
{
    if s.len() > 0 {
        lemma_raw_index(s.drop_last(), id);
        if raw_index(s, id) == -1 {
            assert forall|i: int| 0 <= i < s.len() implies (#[trigger] s[i]).video_id@ != id by {
                if i < s.len() - 1 {
                    assert(s[i] == s.drop_last()[i]);
                }
            }
        }
    }
}

pub proof fn lemma_video_index(s: Seq<YoutubeVideo>, id: Seq<char>)
    ensures
        -1 <= video_index(s, id) < s.len(),
        video_index(s, id) >= 0 ==> s[video_index(s, id)].video_id@ == id,
        video_index(s, id) == -1 ==> forall|i: int| 0 <= i < s.len() ==> (#[trigger] s[i]).video_id@ != id,
    decreases s.len(),
{
    if s.len() > 0 {
        lemma_video_index(s.drop_last(), id);
        if video_index(s, id) == -1 {
            assert forall|i: int| 0 <= i < s.len() implies (#[trigger] s[i]).video_id@ != id by {
                if i < s.len() - 1 {
                    assert(s[i] == s.drop_last()[i]);
                }
            }
        }
    }
}

/// No two raw records share an external id.
pub open spec fn raw_keys_unique(s: Seq<YoutubeRawVideo>) -> bool {
    forall|i: int, j: int|
        0 <= i < s.len() && 0 <= j < s.len() && i != j ==> (#[trigger] s[i]).video_id@ != (
        #[trigger] s[j]).video_id@
}

/// No two video records share an external id, and each record's row id is
/// its position plus one.
pub open spec fn videos_well_formed(s: Seq<YoutubeVideo>) -> bool {
    &&& forall|i: int, j: int|
        0 <= i < s.len() && 0 <= j < s.len() && i != j ==> (#[trigger] s[i]).video_id@ != (
        #[trigger] s[j]).video_id@
    &&& forall|i: int| 0 <= i < s.len() ==> (#[trigger] s[i]).id == i + 1
}

/// The raw records after upserting `r` at `now`: an existing record keeps its
/// row id and creation time and takes the new blob; a new one is appended.
pub open spec fn raw_upserted(s: Seq<YoutubeRawVideo>, r: YoutubeRawVideo, now: i64) -> Seq<
    YoutubeRawVideo,
> {
    let i = raw_index(s, r.video_id@);
    if i >= 0 {
        s.update(
            i,
            YoutubeRawVideo {
                id: s[i].id,
                video_id: s[i].video_id,
                raw_metadata: r.raw_metadata,
                created_at: s[i].created_at,
                updated_at: now,
            },
        )
    } else {
        s.push(
            YoutubeRawVideo {
                id: (s.len() + 1) as i64,
                video_id: r.video_id,
                raw_metadata: r.raw_metadata,
                created_at: now,
                updated_at: now,
            },
        )
    }
}

/// The raw records after upserting each of `rs` in order.
pub open spec fn raw_upserted_all(s: Seq<YoutubeRawVideo>, rs: Seq<YoutubeRawVideo>, now: i64) -> Seq<
    YoutubeRawVideo,
>
    decreases rs.len(),
{
    if rs.len() == 0 {
        s
    } else {
        raw_upserted(raw_upserted_all(s, rs.drop_last(), now), rs.last(), now)
    }
}

/// The video records after upserting `v` at `now`: an existing record keeps
/// its identity fields and creation time and takes the new title,
/// description, tags and counts; a new record is appended.
pub open spec fn video_upserted(s: Seq<YoutubeVideo>, v: YoutubeVideo, now: i64) -> Seq<YoutubeVideo> {
    let i = video_index(s, v.video_id@);
    if i >= 0 {
        s.update(
            i,
            YoutubeVideo {
                title: v.title,
                description: v.description,
                tags: v.tags,
                view_count: v.view_count,
                like_count: v.like_count,
                comment_count: v.comment_count,
                updated_at: now,
                ..s[i]
            },
        )
    } else {
        s.push(YoutubeVideo { id: (s.len() + 1) as i64, created_at: now, updated_at: now, ..v })
    }
}

/// Position of the last keyword with text `t`, or -1.
pub open spec fn keyword_index(ks: Seq<YoutubeKeyword>, t: Seq<char>) -> int
    decreases ks.len(),
{
    if ks.len() == 0 {
        -1
    } else if ks.last().keyword_text@ == t {
        ks.len() - 1
    } else {
        keyword_index(ks.drop_last(), t)
    }
}

/// The keywords after making sure that `t` is one of them: an absent text
/// is appended under the next id.
pub open spec fn keyword_ensured(ks: Seq<YoutubeKeyword>, t: String) -> Seq<YoutubeKeyword> {
    if keyword_index(ks, t@) >= 0 {
        ks
    } else {
        ks.push(YoutubeKeyword { id: (ks.len() + 1) as i64, keyword_text: t })
    }
}

/// The associations that do not belong to video row `vid`, in order.
pub open spec fn links_without(l: Seq<(i64, i64)>, vid: i64) -> Seq<(i64, i64)>
    decreases l.len(),
{
    if l.len() == 0 {
        l
    } else {
        let p = links_without(l.drop_last(), vid);
        if l.last().0 == vid {
            p
        } else {
            p.push(l.last())
        }
    }
}

/// The associations with `x` added unless already present.
pub open spec fn link_added(l: Seq<(i64, i64)>, x: (i64, i64)) -> Seq<(i64, i64)> {
    if l.contains(x) {
        l
    } else {
        l.push(x)
    }
}

/// Keywords and associations after linking video row `vid` to each text of
/// `texts` in order, creating the keywords that are missing.
pub open spec fn relinked(
    ks: Seq<YoutubeKeyword>,
    l: Seq<(i64, i64)>,
    vid: i64,
    texts: Seq<String>,
) -> (Seq<YoutubeKeyword>, Seq<(i64, i64)>)
    decreases texts.len(),
{
    if texts.len() == 0 {
        (ks, l)
    } else {
        let prev = relinked(ks, l, vid, texts.drop_last());
        let k2 = keyword_ensured(prev.0, texts.last());
        let kid = k2[keyword_index(k2, texts.last()@)].id;
        (k2, link_added(prev.1, (vid, kid)))
    }
}

pub proof fn lemma_relinked_len(ks: Seq<YoutubeKeyword>, l: Seq<(i64, i64)>, vid: i64, texts: Seq<String>)
    ensures
        relinked(ks, l, vid, texts).0.len() <= ks.len() + texts.len(),
    decreases texts.len(),
{
    if texts.len() > 0 {
        lemma_relinked_len(ks, l, vid, texts.drop_last());
    }
}

/// Summed view count of the videos linked to keyword `kid` through `l`,
/// counting only videos last updated in `[since, until)`; `None` when no
/// such video is linked.
pub open spec fn window_views(
    videos: Seq<YoutubeVideo>,
    l: Seq<(i64, i64)>,
    kid: i64,
    since: i64,
    until: i64,
) -> Option<i64>
    decreases l.len(),
{
    if l.len() == 0 {
        None
    } else {
        let prev = window_views(videos, l.drop_last(), kid, since, until);
        let x = l.last();
        if x.1 == kid && 1 <= x.0 <= videos.len() && since <= videos[x.0 - 1].updated_at < until {
            let v = videos[x.0 - 1].view_count;
            Some(
                match prev {
                    Some(p) => crate::channel::saturating_sum(p, v),
                    None => v,
                },
            )
        } else {
            prev
        }
    }
}

/// Per-keyword trends over `[since, until)`: one per keyword, in keyword
/// order, for the keywords linked to at least one video of the window.
pub open spec fn trends_in_window(
    videos: Seq<YoutubeVideo>,
    ks: Seq<YoutubeKeyword>,
    l: Seq<(i64, i64)>,
    since: i64,
    until: i64,
) -> Seq<KeywordTrend>
    decreases ks.len(),
{
    if ks.len() == 0 {
        Seq::empty()
    } else {
        let prev = trends_in_window(videos, ks.drop_last(), l, since, until);
        let k = ks.last();
        match window_views(videos, l, k.id, since, until) {
            Some(t) => prev.push(
                KeywordTrend { id: k.id, keyword_text: k.keyword_text, total_views: Some(t) },
            ),
            None => prev,
        }
    }
}

/// Video records, keywords and (video row id, keyword id) associations.
pub type LinkedView = (Seq<YoutubeVideo>, Seq<YoutubeKeyword>, Seq<(i64, i64)>);

/// Whether row ids remain for one more video and for `texts` new keywords.
pub open spec fn has_room(st: LinkedView, texts: Seq<String>) -> bool {
    st.0.len() < i64::MAX && st.1.len() + texts.len() < i64::MAX
}

/// The linked records after storing video `v` with keywords `texts` at
/// `now`, or unchanged when no row ids remain.
pub open spec fn linked_after_video(st: LinkedView, v: YoutubeVideo, texts: Seq<String>, now: i64) -> LinkedView {
    if has_room(st, texts) {
        let vs = video_upserted(st.0, v, now);
        let vid = (video_index(vs, v.video_id@) + 1) as i64;
        let kl = relinked(st.1, links_without(st.2, vid), vid, texts);
        (vs, kl.0, kl.1)
    } else {
        st
    }
}

/// Why a write to the store failed.
#[derive(Debug)]
pub enum StoreError {
    /// No row id is left for a new record.
    CapacityExceeded,
}

/// The persisted video records.
#[derive(Debug)]
pub struct VideoStore {
    pub raw_videos: Vec<YoutubeRawVideo>,
    pub videos: Vec<YoutubeVideo>,
    pub keywords: Vec<YoutubeKeyword>,
    /// (video row id, keyword id) associations.
    pub links: Vec<(i64, i64)>,
}

impl VideoStore {
    pub open spec fn well_formed(&self) -> bool {
        raw_keys_unique(self.raw_videos@) && videos_well_formed(self.videos@)
    }

    pub fn new() -> (r: VideoStore)
        ensures
            r.well_formed(),
            r.raw_videos@.len() == 0,
            r.videos@.len() == 0,
            r.keywords@.len() == 0,
            r.links@.len() == 0,
    {
        VideoStore { raw_videos: Vec::new(), videos: Vec::new(), keywords: Vec::new(), links: Vec::new() }
    }

    fn find_raw(&self, id: &String) -> (r: usize)
        ensures
            r as int == raw_index(self.raw_videos@, id@) || (r == self.raw_videos@.len() && raw_index(
                self.raw_videos@,
                id@,
            ) == -1),
    {
        let mut i: usize = self.raw_videos.len();
        let ghost s = self.raw_videos@;
        assert(s.subrange(0, i as int) =~= s);
        while i > 0
            invariant
                s == self.raw_videos@,
                i <= s.len(),
                raw_index(s, id@) == raw_index(s.subrange(0, i as int), id@),
            decreases i,
        {
            let ghost pre = s.subrange(0, i as int);
            assert(pre.drop_last() =~= s.subrange(0, i - 1));
            if self.raw_videos[i - 1].video_id == *id {
                return i - 1;
            }
            i = i - 1;
        }
        self.raw_videos.len()
    }

    fn find_video(&self, id: &String) -> (r: usize)
        ensures
            r as int == video_index(self.videos@, id@) || (r == self.videos@.len() && video_index(
                self.videos@,
                id@,
            ) == -1),
    {
        let mut i: usize = self.videos.len();
        let ghost s = self.videos@;
        assert(s.subrange(0, i as int) =~= s);
        while i > 0
            invariant
                s == self.videos@,
                i <= s.len(),
                video_index(s, id@) == video_index(s.subrange(0, i as int), id@),
            decreases i,
        {
            let ghost pre = s.subrange(0, i as int);
            assert(pre.drop_last() =~= s.subrange(0, i - 1));
            if self.videos[i - 1].video_id == *id {
                return i - 1;
            }
            i = i - 1;
        }
        self.videos.len()
    }

    /// Upserts one raw record at `now`.
    pub fn save_raw(&mut self, r: YoutubeRawVideo, now: i64)
        requires
            old(self).well_formed(),
            old(self).raw_videos@.len() < i64::MAX,
        ensures
            final(self).well_formed(),
            final(self).raw_videos@ == raw_upserted(old(self).raw_videos@, r, now),
            final(self).raw_videos@.len() <= old(self).raw_videos@.len() + 1,
            final(self).videos@ == old(self).videos@,
            final(self).keywords@ == old(self).keywords@,
            final(self).links@ == old(self).links@,
    {
        let ghost s = self.raw_videos@;
        proof {
            lemma_raw_index(s, r.video_id@);
        }
        let i = self.find_raw(&r.video_id);
        if i < self.raw_videos.len() {
            let prev = self.raw_videos.remove(i);
            let rec = YoutubeRawVideo {
                id: prev.id,
                video_id: prev.video_id,
                raw_metadata: r.raw_metadata,
                created_at: prev.created_at,
                updated_at: now,
            };
            self.raw_videos.insert(i, rec);
            proof {
                assert(self.raw_videos@ =~= raw_upserted(s, r, now));
                assert forall|a: int, b: int|
                    0 <= a < s.len() && 0 <= b < s.len() && a != b implies (#[trigger] self.raw_videos@[a]).video_id@
                    != (#[trigger] self.raw_videos@[b]).video_id@ by {
                    assert(s[a].video_id@ != s[b].video_id@);
                }
            }
        } else {
            let n = self.raw_videos.len();
            let rec = YoutubeRawVideo {
                id: n as i64 + 1,
                video_id: r.video_id,
                raw_metadata: r.raw_metadata,
                created_at: now,
                updated_at: now,
            };
            self.raw_videos.push(rec);
            proof {
                assert(self.raw_videos@ =~= raw_upserted(s, r, now));
                assert forall|a: int, b: int|
                    0 <= a < self.raw_videos@.len() && 0 <= b < self.raw_videos@.len() && a != b implies (
                    #[trigger] self.raw_videos@[a]).video_id@ != (#[trigger] self.raw_videos@[b]).video_id@ by {
                    if a < s.len() && b < s.len() {
                        assert(s[a].video_id@ != s[b].video_id@);
                    }
                }
            }
        }
    }

    /// Upserts each raw record of `rs` at `now`, in order.
    pub fn save_raw_many(&mut self, rs: Vec<YoutubeRawVideo>, now: i64)
        requires
            old(self).well_formed(),
            old(self).raw_videos@.len() + rs@.len() < i64::MAX,
        ensures
            final(self).well_formed(),
            final(self).raw_videos@ == raw_upserted_all(old(self).raw_videos@, rs@, now),
            final(self).videos@ == old(self).videos@,
            final(self).keywords@ == old(self).keywords@,
            final(self).links@ == old(self).links@,
    {
        let ghost s0 = self.raw_videos@;
        let ghost v0 = self.videos@;
        let ghost all = rs@;
        let mut rest = rs;
        let ghost mut done: int = 0;
        while rest.len() > 0
            invariant
                0 <= done <= all.len(),
                rest@ == all.subrange(done, all.len() as int),
                self.well_formed(),
                self.videos@ == v0,
                self.keywords@ == old(self).keywords@,
                self.links@ == old(self).links@,
                self.raw_videos@ == raw_upserted_all(s0, all.subrange(0, done), now),
                self.raw_videos@.len() <= s0.len() + done,
                s0.len() + all.len() < i64::MAX,
            decreases rest.len(),
        {
            let r = rest.remove(0);
            proof {
                let next = all.subrange(0, done + 1);
                assert(next.drop_last() =~= all.subrange(0, done));
                assert(next.last() == r);
            }
            self.save_raw(r, now);
            proof {
                done = done + 1;
                assert(rest@ =~= all.subrange(done, all.len() as int));
            }
        }
        assert(all.subrange(0, done) =~= all);
    }

    /// Upserts one video record at `now`; returns its row id.
    pub fn save_video(&mut self, v: YoutubeVideo, now: i64) -> (id: i64)
        requires
            old(self).well_formed(),
            old(self).videos@.len() < i64::MAX,
        ensures
            final(self).well_formed(),
            final(self).videos@ == video_upserted(old(self).videos@, v, now),
            final(self).raw_videos@ == old(self).raw_videos@,
            final(self).keywords@ == old(self).keywords@,
            final(self).links@ == old(self).links@,
            1 <= id <= final(self).videos@.len(),
            final(self).videos@[id - 1].video_id@ == v.video_id@,
    {
        let ghost s = self.videos@;
        proof {
            lemma_video_index(s, v.video_id@);
        }
        let i = self.find_video(&v.video_id);
        if i < self.videos.len() {
            let prev = self.videos.remove(i);
            let rec = YoutubeVideo {
                id: prev.id,
                video_id: prev.video_id,
                published_at: prev.published_at,
                channel_id: prev.channel_id,
                title: v.title,
                description: v.description,
                channel_title: prev.channel_title,
                tags: v.tags,
                duration: prev.duration,
                view_count: v.view_count,
                like_count: v.like_count,
                comment_count: v.comment_count,
                embed_html: prev.embed_html,
                topic_categories: prev.topic_categories,
                created_at: prev.created_at,
                updated_at: now,
            };
            let id = rec.id;
            self.videos.insert(i, rec);
            proof {
                assert(self.videos@ =~= video_upserted(s, v, now));
                assert forall|a: int, b: int|
                    0 <= a < s.len() && 0 <= b < s.len() && a != b implies (#[trigger] self.videos@[a]).video_id@
                    != (#[trigger] self.videos@[b]).video_id@ by {
                    assert(s[a].video_id@ != s[b].video_id@);
                }
                assert forall|a: int| 0 <= a < s.len() implies (#[trigger] self.videos@[a]).id == a + 1 by {
                    assert(s[a].id == a + 1);
                }
            }
            id
        } else {
            let n = self.videos.len();
            let id = n as i64 + 1;
            let rec = YoutubeVideo { id, created_at: now, updated_at: now, ..v };
            self.videos.push(rec);
            proof {
                assert(self.videos@ =~= video_upserted(s, v, now));
                assert forall|a: int, b: int|
                    0 <= a < self.videos@.len() && 0 <= b < self.videos@.len() && a != b implies (
                    #[trigger] self.videos@[a]).video_id@ != (#[trigger] self.videos@[b]).video_id@ by {
                    if a < s.len() && b < s.len() {
                        assert(s[a].video_id@ != s[b].video_id@);
                    }
                }
                assert forall|a: int| 0 <= a < self.videos@.len() implies (#[trigger] self.videos@[a]).id == a
                    + 1 by {
                    if a < s.len() {
                        assert(s[a].id == a + 1);
                    }
                }
            }
            id
        }
    }

    fn ensure_keyword(&mut self, t: String) -> (kid: i64)
        requires
            old(self).keywords@.len() < i64::MAX,
        ensures
            final(self).keywords@ == keyword_ensured(old(self).keywords@, t),
            kid == final(self).keywords@[keyword_index(final(self).keywords@, t@)].id,
            keyword_index(final(self).keywords@, t@) >= 0,
            final(self).raw_videos@ == old(self).raw_videos@,
            final(self).videos@ == old(self).videos@,
            final(self).links@ == old(self).links@,
    {
        let ghost ks = self.keywords@;
        let mut i: usize = self.keywords.len();
        assert(ks.subrange(0, i as int) =~= ks);
        while i > 0
            invariant
                self.keywords@ == ks,
                ks == old(self).keywords@,
                self.raw_videos@ == old(self).raw_videos@,
                self.videos@ == old(self).videos@,
                self.links@ == old(self).links@,
                i <= ks.len(),
                keyword_index(ks, t@) == keyword_index(ks.subrange(0, i as int), t@),
            decreases i,
        {
            let ghost pre = ks.subrange(0, i as int);
            assert(pre.drop_last() =~= ks.subrange(0, i - 1));
            if self.keywords[i - 1].keyword_text == t {
                assert(pre.last() == ks[i - 1]);
                return self.keywords[i - 1].id;
            }
            i = i - 1;
        }
        let n = self.keywords.len();
        let id = n as i64 + 1;
        self.keywords.push(YoutubeKeyword { id, keyword_text: t });
        proof {
            let k2 = self.keywords@;
            assert(k2.drop_last() =~= ks);
            assert(keyword_index(k2, t@) == n);
        }
        id
    }

    fn link(&mut self, x: (i64, i64))
        ensures
            final(self).links@ == link_added(old(self).links@, x),
            final(self).raw_videos@ == old(self).raw_videos@,
            final(self).videos@ == old(self).videos@,
            final(self).keywords@ == old(self).keywords@,
    {
        let mut i: usize = 0;
        while i < self.links.len()
            invariant
                self.links@ == old(self).links@,
                self.raw_videos@ == old(self).raw_videos@,
                self.videos@ == old(self).videos@,
                self.keywords@ == old(self).keywords@,
                i <= self.links@.len(),
                forall|j: int| 0 <= j < i ==> self.links@[j] != x,
            decreases self.links@.len() - i,
        {
            if self.links[i].0 == x.0 && self.links[i].1 == x.1 {
                assert(self.links@.contains(x)) by {
                    assert(self.links@[i as int] == x);
                }
                return;
            }
            i = i + 1;
        }
        self.links.push(x);
    }

    fn unlink_video(&mut self, vid: i64)
        ensures
            final(self).links@ == links_without(old(self).links@, vid),
            final(self).raw_videos@ == old(self).raw_videos@,
            final(self).videos@ == old(self).videos@,
            final(self).keywords@ == old(self).keywords@,
    {
        let ghost l0 = self.links@;
        let mut kept: Vec<(i64, i64)> = Vec::new();
        let mut i: usize = 0;
        while i < self.links.len()
            invariant
                self.links@ == l0,
                l0 == old(self).links@,
                self.raw_videos@ == old(self).raw_videos@,
                self.videos@ == old(self).videos@,
                self.keywords@ == old(self).keywords@,
                i <= l0.len(),
                kept@ == links_without(l0.subrange(0, i as int), vid),
            decreases l0.len() - i,
        {
            let ghost next = l0.subrange(0, i + 1);
            assert(next.drop_last() =~= l0.subrange(0, i as int));
            let x = self.links[i];
            if x.0 != vid {
                kept.push(x);
            }
            i = i + 1;
        }
        assert(l0.subrange(0, i as int) =~= l0);
        self.links = kept;
    }

    /// The video records, keywords and associations.
    pub open spec fn linked_view(&self) -> LinkedView {
        (self.videos@, self.keywords@, self.links@)
    }

    /// Stores one video with its keywords at `now`: the video is upserted,
    /// its previous keyword associations are dropped, each keyword is created
    /// if missing, and the video is linked to each of them. Fails, changing
    /// nothing, when the store has no row id left for the video or the new
    /// keywords.
    pub fn save_video_and_keywords(&mut self, video: YoutubeVideo, keywords: Vec<String>, now: i64) -> (r:
        Result<(), StoreError>)
        requires
            old(self).well_formed(),
        ensures
            final(self).well_formed(),
            final(self).raw_videos@ == old(self).raw_videos@,
            r is Ok <==> has_room(old(self).linked_view(), keywords@),
            final(self).linked_view() == linked_after_video(old(self).linked_view(), video, keywords@, now),
    {
        if self.videos.len() as u64 >= i64::MAX as u64 || self.keywords.len() as u64 >= i64::MAX as u64
            || keywords.len() as u64 >= i64::MAX as u64 - self.keywords.len() as u64 {
            return Err(StoreError::CapacityExceeded);
        }
        self.store_video_and_keywords(video, keywords, now);
        Ok(())
    }

    fn store_video_and_keywords(&mut self, video: YoutubeVideo, keywords: Vec<String>, now: i64)
        requires
            old(self).well_formed(),
            old(self).videos@.len() < i64::MAX,
            old(self).keywords@.len() + keywords@.len() < i64::MAX,
        ensures
            final(self).well_formed(),
            final(self).raw_videos@ == old(self).raw_videos@,
            final(self).videos@ == video_upserted(old(self).videos@, video, now),
            ({
                let vid = video_index(final(self).videos@, video.video_id@) + 1;
                (final(self).keywords@, final(self).links@) == relinked(
                    old(self).keywords@,
                    links_without(old(self).links@, vid as i64),
                    vid as i64,
                    keywords@,
                )
            }),
    {
        let vid = self.save_video(video, now);
        proof {
            let vs = self.videos@;
            lemma_video_index(vs, vs[vid - 1].video_id@);
            let j = video_index(vs, vs[vid - 1].video_id@);
            if j != vid - 1 {
                assert(vs[j].video_id@ != vs[vid - 1].video_id@);
            }
        }
        self.unlink_video(vid);
        let ghost k0 = self.keywords@;
        let ghost l0 = self.links@;
        let ghost all = keywords@;
        let mut rest = keywords;
        let ghost mut done: int = 0;
        while rest.len() > 0
            invariant
                0 <= done <= all.len(),
                rest@ == all.subrange(done, all.len() as int),
                k0.len() + all.len() < i64::MAX,
                self.keywords@.len() <= k0.len() + done,
                self.well_formed(),
                (self.keywords@, self.links@) == relinked(k0, l0, vid, all.subrange(0, done)),
                self.videos@ == video_upserted(old(self).videos@, video, now),
                self.raw_videos@ == old(self).raw_videos@,
            decreases rest.len(),
        {
            let t = rest.remove(0);
            proof {
                let next = all.subrange(0, done + 1);
                assert(next.drop_last() =~= all.subrange(0, done));
                assert(next.last() == t);
            }
            let kid = self.ensure_keyword(t);
            self.link((vid, kid));
            proof {
                done = done + 1;
                assert(rest@ =~= all.subrange(done, all.len() as int));
            }
        }
        assert(all.subrange(0, done) =~= all);
    }

    /// Sums, per keyword, the view counts of its videos last updated in
    /// `[since, until)`.
    pub fn keyword_trends(&self, since: i64, until: i64) -> (r: Vec<KeywordTrend>)
        ensures
            r@ == trends_in_window(self.videos@, self.keywords@, self.links@, since, until),
    {
        let ghost vs = self.videos@;
        let ghost ks = self.keywords@;
        let ghost ls = self.links@;
        let mut out: Vec<KeywordTrend> = Vec::new();
        let mut k: usize = 0;
        while k < self.keywords.len()
            invariant
                vs == self.videos@,
                ks == self.keywords@,
                ls == self.links@,
                k <= ks.len(),
                out@ == trends_in_window(vs, ks.subrange(0, k as int), ls, since, until),
            decreases ks.len() - k,
        {
            let kid = self.keywords[k].id;
            let mut total: Option<i64> = None;
            let mut j: usize = 0;
            while j < self.links.len()
                invariant
                    vs == self.videos@,
                    ks == self.keywords@,
                    ls == self.links@,
                    j <= ls.len(),
                    total == window_views(vs, ls.subrange(0, j as int), kid, since, until),
                decreases ls.len() - j,
            {
                let ghost next = ls.subrange(0, j + 1);
                assert(next.drop_last() =~= ls.subrange(0, j as int));
                let x = self.links[j];
                if x.1 == kid && 1 <= x.0 && x.0 as u64 <= self.videos.len() as u64 {
                    let v = &self.videos[(x.0 - 1) as usize];
                    if since <= v.updated_at && v.updated_at < until {
                        total = Some(
                            match total {
                                Some(p) => crate::channel::add_saturating(p, v.view_count),
                                None => v.view_count,
                            },
                        );
                    }
                }
                j = j + 1;
            }
            assert(ls.subrange(0, j as int) =~= ls);
            let ghost nextk = ks.subrange(0, k + 1);
            assert(nextk.drop_last() =~= ks.subrange(0, k as int));
            match total {
                Some(t) => {
                    out.push(
                        KeywordTrend {
                            id: kid,
                            keyword_text: self.keywords[k].keyword_text.clone(),
                            total_views: Some(t),
                        },
                    );
                },
                None => {},
            }
            k = k + 1;
        }
        assert(ks.subrange(0, k as int) =~= ks);
        out
    }
}

/// Upserting a raw record keeps the external ids unique and leaves exactly
/// one record with the upserted id.
pub proof fn lemma_raw_upsert_unique(s: Seq<YoutubeRawVideo>, r: YoutubeRawVideo, now: i64)
    requires
        raw_keys_unique(s),
    ensures
        raw_keys_unique(raw_upserted(s, r, now)),
        raw_index(raw_upserted(s, r, now), r.video_id@) >= 0,
{
    lemma_raw_index(s, r.video_id@);
    let t = raw_upserted(s, r, now);
    let i = raw_index(s, r.video_id@);
    assert forall|a: int, b: int|
        0 <= a < t.len() && 0 <= b < t.len() && a != b implies (#[trigger] t[a]).video_id@ != (
        #[trigger] t[b]).video_id@ by {
        if a < s.len() && b < s.len() {
            assert(s[a].video_id@ != s[b].video_id@);
        }
    }
    lemma_raw_index(t, r.video_id@);
    if i < 0 {
        assert(t[t.len() - 1].video_id@ == r.video_id@);
    } else {
        assert(t[i].video_id@ == r.video_id@);
    }
}

/// Writing the same external id twice, as a repeated run does, keeps one
/// raw record for it: the second write adds no record, its blob and time
/// take effect, and the creation time is that of the first write (or of the
/// record that was already there).
pub proof fn lemma_raw_upsert_twice(
    s: Seq<YoutubeRawVideo>,
    r1: YoutubeRawVideo,
    r2: YoutubeRawVideo,
    t1: i64,
    t2: i64,
)
    requires
        raw_keys_unique(s),
        r1.video_id@ == r2.video_id@,
    ensures
        ({
            let once = raw_upserted(s, r1, t1);
            let twice = raw_upserted(once, r2, t2);
            let k = raw_index(twice, r2.video_id@);
            &&& raw_keys_unique(twice)
            &&& twice.len() == once.len()
            &&& 0 <= k < twice.len()
            &&& forall|j: int| 0 <= j < twice.len() && j != k ==> (#[trigger] twice[j]).video_id@ != r2.video_id@
            &&& twice[k].raw_metadata == r2.raw_metadata
            &&& twice[k].updated_at == t2
            &&& twice[k].created_at == if raw_index(s, r1.video_id@) >= 0 {
                s[raw_index(s, r1.video_id@)].created_at
            } else {
                t1
            }
        }),
{
    let once = raw_upserted(s, r1, t1);
    lemma_raw_upsert_unique(s, r1, t1);
    lemma_raw_upsert_unique(once, r2, t2);
    lemma_raw_index(s, r1.video_id@);
    lemma_raw_index(once, r2.video_id@);
    let twice = raw_upserted(once, r2, t2);
    lemma_raw_index(twice, r2.video_id@);
    let i0 = raw_index(s, r1.video_id@);
    let i1 = raw_index(once, r2.video_id@);
    let k = raw_index(twice, r2.video_id@);
    assert(twice[i1].video_id@ == r2.video_id@);
    assert(k == i1);
    if i0 >= 0 {
        assert(once[i0].video_id@ == r1.video_id@);
        assert(i1 == i0);
    } else {
        assert(once[once.len() - 1].video_id@ == r1.video_id@);
        assert(i1 == once.len() - 1);
    }
}

/// Upserting a video record keeps the store's video records well formed and
/// leaves exactly one record with the upserted id.
pub proof fn lemma_video_upsert_unique(s: Seq<YoutubeVideo>, v: YoutubeVideo, now: i64)
    requires
        videos_well_formed(s),
        s.len() < i64::MAX,
    ensures
        videos_well_formed(video_upserted(s, v, now)),
        video_index(video_upserted(s, v, now), v.video_id@) >= 0,
        video_upserted(s, v, now).len() <= s.len() + 1,
{
    lemma_video_index(s, v.video_id@);
    let t = video_upserted(s, v, now);
    let i = video_index(s, v.video_id@);
    assert forall|a: int, b: int|
        0 <= a < t.len() && 0 <= b < t.len() && a != b implies (#[trigger] t[a]).video_id@ != (
        #[trigger] t[b]).video_id@ by {
        if a < s.len() && b < s.len() {
            assert(s[a].video_id@ != s[b].video_id@);
        }
    }
    assert forall|a: int| 0 <= a < t.len() implies (#[trigger] t[a]).id == a + 1 by {
        if a < s.len() {
            assert(s[a].id == a + 1);
        }
    }
    lemma_video_index(t, v.video_id@);
    if i < 0 {
        assert(t[t.len() - 1].video_id@ == v.video_id@);
    } else {
        assert(t[i].video_id@ == v.video_id@);
    }
}

/// Writing the same video twice, as a repeated run does, keeps one record for
/// its external id: the second write adds no record, its title, description,
/// tags and counts take effect, and the identity fields and creation time
/// stay those of the first write (or of the record that was already there).
pub proof fn lemma_video_upsert_twice(
    s: Seq<YoutubeVideo>,
    v1: YoutubeVideo,
    v2: YoutubeVideo,
    t1: i64,
    t2: i64,
)
    requires
        videos_well_formed(s),
        s.len() + 1 < i64::MAX,
        v1.video_id@ == v2.video_id@,
    ensures
        ({
            let once = video_upserted(s, v1, t1);
            let twice = video_upserted(once, v2, t2);
            let k = video_index(twice, v2.video_id@);
            &&& videos_well_formed(twice)
            &&& twice.len() == once.len()
            &&& 0 <= k < twice.len()
            &&& forall|j: int| 0 <= j < twice.len() && j != k ==> (#[trigger] twice[j]).video_id@ != v2.video_id@
            &&& twice[k].title == v2.title
            &&& twice[k].description == v2.description
            &&& twice[k].tags == v2.tags
            &&& twice[k].view_count == v2.view_count
            &&& twice[k].like_count == v2.like_count
            &&& twice[k].comment_count == v2.comment_count
            &&& twice[k].updated_at == t2
            &&& twice[k].id == once[k].id
            &&& twice[k].channel_id == once[k].channel_id
            &&& twice[k].published_at == once[k].published_at
            &&& twice[k].created_at == if video_index(s, v1.video_id@) >= 0 {
                s[video_index(s, v1.video_id@)].created_at
            } else {
                t1
            }
        }),
{
    let once = video_upserted(s, v1, t1);
    lemma_video_upsert_unique(s, v1, t1);
    lemma_video_upsert_unique(once, v2, t2);
    lemma_video_index(s, v1.video_id@);
    lemma_video_index(once, v2.video_id@);
    let twice = video_upserted(once, v2, t2);
    lemma_video_index(twice, v2.video_id@);
    let i0 = video_index(s, v1.video_id@);
    let i1 = video_index(once, v2.video_id@);
    let k = video_index(twice, v2.video_id@);
    assert(twice[i1].video_id@ == v2.video_id@);
    assert(k == i1);
    if i0 >= 0 {
        assert(once[i0].video_id@ == v1.video_id@);
        assert(i1 == i0);
    } else {
        assert(once[once.len() - 1].video_id@ == v1.video_id@);
        assert(i1 == once.len() - 1);
    }
}

proof fn lemma_raw_present(s: Seq<YoutubeRawVideo>, j: int, id: Seq<char>)
    requires
        0 <= j < s.len(),
        s[j].video_id@ == id,
    ensures
        raw_index(s, id) >= 0,
{
    lemma_raw_index(s, id);
}

/// Every record of `u` at the same position in `w` keeps its external id,
/// row id and creation time.
pub open spec fn same_identities(u: Seq<YoutubeRawVideo>, w: Seq<YoutubeRawVideo>) -> bool {
    &&& w.len() == u.len()
    &&& forall|j: int|
        0 <= j < u.len() ==> (#[trigger] w[j]).video_id == u[j].video_id && w[j].id == u[j].id
            && w[j].created_at == u[j].created_at
}

proof fn lemma_raw_upsert_keeps_present(s: Seq<YoutubeRawVideo>, r: YoutubeRawVideo, now: i64, id: Seq<char>)
    requires
        raw_index(s, id) >= 0,
    ensures
        raw_index(raw_upserted(s, r, now), id) >= 0,
{
    lemma_raw_index(s, id);
    lemma_raw_index(s, r.video_id@);
    let j = raw_index(s, id);
    let t = raw_upserted(s, r, now);
    assert(t[j].video_id@ == id);
    lemma_raw_present(t, j, id);
}

proof fn lemma_raw_batch_present(s: Seq<YoutubeRawVideo>, rs: Seq<YoutubeRawVideo>, now: i64)
    requires
        raw_keys_unique(s),
    ensures
        raw_keys_unique(raw_upserted_all(s, rs, now)),
        forall|i: int| 0 <= i < rs.len() ==> raw_index(raw_upserted_all(s, rs, now), (#[trigger] rs[i]).video_id@) >= 0,
    decreases rs.len(),
{
    if rs.len() > 0 {
        let prev = raw_upserted_all(s, rs.drop_last(), now);
        lemma_raw_batch_present(s, rs.drop_last(), now);
        lemma_raw_upsert_unique(prev, rs.last(), now);
        assert forall|i: int| 0 <= i < rs.len() implies raw_index(
            raw_upserted_all(s, rs, now),
            (#[trigger] rs[i]).video_id@,
        ) >= 0 by {
            if i < rs.len() - 1 {
                assert(rs.drop_last()[i] == rs[i]);
                lemma_raw_upsert_keeps_present(prev, rs.last(), now, rs[i].video_id@);
            }
        }
    }
}

proof fn lemma_raw_batch_rewrite(u: Seq<YoutubeRawVideo>, rs: Seq<YoutubeRawVideo>, now: i64)
    requires
        raw_keys_unique(u),
        forall|i: int| 0 <= i < rs.len() ==> raw_index(u, (#[trigger] rs[i]).video_id@) >= 0,
    ensures
        same_identities(u, raw_upserted_all(u, rs, now)),
        raw_keys_unique(raw_upserted_all(u, rs, now)),
    decreases rs.len(),
{
    if rs.len() > 0 {
        let rs0 = rs.drop_last();
        assert forall|i: int| 0 <= i < rs0.len() implies raw_index(u, (#[trigger] rs0[i]).video_id@) >= 0 by {
            assert(rs0[i] == rs[i]);
        }
        lemma_raw_batch_rewrite(u, rs0, now);
        let prev = raw_upserted_all(u, rs0, now);
        let r = rs.last();
        assert(raw_index(u, rs[rs.len() - 1].video_id@) >= 0);
        lemma_raw_index(u, r.video_id@);
        let j = raw_index(u, r.video_id@);
        assert(prev[j].video_id == u[j].video_id);
        lemma_raw_present(prev, j, r.video_id@);
        lemma_raw_index(prev, r.video_id@);
        lemma_raw_upsert_unique(prev, r, now);
    }
}

/// Running the same batch of raw records a second time, as a repeated
/// collection does, adds no record: every id of the batch has exactly one
/// record after either run, and each record keeps its position, row id and
/// creation time from the first run.
pub proof fn lemma_raw_batch_rerun(s: Seq<YoutubeRawVideo>, rs: Seq<YoutubeRawVideo>, t1: i64, t2: i64)
    requires
        raw_keys_unique(s),
    ensures
        ({
            let once = raw_upserted_all(s, rs, t1);
            let twice = raw_upserted_all(once, rs, t2);
            &&& raw_keys_unique(once)
            &&& raw_keys_unique(twice)
            &&& same_identities(once, twice)
            &&& forall|i: int| 0 <= i < rs.len() ==> raw_index(twice, (#[trigger] rs[i]).video_id@) >= 0
        }),
{
    let once = raw_upserted_all(s, rs, t1);
    lemma_raw_batch_present(s, rs, t1);
    lemma_raw_batch_rewrite(once, rs, t2);
    lemma_raw_batch_present(once, rs, t2);
}

/// The video records after upserting each of `vs` in order.
pub open spec fn videos_upserted_all(s: Seq<YoutubeVideo>, vs: Seq<YoutubeVideo>, now: i64) -> Seq<
    YoutubeVideo,
>
    decreases vs.len(),
{
    if vs.len() == 0 {
        s
    } else {
        video_upserted(videos_upserted_all(s, vs.drop_last(), now), vs.last(), now)
    }
}

/// Every record of `u` at the same position in `w` keeps its external id,
/// row id, identity fields and creation time.
pub open spec fn same_video_identities(u: Seq<YoutubeVideo>, w: Seq<YoutubeVideo>) -> bool {
    &&& w.len() == u.len()
    &&& forall|j: int|
        0 <= j < u.len() ==> (#[trigger] w[j]).video_id == u[j].video_id && w[j].id == u[j].id
            && w[j].channel_id == u[j].channel_id && w[j].published_at == u[j].published_at
            && w[j].created_at == u[j].created_at
}

proof fn lemma_video_present(s: Seq<YoutubeVideo>, j: int, id: Seq<char>)
    requires
        0 <= j < s.len(),
        s[j].video_id@ == id,
    ensures
        video_index(s, id) >= 0,
{
    lemma_video_index(s, id);
}

proof fn lemma_video_batch_present(s: Seq<YoutubeVideo>, vs: Seq<YoutubeVideo>, now: i64)
    requires
        videos_well_formed(s),
        s.len() + vs.len() < i64::MAX,
    ensures
        videos_well_formed(videos_upserted_all(s, vs, now)),
        videos_upserted_all(s, vs, now).len() <= s.len() + vs.len(),
        forall|i: int|
            0 <= i < vs.len() ==> video_index(videos_upserted_all(s, vs, now), (#[trigger] vs[i]).video_id@) >= 0,
    decreases vs.len(),
{
    if vs.len() > 0 {
        let prev = videos_upserted_all(s, vs.drop_last(), now);
        lemma_video_batch_present(s, vs.drop_last(), now);
        lemma_video_upsert_unique(prev, vs.last(), now);
        let next = video_upserted(prev, vs.last(), now);
        assert forall|i: int| 0 <= i < vs.len() implies video_index(next, (#[trigger] vs[i]).video_id@) >= 0 by {
            if i < vs.len() - 1 {
                assert(vs.drop_last()[i] == vs[i]);
                let id = vs[i].video_id@;
                lemma_video_index(prev, id);
                lemma_video_index(prev, vs.last().video_id@);
                let j = video_index(prev, id);
                assert(next[j].video_id@ == id);
                lemma_video_present(next, j, id);
            }
        }
    }
}

proof fn lemma_video_batch_rewrite(u: Seq<YoutubeVideo>, vs: Seq<YoutubeVideo>, now: i64)
    requires
        videos_well_formed(u),
        u.len() < i64::MAX,
        forall|i: int| 0 <= i < vs.len() ==> video_index(u, (#[trigger] vs[i]).video_id@) >= 0,
    ensures
        same_video_identities(u, videos_upserted_all(u, vs, now)),
        videos_well_formed(videos_upserted_all(u, vs, now)),
    decreases vs.len(),
{
    if vs.len() > 0 {
        let vs0 = vs.drop_last();
        assert forall|i: int| 0 <= i < vs0.len() implies video_index(u, (#[trigger] vs0[i]).video_id@) >= 0 by {
            assert(vs0[i] == vs[i]);
        }
        lemma_video_batch_rewrite(u, vs0, now);
        let prev = videos_upserted_all(u, vs0, now);
        let v = vs.last();
        assert(video_index(u, vs[vs.len() - 1].video_id@) >= 0);
        lemma_video_index(u, v.video_id@);
        let j = video_index(u, v.video_id@);
        assert(prev[j].video_id == u[j].video_id);
        lemma_video_present(prev, j, v.video_id@);
        lemma_video_index(prev, v.video_id@);
        lemma_video_upsert_unique(prev, v, now);
    }
}

/// Upserting the same batch of videos a second time, as a repeated collection
/// does, adds no record: every id of the batch has exactly one record after
/// either run, and each record keeps its position, row id, identity fields
/// and creation time from the first run.
pub proof fn lemma_video_batch_rerun(s: Seq<YoutubeVideo>, vs: Seq<YoutubeVideo>, t1: i64, t2: i64)
    requires
        videos_well_formed(s),
        s.len() + vs.len() < i64::MAX,
    ensures
        ({
            let once = videos_upserted_all(s, vs, t1);
            let twice = videos_upserted_all(once, vs, t2);
            &&& videos_well_formed(once)
            &&& videos_well_formed(twice)
            &&& same_video_identities(once, twice)
            &&& forall|i: int| 0 <= i < vs.len() ==> video_index(twice, (#[trigger] vs[i]).video_id@) >= 0
        }),
{
    let once = videos_upserted_all(s, vs, t1);
    lemma_video_batch_present(s, vs, t1);
    lemma_video_batch_rewrite(once, vs, t2);
    let twice = videos_upserted_all(once, vs, t2);
    assert forall|i: int| 0 <= i < vs.len() implies video_index(twice, (#[trigger] vs[i]).video_id@) >= 0 by {
        let id = vs[i].video_id@;
        lemma_video_index(once, id);
        let j = video_index(once, id);
        assert(twice[j].video_id == once[j].video_id);
        lemma_video_present(twice, j, id);
    }
}

} // verus!
