//! In-memory model of the persisted channels and their keywords.

use vstd::prelude::*;
use crate::channel::{cleanup_stale_channels, live_channels};
use crate::channel_model::{
    channel_response, ChannelKeywordResponse, ChannelResponse, YoutubeChannel, YoutubeChannelKeyword,
};
use crate::pagination::{page_count, total_pages, Page, PaginationQuery};
use crate::ranking::{is_top_ranking, top_ranked};

verus! {

/// Whether a channel with handle `h` is recorded.
pub open spec fn has_handle(cs: Seq<YoutubeChannel>, h: Seq<char>) -> bool {
    exists|i: int| 0 <= i < cs.len() && (#[trigger] cs[i]).channel_handle@ == h
}

/// The channels after the one with row id `id` is marked finished.
pub open spec fn marked_finished(cs: Seq<YoutubeChannel>, id: i64) -> Seq<YoutubeChannel> {
    Seq::new(
        cs.len(),
        |i: int| if cs[i].id == id { YoutubeChannel { is_finished: true, ..cs[i] } } else { cs[i] },
    )
}

/// The keyword rows of channel row `id`, in stored order.
pub open spec fn rows_of_channel(ks: Seq<YoutubeChannelKeyword>, id: i64) -> Seq<YoutubeChannelKeyword> {
    ks.filter(|k: YoutubeChannelKeyword| k.youtube_channel_id == id)
}

/// View counts of keyword rows, in order.
pub open spec fn view_scores(rows: Seq<YoutubeChannelKeyword>) -> Seq<i64> {
    Seq::new(rows.len(), |i: int| rows[i].view_count)
}

/// The persisted channels and channel keywords.
#[derive(Debug)]
pub struct ChannelStore {
    pub channels: Vec<YoutubeChannel>,
    pub keywords: Vec<YoutubeChannelKeyword>,
}

impl ChannelStore {
    pub fn new() -> (r: ChannelStore)
        ensures
            r.channels@.len() == 0,
            r.keywords@.len() == 0,
    {
        ChannelStore { channels: Vec::new(), keywords: Vec::new() }
    }

    /// Whether a channel with this handle is recorded.
    pub fn channel_exists_by_handle(&self, handle: &String) -> (r: bool)
        ensures
            r == has_handle(self.channels@, handle@),
    {
        let mut i: usize = 0;
        while i < self.channels.len()
            invariant
                i <= self.channels@.len(),
                forall|j: int| 0 <= j < i ==> (#[trigger] self.channels@[j]).channel_handle@ != handle@,
            decreases self.channels@.len() - i,
        {
            if self.channels[i].channel_handle == *handle {
                assert(self.channels@[i as int].channel_handle@ == handle@);
                return true;
            }
            i = i + 1;
        }
        false
    }

    /// Records a new, unfinished channel created at `now`; returns its row id.
    pub fn save_channel(&mut self, c: YoutubeChannel, now: i64) -> (id: i64)
        requires
            old(self).channels@.len() < i64::MAX,
        ensures
            id == old(self).channels@.len() + 1,
            final(self).channels@ == old(self).channels@.push(
                YoutubeChannel { id, is_finished: false, created_at: now, updated_at: now, ..c },
            ),
            final(self).keywords@ == old(self).keywords@,
    {
        let id = self.channels.len() as i64 + 1;
        self.channels.push(YoutubeChannel { id, is_finished: false, created_at: now, updated_at: now, ..c });
        id
    }

    /// Appends the keyword rows of a finished analysis.
    pub fn save_channel_keywords(&mut self, rows: Vec<YoutubeChannelKeyword>)
        ensures
            final(self).keywords@ == old(self).keywords@ + rows@,
            final(self).channels@ == old(self).channels@,
    {
        let mut more = rows;
        self.keywords.append(&mut more);
    }

    /// Marks the channel with row id `id` as finished.
    pub fn update_channel_finished_by_id(&mut self, id: i64)
        ensures
            final(self).channels@ == marked_finished(old(self).channels@, id),
            final(self).keywords@ == old(self).keywords@,
    {
        let ghost cs = self.channels@;
        let mut i: usize = 0;
        while i < self.channels.len()
            invariant
                self.channels@.len() == cs.len(),
                cs == old(self).channels@,
                self.keywords@ == old(self).keywords@,
                i <= cs.len(),
                forall|j: int| 0 <= j < i ==> (#[trigger] self.channels@[j]) == marked_finished(cs, id)[j],
                forall|j: int| i <= j < cs.len() ==> (#[trigger] self.channels@[j]) == cs[j],
            decreases cs.len() - i,
        {
            if self.channels[i].id == id {
                let c = self.channels.remove(i);
                self.channels.insert(i, YoutubeChannel { is_finished: true, ..c });
            }
            i = i + 1;
        }
        assert(self.channels@ =~= marked_finished(cs, id));
    }

    /// Deletes the unfinished channels created more than an hour before `now`.
    pub fn delete_channel_not_finished(&mut self, now: i64)
        ensures
            final(self).channels@ == live_channels(old(self).channels@, now),
            final(self).keywords@ == old(self).keywords@,
    {
        let mut cs: Vec<YoutubeChannel> = Vec::new();
        std::mem::swap(&mut cs, &mut self.channels);
        self.channels = cleanup_stale_channels(cs, now);
    }

    /// Up to `limit` keywords of channel row `id`, highest view count first,
    /// equal counts in stored order.
    pub fn find_keywords_by_channel_id_order_by_view_count(&self, id: i64, limit: usize) -> (r: Vec<
        ChannelKeywordResponse,
    >)
        ensures
            exists|order: Seq<usize>|
                #![trigger is_top_ranking(view_scores(rows_of_channel(self.keywords@, id)), limit as nat, order)]
                is_top_ranking(view_scores(rows_of_channel(self.keywords@, id)), limit as nat, order)
                    && order.len() == r@.len() && forall|j: int|
                    0 <= j < r@.len() ==> (#[trigger] r@[j]).keyword_text
                        == rows_of_channel(self.keywords@, id)[order[j] as int].keyword_text
                        && r@[j].view_count == rows_of_channel(self.keywords@, id)[order[j] as int].view_count,
    {
        let ghost ks = self.keywords@;
        let mut idx: Vec<usize> = Vec::new();
        let mut scores: Vec<i64> = Vec::new();
        let mut i: usize = 0;
        while i < self.keywords.len()
            invariant
                ks == self.keywords@,
                i <= ks.len(),
                idx@.len() == scores@.len(),
                idx@.len() == rows_of_channel(ks.subrange(0, i as int), id).len(),
                forall|j: int|
                    0 <= j < idx@.len() ==> (#[trigger] idx@[j]) < i && ks[idx@[j] as int]
                        == rows_of_channel(ks.subrange(0, i as int), id)[j] && scores@[j]
                        == ks[idx@[j] as int].view_count,
            decreases ks.len() - i,
        {
            let ghost next = ks.subrange(0, i + 1);
            proof {
                assert(next.drop_last() =~= ks.subrange(0, i as int));
                reveal(Seq::filter);
            }
            if self.keywords[i].youtube_channel_id == id {
                idx.push(i);
                scores.push(self.keywords[i].view_count);
            }
            i = i + 1;
        }
        assert(ks.subrange(0, i as int) =~= ks);
        let ghost rows = rows_of_channel(ks, id);
        assert forall|q: int| 0 <= q < scores@.len() implies scores@[q] == view_scores(rows)[q] by {
            assert(ks[idx@[q] as int] == rows[q]);
        }
        assert(scores@ =~= view_scores(rows));
        let order = top_ranked(&scores, limit);
        let mut out: Vec<ChannelKeywordResponse> = Vec::new();
        let mut j: usize = 0;
        while j < order.len()
            invariant
                ks == self.keywords@,
                rows == rows_of_channel(ks, id),
                idx@.len() == rows.len(),
                scores@.len() == rows.len(),
                forall|q: int| 0 <= q < idx@.len() ==> (#[trigger] idx@[q]) < ks.len() && ks[idx@[q] as int] == rows[q],
                is_top_ranking(scores@, limit as nat, order@),
                j <= order@.len(),
                out@.len() == j,
                forall|q: int|
                    0 <= q < j ==> (#[trigger] out@[q]).keyword_text == rows[order@[q] as int].keyword_text
                        && out@[q].view_count == rows[order@[q] as int].view_count,
            decreases order@.len() - j,
        {
            let p = order[j];
            let k = &self.keywords[idx[p]];
            out.push(ChannelKeywordResponse { keyword_text: k.keyword_text.clone(), view_count: k.view_count });
            j = j + 1;
        }
        out
    }

    /// One page of the recorded channels, in the order they were recorded,
    /// with the total count of channels and of pages.
    pub fn get_youtube_channels(&self, query: &PaginationQuery) -> (r: Page<ChannelResponse>)
        ensures
            r.page == query.page,
            r.size == query.size,
            r.total_items == if self.channels@.len() < i64::MAX {
                self.channels@.len() as i64
            } else {
                i64::MAX
            },
            r.total_pages as nat == page_count(self.channels@.len(), query.size as nat),
            ({
                let offset = query.page as int * query.size as int;
                let n = self.channels@.len() as int;
                &&& r.items@.len() == if offset >= n {
                    0
                } else if n - offset < query.size {
                    n - offset
                } else {
                    query.size as int
                }
                &&& forall|i: int|
                    0 <= i < r.items@.len() ==> #[trigger] r.items@[i] == channel_response(
                        self.channels@[offset + i],
                    )
            }),
    {
        let n = self.channels.len();
        proof {
            assert(query.page as int * query.size as int <= u64::MAX) by (nonlinear_arith)
                requires
                    query.page <= u32::MAX,
                    query.size <= u32::MAX,
            ;
        }
        let offset: u64 = query.page as u64 * query.size as u64;
        let mut items: Vec<ChannelResponse> = Vec::new();
        if offset < n as u64 {
            let start = offset as usize;
            let mut i: usize = start;
            while i < n && i - start < query.size as usize
                invariant
                    n == self.channels@.len(),
                    start as int == offset as int,
                    start <= i <= n,
                    items@.len() == i - start,
                    i - start <= query.size,
                    forall|q: int| 0 <= q < items@.len() ==> #[trigger] items@[q] == channel_response(self.channels@[start + q]),
                decreases n - i,
            {
                items.push(ChannelResponse::from_channel(&self.channels[i]));
                i = i + 1;
            }
        }
        let total_items: i64 = if n as u64 >= i64::MAX as u64 {
            i64::MAX
        } else {
            n as i64
        };
        Page {
            items,
            page: query.page,
            size: query.size,
            total_items,
            total_pages: total_pages(n as u64, query.size),
        }
    }
}

} // verus!
