//! Decisions of the paginated external calls: the daily discovery search and
//! the enumeration of a channel's uploads playlist. The caller performs each
//! request and hands back the page it got.

use vstd::prelude::*;

verus! {

/// Days searched, today back seven days.
pub const DISCOVERY_DAYS: u32 = 8;

/// Pages fetched per day at most, to bound the cost of the search.
pub const MAX_PAGES_PER_DAY: u32 = 10;

pub const SECONDS_PER_DAY: i64 = 86400;

/// Combined hashtag query of the discovery search.
pub const SEARCH_QUERY: &'static str = "#shorts|#\u{c1fc}\u{cc20}";

/// One search call: videos published in `[published_after, published_before)`.
#[derive(Debug)]
pub struct SearchRequest {
    pub published_after: i64,
    pub published_before: i64,
    pub page_token: Option<String>,
}

/// Progress of the discovery search.
#[derive(Debug)]
pub struct Discovery {
    /// The instant the windows are measured back from.
    pub now: i64,
    /// Day being searched, 0 for the last 24 hours.
    pub day: u32,
    /// Pages already fetched for that day.
    pub pages: u32,
    pub cursor: Option<String>,
    /// Candidate ids collected so far, duplicates included.
    pub ids: Vec<String>,
}

impl Discovery {
    pub open spec fn well_formed(&self) -> bool {
        &&& self.now >= i64::MIN + DISCOVERY_DAYS * SECONDS_PER_DAY
        &&& self.day <= DISCOVERY_DAYS
        &&& self.pages < MAX_PAGES_PER_DAY
        &&& self.day == DISCOVERY_DAYS ==> self.pages == 0 && self.cursor is None
        &&& self.pages == 0 ==> self.cursor is None
    }

    /// Starts a search measured back from `now`.
    pub fn new(now: i64) -> (r: Discovery)
        requires
            now >= i64::MIN + DISCOVERY_DAYS * SECONDS_PER_DAY,
        ensures
            r.well_formed(),
            r.now == now,
            r.day == 0,
            r.pages == 0,
            r.ids@.len() == 0,
    {
        Discovery { now, day: 0, pages: 0, cursor: None, ids: Vec::new() }
    }

    pub open spec fn is_finished(&self) -> bool {
        self.day >= DISCOVERY_DAYS
    }

    /// The next search call, or `None` once all days are searched.
    pub fn next_request(&self) -> (r: Option<SearchRequest>)
        requires
            self.well_formed(),
        ensures
            r is None <==> self.is_finished(),
            r matches Some(q) ==> q.published_after == self.now - (self.day + 1) * SECONDS_PER_DAY
                && q.published_before == self.now - self.day * SECONDS_PER_DAY && q.page_token
                == self.cursor,
    {
        if self.day >= DISCOVERY_DAYS {
            return None;
        }
        let d = self.day as i64;
        let token = match &self.cursor {
            Some(t) => Some(t.clone()),
            None => None,
        };
        Some(
            SearchRequest {
                published_after: self.now - (d + 1) * SECONDS_PER_DAY,
                published_before: self.now - d * SECONDS_PER_DAY,
                page_token: token,
            },
        )
    }

    /// Takes in the page answered to the last request: its ids are kept; the
    /// same day goes on with the next cursor unless the day has no more
    /// pages or already had `MAX_PAGES_PER_DAY`, in which case the next day
    /// starts.
    pub fn record_page(&mut self, ids: Vec<String>, next_page_token: Option<String>)
        requires
            old(self).well_formed(),
            !old(self).is_finished(),
        ensures
            final(self).well_formed(),
            final(self).now == old(self).now,
            final(self).ids@ == old(self).ids@ + ids@,
            match next_page_token {
                Some(t) if old(self).pages + 1 < MAX_PAGES_PER_DAY => final(self).day == old(self).day
                    && final(self).pages == old(self).pages + 1 && final(self).cursor == Some(t),
                _ => final(self).day == old(self).day + 1 && final(self).pages == 0 && final(self).cursor
                    is None,
            },
    {
        let mut more = ids;
        self.ids.append(&mut more);
        match next_page_token {
            Some(t) => {
                if self.pages + 1 < MAX_PAGES_PER_DAY {
                    self.pages = self.pages + 1;
                    self.cursor = Some(t);
                } else {
                    self.day = self.day + 1;
                    self.pages = 0;
                    self.cursor = None;
                }
            },
            None => {
                self.day = self.day + 1;
                self.pages = 0;
                self.cursor = None;
            },
        }
    }
}

/// One call of the playlist enumeration.
#[derive(Debug)]
pub struct PlaylistRequest {
    pub playlist_id: String,
    pub page_token: Option<String>,
}

/// Progress of enumerating a whole playlist, with no date window.
#[derive(Debug)]
pub struct PlaylistScan {
    pub playlist_id: String,
    pub cursor: Option<String>,
    pub ids: Vec<String>,
    pub finished: bool,
}

impl PlaylistScan {
    pub fn new(playlist_id: String) -> (r: PlaylistScan)
        ensures
            r.playlist_id == playlist_id,
            r.cursor is None,
            r.ids@.len() == 0,
            !r.finished,
    {
        PlaylistScan { playlist_id, cursor: None, ids: Vec::new(), finished: false }
    }

    /// The next playlist call, or `None` once the cursor is exhausted.
    pub fn next_request(&self) -> (r: Option<PlaylistRequest>)
        ensures
            r is None <==> self.finished,
            r matches Some(q) ==> q.playlist_id == self.playlist_id && q.page_token == self.cursor,
    {
        if self.finished {
            return None;
        }
        let token = match &self.cursor {
            Some(t) => Some(t.clone()),
            None => None,
        };
        Some(PlaylistRequest { playlist_id: self.playlist_id.clone(), page_token: token })
    }

    /// Takes in a page: its ids are kept, and the scan ends when the page
    /// carries no continuation cursor.
    pub fn record_page(&mut self, ids: Vec<String>, next_page_token: Option<String>)
        requires
            !old(self).finished,
        ensures
            final(self).playlist_id == old(self).playlist_id,
            final(self).ids@ == old(self).ids@ + ids@,
            final(self).finished == next_page_token is None,
            final(self).cursor == next_page_token,
    {
        let mut more = ids;
        self.ids.append(&mut more);
        self.finished = next_page_token.is_none();
        self.cursor = next_page_token;
    }
}

} // verus!
