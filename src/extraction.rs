//! The keyword-extraction service at its interface: the records it is sent,
//! the records it answers with, and the policy of retrying a batch.

use vstd::prelude::*;
use crate::video_model::YoutubeVideo;

verus! {

/// Envelope of the text-generation service's answer.
#[derive(Debug)]
pub struct GeminiApiResponse {
    pub candidates: Vec<Candidate>,
}

#[derive(Debug)]
pub struct Candidate {
    pub content: Content,
}

#[derive(Debug)]
pub struct Content {
    pub parts: Vec<Part>,
}

#[derive(Debug)]
pub struct Part {
    pub text: String,
}

/// Keywords extracted for one video.
#[derive(Debug)]
pub struct GeminiKeywordResponse {
    pub video_id: String,
    pub keywords: Vec<String>,
}

/// Summary of one video as sent for extraction.
#[derive(Debug)]
pub struct GeminiPromptVideoData {
    pub video_id: String,
    pub title: String,
    pub description: String,
    pub tags: Vec<String>,
}

/// The tags of a record, none counting as an empty list.
pub open spec fn tags_or_empty(tags: Option<Vec<String>>) -> Seq<String> {
    match tags {
        Some(t) => t@,
        None => Seq::empty(),
    }
}

impl GeminiPromptVideoData {
    /// The summary of a normalized record sent for extraction.
    pub fn from_video(v: &YoutubeVideo) -> (r: GeminiPromptVideoData)
        ensures
            r.video_id == v.video_id,
            r.title == v.title,
            r.description == v.description,
            r.tags@ == tags_or_empty(v.tags),
    {
        let tags = match &v.tags {
            Some(t) => copy_strings(t),
            None => Vec::new(),
        };
        GeminiPromptVideoData {
            video_id: v.video_id.clone(),
            title: v.title.clone(),
            description: v.description.clone(),
            tags,
        }
    }
}

/// Text of the first part of the first candidate, if the answer has one.
pub open spec fn answer_text(r: GeminiApiResponse) -> Option<String> {
    if r.candidates.len() > 0 && r.candidates[0].content.parts.len() > 0 {
        Some(r.candidates[0].content.parts[0].text)
    } else {
        None
    }
}

/// Takes the text that holds the extracted keywords out of an answer; `None`
/// marks a malformed answer.
pub fn response_text(r: GeminiApiResponse) -> (t: Option<String>)
    ensures
        t == answer_text(r),
{
    let mut candidates = r.candidates;
    if candidates.len() == 0 {
        return None;
    }
    let first = candidates.swap_remove(0);
    let mut parts = first.content.parts;
    if parts.len() == 0 {
        return None;
    }
    Some(parts.swap_remove(0).text)
}

/// Copies a list of strings.
pub fn copy_strings(v: &Vec<String>) -> (r: Vec<String>)
    ensures
        r@ == v@,
{
    let mut r: Vec<String> = Vec::new();
    let mut i: usize = 0;
    while i < v.len()
        invariant
            i <= v@.len(),
            r@ == v@.subrange(0, i as int),
        decreases v@.len() - i,
    {
        r.push(v[i].clone());
        i = i + 1;
        assert(r@ =~= v@.subrange(0, i as int));
    }
    assert(v@.subrange(0, i as int) =~= v@);
    r
}

/// Keywords recorded for `id` in `entries`: where the id occurs more than
/// once the last entry counts, and an absent id has none.
pub open spec fn keywords_in(entries: Seq<GeminiKeywordResponse>, id: Seq<char>) -> Seq<String>
    decreases entries.len(),
{
    if entries.len() == 0 {
        Seq::empty()
    } else if entries.last().video_id@ == id {
        entries.last().keywords@
    } else {
        keywords_in(entries.drop_last(), id)
    }
}

/// Video id to keyword list, as answered for one batch.
#[derive(Debug)]
pub struct KeywordMap {
    pub entries: Vec<GeminiKeywordResponse>,
}

impl KeywordMap {
    pub open spec fn keywords_of(&self, id: Seq<char>) -> Seq<String> {
        keywords_in(self.entries@, id)
    }

    /// The map of an empty batch.
    pub fn empty() -> (r: KeywordMap)
        ensures
            r.entries@.len() == 0,
    {
        KeywordMap { entries: Vec::new() }
    }

    /// Builds the map from the service's answer records.
    pub fn from_responses(entries: Vec<GeminiKeywordResponse>) -> (r: KeywordMap)
        ensures
            r.entries@ == entries@,
    {
        KeywordMap { entries }
    }

    /// The keywords extracted for one video; none when the answer left it out.
    pub fn keywords_for(&self, video_id: &String) -> (r: Vec<String>)
        ensures
            r@ == self.keywords_of(video_id@),
    {
        let mut i: usize = self.entries.len();
        assert(self.entries@.subrange(0, i as int) =~= self.entries@);
        while i > 0
            invariant
                i <= self.entries@.len(),
                self.keywords_of(video_id@) == keywords_in(self.entries@.subrange(0, i as int), video_id@),
            decreases i,
        {
            let ghost pre = self.entries@.subrange(0, i as int);
            assert(pre.drop_last() =~= self.entries@.subrange(0, i - 1));
            if self.entries[i - 1].video_id == *video_id {
                return copy_strings(&self.entries[i - 1].keywords);
            }
            i = i - 1;
        }
        Vec::new()
    }
}

/// Attempts made for one batch before its extraction fails.
pub const MAX_EXTRACTION_ATTEMPTS: u32 = 3;

/// First delay of the exponential backoff, in milliseconds.
pub const BACKOFF_BASE_MILLIS: u64 = 100;

/// `x` saturated to the range of a `u64`.
pub open spec fn saturate_u64(x: nat) -> nat {
    if x > u64::MAX {
        u64::MAX as nat
    } else {
        x
    }
}

/// Delay before retry number `retry` (from 0) of an exponential backoff that
/// starts at `base` milliseconds and multiplies by `base` each time,
/// saturating.
pub open spec fn exponential_delay(base: nat, retry: nat) -> nat
    decreases retry,
{
    if retry == 0 {
        base
    } else {
        saturate_u64(exponential_delay(base, (retry - 1) as nat) * base)
    }
}

/// Relies on tokio-retry's `ExponentialBackoff::from_millis(base)`: its
/// `next` yields `current` milliseconds, starting from `base`, and then sets
/// `current` to `current.saturating_mul(base)`; it never ends.
#[verifier::external_body]
fn backoff_delay_millis(base: u64, retry: u32) -> (r: u64)
    ensures
        r as nat == exponential_delay(base as nat, retry as nat),
{
    tokio_retry::strategy::ExponentialBackoff::from_millis(base)
        .nth(retry as usize)
        .unwrap_or_default()
        .as_millis() as u64
}

/// What to do after an extraction attempt failed.
#[derive(PartialEq, Eq, Structural, Debug, Clone, Copy)]
pub enum RetryDecision {
    /// Try again after this many milliseconds, before jitter is applied.
    RetryAfter(u64),
    /// The batch has failed.
    GiveUp,
}

pub open spec fn retry_decision(attempt: nat) -> RetryDecision {
    if attempt < MAX_EXTRACTION_ATTEMPTS {
        RetryDecision::RetryAfter(
            exponential_delay(BACKOFF_BASE_MILLIS as nat, (attempt - 1) as nat) as u64,
        )
    } else {
        RetryDecision::GiveUp
    }
}

/// Decision after the `attempt`-th attempt (counted from 1) of a batch failed.
pub fn after_failed_attempt(attempt: u32) -> (r: RetryDecision)
    requires
        attempt >= 1,
    ensures
        r == retry_decision(attempt as nat),
{
    if attempt < MAX_EXTRACTION_ATTEMPTS {
        RetryDecision::RetryAfter(backoff_delay_millis(BACKOFF_BASE_MILLIS, attempt - 1))
    } else {
        RetryDecision::GiveUp
    }
}

} // verus!
