//! Selection of the candidate records that the collection keeps.

use vstd::prelude::*;
use crate::data_api_model::{decoded_duration, has_hangul, VideoItem};

verus! {

/// Exclusive lower bound of a kept duration, in seconds.
pub const MIN_DURATION_EXCLUSIVE: i32 = 10;

/// Inclusive upper bound of a kept duration, in seconds.
pub const MAX_DURATION_INCLUSIVE: i32 = 61;

/// A record is kept when its decoded duration lies in (10, 61] and its title
/// holds a Hangul syllable.
pub open spec fn qualifies(v: VideoItem) -> bool {
    let d = decoded_duration(v.content_details.duration@);
    MIN_DURATION_EXCLUSIVE < d <= MAX_DURATION_INCLUSIVE && has_hangul(v.snippet.title@)
}

/// The records of `s` that pass the filter, in order.
pub open spec fn kept_videos(s: Seq<VideoItem>) -> Seq<VideoItem> {
    s.filter(|v: VideoItem| qualifies(v))
}

/// Whether one record passes the filter.
pub fn is_short_candidate(v: &VideoItem) -> (r: bool)
    ensures
        r == qualifies(*v),
{
    let d = v.content_details.as_seconds();
    d > MIN_DURATION_EXCLUSIVE && d <= MAX_DURATION_INCLUSIVE && v.snippet.has_korean()
}

/// Keeps the records that pass the filter, in their input order.
pub fn filter_raw_video_data(videos: Vec<VideoItem>) -> (r: Vec<VideoItem>)
    ensures
        r@ == kept_videos(videos@),
{
    let ghost orig = videos@;
    let mut rest = videos;
    let mut kept: Vec<VideoItem> = Vec::new();
    let ghost mut k: int = 0;
    while rest.len() > 0
        invariant
            0 <= k <= orig.len(),
            rest@ == orig.subrange(k, orig.len() as int),
            kept@ == kept_videos(orig.subrange(0, k)),
        decreases rest.len(),
    {
        let v = rest.remove(0);
        let ghost next = orig.subrange(0, k + 1);
        proof {
            assert(next.drop_last() =~= orig.subrange(0, k));
            assert(next.last() == v);
            reveal(Seq::filter);
            assert(kept_videos(next) == if qualifies(v) {
                kept_videos(orig.subrange(0, k)).push(v)
            } else {
                kept_videos(orig.subrange(0, k))
            });
        }
        if is_short_candidate(&v) {
            kept.push(v);
        }
        assert(kept@ == kept_videos(next));
        proof {
            k = k + 1;
            assert(rest@ =~= orig.subrange(k, orig.len() as int));
        }
    }
    proof {
        assert(orig.subrange(0, k) =~= orig);
    }
    kept
}

} // verus!
