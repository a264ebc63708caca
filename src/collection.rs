//! Stages of the daily collection that run on values already fetched:
//! normalizing a batch, storing an extracted batch, and ranking a day.

use vstd::prelude::*;
use crate::data_api_model::VideoItem;
use crate::extraction::KeywordMap;
use crate::store::{
    has_room, lemma_relinked_len, lemma_video_batch_rerun, lemma_video_index, linked_after_video, links_without,
    same_video_identities, video_index, video_upserted, videos_upserted_all, videos_well_formed,
    LinkedView, VideoStore,
};
use crate::video_model::{video_record, YoutubeRawVideo, YoutubeVideo};

verus! {

impl YoutubeRawVideo {
    /// A raw record of the video `video_id` holding `raw_metadata`, the
    /// record's JSON text.
    pub fn from_metadata(video_id: String, raw_metadata: String) -> (r: YoutubeRawVideo)
        ensures
            r.id == 0,
            r.video_id == video_id,
            r.raw_metadata == raw_metadata,
            r.created_at == 0,
            r.updated_at == 0,
    {
        YoutubeRawVideo { id: 0, video_id, raw_metadata, created_at: 0, updated_at: 0 }
    }
}

/// Normalizes a batch of detail records at `now`, in order.
pub fn normalize_batch(items: Vec<VideoItem>, now: i64) -> (r: Vec<YoutubeVideo>)
    ensures
        r@.len() == items@.len(),
        forall|i: int| 0 <= i < r@.len() ==> #[trigger] r@[i] == video_record(items@[i], now),
{
    let ghost all = items@;
    let mut rest = items;
    let mut out: Vec<YoutubeVideo> = Vec::new();
    while rest.len() > 0
        invariant
            out@.len() + rest@.len() == all.len(),
            rest@ == all.subrange(out@.len() as int, all.len() as int),
            forall|i: int| 0 <= i < out@.len() ==> #[trigger] out@[i] == video_record(all[i], now),
        decreases rest.len(),
    {
        let item = rest.remove(0);
        out.push(YoutubeVideo::from_item(item, now));
        assert(rest@ =~= all.subrange(out@.len() as int, all.len() as int));
    }
    out
}

/// The linked records after storing each video of `vs` in order with the
/// keywords that `map` gives it; a video that finds no row id left is
/// skipped.
pub open spec fn linked_after_batch(st: LinkedView, vs: Seq<YoutubeVideo>, map: KeywordMap, now: i64) -> LinkedView
    decreases vs.len(),
{
    if vs.len() == 0 {
        st
    } else {
        let prev = linked_after_batch(st, vs.drop_last(), map, now);
        linked_after_video(prev, vs.last(), map.keywords_of(vs.last().video_id@), now)
    }
}

/// Number of videos of `vs` that storing the batch skips for lack of row ids.
pub open spec fn skipped_in_batch(st: LinkedView, vs: Seq<YoutubeVideo>, map: KeywordMap, now: i64) -> nat
    decreases vs.len(),
{
    if vs.len() == 0 {
        0
    } else {
        let prev = linked_after_batch(st, vs.drop_last(), map, now);
        skipped_in_batch(st, vs.drop_last(), map, now) + if has_room(
            prev,
            map.keywords_of(vs.last().video_id@),
        ) {
            0nat
        } else {
            1nat
        }
    }
}

/// Stores an extracted batch at `now`: each video is upserted and relinked to
/// the keywords that `map` gives it, one video at a time; a video that
/// cannot be stored is skipped without stopping the batch. Returns the
/// number of videos skipped.
pub fn save_extracted_batch(store: &mut VideoStore, videos: Vec<YoutubeVideo>, map: &KeywordMap, now: i64) -> (skipped: usize)
    requires
        old(store).well_formed(),
    ensures
        final(store).well_formed(),
        final(store).raw_videos@ == old(store).raw_videos@,
        final(store).linked_view() == linked_after_batch(old(store).linked_view(), videos@, *map, now),
        skipped == skipped_in_batch(old(store).linked_view(), videos@, *map, now),
{
    let n_videos = videos.len();
    let ghost all = videos@;
    let ghost s0 = store.linked_view();
    let mut rest = videos;
    let mut skipped: usize = 0;
    let ghost mut done: int = 0;
    while rest.len() > 0
        invariant
            0 <= done <= all.len(),
            all.len() == n_videos,
            skipped <= done,
            skipped == skipped_in_batch(s0, all.subrange(0, done), *map, now),
            rest@ == all.subrange(done, all.len() as int),
            store.well_formed(),
            store.raw_videos@ == old(store).raw_videos@,
            store.linked_view() == linked_after_batch(s0, all.subrange(0, done), *map, now),
        decreases rest.len(),
    {
        let v = rest.remove(0);
        proof {
            let next = all.subrange(0, done + 1);
            assert(next.drop_last() =~= all.subrange(0, done));
            assert(next.last() == v);
        }
        let keywords = map.keywords_for(&v.video_id);
        match store.save_video_and_keywords(v, keywords, now) {
            Ok(()) => {},
            Err(_) => {
                skipped = skipped + 1;
            },
        }
        proof {
            done = done + 1;
            assert(rest@ =~= all.subrange(done, all.len() as int));
        }
    }
    assert(all.subrange(0, done) =~= all);
    skipped
}

/// Number of keywords that `map` gives the videos of `vs`, all together.
pub open spec fn batch_keyword_count(vs: Seq<YoutubeVideo>, map: KeywordMap) -> nat
    decreases vs.len(),
{
    if vs.len() == 0 {
        0
    } else {
        batch_keyword_count(vs.drop_last(), map) + map.keywords_of(vs.last().video_id@).len()
    }
}

proof fn lemma_batch_with_room(st: LinkedView, vs: Seq<YoutubeVideo>, map: KeywordMap, now: i64)
    requires
        st.0.len() + vs.len() < i64::MAX,
        st.1.len() + batch_keyword_count(vs, map) < i64::MAX,
    ensures
        linked_after_batch(st, vs, map, now).0 == videos_upserted_all(st.0, vs, now),
        linked_after_batch(st, vs, map, now).0.len() <= st.0.len() + vs.len(),
        linked_after_batch(st, vs, map, now).1.len() <= st.1.len() + batch_keyword_count(vs, map),
    decreases vs.len(),
{
    if vs.len() > 0 {
        lemma_batch_with_room(st, vs.drop_last(), map, now);
        let prev = linked_after_batch(st, vs.drop_last(), map, now);
        let v = vs.last();
        let texts = map.keywords_of(v.video_id@);
        let vs2 = video_upserted(prev.0, v, now);
        let vid = (video_index(vs2, v.video_id@) + 1) as i64;
        lemma_relinked_len(prev.1, links_without(prev.2, vid), vid, texts);
        lemma_video_index(prev.0, v.video_id@);
    }
}

/// Storing the same extracted batch a second time, as a repeated collection
/// does, adds no video record when the store has row ids left for both runs:
/// every video of the batch has exactly one record afterwards, and each
/// record keeps its position, row id, identity fields and creation time from
/// the first run.
pub proof fn lemma_extracted_batch_rerun(
    st: LinkedView,
    vs: Seq<YoutubeVideo>,
    map: KeywordMap,
    t1: i64,
    t2: i64,
)
    requires
        videos_well_formed(st.0),
        st.0.len() + 2 * vs.len() < i64::MAX,
        st.1.len() + 2 * batch_keyword_count(vs, map) < i64::MAX,
    ensures
        ({
            let once = linked_after_batch(st, vs, map, t1);
            let twice = linked_after_batch(once, vs, map, t2);
            &&& videos_well_formed(twice.0)
            &&& same_video_identities(once.0, twice.0)
            &&& forall|i: int| 0 <= i < vs.len() ==> video_index(twice.0, (#[trigger] vs[i]).video_id@) >= 0
        }),
{
    lemma_batch_with_room(st, vs, map, t1);
    let once = linked_after_batch(st, vs, map, t1);
    lemma_batch_with_room(once, vs, map, t2);
    lemma_video_batch_rerun(st.0, vs, t1, t2);
}

} // verus!
