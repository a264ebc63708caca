//! Keyword trend library: decoding and filtering of short-video metadata,
//! batching of external calls, the decisions of the collection and channel
//! analysis pipelines, an in-memory model of the persisted records, and the
//! daily keyword ranking with its day-over-day rank changes.

pub mod data_api_model;
pub mod filter;
pub mod batching;
pub mod video_model;
pub mod ranking;
pub mod numbers;
pub mod extraction;
pub mod channel_model;
pub mod channel;
pub mod store;
pub mod paging;
pub mod pagination;
pub mod channel_store;
pub mod collection;
pub mod ranking_store;
