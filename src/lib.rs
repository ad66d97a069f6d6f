//! Query decoding and pagination for an OGC API Features service: query
//! parameters, coordinate reference systems, bounding-box envelopes, page links
//! and the feature-collection response.
pub mod text;
pub mod percent;
pub mod json;
pub mod error;
pub mod crs;
pub mod envelope;
pub mod query;
pub mod paging;
pub mod link;
pub mod page;
pub mod collection;
pub mod storage;
