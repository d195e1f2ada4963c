//! An on-demand image transformation library: a compact URL-safe codec for
//! ordered lists of image operations, a bounded LRU cache for fetched source
//! bytes, and the pipeline that ties spec decoding, fetching, decoding,
//! transforming and encoding together with precise error attribution.

pub mod ops;
pub mod fingerprint;
pub mod errors;
pub mod cache;
pub mod codec;
pub mod transform;
pub mod pipeline;
