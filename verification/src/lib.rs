pub mod config;
pub mod channels;
pub mod data_feed;
pub mod execution;
pub mod hotpath;
pub mod metrics;
pub mod sbe_decoder_ffi;
