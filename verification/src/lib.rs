//! Incremental mirroring of an account's tweets and media.

pub mod candidate;
pub mod candidate_laws;
pub mod download;
pub mod http;
pub mod lines;
pub mod merge;
pub mod merge_chain;
pub mod merge_laws;
pub mod model;
pub mod order;
pub mod serve;
pub mod snapshot;
pub mod source_url;
pub mod text;
pub mod timestamp;
pub mod twitter;
