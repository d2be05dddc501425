//! Pre-compression of static assets: for every input file, compressed
//! siblings in several formats, of which only those are kept that save space.
//!
//! The codecs are tried in a fixed order, oldest format first. An artifact is
//! kept only if it is strictly smaller than the input and than every artifact
//! kept before it for the same input; an artifact that is already there is
//! never produced again.
//!
//! This library holds the rules and the encoding, on values in memory. What
//! touches the file system is left to the caller.

pub mod codec;
pub mod compress;
pub mod encoder;
pub mod filter;
pub mod pipeline;
pub mod policy;
pub mod rerun;
pub mod sink;
