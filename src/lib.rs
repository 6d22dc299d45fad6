//! Turns a stream of JSON Lines records into one JSON array, compact or
//! pretty-printed, one element per line and in the order of the lines.
pub mod codec;
pub mod lines;
pub mod transcoder;
pub mod laws;
