//! Client-side logic for a package-metadata service: building queries,
//! decoding and ranking results, and deciding where archive entries land.

pub mod archive;
pub mod decode;
pub mod error;
pub mod json;
pub mod pipeline;
pub mod query;
pub mod rank;
pub mod record;
pub mod render;
pub mod stream;
