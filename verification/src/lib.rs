pub mod laws;
pub mod location;
pub mod model;
pub mod writer;

use vstd::prelude::*;

verus! {

/// Minimum part size a provider accepts for a non-final part of a
/// multipart upload.
pub const S3_MIN_PART_SIZE: usize = 5 * 1024 * 1024;

/// Buffer length at which an in-progress buffer is sealed into a part.
pub const SPLIT_THRESHOLD: usize = 32 * 1024 * 1024;

} // verus!
