//! Defaults of the extraction settings that are whole numbers.

use vstd::prelude::*;

verus! {

/// The width and the height an image is resized to by default.
pub fn default_resize() -> (r: Option<u32>)
    ensures
        r == Some(255u32),
{
    Some(255)
}

/// The number of clusters the candidate pixels are grouped into by default.
pub fn default_clusters() -> (r: usize)
    ensures
        r == 16,
{
    16
}

} // verus!
