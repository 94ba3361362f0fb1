//! The options of extracting a color and building templates with it.

use vstd::prelude::*;

verus! {

/// The image to extract a color from and the templates to build.
#[derive(Debug, Clone)]
pub struct Run {
    pub img: Option<String>,
    pub templates: Vec<String>,
}

impl Default for Run {
    fn default() -> (r: Self)
        ensures
            r.img is None,
            r.templates@.len() == 0,
    {
        Run { img: None, templates: Vec::new() }
    }
}

} // verus!
