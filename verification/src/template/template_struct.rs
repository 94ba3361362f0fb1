//! Where a template is read from and where it is built to.

use vstd::prelude::*;

verus! {

/// Holds the template configuration: the `source` path of the template file,
/// the `target` path that the built template is written to, and an optional
/// `hook`, a shell command run after the template is built.
#[derive(Debug, Clone)]
pub struct Template {
    pub source: String,
    pub target: String,
    pub hook: Option<String>,
}

impl Template {
    /// Creates new template with `source` as the template file path and
    /// `target` as the build destination.
    pub fn new(source: &str, target: &str) -> (t: Self)
        ensures
            t.source@ == source@,
            t.target@ == target@,
            t.hook is None,
    {
        Template { source: String::from_str(source), target: String::from_str(target), hook: None }
    }
}

} // verus!
