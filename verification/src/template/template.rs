//! A template given by any two path values.

use vstd::prelude::*;

verus! {

/// A template file (`template`) and the destination it is built to
/// (`target`), each held as the caller gave it.
#[derive(Debug, Clone)]
pub struct Template<P1, P2> {
    pub template: P1,
    pub target: P2,
}

impl<P1, P2> Template<P1, P2> {
    /// Creates new template with `template` as source and `target` as the
    /// build destination.
    pub fn new(template: P1, target: P2) -> (t: Self)
        ensures
            t.template == template,
            t.target == target,
    {
        Template { template, target }
    }
}

} // verus!
