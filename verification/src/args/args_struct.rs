//! The command line of the tool.

use vstd::prelude::*;
use crate::args::action::Action;

verus! {

/// The parsed command line: an action and the options shared by all
/// actions.
#[derive(Debug, Clone)]
pub struct Args {
    pub action: Option<Action>,
    pub config: Option<String>,
    pub quiet: bool,
    pub no_cache: bool,
    pub help: bool,
    pub version: bool,
}

impl Default for Args {
    fn default() -> (r: Self)
        ensures
            r.action is None,
            r.config is None,
            !r.quiet,
            !r.no_cache,
            !r.help,
            !r.version,
    {
        Args { action: None, config: None, quiet: false, no_cache: false, help: false, version: false }
    }
}

} // verus!
