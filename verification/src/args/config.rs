//! The options of the `config` action.

use vstd::prelude::*;

verus! {

/// The `config` action.
#[derive(Debug, Clone, Copy, PartialEq, Eq, Structural)]
pub struct Config;

} // verus!
