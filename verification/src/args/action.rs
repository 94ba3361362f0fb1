//! The actions of the command line tool and the reading of a color given on
//! it.

use vstd::prelude::*;
use crate::hex::{hex_slicing_panics, parse_hex_rgb, parse_hex_spec};
use crate::theme::ThemeType;

verus! {

/// What the tool is asked to do.
#[derive(Debug, Clone)]
pub enum Action {
    Run(Run),
    List,
    /// Opens the configuration file, or with `path` prints where the default
    /// one is.
    Config { path: bool },
    ClearCache,
}

/// The options of the `run` action.
#[derive(Debug, Clone)]
pub struct Run {
    /// The target image path or a hex color (e.g. "#3acbaf")
    pub target: String,
    /// Build only specific template. Can be used multiple times.
    pub templates: Vec<String>,
    /// Override the theme type for this run
    pub theme: Option<ThemeType>,
    /// Skip building the templates - prints theme in the terminal.
    pub skip_build: bool,
    /// Only extract color from image
    pub extract_only: bool,
}

impl Default for Run {
    fn default() -> (r: Self)
        ensures
            r.target@ == Seq::<char>::empty(),
            r.templates@.len() == 0,
            r.theme is None,
            !r.skip_build,
            !r.extract_only,
    {
        Run {
            target: String::new(),
            templates: Vec::new(),
            theme: None,
            skip_build: false,
            extract_only: false,
        }
    }
}

/// The message given back for text that is no color.
pub open spec fn invalid_color_message(val: Seq<char>) -> Seq<char> {
    "Invalid color '"@ + val + "'. Expected format is '#rrggbb'."@
}

/// Reads a color written as `#rrggbb` (any number of leading `#`, then three
/// pairs of hex digits in either case, each pair read as one byte).
pub fn parse_hex_col(val: &str) -> (r: Result<(u8, u8, u8), String>)
    requires
        !hex_slicing_panics(val@),
    ensures
        match parse_hex_spec(val@) {
            Some(c) => r == Ok::<(u8, u8, u8), String>(c),
            None => r matches Err(m) && m@ == invalid_color_message(val@),
        },
{
    match parse_hex_rgb(val) {
        Some(c) => Ok(c),
        None => {
            let mut m = String::from_str("Invalid color '");
            m.append(val);
            m.append("'. Expected format is '#rrggbb'.");
            Err(m)
        },
    }
}

} // verus!
