//! The options of extracting a color from an image.

use vstd::prelude::*;
use crate::args::{
    ProblemView, is_arg, no_more_arguments_error, opt_seq, pareg_args, pareg_next,
    pareg_next_path, pareg_rest, path_value,
};

verus! {

/// The image to extract a color from and the configuration to use.
#[derive(Debug, Clone)]
pub struct Extract {
    pub img: Option<String>,
    pub config: Option<String>,
}

/// The options as text.
pub struct ExtractView {
    pub img: Option<Seq<char>>,
    pub config: Option<Seq<char>>,
}

impl Extract {
    /// The options as text.
    pub open spec fn view_of(self) -> ExtractView {
        ExtractView { img: opt_seq(self.img), config: opt_seq(self.config) }
    }
}

/// Reading the options from `toks`, with what was read so far in `st`.
pub open spec fn parse_extract(toks: Seq<Seq<char>>, st: ExtractView) -> Result<
    ExtractView,
    ProblemView,
>
    decreases toks.len(),
{
    if toks.len() == 0 {
        Ok(st)
    } else {
        let t = toks[0];
        if t == "-c"@ || t == "--config"@ {
            if toks.len() > 1 {
                parse_extract(toks.skip(2), ExtractView { config: path_value(toks[1]), ..st })
            } else {
                Err(ProblemView::NoMoreArguments)
            }
        } else {
            parse_extract(toks.skip(1), ExtractView { img: Some(t), ..st })
        }
    }
}

impl Extract {
    /// Reads the options from the rest of the arguments: `-c`/`--config`
    /// takes the next argument as the configuration path, and any other
    /// argument is the image (the last one wins).
    pub fn parse(args: &mut pareg::Pareg) -> (r: Result<Extract, pareg::ArgError>)
        ensures
            match (r, parse_extract(pareg_rest(*old(args)), ExtractView { img: None, config: None })) {
                (Ok(e), Ok(v)) => e.view_of() == v,
                (Err(e), Err(p)) => p == ProblemView::NoMoreArguments && e
                    == no_more_arguments_error(pareg_args(*old(args))),
                _ => false,
            },
    {
        let ghost all = pareg_args(*args);
        let ghost goal = parse_extract(pareg_rest(*args), ExtractView { img: None, config: None });
        let mut parsed = Extract { img: None, config: None };
        loop
            invariant
                all == pareg_args(*old(args)),
                goal == parse_extract(pareg_rest(*old(args)), ExtractView { img: None, config: None }),
                pareg_args(*args) == all,
                goal == parse_extract(pareg_rest(*args), parsed.view_of()),
            decreases pareg_rest(*args).len(),
        {
            proof {
                reveal_strlit("-c");
                reveal_strlit("--config");
            }
            let ghost toks = pareg_rest(*args);
            let arg = match pareg_next(args) {
                Some(a) => a,
                None => {
                    return Ok(parsed);
                },
            };
            if is_arg(&arg, "-c") || is_arg(&arg, "--config") {
                match pareg_next_path(args) {
                    Ok(v) => {
                        parsed.config = v;
                        assert(toks.skip(2) =~= toks.drop_first().drop_first());
                    },
                    Err(e) => {
                        return Err(e);
                    },
                }
            } else {
                parsed.img = Some(arg);
                assert(toks.skip(1) =~= toks.drop_first());
            }
        }
    }
}

} // verus!
