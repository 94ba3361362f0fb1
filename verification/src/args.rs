//! Reading the command line.
//!
//! [`Args`] here reads the flags `-i`, `-c`, `-v` and `-h` from a list of
//! arguments; the tool's present command line is [`args_struct::Args`].

pub mod action;
pub mod args_struct;
pub mod config;
pub mod extract;
pub mod run;

use vstd::prelude::*;

verus! {

/// A message that reading the flags asks to be printed.
#[derive(Debug, Clone, Copy, PartialEq, Eq, Structural)]
pub enum Notice {
    /// `-v`, `--version`: the version.
    Version,
    /// `h`, `-h`, `--help`: the help.
    Help,
}

/// `pareg::Pareg`, the cursor over the command line arguments.
#[verifier::external_type_specification]
#[verifier::external_body]
pub struct ExPareg(pareg::Pareg);

/// `pareg::ArgError`, an error of reading arguments.
#[verifier::external_type_specification]
#[verifier::external_body]
pub struct ExArgError(pareg::ArgError);

/// All the arguments a `Pareg` holds, read or not.
pub uninterp spec fn pareg_args(p: pareg::Pareg) -> Seq<Seq<char>>;

/// The arguments a `Pareg` has not handed out yet.
pub uninterp spec fn pareg_rest(p: pareg::Pareg) -> Seq<Seq<char>>;

/// The error `pareg` reports, with the message `msg`, for an argument `arg`
/// that nothing expects.
pub uninterp spec fn unknown_argument_error(msg: Seq<char>, arg: Seq<char>) -> pareg::ArgError;

/// The error `Pareg::next_arg` reports when the arguments ran out; it quotes
/// all the arguments.
pub uninterp spec fn no_more_arguments_error(args: Seq<Seq<char>>) -> pareg::ArgError;

/// `Pareg::next`: hands out the next argument, if any, and moves past it.
#[verifier::external_body]
pub(crate) fn pareg_next(p: &mut pareg::Pareg) -> (r: Option<String>)
    ensures
        pareg_args(*final(p)) == pareg_args(*old(p)),
        pareg_rest(*old(p)).len() == 0 ==> r is None && pareg_rest(*final(p)) == pareg_rest(
            *old(p),
        ),
        pareg_rest(*old(p)).len() > 0 ==> (r matches Some(t) && t@ == pareg_rest(*old(p))[0])
            && pareg_rest(*final(p)) == pareg_rest(*old(p)).drop_first(),
{
    match p.next() {
        Some(s) => Some(s.to_string()),
        None => None,
    }
}

/// `Pareg::next_arg::<Option<PathBuf>>`: reads the next argument as a path,
/// the empty text standing for no path; when the arguments ran out it
/// reports the error that quotes them all and moves nowhere.
#[verifier::external_body]
pub(crate) fn pareg_next_path(p: &mut pareg::Pareg) -> (r: Result<Option<String>, pareg::ArgError>)
    ensures
        pareg_args(*final(p)) == pareg_args(*old(p)),
        pareg_rest(*old(p)).len() == 0 ==> r == Err::<Option<String>, pareg::ArgError>(
            no_more_arguments_error(pareg_args(*old(p))),
        ) && pareg_rest(*final(p)) == pareg_rest(*old(p)),
        pareg_rest(*old(p)).len() > 0 ==> (r matches Ok(x) && opt_seq(x) == path_value(
            pareg_rest(*old(p))[0],
        )) && pareg_rest(*final(p)) == pareg_rest(*old(p)).drop_first(),
{
    match p.next_arg::<Option<std::path::PathBuf>>() {
        Ok(Some(v)) => Ok(Some(v.to_string_lossy().into_owned())),
        Ok(None) => Ok(None),
        Err(e) => Err(e),
    }
}

/// `ArgError::UnknownArgument` made by `ArgErrCtx::from_msg` with the given
/// message and argument.
#[verifier::external_body]
pub(crate) fn unknown_argument(msg: &'static str, arg: &str) -> (r: pareg::ArgError)
    ensures
        r == unknown_argument_error(msg@, arg@),
{
    pareg::ArgError::UnknownArgument(Box::new(pareg::ArgErrCtx::from_msg(msg, arg.to_string())))
}

/// The flags read from the arguments.
#[derive(Debug, Clone)]
pub struct Args {
    pub img: Option<String>,
    pub config: Option<String>,
    pub should_quit: bool,
}

/// What the flags read so far say.
pub struct ArgsView {
    pub img: Option<Seq<char>>,
    pub config: Option<Seq<char>>,
    pub should_quit: bool,
}

/// Why reading stopped, as text.
pub enum ProblemView {
    UnknownArgument(Seq<char>),
    NoMoreArguments,
}

/// The text of an optional path.
pub open spec fn opt_seq(o: Option<String>) -> Option<Seq<char>> {
    match o {
        Some(s) => Some(s@),
        None => None,
    }
}

impl Args {
    /// The flags as text.
    pub open spec fn view_of(self) -> ArgsView {
        ArgsView { img: opt_seq(self.img), config: opt_seq(self.config), should_quit: self.should_quit }
    }
}

/// A path value read from an argument: the empty text stands for no path.
pub open spec fn path_value(a: Seq<char>) -> Option<Seq<char>> {
    if a.len() == 0 {
        None
    } else {
        Some(a)
    }
}

/// Reading the flags from `toks`, with the flags read so far in `st` and
/// the messages asked for so far in `notes`.
pub open spec fn parse_flags(toks: Seq<Seq<char>>, st: ArgsView, notes: Seq<Notice>) -> (
    Seq<Notice>,
    Result<ArgsView, ProblemView>,
)
    decreases toks.len(),
{
    if toks.len() == 0 {
        (notes, Ok(st))
    } else {
        let t = toks[0];
        if t == "-i"@ || t == "--image"@ {
            if toks.len() > 1 {
                parse_flags(toks.skip(2), ArgsView { img: path_value(toks[1]), ..st }, notes)
            } else {
                (notes, Err(ProblemView::NoMoreArguments))
            }
        } else if t == "-c"@ || t == "--config"@ {
            if toks.len() > 1 {
                parse_flags(toks.skip(2), ArgsView { config: path_value(toks[1]), ..st }, notes)
            } else {
                (notes, Err(ProblemView::NoMoreArguments))
            }
        } else if t == "-v"@ || t == "--version"@ {
            parse_flags(toks.skip(1), ArgsView { should_quit: true, ..st }, notes.push(Notice::Version))
        } else if t == "h"@ || t == "-h"@ || t == "--help"@ {
            parse_flags(toks.skip(1), ArgsView { should_quit: true, ..st }, notes.push(Notice::Help))
        } else {
            (notes, Err(ProblemView::UnknownArgument(t)))
        }
    }
}

/// The error value that a problem is reported with.
pub open spec fn problem_error(p: ProblemView, all: Seq<Seq<char>>) -> pareg::ArgError {
    match p {
        ProblemView::UnknownArgument(t) => unknown_argument_error("invalid argument"@, t),
        ProblemView::NoMoreArguments => no_more_arguments_error(all),
    }
}

/// Whether an argument is the given literal.
pub fn is_arg(arg: &String, lit: &str) -> (r: bool)
    ensures
        r == (arg@ == lit@),
{
    *arg == String::from_str(lit)
}

impl Args {
    /// Reads the flags from the arguments, in order. `-i`/`--image` and
    /// `-c`/`--config` take the next argument as their value; `-v`/`--version`
    /// and `h`/`-h`/`--help` ask for a message and to quit. Any other
    /// argument stops the reading with an error. The messages asked for
    /// before the reading stopped are returned as well.
    pub fn parse(args: pareg::Pareg) -> (r: (Vec<Notice>, Result<Args, pareg::ArgError>))
        ensures
            ({
                let (notes, res) = parse_flags(
                    pareg_rest(args),
                    ArgsView { img: None, config: None, should_quit: false },
                    Seq::empty(),
                );
                &&& r.0@ == notes
                &&& match (r.1, res) {
                    (Ok(a), Ok(v)) => a.view_of() == v,
                    (Err(e), Err(p)) => e == problem_error(p, pareg_args(args)),
                    _ => false,
                }
            }),
    {
        let mut p = args;
        let ghost all = pareg_args(args);
        let ghost goal = parse_flags(
            pareg_rest(args),
            ArgsView { img: None, config: None, should_quit: false },
            Seq::empty(),
        );
        let mut parsed = Args { img: None, config: None, should_quit: false };
        let mut notes: Vec<Notice> = Vec::new();
        loop
            invariant
                all == pareg_args(args),
                goal == parse_flags(
                    pareg_rest(args),
                    ArgsView { img: None, config: None, should_quit: false },
                    Seq::empty(),
                ),
                pareg_args(p) == all,
                goal == parse_flags(pareg_rest(p), parsed.view_of(), notes@),
            decreases pareg_rest(p).len(),
        {
            proof {
                reveal_strlit("-i");
                reveal_strlit("--image");
                reveal_strlit("-c");
                reveal_strlit("--config");
                reveal_strlit("-v");
                reveal_strlit("--version");
                reveal_strlit("h");
                reveal_strlit("-h");
                reveal_strlit("--help");
            }
            let ghost toks = pareg_rest(p);
            let arg = match pareg_next(&mut p) {
                Some(a) => a,
                None => {
                    return (notes, Ok(parsed));
                },
            };
            if is_arg(&arg, "-i") || is_arg(&arg, "--image") {
                match pareg_next_path(&mut p) {
                    Ok(v) => {
                        parsed.img = v;
                        assert(toks.skip(2) =~= toks.drop_first().drop_first());
                    },
                    Err(e) => {
                        return (notes, Err(e));
                    },
                }
            } else if is_arg(&arg, "-c") || is_arg(&arg, "--config") {
                match pareg_next_path(&mut p) {
                    Ok(v) => {
                        parsed.config = v;
                        assert(toks.skip(2) =~= toks.drop_first().drop_first());
                    },
                    Err(e) => {
                        return (notes, Err(e));
                    },
                }
            } else if is_arg(&arg, "-v") || is_arg(&arg, "--version") {
                parsed.should_quit = true;
                notes.push(Notice::Version);
                assert(toks.skip(1) =~= toks.drop_first());
            } else if is_arg(&arg, "h") || is_arg(&arg, "-h") || is_arg(&arg, "--help") {
                parsed.should_quit = true;
                notes.push(Notice::Help);
                assert(toks.skip(1) =~= toks.drop_first());
            } else {
                proof {
                    reveal_strlit("invalid argument");
                }
                return (notes, Err(unknown_argument("invalid argument", arg.as_str())));
            }
        }
    }
}

} // verus!
