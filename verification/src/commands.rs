//! The decisions of the command line tool: which action runs, what a run
//! does with its target, which templates are built and what is printed.
//!
//! Reading files, extracting colors from images, generating themes and
//! printing are left to the caller, which hands the results back here.

use vstd::prelude::*;
use crate::args::action::{Action, Run};
use crate::args::args_struct::Args;
use crate::cache::{Cache, cache_file_spec};
use crate::config::{Config, NamedTemplate, config_file_spec, names_distinct};
use crate::error::Error;
use crate::hex::{hex_slicing_panics, hex_spec, parse_hex_rgb, parse_hex_spec};
use crate::order::{sort_texts, sorted, texts};
use crate::paths::{copy_opt, opt_view};
use crate::template::Template;
use crate::template::color::hex;
use crate::theme::{ThemeType, ansi_background, ansi_background_spec};

verus! {

/// What a command line asks for.
pub enum Dispatch<'a> {
    /// Print the version.
    Version,
    /// Print the help.
    Help,
    /// Extract or read a color, generate a theme and build templates.
    Run(&'a Run),
    /// List the configured templates.
    List,
    /// Open the configuration file.
    Config,
    /// Print the location of the default configuration file.
    ConfigPath,
    /// Remove the color cache.
    ClearCache,
}

/// Decides what a parsed command line asks for: the version flag first,
/// then the help flag or a missing action, then the action.
pub fn run<'a>(args: &'a Args) -> (d: Dispatch<'a>)
    ensures
        args.version ==> d is Version,
        !args.version && (args.help || args.action is None) ==> d is Help,
        !args.version && !args.help ==> match args.action {
            Some(Action::Run(r)) => d == Dispatch::Run(&r),
            Some(Action::List) => d is List,
            Some(Action::Config { path }) => if path {
                d is ConfigPath
            } else {
                d is Config
            },
            Some(Action::ClearCache) => d is ClearCache,
            None => d is Help,
        },
{
    if args.version {
        return Dispatch::Version;
    }
    if args.help {
        return Dispatch::Help;
    }
    match &args.action {
        None => Dispatch::Help,
        Some(Action::Run(r)) => Dispatch::Run(r),
        Some(Action::List) => Dispatch::List,
        Some(Action::Config { path }) => if *path {
            Dispatch::ConfigPath
        } else {
            Dispatch::Config
        },
        Some(Action::ClearCache) => Dispatch::ClearCache,
    }
}

/// What the target of a run is: a color given as hex, or else the path of an
/// image to extract one from.
pub enum RunTarget {
    Color((u8, u8, u8)),
    Image(String),
}

/// Reads the target of a run: text that reads as a hex color is that color,
/// anything else is an image path.
pub fn run_target(target: &str) -> (r: RunTarget)
    requires
        !hex_slicing_panics(target@),
    ensures
        match parse_hex_spec(target@) {
            Some(c) => r == RunTarget::Color(c),
            None => r matches RunTarget::Image(p) && p@ == target@,
        },
{
    match parse_hex_rgb(target) {
        Some(c) => RunTarget::Color(c),
        None => RunTarget::Image(String::from_str(target)),
    }
}

/// What a run does once its color is known.
#[derive(Debug, Clone, Copy, PartialEq, Eq, Structural)]
pub enum RunPlan {
    /// `--extract-only` was given a color rather than an image: an error.
    RejectColorInput,
    /// `--extract-only`: print the color and stop.
    PrintColor,
    /// Generate a theme of the given type, build the templates if `build`,
    /// and print the theme if `print`.
    Theme { theme_type: ThemeType, build: bool, print: bool },
}

/// Decides what a run does once its color is known: `--extract-only` prints
/// the color (and refuses a color given as input); otherwise a theme of the
/// type asked for (or the configured one) is generated, the templates are
/// built unless `--skip-build`, and the theme is printed when the build is
/// skipped or the tool is not quiet.
pub fn run_plan(run: &Run, config_theme: ThemeType, quiet: bool, color_input: bool) -> (r: RunPlan)
    ensures
        run.extract_only && color_input ==> r == RunPlan::RejectColorInput,
        run.extract_only && !color_input ==> r == RunPlan::PrintColor,
        !run.extract_only ==> r == (RunPlan::Theme {
            theme_type: match run.theme {
                Some(t) => t,
                None => config_theme,
            },
            build: !run.skip_build,
            print: run.skip_build || !quiet,
        }),
{
    let theme_type = match run.theme {
        Some(t) => t,
        None => config_theme,
    };
    if run.extract_only {
        if color_input {
            return RunPlan::RejectColorInput;
        }
        return RunPlan::PrintColor;
    }
    RunPlan::Theme { theme_type, build: !run.skip_build, print: run.skip_build || !quiet }
}

/// What `--extract-only` prints for a color: unless quiet a swatch, then the
/// hex code on a line of its own.
pub open spec fn extract_only_spec(quiet: bool, c: (u8, u8, u8)) -> Seq<char> {
    (if quiet {
        Seq::empty()
    } else {
        ansi_background_spec(c) + "  \x1b[0m "@
    }) + hex_spec(c) + seq!['\n']
}

/// Writes what `--extract-only` prints for a color (given as the sRGB bytes
/// it displays as).
pub fn extract_only_text(quiet: bool, c: (u8, u8, u8)) -> (s: String)
    ensures
        s@ == extract_only_spec(quiet, c),
{
    let mut s = String::new();
    if !quiet {
        let sw = ansi_background(c);
        s.append(sw.as_str());
        s.append("  \x1b[0m ");
    }
    let h = hex(c);
    s.append(h.as_str());
    s.append("\n");
    proof {
        reveal_strlit("\n");
    }
    assert(s@ =~= extract_only_spec(quiet, c));
    s
}

/// The message printed when no templates are configured.
pub open spec fn no_templates_message() -> Seq<char> {
    "No templates found in you configuration file."@
}

/// The lines that list templates by name: a heading, then ` - name` for each
/// name, in order.
pub open spec fn list_lines(names: Seq<Seq<char>>) -> Seq<Seq<char>> {
    seq!["Available templates:"@] + names.map_values(|n: Seq<char>| " - "@ + n)
}

/// Writes the listing of the configured templates: a message when there
/// are none, or else a heading and the names in order, each name once for
/// every time it was given.
pub fn list_text(names: &Vec<String>) -> (r: Vec<String>)
    ensures
        names@.len() == 0 ==> texts(r@) == seq![no_templates_message()],
        names@.len() > 0 ==> exists|s: Seq<Seq<char>>|
            {
                &&& sorted(s)
                &&& s.to_multiset() == texts(names@).to_multiset()
                &&& texts(r@) == list_lines(s)
            },
{
    let mut r: Vec<String> = Vec::new();
    if names.len() == 0 {
        r.push(String::from_str("No templates found in you configuration file."));
        assert(texts(r@) =~= seq![no_templates_message()]);
        return r;
    }
    let sorted_names = sort_texts(names);
    r.push(String::from_str("Available templates:"));
    let n = sorted_names.len();
    let ghost s = texts(sorted_names@);
    let mut i: usize = 0;
    while i < n
        invariant
            i <= n,
            n == sorted_names@.len(),
            s == texts(sorted_names@),
            texts(r@) == list_lines(s.take(i as int)),
        decreases n - i,
    {
        let mut line = String::from_str(" - ");
        line.append(sorted_names[i].as_str());
        let ghost prev = r@;
        r.push(line);
        proof {
            assert(s.take(i + 1) =~= s.take(i as int).push(s[i as int]));
            assert(texts(r@) =~= texts(prev).push(" - "@ + s[i as int]));
            assert(list_lines(s.take(i + 1)) =~= list_lines(s.take(i as int)).push(
                " - "@ + s[i as int],
            ));
        }
        i = i + 1;
    }
    assert(s.take(n as int) =~= s);
    r
}

/// A named template as text: name, source, target and hook.
pub open spec fn named_view(t: NamedTemplate) -> (Seq<char>, Seq<char>, Seq<char>, Option<Seq<char>>) {
    (t.0@, t.1.source@, t.1.target@, opt_view(t.1.hook))
}

/// The named templates as text.
pub open spec fn named_views(s: Seq<NamedTemplate>) -> Seq<(Seq<char>, Seq<char>, Seq<char>, Option<Seq<char>>)> {
    s.map_values(|t: NamedTemplate| named_view(t))
}

/// The templates whose name is one of `wanted`, in order.
pub open spec fn keep_wanted(s: Seq<NamedTemplate>, wanted: Seq<Seq<char>>) -> Seq<
    (Seq<char>, Seq<char>, Seq<char>, Option<Seq<char>>),
>
    decreases s.len(),
{
    if s.len() == 0 {
        Seq::empty()
    } else if wanted.contains(s.last().0@) {
        keep_wanted(s.drop_last(), wanted).push(named_view(s.last()))
    } else {
        keep_wanted(s.drop_last(), wanted)
    }
}

/// No two of the templates, given as text, share a name.
pub open spec fn view_names_distinct(s: Seq<(Seq<char>, Seq<char>, Seq<char>, Option<Seq<char>>)>) -> bool {
    forall|i: int, j: int| 0 <= i < j < s.len() ==> #[trigger] s[i].0 != #[trigger] s[j].0
}

proof fn lemma_keep_wanted_from(s: Seq<NamedTemplate>, wanted: Seq<Seq<char>>, k: int)
    requires
        0 <= k < keep_wanted(s, wanted).len(),
    ensures
        exists|i: int| 0 <= i < s.len() && #[trigger] named_view(s[i]) == keep_wanted(s, wanted)[k],
    decreases s.len(),
{
    if s.len() > 0 {
        let rest = keep_wanted(s.drop_last(), wanted);
        if k < rest.len() {
            lemma_keep_wanted_from(s.drop_last(), wanted, k);
            let i = choose|i: int| 0 <= i < s.drop_last().len() && #[trigger] named_view(s.drop_last()[i]) == rest[k];
            assert(s.drop_last()[i] == s[i]);
            assert(named_view(s[i]) == keep_wanted(s, wanted)[k]);
        } else {
            assert(named_view(s[s.len() - 1]) == keep_wanted(s, wanted)[k]);
        }
    }
}

/// Whether a template, given as text, has one of the wanted names.
pub open spec fn name_wanted(wanted: Seq<Seq<char>>) -> spec_fn((Seq<char>, Seq<char>, Seq<char>, Option<Seq<char>>)) -> bool {
    |v: (Seq<char>, Seq<char>, Seq<char>, Option<Seq<char>>)| wanted.contains(v.0)
}

/// The templates chosen by name are exactly the configured templates whose
/// name is equal to one of the wanted names, in their configured order: every
/// chosen template has a wanted name, and every configured template with a
/// wanted name is chosen.
pub proof fn law_selection_by_exact_name(s: Seq<NamedTemplate>, wanted: Seq<Seq<char>>)
    ensures
        keep_wanted(s, wanted) == named_views(s).filter(name_wanted(wanted)),
        forall|k: int|
            0 <= k < keep_wanted(s, wanted).len() ==> wanted.contains(
                (#[trigger] keep_wanted(s, wanted)[k]).0,
            ),
        forall|i: int|
            0 <= i < s.len() && wanted.contains(#[trigger] s[i].0@) ==> keep_wanted(
                s,
                wanted,
            ).contains(named_view(s[i])),
    decreases s.len(),
{
    reveal(Seq::filter);
    let vs = named_views(s);
    if s.len() > 0 {
        law_selection_by_exact_name(s.drop_last(), wanted);
        assert(vs.drop_last() =~= named_views(s.drop_last()));
        assert(vs.last() == named_view(s.last()));
    } else {
        assert(vs =~= Seq::empty());
    }
    let kept = keep_wanted(s, wanted);
    assert(kept == vs.filter(name_wanted(wanted)));
    assert forall|k: int| 0 <= k < kept.len() implies wanted.contains((#[trigger] kept[k]).0) by {
        vs.lemma_filter_pred(name_wanted(wanted), k);
    }
    assert forall|i: int| 0 <= i < s.len() && wanted.contains(#[trigger] s[i].0@) implies kept.contains(
        named_view(s[i]),
    ) by {
        assert(vs[i] == named_view(s[i]));
        vs.lemma_filter_contains(name_wanted(wanted), i);
    }
}

/// Choosing templates by name keeps names distinct: what is chosen from
/// templates with distinct names has distinct names.
pub proof fn law_selection_keeps_names_distinct(s: Seq<NamedTemplate>, wanted: Seq<Seq<char>>)
    requires
        names_distinct(s),
    ensures
        view_names_distinct(named_views(s)),
        view_names_distinct(keep_wanted(s, wanted)),
    decreases s.len(),
{
    assert forall|i: int, j: int| 0 <= i < j < named_views(s).len() implies #[trigger] named_views(s)[i].0
        != #[trigger] named_views(s)[j].0 by {
        assert(s[i].0@ != s[j].0@);
    }
    if s.len() > 0 {
        let init = s.drop_last();
        assert(names_distinct(init)) by {
            assert forall|i: int, j: int| 0 <= i < j < init.len() implies #[trigger] init[i].0@ != #[trigger] init[j].0@ by {
                assert(init[i] == s[i] && init[j] == s[j]);
            }
        }
        law_selection_keeps_names_distinct(init, wanted);
        let rest = keep_wanted(init, wanted);
        let kept = keep_wanted(s, wanted);
        if wanted.contains(s.last().0@) {
            assert forall|i: int, j: int| 0 <= i < j < kept.len() implies #[trigger] kept[i].0 != #[trigger] kept[j].0 by {
                if j < rest.len() {
                    assert(kept[i] == rest[i] && kept[j] == rest[j]);
                } else {
                    lemma_keep_wanted_from(init, wanted, i);
                    let m = choose|m: int| 0 <= m < init.len() && #[trigger] named_view(init[m]) == rest[i];
                    assert(kept[i] == rest[i]);
                    assert(init[m] == s[m]);
                    assert(s[m].0@ != s[s.len() - 1].0@);
                }
            }
        }
    }
}

fn copy_named(t: &NamedTemplate) -> (r: NamedTemplate)
    ensures
        named_view(r) == named_view(*t),
{
    (t.0.clone(), Template { source: t.1.source.clone(), target: t.1.target.clone(), hook: copy_opt(&t.1.hook) })
}

fn is_wanted(name: &String, wanted: &Vec<String>) -> (r: bool)
    ensures
        r == texts(wanted@).contains(name@),
{
    let n = wanted.len();
    for i in 0..n
        invariant
            n == wanted@.len(),
            forall|j: int| 0 <= j < i ==> #[trigger] wanted@[j]@ != name@,
    {
        if wanted[i] == *name {
            assert(texts(wanted@)[i as int] == name@);
            return true;
        }
    }
    assert forall|j: int| 0 <= j < texts(wanted@).len() implies #[trigger] texts(wanted@)[j] != name@ by {
        assert(texts(wanted@)[j] == wanted@[j]@);
    }
    false
}

/// Chooses the templates to build: all of them when no names are given;
/// otherwise those whose name is given, in their configured order, and
/// `None` when no configured template has one of the names.
pub fn select_templates(templates: &Vec<NamedTemplate>, wanted: &Vec<String>) -> (r: Option<
    Vec<NamedTemplate>,
>)
    ensures
        wanted@.len() == 0 ==> (r matches Some(v) && named_views(v@) == named_views(templates@)),
        wanted@.len() > 0 ==> {
            let kept = keep_wanted(templates@, texts(wanted@));
            &&& kept.len() == 0 ==> r is None
            &&& kept.len() > 0 ==> (r matches Some(v) && named_views(v@) == kept)
            &&& r matches Some(v) ==> named_views(v@) == named_views(templates@).filter(
                name_wanted(texts(wanted@)),
            )
        },
{
    let n = templates.len();
    let mut out: Vec<NamedTemplate> = Vec::new();
    let all = wanted.len() == 0;
    let mut i: usize = 0;
    while i < n
        invariant
            i <= n,
            n == templates@.len(),
            all == (wanted@.len() == 0),
            all ==> named_views(out@) == named_views(templates@.take(i as int)),
            !all ==> named_views(out@) == keep_wanted(templates@.take(i as int), texts(wanted@)),
        decreases n - i,
    {
        let ghost prev = out@;
        proof {
            assert(templates@.take(i + 1).drop_last() =~= templates@.take(i as int));
            assert(templates@.take(i + 1).last() == templates@[i as int]);
        }
        if all || is_wanted(&templates[i].0, wanted) {
            out.push(copy_named(&templates[i]));
            proof {
                assert(named_views(out@) =~= named_views(prev).push(named_view(templates@[i as int])));
                assert(named_views(templates@.take(i + 1)) =~= named_views(templates@.take(i as int)).push(
                    named_view(templates@[i as int]),
                ));
            }
        }
        i = i + 1;
    }
    assert(templates@.take(n as int) =~= templates@);
    proof {
        law_selection_by_exact_name(templates@, texts(wanted@));
    }
    if !all && out.len() == 0 {
        None
    } else {
        Some(out)
    }
}

/// The message given when no color could be had.
pub open spec fn no_color_message() -> Seq<char> {
    "Failed to extract sufficient color and no fallback color set"@
}

/// The color a run goes on with: the extracted one, or else the configured
/// fallback color, or else an error.
pub fn choose_color(extracted: Option<(u8, u8, u8)>, config: &Config) -> (r: Result<
    (u8, u8, u8),
    Error,
>)
    requires
        extracted is None ==> (config.fallback_color matches Some(s) ==> !hex_slicing_panics(s@)),
    ensures
        match extracted {
            Some(c) => r matches Ok(x) && x == c,
            None => match (match config.fallback_color {
                Some(s) => parse_hex_spec(s@),
                None => None,
            }) {
                Some(c) => r matches Ok(x) && x == c,
                None => r matches Err(Error::Msg(m)) && m@ == no_color_message(),
            },
        },
{
    match extracted {
        Some(c) => Ok(c),
        None => match config.fallback_color() {
            Some(c) => Ok(c),
            None => Err(Error::Msg(String::from_str("Failed to extract sufficient color and no fallback color set"))),
        },
    }
}

/// The cache file that `clear-cache` removes: the configured cache path, or
/// else the default cache file.
pub fn clear_cache_path(config: &Config) -> (r: String)
    ensures
        match config.cache_dir {
            Some(d) => r@ == d@,
            None => exists|base: Option<Seq<char>>| r@ == cache_file_spec(base),
        },
{
    match &config.cache_dir {
        Some(d) => d.clone(),
        None => Cache::file(),
    }
}

/// What `clear-cache` reports: whether there was a cache file to remove.
pub fn clear_cache_message(existed: bool) -> (r: &'static str)
    ensures
        existed ==> r@ == "Cache cleared successfully!"@,
        !existed ==> r@ == "Cache was already empty."@,
{
    if existed {
        "Cache cleared successfully!"
    } else {
        "Cache was already empty."
    }
}

/// The configuration file that `config` opens: the one given on the command
/// line, or else the default one.
pub fn config_file_path(given: &Option<String>) -> (r: String)
    ensures
        match given {
            Some(p) => r@ == p@,
            None => exists|base: Option<Seq<char>>| r@ == config_file_spec(base),
        },
{
    match given {
        Some(p) => p.clone(),
        None => Config::file(),
    }
}

} // verus!
