//! The settings of the tool that decide where templates are, which theme to
//! generate and what to fall back to.
//!
//! The numeric tuning of the extraction travels beside these settings and is
//! not read here.

use vstd::prelude::*;
use crate::hex::{hex_slicing_panics, parse_hex_rgb, parse_hex_spec};
use crate::paths::{
    config_dir, copy_opt, expand_tilde, expand_tilde_spec, home_dir, is_absolute, is_absolute_spec, join,
    join_spec, opt_view,
};
use crate::template::Template;
use crate::theme::ThemeType;

verus! {

/// A named template of the configuration.
pub type NamedTemplate = (String, Template);

/// The configuration directory: `gecol` inside `base`, or inside `.` where
/// the system names no configuration directory.
pub open spec fn config_dir_spec(base: Option<Seq<char>>) -> Seq<char> {
    match base {
        Some(b) => join_spec(b, "gecol"@),
        None => join_spec("."@, "gecol"@),
    }
}

/// The configuration file: `config.toml` inside the configuration directory.
pub open spec fn config_file_spec(base: Option<Seq<char>>) -> Seq<char> {
    join_spec(config_dir_spec(base), "config.toml"@)
}

/// The templates directory when none is configured: `templates` inside the
/// configuration directory.
pub open spec fn default_templates_dir_spec(base: Option<Seq<char>>) -> Seq<char> {
    join_spec(config_dir_spec(base), "templates"@)
}

/// Where a template's source ends up: after `~` is expanded, a relative path
/// is taken inside the templates directory.
pub open spec fn resolved_source(src: Seq<char>, dir: Seq<char>, home: Seq<char>) -> Seq<char> {
    let s = expand_tilde_spec(src, home);
    if is_absolute_spec(s) {
        s
    } else {
        join_spec(dir, s)
    }
}

/// Where a template's target ends up: after `~` is expanded, a relative path
/// is taken inside the home directory.
pub open spec fn resolved_target(tgt: Seq<char>, home: Seq<char>) -> Seq<char> {
    let t = expand_tilde_spec(tgt, home);
    if is_absolute_spec(t) {
        t
    } else {
        join_spec(home, t)
    }
}

/// No two templates share a name, as in the configuration file, where the
/// templates are a table keyed by name.
pub open spec fn names_distinct(s: Seq<NamedTemplate>) -> bool {
    forall|i: int, j: int| 0 <= i < j < s.len() ==> #[trigger] s[i].0@ != #[trigger] s[j].0@
}

/// `dir` is the templates directory that relative sources go into: the
/// configured one, or else `templates` inside the configuration directory.
pub open spec fn templates_dir_is(configured: Option<Seq<char>>, dir: Seq<char>) -> bool {
    match configured {
        Some(d) => dir == d,
        None => exists|base: Option<Seq<char>>| dir == default_templates_dir_spec(base),
    }
}

/// `new` is the template `old` with its paths resolved against the
/// templates directory `dir` and the home directory `home`, its name and
/// hook kept.
pub open spec fn template_resolved(
    new: NamedTemplate,
    old: NamedTemplate,
    dir: Seq<char>,
    home: Seq<char>,
) -> bool {
    &&& new.0@ == old.0@
    &&& new.1.source@ == resolved_source(old.1.source@, dir, home)
    &&& new.1.target@ == resolved_target(old.1.target@, home)
    &&& opt_view(new.1.hook) == opt_view(old.1.hook)
}

/// `new` is `old` with every template's paths resolved against the
/// templates directory `dir` and the home directory `home`, names, hooks and
/// order kept.
pub open spec fn templates_resolved(
    old: Seq<NamedTemplate>,
    new: Seq<NamedTemplate>,
    dir: Seq<char>,
    home: Seq<char>,
) -> bool {
    &&& new.len() == old.len()
    &&& forall|i: int| 0 <= i < new.len() ==> template_resolved(#[trigger] new[i], old[i], dir, home)
}

/// Holds the settings of the tool.
#[derive(Debug)]
pub struct Config {
    /// Fallback color when extraction fails to extract a color.
    pub fallback_color: Option<String>,
    /// Which theme type to use.
    pub theme_type: ThemeType,
    /// List of templates to be built, each under its name.
    pub templates: Vec<NamedTemplate>,
    /// Path to the directory containing the templates.
    /// `~/.config/gecol/templates` by default on linux.
    pub templates_dir: Option<String>,
    /// Path to the directory containing cached colors for faster repeated
    /// extraction.
    pub cache_dir: Option<String>,
    /// Whether no color cache should be used.
    pub no_cache: bool,
}

impl Default for Config {
    fn default() -> (r: Self)
        ensures
            r.fallback_color is None,
            r.theme_type == ThemeType::Dark,
            r.templates@.len() == 0,
            r.templates_dir is None,
            r.cache_dir is None,
            !r.no_cache,
    {
        Config {
            fallback_color: None,
            theme_type: ThemeType::Dark,
            templates: Vec::new(),
            templates_dir: None,
            cache_dir: None,
            no_cache: false,
        }
    }
}

impl Config {
    /// The configuration directory below a given system configuration
    /// directory (or below `.` when there is none).
    pub fn dir_from(base: Option<String>) -> (r: String)
        ensures
            r@ == config_dir_spec(opt_view(base)),
    {
        match base {
            Some(b) => join(b.as_str(), "gecol"),
            None => join(".", "gecol"),
        }
    }

    /// Gets the default config directory.
    ///
    /// It is `gecol` folder inside of the config directory
    /// (e.g. `.config` on linux)
    pub fn dir() -> (r: String)
        ensures
            exists|base: Option<Seq<char>>| r@ == config_dir_spec(base),
    {
        let base = config_dir();
        let ghost b = opt_view(base);
        let r = Self::dir_from(base);
        assert(r@ == config_dir_spec(b));
        r
    }

    /// Gets the default config file path: `config.toml` inside
    /// [`Config::dir`].
    pub fn file() -> (r: String)
        ensures
            exists|base: Option<Seq<char>>| r@ == config_file_spec(base),
    {
        let base = config_dir();
        let ghost b = opt_view(base);
        let d = Self::dir_from(base);
        let r = join(d.as_str(), "config.toml");
        assert(r@ == config_file_spec(b));
        r
    }

    /// Gets the templates directory.
    ///
    /// If the templates directory is not set, it uses `templates` directory
    /// inside the default config directory.
    pub fn templates_dir(&self) -> (r: String)
        ensures
            match self.templates_dir {
                Some(d) => r@ == d@,
                None => exists|base: Option<Seq<char>>| r@ == default_templates_dir_spec(base),
            },
    {
        match &self.templates_dir {
            Some(dir) => dir.clone(),
            None => {
                let base = config_dir();
                let ghost b = opt_view(base);
                let d = Self::dir_from(base);
                let r = join(d.as_str(), "templates");
                assert(r@ == default_templates_dir_spec(b));
                r
            },
        }
    }

    /// Gets the fallback color as RGB tuple. Returns `None` if conversion
    /// fails or fallback color was not set.
    pub fn fallback_color(&self) -> (r: Option<(u8, u8, u8)>)
        requires
            self.fallback_color matches Some(s) ==> !hex_slicing_panics(s@),
        ensures
            r == (match self.fallback_color {
                Some(s) => parse_hex_spec(s@),
                None => None,
            }),
    {
        match &self.fallback_color {
            Some(s) => parse_hex_rgb(s.as_str()),
            None => None,
        }
    }

    /// Resolves the template paths against the given templates directory
    /// and home directory.
    ///
    /// A leading `~` stands for the home directory; then a source that is
    /// not absolute is taken inside the templates directory, and a target
    /// that is not absolute inside the home directory.
    pub fn resolve_paths_in(&mut self, templates_dir: &str, home_dir: &str)
        ensures
            templates_resolved(old(self).templates@, final(self).templates@, templates_dir@, home_dir@),
            final(self).fallback_color == old(self).fallback_color,
            final(self).theme_type == old(self).theme_type,
            final(self).templates_dir == old(self).templates_dir,
            final(self).cache_dir == old(self).cache_dir,
            final(self).no_cache == old(self).no_cache,
    {
        let mut old_templates: Vec<NamedTemplate> = Vec::new();
        std::mem::swap(&mut old_templates, &mut self.templates);
        let ghost before = old_templates@;
        let mut out: Vec<NamedTemplate> = Vec::new();
        let n = old_templates.len();
        let mut i: usize = 0;
        while i < n
            invariant
                n == old_templates@.len(),
                before == old_templates@,
                i <= n,
                out@.len() == i,
                forall|j: int|
                    0 <= j < i ==> template_resolved(#[trigger] out@[j], before[j], templates_dir@, home_dir@),
            decreases n - i,
        {
            let name = old_templates[i].0.clone();
            let mut source = old_templates[i].1.source.clone();
            let mut target = old_templates[i].1.target.clone();
            let hook = copy_opt(&old_templates[i].1.hook);
            expand_tilde(&mut source, home_dir);
            expand_tilde(&mut target, home_dir);
            if !is_absolute(source.as_str()) {
                source = join(templates_dir, source.as_str());
            }
            if !is_absolute(target.as_str()) {
                target = join(home_dir, target.as_str());
            }
            assert(source@ == resolved_source(before[i as int].1.source@, templates_dir@, home_dir@));
            assert(target@ == resolved_target(before[i as int].1.target@, home_dir@));
            let ghost prev = out@;
            let ghost nv = name@;
            let ghost sv = source@;
            let ghost tv = target@;
            let ghost hv = opt_view(hook);
            let entry = (name, Template { source, target, hook });
            out.push(entry);
            proof {
                assert forall|j: int| 0 <= j < i + 1 implies template_resolved(
                    #[trigger] out@[j],
                    before[j],
                    templates_dir@,
                    home_dir@,
                ) by {
                    if j < i {
                        assert(out@[j] == prev[j]);
                    } else {
                        assert(out@[j].0@ == nv);
                        assert(out@[j].1.source@ == sv);
                        assert(out@[j].1.target@ == tv);
                        assert(opt_view(out@[j].1.hook) == hv);
                    }
                }
            }
            i = i + 1;
        }
        self.templates = out;
    }

    /// Resolves the template paths against the configured templates
    /// directory ([`Config::templates_dir`]) and the given home directory.
    pub fn resolve_paths(&mut self, home_dir: &str)
        ensures
            exists|dir: Seq<char>|
                {
                    &&& templates_resolved(
                        old(self).templates@,
                        final(self).templates@,
                        dir,
                        home_dir@,
                    )
                    &&& templates_dir_is(opt_view(old(self).templates_dir), dir)
                },
            final(self).fallback_color == old(self).fallback_color,
            final(self).theme_type == old(self).theme_type,
            final(self).templates_dir == old(self).templates_dir,
            final(self).cache_dir == old(self).cache_dir,
            final(self).no_cache == old(self).no_cache,
    {
        let dir = self.templates_dir();
        assert(templates_dir_is(opt_view(self.templates_dir), dir@));
        self.resolve_paths_in(dir.as_str(), home_dir);
    }

    /// Applies the home directory to a configuration just read: a leading
    /// `~` of the templates directory is expanded, then the template paths
    /// are resolved.
    pub fn resolve_with_home(&mut self, home_dir: &str)
        ensures
            opt_view(final(self).templates_dir) == (match old(self).templates_dir {
                Some(d) => Some(expand_tilde_spec(d@, home_dir@)),
                None => None,
            }),
            exists|dir: Seq<char>|
                {
                    &&& templates_resolved(
                        old(self).templates@,
                        final(self).templates@,
                        dir,
                        home_dir@,
                    )
                    &&& templates_dir_is(opt_view(final(self).templates_dir), dir)
                },
            final(self).fallback_color == old(self).fallback_color,
            final(self).theme_type == old(self).theme_type,
            final(self).cache_dir == old(self).cache_dir,
            final(self).no_cache == old(self).no_cache,
    {
        match self.templates_dir.take() {
            Some(mut d) => {
                expand_tilde(&mut d, home_dir);
                self.templates_dir = Some(d);
            },
            None => {},
        }
        self.resolve_paths(home_dir);
    }

    /// What loading does after the file is read: the home directory (`/`
    /// where the system names none) is applied to the paths.
    pub fn resolve(&mut self)
        ensures
            exists|home: Seq<char>, dir: Seq<char>|
                {
                    &&& home.len() > 0
                    &&& opt_view(final(self).templates_dir) == (match old(self).templates_dir {
                        Some(d) => Some(expand_tilde_spec(d@, home)),
                        None => None,
                    })
                    &&& templates_resolved(old(self).templates@, final(self).templates@, dir, home)
                    &&& templates_dir_is(opt_view(final(self).templates_dir), dir)
                },
            final(self).fallback_color == old(self).fallback_color,
            final(self).theme_type == old(self).theme_type,
            final(self).cache_dir == old(self).cache_dir,
            final(self).no_cache == old(self).no_cache,
    {
        let home = match home_dir() {
            Some(h) => h,
            None => String::from_str("/"),
        };
        proof {
            reveal_strlit("/");
        }
        self.resolve_with_home(home.as_str());
    }
}

/// A path joined onto an absolute path is absolute.
pub proof fn lemma_join_absolute(a: Seq<char>, b: Seq<char>)
    requires
        is_absolute_spec(a),
    ensures
        is_absolute_spec(join_spec(a, b)),
{
    if !is_absolute_spec(b) {
        if a.last() != '/' {
            assert((a + seq!['/'] + b)[0] == a[0]);
        } else {
            assert((a + b)[0] == a[0]);
        }
    }
}

/// With an absolute home directory every resolved target is absolute, and
/// with an absolute templates directory as well every resolved source is.
pub proof fn law_resolved_paths_absolute(
    src: Seq<char>,
    tgt: Seq<char>,
    dir: Seq<char>,
    home: Seq<char>,
)
    requires
        is_absolute_spec(home),
    ensures
        is_absolute_spec(resolved_target(tgt, home)),
        is_absolute_spec(dir) ==> is_absolute_spec(resolved_source(src, dir, home)),
{
    lemma_expand_absolute_home(src, home);
    lemma_expand_absolute_home(tgt, home);
    let t = expand_tilde_spec(tgt, home);
    if !is_absolute_spec(t) {
        lemma_join_absolute(home, t);
    }
    let s = expand_tilde_spec(src, home);
    if is_absolute_spec(dir) && !is_absolute_spec(s) {
        lemma_join_absolute(dir, s);
    }
}

proof fn lemma_expand_absolute_home(p: Seq<char>, home: Seq<char>)
    requires
        is_absolute_spec(home),
    ensures
        crate::paths::strip_tilde(p) is Some ==> is_absolute_spec(expand_tilde_spec(p, home)),
        is_absolute_spec(p) ==> expand_tilde_spec(p, home) == p,
{
    match crate::paths::strip_tilde(p) {
        Some(rest) => lemma_join_absolute(home, rest),
        None => {},
    }
}

/// Resolving paths that were resolved already changes nothing, when the
/// templates directory and the home directory are absolute.
pub proof fn law_resolve_idempotent(src: Seq<char>, tgt: Seq<char>, dir: Seq<char>, home: Seq<char>)
    requires
        is_absolute_spec(home),
        is_absolute_spec(dir),
    ensures
        resolved_source(resolved_source(src, dir, home), dir, home) == resolved_source(
            src,
            dir,
            home,
        ),
        resolved_target(resolved_target(tgt, home), home) == resolved_target(tgt, home),
{
    law_resolved_paths_absolute(src, tgt, dir, home);
    lemma_expand_absolute_home(resolved_source(src, dir, home), home);
    lemma_expand_absolute_home(resolved_target(tgt, home), home);
}

/// Resolving the paths keeps the names, so templates that had distinct
/// names still have.
pub proof fn law_resolution_keeps_names_distinct(
    old: Seq<NamedTemplate>,
    new: Seq<NamedTemplate>,
    dir: Seq<char>,
    home: Seq<char>,
)
    requires
        templates_resolved(old, new, dir, home),
        names_distinct(old),
    ensures
        names_distinct(new),
{
    assert forall|i: int, j: int| 0 <= i < j < new.len() implies #[trigger] new[i].0@ != #[trigger] new[j].0@ by {
        assert(template_resolved(new[i], old[i], dir, home));
        assert(template_resolved(new[j], old[j], dir, home));
        assert(old[i].0@ != old[j].0@);
    }
}

} // verus!
