use gecol::cache::Cache;
use gecol::config::Config;
use gecol::extract::config::{default_clusters, default_resize};
use gecol::extract::{resize_target, ExtractStep};
use gecol::paths::{expand_tilde, is_absolute, join, strip_tilde_prefix};
use gecol::template::template::Template as PathTemplate;
use gecol::template::Template;
use gecol::theme::ThemeType;

#[test]
fn cache_gives_back_what_was_cached() {
    let mut cache = Cache::new();
    assert_eq!(cache.get("a"), None);
    cache.insert("a".to_string(), (1, 2, 3));
    cache.insert("b".to_string(), (4, 5, 6));
    assert_eq!(cache.get("a"), Some((1, 2, 3)));
    cache.insert("a".to_string(), (7, 8, 9));
    assert_eq!(cache.get("a"), Some((7, 8, 9)));
    assert_eq!(cache.get("b"), Some((4, 5, 6)));
    assert_eq!(cache.entries().len(), 2);
}

#[test]
fn cache_from_entries_keeps_the_later_duplicate() {
    let cache = Cache::from_entries(vec![
        ("k".to_string(), (1, 1, 1)),
        ("j".to_string(), (2, 2, 2)),
        ("k".to_string(), (3, 3, 3)),
    ]);
    assert_eq!(cache.get("k"), Some((3, 3, 3)));
    assert_eq!(cache.entries().len(), 2);
}

#[test]
fn cache_records_only_found_colors() {
    let mut cache = Cache::new();
    assert!(!cache.record("x".to_string(), None));
    assert_eq!(cache.get("x"), None);
    assert!(cache.record("x".to_string(), Some((9, 9, 9))));
    assert_eq!(cache.get("x"), Some((9, 9, 9)));
}

#[test]
fn cache_key_and_file_choices() {
    assert_eq!(Cache::key_or_fallback(None), "fallback");
    assert_eq!(Cache::key_or_fallback(Some("abc".to_string())), "abc");
    assert_eq!(Cache::file_or(Some("/tmp/c.toml".to_string())), "/tmp/c.toml");
    assert_eq!(Cache::dir_from(Some("/home/u/.cache".to_string())), "/home/u/.cache/gecol");
    assert_eq!(Cache::dir_from(None), "./gecol");
    assert!(Cache::file().ends_with("gecol/colors.toml"));
    assert!(Cache::dir().ends_with("gecol"));
}

#[test]
fn extract_step_finality_and_messages() {
    assert!(ExtractStep::Finished.is_final());
    assert!(ExtractStep::FinishedWithCache.is_final());
    assert!(!ExtractStep::Clustering.is_final());
    assert!(!ExtractStep::CheckingCache.is_final());
    assert_eq!(ExtractStep::Clustering.message(), "Running K-Means clustering...");
    assert_eq!(ExtractStep::FinishedWithCache.message(), "Color loaded from cache!");
}

#[test]
fn resize_only_when_size_changes() {
    assert_eq!(resize_target(Some(255), Some(255), 1920, 1080), (255, 255, true));
    assert_eq!(resize_target(None, None, 640, 480), (640, 480, false));
    assert_eq!(resize_target(Some(640), None, 640, 480), (640, 480, false));
    assert_eq!(default_resize(), Some(255));
    assert_eq!(default_clusters(), 16);
}

#[test]
fn paths_join_like_unix_paths() {
    assert_eq!(join("/home/u", "a.txt"), "/home/u/a.txt");
    assert_eq!(join("/home/u/", "a.txt"), "/home/u/a.txt");
    assert_eq!(join("/home/u", "/etc/x"), "/etc/x");
    assert_eq!(join("", "a"), "a");
    assert_eq!(join("/home/u", ""), "/home/u/");
    assert!(is_absolute("/x"));
    assert!(!is_absolute("x/y"));
}

#[test]
fn tilde_is_the_first_component_only() {
    assert_eq!(strip_tilde_prefix("~/a/b"), Some("a/b".to_string()));
    assert_eq!(strip_tilde_prefix("~"), Some(String::new()));
    assert_eq!(strip_tilde_prefix("~//./a/b/."), Some("a/b".to_string()));
    assert_eq!(strip_tilde_prefix("~foo"), None);
    assert_eq!(strip_tilde_prefix("/~/a"), None);
    let mut p = "~/.config/x".to_string();
    expand_tilde(&mut p, "/home/u");
    assert_eq!(p, "/home/u/.config/x");
    let mut q = "~".to_string();
    expand_tilde(&mut q, "/home/u");
    assert_eq!(q, "/home/u/");
}

fn sample_config() -> Config {
    let mut config = Config::default();
    config.templates.push(("a".to_string(), Template::new("~/t/a.j2", "~/.config/a.css")));
    config.templates.push(("b".to_string(), Template::new("b.j2", "out/b.toml")));
    config.templates.push(("c".to_string(), Template::new("/abs/c.j2", "/etc/c")));
    config
}

#[test]
fn resolve_paths_against_templates_and_home() {
    let mut config = sample_config();
    config.resolve_paths_in("/cfg/templates", "/home/u");
    let t = &config.templates;
    assert_eq!(t[0].0, "a");
    assert_eq!(t[0].1.source, "/home/u/t/a.j2");
    assert_eq!(t[0].1.target, "/home/u/.config/a.css");
    assert_eq!(t[1].1.source, "/cfg/templates/b.j2");
    assert_eq!(t[1].1.target, "/home/u/out/b.toml");
    assert_eq!(t[2].1.source, "/abs/c.j2");
    assert_eq!(t[2].1.target, "/etc/c");
}

#[test]
fn resolving_twice_changes_nothing() {
    let mut once = sample_config();
    once.resolve_paths_in("/cfg/templates", "/home/u");
    let mut twice = sample_config();
    twice.resolve_paths_in("/cfg/templates", "/home/u");
    twice.resolve_paths_in("/cfg/templates", "/home/u");
    for i in 0..3 {
        assert_eq!(once.templates[i].1.source, twice.templates[i].1.source);
        assert_eq!(once.templates[i].1.target, twice.templates[i].1.target);
    }
}

#[test]
fn resolve_with_home_expands_the_templates_dir() {
    let mut config = sample_config();
    config.templates_dir = Some("~/tpl".to_string());
    config.resolve_with_home("/home/u");
    assert_eq!(config.templates_dir.as_deref(), Some("/home/u/tpl"));
    assert_eq!(config.templates[1].1.source, "/home/u/tpl/b.j2");
}

#[test]
fn config_defaults_and_paths() {
    let config = Config::default();
    assert!(config.templates.is_empty());
    assert_eq!(config.theme_type, ThemeType::Dark);
    assert!(!config.no_cache);
    assert_eq!(config.fallback_color(), None);
    assert_eq!(Config::dir_from(Some("/home/u/.config".to_string())), "/home/u/.config/gecol");
    assert!(Config::file().ends_with("gecol/config.toml"));
    assert!(config.templates_dir().ends_with("gecol/templates"));
    let mut custom = Config::default();
    custom.templates_dir = Some("/my/tpl".to_string());
    assert_eq!(custom.templates_dir(), "/my/tpl");
}

#[test]
fn config_fallback_color_reads_hex() {
    let mut config = Config::default();
    config.fallback_color = Some("#102030".to_string());
    assert_eq!(config.fallback_color(), Some((0x10, 0x20, 0x30)));
    config.fallback_color = Some("red".to_string());
    assert_eq!(config.fallback_color(), None);
}

#[test]
fn templates_keep_their_paths() {
    let t = Template::new("src.j2", "/out");
    assert_eq!(t.source, "src.j2");
    assert_eq!(t.target, "/out");
    let p = PathTemplate::new("a", 5u8);
    assert_eq!(p.template, "a");
    assert_eq!(p.target, 5);
}

#[test]
fn cache_key_is_lowercase_hex_of_the_digest() {
    assert_eq!(Cache::key_text(0), "0");
    assert_eq!(Cache::key_text(255), "ff");
    assert_eq!(Cache::key_text(0x1a2b3c), "1a2b3c");
    assert_eq!(Cache::key_text(u64::MAX), "ffffffffffffffff");
}

#[test]
fn different_digests_give_different_keys() {
    assert_ne!(Cache::key_text(1), Cache::key_text(16));
    assert_ne!(Cache::key_text(0x10), Cache::key_text(0x100));
}

#[test]
fn resolving_keeps_names_and_hooks() {
    let mut config = Config::default();
    let mut t = Template::new("w.css", "~/.config/waybar/colors.css");
    assert_eq!(t.hook, None);
    t.hook = Some("pkill -SIGUSR2 waybar".to_string());
    config.templates.push(("waybar-colors".to_string(), t));
    config.resolve_paths_in("/cfg/templates", "/home/u");
    let (name, t) = &config.templates[0];
    assert_eq!(name, "waybar-colors");
    assert_eq!(t.source, "/cfg/templates/w.css");
    assert_eq!(t.target, "/home/u/.config/waybar/colors.css");
    assert_eq!(t.hook.as_deref(), Some("pkill -SIGUSR2 waybar"));
}

#[test]
fn relative_sources_go_into_the_default_templates_dir() {
    let mut config = sample_config();
    config.resolve_paths("/home/u");
    assert!(config.templates[1].1.source.ends_with("gecol/templates/b.j2"));
    assert_eq!(config.templates[1].1.target, "/home/u/out/b.toml");
}
