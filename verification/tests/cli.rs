use gecol::args::action::{Action, Run};
use gecol::args::args_struct::Args as CommandLine;
use gecol::args::extract::Extract;
use gecol::args::{Args, Notice};
use gecol::commands::{
    choose_color, clear_cache_message, clear_cache_path, config_file_path, extract_only_text,
    list_text, run, run_plan, run_target, select_templates, Dispatch, RunPlan, RunTarget,
};
use gecol::config::Config;
use gecol::error::{CoreError, Error};
use gecol::order::sort_texts;
use gecol::template::Template;
use gecol::theme::ThemeType;

fn pareg_of(args: &[&str]) -> pareg::Pareg {
    pareg::Pareg::new(args.iter().map(|a| a.to_string()).collect())
}

#[test]
fn flags_read_image_and_config() {
    let (notes, res) = Args::parse(pareg_of(&["-i", "pic.png", "--config", "c.toml"]));
    assert!(notes.is_empty());
    let a = res.unwrap();
    assert_eq!(a.img.as_deref(), Some("pic.png"));
    assert_eq!(a.config.as_deref(), Some("c.toml"));
    assert!(!a.should_quit);
}

#[test]
fn flags_ask_for_version_and_help() {
    let (notes, res) = Args::parse(pareg_of(&["-v", "--help"]));
    assert_eq!(notes, vec![Notice::Version, Notice::Help]);
    assert!(res.unwrap().should_quit);
}

#[test]
fn flags_empty_path_is_no_path() {
    let (_, res) = Args::parse(pareg_of(&["--image", ""]));
    assert_eq!(res.unwrap().img, None);
}

#[test]
fn flags_stop_at_unknown_argument() {
    let (notes, res) = Args::parse(pareg_of(&["h", "--bogus", "-v"]));
    assert_eq!(notes, vec![Notice::Help]);
    assert!(matches!(res, Err(pareg::ArgError::UnknownArgument(_))));
}

#[test]
fn flags_need_a_value_after_image() {
    let (_, res) = Args::parse(pareg_of(&["-i"]));
    assert!(matches!(res, Err(pareg::ArgError::NoMoreArguments(_))));
}

#[test]
fn extract_options_take_last_image() {
    let mut p = pareg_of(&["a.png", "-c", "x.toml", "b.png"]);
    let e = Extract::parse(&mut p).unwrap();
    assert_eq!(e.img.as_deref(), Some("b.png"));
    assert_eq!(e.config.as_deref(), Some("x.toml"));
}

#[test]
fn extract_options_need_config_value() {
    let mut p = pareg_of(&["a.png", "--config"]);
    assert!(matches!(Extract::parse(&mut p), Err(pareg::ArgError::NoMoreArguments(_))));
}

#[test]
fn dispatch_prefers_version_then_help() {
    let mut a = CommandLine::default();
    assert!(matches!(run(&a), Dispatch::Help));
    a.action = Some(Action::List);
    assert!(matches!(run(&a), Dispatch::List));
    a.help = true;
    assert!(matches!(run(&a), Dispatch::Help));
    a.version = true;
    assert!(matches!(run(&a), Dispatch::Version));
    let mut b = CommandLine::default();
    b.action = Some(Action::ClearCache);
    assert!(matches!(run(&b), Dispatch::ClearCache));
    b.action = Some(Action::Config { path: false });
    assert!(matches!(run(&b), Dispatch::Config));
    b.action = Some(Action::Config { path: true });
    assert!(matches!(run(&b), Dispatch::ConfigPath));
    let mut r = Run::default();
    r.target = "x.png".to_string();
    b.action = Some(Action::Run(r));
    match run(&b) {
        Dispatch::Run(r) => assert_eq!(r.target, "x.png"),
        _ => panic!("expected a run"),
    }
}

#[test]
fn run_target_is_color_or_image() {
    assert!(matches!(run_target("#3acbaf"), RunTarget::Color((0x3a, 0xcb, 0xaf))));
    match run_target("wall.png") {
        RunTarget::Image(p) => assert_eq!(p, "wall.png"),
        _ => panic!("expected an image"),
    }
}

#[test]
fn run_plan_decisions() {
    let mut r = Run::default();
    assert_eq!(
        run_plan(&r, ThemeType::Light, true, false),
        RunPlan::Theme { theme_type: ThemeType::Light, build: true, print: false }
    );
    r.theme = Some(ThemeType::Dark);
    r.skip_build = true;
    assert_eq!(
        run_plan(&r, ThemeType::Light, true, false),
        RunPlan::Theme { theme_type: ThemeType::Dark, build: false, print: true }
    );
    r.extract_only = true;
    assert_eq!(run_plan(&r, ThemeType::Light, false, true), RunPlan::RejectColorInput);
    assert_eq!(run_plan(&r, ThemeType::Light, false, false), RunPlan::PrintColor);
}

#[test]
fn extract_only_prints_swatch_unless_quiet() {
    assert_eq!(extract_only_text(true, (0x3a, 0xcb, 0xaf)), "#3acbaf\n");
    assert_eq!(
        extract_only_text(false, (1, 2, 3)),
        "\x1b[48;2;1;2;3m  \x1b[0m #010203\n"
    );
}

#[test]
fn listing_is_sorted_with_heading() {
    let names = vec!["kitty".to_string(), "alacritty".to_string(), "btop".to_string()];
    assert_eq!(
        list_text(&names),
        vec!["Available templates:", " - alacritty", " - btop", " - kitty"]
    );
    assert_eq!(list_text(&Vec::new()), vec!["No templates found in you configuration file."]);
}

#[test]
fn sorting_keeps_duplicates() {
    let names = vec!["b".to_string(), "a".to_string(), "b".to_string(), "ab".to_string()];
    assert_eq!(sort_texts(&names), vec!["a", "ab", "b", "b"]);
}

fn named(name: &str) -> (String, Template) {
    (name.to_string(), Template::new(&format!("{name}.j2"), &format!("/out/{name}")))
}

#[test]
fn selecting_templates_by_name() {
    let all = vec![named("a"), named("b"), named("c")];
    let every = select_templates(&all, &Vec::new()).unwrap();
    assert_eq!(every.len(), 3);
    let some = select_templates(&all, &vec!["c".to_string(), "a".to_string()]).unwrap();
    assert_eq!(some.len(), 2);
    assert_eq!(some[0].0, "a");
    assert_eq!(some[1].0, "c");
    assert_eq!(some[1].1.target, "/out/c");
    assert!(select_templates(&all, &vec!["z".to_string()]).is_none());
}

#[test]
fn color_choice_falls_back() {
    let mut config = Config::default();
    assert_eq!(choose_color(Some((1, 2, 3)), &config).unwrap(), (1, 2, 3));
    match choose_color(None, &config) {
        Err(Error::Msg(m)) => {
            assert_eq!(m, "Failed to extract sufficient color and no fallback color set")
        }
        _ => panic!("expected a message"),
    }
    config.fallback_color = Some("#ffffff".to_string());
    assert_eq!(choose_color(None, &config).unwrap(), (255, 255, 255));
}

#[test]
fn cache_clearing_paths_and_messages() {
    let mut config = Config::default();
    assert!(clear_cache_path(&config).ends_with("gecol/colors.toml"));
    config.cache_dir = Some("/tmp/c.json".to_string());
    assert_eq!(clear_cache_path(&config), "/tmp/c.json");
    assert_eq!(clear_cache_message(true), "Cache cleared successfully!");
    assert_eq!(clear_cache_message(false), "Cache was already empty.");
}

#[test]
fn config_path_given_or_default() {
    assert_eq!(config_file_path(&Some("/x.toml".to_string())), "/x.toml");
    assert!(config_file_path(&None).ends_with("gecol/config.toml"));
}

#[test]
fn errors_from_io_and_core_errors() {
    let io = std::io::Error::new(std::io::ErrorKind::NotFound, "gone");
    assert!(matches!(Error::from(io), Error::IO(_)));
    let io = std::io::Error::new(std::io::ErrorKind::Other, "bad");
    assert!(matches!(Error::from(CoreError::Io(io)), Error::Gecol(CoreError::Io(_))));
}

#[test]
fn errors_from_text() {
    assert!(matches!(Error::from("boom"), Error::Msg(m) if m == "boom"));
    assert!(matches!(Error::from("boom".to_string()), Error::Msg(m) if m == "boom"));
}
