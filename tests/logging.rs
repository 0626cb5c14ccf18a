use rocket_log::filter::{enabled, is_launch_record, should_emit, Event};
use rocket_log::level::{Level, LevelFilter, LogLevel};
use rocket_log::logger::{init_default, Config, RocketLogger};
use rocket_log::render::{pieces, render, render_field, Ink};
use rocket_log::text::{contains, decimal_string, ends_with_char, starts_with};
use std::str::FromStr;

fn event(level: Level, target: &str, module: Option<&str>, message: &str) -> Event {
    Event {
        level,
        target: target.to_string(),
        module: module.map(|m| m.to_string()),
        file: None,
        line: None,
        message: message.to_string(),
    }
}

fn strip(s: &str) -> String {
    let mut out = String::new();
    let mut in_escape = false;
    for c in s.chars() {
        if in_escape {
            if c == 'm' {
                in_escape = false;
            }
        } else if c == '\x1b' {
            in_escape = true;
        } else {
            out.push(c);
        }
    }
    out
}

#[test]
fn name_round_trips() {
    for l in [LogLevel::Critical, LogLevel::Normal, LogLevel::Debug, LogLevel::Off] {
        assert_eq!(LogLevel::parse(l.as_str()), Ok(l));
        assert_eq!(LogLevel::parse(&l.to_string()), Ok(l));
        assert_eq!(LogLevel::from_str(l.as_str()), Ok(l));
    }
}

#[test]
fn names_are_lowercase_words() {
    assert_eq!(LogLevel::Critical.as_str(), "critical");
    assert_eq!(LogLevel::Normal.as_str(), "normal");
    assert_eq!(LogLevel::Debug.as_str(), "debug");
    assert_eq!(LogLevel::Off.to_string(), "off");
}

#[test]
fn parse_ignores_case() {
    assert_eq!(LogLevel::parse("CRITICAL"), Ok(LogLevel::Critical));
    assert_eq!(LogLevel::parse("Normal"), Ok(LogLevel::Normal));
    assert_eq!(LogLevel::parse("dEbUg"), Ok(LogLevel::Debug));
    assert_eq!(LogLevel::parse("oFF"), Ok(LogLevel::Off));
}

#[test]
fn parse_rejects_other_words() {
    let expected = "a log level (off, debug, normal, critical)";
    for s in ["", "verbose", "debug ", " off", "norm", "criticals", "0", "trace"] {
        assert_eq!(LogLevel::parse(s), Err(expected));
    }
    assert_eq!(LogLevel::from_str("info"), Err(expected));
}

#[test]
fn level_filters() {
    assert_eq!(LevelFilter::from(LogLevel::Critical), LevelFilter::Warn);
    assert_eq!(LevelFilter::from(LogLevel::Normal), LevelFilter::Info);
    assert_eq!(LogLevel::Debug.filter(), LevelFilter::Trace);
    assert_eq!(LogLevel::Off.filter(), LevelFilter::Off);
}

#[test]
fn normal_shows_errors_and_hides_debug_and_trace() {
    let at = |l| should_emit(&event(l, "app::server", Some("app::server"), "m"), LogLevel::Normal);
    assert!(at(Level::Error));
    assert!(at(Level::Warn));
    assert!(at(Level::Info));
    assert!(!at(Level::Debug));
    assert!(!at(Level::Trace));
}

#[test]
fn critical_shows_only_errors_and_warnings() {
    let at = |l| should_emit(&event(l, "app", None, "m"), LogLevel::Critical);
    assert!(at(Level::Error));
    assert!(at(Level::Warn));
    assert!(!at(Level::Info));
    assert!(!at(Level::Debug));
}

#[test]
fn debug_shows_everything() {
    for l in [Level::Error, Level::Warn, Level::Info, Level::Debug, Level::Trace] {
        assert!(should_emit(&event(l, "app", None, "m"), LogLevel::Debug));
    }
}

#[test]
fn off_shows_only_launch_messages() {
    assert!(!should_emit(&event(Level::Info, "app::server", None, "m"), LogLevel::Off));
    assert!(!should_emit(&event(Level::Error, "app::server", None, "m"), LogLevel::Off));
    assert!(should_emit(&event(Level::Info, "rocket::launch", None, "m"), LogLevel::Off));
    assert!(should_emit(&event(Level::Warn, "rocket::launch::_", None, "m"), LogLevel::Off));
}

#[test]
fn launch_passes_the_ceiling() {
    assert!(should_emit(&event(Level::Info, "rocket::launch", None, "m"), LogLevel::Critical));
    assert!(enabled(Level::Trace, "rocket::launch", LogLevel::Normal));
    assert!(!enabled(Level::Trace, "rocket::other", LogLevel::Normal));
}

#[test]
fn noisy_modules_need_debug() {
    for m in ["hyper::proto::h1", "rustls::conn", "r2d2", "hyperlocal"] {
        let e = event(Level::Error, "x", Some(m), "m");
        assert!(!should_emit(&e, LogLevel::Normal));
        assert!(!should_emit(&e, LogLevel::Critical));
        assert!(should_emit(&e, LogLevel::Debug));
    }
    let e = event(Level::Error, "x", Some("app::hyper"), "m");
    assert!(should_emit(&e, LogLevel::Normal));
}

#[test]
fn launch_warning_renders_as_info() {
    let e = event(Level::Warn, "rocket::launch", None, "hello");
    assert_eq!(render(&e, true), "\x1b[34mhello\x1b[0m\n");
    assert_eq!(render(&e, false), "hello\n");
}

#[test]
fn indented_error_drops_label() {
    let e = event(Level::Error, "app::server::_", None, "detail");
    assert_eq!(render(&e, false), "   >> detail\n");
    assert_eq!(render(&e, true), "   \x1b[1m>>\x1b[0m \x1b[31mdetail\x1b[0m\n");
    let top = event(Level::Error, "app::server", None, "detail");
    assert_eq!(render(&top, false), "Error: detail\n");
    assert_eq!(render(&top, true), "\x1b[1;31mError:\x1b[0m \x1b[31mdetail\x1b[0m\n");
}

#[test]
fn indented_warning_drops_label() {
    let e = event(Level::Warn, "app::_", None, "w");
    assert_eq!(render(&e, false), "   >> w\n");
    let top = event(Level::Warn, "app", None, "w");
    assert_eq!(render(&top, false), "Warning: w\n");
    assert_eq!(render(&top, true), "\x1b[1;33mWarning:\x1b[0m \x1b[33mw\x1b[0m\n");
}

#[test]
fn info_and_trace_colors() {
    assert_eq!(render(&event(Level::Info, "a", None, "i"), true), "\x1b[34mi\x1b[0m\n");
    assert_eq!(render(&event(Level::Trace, "a", None, "t"), true), "\x1b[35mt\x1b[0m\n");
}

#[test]
fn debug_block_layout() {
    let mut e = event(Level::Debug, "a", None, "msg");
    e.file = Some("src/main.rs".to_string());
    e.line = Some(42);
    assert_eq!(render(&e, false), "\n--> src/main.rs:42\n\tmsg\n");
    assert_eq!(
        render(&e, true),
        "\n\x1b[1;34m-->\x1b[0m \x1b[34msrc/main.rs\x1b[0m:\x1b[34m42\x1b[0m\n\tmsg\n"
    );
    let bare = event(Level::Debug, "a", None, "msg");
    assert_eq!(render(&bare, false), "\n--> \tmsg\n");
}

#[test]
fn plain_output_is_colored_output_stripped() {
    let mut dbg = event(Level::Debug, "a::_", None, "d");
    dbg.file = Some("f.rs".to_string());
    dbg.line = Some(7);
    let events = [
        event(Level::Error, "a", None, "e"),
        event(Level::Error, "a::_", None, "e"),
        event(Level::Warn, "a", None, "w"),
        event(Level::Info, "a", None, "i"),
        event(Level::Trace, "a_", None, "t"),
        event(Level::Warn, "rocket::launch", None, "l"),
        dbg,
    ];
    for e in events.iter() {
        let plain = render(e, false);
        assert!(!plain.contains('\x1b'));
        assert_eq!(strip(&render(e, true)), plain);
    }
}

#[test]
fn pieces_carry_inks() {
    let ps = pieces(&event(Level::Error, "a", None, "boom"));
    assert_eq!(ps.len(), 4);
    assert_eq!(ps[0].text, "Error:");
    assert_eq!(ps[0].ink, Ink::RedBold);
    assert_eq!(ps[2].text, "boom");
    assert_eq!(ps[2].ink, Ink::Red);
}

#[test]
fn field_rendering() {
    assert_eq!(render_field("\"v\"", false), "\t>> \"v\" ");
    assert_eq!(render_field("v", true), "\x1b[1m\t>>\x1b[0m \x1b[34mv\x1b[0m ");
}

#[test]
fn double_init_keeps_threshold() {
    let mut logger = RocketLogger::new();
    let first = Config { log_level: LogLevel::Critical, cli_colors: true };
    assert!(logger.init(&first, true, true, true));
    assert_eq!(logger.level, LogLevel::Critical);
    assert!(logger.colors);
    let second = Config { log_level: LogLevel::Debug, cli_colors: false };
    assert!(!logger.init(&second, true, true, true));
    assert!(!logger.init(&second, false, false, false));
    assert_eq!(logger.level, LogLevel::Critical);
    assert!(logger.colors);
    assert!(logger.installed);
}

#[test]
fn init_without_the_slot_changes_nothing() {
    let mut logger = RocketLogger::new();
    let config = Config { log_level: LogLevel::Debug, cli_colors: true };
    assert!(!logger.init(&config, false, true, true));
    assert!(!logger.installed);
    assert_eq!(logger.level, LogLevel::Off);
}

#[test]
fn colors_need_config_ansi_and_terminal() {
    let config = Config { log_level: LogLevel::Normal, cli_colors: true };
    for (ansi, tty) in [(false, true), (true, false)] {
        let mut logger = RocketLogger::new();
        assert!(logger.init(&config, true, ansi, tty));
        assert!(!logger.colors);
    }
    let mut logger = RocketLogger::new();
    let off = Config { log_level: LogLevel::Normal, cli_colors: false };
    assert!(logger.init(&off, true, true, true));
    assert!(!logger.colors);
}

#[test]
fn default_init_is_normal() {
    let mut logger = RocketLogger::new();
    assert!(init_default(&mut logger, true, true, false));
    assert_eq!(logger.level, LogLevel::Normal);
    assert!(!logger.colors);
    assert_eq!(Config::debug_default(), Config { log_level: LogLevel::Normal, cli_colors: true });
}

#[test]
fn logger_log_filters_and_renders() {
    let mut logger = RocketLogger::new();
    let config = Config { log_level: LogLevel::Normal, cli_colors: false };
    logger.init(&config, true, true, true);
    assert_eq!(logger.log(&event(Level::Info, "a", None, "hi")), Some("hi\n".to_string()));
    assert_eq!(logger.log(&event(Level::Debug, "a", None, "hi")), None);
    assert!(logger.enabled(Level::Warn, "a"));
    assert!(!logger.enabled(Level::Debug, "a"));
    logger.flush();
}

#[test]
fn text_helpers() {
    assert!(is_launch_record("rocket::launch::_"));
    assert!(!is_launch_record("rocket::launc"));
    assert!(contains("abc", ""));
    assert!(!contains("", "a"));
    assert!(starts_with("hyper::x", "hyper"));
    assert!(!starts_with("hype", "hyper"));
    assert!(ends_with_char("x::_", '_'));
    assert!(!ends_with_char("", '_'));
    assert_eq!(decimal_string(0), "0");
    assert_eq!(decimal_string(10), "10");
    assert_eq!(decimal_string(4294967295), "4294967295");
}
