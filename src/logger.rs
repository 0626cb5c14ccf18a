//! The process-wide sink: installed once, it holds the active level and whether
//! output is painted, and turns each event into the text to write, if any.

use vstd::prelude::*;
use crate::filter::{Event, emits, enabled, passes_threshold, should_emit};
use crate::level::{Level, LogLevel};
use crate::render::{render, rendered};

verus! {

/// The settings the sink is initialized from.
#[derive(PartialEq, Eq, Structural, Debug, Clone, Copy)]
pub struct Config {
    pub log_level: LogLevel,
    pub cli_colors: bool,
}

impl Config {
    /// The settings of a debug build: normal verbosity, colors on.
    pub fn debug_default() -> (r: Config)
        ensures
            r.log_level == LogLevel::Normal,
            r.cli_colors,
    {
        Config { log_level: LogLevel::Normal, cli_colors: true }
    }
}

/// The state of the sink.
#[derive(PartialEq, Eq, Structural, Debug, Clone, Copy)]
pub struct RocketLogger {
    /// Whether the sink has claimed the process-wide logger slot.
    pub installed: bool,
    /// The active verbosity.
    pub level: LogLevel,
    /// Whether output is painted with ANSI escapes.
    pub colors: bool,
}

/// The sink after an initialization attempt. `claimed` says whether the
/// process-wide slot was free and is now ours, `ansi_available` whether the host
/// can show ANSI escapes, `stdout_is_tty` whether output goes to a terminal. Once
/// installed, the sink ignores every later attempt.
pub open spec fn after_init(
    s: RocketLogger,
    config: Config,
    claimed: bool,
    ansi_available: bool,
    stdout_is_tty: bool,
) -> RocketLogger {
    if s.installed || !claimed {
        s
    } else {
        RocketLogger {
            installed: true,
            level: config.log_level,
            colors: config.cli_colors && ansi_available && stdout_is_tty,
        }
    }
}

impl RocketLogger {
    /// A sink that is not installed yet: it shows nothing but launch messages,
    /// unpainted.
    pub fn new() -> (r: RocketLogger)
        ensures
            !r.installed,
            r.level == LogLevel::Off,
            !r.colors,
    {
        RocketLogger { installed: false, level: LogLevel::Off, colors: false }
    }

    /// Installs the sink with `config` unless it is installed already; returns
    /// whether this call installed it. A repeated call changes nothing.
    pub fn init(
        &mut self,
        config: &Config,
        claimed: bool,
        ansi_available: bool,
        stdout_is_tty: bool,
    ) -> (r: bool)
        ensures
            r == (!old(self).installed && claimed),
            *final(self) == after_init(*old(self), *config, claimed, ansi_available, stdout_is_tty),
    {
        if self.installed || !claimed {
            return false;
        }
        self.installed = true;
        self.level = config.log_level;
        self.colors = config.cli_colors && ansi_available && stdout_is_tty;
        true
    }

    /// Whether the active level lets an event of this severity and target through,
    /// before the module check.
    pub fn enabled(&self, level: Level, target: &str) -> (r: bool)
        ensures
            r == passes_threshold(level, target@, self.level),
    {
        enabled(level, target, self.level)
    }

    /// The text to write for an event, or `None` when it is suppressed.
    pub fn log(&self, event: &Event) -> (r: Option<String>)
        ensures
            r is Some <==> emits(*event, self.level),
            r matches Some(s) ==> s@ == rendered(*event, self.colors),
    {
        if !should_emit(event, self.level) {
            return None;
        }
        Some(render(event, self.colors))
    }

    /// Nothing is buffered, so there is nothing to flush.
    pub fn flush(&self) {
    }
}

/// Installs the sink with the debug-build settings.
pub fn init_default(
    logger: &mut RocketLogger,
    claimed: bool,
    ansi_available: bool,
    stdout_is_tty: bool,
) -> (r: bool)
    ensures
        r == (!old(logger).installed && claimed),
        *final(logger) == after_init(
            *old(logger),
            Config { log_level: LogLevel::Normal, cli_colors: true },
            claimed,
            ansi_available,
            stdout_is_tty,
        ),
{
    let config = Config::debug_default();
    logger.init(&config, claimed, ansi_available, stdout_is_tty)
}

/// Once the sink is installed, a further initialization leaves it as it was: the
/// active level and the coloring stay.
pub proof fn lemma_init_is_idempotent(
    s: RocketLogger,
    config: Config,
    claimed: bool,
    ansi_available: bool,
    stdout_is_tty: bool,
)
    requires
        s.installed,
    ensures
        after_init(s, config, claimed, ansi_available, stdout_is_tty) == s,
{
}

} // verus!
