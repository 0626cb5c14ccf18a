//! Which events are shown: the verbosity threshold, the launch channel that passes
//! every threshold, and the chatty third-party modules held back below debug.

use vstd::prelude::*;
use crate::level::{Level, LevelFilter, LogLevel, filter_admits, level_filter};
use crate::text::{contains, seq_contains, seq_starts_with, starts_with};

verus! {

/// One log call: its severity, its target, where it comes from and its message.
pub struct Event {
    pub level: Level,
    /// The hierarchical tag of the call; a trailing `_` marks a continuation line.
    pub target: String,
    pub module: Option<String>,
    pub file: Option<String>,
    pub line: Option<u32>,
    pub message: String,
}

/// The target text that tags an event as a launch message.
pub open spec fn launch_marker() -> Seq<char> {
    "rocket::launch"@
}

/// The event with this target is on the launch channel.
pub open spec fn is_launch(target: Seq<char>) -> bool {
    seq_contains(target, launch_marker())
}

/// The module lies in one of the transport, TLS or pooling namespaces that are
/// too chatty below debug verbosity.
pub open spec fn is_noisy_module(module: Option<String>) -> bool {
    match module {
        Some(m) => seq_starts_with(m@, "hyper"@) || seq_starts_with(m@, "rustls"@)
            || seq_starts_with(m@, "r2d2"@),
        None => false,
    }
}

/// The threshold alone lets the event through: always on the launch channel,
/// otherwise only when its severity is within the bound and the level is not off.
pub open spec fn passes_threshold(level: Level, target: Seq<char>, active: LogLevel) -> bool {
    is_launch(target) || (active != LogLevel::Off && filter_admits(level_filter(active), level))
}

/// The event is shown under `active`.
pub open spec fn emits(e: Event, active: LogLevel) -> bool {
    passes_threshold(e.level, e.target@, active)
        && !(active != LogLevel::Debug && is_noisy_module(e.module))
}

/// Whether an event with this target is a launch message.
pub fn is_launch_record(target: &str) -> (r: bool)
    ensures
        r == is_launch(target@),
{
    contains(target, "rocket::launch")
}

/// Whether the module path lies in a namespace held back below debug verbosity.
pub fn from_noisy_module(module: &Option<String>) -> (r: bool)
    ensures
        r == is_noisy_module(*module),
{
    match module {
        Some(m) => {
            let m = m.as_str();
            starts_with(m, "hyper") || starts_with(m, "rustls") || starts_with(m, "r2d2")
        },
        None => false,
    }
}

/// Whether the threshold of `active` lets an event of this severity and target
/// through, before the module check.
pub fn enabled(level: Level, target: &str, active: LogLevel) -> (r: bool)
    ensures
        r == passes_threshold(level, target@, active),
{
    if is_launch_record(target) {
        return true;
    }
    match active {
        LogLevel::Off => false,
        _ => level.admitted_by(active.filter()),
    }
}

/// Whether the event is shown when `active` is the configured level.
pub fn should_emit(event: &Event, active: LogLevel) -> (r: bool)
    ensures
        r == emits(*event, active),
{
    if !enabled(event.level, event.target.as_str(), active) {
        return false;
    }
    let debug_only = from_noisy_module(&event.module);
    let max = active.filter();
    !(debug_only && max != LevelFilter::Trace)
}

/// With the level off, exactly the launch messages from modules outside the
/// held-back namespaces are shown.
pub proof fn lemma_off_shows_only_launch(e: Event)
    ensures
        emits(e, LogLevel::Off) == (is_launch(e.target@) && !is_noisy_module(e.module)),
{
}

/// Events from the held-back namespaces are suppressed at normal and critical
/// verbosity and shown at debug verbosity.
pub proof fn lemma_noisy_modules_need_debug(e: Event)
    requires
        is_noisy_module(e.module),
    ensures
        !emits(e, LogLevel::Normal),
        !emits(e, LogLevel::Critical),
        emits(e, LogLevel::Debug),
{
}

} // verus!
