//! The configured verbosity (`LogLevel`), the severity of one event (`Level`) and
//! the threshold a backend filters by (`LevelFilter`).

use vstd::prelude::*;

verus! {

/// Defines the maximum level of log messages to show.
#[derive(PartialEq, Eq, Structural, Debug, Clone, Copy)]
pub enum LogLevel {
    /// Only shows errors and warnings: `"critical"`.
    Critical,
    /// Shows everything except debug and trace information: `"normal"`.
    Normal,
    /// Shows everything: `"debug"`.
    Debug,
    /// Shows nothing but launch messages: `"off"`.
    Off,
}

/// The severity of one event, most severe first.
#[derive(PartialEq, Eq, Structural, Debug, Clone, Copy)]
pub enum Level {
    Error,
    Warn,
    Info,
    Debug,
    Trace,
}

/// The most verbose severity a backend lets through, or none at all.
#[derive(PartialEq, Eq, Structural, Debug, Clone, Copy)]
pub enum LevelFilter {
    Off,
    Error,
    Warn,
    Info,
    Debug,
    Trace,
}

/// Position of a severity from the most severe (1) to the most verbose (5).
pub open spec fn level_rank(l: Level) -> nat {
    match l {
        Level::Error => 1,
        Level::Warn => 2,
        Level::Info => 3,
        Level::Debug => 4,
        Level::Trace => 5,
    }
}

/// How many severities a filter lets through.
pub open spec fn filter_rank(f: LevelFilter) -> nat {
    match f {
        LevelFilter::Off => 0,
        LevelFilter::Error => 1,
        LevelFilter::Warn => 2,
        LevelFilter::Info => 3,
        LevelFilter::Debug => 4,
        LevelFilter::Trace => 5,
    }
}

/// The backend threshold of each configured level.
pub open spec fn level_filter(l: LogLevel) -> LevelFilter {
    match l {
        LogLevel::Critical => LevelFilter::Warn,
        LogLevel::Normal => LevelFilter::Info,
        LogLevel::Debug => LevelFilter::Trace,
        LogLevel::Off => LevelFilter::Off,
    }
}

/// Whether a filter lets an event of severity `l` through.
pub open spec fn filter_admits(f: LevelFilter, l: Level) -> bool {
    level_rank(l) <= filter_rank(f)
}

/// The textual form of a level.
pub open spec fn level_name(l: LogLevel) -> Seq<char> {
    match l {
        LogLevel::Critical => "critical"@,
        LogLevel::Normal => "normal"@,
        LogLevel::Debug => "debug"@,
        LogLevel::Off => "off"@,
    }
}

/// The message of a failed parse, naming the accepted words.
pub open spec fn parse_error_text() -> Seq<char> {
    "a log level (off, debug, normal, critical)"@
}

pub open spec fn ascii_lower_char(c: char) -> char {
    if 'A' <= c && c <= 'Z' {
        ((c as u8) + 32) as char
    } else {
        c
    }
}

/// `s` with its ASCII upper-case letters made lower case.
pub open spec fn ascii_lower(s: Seq<char>) -> Seq<char> {
    Seq::new(s.len(), |i: int| ascii_lower_char(s[i]))
}

/// The level that `s` names, ignoring ASCII case.
pub open spec fn parse_spec(s: Seq<char>) -> Option<LogLevel> {
    let l = ascii_lower(s);
    if l == level_name(LogLevel::Critical) {
        Some(LogLevel::Critical)
    } else if l == level_name(LogLevel::Normal) {
        Some(LogLevel::Normal)
    } else if l == level_name(LogLevel::Debug) {
        Some(LogLevel::Debug)
    } else if l == level_name(LogLevel::Off) {
        Some(LogLevel::Off)
    } else {
        None
    }
}

fn lower_char(c: char) -> (r: char)
    ensures
        r == ascii_lower_char(c),
{
    if 'A' <= c && c <= 'Z' {
        ((c as u8) + 32) as char
    } else {
        c
    }
}

/// Whether `s`, with ASCII letters made lower case, equals `word`.
fn eq_lowered(s: &str, word: &str) -> (r: bool)
    ensures
        r == (ascii_lower(s@) == word@),
{
    let n = s.unicode_len();
    if n != word.unicode_len() {
        assert(ascii_lower(s@).len() != word@.len());
        return false;
    }
    let mut i: usize = 0;
    while i < n
        invariant
            n == s@.len(),
            n == word@.len(),
            i <= n,
            forall|k: int| 0 <= k < i ==> ascii_lower_char(#[trigger] s@[k]) == word@[k],
        decreases n - i,
    {
        if lower_char(s.get_char(i)) != word.get_char(i) {
            assert(ascii_lower(s@)[i as int] != word@[i as int]);
            return false;
        }
        i = i + 1;
    }
    assert(ascii_lower(s@) =~= word@);
    true
}

impl LogLevel {
    /// The lowercase name of the level.
    pub fn as_str(&self) -> (r: &'static str)
        ensures
            r@ == level_name(*self),
    {
        match self {
            LogLevel::Critical => "critical",
            LogLevel::Normal => "normal",
            LogLevel::Debug => "debug",
            LogLevel::Off => "off",
        }
    }

    /// The lowercase name of the level, as an owned string.
    pub fn to_string(&self) -> (r: String)
        ensures
            r@ == level_name(*self),
    {
        String::from_str(self.as_str())
    }

    /// Reads a level from its name in any ASCII case; anything else is an error
    /// that names the accepted words.
    pub fn parse(s: &str) -> (r: Result<LogLevel, &'static str>)
        ensures
            r matches Ok(l) ==> parse_spec(s@) == Some(l),
            r matches Err(e) ==> parse_spec(s@).is_none() && e@ == parse_error_text(),
            parse_spec(s@).is_some() <==> r is Ok,
    {
        if eq_lowered(s, "critical") {
            Ok(LogLevel::Critical)
        } else if eq_lowered(s, "normal") {
            Ok(LogLevel::Normal)
        } else if eq_lowered(s, "debug") {
            Ok(LogLevel::Debug)
        } else if eq_lowered(s, "off") {
            Ok(LogLevel::Off)
        } else {
            Err("a log level (off, debug, normal, critical)")
        }
    }

    /// The threshold that this level asks of a backend.
    pub fn filter(&self) -> (r: LevelFilter)
        ensures
            r == level_filter(*self),
    {
        match self {
            LogLevel::Critical => LevelFilter::Warn,
            LogLevel::Normal => LevelFilter::Info,
            LogLevel::Debug => LevelFilter::Trace,
            LogLevel::Off => LevelFilter::Off,
        }
    }
}

impl core::str::FromStr for LogLevel {
    type Err = &'static str;

    fn from_str(s: &str) -> Result<LogLevel, &'static str> {
        LogLevel::parse(s)
    }
}

impl From<LogLevel> for LevelFilter {
    fn from(level: LogLevel) -> (r: LevelFilter) {
        level.filter()
    }
}

impl vstd::std_specs::convert::FromSpecImpl<LogLevel> for LevelFilter {
    open spec fn obeys_from_spec() -> bool {
        true
    }

    open spec fn from_spec(v: LogLevel) -> LevelFilter {
        level_filter(v)
    }
}

impl Level {
    /// Whether `filter` lets an event of this severity through.
    pub fn admitted_by(&self, filter: LevelFilter) -> (r: bool)
        ensures
            r == filter_admits(filter, *self),
    {
        let rank: u8 = match self {
            Level::Error => 1,
            Level::Warn => 2,
            Level::Info => 3,
            Level::Debug => 4,
            Level::Trace => 5,
        };
        let bound: u8 = match filter {
            LevelFilter::Off => 0,
            LevelFilter::Error => 1,
            LevelFilter::Warn => 2,
            LevelFilter::Info => 3,
            LevelFilter::Debug => 4,
            LevelFilter::Trace => 5,
        };
        rank <= bound
    }
}

/// Rendering a level and parsing the text back gives the same level.
pub proof fn lemma_name_round_trip(l: LogLevel)
    ensures
        parse_spec(level_name(l)) == Some(l),
{
    reveal_strlit("critical");
    reveal_strlit("normal");
    reveal_strlit("debug");
    reveal_strlit("off");
    let n = level_name(l);
    assert(ascii_lower(n) =~= n);
    assert(level_name(LogLevel::Critical).len() != level_name(LogLevel::Normal).len());
    assert(level_name(LogLevel::Critical).len() != level_name(LogLevel::Debug).len());
    assert(level_name(LogLevel::Critical).len() != level_name(LogLevel::Off).len());
    assert(level_name(LogLevel::Normal).len() != level_name(LogLevel::Debug).len());
    assert(level_name(LogLevel::Normal).len() != level_name(LogLevel::Off).len());
    assert(level_name(LogLevel::Debug).len() != level_name(LogLevel::Off).len());
}

/// Any spelling of a level's name that differs from it only in ASCII case parses
/// to that level.
pub proof fn lemma_parse_any_case(s: Seq<char>, l: LogLevel)
    requires
        ascii_lower(s) == level_name(l),
    ensures
        parse_spec(s) == Some(l),
{
    lemma_name_round_trip(l);
    let n = level_name(l);
    reveal_strlit("critical");
    reveal_strlit("normal");
    reveal_strlit("debug");
    reveal_strlit("off");
    assert(ascii_lower(n) =~= n);
}

} // verus!
