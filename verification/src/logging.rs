//! The levels of the runtime's log and the rule that decides what is
//! written.

use crate::text::{chars_of, dec_digit_chars_wide, dec_digits, extend_chars, extend_str, string_of};
use vstd::prelude::*;

verus! {

/// The level of a log message, from the most to the least severe.
#[derive(Clone, Copy, Debug, PartialEq, Eq, Structural)]
pub enum Level {
    Error,
    Warn,
    Info,
    Debug,
    Trace,
}

impl Level {
    /// The rank of the level: the more severe, the lower.
    pub open spec fn rank(self) -> int {
        match self {
            Level::Error => 1,
            Level::Warn => 2,
            Level::Info => 3,
            Level::Debug => 4,
            Level::Trace => 5,
        }
    }

    /// The rank of the level.
    pub fn rank_of(&self) -> (r: u8)
        ensures
            r == self.rank(),
    {
        match self {
            Level::Error => 1,
            Level::Warn => 2,
            Level::Info => 3,
            Level::Debug => 4,
            Level::Trace => 5,
        }
    }

    /// The name of the level as log entries print it.
    pub open spec fn label(self) -> Seq<char> {
        match self {
            Level::Error => "Error"@,
            Level::Warn => "Warn"@,
            Level::Info => "Info"@,
            Level::Debug => "Debug"@,
            Level::Trace => "Trace"@,
        }
    }

    /// The name of the level as log entries print it.
    pub fn name(&self) -> (r: &'static str)
        ensures
            r@ == self.label(),
    {
        match self {
            Level::Error => "Error",
            Level::Warn => "Warn",
            Level::Info => "Info",
            Level::Debug => "Debug",
            Level::Trace => "Trace",
        }
    }
}

/// The lower-case form of an ASCII letter, and any other character as it
/// is.
pub open spec fn lower(c: char) -> char {
    if 'A' <= c && c <= 'Z' {
        ((c as u8) + 32) as char
    } else {
        c
    }
}

/// `text` is `word`, which is in lower case, in some mix of upper and lower
/// case.
pub open spec fn spells(text: Seq<char>, word: Seq<char>) -> bool {
    text.len() == word.len() && forall|i: int| 0 <= i < text.len() ==> lower(#[trigger] text[i])
        == word[i]
}

/// The level that a text names: the name of a level in any mix of upper and
/// lower case.
pub open spec fn level_named(text: Seq<char>) -> Option<Level> {
    if spells(text, "error"@) {
        Some(Level::Error)
    } else if spells(text, "warn"@) {
        Some(Level::Warn)
    } else if spells(text, "info"@) {
        Some(Level::Info)
    } else if spells(text, "debug"@) {
        Some(Level::Debug)
    } else if spells(text, "trace"@) {
        Some(Level::Trace)
    } else {
        None
    }
}

fn lower_char(c: char) -> (r: char)
    ensures
        r == lower(c),
{
    if 'A' <= c && c <= 'Z' {
        ((c as u8) + 32) as char
    } else {
        c
    }
}

fn spelled(text: &Vec<char>, word: &str) -> (r: bool)
    ensures
        r == spells(text@, word@),
{
    let w = chars_of(word);
    if text.len() != w.len() {
        return false;
    }
    let mut i: usize = 0;
    while i < text.len()
        invariant
            i <= text.len(),
            text.len() == w.len(),
            w@ == word@,
            forall|k: int| 0 <= k < i ==> lower(#[trigger] text@[k]) == w@[k],
        decreases text.len() - i,
    {
        if lower_char(text[i]) != w[i] {
            return false;
        }
        i += 1;
    }
    true
}

/// Reads the name of a log level, in any mix of upper and lower case.
pub fn parse_log_level(level_str: &str) -> (r: Option<Level>)
    ensures
        r == level_named(level_str@),
{
    let text = chars_of(level_str);
    if spelled(&text, "error") {
        Some(Level::Error)
    } else if spelled(&text, "warn") {
        Some(Level::Warn)
    } else if spelled(&text, "info") {
        Some(Level::Info)
    } else if spelled(&text, "debug") {
        Some(Level::Debug)
    } else if spelled(&text, "trace") {
        Some(Level::Trace)
    } else {
        None
    }
}

/// The level of the log where the environment names `requested`: a name
/// that is no level gives `Info`, and no name at all gives `Error`.
pub fn level_from_environment(requested: Option<&str>) -> (r: Level)
    ensures
        r == match requested {
            Some(s) => match level_named(s@) {
                Some(l) => l,
                None => Level::Info,
            },
            None => Level::Error,
        },
{
    match requested {
        Some(s) => match parse_log_level(s) {
            Some(l) => l,
            None => Level::Info,
        },
        None => Level::Error,
    }
}

/// The message that reports how long a phase took: what the phase is
/// called, and the nanoseconds in brackets.
pub fn log_elapsed_time(message: &str, elapsed_ns: u128) -> (r: String)
    ensures
        r@ == message@ + " :["@ + dec_digits(elapsed_ns as nat) + " ns]"@,
{
    let mut out = chars_of(message);
    extend_str(&mut out, " :[");
    extend_chars(&mut out, &dec_digit_chars_wide(elapsed_ns));
    extend_str(&mut out, " ns]");
    string_of(&out)
}

/// The state of the log: the least severe level that is still written.
#[derive(Clone, Copy, Debug)]
pub struct Logger {
    /// Messages of this level and of the more severe ones are written.
    pub level: Level,
}

impl Logger {
    /// A log that writes messages down to `level`.
    pub fn new(level: Level) -> (l: Logger)
        ensures
            l.level == level,
    {
        Logger { level: level }
    }

    /// Changes the least severe level that is written.
    pub fn set_level(&mut self, level: Level)
        ensures
            final(self).level == level,
    {
        self.level = level;
    }

    /// The entry to write for a message, or nothing where the message is
    /// less severe than the log's level: the name of the message's level, a
    /// colon, a blank, the message and a line feed.
    pub fn log(&self, level: Level, message: &str) -> (r: Option<String>)
        ensures
            match r {
                Some(entry) => level.rank() <= self.level.rank() && entry@ == level.label() + ": "@
                    + message@ + "\n"@,
                None => level.rank() > self.level.rank(),
            },
    {
        if level.rank_of() <= self.level.rank_of() {
            let mut out = chars_of(level.name());
            extend_str(&mut out, ": ");
            extend_str(&mut out, message);
            extend_str(&mut out, "\n");
            Some(string_of(&out))
        } else {
            None
        }
    }
}

} // verus!
