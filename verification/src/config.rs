//! The settings of a run, and the time window that they ask for.

use vstd::prelude::*;
use crate::models::optional_text;
use crate::selector::requested_names;
use crate::window::{Span, TimeWindow, UtcInstant, fits_i64, window_end, window_start};

verus! {

/// The settings of a run.
#[derive(Debug, Clone, PartialEq, Eq)]
pub struct AppConfig {
    /// The region of the remote service, handed on as it is.
    pub region: Option<String>,
    /// The named profile of the remote service's credentials.
    pub profile: Option<String>,
    /// The names of the log groups to extract, or the word `all`.
    pub log_groups: Option<Vec<String>>,
    /// How far back the run looks, such as `1h` or `2days`.
    pub duration: String,
    /// The path of the store's file.
    pub sqlite_path: String,
}

/// The settings of a run, as plain data.
pub struct Settings {
    pub region: Option<Seq<char>>,
    pub profile: Option<Seq<char>>,
    /// The names that were asked for; none where no request was made.
    pub requested: Seq<Seq<char>>,
    pub duration: Seq<char>,
    pub sqlite_path: Seq<char>,
}

impl View for AppConfig {
    type V = Settings;

    open spec fn view(&self) -> Settings {
        Settings {
            region: optional_text(self.region),
            profile: optional_text(self.profile),
            requested: match self.log_groups {
                Some(names) => requested_names(names@),
                None => Seq::empty(),
            },
            duration: self.duration@,
            sqlite_path: self.sqlite_path@,
        }
    }
}

impl Default for AppConfig {
    /// The settings of a run that was given none: the region `us-east-1`,
    /// the profile `default`, all log groups, the last hour, and the store
    /// in `logs.db`.
    fn default() -> (config: AppConfig)
        ensures
            config@ == (Settings {
                region: Some("us-east-1"@),
                profile: Some("default"@),
                requested: seq!["all"@],
                duration: "1h"@,
                sqlite_path: "logs.db"@,
            }),
    {
        let mut log_groups: Vec<String> = Vec::new();
        log_groups.push(String::from_str("all"));
        assert(requested_names(log_groups@) =~= seq!["all"@]);
        AppConfig {
            region: Some(String::from_str("us-east-1")),
            profile: Some(String::from_str("default")),
            log_groups: Some(log_groups),
            duration: String::from_str("1h"),
            sqlite_path: String::from_str("logs.db"),
        }
    }
}

/// An exponent may have this many digits.
pub const MAX_EXPONENT_DIGITS: usize = 4;

/// Whether `c` is one of the digits `0` to `9`.
pub open spec fn is_digit(c: char) -> bool {
    '0' <= c <= '9'
}

/// Whether `c` is the letter that introduces an exponent.
pub open spec fn is_exponent_letter(c: char) -> bool {
    c == 'e' || c == 'E'
}

/// Where the digits of an exponent begin whose letter stands at `at`: behind
/// the letter, or behind the sign that follows it.
pub open spec fn exponent_digits_from(text: Seq<char>, at: int) -> int {
    if at + 1 < text.len() && (text[at + 1] == '+' || text[at + 1] == '-') {
        at + 2
    } else {
        at + 1
    }
}

/// Whether an exponent letter stands at `at` and more digits follow it than
/// an exponent may have.
pub open spec fn long_exponent_at(text: Seq<char>, at: int) -> bool {
    let from = exponent_digits_from(text, at);
    &&& 0 <= at < text.len()
    &&& is_exponent_letter(text[at])
    &&& from + MAX_EXPONENT_DIGITS < text.len()
    &&& forall|k: int| from <= k <= from + MAX_EXPONENT_DIGITS ==> is_digit(#[trigger] text[k])
}

/// Whether no exponent in `text` has more digits than an exponent may have.
pub open spec fn exponents_are_short(text: Seq<char>) -> bool {
    forall|at: int| 0 <= at < text.len() ==> !long_exponent_at(text, at)
}

/// The characters of `text`.
fn chars_of(text: &str) -> (chars: Vec<char>)
    ensures
        chars@ == text@,
{
    let mut chars: Vec<char> = Vec::new();
    for c in iter: text.chars()
        invariant
            iter.seq() == text@,
            chars@ == text@.take(iter.index() as int),
    {
        chars.push(c);
    }
    chars
}

/// Whether an exponent letter stands at `at` with more digits behind it than
/// an exponent may have.
fn long_exponent_starts(chars: &Vec<char>, at: usize) -> (long: bool)
    requires
        at < chars.len(),
    ensures
        long == long_exponent_at(chars@, at as int),
{
    let letter = chars[at];
    if letter != 'e' && letter != 'E' {
        return false;
    }
    let mut from: usize = at + 1;
    if from < chars.len() && (chars[from] == '+' || chars[from] == '-') {
        from = from + 1;
    }
    if chars.len() <= from || chars.len() - from <= MAX_EXPONENT_DIGITS {
        return false;
    }
    let mut k: usize = 0;
    while k <= MAX_EXPONENT_DIGITS
        invariant
            k <= MAX_EXPONENT_DIGITS + 1,
            from + MAX_EXPONENT_DIGITS < chars.len(),
            from == exponent_digits_from(chars@, at as int),
            forall|j: int| from <= j < from + k ==> is_digit(#[trigger] chars@[j]),
        decreases MAX_EXPONENT_DIGITS + 1 - k,
    {
        let digit = chars[from + k];
        if digit < '0' || digit > '9' {
            return false;
        }
        k = k + 1;
    }
    true
}

/// Whether no exponent in `text` has more digits than an exponent may have.
pub fn has_short_exponents(text: &str) -> (short: bool)
    ensures
        short == exponents_are_short(text@),
{
    let chars = chars_of(text);
    let mut at: usize = 0;
    while at < chars.len()
        invariant
            at <= chars.len(),
            chars@ == text@,
            forall|i: int| 0 <= i < at ==> !long_exponent_at(chars@, i),
        decreases chars.len() - at,
    {
        if long_exponent_starts(&chars, at) {
            return false;
        }
        at = at + 1;
    }
    true
}

/// Why the settings of a run do not give a time window.
#[derive(Debug, Clone, PartialEq, Eq)]
pub enum ConfigError {
    /// The duration expression holds an exponent of more digits than an
    /// exponent may have, and was not evaluated.
    ExponentTooLong { input: String },
    /// The duration expression is none, with the parser's own words.
    InvalidDuration { input: String, reason: String },
    /// The window begins or ends at a millisecond that cannot be held.
    WindowOutOfRange,
}

/// The error of `parse_duration::parse`. It is carried from the parser to
/// the function that puts it into words, and nothing is known of it.
#[verifier::external_type_specification]
#[verifier::external_body]
pub struct ExDurationParseError(parse_duration::parse::Error);

/// The span that the duration parser reads in `text`, where it reads one.
pub uninterp spec fn parsed_span(text: Seq<char>) -> Option<Span>;

/// Calls `parse_duration::parse`, which reads a length of time in a text
/// such as `1h`, `2days` or `1.5e3 ms`. The contract names what the parser
/// returns, seconds and nanoseconds as the parser's `Duration` holds them,
/// and says no more of it. The parser raises ten to the power of an
/// exponent that it finds, so texts with long exponents are kept from it.
#[verifier::external_body]
fn parse_span(text: &str) -> (result: Result<Span, parse_duration::parse::Error>)
    requires
        exponents_are_short(text@),
    ensures
        match result {
            Ok(span) => parsed_span(text@) == Some(span),
            Err(_) => parsed_span(text@) is None,
        },
{
    parse_duration::parse(text).map(
        |length| Span { secs: length.as_secs(), nanos: length.subsec_nanos() },
    )
}

/// The words in which `parse_duration::parse::Error` describes itself
/// through `Display`. Nothing is claimed of them.
#[verifier::external_body]
fn fault_text(error: &parse_duration::parse::Error) -> (words: String) {
    error.to_string()
}

/// The time window that a parsed duration gives at `now`: the window of the
/// span that ends at `now`, or the reason why there is none.
pub fn window_from(input: &str, parsed: Result<Span, String>, now: &UtcInstant) -> (result: Result<
    TimeWindow,
    ConfigError,
>)
    ensures
        match parsed {
            Ok(span) => match result {
                Ok(window) => window.start == window_start(*now, span) && window.end == window_end(
                    *now,
                ),
                Err(error) => error is WindowOutOfRange && !(fits_i64(window_start(*now, span))
                    && fits_i64(window_end(*now))),
            },
            Err(words) => (result matches Err(ConfigError::InvalidDuration { input: text, reason })
                && text@ == input@ && reason@ == words@),
        },
{
    match parsed {
        Ok(span) => match TimeWindow::ending_at(now, &span) {
            Some(window) => Ok(window),
            None => Err(ConfigError::WindowOutOfRange),
        },
        Err(words) => Err(
            ConfigError::InvalidDuration { input: String::from_str(input), reason: words },
        ),
    }
}

/// Why a duration expression gives no time window, as plain data. Of an
/// expression that the parser refused, the parser's words are left out.
pub enum WindowFault {
    ExponentTooLong { input: Seq<char> },
    InvalidDuration { input: Seq<char> },
    OutOfRange,
}

impl View for ConfigError {
    type V = WindowFault;

    open spec fn view(&self) -> WindowFault {
        match *self {
            ConfigError::ExponentTooLong { input } => WindowFault::ExponentTooLong {
                input: input@,
            },
            ConfigError::InvalidDuration { input, .. } => WindowFault::InvalidDuration {
                input: input@,
            },
            ConfigError::WindowOutOfRange => WindowFault::OutOfRange,
        }
    }
}

/// The time window that the duration expression `duration` gives at `now`,
/// from its first to its last millisecond.
///
/// An expression with an exponent of more digits than an exponent may have
/// is refused unread. Any other expression is read by the duration parser:
/// what it does not accept is refused, and what it accepts gives the window
/// of that span up to `now`, unless one of the window's bounds cannot be held.
pub open spec fn planned_window(duration: Seq<char>, now: UtcInstant) -> Result<
    (int, int),
    WindowFault,
> {
    if !exponents_are_short(duration) {
        Err(WindowFault::ExponentTooLong { input: duration })
    } else {
        match parsed_span(duration) {
            None => Err(WindowFault::InvalidDuration { input: duration }),
            Some(span) => if fits_i64(window_start(now, span)) && fits_i64(window_end(now)) {
                Ok((window_start(now, span), window_end(now)))
            } else {
                Err(WindowFault::OutOfRange)
            },
        }
    }
}

/// What a window or a refusal comes to as plain data.
pub open spec fn window_result(result: Result<TimeWindow, ConfigError>) -> Result<
    (int, int),
    WindowFault,
> {
    match result {
        Ok(window) => Ok((window.start as int, window.end as int)),
        Err(error) => Err(error@),
    }
}

impl AppConfig {
    /// The time window of a run that starts at `now`: the span that the
    /// duration expression names, up to `now`.
    ///
    /// An expression with an exponent of more than `MAX_EXPONENT_DIGITS`
    /// digits is refused unread, and one that the duration parser does not
    /// accept is refused with the parser's words; both refusals name the
    /// expression. A window with a bound that cannot be held is refused too.
    pub fn get_duration(&self, now: &UtcInstant) -> (result: Result<TimeWindow, ConfigError>)
        ensures
            window_result(result) == planned_window(self.duration@, *now),
    {
        let text = self.duration.as_str();
        if !has_short_exponents(text) {
            return Err(ConfigError::ExponentTooLong { input: self.duration.clone() });
        }
        let parsed = match parse_span(text) {
            Ok(span) => Ok(span),
            Err(error) => Err(fault_text(&error)),
        };
        window_from(text, parsed, now)
    }

    /// The names of the log groups that were asked for: none where no
    /// request was made.
    pub fn requested_log_groups(&self) -> (names: Vec<String>)
        ensures
            requested_names(names@) == self@.requested,
    {
        let mut names: Vec<String> = Vec::new();
        match &self.log_groups {
            Some(asked) => {
                let mut i: usize = 0;
                while i < asked.len()
                    invariant
                        i <= asked.len(),
                        names@ == asked@.take(i as int),
                    decreases asked.len() - i,
                {
                    names.push(asked[i].clone());
                    i = i + 1;
                }
            },
            None => {},
        }
        names
    }
}

} // verus!
