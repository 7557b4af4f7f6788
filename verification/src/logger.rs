//! The lines of the engine log. Writing them to the console and to the log
//! file belongs to the program around the library.

use vstd::prelude::*;
use chrono::TimeZone;
use crate::text::{chars_of, digit_char, push_all, string_of};

verus! {

/// How grave a line of the log is.
#[derive(Clone, Copy, Debug, PartialEq, Eq, Structural)]
pub enum LogLevel {
    INFO,
    WARN,
    ERROR,
    FATAL,
    DEBUG,
}

impl LogLevel {
    /// The name of the level as it stands in the log.
    pub open spec fn name_text(self) -> Seq<char> {
        match self {
            LogLevel::INFO => "INFO"@,
            LogLevel::WARN => "WARN"@,
            LogLevel::ERROR => "ERROR"@,
            LogLevel::FATAL => "FATAL"@,
            LogLevel::DEBUG => "DEBUG"@,
        }
    }

    /// The name of the level as it stands in the log.
    pub fn name(self) -> (r: &'static str)
        ensures
            r@ == self.name_text(),
    {
        match self {
            LogLevel::INFO => "INFO",
            LogLevel::WARN => "WARN",
            LogLevel::ERROR => "ERROR",
            LogLevel::FATAL => "FATAL",
            LogLevel::DEBUG => "DEBUG",
        }
    }
}

/// The seconds of a day.
pub const DAY: u64 = 86_400;

/// A number below 100 in two digits.
pub open spec fn two_digits(n: int) -> Seq<char> {
    seq![digit_char(n / 10), digit_char(n % 10)]
}

/// The time of day, in hours, minutes and seconds of two digits each, at
/// `seconds` seconds after a midnight.
pub open spec fn time_of_day(seconds: int) -> Seq<char> {
    two_digits(seconds / 3600 % 24) + seq![':'] + two_digits(seconds / 60 % 60) + seq![':']
        + two_digits(seconds % 60)
}

/// Calls chrono's `Utc.timestamp_opt(seconds, 0)` and formats the time with
/// `%H:%M:%S`. The contract says, for the seconds of the first day after the
/// epoch, that the text is the time of day.
#[verifier::external_body]
fn time_text(seconds: u64) -> (r: String)
    requires
        seconds < DAY,
    ensures
        r@ == time_of_day(seconds as int),
{
    chrono::Utc.timestamp_opt(seconds as i64, 0).unwrap().format("%H:%M:%S").to_string()
}

/// A line of the log: the time of day in UTC, the level, the module in
/// parentheses, a colon and the message.
pub open spec fn log_line(
    log_level: LogLevel,
    module: Seq<char>,
    message: Seq<char>,
    timestamp: int,
) -> Seq<char> {
    time_of_day(timestamp % (DAY as int)) + " "@ + log_level.name_text() + " ("@ + module + "): "@
        + message
}

/// The logger.
#[derive(Clone, Debug, PartialEq)]
pub struct Logger {
    pub splash: [&'static str; 12],
    pub colors: [u8; 5],
}

impl Logger {
    /// The logger with the splash of the engine.
    pub fn new() -> (r: Self)
        ensures
            r.colors@ == seq![15u8, 11u8, 14u8, 12u8, 8u8],
    {
        let r = Logger {
            splash: [
                " __________________      _____  ___________ ___________ _______    ________.___ _______ ___________    ",
                "\\_   _____/\\      \\    /  _  \\ \\_   _____/ \\_   _____/ \\      \\  /  _____/|   |\\      \\ \\_   _____/    ",
                " |    __)  /   |   \\  /  /_\\  \\ |    __)    |    __)_  /   |   \\/   \\  ___|   |/   |   \\ |    __)_     ",
                " |     \\  /    |    \\/    |    \\|     \\     |        \\/    |    \\    \\_\\  \\   /    |    \\|        \\    ",
                " \\___  /  \\____|__  /\\____|__  /\\___  /    /_______  /\\____|__  /\\______  /___\\____|__  /_______  /    ",
                "     \\/           \\/         \\/     \\/             \\/         \\/        \\/            \\/        \\/     ",
                "                              __________ ____ ___  ____________________                            ",
                "                              \\______   \\    |   \\/   _____/\\__    ___/                            ",
                "      ______   ______   ______ |       _/    |   /\\_____  \\   |    |  ______   ______   ______     ",
                "     /_____/  /_____/  /_____/ |    |   \\    |  / /        \\  |    | /_____/  /_____/  /_____/     ",
                "                               |____|_  /______/ /_______  /  |____|                               ",
                "                                      \\/                 \\/                                        ",
            ],
            colors: [15, 11, 14, 12, 8],
        };
        assert(r.colors@ =~= seq![15u8, 11u8, 14u8, 12u8, 8u8]);
        r
    }

    /// The line of the log for a message of the module `module` at
    /// `timestamp` seconds after the epoch.
    pub fn log_custom(&self, log_level: LogLevel, module: &str, message: &str, timestamp: u64) -> (r:
        String)
        ensures
            r@ == log_line(log_level, module@, message@, timestamp as int),
    {
        let mut line = chars_of(time_text(timestamp % DAY).as_str());
        push_all(&mut line, &chars_of(" "));
        push_all(&mut line, &chars_of(log_level.name()));
        push_all(&mut line, &chars_of(" ("));
        push_all(&mut line, &chars_of(module));
        push_all(&mut line, &chars_of("): "));
        push_all(&mut line, &chars_of(message));
        string_of(&line)
    }

    /// The line of the log for a piece of information.
    pub fn log(&self, module: &str, message: &str, timestamp: u64) -> (r: String)
        ensures
            r@ == log_line(LogLevel::INFO, module@, message@, timestamp as int),
    {
        self.log_custom(LogLevel::INFO, module, message, timestamp)
    }

    /// The line of the log for an error.
    pub fn log_error(&self, module: &str, message: &str, timestamp: u64) -> (r: String)
        ensures
            r@ == log_line(LogLevel::ERROR, module@, message@, timestamp as int),
    {
        self.log_custom(LogLevel::ERROR, module, message, timestamp)
    }

    /// The line of the log for a warning.
    pub fn log_warn(&self, module: &str, message: &str, timestamp: u64) -> (r: String)
        ensures
            r@ == log_line(LogLevel::WARN, module@, message@, timestamp as int),
    {
        self.log_custom(LogLevel::WARN, module, message, timestamp)
    }
}

} // verus!
