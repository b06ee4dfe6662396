//! The settings of the sorter, and the checks they pass before a
//! schedule is made from them.

use vstd::prelude::*;
use vstd::string::*;

verus! {

/// Earliest first run that a configuration may name, in seconds since
/// 1970-01-01T00:00:00Z: the start of the year 0000.
pub const MIN_START: i64 = -62_167_219_200;

/// Latest first run that a configuration may name, in seconds since
/// 1970-01-01T00:00:00Z: the last second of the year 9999.
pub const MAX_START: i64 = 253_402_300_799;

/// Shortest interval between two runs, in days.
pub const MIN_INTERVAL: i64 = 1;

/// Longest interval between two runs, in days.
pub const MAX_INTERVAL: i64 = 7;

/// The way the time of the first run is written in the settings: hour
/// on a twelve-hour clock, minute, and `AM` or `PM`.
pub open spec fn time_format() -> Seq<char> {
    "%I:%M%p"@
}

/// Why settings were turned down.
#[derive(Clone, Copy, Debug, PartialEq, Eq, Structural)]
pub enum ConfigError {
    /// The downloads path does not lead to a directory.
    InvalidPath,
    /// The interval is not between one and seven days.
    IntervalOutOfRange,
    /// The time of the first run cannot be read.
    InvalidTime,
    /// Today, the local clock shows the time of the first run twice or
    /// not at all.
    NoSuchLocalTime,
    /// The first run lies outside the years 0000 to 9999.
    StartOutOfRange,
}

impl ConfigError {
    /// The error in words.
    pub fn message(&self) -> (text: &'static str)
        ensures
            text@ == match *self {
                ConfigError::InvalidPath => "Invalid path"@,
                ConfigError::IntervalOutOfRange => "Supported sorting interval is 1-7 days"@,
                ConfigError::InvalidTime => "Invalid time of day"@,
                ConfigError::NoSuchLocalTime => "No such local time today"@,
                ConfigError::StartOutOfRange => "Start date out of range"@,
            },
    {
        match self {
            ConfigError::InvalidPath => "Invalid path",
            ConfigError::IntervalOutOfRange => "Supported sorting interval is 1-7 days",
            ConfigError::InvalidTime => "Invalid time of day",
            ConfigError::NoSuchLocalTime => "No such local time today",
            ConfigError::StartOutOfRange => "Start date out of range",
        }
    }
}

/// What a configuration holds, as plain values.
pub struct ConfigView {
    /// The directory whose files are sorted.
    pub downloads_path: Seq<char>,
    /// The first run, in seconds since 1970-01-01T00:00:00Z.
    pub start_datetime: int,
    /// The time from one run to the next, in days.
    pub interval: int,
}

/// Whether the values may stand in a configuration.
pub open spec fn acceptable(start_datetime: int, interval: int) -> bool {
    &&& MIN_START <= start_datetime <= MAX_START
    &&& MIN_INTERVAL <= interval <= MAX_INTERVAL
}

/// Checked settings: where to sort, when to sort first, and how often.
/// A value of this type always holds an acceptable start and interval.
pub struct Config {
    downloads_path: String,
    start_datetime: i64,
    interval: i64,
}

impl View for Config {
    type V = ConfigView;

    closed spec fn view(&self) -> ConfigView {
        ConfigView {
            downloads_path: self.downloads_path@,
            start_datetime: self.start_datetime as int,
            interval: self.interval as int,
        }
    }
}

impl Config {
    #[verifier::type_invariant]
    spec fn well_formed(&self) -> bool {
        acceptable(self.start_datetime as int, self.interval as int)
    }

    /// Makes a configuration from a directory, the time of the first
    /// run in seconds since 1970-01-01T00:00:00Z, and the interval in
    /// days. The interval is looked at first.
    pub fn new(downloads_path: String, start_datetime: i64, interval: i64) -> (r: Result<
        Config,
        ConfigError,
    >)
        ensures
            match r {
                Ok(conf) => acceptable(start_datetime as int, interval as int) && conf@
                    == (ConfigView {
                    downloads_path: downloads_path@,
                    start_datetime: start_datetime as int,
                    interval: interval as int,
                }),
                Err(e) => if MIN_INTERVAL <= interval <= MAX_INTERVAL {
                    e == ConfigError::StartOutOfRange && !(MIN_START <= start_datetime
                        <= MAX_START)
                } else {
                    e == ConfigError::IntervalOutOfRange
                },
            },
    {
        if interval < MIN_INTERVAL || interval > MAX_INTERVAL {
            Err(ConfigError::IntervalOutOfRange)
        } else if start_datetime < MIN_START || start_datetime > MAX_START {
            Err(ConfigError::StartOutOfRange)
        } else {
            Ok(Config { downloads_path, start_datetime, interval })
        }
    }

    /// The directory whose files are sorted.
    pub fn downloads_path(&self) -> (path: &str)
        ensures
            path@ == self@.downloads_path,
    {
        self.downloads_path.as_str()
    }

    /// The first run, in seconds since 1970-01-01T00:00:00Z.
    pub fn start_datetime(&self) -> (start: i64)
        ensures
            start == self@.start_datetime,
            MIN_START <= start <= MAX_START,
    {
        proof {
            use_type_invariant(self);
        }
        self.start_datetime
    }

    /// The time from one run to the next, in days.
    pub fn interval(&self) -> (days: i64)
        ensures
            days == self@.interval,
            MIN_INTERVAL <= days <= MAX_INTERVAL,
    {
        proof {
            use_type_invariant(self);
        }
        self.interval
    }
}

/// What `chrono::NaiveTime::parse_from_str` makes of a text under a
/// format: the time of day in seconds after midnight, or nothing where
/// it refuses the text.
pub uninterp spec fn parsed_time(text: Seq<char>, format: Seq<char>) -> Option<u32>;

/// Reads a time of day with `chrono::NaiveTime::parse_from_str` and
/// gives it in whole seconds after midnight
/// (`num_seconds_from_midnight`). Nothing is claimed but that the
/// answer depends on the two texts alone.
#[verifier::external_body]
fn parse_time(text: &str, format: &str) -> (seconds: Option<u32>)
    ensures
        seconds == parsed_time(text@, format@),
{
    match chrono::NaiveTime::parse_from_str(text, format) {
        Ok(time) => Some(chrono::Timelike::num_seconds_from_midnight(&time)),
        Err(_) => None,
    }
}

/// Asks `chrono::Local` for today's date (`now`, `date_naive`) and for
/// the one instant at which the local clock shows the given time of
/// day today (`and_local_timezone`), in seconds since
/// 1970-01-01T00:00:00Z. The answer depends on the machine's clock and
/// time zone, so nothing is claimed of it. `chrono` panics on no
/// argument but on two states of the machine: a system clock that
/// stands before 1970, and time-zone data in which it finds no local
/// time type for the instant asked for.
#[verifier::external_body]
fn today_at(seconds_after_midnight: u32) -> (start: Option<i64>) {
    let time = chrono::NaiveTime::from_num_seconds_from_midnight_opt(seconds_after_midnight, 0)?;
    let today = chrono::Local::now().date_naive();
    match chrono::NaiveDateTime::new(today, time).and_local_timezone(chrono::Local) {
        chrono::MappedLocalTime::Single(start) => Some(start.timestamp()),
        chrono::MappedLocalTime::Ambiguous(_, _) => None,
        chrono::MappedLocalTime::None => None,
    }
}

/// Checks settings as they were read and makes a configuration of
/// them. `is_directory` says whether `downloads_path` leads to a
/// directory; `sort_at` is the time of day of the first run, which
/// falls on today's date; `every_n_days` is the interval.
///
/// The checks come in this order: the path, the interval, the time of
/// day. Where all three pass, the instant of the first run is the
/// local clock's word: the settings are then accepted with that
/// instant, unless the clock knows no such instant today or names one
/// outside the years that a configuration may hold.
pub fn get(downloads_path: String, is_directory: bool, sort_at: &str, every_n_days: i64) -> (r:
    Result<Config, ConfigError>)
    ensures
        !is_directory ==> r == Err::<Config, ConfigError>(ConfigError::InvalidPath),
        is_directory && !(MIN_INTERVAL <= every_n_days <= MAX_INTERVAL) ==> r == Err::<
            Config,
            ConfigError,
        >(ConfigError::IntervalOutOfRange),
        is_directory && MIN_INTERVAL <= every_n_days <= MAX_INTERVAL && parsed_time(
            sort_at@,
            time_format(),
        ) is None ==> r == Err::<Config, ConfigError>(ConfigError::InvalidTime),
        is_directory && MIN_INTERVAL <= every_n_days <= MAX_INTERVAL && parsed_time(
            sort_at@,
            time_format(),
        ) is Some ==> match r {
            Ok(conf) => conf@.downloads_path == downloads_path@ && conf@.interval == every_n_days
                && MIN_START <= conf@.start_datetime <= MAX_START,
            Err(e) => e == ConfigError::NoSuchLocalTime || e == ConfigError::StartOutOfRange,
        },
{
    if !is_directory {
        return Err(ConfigError::InvalidPath);
    }
    if every_n_days < MIN_INTERVAL || every_n_days > MAX_INTERVAL {
        return Err(ConfigError::IntervalOutOfRange);
    }
    let seconds = match parse_time(sort_at, "%I:%M%p") {
        Some(seconds) => seconds,
        None => {
            return Err(ConfigError::InvalidTime);
        },
    };
    match today_at(seconds) {
        Some(start) => Config::new(downloads_path, start, every_n_days),
        None => Err(ConfigError::NoSuchLocalTime),
    }
}

} // verus!
