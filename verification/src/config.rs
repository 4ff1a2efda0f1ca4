//! The persisted settings record.
//!
//! The configuration carries what the scanner's and the store's callers
//! need: obfuscated mode, logging, the update schedule, and the store
//! metadata shown to the user.  Reading and writing it on disk is the
//! caller's business; this module owns the values and what they mean.

use crate::schedule::UpdateSchedule;
use vstd::prelude::*;

verus! {

/// The persisted settings.
pub struct Config {
    /// Entry count of the signature store at the last refresh.
    pub hashes_in_db: u32,
    /// When the store was last refreshed, or "Never".
    pub last_db_update: String,
    /// Whether scan results are logged to files.
    pub logging_is_active: bool,
    /// Obfuscated mode: results are shown only as pass/fail, and a scan
    /// stops at the first match.
    pub obfuscated_is_active: bool,
    /// Scheduled update weekday, 0 (Sunday) – 6 (Saturday), or -1 for
    /// "no schedule configured".
    pub db_update_weekday: i32,
    /// Scheduled update time of day, rendered "HH:MM:SS".
    pub db_update_time: String,
}

/// A decimal digit character.
pub open spec fn is_dec_char(c: char) -> bool {
    '0' <= c && c <= '9'
}

/// The numeric value of a decimal digit character.
pub open spec fn dec_char_val(c: char) -> int {
    if c == '0' {
        0
    } else if c == '1' {
        1
    } else if c == '2' {
        2
    } else if c == '3' {
        3
    } else if c == '4' {
        4
    } else if c == '5' {
        5
    } else if c == '6' {
        6
    } else if c == '7' {
        7
    } else if c == '8' {
        8
    } else {
        9
    }
}

/// The hour a time-of-day rendering names: its first two characters read
/// as a two-digit number, when they are digits and the hour is a real
/// one.
pub open spec fn hour_of_time(s: Seq<char>) -> Option<int> {
    if s.len() >= 2 && is_dec_char(s[0]) && is_dec_char(s[1]) {
        let h = 10 * dec_char_val(s[0]) + dec_char_val(s[1]);
        if h <= 23 {
            Some(h)
        } else {
            None
        }
    } else {
        None
    }
}

/// The update schedule a configuration encodes, when its fields are
/// meaningful.
pub open spec fn config_schedule(c: Config) -> Option<UpdateSchedule> {
    if -1 <= c.db_update_weekday <= 6 {
        match hour_of_time(c.db_update_time@) {
            Some(h) => Some(UpdateSchedule { hour: h as i32, weekday: c.db_update_weekday }),
            None => None,
        }
    } else {
        None
    }
}

fn dec_char_value(c: char) -> (v: Option<u32>)
    ensures
        v is Some <==> is_dec_char(c),
        v matches Some(d) ==> d == dec_char_val(c) && d <= 9,
{
    if '0' <= c && c <= '9' {
        let v: u32 = match c {
            '0' => 0,
            '1' => 1,
            '2' => 2,
            '3' => 3,
            '4' => 4,
            '5' => 5,
            '6' => 6,
            '7' => 7,
            '8' => 8,
            _ => 9,
        };
        Some(v)
    } else {
        None
    }
}

impl Config {
    /// The defaults: an empty, never-refreshed store, obfuscated mode
    /// on, logging off, and no update schedule configured.
    pub fn new() -> (c: Config)
        ensures
            c.hashes_in_db == 0,
            c.last_db_update@ == "Never"@,
            !c.logging_is_active,
            c.obfuscated_is_active,
            c.db_update_weekday == -1,
            c.db_update_time@ == "22:00:00"@,
    {
        Config {
            hashes_in_db: 0,
            last_db_update: "Never".to_owned(),
            logging_is_active: false,
            obfuscated_is_active: true,
            db_update_weekday: -1,
            db_update_time: "22:00:00".to_owned(),
        }
    }

    /// The update schedule this configuration encodes, or nothing when
    /// the weekday or the time of day is not meaningful.
    pub fn update_schedule(&self) -> (r: Option<UpdateSchedule>)
        ensures
            r == config_schedule(*self),
            r matches Some(s) ==> s.wf(),
    {
        if !(-1 <= self.db_update_weekday && self.db_update_weekday <= 6) {
            return None;
        }
        let time = self.db_update_time.as_str();
        if time.unicode_len() < 2 {
            return None;
        }
        let d0 = match dec_char_value(time.get_char(0)) {
            Some(d) => d,
            None => {
                return None;
            },
        };
        let d1 = match dec_char_value(time.get_char(1)) {
            Some(d) => d,
            None => {
                return None;
            },
        };
        let hour = 10 * d0 + d1;
        if hour <= 23 {
            Some(UpdateSchedule { hour: hour as i32, weekday: self.db_update_weekday })
        } else {
            None
        }
    }
}

} // verus!
