//! Severity levels: any number from 0 to 255, six of which have a name.

use vstd::prelude::*;
use crate::digits::{parse_small_uint, small_uint};
use crate::error::Error;
use crate::text::{is_word, lowered};

verus! {

/// A log level as a number. The named levels are preferred (see
/// [`NamedLogLevel`]), but any number is accepted, such as 32.
#[derive(Copy, Clone, Debug, PartialEq, Eq, Structural)]
pub struct NumericalLogLevel(pub u8);

/// The levels that have a name.
#[derive(Copy, Clone, Debug, PartialEq, Eq, Structural)]
pub enum NamedLogLevel {
    /// The service is going to stop or become unusable now.
    Fatal,
    /// Fatal for one request; the service goes on with the others.
    Error,
    /// Something an operator should look at eventually.
    Warn,
    /// Detail on regular operation.
    Info,
    /// Anything too verbose for `Info`.
    Debug,
    /// Logging from libraries, or very detailed logging.
    Trace,
}

impl NamedLogLevel {
    /// The number of this level.
    pub open spec fn value(self) -> u8 {
        match self {
            NamedLogLevel::Fatal => 60,
            NamedLogLevel::Error => 50,
            NamedLogLevel::Warn => 40,
            NamedLogLevel::Info => 30,
            NamedLogLevel::Debug => 20,
            NamedLogLevel::Trace => 10,
        }
    }

    /// The level whose number is `value`, if it has a name.
    pub open spec fn of_value(value: u8) -> Option<NamedLogLevel> {
        if value == 10 {
            Some(NamedLogLevel::Trace)
        } else if value == 20 {
            Some(NamedLogLevel::Debug)
        } else if value == 30 {
            Some(NamedLogLevel::Info)
        } else if value == 40 {
            Some(NamedLogLevel::Warn)
        } else if value == 50 {
            Some(NamedLogLevel::Error)
        } else if value == 60 {
            Some(NamedLogLevel::Fatal)
        } else {
            None
        }
    }

    /// The level that `name` names, whatever the case of its letters.
    pub open spec fn of_name(name: Seq<char>) -> Option<NamedLogLevel> {
        let word = lowered(name);
        if word == "trace"@ {
            Some(NamedLogLevel::Trace)
        } else if word == "debug"@ {
            Some(NamedLogLevel::Debug)
        } else if word == "info"@ {
            Some(NamedLogLevel::Info)
        } else if word == "warn"@ {
            Some(NamedLogLevel::Warn)
        } else if word == "error"@ {
            Some(NamedLogLevel::Error)
        } else if word == "fatal"@ {
            Some(NamedLogLevel::Fatal)
        } else {
            None
        }
    }

    /// The number of this level.
    pub fn to_u8(self) -> (r: u8)
        ensures
            r == self.value(),
    {
        match self {
            NamedLogLevel::Fatal => 60,
            NamedLogLevel::Error => 50,
            NamedLogLevel::Warn => 40,
            NamedLogLevel::Info => 30,
            NamedLogLevel::Debug => 20,
            NamedLogLevel::Trace => 10,
        }
    }

    /// The named level whose number is `value`.
    pub fn try_from(value: u8) -> (r: Result<NamedLogLevel, Error>)
        ensures
            match NamedLogLevel::of_value(value) {
                Some(level) => r == Ok::<NamedLogLevel, Error>(level),
                None => r == Err::<NamedLogLevel, Error>(Error::UnnamedLevel(value)),
            },
    {
        match value {
            10 => Ok(NamedLogLevel::Trace),
            20 => Ok(NamedLogLevel::Debug),
            30 => Ok(NamedLogLevel::Info),
            40 => Ok(NamedLogLevel::Warn),
            50 => Ok(NamedLogLevel::Error),
            60 => Ok(NamedLogLevel::Fatal),
            v => Err(Error::UnnamedLevel(v)),
        }
    }

    /// The level that `s` names, whatever the case of its letters.
    pub fn from_str(s: &str) -> (r: Result<NamedLogLevel, Error>)
        ensures
            match NamedLogLevel::of_name(s@) {
                Some(level) => r == Ok::<NamedLogLevel, Error>(level),
                None => r matches Err(Error::InvalidLevel(given)) && given@ == s@,
            },
    {
        if is_word(s, "trace") {
            Ok(NamedLogLevel::Trace)
        } else if is_word(s, "debug") {
            Ok(NamedLogLevel::Debug)
        } else if is_word(s, "info") {
            Ok(NamedLogLevel::Info)
        } else if is_word(s, "warn") {
            Ok(NamedLogLevel::Warn)
        } else if is_word(s, "error") {
            Ok(NamedLogLevel::Error)
        } else if is_word(s, "fatal") {
            Ok(NamedLogLevel::Fatal)
        } else {
            Err(Error::InvalidLevel(s.to_owned()))
        }
    }
}

impl NumericalLogLevel {
    /// The level that `text` denotes: its number where it is one from 0 to
    /// 255, else the number of the level that it names.
    pub open spec fn of_text(text: Seq<char>) -> Option<u8> {
        match small_uint(text) {
            Some(n) => Some(n),
            None => match NamedLogLevel::of_name(text) {
                Some(level) => Some(level.value()),
                None => None,
            },
        }
    }

    /// Reads a level given as a number or as a name.
    pub fn from_str(s: &str) -> (r: Result<NumericalLogLevel, Error>)
        ensures
            match NumericalLogLevel::of_text(s@) {
                Some(n) => r == Ok::<NumericalLogLevel, Error>(NumericalLogLevel(n)),
                None => r matches Err(Error::InvalidLevel(given)) && given@ == s@,
            },
    {
        match parse_small_uint(s) {
            Some(level) => Ok(NumericalLogLevel(level)),
            None => match NamedLogLevel::from_str(s) {
                Ok(level) => Ok(NumericalLogLevel(level.to_u8())),
                Err(_) => Err(Error::InvalidLevel(s.to_owned())),
            },
        }
    }
}

/// A record of level `level` passes the threshold `threshold` when its level
/// is at least the threshold.
pub open spec fn passes(level: u8, threshold: u8) -> bool {
    level >= threshold
}

} // verus!
