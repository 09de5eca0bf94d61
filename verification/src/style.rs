//! The output formats.

use vstd::prelude::*;
use crate::error::Error;
use crate::text::{is_word, lowered};

verus! {

/// Supported output formats.
#[derive(Copy, Clone, Debug, PartialEq, Eq, Structural)]
pub enum Format {
    /// One header line for each record, then its longer fields.
    Long,
}

impl Format {
    /// The format that `name` names, whatever the case of its letters.
    pub open spec fn of_name(name: Seq<char>) -> Option<Format> {
        if lowered(name) == "long"@ {
            Some(Format::Long)
        } else {
            None
        }
    }

    /// The format that `s` names, whatever the case of its letters.
    pub fn from_str(s: &str) -> (r: Result<Format, Error>)
        ensures
            match Format::of_name(s@) {
                Some(format) => r == Ok::<Format, Error>(format),
                None => r matches Err(Error::InvalidFormat(given)) && given@ == s@,
            },
    {
        if is_word(s, "long") {
            Ok(Format::Long)
        } else {
            Err(Error::InvalidFormat(s.to_owned()))
        }
    }
}

} // verus!
