//! The logging levels a service configures. Formatting and the output
//! destination live with the embedding application; the library owns the
//! level taxonomy and its configured names.

use vstd::prelude::*;

use crate::text::str_eq;

verus! {

/// A log severity level.
#[derive(PartialEq, Eq, Structural, Clone, Copy, Debug)]
pub enum Level {
    Debug,
    Info,
    Warning,
    Error,
}

/// The level a configured name denotes, when it denotes one.
pub open spec fn level_of_name(s: Seq<char>) -> Option<Level> {
    if s == "debug"@ {
        Some(Level::Debug)
    } else if s == "info"@ {
        Some(Level::Info)
    } else if s == "warning"@ {
        Some(Level::Warning)
    } else if s == "error"@ {
        Some(Level::Error)
    } else {
        None
    }
}

impl Level {
    /// Parses a configured level name; an unknown name is the error,
    /// named in the message.
    pub fn from_str(s: &str) -> (r: Result<Level, String>)
        ensures
            match r {
                Ok(level) => level_of_name(s@) == Some(level),
                Err(msg) => level_of_name(s@) is None && msg@ == "unknown log level "@ + s@,
            },
    {
        if str_eq(s, "debug") {
            Ok(Level::Debug)
        } else if str_eq(s, "info") {
            Ok(Level::Info)
        } else if str_eq(s, "warning") {
            Ok(Level::Warning)
        } else if str_eq(s, "error") {
            Ok(Level::Error)
        } else {
            Err(String::from_str("unknown log level ").concat(s))
        }
    }

    /// The configured name of this level.
    pub fn as_str(&self) -> (r: String)
        ensures
            level_of_name(r@) == Some(*self),
    {
        proof {
            reveal_strlit("debug");
            reveal_strlit("info");
            reveal_strlit("warning");
            reveal_strlit("error");
            assert("debug"@.len() == 5 && "info"@.len() == 4 && "warning"@.len() == 7
                && "error"@.len() == 5);
            assert("debug"@[0] == 'd' && "error"@[0] == 'e');
            assert("info"@ != "debug"@);
            assert("warning"@ != "debug"@ && "warning"@ != "info"@);
            assert("error"@ != "debug"@ && "error"@ != "info"@ && "error"@ != "warning"@);
        }
        match self {
            Level::Debug => String::from_str("debug"),
            Level::Info => String::from_str("info"),
            Level::Warning => String::from_str("warning"),
            Level::Error => String::from_str("error"),
        }
    }
}

} // verus!
