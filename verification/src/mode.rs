//! Which of the two servers a deployment runs: one of them, or both.

use vstd::prelude::*;

use crate::text::str_eq;

verus! {

/// The transports a process serves.
#[derive(Debug, Clone, Copy, PartialEq, Eq, Structural)]
pub enum Mode {
    Http,
    Grpc,
    Dual,
}

/// The mode a string names, if any.
pub open spec fn parse_mode_spec(s: Seq<char>) -> Option<Mode> {
    if s == "http"@ {
        Some(Mode::Http)
    } else if s == "grpc"@ {
        Some(Mode::Grpc)
    } else if s == "dual"@ {
        Some(Mode::Dual)
    } else {
        None
    }
}

impl Mode {
    /// Parses a mode name, rejecting anything but the three known ones.
    pub fn parse(s: &str) -> (r: Result<Mode, String>)
        ensures
            parse_mode_spec(s@) matches Some(m) ==> r == Result::<Mode, String>::Ok(m),
            parse_mode_spec(s@) is None ==> (r matches Err(e) && e@ == "Invalid mode: "@ + s@
                + ". Must be one of: http, grpc, dual"@),
    {
        if str_eq(s, "http") {
            Ok(Mode::Http)
        } else if str_eq(s, "grpc") {
            Ok(Mode::Grpc)
        } else if str_eq(s, "dual") {
            Ok(Mode::Dual)
        } else {
            Err(
                String::from_str("Invalid mode: ").concat(s).concat(
                    ". Must be one of: http, grpc, dual",
                ),
            )
        }
    }
}

impl core::str::FromStr for Mode {
    type Err = String;

    fn from_str(s: &str) -> Result<Mode, String> {
        Mode::parse(s)
    }
}

} // verus!
