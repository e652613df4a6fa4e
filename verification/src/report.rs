//! The lines that a run prints.

use crate::decimal::{decimal_digits, render_decimal};
use crate::lookup::{ProcessInfo, ProcessInfoView};
use vstd::prelude::*;

verus! {

/// The line that announces the lookup of `port`.
pub open spec fn startup_text(port: u16) -> Seq<char> {
    "Checking conflicts on port "@ + decimal_digits(port as nat)
}

/// The line that reports that nothing listens on `port`.
pub open spec fn miss_text(port: u16) -> Seq<char> {
    "No process listening on port "@ + decimal_digits(port as nat)
}

/// The line that reports the listener `info` on `port`.
pub open spec fn hit_text(port: u16, info: ProcessInfoView) -> Seq<char> {
    "Process listening on port "@ + decimal_digits(port as nat) + " is "@ + info.name + ", pid: "@
        + decimal_digits(info.pid as nat) + ", user: "@ + info.user
}

/// The line that reports what a lookup of `port` found.
pub open spec fn report_text(port: u16, found: Option<ProcessInfoView>) -> Seq<char> {
    match found {
        Some(info) => hit_text(port, info),
        None => miss_text(port),
    }
}

/// The line that announces the lookup of `port`.
pub fn startup_line(port: u16) -> (line: String)
    ensures
        line@ == startup_text(port),
{
    let mut line = String::from_str("Checking conflicts on port ");
    line.append(render_decimal(port as u32).as_str());
    line
}

/// The line that reports what a lookup of `port` found.
pub fn report_line(port: u16, found: &Option<ProcessInfo>) -> (line: String)
    ensures
        line@ == report_text(
            port,
            match found {
                Some(info) => Some(info@),
                None => None,
            },
        ),
{
    match found {
        Some(info) => {
            let mut line = String::from_str("Process listening on port ");
            line.append(render_decimal(port as u32).as_str());
            line.append(" is ");
            line.append(info.name.as_str());
            line.append(", pid: ");
            line.append(render_decimal(info.pid).as_str());
            line.append(", user: ");
            line.append(info.user.as_str());
            line
        },
        None => {
            let mut line = String::from_str("No process listening on port ");
            line.append(render_decimal(port as u32).as_str());
            line
        },
    }
}

} // verus!
