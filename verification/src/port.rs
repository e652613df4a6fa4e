//! The port to look up, as the command line gives it.

use crate::decimal::{parse_decimal, parse_decimal_spec, NumberError};
use vstd::prelude::*;

verus! {

/// The port that is looked up where the command line names none.
pub const DEFAULT_PORT: u16 = 8080;

/// The greatest port.
pub const PORT_LIMIT: u32 = 65535;

/// The port that `text` names: an unsigned decimal number of at most 65535.
pub open spec fn port_of(text: Seq<char>) -> Result<u16, NumberError> {
    match parse_decimal_spec(text, PORT_LIMIT as nat) {
        Ok(n) => Ok(n as u16),
        Err(e) => Err(e),
    }
}

/// The port that a run looks up, where its command line gave `given`, or gave
/// none.
pub open spec fn effective_port_of(given: Option<Seq<char>>) -> Result<u16, NumberError> {
    match given {
        Some(text) => port_of(text),
        None => Ok(DEFAULT_PORT),
    }
}

/// Reads `text` as a port.
pub fn parse_port(text: &str) -> (r: Result<u16, NumberError>)
    ensures
        r == port_of(text@),
{
    match parse_decimal(text, PORT_LIMIT) {
        Ok(n) => Ok(n as u16),
        Err(e) => Err(e),
    }
}

/// The port to look up: the one that the command line names, or the default
/// where it names none.
pub fn effective_port(given: Option<&str>) -> (r: Result<u16, NumberError>)
    ensures
        r == effective_port_of(
            match given {
                Some(text) => Some(text@),
                None => None,
            },
        ),
{
    match given {
        Some(text) => parse_port(text),
        None => Ok(DEFAULT_PORT),
    }
}

} // verus!
