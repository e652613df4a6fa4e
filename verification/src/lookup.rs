//! Looking up the process that listens on a port.
//!
//! The lookup itself is the work of a utility of the host system. This module
//! decides which utility to run for a platform and a port, and reads the
//! listener out of what the utility printed. Only a socket in the listening
//! state counts, and that is the utility's part: it is asked for listening
//! sockets alone. Of what it prints, the line after the header is read.

use crate::decimal::{
    decimal_digits, lemma_parse_digits, parse_decimal, parse_decimal_spec, render_decimal,
    NumberError,
};
use crate::port::{port_of, PORT_LIMIT};
use crate::text::{lines_of, split_lines, split_tokens, tokens_of, views};
use vstd::prelude::*;

verus! {

/// The process that listens on a port.
#[derive(Debug, Clone, PartialEq, Eq)]
pub struct ProcessInfo {
    /// The identifier of the process.
    pub pid: u32,
    /// The name of the command that the process runs.
    pub name: String,
    /// The name of the user who owns the process.
    pub user: String,
}

/// A `ProcessInfo` as plain values.
pub struct ProcessInfoView {
    pub pid: u32,
    pub name: Seq<char>,
    pub user: Seq<char>,
}

impl View for ProcessInfo {
    type V = ProcessInfoView;

    open spec fn view(&self) -> ProcessInfoView {
        ProcessInfoView { pid: self.pid, name: self.name@, user: self.user@ }
    }
}

/// Why the output of the utility names no process, though it has a row for
/// one.
#[derive(Debug, Clone, Copy, PartialEq, Eq, Structural)]
pub enum LookupError {
    /// The row has fewer than three fields.
    MissingField,
    /// The second field of the row is no process identifier.
    InvalidPid(NumberError),
}

/// The host systems that the lookup tells apart.
#[derive(Debug, Clone, Copy, PartialEq, Eq, Structural)]
pub enum Platform {
    Linux,
    MacOs,
    Other,
}

impl Platform {
    /// Whether a lookup exists for this platform.
    pub open spec fn has_lookup(self) -> bool {
        self == Platform::MacOs
    }
}

/// The greatest process identifier.
pub const PID_LIMIT: u32 = 0xFFFF_FFFF;

/// The record that one row of the listing stands for: its first three
/// tokens are the command name, the process identifier and the user.
pub open spec fn row_record(row: Seq<char>) -> Result<ProcessInfoView, LookupError> {
    let fields = tokens_of(row);
    if fields.len() < 3 {
        Err(LookupError::MissingField)
    } else {
        match parse_decimal_spec(fields[1], PID_LIMIT as nat) {
            Ok(pid) => Ok(ProcessInfoView { pid: pid as u32, name: fields[0], user: fields[2] }),
            Err(e) => Err(LookupError::InvalidPid(e)),
        }
    }
}

/// The listener that a listing names. A run of the utility that failed, and
/// a listing of fewer than two lines, name none. Otherwise the first line is
/// the header, and the second is the row of the listener.
pub open spec fn listing_record(success: bool, listing: Seq<char>) -> Result<
    Option<ProcessInfoView>,
    LookupError,
> {
    let rows = lines_of(listing);
    if !success || rows.len() < 2 {
        Ok(None)
    } else {
        match row_record(rows[1]) {
            Ok(info) => Ok(Some(info)),
            Err(e) => Err(e),
        }
    }
}

/// Reads one row of the listing.
pub fn parse_row(row: &str) -> (r: Result<ProcessInfo, LookupError>)
    ensures
        match row_record(row@) {
            Ok(info) => r is Ok && r->Ok_0@ == info,
            Err(e) => r == Err::<ProcessInfo, LookupError>(e),
        },
{
    let fields = split_tokens(row);
    if fields.len() < 3 {
        return Err(LookupError::MissingField);
    }
    assert(views(fields@)[0] == fields@[0]@);
    assert(views(fields@)[1] == fields@[1]@);
    assert(views(fields@)[2] == fields@[2]@);
    match parse_decimal(fields[1].as_str(), PID_LIMIT) {
        Ok(pid) => Ok(ProcessInfo { pid, name: fields[0].clone(), user: fields[2].clone() }),
        Err(e) => Err(LookupError::InvalidPid(e)),
    }
}

/// Reads the listener out of what the utility printed. `success` says
/// whether the utility reported success when it ended.
pub fn parse_listing(success: bool, listing: &str) -> (r: Result<Option<ProcessInfo>, LookupError>)
    ensures
        match listing_record(success, listing@) {
            Ok(Some(info)) => r matches Ok(Some(found)) && found@ == info,
            Ok(None) => r matches Ok(None),
            Err(e) => r == Err::<Option<ProcessInfo>, LookupError>(e),
        },
{
    if !success {
        return Ok(None);
    }
    let rows = split_lines(listing);
    if rows.len() < 2 {
        return Ok(None);
    }
    assert(views(rows@)[1] == rows@[1]@);
    match parse_row(rows[1].as_str()) {
        Ok(info) => Ok(Some(info)),
        Err(e) => Err(e),
    }
}

/// A utility to run: the program and its arguments.
#[derive(Debug, Clone, PartialEq, Eq)]
pub struct UtilityCall {
    pub program: String,
    pub args: Vec<String>,
}

/// A `UtilityCall` as plain values.
pub struct UtilityCallView {
    pub program: Seq<char>,
    pub args: Seq<Seq<char>>,
}

impl View for UtilityCall {
    type V = UtilityCallView;

    open spec fn view(&self) -> UtilityCallView {
        UtilityCallView { program: self.program@, args: views(self.args@) }
    }
}

/// The call that lists the listening TCP sockets on `port`:
/// `lsof -iTCP:<port> -sTCP:LISTEN`.
pub open spec fn listing_call(port: u16) -> UtilityCallView {
    UtilityCallView {
        program: "lsof"@,
        args: seq!["-iTCP:"@ + decimal_digits(port as nat), "-sTCP:LISTEN"@],
    }
}

/// What a lookup does first.
#[derive(Debug, Clone, PartialEq, Eq)]
pub enum LookupStep {
    /// The platform has no lookup. Nothing is run, and the lookup finds no
    /// listener.
    NoListener,
    /// Run this utility, and read its output with `lookup_result`.
    Run(UtilityCall),
}

/// The first step of a lookup of `port` on `platform`.
pub open spec fn first_step(platform: Platform, port: u16) -> Option<UtilityCallView> {
    if platform.has_lookup() {
        Some(listing_call(port))
    } else {
        None
    }
}

/// What a lookup on `platform` finds, given how the utility ended and what
/// it printed. A platform without a lookup finds no listener, whatever the
/// other two say.
pub open spec fn lookup_record(platform: Platform, success: bool, listing: Seq<char>) -> Result<
    Option<ProcessInfoView>,
    LookupError,
> {
    if platform.has_lookup() {
        listing_record(success, listing)
    } else {
        Ok(None)
    }
}

/// Whether a lookup exists for `platform`.
pub fn has_lookup(platform: Platform) -> (b: bool)
    ensures
        b == platform.has_lookup(),
{
    match platform {
        Platform::MacOs => true,
        Platform::Linux => false,
        Platform::Other => false,
    }
}

/// Begins a lookup of `port` on `platform`: names the utility to run, or
/// says that there is none.
pub fn lookup_step(platform: Platform, port: u16) -> (step: LookupStep)
    ensures
        match first_step(platform, port) {
            Some(call) => step matches LookupStep::Run(c) && c@ == call,
            None => step matches LookupStep::NoListener,
        },
{
    if !has_lookup(platform) {
        return LookupStep::NoListener;
    }
    let mut target = String::from_str("-iTCP:");
    target.append(render_decimal(port as u32).as_str());
    let mut args: Vec<String> = Vec::new();
    args.push(target);
    args.push(String::from_str("-sTCP:LISTEN"));
    let call = UtilityCall { program: String::from_str("lsof"), args };
    assert(call@.args =~= listing_call(port).args);
    LookupStep::Run(call)
}

/// Ends a lookup on `platform`: reads the listener out of what the utility
/// printed. `success` says whether the utility reported success when it
/// ended.
pub fn lookup_result(platform: Platform, success: bool, listing: &str) -> (r: Result<
    Option<ProcessInfo>,
    LookupError,
>)
    ensures
        match lookup_record(platform, success, listing@) {
            Ok(Some(info)) => r matches Ok(Some(found)) && found@ == info,
            Ok(None) => r matches Ok(None),
            Err(e) => r == Err::<Option<ProcessInfo>, LookupError>(e),
        },
{
    if has_lookup(platform) {
        parse_listing(success, listing)
    } else {
        Ok(None)
    }
}

/// The lookup finds no listener exactly where the platform has no lookup,
/// the utility failed, or it printed fewer than two lines. A successful run
/// that printed a row is never a miss.
pub proof fn law_no_listener(platform: Platform, success: bool, listing: Seq<char>)
    ensures
        lookup_record(platform, success, listing) == Ok::<Option<ProcessInfoView>, LookupError>(
            None,
        ) <==> !platform.has_lookup() || !success || lines_of(listing).len() < 2,
{
}

/// The lookup finds a listener exactly where the platform has a lookup, the
/// utility succeeded and printed a second line, and that line has three
/// tokens of which the second reads as a process identifier. The listener's
/// name, identifier and user are then the first, second and third token of
/// that line; nothing else of the listing enters the record.
pub proof fn law_listener_fields(platform: Platform, success: bool, listing: Seq<char>)
    ensures
        lookup_record(platform, success, listing) matches Ok(Some(info)) <==> {
            &&& platform.has_lookup()
            &&& success
            &&& lines_of(listing).len() >= 2
            &&& tokens_of(lines_of(listing)[1]).len() >= 3
            &&& parse_decimal_spec(tokens_of(lines_of(listing)[1])[1], PID_LIMIT as nat) is Ok
        },
        lookup_record(platform, success, listing) matches Ok(Some(info)) ==> {
            let fields = tokens_of(lines_of(listing)[1]);
            &&& info.name == fields[0]
            &&& parse_decimal_spec(fields[1], PID_LIMIT as nat) == Ok::<nat, NumberError>(
                info.pid as nat,
            )
            &&& info.user == fields[2]
        },
{
}

/// The lookup fails over the process identifier exactly where the line
/// after the header has three tokens and the second does not read as one;
/// the error says why it does not.
pub proof fn law_invalid_pid(platform: Platform, success: bool, listing: Seq<char>, e: NumberError)
    ensures
        lookup_record(platform, success, listing) == Err::<Option<ProcessInfoView>, LookupError>(
            LookupError::InvalidPid(e),
        ) <==> {
            &&& platform.has_lookup()
            &&& success
            &&& lines_of(listing).len() >= 2
            &&& tokens_of(lines_of(listing)[1]).len() >= 3
            &&& parse_decimal_spec(tokens_of(lines_of(listing)[1])[1], PID_LIMIT as nat) == Err::<
                nat,
                NumberError,
            >(e)
        },
{
}

/// The lookup fails over a missing field exactly where the line after the
/// header has fewer than three tokens.
pub proof fn law_missing_field(platform: Platform, success: bool, listing: Seq<char>)
    ensures
        lookup_record(platform, success, listing) == Err::<Option<ProcessInfoView>, LookupError>(
            LookupError::MissingField,
        ) <==> {
            &&& platform.has_lookup()
            &&& success
            &&& lines_of(listing).len() >= 2
            &&& tokens_of(lines_of(listing)[1]).len() < 3
        },
{
}

/// The call names the port that it is made for: what follows `-iTCP:` in
/// its first argument reads back as that port.
pub proof fn law_call_names_port(port: u16)
    ensures
        listing_call(port).args.len() == 2,
        listing_call(port).args[0].take("-iTCP:"@.len() as int) == "-iTCP:"@,
        port_of(listing_call(port).args[0].skip("-iTCP:"@.len() as int)) == Ok::<
            u16,
            NumberError,
        >(port),
{
    let prefix = "-iTCP:"@;
    let digits = decimal_digits(port as nat);
    assert((prefix + digits).take(prefix.len() as int) =~= prefix);
    assert((prefix + digits).skip(prefix.len() as int) =~= digits);
    lemma_parse_digits(port as nat, PORT_LIMIT as nat);
}

/// On a platform without a lookup nothing is run, and the lookup finds no
/// listener, whatever the utility would have printed.
pub proof fn law_platform_without_lookup(
    platform: Platform,
    port: u16,
    success: bool,
    listing: Seq<char>,
)
    requires
        !platform.has_lookup(),
    ensures
        first_step(platform, port) is None,
        lookup_record(platform, success, listing) == Ok::<Option<ProcessInfoView>, LookupError>(
            None,
        ),
{
}

} // verus!
