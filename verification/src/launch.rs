//! What the program settles around a run: where the target listens, what
//! the log file is called, and how the run is summed up.

use vstd::prelude::*;
use crate::runner::TestMetadata;
use crate::text::{contains, occurs_in};

verus! {

/// Port of a target on this machine, if none is given.
pub const LOCAL_PORT: u16 = 8080;

/// Port of a target on another machine, if none is given.
pub const REMOTE_PORT: u16 = 8081;

/// Whether an address names this machine.
pub open spec fn is_local(address: Seq<char>) -> bool {
    occurs_in("localhost"@, address) || occurs_in("127.0.0."@, address)
}

/// The port of the target: the one given, else the local port if no address
/// is given or the address names this machine, else the remote port.
pub open spec fn chosen_port(address: Option<Seq<char>>, port: Option<u16>) -> u16 {
    match port {
        Some(port) => port,
        None => match address {
            Some(address) => if is_local(address) {
                LOCAL_PORT
            } else {
                REMOTE_PORT
            },
            None => LOCAL_PORT,
        },
    }
}

/// The address and port of the target, from what the command line gives of
/// them. Without an address, the target is on this machine.
pub fn endpoint(address: Option<String>, port: Option<u16>) -> (r: (String, u16))
    ensures
        r.0@ == (match address {
            Some(address) => address@,
            None => "localhost"@,
        }),
        r.1 == chosen_port(
            match address {
                Some(address) => Some(address@),
                None => None,
            },
            port,
        ),
{
    match address {
        Some(address) => {
            let port = match port {
                Some(port) => port,
                None => if contains(address.as_str(), "localhost") || contains(address.as_str(), "127.0.0.") {
                    LOCAL_PORT
                } else {
                    REMOTE_PORT
                },
            };
            (address, port)
        },
        None => {
            let port = match port {
                Some(port) => port,
                None => LOCAL_PORT,
            };
            (String::from_str("localhost"), port)
        },
    }
}

/// The path of the log file of a run that starts at `timestamp`.
pub fn log_file_path(timestamp: &str, package: &str, version: &str) -> (r: String)
    ensures
        r@ == "./"@ + timestamp@ + "-"@ + package@ + "-v"@ + version@ + ".log"@,
{
    let mut r = String::from_str("./");
    r.append(timestamp);
    r.append("-");
    r.append(package);
    r.append("-v");
    r.append(version);
    r.append(".log");
    r
}

/// The line for the start of a test.
pub fn start_line(meta: &TestMetadata) -> (r: String)
    ensures
        r@ == "Starting test "@ + meta.id@ + ": "@ + meta.name@,
{
    let mut r = String::from_str("Starting test ");
    r.append(meta.id.as_str());
    r.append(": ");
    r.append(meta.name.as_str());
    r
}

} // verus!
