//! The status that the daemon reports to the LuCI page, and the clock that
//! stamps it.
use vstd::prelude::*;
use vstd::string::*;
use std::time::{Duration, SystemTime, SystemTimeError};

verus! {

#[verifier::external_type_specification]
#[verifier::external_body]
pub struct ExSystemTime(SystemTime);

#[verifier::external_type_specification]
#[verifier::external_body]
pub struct ExSystemTimeError(SystemTimeError);

/// The state of the daemon as the LuCI page shows it.
#[derive(Debug)]
pub struct DaemonStatus {
    pub running: bool,
    pub online: bool,
    pub side_mac: String,
    pub side_ipv4: Option<String>,
    pub side_ipv6: Option<String>,
    pub active_clients: Vec<String>,
    pub client_count: usize,
    pub last_check_timestamp: u64,
    pub message: String,
}

impl Default for DaemonStatus {
    /// A status of a daemon that is starting: not running, offline, with no
    /// side router and no clients, stamped with the current time.
    fn default() -> (r: Self)
        ensures
            !r.running,
            !r.online,
            r.side_mac@ == Seq::<char>::empty(),
            r.side_ipv4 is None,
            r.side_ipv6 is None,
            r.active_clients@.len() == 0,
            r.client_count == 0,
            r.message@ == "Initializing..."@,
    {
        Self {
            running: false,
            online: false,
            side_mac: String::new(),
            side_ipv4: None,
            side_ipv6: None,
            active_clients: Vec::new(),
            client_count: 0,
            last_check_timestamp: current_timestamp(),
            message: String::from_str("Initializing..."),
        }
    }
}

/// `SystemTime::now`: the current time of the system clock. Nothing is
/// stated of it: it depends on the clock.
#[verifier::external_body]
fn system_time_now() -> SystemTime {
    SystemTime::now()
}

/// `SystemTime::duration_since` with `UNIX_EPOCH`: how long after the Unix
/// epoch `t` lies, or an error when `t` lies before it. Nothing is stated of
/// the outcome: `SystemTime` is opaque here.
#[verifier::external_body]
fn since_unix_epoch(t: &SystemTime) -> Result<Duration, SystemTimeError> {
    t.duration_since(std::time::UNIX_EPOCH)
}

/// `Duration::as_secs`: the whole seconds of `d`. Nothing is stated of the
/// outcome: `Duration` is opaque here.
#[verifier::external_body]
fn whole_seconds(d: &Duration) -> u64 {
    d.as_secs()
}

/// The whole seconds since the Unix epoch by the system clock, or 0 when the
/// clock reads a time before the epoch.
pub fn current_timestamp() -> u64 {
    let now = system_time_now();
    match since_unix_epoch(&now) {
        Ok(d) => whole_seconds(&d),
        Err(_) => 0,
    }
}

} // verus!
