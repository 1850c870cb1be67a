//! The local audit log: every execution becomes one JSON line in `audit.log`
//! under the platform's audit directory. No network, no telemetry: only a
//! record the user can read. The program writes the line; this module holds
//! what goes into it and where it goes.
use vstd::prelude::*;
use crate::pathname::{join, join_path};
use crate::platform::{HostPaths, PlatformPaths};
use std::time::Duration;

verus! {

#[verifier::external_type_specification]
#[verifier::external_body]
pub struct ExSystemTime(std::time::SystemTime);

#[verifier::external_type_specification]
#[verifier::external_body]
pub struct ExSystemTimeError(std::time::SystemTimeError);

/// One execution, as it is written to the audit log.
#[derive(Debug)]
pub struct AuditRecord {
    pub timestamp_unix: u64,
    pub cleaner_id: String,
    pub attempted: usize,
    pub deleted: usize,
    pub freed_bytes: u64,
    pub failures: Vec<AuditFailure>,
}

/// A path that could not be removed, and why.
#[derive(Debug)]
pub struct AuditFailure {
    pub path: String,
    pub message: String,
}

/// `std::time::SystemTime::now`: the current time of the system clock. What it
/// returns depends on the clock, so nothing is stated of it.
#[verifier::external_body]
fn system_now() -> (r: std::time::SystemTime) {
    std::time::SystemTime::now()
}

/// `SystemTime::duration_since` with `UNIX_EPOCH` as the earlier time: the
/// time elapsed since the epoch, or an error when `t` lies before it. Which of
/// the two comes back depends on `t`, which is opaque here, so nothing is
/// stated.
#[verifier::external_body]
fn elapsed_since_epoch(t: &std::time::SystemTime) -> (r: Result<Duration, std::time::SystemTimeError>) {
    t.duration_since(std::time::UNIX_EPOCH)
}

/// `Duration::as_secs`: the whole seconds of `d`. `Duration` is opaque here,
/// so its value is not stated.
#[verifier::external_body]
fn whole_seconds(d: &Duration) -> (r: u64) {
    d.as_secs()
}

/// The current Unix time in whole seconds, or 0 when the clock reads a time
/// before the epoch. It depends on the clock alone, so no contract pins it.
pub fn now_unix() -> (r: u64) {
    let now = system_now();
    match elapsed_since_epoch(&now) {
        Ok(d) => whole_seconds(&d),
        Err(_) => 0,
    }
}

/// The name of the log file inside the audit directory.
pub open spec fn log_file_name() -> Seq<char> {
    "audit.log"@
}

/// Where the audit log lives: `audit.log` in the platform's audit directory,
/// or nothing on a platform that has none.
pub open spec fn spec_audit_log_file(paths: HostPaths) -> Option<Seq<char>> {
    match paths.spec_audit_log_dir() {
        Some(d) => Some(join(d, log_file_name(), paths.spec_win())),
        None => None,
    }
}

/// The file that the audit record is appended to; `None` where the platform
/// has no audit directory, which the program reports as "audit log directory
/// is not available on this platform".
pub fn audit_log_file(paths: &HostPaths) -> (r: Option<String>)
    ensures
        match r {
            Some(f) => spec_audit_log_file(*paths) == Some(f@),
            None => spec_audit_log_file(*paths) is None,
        },
{
    match paths.audit_log_dir() {
        Some(d) => {
            let name = "audit.log";
            proof {
                reveal_strlit("audit.log");
            }
            Some(join_path(d.as_str(), name, paths.win()))
        },
        None => None,
    }
}

} // verus!
