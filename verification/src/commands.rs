//! What the desktop front end may ask for: the list of cleaners, and a scan
//! by a cleaner's identifier.
use vstd::prelude::*;
use vstd::string::*;
use crate::cleaners::Cleaner;
use crate::cleaners::system::SystemTempCleaner;
use crate::platform::{HostEnv, HostPaths};
use crate::scanner::{ScanReport, roots_findings, scan};
use crate::snapshot::FsSnapshot;

verus! {

/// A cleaner as the front end lists it.
#[derive(Debug)]
pub struct CleanerInfo {
    pub id: String,
    pub category: String,
    pub name: String,
    pub description: String,
}

fn info_of<C: Cleaner>(c: &C) -> (r: CleanerInfo)
    ensures
        r.id@ == c.spec_id(),
        r.category@ == c.spec_category(),
        r.name@ == c.spec_name(),
        r.description@ == c.spec_description(),
{
    CleanerInfo {
        id: c.id().to_owned(),
        category: c.category().to_owned(),
        name: c.name().to_owned(),
        description: c.description().to_owned(),
    }
}

/// The cleaners the front end can run: for now the system temporary files.
pub fn list_cleaners() -> (r: Vec<CleanerInfo>)
    ensures
        r.len() == 1,
        r[0].id@ == SystemTempCleaner.spec_id(),
        r[0].category@ == SystemTempCleaner.spec_category(),
        r[0].name@ == SystemTempCleaner.spec_name(),
        r[0].description@ == SystemTempCleaner.spec_description(),
{
    let mut v: Vec<CleanerInfo> = Vec::new();
    v.push(info_of(&SystemTempCleaner));
    v
}

/// Scans with the cleaner named `id`; an unknown identifier is refused with
/// "unknown cleaner: " and the identifier.
pub fn scan_cleaner(id: String, paths: &HostPaths, env: &HostEnv, fs: &FsSnapshot) -> (r: Result<
    ScanReport,
    String,
>)
    ensures
        id@ == SystemTempCleaner.spec_id() <==> r is Ok,
        match r {
            Ok(report) => report.findings() == roots_findings(
                SystemTempCleaner.spec_roots(*paths, *fs),
                *env,
                *fs,
            ) && report.total_consistent() && report.cleaner_id@ == SystemTempCleaner.spec_id()
                && report.category@ == SystemTempCleaner.spec_category() && report.name@
                == SystemTempCleaner.spec_name(),
            Err(m) => m@ == "unknown cleaner: "@ + id@,
        },
{
    let known = "system.temp".to_owned();
    proof {
        reveal_strlit("system.temp");
    }
    if id == known {
        Ok(scan(&SystemTempCleaner, paths, env, fs))
    } else {
        Err("unknown cleaner: ".to_owned().concat(id.as_str()))
    }
}

} // verus!
