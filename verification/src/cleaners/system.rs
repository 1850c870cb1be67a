//! The system cleaner. For now it covers only the temporary directory: the
//! safest place, meant to be emptied, and it needs no elevated rights.
use vstd::prelude::*;
use crate::cleaners::Cleaner;
use crate::platform::{HostPaths, PlatformPaths};
use crate::snapshot::{FsSnapshot, strings_view};

verus! {

pub struct SystemTempCleaner;

impl Cleaner for SystemTempCleaner {
    open spec fn spec_id(&self) -> Seq<char> {
        "system.temp"@
    }

    open spec fn spec_category(&self) -> Seq<char> {
        "System"@
    }

    open spec fn spec_name(&self) -> Seq<char> {
        "Temporary files"@
    }

    open spec fn spec_description(&self) -> Seq<char> {
        "Files left in the system temporary directory by applications and the OS."@
    }

    open spec fn spec_roots(&self, paths: HostPaths, fs: FsSnapshot) -> Seq<Seq<char>> {
        seq![paths.spec_temp_dir()]
    }

    fn id(&self) -> (r: &'static str) {
        "system.temp"
    }

    fn category(&self) -> (r: &'static str) {
        "System"
    }

    fn name(&self) -> (r: &'static str) {
        "Temporary files"
    }

    fn description(&self) -> (r: &'static str) {
        "Files left in the system temporary directory by applications and the OS."
    }

    fn roots(&self, paths: &HostPaths, fs: &FsSnapshot) -> (r: Vec<String>) {
        let mut v: Vec<String> = Vec::new();
        v.push(paths.temp_dir());
        assert(strings_view(v@) =~= seq![paths.spec_temp_dir()]);
        v
    }
}

/// The temporary files cleaner cleans the temporary directory and nothing else.
pub proof fn lemma_system_temp_roots(paths: HostPaths, fs: FsSnapshot)
    ensures
        SystemTempCleaner.spec_roots(paths, fs) == seq![paths.spec_temp_dir()],
{
}

} // verus!
