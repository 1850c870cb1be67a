//! Where things live on each operating system.
//!
//! Every cleaner asks this module for directories instead of spelling them out,
//! so that "the user's cache" means the right place on Linux, macOS and Windows.
//! The environment is read once by the program and handed over as a `HostEnv`.
use vstd::prelude::*;
use crate::pathname::{join, join_path};

pub mod linux;
pub mod macos;
pub mod windows;

pub use linux::LinuxPaths;
pub use macos::MacosPaths;
pub use windows::WindowsPaths;

verus! {

/// The operating system the program runs on.
#[derive(Clone, Copy, Debug, PartialEq, Eq, Structural)]
pub enum Os {
    Linux,
    Macos,
    Windows,
    Other,
}

pub open spec fn is_windows(os: Os) -> bool {
    os is Windows
}

pub fn os_is_windows(os: Os) -> (r: bool)
    ensures
        r == is_windows(os),
{
    match os {
        Os::Windows => true,
        _ => false,
    }
}

/// The values of the environment that the program consults. Each variable is
/// `None` when it is not set.
#[derive(Clone, Debug)]
pub struct HostEnv {
    /// The user's home directory, as the standard library reports it.
    pub home: Option<String>,
    /// The standard library's temporary directory.
    pub system_temp: String,
    pub tmpdir: Option<String>,
    pub xdg_cache_home: Option<String>,
    pub xdg_data_home: Option<String>,
    pub xdg_config_home: Option<String>,
    pub userprofile: Option<String>,
    pub temp: Option<String>,
    pub tmp: Option<String>,
    pub localappdata: Option<String>,
    pub appdata: Option<String>,
    pub system_root: Option<String>,
    pub program_files: Option<String>,
    pub program_files_x86: Option<String>,
    pub program_data: Option<String>,
}

pub open spec fn opt_view(o: Option<String>) -> Option<Seq<char>> {
    match o {
        Some(s) => Some(s@),
        None => None,
    }
}

/// A variable's value as a path: unset and empty both count as absent.
pub open spec fn spec_env_path(v: Option<String>) -> Option<Seq<char>> {
    match v {
        Some(s) => if s@.len() == 0 {
            None
        } else {
            Some(s@)
        },
        None => None,
    }
}

pub fn env_path(v: &Option<String>) -> (r: Option<String>)
    ensures
        opt_view(r) == spec_env_path(*v),
{
    match v {
        Some(s) => if s.as_str().is_empty() {
            None
        } else {
            Some(s.clone())
        },
        None => None,
    }
}

/// `dir` with `name` pushed onto it, when there is a `dir`.
pub open spec fn join_opt(dir: Option<Seq<char>>, name: Seq<char>, win: bool) -> Option<Seq<char>> {
    match dir {
        Some(d) => Some(join(d, name, win)),
        None => None,
    }
}

pub fn join_opt_exec(dir: Option<String>, name: &str, win: bool) -> (r: Option<String>)
    ensures
        opt_view(r) == join_opt(opt_view(dir), name@, win),
{
    match dir {
        Some(d) => Some(join_path(d.as_str(), name, win)),
        None => None,
    }
}

/// The directories that cleaners look in, as each system lays them out.
pub trait PlatformPaths {
    spec fn spec_home_dir(&self) -> Option<Seq<char>>;

    spec fn spec_temp_dir(&self) -> Seq<char>;

    spec fn spec_user_cache_dir(&self) -> Option<Seq<char>>;

    spec fn spec_user_data_dir(&self) -> Option<Seq<char>>;

    spec fn spec_user_config_dir(&self) -> Option<Seq<char>>;

    spec fn spec_trash_dir(&self) -> Option<Seq<char>>;

    spec fn spec_audit_log_dir(&self) -> Option<Seq<char>>;

    fn home_dir(&self) -> (r: Option<String>)
        ensures
            opt_view(r) == self.spec_home_dir(),
    ;

    fn temp_dir(&self) -> (r: String)
        ensures
            r@ == self.spec_temp_dir(),
    ;

    fn user_cache_dir(&self) -> (r: Option<String>)
        ensures
            opt_view(r) == self.spec_user_cache_dir(),
    ;

    fn user_data_dir(&self) -> (r: Option<String>)
        ensures
            opt_view(r) == self.spec_user_data_dir(),
    ;

    fn user_config_dir(&self) -> (r: Option<String>)
        ensures
            opt_view(r) == self.spec_user_config_dir(),
    ;

    fn trash_dir(&self) -> (r: Option<String>)
        ensures
            opt_view(r) == self.spec_trash_dir(),
    ;

    fn audit_log_dir(&self) -> (r: Option<String>)
        ensures
            opt_view(r) == self.spec_audit_log_dir(),
    ;
}

/// Where the audit log goes unless a system says otherwise: under the user's data directory.
pub open spec fn default_audit_log_dir(data: Option<Seq<char>>, win: bool) -> Option<Seq<char>> {
    join_opt(data, "koscleaner"@, win)
}

/// The layout of the system the program runs on.
pub enum HostPaths {
    Linux(LinuxPaths),
    Macos(MacosPaths),
    Windows(WindowsPaths),
}

/// The layout of the given system, read from its environment.
pub fn current(os: Os, env: HostEnv) -> (r: HostPaths)
    requires
        !(os is Other),
    ensures
        os is Linux ==> r == HostPaths::Linux(LinuxPaths { env }),
        os is Macos ==> r == HostPaths::Macos(MacosPaths { env }),
        os is Windows ==> r == HostPaths::Windows(WindowsPaths { env }),
{
    match os {
        Os::Linux => HostPaths::Linux(LinuxPaths { env }),
        Os::Macos => HostPaths::Macos(MacosPaths { env }),
        _ => HostPaths::Windows(WindowsPaths { env }),
    }
}

impl HostPaths {
    /// Whether paths follow the Windows conventions.
    pub open spec fn spec_win(&self) -> bool {
        self is Windows
    }

    pub fn win(&self) -> (r: bool)
        ensures
            r == self.spec_win(),
    {
        match self {
            HostPaths::Windows(_) => true,
            _ => false,
        }
    }
}

impl PlatformPaths for HostPaths {
    open spec fn spec_home_dir(&self) -> Option<Seq<char>> {
        match self {
            HostPaths::Linux(p) => p.spec_home_dir(),
            HostPaths::Macos(p) => p.spec_home_dir(),
            HostPaths::Windows(p) => p.spec_home_dir(),
        }
    }

    open spec fn spec_temp_dir(&self) -> Seq<char> {
        match self {
            HostPaths::Linux(p) => p.spec_temp_dir(),
            HostPaths::Macos(p) => p.spec_temp_dir(),
            HostPaths::Windows(p) => p.spec_temp_dir(),
        }
    }

    open spec fn spec_user_cache_dir(&self) -> Option<Seq<char>> {
        match self {
            HostPaths::Linux(p) => p.spec_user_cache_dir(),
            HostPaths::Macos(p) => p.spec_user_cache_dir(),
            HostPaths::Windows(p) => p.spec_user_cache_dir(),
        }
    }

    open spec fn spec_user_data_dir(&self) -> Option<Seq<char>> {
        match self {
            HostPaths::Linux(p) => p.spec_user_data_dir(),
            HostPaths::Macos(p) => p.spec_user_data_dir(),
            HostPaths::Windows(p) => p.spec_user_data_dir(),
        }
    }

    open spec fn spec_user_config_dir(&self) -> Option<Seq<char>> {
        match self {
            HostPaths::Linux(p) => p.spec_user_config_dir(),
            HostPaths::Macos(p) => p.spec_user_config_dir(),
            HostPaths::Windows(p) => p.spec_user_config_dir(),
        }
    }

    open spec fn spec_trash_dir(&self) -> Option<Seq<char>> {
        match self {
            HostPaths::Linux(p) => p.spec_trash_dir(),
            HostPaths::Macos(p) => p.spec_trash_dir(),
            HostPaths::Windows(p) => p.spec_trash_dir(),
        }
    }

    open spec fn spec_audit_log_dir(&self) -> Option<Seq<char>> {
        match self {
            HostPaths::Linux(p) => p.spec_audit_log_dir(),
            HostPaths::Macos(p) => p.spec_audit_log_dir(),
            HostPaths::Windows(p) => p.spec_audit_log_dir(),
        }
    }

    fn home_dir(&self) -> (r: Option<String>) {
        match self {
            HostPaths::Linux(p) => p.home_dir(),
            HostPaths::Macos(p) => p.home_dir(),
            HostPaths::Windows(p) => p.home_dir(),
        }
    }

    fn temp_dir(&self) -> (r: String) {
        match self {
            HostPaths::Linux(p) => p.temp_dir(),
            HostPaths::Macos(p) => p.temp_dir(),
            HostPaths::Windows(p) => p.temp_dir(),
        }
    }

    fn user_cache_dir(&self) -> (r: Option<String>) {
        match self {
            HostPaths::Linux(p) => p.user_cache_dir(),
            HostPaths::Macos(p) => p.user_cache_dir(),
            HostPaths::Windows(p) => p.user_cache_dir(),
        }
    }

    fn user_data_dir(&self) -> (r: Option<String>) {
        match self {
            HostPaths::Linux(p) => p.user_data_dir(),
            HostPaths::Macos(p) => p.user_data_dir(),
            HostPaths::Windows(p) => p.user_data_dir(),
        }
    }

    fn user_config_dir(&self) -> (r: Option<String>) {
        match self {
            HostPaths::Linux(p) => p.user_config_dir(),
            HostPaths::Macos(p) => p.user_config_dir(),
            HostPaths::Windows(p) => p.user_config_dir(),
        }
    }

    fn trash_dir(&self) -> (r: Option<String>) {
        match self {
            HostPaths::Linux(p) => p.trash_dir(),
            HostPaths::Macos(p) => p.trash_dir(),
            HostPaths::Windows(p) => p.trash_dir(),
        }
    }

    fn audit_log_dir(&self) -> (r: Option<String>) {
        match self {
            HostPaths::Linux(p) => p.audit_log_dir(),
            HostPaths::Macos(p) => p.audit_log_dir(),
            HostPaths::Windows(p) => p.audit_log_dir(),
        }
    }
}

} // verus!
