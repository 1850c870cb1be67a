//! Windows: the known folders, read from the environment (TEMP/TMP,
//! LOCALAPPDATA, APPDATA, USERPROFILE).
use vstd::prelude::*;
use crate::platform::{HostEnv, PlatformPaths, env_path, join_opt, join_opt_exec, opt_view, spec_env_path};
use crate::pathname::join;

verus! {

pub struct WindowsPaths {
    pub env: HostEnv,
}

impl PlatformPaths for WindowsPaths {
    open spec fn spec_home_dir(&self) -> Option<Seq<char>> {
        match spec_env_path(self.env.userprofile) {
            Some(p) => Some(p),
            None => opt_view(self.env.home),
        }
    }

    open spec fn spec_temp_dir(&self) -> Seq<char> {
        match spec_env_path(self.env.temp) {
            Some(p) => p,
            None => match spec_env_path(self.env.tmp) {
                Some(p) => p,
                None => self.env.system_temp@,
            },
        }
    }

    open spec fn spec_user_cache_dir(&self) -> Option<Seq<char>> {
        match spec_env_path(self.env.localappdata) {
            Some(p) => Some(p),
            None => join_opt(self.spec_home_dir(), "AppData\\Local"@, true),
        }
    }

    open spec fn spec_user_data_dir(&self) -> Option<Seq<char>> {
        match spec_env_path(self.env.appdata) {
            Some(p) => Some(p),
            None => join_opt(self.spec_home_dir(), "AppData\\Roaming"@, true),
        }
    }

    /// Windows keeps configuration and state together in APPDATA.
    open spec fn spec_user_config_dir(&self) -> Option<Seq<char>> {
        self.spec_user_data_dir()
    }

    /// The Recycle Bin is per volume and keyed by the user's SID: not resolved here.
    open spec fn spec_trash_dir(&self) -> Option<Seq<char>> {
        None
    }

    open spec fn spec_audit_log_dir(&self) -> Option<Seq<char>> {
        join_opt(self.spec_user_cache_dir(), "KosCleaner"@, true)
    }

    fn home_dir(&self) -> (r: Option<String>) {
        match env_path(&self.env.userprofile) {
            Some(p) => Some(p),
            None => match &self.env.home {
                Some(h) => Some(h.clone()),
                None => None,
            },
        }
    }

    fn temp_dir(&self) -> (r: String) {
        match env_path(&self.env.temp) {
            Some(p) => p,
            None => match env_path(&self.env.tmp) {
                Some(p) => p,
                None => self.env.system_temp.clone(),
            },
        }
    }

    fn user_cache_dir(&self) -> (r: Option<String>) {
        match env_path(&self.env.localappdata) {
            Some(p) => Some(p),
            None => join_opt_exec(self.home_dir(), "AppData\\Local", true),
        }
    }

    fn user_data_dir(&self) -> (r: Option<String>) {
        match env_path(&self.env.appdata) {
            Some(p) => Some(p),
            None => join_opt_exec(self.home_dir(), "AppData\\Roaming", true),
        }
    }

    fn user_config_dir(&self) -> (r: Option<String>) {
        self.user_data_dir()
    }

    fn trash_dir(&self) -> (r: Option<String>) {
        None
    }

    fn audit_log_dir(&self) -> (r: Option<String>) {
        join_opt_exec(self.user_cache_dir(), "KosCleaner", true)
    }
}

/// On Windows the configuration directory is the data directory, there is no
/// trash directory, and the audit directory sits under the cache directory.
pub proof fn lemma_windows_layout(p: WindowsPaths)
    ensures
        p.spec_user_config_dir() == p.spec_user_data_dir(),
        p.spec_trash_dir() is None,
        p.spec_audit_log_dir() == join_opt(p.spec_user_cache_dir(), "KosCleaner"@, true),
{
}

/// The Windows known folders: home is `%USERPROFILE%`, else the standard
/// library's home; temp is `%TEMP%`, else `%TMP%`, else the standard library's
/// temporary directory; cache is `%LOCALAPPDATA%`, else `AppData\Local` under
/// home; data is `%APPDATA%`, else `AppData\Roaming` under home. An empty
/// variable counts as unset.
pub proof fn lemma_windows_known_folders(p: WindowsPaths)
    ensures
        p.spec_home_dir() == (match p.env.userprofile {
            Some(v) if v@.len() > 0 => Some(v@),
            _ => opt_view(p.env.home),
        }),
        p.spec_temp_dir() == (match p.env.temp {
            Some(v) if v@.len() > 0 => v@,
            _ => match p.env.tmp {
                Some(v) if v@.len() > 0 => v@,
                _ => p.env.system_temp@,
            },
        }),
        p.spec_user_cache_dir() == (match p.env.localappdata {
            Some(v) if v@.len() > 0 => Some(v@),
            _ => match p.spec_home_dir() {
                Some(h) => Some(join(h, "AppData\\Local"@, true)),
                None => None,
            },
        }),
        p.spec_user_data_dir() == (match p.env.appdata {
            Some(v) if v@.len() > 0 => Some(v@),
            _ => match p.spec_home_dir() {
                Some(h) => Some(join(h, "AppData\\Roaming"@, true)),
                None => None,
            },
        }),
{
}

} // verus!
