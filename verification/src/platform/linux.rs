//! Linux: the XDG Base Directory Specification.
use vstd::prelude::*;
use crate::pathname::join;
use crate::platform::{
    HostEnv, PlatformPaths, default_audit_log_dir, env_path, join_opt, join_opt_exec, opt_view,
    spec_env_path,
};

verus! {

pub struct LinuxPaths {
    pub env: HostEnv,
}

/// A variable's path, or else `fallback`.
pub open spec fn env_or(v: Option<String>, fallback: Option<Seq<char>>) -> Option<Seq<char>> {
    match spec_env_path(v) {
        Some(p) => Some(p),
        None => fallback,
    }
}

impl PlatformPaths for LinuxPaths {
    open spec fn spec_home_dir(&self) -> Option<Seq<char>> {
        opt_view(self.env.home)
    }

    open spec fn spec_temp_dir(&self) -> Seq<char> {
        match spec_env_path(self.env.tmpdir) {
            Some(p) => p,
            None => "/tmp"@,
        }
    }

    open spec fn spec_user_cache_dir(&self) -> Option<Seq<char>> {
        env_or(self.env.xdg_cache_home, join_opt(opt_view(self.env.home), ".cache"@, false))
    }

    open spec fn spec_user_data_dir(&self) -> Option<Seq<char>> {
        env_or(self.env.xdg_data_home, join_opt(opt_view(self.env.home), ".local/share"@, false))
    }

    open spec fn spec_user_config_dir(&self) -> Option<Seq<char>> {
        env_or(self.env.xdg_config_home, join_opt(opt_view(self.env.home), ".config"@, false))
    }

    /// The XDG trash: `$XDG_DATA_HOME/Trash`.
    open spec fn spec_trash_dir(&self) -> Option<Seq<char>> {
        join_opt(self.spec_user_data_dir(), "Trash"@, false)
    }

    open spec fn spec_audit_log_dir(&self) -> Option<Seq<char>> {
        default_audit_log_dir(self.spec_user_data_dir(), false)
    }

    fn home_dir(&self) -> (r: Option<String>) {
        match &self.env.home {
            Some(h) => Some(h.clone()),
            None => None,
        }
    }

    fn temp_dir(&self) -> (r: String) {
        match env_path(&self.env.tmpdir) {
            Some(p) => p,
            None => "/tmp".to_owned(),
        }
    }

    fn user_cache_dir(&self) -> (r: Option<String>) {
        match env_path(&self.env.xdg_cache_home) {
            Some(p) => Some(p),
            None => join_opt_exec(self.home_dir(), ".cache", false),
        }
    }

    fn user_data_dir(&self) -> (r: Option<String>) {
        match env_path(&self.env.xdg_data_home) {
            Some(p) => Some(p),
            None => join_opt_exec(self.home_dir(), ".local/share", false),
        }
    }

    fn user_config_dir(&self) -> (r: Option<String>) {
        match env_path(&self.env.xdg_config_home) {
            Some(p) => Some(p),
            None => join_opt_exec(self.home_dir(), ".config", false),
        }
    }

    fn trash_dir(&self) -> (r: Option<String>) {
        join_opt_exec(self.user_data_dir(), "Trash", false)
    }

    fn audit_log_dir(&self) -> (r: Option<String>) {
        join_opt_exec(self.user_data_dir(), "koscleaner", false)
    }
}

/// The XDG trash and the audit directory both sit directly under the user's
/// data directory, whatever the environment holds.
pub proof fn lemma_linux_layout(p: LinuxPaths)
    ensures
        p.spec_trash_dir() == join_opt(p.spec_user_data_dir(), "Trash"@, false),
        p.spec_audit_log_dir() == join_opt(p.spec_user_data_dir(), "koscleaner"@, false),
{
}

/// The XDG layout: each directory is its variable when that is set and not
/// empty, and otherwise `/tmp`, `~/.cache`, `~/.local/share` or `~/.config`;
/// without a home and without the variable there is none.
pub proof fn lemma_linux_xdg_dirs(p: LinuxPaths)
    ensures
        p.spec_home_dir() == opt_view(p.env.home),
        p.spec_temp_dir() == (match p.env.tmpdir {
            Some(v) => if v@.len() > 0 {
                v@
            } else {
                "/tmp"@
            },
            None => "/tmp"@,
        }),
        p.spec_user_cache_dir() == (match p.env.xdg_cache_home {
            Some(v) if v@.len() > 0 => Some(v@),
            _ => match p.env.home {
                Some(h) => Some(join(h@, ".cache"@, false)),
                None => None,
            },
        }),
        p.spec_user_data_dir() == (match p.env.xdg_data_home {
            Some(v) if v@.len() > 0 => Some(v@),
            _ => match p.env.home {
                Some(h) => Some(join(h@, ".local/share"@, false)),
                None => None,
            },
        }),
        p.spec_user_config_dir() == (match p.env.xdg_config_home {
            Some(v) if v@.len() > 0 => Some(v@),
            _ => match p.env.home {
                Some(h) => Some(join(h@, ".config"@, false)),
                None => None,
            },
        }),
{
}

} // verus!
