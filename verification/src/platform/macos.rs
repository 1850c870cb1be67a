//! macOS: the File System Programming Guide. Caches under `~/Library/Caches`,
//! application data under `~/Library/Application Support`, and so on.
use vstd::prelude::*;
use crate::pathname::{Comp, components, is_plain_name, join, lemma_join_nested, lemma_join_plain_name};
use crate::platform::{HostEnv, PlatformPaths, env_path, join_opt, join_opt_exec, opt_view, spec_env_path};

verus! {

pub struct MacosPaths {
    pub env: HostEnv,
}

impl PlatformPaths for MacosPaths {
    open spec fn spec_home_dir(&self) -> Option<Seq<char>> {
        opt_view(self.env.home)
    }

    open spec fn spec_temp_dir(&self) -> Seq<char> {
        match spec_env_path(self.env.tmpdir) {
            Some(p) => p,
            None => "/tmp"@,
        }
    }

    open spec fn spec_user_cache_dir(&self) -> Option<Seq<char>> {
        join_opt(opt_view(self.env.home), "Library/Caches"@, false)
    }

    open spec fn spec_user_data_dir(&self) -> Option<Seq<char>> {
        join_opt(opt_view(self.env.home), "Library/Application Support"@, false)
    }

    open spec fn spec_user_config_dir(&self) -> Option<Seq<char>> {
        join_opt(opt_view(self.env.home), "Library/Preferences"@, false)
    }

    open spec fn spec_trash_dir(&self) -> Option<Seq<char>> {
        join_opt(opt_view(self.env.home), ".Trash"@, false)
    }

    open spec fn spec_audit_log_dir(&self) -> Option<Seq<char>> {
        join_opt(opt_view(self.env.home), "Library/Logs/KosCleaner"@, false)
    }

    fn home_dir(&self) -> (r: Option<String>) {
        match &self.env.home {
            Some(h) => Some(h.clone()),
            None => None,
        }
    }

    fn temp_dir(&self) -> (r: String) {
        match env_path(&self.env.tmpdir) {
            Some(p) => p,
            None => "/tmp".to_owned(),
        }
    }

    fn user_cache_dir(&self) -> (r: Option<String>) {
        join_opt_exec(self.home_dir(), "Library/Caches", false)
    }

    fn user_data_dir(&self) -> (r: Option<String>) {
        join_opt_exec(self.home_dir(), "Library/Application Support", false)
    }

    fn user_config_dir(&self) -> (r: Option<String>) {
        join_opt_exec(self.home_dir(), "Library/Preferences", false)
    }

    fn trash_dir(&self) -> (r: Option<String>) {
        join_opt_exec(self.home_dir(), ".Trash", false)
    }

    fn audit_log_dir(&self) -> (r: Option<String>) {
        join_opt_exec(self.home_dir(), "Library/Logs/KosCleaner", false)
    }
}

/// The components of `h` joined with `n1/n2`: those of `h`, then `n1`, then `n2`.
proof fn lemma_two_names(h: Seq<char>, n1: Seq<char>, n2: Seq<char>)
    requires
        is_plain_name(n1, false),
        is_plain_name(n2, false),
        n1 != seq!['.', '.'],
        n2 != seq!['.', '.'],
    ensures
        components(join(h, n1 + seq!['/'] + n2, false), false) == components(h, false).push(
            Comp::Normal(n1),
        ).push(Comp::Normal(n2)),
{
    assert(n2[0] == n2[0]);
    lemma_join_nested(h, n1, n2, false);
    lemma_join_plain_name(h, n1, false);
    lemma_join_plain_name(join(h, n1, false), n2, false);
}

/// Each macOS directory is the home directory followed by the names that the
/// File System Programming Guide gives it: `Library/Caches`, `Library/Application
/// Support`, `.Trash` and `Library/Logs/KosCleaner`; none exists without a home.
pub proof fn lemma_macos_layout(p: MacosPaths)
    ensures
        p.spec_user_cache_dir() is Some <==> p.spec_home_dir() is Some,
        p.spec_user_data_dir() is Some <==> p.spec_home_dir() is Some,
        p.spec_trash_dir() is Some <==> p.spec_home_dir() is Some,
        p.spec_audit_log_dir() is Some <==> p.spec_home_dir() is Some,
        p.spec_home_dir() is Some ==> {
            let h = components(p.spec_home_dir()->Some_0, false);
            &&& components(p.spec_user_cache_dir()->Some_0, false) == h.push(
                Comp::Normal("Library"@),
            ).push(Comp::Normal("Caches"@))
            &&& components(p.spec_user_data_dir()->Some_0, false) == h.push(
                Comp::Normal("Library"@),
            ).push(Comp::Normal("Application Support"@))
            &&& components(p.spec_trash_dir()->Some_0, false) == h.push(Comp::Normal(".Trash"@))
            &&& components(p.spec_audit_log_dir()->Some_0, false) == h.push(
                Comp::Normal("Library"@),
            ).push(Comp::Normal("Logs"@)).push(Comp::Normal("KosCleaner"@))
        },
{
    if p.spec_home_dir() is Some {
        let hs = p.spec_home_dir()->Some_0;
        reveal_strlit("Library");
        reveal_strlit("Caches");
        reveal_strlit("Library/Caches");
        reveal_strlit("Application Support");
        reveal_strlit("Library/Application Support");
        reveal_strlit(".Trash");
        reveal_strlit("Logs");
        reveal_strlit("KosCleaner");
        reveal_strlit("Logs/KosCleaner");
        reveal_strlit("Library/Logs/KosCleaner");
        assert("Library/Caches"@ =~= "Library"@ + seq!['/'] + "Caches"@);
        lemma_two_names(hs, "Library"@, "Caches"@);
        assert("Library/Application Support"@ =~= "Library"@ + seq!['/'] + "Application Support"@);
        lemma_two_names(hs, "Library"@, "Application Support"@);
        lemma_join_plain_name(hs, ".Trash"@, false);
        assert("Library/Logs/KosCleaner"@ =~= "Library"@ + seq!['/'] + "Logs/KosCleaner"@);
        assert("Logs/KosCleaner"@ =~= "Logs"@ + seq!['/'] + "KosCleaner"@);
        assert("Logs/KosCleaner"@[0] == 'L');
        lemma_join_nested(hs, "Library"@, "Logs/KosCleaner"@, false);
        lemma_join_plain_name(hs, "Library"@, false);
        lemma_two_names(join(hs, "Library"@, false), "Logs"@, "KosCleaner"@);
    }
}

} // verus!
