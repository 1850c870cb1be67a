//! Package manager caches. User paths only: no elevated rights, nothing under
//! `/var/cache`. pip, npm and Homebrew caches live in user space and can be
//! downloaded again.
use vstd::prelude::*;
use crate::cleaners::{
    Cleaner, below, if_dir, lemma_if_dir_under, lemma_under_either_concat, lemma_under_either_from,
    push_if_dir, under, under_either,
};
use crate::pathname::{is_plain_name, join, join_path, lemma_extends_trans, lemma_join_name_extends};
use vstd::string::*;
use crate::platform::{HostPaths, PlatformPaths, os_is_windows};
use crate::snapshot::{FsSnapshot, strings_view};

verus! {

/// `[cache/name]` when the user cache directory is known and that is a directory.
pub open spec fn cache_subdir(paths: HostPaths, name: Seq<char>, fs: FsSnapshot) -> Seq<Seq<char>> {
    match paths.spec_user_cache_dir() {
        None => seq![],
        Some(c) => if_dir(join(c, name, fs.win()), fs),
    }
}

fn cache_subdir_exec(paths: &HostPaths, name: &str, fs: &FsSnapshot) -> (r: Vec<String>)
    ensures
        strings_view(r@) == cache_subdir(*paths, name@, *fs),
{
    let mut out: Vec<String> = Vec::new();
    match paths.user_cache_dir() {
        None => {
            assert(strings_view(out@) =~= Seq::<Seq<char>>::empty());
        },
        Some(c) => {
            push_if_dir(&mut out, join_path(c.as_str(), name, os_is_windows(fs.os())), fs);
            assert(strings_view(out@) =~= if_dir(join(c@, name@, fs.win()), *fs));
        },
    }
    out
}

pub struct PipCacheCleaner;

impl Cleaner for PipCacheCleaner {
    open spec fn spec_id(&self) -> Seq<char> {
        "packages.pip.cache"@
    }

    open spec fn spec_category(&self) -> Seq<char> {
        "Packages"@
    }

    open spec fn spec_name(&self) -> Seq<char> {
        "pip cache"@
    }

    open spec fn spec_description(&self) -> Seq<char> {
        "Wheels and HTTP responses cached by pip. Will be re-downloaded on next install."@
    }

    /// `cache/pip`, or `cache\pip\Cache` on Windows, when it is a directory.
    open spec fn spec_roots(&self, paths: HostPaths, fs: FsSnapshot) -> Seq<Seq<char>> {
        match paths.spec_user_cache_dir() {
            None => seq![],
            Some(c) => if fs.win() {
                if_dir(join(join(c, "pip"@, true), "Cache"@, true), fs)
            } else {
                if_dir(join(c, "pip"@, false), fs)
            },
        }
    }

    fn id(&self) -> (r: &'static str) {
        "packages.pip.cache"
    }

    fn category(&self) -> (r: &'static str) {
        "Packages"
    }

    fn name(&self) -> (r: &'static str) {
        "pip cache"
    }

    fn description(&self) -> (r: &'static str) {
        "Wheels and HTTP responses cached by pip. Will be re-downloaded on next install."
    }

    fn roots(&self, paths: &HostPaths, fs: &FsSnapshot) -> (r: Vec<String>) {
        let cache = match paths.user_cache_dir() {
            Some(c) => c,
            None => return Vec::new(),
        };
        let win = os_is_windows(fs.os());
        let p = if win {
            let pip = join_path(cache.as_str(), "pip", true);
            join_path(pip.as_str(), "Cache", true)
        } else {
            join_path(cache.as_str(), "pip", false)
        };
        let mut out: Vec<String> = Vec::new();
        push_if_dir(&mut out, p, fs);
        assert(strings_view(out@) =~= self.spec_roots(*paths, *fs));
        out
    }
}

pub struct NpmCacheCleaner;

impl Cleaner for NpmCacheCleaner {
    open spec fn spec_id(&self) -> Seq<char> {
        "packages.npm.cache"@
    }

    open spec fn spec_category(&self) -> Seq<char> {
        "Packages"@
    }

    open spec fn spec_name(&self) -> Seq<char> {
        "npm cache"@
    }

    open spec fn spec_description(&self) -> Seq<char> {
        "Tarball and metadata cache for npm. Re-downloaded on demand."@
    }

    /// `~/.npm/_cacache` is preferred, so that logs and metrics files next to
    /// it stay; `~/.npm` as a whole only when `_cacache` is missing. On Windows
    /// also `%APPDATA%\npm-cache`.
    open spec fn spec_roots(&self, paths: HostPaths, fs: FsSnapshot) -> Seq<Seq<char>> {
        let win = fs.win();
        (match paths.spec_home_dir() {
            None => seq![],
            Some(h) => {
                let dot_npm = join(h, ".npm"@, win);
                let cacache = join(dot_npm, "_cacache"@, win);
                if fs.spec_is_dir(cacache) {
                    seq![cacache]
                } else {
                    if_dir(dot_npm, fs)
                }
            },
        }) + (match paths.spec_user_data_dir() {
            None => seq![],
            Some(d) => if_dir(join(d, "npm-cache"@, win), fs),
        })
    }

    fn id(&self) -> (r: &'static str) {
        "packages.npm.cache"
    }

    fn category(&self) -> (r: &'static str) {
        "Packages"
    }

    fn name(&self) -> (r: &'static str) {
        "npm cache"
    }

    fn description(&self) -> (r: &'static str) {
        "Tarball and metadata cache for npm. Re-downloaded on demand."
    }

    fn roots(&self, paths: &HostPaths, fs: &FsSnapshot) -> (r: Vec<String>) {
        let win = os_is_windows(fs.os());
        let mut roots: Vec<String> = Vec::new();
        match paths.home_dir() {
            Some(home) => {
                let dot_npm = join_path(home.as_str(), ".npm", win);
                let cacache = join_path(dot_npm.as_str(), "_cacache", win);
                if fs.is_dir(cacache.as_str()) {
                    roots.push(cacache);
                } else {
                    push_if_dir(&mut roots, dot_npm, fs);
                }
            },
            None => {},
        }
        let ghost first = strings_view(roots@);
        match paths.user_data_dir() {
            Some(data) => {
                push_if_dir(&mut roots, join_path(data.as_str(), "npm-cache", win), fs);
            },
            None => {
                assert(strings_view(roots@) =~= first + Seq::<Seq<char>>::empty());
            },
        }
        assert(strings_view(roots@) =~= self.spec_roots(*paths, *fs));
        roots
    }
}

pub struct HomebrewCacheCleaner;

impl Cleaner for HomebrewCacheCleaner {
    open spec fn spec_id(&self) -> Seq<char> {
        "packages.brew.cache"@
    }

    open spec fn spec_category(&self) -> Seq<char> {
        "Packages"@
    }

    open spec fn spec_name(&self) -> Seq<char> {
        "Homebrew cache"@
    }

    open spec fn spec_description(&self) -> Seq<char> {
        "Downloaded bottles and source tarballs kept by Homebrew. Use `brew cleanup` for the full cleanup; this removes the user-level cache only."@
    }

    open spec fn spec_roots(&self, paths: HostPaths, fs: FsSnapshot) -> Seq<Seq<char>> {
        cache_subdir(paths, "Homebrew"@, fs)
    }

    fn id(&self) -> (r: &'static str) {
        "packages.brew.cache"
    }

    fn category(&self) -> (r: &'static str) {
        "Packages"
    }

    fn name(&self) -> (r: &'static str) {
        "Homebrew cache"
    }

    fn description(&self) -> (r: &'static str) {
        "Downloaded bottles and source tarballs kept by Homebrew. Use `brew cleanup` for the full cleanup; this removes the user-level cache only."
    }

    fn roots(&self, paths: &HostPaths, fs: &FsSnapshot) -> (r: Vec<String>) {
        cache_subdir_exec(paths, "Homebrew", fs)
    }
}

pub struct YayCacheCleaner;

impl Cleaner for YayCacheCleaner {
    open spec fn spec_id(&self) -> Seq<char> {
        "packages.yay.cache"@
    }

    open spec fn spec_category(&self) -> Seq<char> {
        "Packages"@
    }

    open spec fn spec_name(&self) -> Seq<char> {
        "yay cache"@
    }

    open spec fn spec_description(&self) -> Seq<char> {
        "AUR builds and downloads cached by yay (Arch Linux user-level helper)."@
    }

    open spec fn spec_roots(&self, paths: HostPaths, fs: FsSnapshot) -> Seq<Seq<char>> {
        cache_subdir(paths, "yay"@, fs)
    }

    fn id(&self) -> (r: &'static str) {
        "packages.yay.cache"
    }

    fn category(&self) -> (r: &'static str) {
        "Packages"
    }

    fn name(&self) -> (r: &'static str) {
        "yay cache"
    }

    fn description(&self) -> (r: &'static str) {
        "AUR builds and downloads cached by yay (Arch Linux user-level helper)."
    }

    fn roots(&self, paths: &HostPaths, fs: &FsSnapshot) -> (r: Vec<String>) {
        cache_subdir_exec(paths, "yay", fs)
    }
}

proof fn lemma_cache_subdir_under(paths: HostPaths, name: Seq<char>, fs: FsSnapshot)
    requires
        is_plain_name(name, fs.win()),
    ensures
        under(cache_subdir(paths, name, fs), paths.spec_user_cache_dir(), fs.win()),
{
    match paths.spec_user_cache_dir() {
        None => {},
        Some(c) => {
            lemma_join_name_extends(c, name, fs.win());
            lemma_if_dir_under(join(c, name, fs.win()), fs, Some(c), fs.win());
        },
    }
}

/// The names this module pushes are plain file names.
proof fn lemma_package_names_plain(win: bool)
    ensures
        is_plain_name("pip"@, win),
        is_plain_name("Cache"@, win),
        is_plain_name("Homebrew"@, win),
        is_plain_name("yay"@, win),
        is_plain_name(".npm"@, win),
        is_plain_name("_cacache"@, win),
        is_plain_name("npm-cache"@, win),
{
    reveal_strlit("pip");
    reveal_strlit("Cache");
    reveal_strlit("Homebrew");
    reveal_strlit("yay");
    reveal_strlit(".npm");
    reveal_strlit("_cacache");
    reveal_strlit("npm-cache");
    assert(is_plain_name("pip"@, win)) by {
        assert("pip"@ =~= seq!['p', 'i', 'p']);
    }
    assert(is_plain_name("Cache"@, win)) by {
        assert("Cache"@ =~= seq!['C', 'a', 'c', 'h', 'e']);
    }
    assert(is_plain_name("Homebrew"@, win)) by {
        assert("Homebrew"@ =~= seq!['H', 'o', 'm', 'e', 'b', 'r', 'e', 'w']);
    }
    assert(is_plain_name("yay"@, win)) by {
        assert("yay"@ =~= seq!['y', 'a', 'y']);
    }
    assert(is_plain_name(".npm"@, win)) by {
        assert(".npm"@ =~= seq!['.', 'n', 'p', 'm']);
    }
    assert(is_plain_name("_cacache"@, win)) by {
        assert("_cacache"@ =~= seq!['_', 'c', 'a', 'c', 'a', 'c', 'h', 'e']);
    }
    assert(is_plain_name("npm-cache"@, win)) by {
        assert("npm-cache"@ =~= seq!['n', 'p', 'm', '-', 'c', 'a', 'c', 'h', 'e']);
    }
}

/// The pip, Homebrew and yay caches stay inside the user cache directory.
pub proof fn lemma_cache_packages_in_place(paths: HostPaths, fs: FsSnapshot)
    ensures
        under(PipCacheCleaner.spec_roots(paths, fs), paths.spec_user_cache_dir(), fs.win()),
        under(HomebrewCacheCleaner.spec_roots(paths, fs), paths.spec_user_cache_dir(), fs.win()),
        under(YayCacheCleaner.spec_roots(paths, fs), paths.spec_user_cache_dir(), fs.win()),
{
    let win = fs.win();
    lemma_package_names_plain(win);
    lemma_cache_subdir_under(paths, "Homebrew"@, fs);
    lemma_cache_subdir_under(paths, "yay"@, fs);
    match paths.spec_user_cache_dir() {
        None => {},
        Some(c) => {
            if win {
                let pip = join(c, "pip"@, true);
                lemma_join_name_extends(c, "pip"@, true);
                lemma_join_name_extends(pip, "Cache"@, true);
                lemma_extends_trans(c, pip, join(pip, "Cache"@, true), true);
                lemma_if_dir_under(join(pip, "Cache"@, true), fs, Some(c), true);
            } else {
                lemma_join_name_extends(c, "pip"@, false);
                lemma_if_dir_under(join(c, "pip"@, false), fs, Some(c), false);
            }
        },
    }
}

/// The npm caches stay inside the home directory or the user data directory.
pub proof fn lemma_npm_in_place(paths: HostPaths, fs: FsSnapshot)
    ensures
        under_either(
            NpmCacheCleaner.spec_roots(paths, fs),
            paths.spec_home_dir(),
            paths.spec_user_data_dir(),
            fs.win(),
        ),
{
    let win = fs.win();
    lemma_package_names_plain(win);
    let home = paths.spec_home_dir();
    let data = paths.spec_user_data_dir();
    let first = match home {
        None => Seq::<Seq<char>>::empty(),
        Some(h) => {
            let dot_npm = join(h, ".npm"@, win);
            let cacache = join(dot_npm, "_cacache"@, win);
            if fs.spec_is_dir(cacache) {
                seq![cacache]
            } else {
                if_dir(dot_npm, fs)
            }
        },
    };
    let second = match data {
        None => Seq::<Seq<char>>::empty(),
        Some(d) => if_dir(join(d, "npm-cache"@, win), fs),
    };
    assert(NpmCacheCleaner.spec_roots(paths, fs) == first + second);
    match home {
        None => {},
        Some(h) => {
            let dot_npm = join(h, ".npm"@, win);
            let cacache = join(dot_npm, "_cacache"@, win);
            lemma_join_name_extends(h, ".npm"@, win);
            lemma_join_name_extends(dot_npm, "_cacache"@, win);
            lemma_extends_trans(h, dot_npm, cacache, win);
            if fs.spec_is_dir(cacache) {
                assert(below(home, seq![cacache][0], win));
            } else {
                lemma_if_dir_under(dot_npm, fs, home, win);
            }
        },
    }
    match data {
        None => {},
        Some(d) => {
            lemma_join_name_extends(d, "npm-cache"@, win);
            lemma_if_dir_under(join(d, "npm-cache"@, win), fs, data, win);
        },
    }
    lemma_under_either_from(first, home, data, true, win);
    lemma_under_either_from(second, home, data, false, win);
    lemma_under_either_concat(first, second, home, data, win);
}

/// The npm cleaner takes `~/.npm/_cacache` when that is a directory, else the
/// whole `~/.npm` when that is one; then `npm-cache` in the user data
/// directory when that is one; and nothing else.
pub proof fn lemma_npm_roots(paths: HostPaths, fs: FsSnapshot)
    ensures
        ({
            let win = fs.win();
            let roots = NpmCacheCleaner.spec_roots(paths, fs);
            let home_part: int = match paths.spec_home_dir() {
                Some(h) => if fs.spec_is_dir(join(join(h, ".npm"@, win), "_cacache"@, win))
                    || fs.spec_is_dir(join(h, ".npm"@, win)) {
                    1
                } else {
                    0
                },
                None => 0,
            };
            let data_part: int = match paths.spec_user_data_dir() {
                Some(d) => if fs.spec_is_dir(join(d, "npm-cache"@, win)) {
                    1
                } else {
                    0
                },
                None => 0,
            };
            &&& roots.len() == home_part + data_part
            &&& forall|k: int| 0 <= k < roots.len() ==> fs.spec_is_dir(#[trigger] roots[k])
            &&& paths.spec_home_dir() is Some ==> {
                let dot_npm = join(paths.spec_home_dir()->Some_0, ".npm"@, win);
                let cacache = join(dot_npm, "_cacache"@, win);
                &&& fs.spec_is_dir(cacache) ==> roots[0] == cacache
                &&& (!fs.spec_is_dir(cacache) && fs.spec_is_dir(dot_npm)) ==> roots[0] == dot_npm
            }
            &&& data_part == 1 ==> roots[home_part] == join(
                paths.spec_user_data_dir()->Some_0,
                "npm-cache"@,
                win,
            )
        }),
{
}

/// pip's cache is `pip` in the user cache directory (`pip\Cache` on
/// Windows), Homebrew's is `Homebrew` and yay's is `yay` there; each is a root
/// exactly when it is a directory, and nothing else is.
pub proof fn lemma_cache_package_roots(paths: HostPaths, fs: FsSnapshot)
    ensures
        ({
            let win = fs.win();
            match paths.spec_user_cache_dir() {
                None => {
                    &&& PipCacheCleaner.spec_roots(paths, fs).len() == 0
                    &&& HomebrewCacheCleaner.spec_roots(paths, fs).len() == 0
                    &&& YayCacheCleaner.spec_roots(paths, fs).len() == 0
                },
                Some(c) => {
                    let pip = if win {
                        join(join(c, "pip"@, true), "Cache"@, true)
                    } else {
                        join(c, "pip"@, false)
                    };
                    let brew = join(c, "Homebrew"@, win);
                    let yay = join(c, "yay"@, win);
                    &&& PipCacheCleaner.spec_roots(paths, fs) == (if fs.spec_is_dir(pip) {
                        seq![pip]
                    } else {
                        Seq::<Seq<char>>::empty()
                    })
                    &&& HomebrewCacheCleaner.spec_roots(paths, fs) == (if fs.spec_is_dir(brew) {
                        seq![brew]
                    } else {
                        Seq::<Seq<char>>::empty()
                    })
                    &&& YayCacheCleaner.spec_roots(paths, fs) == (if fs.spec_is_dir(yay) {
                        seq![yay]
                    } else {
                        Seq::<Seq<char>>::empty()
                    })
                },
            }
        }),
{
}

} // verus!
