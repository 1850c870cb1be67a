//! Browser caches. For now the Firefox cache: the browser rebuilds it at its
//! next start, so cleaning it is low-risk.
use vstd::prelude::*;
use crate::cleaners::{
    Cleaner, below, lemma_concat_contains, lemma_subdirs_present_contains,
    lemma_subdirs_present_under, lemma_under_concat, push_subdirs_present, subdirs_present, under,
};
use crate::pathname::{
    extends, is_plain_name, join, join_path, lemma_extends_trans, lemma_join_name_extends,
    lemma_join_three_names_extends, lemma_join_two_names_extends,
};
use crate::platform::is_windows;
use vstd::string::*;
use crate::platform::{HostPaths, Os, PlatformPaths, join_opt, join_opt_exec, opt_view, os_is_windows};
use crate::snapshot::{FsSnapshot, strings_view};

verus! {

/// Where Firefox keeps its per-profile caches on each system.
pub open spec fn firefox_cache_base(os: Os, cache: Option<Seq<char>>) -> Option<Seq<char>> {
    match os {
        Os::Linux => join_opt(cache, "mozilla/firefox"@, false),
        Os::Macos => join_opt(cache, "Firefox/Profiles"@, false),
        Os::Windows => join_opt(cache, "Mozilla\\Firefox\\Profiles"@, true),
        Os::Other => None,
    }
}

fn firefox_cache_base_exec(os: Os, cache: Option<String>) -> (r: Option<String>)
    ensures
        opt_view(r) == firefox_cache_base(os, opt_view(cache)),
{
    match os {
        Os::Linux => join_opt_exec(cache, "mozilla/firefox", false),
        Os::Macos => join_opt_exec(cache, "Firefox/Profiles", false),
        Os::Windows => join_opt_exec(cache, "Mozilla\\Firefox\\Profiles", true),
        Os::Other => None,
    }
}

pub open spec fn firefox_subcaches() -> Seq<Seq<char>> {
    seq!["cache2"@, "startupCache"@, "thumbnails"@, "shader-cache"@]
}

/// The cache directories present in one profile directory.
pub open spec fn firefox_profile_roots(profile: Seq<char>, fs: FsSnapshot) -> Seq<Seq<char>> {
    if fs.spec_is_dir(profile) {
        subdirs_present(profile, firefox_subcaches(), fs)
    } else {
        seq![]
    }
}

/// The cache directories of the profiles listed under `base`, profile by profile.
pub open spec fn firefox_profiles(base: Seq<char>, names: Seq<Seq<char>>, fs: FsSnapshot) -> Seq<
    Seq<char>,
>
    decreases names.len(),
{
    if names.len() == 0 {
        seq![]
    } else {
        firefox_profiles(base, names.drop_last(), fs) + firefox_profile_roots(
            join(base, names.last(), fs.win()),
            fs,
        )
    }
}

pub struct FirefoxCacheCleaner;

impl Cleaner for FirefoxCacheCleaner {
    open spec fn spec_id(&self) -> Seq<char> {
        "browsers.firefox.cache"@
    }

    open spec fn spec_category(&self) -> Seq<char> {
        "Browsers"@
    }

    open spec fn spec_name(&self) -> Seq<char> {
        "Firefox cache"@
    }

    open spec fn spec_description(&self) -> Seq<char> {
        "Cached web content, startup cache and thumbnails for every Firefox profile. Firefox will regenerate these on next launch."@
    }

    open spec fn spec_roots(&self, paths: HostPaths, fs: FsSnapshot) -> Seq<Seq<char>> {
        match firefox_cache_base(fs.spec_os(), paths.spec_user_cache_dir()) {
            None => seq![],
            Some(base) => match fs.spec_listing(base) {
                Err(_) => seq![],
                Ok(names) => firefox_profiles(base, names, fs),
            },
        }
    }

    fn id(&self) -> (r: &'static str) {
        "browsers.firefox.cache"
    }

    fn category(&self) -> (r: &'static str) {
        "Browsers"
    }

    fn name(&self) -> (r: &'static str) {
        "Firefox cache"
    }

    fn description(&self) -> (r: &'static str) {
        "Cached web content, startup cache and thumbnails for every Firefox profile. Firefox will regenerate these on next launch."
    }

    fn roots(&self, paths: &HostPaths, fs: &FsSnapshot) -> (r: Vec<String>) {
        let base = match firefox_cache_base_exec(fs.os(), paths.user_cache_dir()) {
            Some(b) => b,
            None => return Vec::new(),
        };
        let names = match fs.read_dir(base.as_str()) {
            Ok(n) => n,
            Err(_) => return Vec::new(),
        };
        let win = os_is_windows(fs.os());
        let subcaches: Vec<&'static str> = vec!["cache2", "startupCache", "thumbnails", "shader-cache"];
        assert(subcaches@.map_values(|n: &'static str| n@) =~= firefox_subcaches());
        let ghost nv = strings_view(names@);
        let mut out: Vec<String> = Vec::new();
        let mut i: usize = 0;
        while i < names.len()
            invariant
                win == fs.win(),
                nv == strings_view(names@),
                subcaches@.map_values(|n: &'static str| n@) == firefox_subcaches(),
                i <= names.len(),
                strings_view(out@) == firefox_profiles(base@, nv.take(i as int), *fs),
            decreases names.len() - i,
        {
            let profile = join_path(base.as_str(), names[i].as_str(), win);
            assert(nv.take(i + 1).drop_last() =~= nv.take(i as int));
            assert(nv.take(i + 1).last() == names@[i as int]@);
            if fs.is_dir(profile.as_str()) {
                push_subdirs_present(&mut out, profile.as_str(), &subcaches, fs);
            } else {
                assert(strings_view(out@) =~= strings_view(out@) + Seq::<Seq<char>>::empty());
            }
            i = i + 1;
        }
        assert(nv.take(names.len() as int) =~= nv);
        out
    }
}

/// The names of the Firefox layout are plain file names.
proof fn lemma_firefox_names_plain(win: bool)
    ensures
        is_plain_name("mozilla"@, win),
        is_plain_name("firefox"@, win),
        is_plain_name("Firefox"@, win),
        is_plain_name("Profiles"@, win),
        is_plain_name("Mozilla"@, win),
        is_plain_name("cache2"@, win),
        is_plain_name("startupCache"@, win),
        is_plain_name("thumbnails"@, win),
        is_plain_name("shader-cache"@, win),
{
    reveal_strlit("mozilla");
    reveal_strlit("firefox");
    reveal_strlit("Firefox");
    reveal_strlit("Profiles");
    reveal_strlit("Mozilla");
    reveal_strlit("cache2");
    reveal_strlit("startupCache");
    reveal_strlit("thumbnails");
    reveal_strlit("shader-cache");
    assert(is_plain_name("mozilla"@, win)) by {
        assert("mozilla"@ =~= seq!['m', 'o', 'z', 'i', 'l', 'l', 'a']);
    }
    assert(is_plain_name("firefox"@, win)) by {
        assert("firefox"@ =~= seq!['f', 'i', 'r', 'e', 'f', 'o', 'x']);
    }
    assert(is_plain_name("Firefox"@, win)) by {
        assert("Firefox"@ =~= seq!['F', 'i', 'r', 'e', 'f', 'o', 'x']);
    }
    assert(is_plain_name("Profiles"@, win)) by {
        assert("Profiles"@ =~= seq!['P', 'r', 'o', 'f', 'i', 'l', 'e', 's']);
    }
    assert(is_plain_name("Mozilla"@, win)) by {
        assert("Mozilla"@ =~= seq!['M', 'o', 'z', 'i', 'l', 'l', 'a']);
    }
    assert(is_plain_name("cache2"@, win)) by {
        assert("cache2"@ =~= seq!['c', 'a', 'c', 'h', 'e', '2']);
    }
    assert(is_plain_name("startupCache"@, win)) by {
        assert("startupCache"@ =~= seq!['s', 't', 'a', 'r', 't', 'u', 'p', 'C', 'a', 'c', 'h', 'e']);
    }
    assert(is_plain_name("thumbnails"@, win)) by {
        assert("thumbnails"@ =~= seq!['t', 'h', 'u', 'm', 'b', 'n', 'a', 'i', 'l', 's']);
    }
    assert(is_plain_name("shader-cache"@, win)) by {
        assert("shader-cache"@ =~= seq!['s', 'h', 'a', 'd', 'e', 'r', '-', 'c', 'a', 'c', 'h', 'e']);
    }
}

/// The Firefox profile directory lies below the user cache directory.
proof fn lemma_firefox_base_under_cache(os: Os, cache: Seq<char>)
    ensures
        firefox_cache_base(os, Some(cache)) is Some ==> extends(
            cache,
            firefox_cache_base(os, Some(cache))->Some_0,
            is_windows(os),
        ),
{
    lemma_firefox_names_plain(false);
    lemma_firefox_names_plain(true);
    reveal_strlit("mozilla");
    reveal_strlit("firefox");
    reveal_strlit("Firefox");
    reveal_strlit("Profiles");
    reveal_strlit("Mozilla");
    reveal_strlit("mozilla/firefox");
    reveal_strlit("Firefox/Profiles");
    reveal_strlit("Mozilla\\Firefox\\Profiles");
    match os {
        Os::Linux => {
            assert("mozilla/firefox"@ =~= seq!['m', 'o', 'z', 'i', 'l', 'l', 'a', '/', 'f', 'i', 'r', 'e', 'f', 'o', 'x']);
            assert("mozilla"@ =~= seq!['m', 'o', 'z', 'i', 'l', 'l', 'a']);
            assert("firefox"@ =~= seq!['f', 'i', 'r', 'e', 'f', 'o', 'x']);
            assert("mozilla/firefox"@ =~= "mozilla"@ + seq!['/'] + "firefox"@);
            lemma_join_two_names_extends(cache, "mozilla"@, "firefox"@, false);
        },
        Os::Macos => {
            assert("Firefox/Profiles"@ =~= seq!['F', 'i', 'r', 'e', 'f', 'o', 'x', '/', 'P', 'r', 'o', 'f', 'i', 'l', 'e', 's']);
            assert("Firefox"@ =~= seq!['F', 'i', 'r', 'e', 'f', 'o', 'x']);
            assert("Profiles"@ =~= seq!['P', 'r', 'o', 'f', 'i', 'l', 'e', 's']);
            assert("Firefox/Profiles"@ =~= "Firefox"@ + seq!['/'] + "Profiles"@);
            lemma_join_two_names_extends(cache, "Firefox"@, "Profiles"@, false);
        },
        Os::Windows => {
            assert("Mozilla"@ =~= seq!['M', 'o', 'z', 'i', 'l', 'l', 'a']);
            assert("Firefox"@ =~= seq!['F', 'i', 'r', 'e', 'f', 'o', 'x']);
            assert("Profiles"@ =~= seq!['P', 'r', 'o', 'f', 'i', 'l', 'e', 's']);
            assert("Mozilla\\Firefox\\Profiles"@ =~= seq!['M', 'o', 'z', 'i', 'l', 'l', 'a', '\\', 'F', 'i', 'r', 'e', 'f', 'o', 'x', '\\', 'P', 'r', 'o', 'f', 'i', 'l', 'e', 's']);
            assert("Mozilla\\Firefox\\Profiles"@ =~= "Mozilla"@ + seq!['\\'] + "Firefox"@ + seq!['\\']
                + "Profiles"@);
            lemma_join_three_names_extends(cache, "Mozilla"@, "Firefox"@, "Profiles"@, true);
        },
        Os::Other => {},
    }
}

proof fn lemma_firefox_profiles_under(base: Seq<char>, names: Seq<Seq<char>>, fs: FsSnapshot, cache: Seq<char>)
    requires
        extends(cache, base, fs.win()),
        forall|k: int| 0 <= k < names.len() ==> is_plain_name(#[trigger] names[k], fs.win()),
    ensures
        under(firefox_profiles(base, names, fs), Some(cache), fs.win()),
    decreases names.len(),
{
    let win = fs.win();
    if names.len() > 0 {
        let init = names.drop_last();
        assert forall|k: int| 0 <= k < init.len() implies is_plain_name(#[trigger] init[k], win) by {
            assert(init[k] == names[k]);
        }
        lemma_firefox_profiles_under(base, init, fs, cache);
        let profile = join(base, names.last(), win);
        assert(is_plain_name(names[names.len() - 1], win));
        lemma_join_name_extends(base, names.last(), win);
        lemma_extends_trans(cache, base, profile, win);
        lemma_firefox_names_plain(win);
        let subs = firefox_subcaches();
        assert forall|k: int| 0 <= k < subs.len() implies is_plain_name(#[trigger] subs[k], win) by {}
        lemma_subdirs_present_under(profile, subs, fs, Some(cache));
        lemma_under_concat(
            firefox_profiles(base, init, fs),
            firefox_profile_roots(profile, fs),
            Some(cache),
            win,
        );
    }
}

/// The Firefox cleaner stays inside the user cache directory.
pub proof fn lemma_firefox_roots_in_place(paths: HostPaths, fs: FsSnapshot)
    ensures
        under(FirefoxCacheCleaner.spec_roots(paths, fs), paths.spec_user_cache_dir(), fs.win()),
{
    match paths.spec_user_cache_dir() {
        None => {},
        Some(cache) => {
            lemma_firefox_base_under_cache(fs.spec_os(), cache);
            match firefox_cache_base(fs.spec_os(), Some(cache)) {
                None => {},
                Some(base) => {
                    fs.lemma_listing_plain(base);
                    match fs.spec_listing(base) {
                        Err(_) => {},
                        Ok(names) => {
                            lemma_firefox_profiles_under(base, names, fs, cache);
                        },
                    }
                },
            }
        },
    }
}

proof fn lemma_firefox_profiles_contain(base: Seq<char>, names: Seq<Seq<char>>, fs: FsSnapshot, i: int, x: Seq<char>)
    requires
        0 <= i < names.len(),
        firefox_profile_roots(join(base, names[i], fs.win()), fs).contains(x),
    ensures
        firefox_profiles(base, names, fs).contains(x),
    decreases names.len(),
{
    let init = names.drop_last();
    if i == names.len() - 1 {
        lemma_concat_contains(
            firefox_profiles(base, init, fs),
            firefox_profile_roots(join(base, names.last(), fs.win()), fs),
            x,
        );
    } else {
        assert(init[i] == names[i]);
        lemma_firefox_profiles_contain(base, init, fs, i, x);
        lemma_concat_contains(
            firefox_profiles(base, init, fs),
            firefox_profile_roots(join(base, names.last(), fs.win()), fs),
            x,
        );
    }
}

/// Firefox profiles are looked for under the user cache directory: in
/// `mozilla/firefox` on Linux, in `Firefox/Profiles` on macOS and in
/// `Mozilla\\Firefox\\Profiles` on Windows. Elsewhere, or without a user cache
/// directory, there is nothing to clean.
pub proof fn lemma_firefox_location(paths: HostPaths, fs: FsSnapshot)
    ensures
        ({
            let c = paths.spec_user_cache_dir();
            let base = firefox_cache_base(fs.spec_os(), c);
            &&& fs.spec_os() is Linux ==> base == join_opt(c, "mozilla/firefox"@, false)
            &&& fs.spec_os() is Macos ==> base == join_opt(c, "Firefox/Profiles"@, false)
            &&& fs.spec_os() is Windows ==> base == join_opt(c, "Mozilla\\Firefox\\Profiles"@, true)
            &&& (fs.spec_os() is Other || c is None) ==> FirefoxCacheCleaner.spec_roots(paths, fs)
                == Seq::<Seq<char>>::empty()
        }),
{
}

/// Every cache directory of every Firefox profile is cleaned: for each name
/// listed in the Firefox profile directory that is itself a directory, each of
/// `cache2`, `startupCache`, `thumbnails` and `shader-cache` that is a
/// directory in it is among the roots.
pub proof fn lemma_firefox_roots_complete(paths: HostPaths, fs: FsSnapshot, i: int, n: Seq<char>)
    requires
        firefox_cache_base(fs.spec_os(), paths.spec_user_cache_dir()) is Some,
        ({
            let base = firefox_cache_base(fs.spec_os(), paths.spec_user_cache_dir())->Some_0;
            &&& fs.spec_listing(base) is Ok
            &&& 0 <= i < fs.spec_listing(base)->Ok_0.len()
            &&& fs.spec_is_dir(join(base, fs.spec_listing(base)->Ok_0[i], fs.win()))
            &&& fs.spec_is_dir(
                join(join(base, fs.spec_listing(base)->Ok_0[i], fs.win()), n, fs.win()),
            )
        }),
        n == "cache2"@ || n == "startupCache"@ || n == "thumbnails"@ || n == "shader-cache"@,
    ensures
        ({
            let base = firefox_cache_base(fs.spec_os(), paths.spec_user_cache_dir())->Some_0;
            let profile = join(base, fs.spec_listing(base)->Ok_0[i], fs.win());
            FirefoxCacheCleaner.spec_roots(paths, fs).contains(join(profile, n, fs.win()))
        }),
{
    let base = firefox_cache_base(fs.spec_os(), paths.spec_user_cache_dir())->Some_0;
    let names = fs.spec_listing(base)->Ok_0;
    let profile = join(base, names[i], fs.win());
    let subs = firefox_subcaches();
    let j: int = if n == "cache2"@ {
        0
    } else if n == "startupCache"@ {
        1
    } else if n == "thumbnails"@ {
        2
    } else {
        3
    };
    assert(subs[j] == n);
    lemma_subdirs_present_contains(profile, subs, fs, j);
    lemma_firefox_profiles_contain(base, names, fs, i, join(profile, n, fs.win()));
}

} // verus!
