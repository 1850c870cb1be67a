//! Chromium-family browsers (Chrome, Chromium, Brave) share one profile
//! layout (`Default`, `Profile 1`, `Profile 2`, ...) and one set of cache
//! directory names (`Cache`, `Code Cache`, `GPUCache`, ...).
use vstd::prelude::*;
use crate::cleaners::{
    Cleaner, below, if_dir, lemma_concat_contains, lemma_if_dir_under, lemma_subdirs_present_contains, lemma_subdirs_present_under, lemma_under_concat,
    lemma_under_either_concat, lemma_under_either_from, push_if_dir, push_subdirs_present,
    subdirs_present, under, under_either,
};
use crate::pathname::{
    extends, is_plain_name, join, join_path, lemma_extends_trans, lemma_join_empty_extends,
    lemma_join_name_extends, lemma_join_three_names_extends, lemma_join_two_names_extends,
};
use crate::platform::is_windows;
use crate::platform::{HostPaths, Os, PlatformPaths, join_opt, opt_view, os_is_windows};
use crate::snapshot::{FsSnapshot, strings_view};
use vstd::string::*;

verus! {

pub open spec fn cache_subdirs() -> Seq<Seq<char>> {
    seq!["Cache"@, "Code Cache"@, "GPUCache"@, "DawnCache"@, "ShaderCache"@, "GrShaderCache"@]
}

/// A browser's directories: its cache directory under the user cache
/// directory, when it has one there, and its profile directory under the user
/// data directory.
pub struct Brand {
    pub cache_dir: Option<&'static str>,
    pub profile_dir: &'static str,
}

pub struct BrandView {
    pub cache_dir: Option<Seq<char>>,
    pub profile_dir: Seq<char>,
}

impl View for Brand {
    type V = BrandView;

    open spec fn view(&self) -> BrandView {
        BrandView {
            cache_dir: match self.cache_dir {
                Some(s) => Some(s@),
                None => None,
            },
            profile_dir: self.profile_dir@,
        }
    }
}

pub open spec fn brand(cache_dir: Option<Seq<char>>, profile_dir: Seq<char>) -> BrandView {
    BrandView { cache_dir, profile_dir }
}

pub open spec fn chrome_brand(os: Os) -> BrandView {
    match os {
        Os::Linux => brand(Some("google-chrome"@), "google-chrome"@),
        Os::Macos => brand(Some("Google/Chrome"@), "Google/Chrome"@),
        Os::Windows => brand(None, "Google\\Chrome\\User Data"@),
        Os::Other => brand(None, ""@),
    }
}

pub open spec fn chromium_brand(os: Os) -> BrandView {
    match os {
        Os::Linux => brand(Some("chromium"@), "chromium"@),
        Os::Macos => brand(Some("Chromium"@), "Chromium"@),
        Os::Windows => brand(None, "Chromium\\User Data"@),
        Os::Other => brand(None, ""@),
    }
}

pub open spec fn brave_brand(os: Os) -> BrandView {
    match os {
        Os::Linux => brand(Some("BraveSoftware/Brave-Browser"@), "BraveSoftware/Brave-Browser"@),
        Os::Macos => brand(Some("BraveSoftware/Brave-Browser"@), "BraveSoftware/Brave-Browser"@),
        Os::Windows => brand(None, "BraveSoftware\\Brave-Browser\\User Data"@),
        Os::Other => brand(None, ""@),
    }
}

fn chrome_brand_exec(os: Os) -> (r: Brand)
    ensures
        r@ == chrome_brand(os),
{
    match os {
        Os::Linux => Brand { cache_dir: Some("google-chrome"), profile_dir: "google-chrome" },
        Os::Macos => Brand { cache_dir: Some("Google/Chrome"), profile_dir: "Google/Chrome" },
        Os::Windows => Brand { cache_dir: None, profile_dir: "Google\\Chrome\\User Data" },
        Os::Other => Brand { cache_dir: None, profile_dir: "" },
    }
}

fn chromium_brand_exec(os: Os) -> (r: Brand)
    ensures
        r@ == chromium_brand(os),
{
    match os {
        Os::Linux => Brand { cache_dir: Some("chromium"), profile_dir: "chromium" },
        Os::Macos => Brand { cache_dir: Some("Chromium"), profile_dir: "Chromium" },
        Os::Windows => Brand { cache_dir: None, profile_dir: "Chromium\\User Data" },
        Os::Other => Brand { cache_dir: None, profile_dir: "" },
    }
}

fn brave_brand_exec(os: Os) -> (r: Brand)
    ensures
        r@ == brave_brand(os),
{
    match os {
        Os::Linux => Brand {
            cache_dir: Some("BraveSoftware/Brave-Browser"),
            profile_dir: "BraveSoftware/Brave-Browser",
        },
        Os::Macos => Brand {
            cache_dir: Some("BraveSoftware/Brave-Browser"),
            profile_dir: "BraveSoftware/Brave-Browser",
        },
        Os::Windows => Brand { cache_dir: None, profile_dir: "BraveSoftware\\Brave-Browser\\User Data" },
        Os::Other => Brand { cache_dir: None, profile_dir: "" },
    }
}

/// Only profiles: `Default`, `Profile N`, `Guest Profile`.
pub open spec fn is_profile_name(n: Seq<char>) -> bool {
    n == "Default"@ || "Profile "@.is_prefix_of(n) || n == "Guest Profile"@
}

fn is_profile_name_exec(n: &str) -> (r: bool)
    ensures
        r == is_profile_name(n@),
{
    let name = n.to_owned();
    if name == "Default".to_owned() || name == "Guest Profile".to_owned() {
        return true;
    }
    let pre = "Profile ";
    let plen = pre.unicode_len();
    let nlen = n.unicode_len();
    if nlen < plen {
        return false;
    }
    let head = n.substring_char(0, plen).to_owned();
    head == pre.to_owned()
}

/// The cache directories of one profile directory: the known cache
/// sub-directories, then the Service Worker cache two levels down.
pub open spec fn chromium_profile_roots(base: Seq<char>, name: Seq<char>, fs: FsSnapshot) -> Seq<
    Seq<char>,
> {
    let win = fs.win();
    let profile = join(base, name, win);
    if !fs.spec_is_dir(profile) || !is_profile_name(name) {
        seq![]
    } else {
        subdirs_present(profile, cache_subdirs(), fs) + if_dir(
            join(join(profile, "Service Worker"@, win), "CacheStorage"@, win),
            fs,
        )
    }
}

pub open spec fn chromium_profiles(base: Seq<char>, names: Seq<Seq<char>>, fs: FsSnapshot) -> Seq<
    Seq<char>,
>
    decreases names.len(),
{
    if names.len() == 0 {
        seq![]
    } else {
        chromium_profiles(base, names.drop_last(), fs) + chromium_profile_roots(
            base,
            names.last(),
            fs,
        )
    }
}

pub open spec fn chromium_base_roots(base: Seq<char>, fs: FsSnapshot) -> Seq<Seq<char>> {
    match fs.spec_listing(base) {
        Err(_) => seq![],
        Ok(names) => chromium_profiles(base, names, fs),
    }
}

/// The directories under which a browser keeps its profiles.
pub open spec fn brand_bases(b: BrandView, paths: HostPaths, fs: FsSnapshot) -> Seq<Seq<char>> {
    (match (b.cache_dir, paths.spec_user_cache_dir()) {
        (Some(sub), Some(cache)) => seq![join(cache, sub, fs.win())],
        _ => seq![],
    }) + (match paths.spec_user_data_dir() {
        Some(data) => seq![join(data, b.profile_dir, fs.win())],
        None => seq![],
    })
}

pub open spec fn bases_roots(bases: Seq<Seq<char>>, fs: FsSnapshot) -> Seq<Seq<char>>
    decreases bases.len(),
{
    if bases.len() == 0 {
        seq![]
    } else {
        bases_roots(bases.drop_last(), fs) + chromium_base_roots(bases.last(), fs)
    }
}

/// The cache directories of every profile of the browser.
pub open spec fn brand_roots(b: BrandView, paths: HostPaths, fs: FsSnapshot) -> Seq<Seq<char>> {
    bases_roots(brand_bases(b, paths, fs), fs)
}

fn profile_roots_exec(out: &mut Vec<String>, base: &str, name: &str, fs: &FsSnapshot)
    ensures
        strings_view(final(out)@) == strings_view(old(out)@) + chromium_profile_roots(
            base@,
            name@,
            *fs,
        ),
{
    let win = os_is_windows(fs.os());
    let profile = join_path(base, name, win);
    if !fs.is_dir(profile.as_str()) || !is_profile_name_exec(name) {
        assert(strings_view(out@) =~= strings_view(out@) + Seq::<Seq<char>>::empty());
        return;
    }
    let ghost start = strings_view(out@);
    let subs: Vec<&'static str> = vec![
        "Cache",
        "Code Cache",
        "GPUCache",
        "DawnCache",
        "ShaderCache",
        "GrShaderCache",
    ];
    assert(subs@.map_values(|n: &'static str| n@) =~= cache_subdirs());
    push_subdirs_present(out, profile.as_str(), &subs, fs);
    let ghost mid = strings_view(out@);
    let sw_parent = join_path(profile.as_str(), "Service Worker", win);
    let sw = join_path(sw_parent.as_str(), "CacheStorage", win);
    push_if_dir(out, sw, fs);
    assert(strings_view(out@) =~= start + chromium_profile_roots(base@, name@, *fs));
}

fn base_roots_exec(out: &mut Vec<String>, base: &str, fs: &FsSnapshot)
    ensures
        strings_view(final(out)@) == strings_view(old(out)@) + chromium_base_roots(base@, *fs),
{
    let ghost start = strings_view(out@);
    let names = match fs.read_dir(base) {
        Ok(n) => n,
        Err(_) => {
            assert(strings_view(out@) =~= start + Seq::<Seq<char>>::empty());
            return;
        },
    };
    let ghost nv = strings_view(names@);
    let mut i: usize = 0;
    assert(strings_view(out@) =~= start + chromium_profiles(base@, nv.take(0), *fs));
    while i < names.len()
        invariant
            nv == strings_view(names@),
            i <= names.len(),
            strings_view(out@) == start + chromium_profiles(base@, nv.take(i as int), *fs),
        decreases names.len() - i,
    {
        assert(nv.take(i + 1).drop_last() =~= nv.take(i as int));
        assert(nv.take(i + 1).last() == names@[i as int]@);
        profile_roots_exec(out, base, names[i].as_str(), fs);
        assert(strings_view(out@) =~= start + chromium_profiles(base@, nv.take(i + 1), *fs));
        i = i + 1;
    }
    assert(nv.take(names.len() as int) =~= nv);
}

/// Collects the cache directories of every profile of a browser.
pub fn collect_roots(b: &Brand, paths: &HostPaths, fs: &FsSnapshot) -> (r: Vec<String>)
    ensures
        strings_view(r@) == brand_roots(b@, *paths, *fs),
{
    let win = os_is_windows(fs.os());
    let mut bases: Vec<String> = Vec::new();
    match (b.cache_dir, paths.user_cache_dir()) {
        (Some(sub), Some(cache)) => bases.push(join_path(cache.as_str(), sub, win)),
        _ => {},
    }
    match paths.user_data_dir() {
        Some(data) => bases.push(join_path(data.as_str(), b.profile_dir, win)),
        None => {},
    }
    let ghost bv = strings_view(bases@);
    assert(bv =~= brand_bases(b@, *paths, *fs));
    let mut out: Vec<String> = Vec::new();
    let mut i: usize = 0;
    assert(strings_view(out@) =~= bases_roots(bv.take(0), *fs));
    while i < bases.len()
        invariant
            bv == strings_view(bases@),
            i <= bases.len(),
            strings_view(out@) == bases_roots(bv.take(i as int), *fs),
        decreases bases.len() - i,
    {
        assert(bv.take(i + 1).drop_last() =~= bv.take(i as int));
        assert(bv.take(i + 1).last() == bases@[i as int]@);
        base_roots_exec(&mut out, bases[i].as_str(), fs);
        i = i + 1;
    }
    assert(bv.take(bases.len() as int) =~= bv);
    out
}

pub struct ChromeCacheCleaner;

impl Cleaner for ChromeCacheCleaner {
    open spec fn spec_id(&self) -> Seq<char> {
        "browsers.chrome.cache"@
    }

    open spec fn spec_category(&self) -> Seq<char> {
        "Browsers"@
    }

    open spec fn spec_name(&self) -> Seq<char> {
        "Chrome cache"@
    }

    open spec fn spec_description(&self) -> Seq<char> {
        "Disk cache, code cache and GPU/shader caches for every Chrome profile. Chrome will regenerate these on next launch."@
    }

    open spec fn spec_roots(&self, paths: HostPaths, fs: FsSnapshot) -> Seq<Seq<char>> {
        brand_roots(chrome_brand(fs.spec_os()), paths, fs)
    }

    fn id(&self) -> (r: &'static str) {
        "browsers.chrome.cache"
    }

    fn category(&self) -> (r: &'static str) {
        "Browsers"
    }

    fn name(&self) -> (r: &'static str) {
        "Chrome cache"
    }

    fn description(&self) -> (r: &'static str) {
        "Disk cache, code cache and GPU/shader caches for every Chrome profile. Chrome will regenerate these on next launch."
    }

    fn roots(&self, paths: &HostPaths, fs: &FsSnapshot) -> (r: Vec<String>) {
        collect_roots(&chrome_brand_exec(fs.os()), paths, fs)
    }
}

pub struct ChromiumCacheCleaner;

impl Cleaner for ChromiumCacheCleaner {
    open spec fn spec_id(&self) -> Seq<char> {
        "browsers.chromium.cache"@
    }

    open spec fn spec_category(&self) -> Seq<char> {
        "Browsers"@
    }

    open spec fn spec_name(&self) -> Seq<char> {
        "Chromium cache"@
    }

    open spec fn spec_description(&self) -> Seq<char> {
        "Disk cache, code cache and GPU/shader caches for every Chromium profile."@
    }

    open spec fn spec_roots(&self, paths: HostPaths, fs: FsSnapshot) -> Seq<Seq<char>> {
        brand_roots(chromium_brand(fs.spec_os()), paths, fs)
    }

    fn id(&self) -> (r: &'static str) {
        "browsers.chromium.cache"
    }

    fn category(&self) -> (r: &'static str) {
        "Browsers"
    }

    fn name(&self) -> (r: &'static str) {
        "Chromium cache"
    }

    fn description(&self) -> (r: &'static str) {
        "Disk cache, code cache and GPU/shader caches for every Chromium profile."
    }

    fn roots(&self, paths: &HostPaths, fs: &FsSnapshot) -> (r: Vec<String>) {
        collect_roots(&chromium_brand_exec(fs.os()), paths, fs)
    }
}

pub struct BraveCacheCleaner;

impl Cleaner for BraveCacheCleaner {
    open spec fn spec_id(&self) -> Seq<char> {
        "browsers.brave.cache"@
    }

    open spec fn spec_category(&self) -> Seq<char> {
        "Browsers"@
    }

    open spec fn spec_name(&self) -> Seq<char> {
        "Brave cache"@
    }

    open spec fn spec_description(&self) -> Seq<char> {
        "Disk cache, code cache and GPU/shader caches for every Brave profile."@
    }

    open spec fn spec_roots(&self, paths: HostPaths, fs: FsSnapshot) -> Seq<Seq<char>> {
        brand_roots(brave_brand(fs.spec_os()), paths, fs)
    }

    fn id(&self) -> (r: &'static str) {
        "browsers.brave.cache"
    }

    fn category(&self) -> (r: &'static str) {
        "Browsers"
    }

    fn name(&self) -> (r: &'static str) {
        "Brave cache"
    }

    fn description(&self) -> (r: &'static str) {
        "Disk cache, code cache and GPU/shader caches for every Brave profile."
    }

    fn roots(&self, paths: &HostPaths, fs: &FsSnapshot) -> (r: Vec<String>) {
        collect_roots(&brave_brand_exec(fs.os()), paths, fs)
    }
}

/// The names of the Chromium layouts are plain file names.
proof fn lemma_chromium_names_plain(win: bool)
    ensures
        is_plain_name("Cache"@, win),
        is_plain_name("Code Cache"@, win),
        is_plain_name("GPUCache"@, win),
        is_plain_name("DawnCache"@, win),
        is_plain_name("ShaderCache"@, win),
        is_plain_name("GrShaderCache"@, win),
        is_plain_name("Service Worker"@, win),
        is_plain_name("CacheStorage"@, win),
        is_plain_name("google-chrome"@, win),
        is_plain_name("Google"@, win),
        is_plain_name("Chrome"@, win),
        is_plain_name("User Data"@, win),
        is_plain_name("chromium"@, win),
        is_plain_name("Chromium"@, win),
        is_plain_name("BraveSoftware"@, win),
        is_plain_name("Brave-Browser"@, win),
{
    reveal_strlit("Cache");
    reveal_strlit("Code Cache");
    reveal_strlit("GPUCache");
    reveal_strlit("DawnCache");
    reveal_strlit("ShaderCache");
    reveal_strlit("GrShaderCache");
    reveal_strlit("Service Worker");
    reveal_strlit("CacheStorage");
    reveal_strlit("google-chrome");
    reveal_strlit("Google");
    reveal_strlit("Chrome");
    reveal_strlit("User Data");
    reveal_strlit("chromium");
    reveal_strlit("Chromium");
    reveal_strlit("BraveSoftware");
    reveal_strlit("Brave-Browser");
    assert(is_plain_name("Cache"@, win)) by {
        assert("Cache"@ =~= seq!['C', 'a', 'c', 'h', 'e']);
    }
    assert(is_plain_name("Code Cache"@, win)) by {
        assert("Code Cache"@ =~= seq!['C', 'o', 'd', 'e', ' ', 'C', 'a', 'c', 'h', 'e']);
    }
    assert(is_plain_name("GPUCache"@, win)) by {
        assert("GPUCache"@ =~= seq!['G', 'P', 'U', 'C', 'a', 'c', 'h', 'e']);
    }
    assert(is_plain_name("DawnCache"@, win)) by {
        assert("DawnCache"@ =~= seq!['D', 'a', 'w', 'n', 'C', 'a', 'c', 'h', 'e']);
    }
    assert(is_plain_name("ShaderCache"@, win)) by {
        assert("ShaderCache"@ =~= seq!['S', 'h', 'a', 'd', 'e', 'r', 'C', 'a', 'c', 'h', 'e']);
    }
    assert(is_plain_name("GrShaderCache"@, win)) by {
        assert("GrShaderCache"@ =~= seq!['G', 'r', 'S', 'h', 'a', 'd', 'e', 'r', 'C', 'a', 'c', 'h', 'e']);
    }
    assert(is_plain_name("Service Worker"@, win)) by {
        assert("Service Worker"@ =~= seq!['S', 'e', 'r', 'v', 'i', 'c', 'e', ' ', 'W', 'o', 'r', 'k', 'e', 'r']);
    }
    assert(is_plain_name("CacheStorage"@, win)) by {
        assert("CacheStorage"@ =~= seq!['C', 'a', 'c', 'h', 'e', 'S', 't', 'o', 'r', 'a', 'g', 'e']);
    }
    assert(is_plain_name("google-chrome"@, win)) by {
        assert("google-chrome"@ =~= seq!['g', 'o', 'o', 'g', 'l', 'e', '-', 'c', 'h', 'r', 'o', 'm', 'e']);
    }
    assert(is_plain_name("Google"@, win)) by {
        assert("Google"@ =~= seq!['G', 'o', 'o', 'g', 'l', 'e']);
    }
    assert(is_plain_name("Chrome"@, win)) by {
        assert("Chrome"@ =~= seq!['C', 'h', 'r', 'o', 'm', 'e']);
    }
    assert(is_plain_name("User Data"@, win)) by {
        assert("User Data"@ =~= seq!['U', 's', 'e', 'r', ' ', 'D', 'a', 't', 'a']);
    }
    assert(is_plain_name("chromium"@, win)) by {
        assert("chromium"@ =~= seq!['c', 'h', 'r', 'o', 'm', 'i', 'u', 'm']);
    }
    assert(is_plain_name("Chromium"@, win)) by {
        assert("Chromium"@ =~= seq!['C', 'h', 'r', 'o', 'm', 'i', 'u', 'm']);
    }
    assert(is_plain_name("BraveSoftware"@, win)) by {
        assert("BraveSoftware"@ =~= seq!['B', 'r', 'a', 'v', 'e', 'S', 'o', 'f', 't', 'w', 'a', 'r', 'e']);
    }
    assert(is_plain_name("Brave-Browser"@, win)) by {
        assert("Brave-Browser"@ =~= seq!['B', 'r', 'a', 'v', 'e', '-', 'B', 'r', 'o', 'w', 's', 'e', 'r']);
    }
}

/// The brands' directory names, spelled out as the names they push.
proof fn lemma_brand_literals()
    ensures
        "Google/Chrome"@ == "Google"@ + seq!['/'] + "Chrome"@,
        "Google\\Chrome\\User Data"@ == "Google"@ + seq!['\\'] + "Chrome"@ + seq!['\\'] + "User Data"@,
        "Chromium\\User Data"@ == "Chromium"@ + seq!['\\'] + "User Data"@,
        "BraveSoftware/Brave-Browser"@ == "BraveSoftware"@ + seq!['/'] + "Brave-Browser"@,
        "BraveSoftware\\Brave-Browser\\User Data"@ == "BraveSoftware"@ + seq!['\\'] + "Brave-Browser"@
            + seq!['\\'] + "User Data"@,
{
    reveal_strlit("Google/Chrome");
    reveal_strlit("Google\\Chrome\\User Data");
    reveal_strlit("Chromium\\User Data");
    reveal_strlit("BraveSoftware/Brave-Browser");
    reveal_strlit("BraveSoftware\\Brave-Browser\\User Data");
    reveal_strlit("google-chrome");
    reveal_strlit("chromium");
    reveal_strlit("Chromium");
    reveal_strlit("Google");
    reveal_strlit("Chrome");
    reveal_strlit("User Data");
    reveal_strlit("BraveSoftware");
    reveal_strlit("Brave-Browser");
    assert("Google/Chrome"@ =~= seq!['G', 'o', 'o', 'g', 'l', 'e', '/', 'C', 'h', 'r', 'o', 'm', 'e']);
    assert("Google"@ =~= seq!['G', 'o', 'o', 'g', 'l', 'e']);
    assert("Chrome"@ =~= seq!['C', 'h', 'r', 'o', 'm', 'e']);
    assert("Google/Chrome"@ =~= "Google"@ + seq!['/'] + "Chrome"@);
    assert("Google\\Chrome\\User Data"@ =~= seq!['G', 'o', 'o', 'g', 'l', 'e', '\\', 'C', 'h', 'r', 'o', 'm', 'e', '\\', 'U', 's', 'e', 'r', ' ', 'D', 'a', 't', 'a']);
    assert("Google"@ =~= seq!['G', 'o', 'o', 'g', 'l', 'e']);
    assert("Chrome"@ =~= seq!['C', 'h', 'r', 'o', 'm', 'e']);
    assert("User Data"@ =~= seq!['U', 's', 'e', 'r', ' ', 'D', 'a', 't', 'a']);
    assert("Google\\Chrome\\User Data"@ =~= "Google"@ + seq!['\\'] + "Chrome"@ + seq!['\\'] + "User Data"@);
    assert("Chromium\\User Data"@ =~= seq!['C', 'h', 'r', 'o', 'm', 'i', 'u', 'm', '\\', 'U', 's', 'e', 'r', ' ', 'D', 'a', 't', 'a']);
    assert("Chromium"@ =~= seq!['C', 'h', 'r', 'o', 'm', 'i', 'u', 'm']);
    assert("User Data"@ =~= seq!['U', 's', 'e', 'r', ' ', 'D', 'a', 't', 'a']);
    assert("Chromium\\User Data"@ =~= "Chromium"@ + seq!['\\'] + "User Data"@);
    assert("BraveSoftware/Brave-Browser"@ =~= seq!['B', 'r', 'a', 'v', 'e', 'S', 'o', 'f', 't', 'w', 'a', 'r', 'e', '/', 'B', 'r', 'a', 'v', 'e', '-', 'B', 'r', 'o', 'w', 's', 'e', 'r']);
    assert("BraveSoftware"@ =~= seq!['B', 'r', 'a', 'v', 'e', 'S', 'o', 'f', 't', 'w', 'a', 'r', 'e']);
    assert("Brave-Browser"@ =~= seq!['B', 'r', 'a', 'v', 'e', '-', 'B', 'r', 'o', 'w', 's', 'e', 'r']);
    assert("BraveSoftware/Brave-Browser"@ =~= "BraveSoftware"@ + seq!['/'] + "Brave-Browser"@);
    assert("BraveSoftware\\Brave-Browser\\User Data"@ =~= seq!['B', 'r', 'a', 'v', 'e', 'S', 'o', 'f', 't', 'w', 'a', 'r', 'e', '\\', 'B', 'r', 'a', 'v', 'e', '-', 'B', 'r', 'o', 'w', 's', 'e', 'r', '\\', 'U', 's', 'e', 'r', ' ', 'D', 'a', 't', 'a']);
    assert("BraveSoftware"@ =~= seq!['B', 'r', 'a', 'v', 'e', 'S', 'o', 'f', 't', 'w', 'a', 'r', 'e']);
    assert("Brave-Browser"@ =~= seq!['B', 'r', 'a', 'v', 'e', '-', 'B', 'r', 'o', 'w', 's', 'e', 'r']);
    assert("User Data"@ =~= seq!['U', 's', 'e', 'r', ' ', 'D', 'a', 't', 'a']);
    assert("BraveSoftware\\Brave-Browser\\User Data"@ =~= "BraveSoftware"@ + seq!['\\'] + "Brave-Browser"@ + seq!['\\'] + "User Data"@);
}

/// Pushing a brand's directories onto `a` stays below `a`.
proof fn lemma_brand_dirs_extend(a: Seq<char>, b: BrandView, os: Os)
    requires
        b == chrome_brand(os) || b == chromium_brand(os) || b == brave_brand(os),
    ensures
        b.cache_dir is Some ==> extends(a, join(a, b.cache_dir->Some_0, is_windows(os)), is_windows(os)),
        extends(a, join(a, b.profile_dir, is_windows(os)), is_windows(os)),
{
    let win = is_windows(os);
    lemma_chromium_names_plain(win);
    lemma_brand_literals();
    match os {
        Os::Linux => {
            lemma_join_name_extends(a, "google-chrome"@, false);
            lemma_join_name_extends(a, "chromium"@, false);
            lemma_join_two_names_extends(a, "BraveSoftware"@, "Brave-Browser"@, false);
        },
        Os::Macos => {
            lemma_join_two_names_extends(a, "Google"@, "Chrome"@, false);
            lemma_join_name_extends(a, "Chromium"@, false);
            lemma_join_two_names_extends(a, "BraveSoftware"@, "Brave-Browser"@, false);
        },
        Os::Windows => {
            lemma_join_three_names_extends(a, "Google"@, "Chrome"@, "User Data"@, true);
            lemma_join_two_names_extends(a, "Chromium"@, "User Data"@, true);
            lemma_join_three_names_extends(a, "BraveSoftware"@, "Brave-Browser"@, "User Data"@, true);
        },
        Os::Other => {
            reveal_strlit("");
            assert(""@ =~= Seq::<char>::empty());
            lemma_join_empty_extends(a);
        },
    }
}

proof fn lemma_chromium_profiles_under(
    base: Seq<char>,
    names: Seq<Seq<char>>,
    fs: FsSnapshot,
    top: Option<Seq<char>>,
)
    requires
        below(top, base, fs.win()),
        forall|k: int| 0 <= k < names.len() ==> is_plain_name(#[trigger] names[k], fs.win()),
    ensures
        under(chromium_profiles(base, names, fs), top, fs.win()),
    decreases names.len(),
{
    let win = fs.win();
    if names.len() > 0 {
        let init = names.drop_last();
        assert forall|k: int| 0 <= k < init.len() implies is_plain_name(#[trigger] init[k], win) by {
            assert(init[k] == names[k]);
        }
        lemma_chromium_profiles_under(base, init, fs, top);
        let name = names.last();
        assert(is_plain_name(names[names.len() - 1], win));
        let profile = join(base, name, win);
        lemma_join_name_extends(base, name, win);
        lemma_extends_trans(top->Some_0, base, profile, win);
        lemma_chromium_names_plain(win);
        let subs = cache_subdirs();
        assert forall|k: int| 0 <= k < subs.len() implies is_plain_name(#[trigger] subs[k], win) by {}
        lemma_subdirs_present_under(profile, subs, fs, top);
        let sw_parent = join(profile, "Service Worker"@, win);
        let sw = join(sw_parent, "CacheStorage"@, win);
        lemma_join_name_extends(profile, "Service Worker"@, win);
        lemma_join_name_extends(sw_parent, "CacheStorage"@, win);
        lemma_extends_trans(profile, sw_parent, sw, win);
        lemma_extends_trans(top->Some_0, profile, sw, win);
        lemma_if_dir_under(sw, fs, top, win);
        lemma_under_concat(subdirs_present(profile, subs, fs), if_dir(sw, fs), top, win);
        lemma_under_concat(
            chromium_profiles(base, init, fs),
            chromium_profile_roots(base, name, fs),
            top,
            win,
        );
    }
}

proof fn lemma_bases_roots_under(
    bases: Seq<Seq<char>>,
    fs: FsSnapshot,
    cache: Option<Seq<char>>,
    data: Option<Seq<char>>,
)
    requires
        forall|k: int| 0 <= k < bases.len() ==> #[trigger] below(cache, bases[k], fs.win()) || below(
            data,
            bases[k],
            fs.win(),
        ),
    ensures
        under_either(bases_roots(bases, fs), cache, data, fs.win()),
    decreases bases.len(),
{
    let win = fs.win();
    if bases.len() > 0 {
        let init = bases.drop_last();
        assert forall|k: int| 0 <= k < init.len() implies #[trigger] below(cache, init[k], win) || below(
            data,
            init[k],
            win,
        ) by {
            assert(init[k] == bases[k]);
        }
        lemma_bases_roots_under(init, fs, cache, data);
        let base = bases.last();
        assert(below(cache, bases[bases.len() - 1], win) || below(data, bases[bases.len() - 1], win));
        fs.lemma_listing_plain(base);
        let here = chromium_base_roots(base, fs);
        let first = below(cache, base, win);
        let top = if first {
            cache
        } else {
            data
        };
        match fs.spec_listing(base) {
            Err(_) => {},
            Ok(names) => {
                lemma_chromium_profiles_under(base, names, fs, top);
            },
        }
        lemma_under_either_from(here, cache, data, first, win);
        lemma_under_either_concat(bases_roots(init, fs), here, cache, data, win);
    }
}

proof fn lemma_brand_roots_under(b: BrandView, paths: HostPaths, fs: FsSnapshot)
    requires
        b == chrome_brand(fs.spec_os()) || b == chromium_brand(fs.spec_os()) || b == brave_brand(
            fs.spec_os(),
        ),
    ensures
        under_either(
            brand_roots(b, paths, fs),
            paths.spec_user_cache_dir(),
            paths.spec_user_data_dir(),
            fs.win(),
        ),
{
    let win = fs.win();
    let os = fs.spec_os();
    let cache = paths.spec_user_cache_dir();
    let data = paths.spec_user_data_dir();
    let bases = brand_bases(b, paths, fs);
    assert forall|k: int| 0 <= k < bases.len() implies #[trigger] below(cache, bases[k], win) || below(
        data,
        bases[k],
        win,
    ) by {
        let from_cache = match (b.cache_dir, cache) {
            (Some(_), Some(_)) => true,
            _ => false,
        };
        if from_cache && k == 0 {
            lemma_brand_dirs_extend(cache->Some_0, b, os);
        } else {
            lemma_brand_dirs_extend(data->Some_0, b, os);
        }
    }
    lemma_bases_roots_under(bases, fs, cache, data);
}

/// The Chromium-family cleaners stay inside the user cache directory or the
/// user data directory.
pub proof fn lemma_chromium_roots_in_place(paths: HostPaths, fs: FsSnapshot)
    ensures
        under_either(
            ChromeCacheCleaner.spec_roots(paths, fs),
            paths.spec_user_cache_dir(),
            paths.spec_user_data_dir(),
            fs.win(),
        ),
        under_either(
            ChromiumCacheCleaner.spec_roots(paths, fs),
            paths.spec_user_cache_dir(),
            paths.spec_user_data_dir(),
            fs.win(),
        ),
        under_either(
            BraveCacheCleaner.spec_roots(paths, fs),
            paths.spec_user_cache_dir(),
            paths.spec_user_data_dir(),
            fs.win(),
        ),
{
    lemma_brand_roots_under(chrome_brand(fs.spec_os()), paths, fs);
    lemma_brand_roots_under(chromium_brand(fs.spec_os()), paths, fs);
    lemma_brand_roots_under(brave_brand(fs.spec_os()), paths, fs);
}

proof fn lemma_chromium_profiles_contain(base: Seq<char>, names: Seq<Seq<char>>, fs: FsSnapshot, i: int, x: Seq<char>)
    requires
        0 <= i < names.len(),
        chromium_profile_roots(base, names[i], fs).contains(x),
    ensures
        chromium_profiles(base, names, fs).contains(x),
    decreases names.len(),
{
    let init = names.drop_last();
    if i < names.len() - 1 {
        assert(init[i] == names[i]);
        lemma_chromium_profiles_contain(base, init, fs, i, x);
    }
    lemma_concat_contains(
        chromium_profiles(base, init, fs),
        chromium_profile_roots(base, names.last(), fs),
        x,
    );
}

proof fn lemma_bases_roots_contain(bases: Seq<Seq<char>>, fs: FsSnapshot, bi: int, x: Seq<char>)
    requires
        0 <= bi < bases.len(),
        chromium_base_roots(bases[bi], fs).contains(x),
    ensures
        bases_roots(bases, fs).contains(x),
    decreases bases.len(),
{
    let init = bases.drop_last();
    if bi < bases.len() - 1 {
        assert(init[bi] == bases[bi]);
        lemma_bases_roots_contain(init, fs, bi, x);
    }
    lemma_concat_contains(bases_roots(init, fs), chromium_base_roots(bases.last(), fs), x);
}

/// The one path that an optional directory gives, or none.
pub open spec fn opt_seq(o: Option<Seq<char>>) -> Seq<Seq<char>> {
    match o {
        Some(p) => seq![p],
        None => seq![],
    }
}

/// Where the Chromium-family browsers keep their profiles. On Linux and macOS
/// they are looked for under the user cache directory and under the user data
/// directory, in `google-chrome` or `Google/Chrome` for Chrome, `chromium` or
/// `Chromium` for Chromium and `BraveSoftware/Brave-Browser` for Brave; on
/// Windows only under the user data directory, in `Google\\Chrome\\User Data`,
/// `Chromium\\User Data` and `BraveSoftware\\Brave-Browser\\User Data`.
pub proof fn lemma_chromium_locations(paths: HostPaths, fs: FsSnapshot)
    ensures
        ({
            let c = paths.spec_user_cache_dir();
            let d = paths.spec_user_data_dir();
            let os = fs.spec_os();
            let w = fs.win();
            &&& os is Linux ==> brand_bases(chrome_brand(os), paths, fs) == opt_seq(
                join_opt(c, "google-chrome"@, w),
            ) + opt_seq(join_opt(d, "google-chrome"@, w))
            &&& os is Linux ==> brand_bases(chromium_brand(os), paths, fs) == opt_seq(
                join_opt(c, "chromium"@, w),
            ) + opt_seq(join_opt(d, "chromium"@, w))
            &&& os is Linux ==> brand_bases(brave_brand(os), paths, fs) == opt_seq(
                join_opt(c, "BraveSoftware/Brave-Browser"@, w),
            ) + opt_seq(join_opt(d, "BraveSoftware/Brave-Browser"@, w))
            &&& os is Macos ==> brand_bases(chrome_brand(os), paths, fs) == opt_seq(
                join_opt(c, "Google/Chrome"@, w),
            ) + opt_seq(join_opt(d, "Google/Chrome"@, w))
            &&& os is Macos ==> brand_bases(chromium_brand(os), paths, fs) == opt_seq(
                join_opt(c, "Chromium"@, w),
            ) + opt_seq(join_opt(d, "Chromium"@, w))
            &&& os is Macos ==> brand_bases(brave_brand(os), paths, fs) == opt_seq(
                join_opt(c, "BraveSoftware/Brave-Browser"@, w),
            ) + opt_seq(join_opt(d, "BraveSoftware/Brave-Browser"@, w))
            &&& os is Windows ==> brand_bases(chrome_brand(os), paths, fs) == opt_seq(
                join_opt(d, "Google\\Chrome\\User Data"@, w),
            )
            &&& os is Windows ==> brand_bases(chromium_brand(os), paths, fs) == opt_seq(
                join_opt(d, "Chromium\\User Data"@, w),
            )
            &&& os is Windows ==> brand_bases(brave_brand(os), paths, fs) == opt_seq(
                join_opt(d, "BraveSoftware\\Brave-Browser\\User Data"@, w),
            )
        }),
{
}

/// Every cache directory of every profile of a Chromium-family browser is
/// cleaned: under each directory where the browser keeps its profiles, for
/// each listed profile directory (`Default`, `Profile ...` or
/// `Guest Profile`), each of `Cache`, `Code Cache`, `GPUCache`, `DawnCache`,
/// `ShaderCache` and `GrShaderCache` that is a directory in it, and its
/// `Service Worker/CacheStorage` when that is a directory, are among the
/// roots of the browser's cleaner.
pub proof fn lemma_chromium_roots_complete(
    b: BrandView,
    paths: HostPaths,
    fs: FsSnapshot,
    bi: int,
    i: int,
    n: Seq<char>,
)
    requires
        b == chrome_brand(fs.spec_os()) || b == chromium_brand(fs.spec_os()) || b == brave_brand(
            fs.spec_os(),
        ),
        0 <= bi < brand_bases(b, paths, fs).len(),
        ({
            let base = brand_bases(b, paths, fs)[bi];
            let win = fs.win();
            &&& fs.spec_listing(base) is Ok
            &&& 0 <= i < fs.spec_listing(base)->Ok_0.len()
            &&& {
                let name = fs.spec_listing(base)->Ok_0[i];
                &&& (name == "Default"@ || "Profile "@.is_prefix_of(name) || name
                    == "Guest Profile"@)
                &&& fs.spec_is_dir(join(base, name, win))
            }
        }),
        n == "Cache"@ || n == "Code Cache"@ || n == "GPUCache"@ || n == "DawnCache"@ || n
            == "ShaderCache"@ || n == "GrShaderCache"@,
    ensures
        ({
            let base = brand_bases(b, paths, fs)[bi];
            let win = fs.win();
            let profile = join(base, fs.spec_listing(base)->Ok_0[i], win);
            let sub = join(profile, n, win);
            let sw = join(join(profile, "Service Worker"@, win), "CacheStorage"@, win);
            let roots = brand_roots(b, paths, fs);
            &&& fs.spec_is_dir(sub) ==> roots.contains(sub)
            &&& fs.spec_is_dir(sw) ==> roots.contains(sw)
            &&& b == chrome_brand(fs.spec_os()) ==> ChromeCacheCleaner.spec_roots(paths, fs) == roots
            &&& b == chromium_brand(fs.spec_os()) ==> ChromiumCacheCleaner.spec_roots(paths, fs)
                == roots
            &&& b == brave_brand(fs.spec_os()) ==> BraveCacheCleaner.spec_roots(paths, fs) == roots
        }),
{
    let win = fs.win();
    let bases = brand_bases(b, paths, fs);
    let base = bases[bi];
    let names = fs.spec_listing(base)->Ok_0;
    let name = names[i];
    let profile = join(base, name, win);
    let sub = join(profile, n, win);
    let sw = join(join(profile, "Service Worker"@, win), "CacheStorage"@, win);
    let subs = cache_subdirs();
    assert(is_profile_name(name));
    let here = chromium_profile_roots(base, name, fs);
    assert(here == subdirs_present(profile, subs, fs) + if_dir(sw, fs));
    if fs.spec_is_dir(sub) {
        let j: int = if n == "Cache"@ {
            0
        } else if n == "Code Cache"@ {
            1
        } else if n == "GPUCache"@ {
            2
        } else if n == "DawnCache"@ {
            3
        } else if n == "ShaderCache"@ {
            4
        } else {
            5
        };
        assert(subs[j] == n);
        lemma_subdirs_present_contains(profile, subs, fs, j);
        lemma_concat_contains(subdirs_present(profile, subs, fs), if_dir(sw, fs), sub);
        lemma_chromium_profiles_contain(base, names, fs, i, sub);
        lemma_bases_roots_contain(bases, fs, bi, sub);
    }
    if fs.spec_is_dir(sw) {
        assert(if_dir(sw, fs)[0] == sw);
        lemma_concat_contains(subdirs_present(profile, subs, fs), if_dir(sw, fs), sw);
        lemma_chromium_profiles_contain(base, names, fs, i, sw);
        lemma_bases_roots_contain(bases, fs, bi, sw);
    }
}

} // verus!
