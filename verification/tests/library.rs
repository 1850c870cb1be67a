use std::collections::BTreeMap;

use koscleaner::audit::now_unix;
use koscleaner::cleaners::browser::FirefoxCacheCleaner;
use koscleaner::cleaners::chromium::{BraveCacheCleaner, ChromeCacheCleaner, ChromiumCacheCleaner};
use koscleaner::cleaners::packages::{HomebrewCacheCleaner, NpmCacheCleaner, PipCacheCleaner, YayCacheCleaner};
use koscleaner::cleaners::system::SystemTempCleaner;
use koscleaner::cleaners::trash::TrashCleaner;
use koscleaner::cleaners::Cleaner;
use koscleaner::commands::{list_cleaners, scan_cleaner};
use koscleaner::executor::{execute, plan_deletions, try_delete, ExecutionRequest};
use koscleaner::platform::{current, HostEnv, HostPaths, Os};
use koscleaner::safety::{ensure_within_root, is_path_safe_to_delete, resolve_or_normalize, SafetyError};
use koscleaner::scanner::{scan, ScanReport};
use koscleaner::snapshot::{EntryKind, FsEntry, FsSnapshot, IoFailure, Metadata};

#[derive(Clone)]
enum Node {
    Dir,
    File(u64),
    Link(String),
}

/// A small file system, turned into the observations the library reads.
struct Tree {
    win: bool,
    nodes: BTreeMap<String, Node>,
}

impl Tree {
    fn new(win: bool) -> Tree {
        let mut nodes = BTreeMap::new();
        nodes.insert(Tree::root_of(win), Node::Dir);
        Tree { win, nodes }
    }

    fn root_of(win: bool) -> String {
        if win {
            "C:\\".to_string()
        } else {
            "/".to_string()
        }
    }

    fn sep(&self) -> char {
        if self.win {
            '\\'
        } else {
            '/'
        }
    }

    fn parent(&self, p: &str) -> Option<String> {
        let root = Tree::root_of(self.win);
        if p == root {
            return None;
        }
        let i = p.rfind(self.sep()).unwrap();
        if i + 1 <= root.len() {
            Some(root)
        } else {
            Some(p[..i].to_string())
        }
    }

    fn dir(&mut self, p: &str) {
        if let Some(parent) = self.parent(p) {
            if !self.nodes.contains_key(&parent) {
                self.dir(&parent);
            }
        }
        self.nodes.insert(p.to_string(), Node::Dir);
    }

    fn file(&mut self, p: &str, size: u64) {
        if let Some(parent) = self.parent(p) {
            self.dir(&parent);
        }
        self.nodes.insert(p.to_string(), Node::File(size));
    }

    fn link(&mut self, p: &str, target: &str) {
        if let Some(parent) = self.parent(p) {
            self.dir(&parent);
        }
        self.nodes.insert(p.to_string(), Node::Link(target.to_string()));
    }

    fn target(&self, p: &str) -> Option<(String, Node)> {
        match self.nodes.get(p) {
            None => None,
            Some(Node::Link(t)) => self.target(t),
            Some(n) => Some((p.to_string(), n.clone())),
        }
    }

    fn missing() -> IoFailure {
        IoFailure { not_found: true, message: "No such file or directory (os error 2)".to_string() }
    }

    fn canonical_of(&self, p: &str) -> String {
        if self.win {
            format!("\\\\?\\{p}")
        } else {
            p.to_string()
        }
    }

    fn listing(&self, dir: &str) -> Vec<String> {
        let mut names = Vec::new();
        for p in self.nodes.keys() {
            if self.parent(p).as_deref() == Some(dir) {
                let start = if dir.ends_with(self.sep()) { dir.len() } else { dir.len() + 1 };
                names.push(p[start..].to_string());
            }
        }
        names
    }

    fn snapshot(&self) -> FsSnapshot {
        let os = if self.win { Os::Windows } else { Os::Linux };
        self.snapshot_as(os)
    }

    fn snapshot_as(&self, os: Os) -> FsSnapshot {
        let mut entries = Vec::new();
        for (p, node) in &self.nodes {
            let resolved = self.target(p);
            let metadata = match node {
                Node::Dir => Metadata { kind: EntryKind::Dir, len: 4096 },
                Node::File(n) => Metadata { kind: EntryKind::File, len: *n },
                Node::Link(t) => Metadata { kind: EntryKind::Symlink, len: t.len() as u64 },
            };
            let (exists, is_dir, canonical, listing) = match &resolved {
                None => (false, false, Err(Tree::missing()), Err(Tree::missing())),
                Some((t, Node::Dir)) => (true, true, Ok(self.canonical_of(t)), Ok(self.listing(t))),
                Some((t, _)) => (
                    true,
                    false,
                    Ok(self.canonical_of(t)),
                    Err(IoFailure { not_found: false, message: "Not a directory (os error 20)".to_string() }),
                ),
            };
            if self.win {
                // The system answers for the verbatim spelling of a path as well.
                entries.push(FsEntry {
                    path: self.canonical_of(p),
                    exists,
                    is_dir,
                    canonical: canonical.clone(),
                    metadata: Ok(metadata),
                    listing: listing.clone(),
                });
            }
            entries.push(FsEntry { path: p.clone(), exists, is_dir, canonical, metadata: Ok(metadata), listing });
        }
        FsSnapshot::new(os, entries)
    }
}

fn linux_env(home: Option<&str>) -> HostEnv {
    HostEnv {
        home: home.map(|h| h.to_string()),
        system_temp: "/tmp".to_string(),
        tmpdir: None,
        xdg_cache_home: None,
        xdg_data_home: None,
        xdg_config_home: None,
        userprofile: None,
        temp: None,
        tmp: None,
        localappdata: None,
        appdata: None,
        system_root: None,
        program_files: None,
        program_files_x86: None,
        program_data: None,
    }
}

fn windows_env() -> HostEnv {
    HostEnv {
        home: Some("C:\\Users\\alice".to_string()),
        system_temp: "C:\\Users\\alice\\AppData\\Local\\Temp".to_string(),
        tmpdir: None,
        xdg_cache_home: None,
        xdg_data_home: None,
        xdg_config_home: None,
        userprofile: Some("C:\\Users\\alice".to_string()),
        temp: Some("C:\\Users\\alice\\AppData\\Local\\Temp".to_string()),
        tmp: None,
        localappdata: Some("C:\\Users\\alice\\AppData\\Local".to_string()),
        appdata: Some("C:\\Users\\alice\\AppData\\Roaming".to_string()),
        system_root: Some("C:\\Windows".to_string()),
        program_files: Some("C:\\Program Files".to_string()),
        program_files_x86: Some("C:\\Program Files (x86)".to_string()),
        program_data: Some("C:\\ProgramData".to_string()),
    }
}

/// A Linux machine with the usual top-level directories and a user `alice`.
fn linux_tree() -> Tree {
    let mut t = Tree::new(false);
    for d in ["/etc", "/usr", "/var", "/home/alice/.cache", "/root", "/tmp"] {
        t.dir(d);
    }
    t
}

fn macos_tree() -> Tree {
    let mut t = Tree::new(false);
    for d in ["/System", "/Applications", "/Users/alice/Library", "/etc", "/tmp"] {
        t.dir(d);
    }
    t
}

fn windows_tree() -> Tree {
    let mut t = Tree::new(true);
    for d in ["C:\\Windows\\System32", "C:\\Users\\alice\\AppData\\Local\\Temp", "C:\\Program Files"] {
        t.dir(d);
    }
    t
}

fn check_linux(p: &str) -> Result<(), SafetyError> {
    is_path_safe_to_delete(p, &linux_env(Some("/home/alice")), &linux_tree().snapshot())
}

fn check_macos(p: &str) -> Result<(), SafetyError> {
    is_path_safe_to_delete(p, &linux_env(Some("/Users/alice")), &macos_tree().snapshot_as(Os::Macos))
}

fn check_windows(p: &str) -> Result<(), SafetyError> {
    is_path_safe_to_delete(p, &windows_env(), &windows_tree().snapshot())
}

#[test]
fn rejects_empty_path() {
    let err = check_linux("").unwrap_err();
    assert_eq!(err, SafetyError::Empty);
}

#[test]
fn rejects_relative_path() {
    let err = check_linux("foo/bar").unwrap_err();
    assert!(matches!(err, SafetyError::NotAbsolute(_)));
}

#[test]
fn rejects_parent_traversal() {
    let err = check_linux("/tmp/../etc").unwrap_err();
    assert!(matches!(err, SafetyError::ParentTraversal(_)));
    let err = check_windows("C:\\Temp\\..\\Windows").unwrap_err();
    assert!(matches!(err, SafetyError::ParentTraversal(_)));
}

#[test]
fn rejects_root() {
    let err = check_linux("/").unwrap_err();
    assert!(matches!(err, SafetyError::CriticalSystemPath(_)));
}

#[test]
fn rejects_etc() {
    let err = check_linux("/etc").unwrap_err();
    assert!(matches!(err, SafetyError::CriticalSystemPath(_)));
}

#[test]
fn rejects_usr() {
    let err = check_linux("/usr").unwrap_err();
    assert!(matches!(err, SafetyError::CriticalSystemPath(_)));
}

#[test]
fn rejects_var() {
    let err = check_linux("/var").unwrap_err();
    assert!(matches!(err, SafetyError::CriticalSystemPath(_)));
}

#[test]
fn rejects_home_root() {
    let err = check_linux("/home").unwrap_err();
    assert!(matches!(err, SafetyError::CriticalSystemPath(_)));
}

#[test]
fn rejects_root_user() {
    let err = check_linux("/root").unwrap_err();
    assert!(matches!(err, SafetyError::CriticalSystemPath(_)));
}

#[test]
fn rejects_system() {
    let err = check_macos("/System").unwrap_err();
    assert!(matches!(err, SafetyError::CriticalSystemPath(_)));
}

#[test]
fn rejects_applications() {
    let err = check_macos("/Applications").unwrap_err();
    assert!(matches!(err, SafetyError::CriticalSystemPath(_)));
}

#[test]
fn rejects_users_root() {
    let err = check_macos("/Users").unwrap_err();
    assert!(matches!(err, SafetyError::CriticalSystemPath(_)));
}

#[test]
fn rejects_drive_root() {
    let err = check_windows("C:\\").unwrap_err();
    assert!(matches!(err, SafetyError::CriticalSystemPath(_)));
}

#[test]
fn rejects_windows_dir() {
    let err = check_windows("C:\\Windows").unwrap_err();
    assert!(matches!(err, SafetyError::CriticalSystemPath(_)));
}

#[test]
fn rejects_user_home_directly() {
    let home = linux_env(Some("/home/alice")).home.expect("home dir must be resolvable in test env");
    let err = check_linux(&home).unwrap_err();
    assert!(matches!(err, SafetyError::HomeDirectory(_)));
}

#[test]
fn allows_subpath_inside_home() {
    let home = linux_env(Some("/home/alice")).home.expect("home dir must be resolvable in test env");
    let candidate = format!("{home}/.cache/koscleaner-test-allow");
    // Whether the path exists does not matter: the check does not ask for it.
    assert!(check_linux(&candidate).is_ok());
}

#[test]
fn allows_subpath_inside_temp() {
    assert!(check_linux("/tmp/koscleaner-test-allow").is_ok());
    assert!(check_windows("C:\\Users\\alice\\AppData\\Local\\Temp\\koscleaner-test-allow").is_ok());
}

#[test]
fn ensure_within_root_accepts_subpath() {
    let fs = linux_tree().snapshot();
    assert!(ensure_within_root("/tmp/koscleaner-test-within", "/tmp", &fs).is_ok());
}

#[test]
fn ensure_within_root_rejects_sibling() {
    let fs = linux_tree().snapshot();
    let err = ensure_within_root("/", "/tmp", &fs).unwrap_err();
    assert!(matches!(err, SafetyError::OutsideRoot { .. }));
}

#[test]
fn ensure_within_root_detects_symlink_escape() {
    let mut t = linux_tree();
    t.dir("/tmp/koscleaner-symtest");
    t.link("/tmp/koscleaner-symtest/escape", "/etc");
    let fs = t.snapshot();
    let result = ensure_within_root("/tmp/koscleaner-symtest/escape", "/tmp/koscleaner-symtest", &fs);
    assert!(matches!(result, Err(SafetyError::OutsideRoot { .. })));
}

#[test]
fn home_reached_through_a_link_is_refused() {
    let mut t = linux_tree();
    t.link("/tmp/to-home", "/home/alice");
    let fs = t.snapshot();
    let err = is_path_safe_to_delete("/tmp/to-home", &linux_env(Some("/home/alice")), &fs).unwrap_err();
    assert_eq!(err, SafetyError::HomeDirectory("/home/alice".to_string()));
}

#[test]
fn critical_path_spelled_with_a_dot_is_refused() {
    let err = check_linux("/./etc").unwrap_err();
    assert_eq!(err, SafetyError::CriticalSystemPath("/etc".to_string()));
    let err = check_linux("/etc/").unwrap_err();
    assert_eq!(err, SafetyError::CriticalSystemPath("/etc".to_string()));
}

#[test]
fn every_critical_entry_of_the_list_is_refused() {
    for p in ["/", "/bin", "/boot", "/dev", "/lib", "/proc", "/sys", "/tmp", "/opt"] {
        assert!(matches!(check_linux(p), Err(SafetyError::CriticalSystemPath(_))), "{p}");
    }
    for p in ["C:\\Program Files", "C:\\Program Files (x86)", "C:\\ProgramData", "C:\\Users"] {
        assert!(matches!(check_windows(p), Err(SafetyError::CriticalSystemPath(_))), "{p}");
    }
    // A drive that is not there cannot be canonicalized: refused all the same.
    assert!(matches!(check_windows("D:\\"), Err(SafetyError::CanonicalizeFailed { .. })));
}

#[test]
fn missing_names_are_pushed_onto_the_canonical_ancestor() {
    let mut t = linux_tree();
    t.link("/tmp/cache", "/home/alice/.cache");
    let fs = t.snapshot();
    assert_eq!(resolve_or_normalize("/tmp/cache/a/b", &fs), Ok("/home/alice/.cache/a/b".to_string()));
    let wfs = windows_tree().snapshot();
    assert_eq!(
        resolve_or_normalize("C:\\Windows\\Temp\\x", &wfs),
        Ok("C:\\Windows\\Temp\\x".to_string())
    );
}

#[test]
fn canonicalize_failure_is_reported() {
    // An unreadable directory: its canonical form cannot be had.
    let locked = FsEntry {
        path: "/tmp/locked".to_string(),
        exists: true,
        is_dir: true,
        canonical: Err(IoFailure { not_found: false, message: "Permission denied (os error 13)".to_string() }),
        metadata: Ok(Metadata { kind: EntryKind::Dir, len: 4096 }),
        listing: Ok(Vec::new()),
    };
    let fs = FsSnapshot::new(Os::Linux, vec![locked]);
    let err = is_path_safe_to_delete("/tmp/locked", &linux_env(None), &fs).unwrap_err();
    assert_eq!(
        err,
        SafetyError::CanonicalizeFailed {
            path: "/tmp/locked".to_string(),
            source: "Permission denied (os error 13)".to_string()
        }
    );
    assert_eq!(
        err.message(),
        "failed to canonicalize /tmp/locked: Permission denied (os error 13)".to_string()
    );
}

#[test]
fn a_root_lies_within_itself() {
    let fs = linux_tree().snapshot();
    assert!(ensure_within_root("/tmp", "/tmp", &fs).is_ok());
    assert!(ensure_within_root("/home/alice/.cache/", "/home/alice/./.cache", &fs).is_ok());
}

#[test]
fn outside_root_message_names_both_paths() {
    let fs = linux_tree().snapshot();
    let err = ensure_within_root("/etc", "/tmp", &fs).unwrap_err();
    assert_eq!(err, SafetyError::OutsideRoot { path: "/etc".to_string(), root: "/tmp".to_string() });
    assert_eq!(err.message(), "path /etc is outside expected root /tmp".to_string());
}

// ---- cleaners ----

fn env_with(home: Option<&str>, cache: Option<&str>, data: Option<&str>, temp: Option<&str>) -> HostEnv {
    HostEnv {
        home: home.map(|s| s.to_string()),
        xdg_cache_home: cache.map(|s| s.to_string()),
        xdg_data_home: data.map(|s| s.to_string()),
        tmpdir: temp.map(|s| s.to_string()),
        ..linux_env(None)
    }
}

fn linux_paths(env: &HostEnv) -> HostPaths {
    current(Os::Linux, env.clone())
}

#[test]
fn missing_user_cache_returns_empty() {
    let env = env_with(None, None, None, None);
    let paths = linux_paths(&env);
    let fs = linux_tree().snapshot();
    assert!(PipCacheCleaner.roots(&paths, &fs).is_empty());
    assert!(YayCacheCleaner.roots(&paths, &fs).is_empty());
    assert!(HomebrewCacheCleaner.roots(&paths, &fs).is_empty());
}

#[test]
fn no_trash_dir_returns_empty() {
    let paths = current(Os::Windows, windows_env());
    let fs = windows_tree().snapshot();
    assert!(TrashCleaner.roots(&paths, &fs).is_empty());
}

#[test]
fn missing_trash_dir_returns_empty() {
    let env = env_with(None, None, Some("/tmp/koscleaner-trash-missing"), None);
    let fs = linux_tree().snapshot();
    assert!(TrashCleaner.roots(&linux_paths(&env), &fs).is_empty());
}

#[test]
fn linux_returns_files_and_info_subdirs() {
    let mut t = linux_tree();
    t.file("/tmp/koscleaner-trash-linux/Trash/files/old.txt", 100);
    t.file("/tmp/koscleaner-trash-linux/Trash/info/old.txt.trashinfo", 50);
    let fs = t.snapshot();
    let env = env_with(None, None, Some("/tmp/koscleaner-trash-linux"), None);
    let paths = linux_paths(&env);
    let roots = TrashCleaner.roots(&paths, &fs);
    assert_eq!(roots.len(), 2);
    let report = scan(&TrashCleaner, &paths, &env, &fs);
    assert_eq!(report.total_size, 150);
}

#[test]
fn macos_returns_trash_dir_directly() {
    let mut t = macos_tree();
    t.file("/Users/alice/.Trash/file1.txt", 200);
    t.file("/Users/alice/.Trash/subdir/inner.bin", 300);
    let fs = t.snapshot_as(Os::Macos);
    let env = linux_env(Some("/Users/alice"));
    let paths = current(Os::Macos, env.clone());
    let roots = TrashCleaner.roots(&paths, &fs);
    assert_eq!(roots, vec!["/Users/alice/.Trash".to_string()]);
    let report = scan(&TrashCleaner, &paths, &env, &fs);
    assert_eq!(report.total_size, 500);
}

#[test]
fn pip_detects_when_present() {
    let mut t = linux_tree();
    t.file("/tmp/koscleaner-pkg-pip/pip/wheels/x.whl", 123);
    let fs = t.snapshot();
    let env = env_with(None, Some("/tmp/koscleaner-pkg-pip"), None, None);
    let paths = linux_paths(&env);
    let roots = PipCacheCleaner.roots(&paths, &fs);
    assert_eq!(roots.len(), 1);
    let report = scan(&PipCacheCleaner, &paths, &env, &fs);
    assert_eq!(report.total_size, 123);
}

#[test]
fn pip_on_windows_uses_the_cache_subdirectory() {
    let mut t = windows_tree();
    t.file("C:\\Users\\alice\\AppData\\Local\\pip\\Cache\\wheels\\x.whl", 123);
    let fs = t.snapshot();
    let paths = current(Os::Windows, windows_env());
    assert_eq!(
        PipCacheCleaner.roots(&paths, &fs),
        vec!["C:\\Users\\alice\\AppData\\Local\\pip\\Cache".to_string()]
    );
    let report = scan(&PipCacheCleaner, &paths, &windows_env(), &fs);
    assert_eq!(report.total_size, 123);
    assert!(report.errors.is_empty(), "{:?}", report.errors);
}

#[test]
fn npm_prefers_cacache_subdir() {
    let mut t = linux_tree();
    t.file("/tmp/koscleaner-pkg-npm/.npm/_cacache/content-v2/x", 50);
    let fs = t.snapshot();
    let env = env_with(Some("/tmp/koscleaner-pkg-npm"), None, None, None);
    let paths = linux_paths(&env);
    let roots = NpmCacheCleaner.roots(&paths, &fs);
    assert!(roots.iter().any(|r| r.ends_with("_cacache")));
    let report = scan(&NpmCacheCleaner, &paths, &env, &fs);
    assert_eq!(report.total_size, 50);
}

#[test]
fn homebrew_only_when_dir_exists() {
    let mut t = linux_tree();
    t.dir("/tmp/koscleaner-pkg-brew");
    let env = env_with(None, Some("/tmp/koscleaner-pkg-brew"), None, None);
    let paths = linux_paths(&env);
    assert!(HomebrewCacheCleaner.roots(&paths, &t.snapshot()).is_empty());

    t.file("/tmp/koscleaner-pkg-brew/Homebrew/downloads/x.tar", 999);
    let fs = t.snapshot();
    let roots = HomebrewCacheCleaner.roots(&paths, &fs);
    assert_eq!(roots.len(), 1);
    let report = scan(&HomebrewCacheCleaner, &paths, &env, &fs);
    assert_eq!(report.total_size, 999);
}

#[test]
fn no_firefox_install_yields_empty_roots() {
    let mut t = linux_tree();
    t.dir("/tmp/koscleaner-firefox-absent");
    let env = env_with(None, Some("/tmp/koscleaner-firefox-absent"), None, None);
    assert!(FirefoxCacheCleaner.roots(&linux_paths(&env), &t.snapshot()).is_empty());
}

#[test]
fn detects_subcaches_across_profiles() {
    let base = "/tmp/koscleaner-firefox-multi/mozilla/firefox";
    let mut t = linux_tree();
    t.file(&format!("{base}/abcd1234.default/cache2/entry-1"), 256);
    t.file(&format!("{base}/abcd1234.default/startupCache/scriptCache.bin"), 64);
    t.file(&format!("{base}/9999zzzz.dev-edition/cache2/entry-1"), 128);
    let env = env_with(None, Some("/tmp/koscleaner-firefox-multi"), None, None);
    let roots = FirefoxCacheCleaner.roots(&linux_paths(&env), &t.snapshot());
    assert!(roots.iter().any(|r| r == &format!("{base}/abcd1234.default/cache2")));
    assert!(roots.iter().any(|r| r == &format!("{base}/abcd1234.default/startupCache")));
    assert!(roots.iter().any(|r| r == &format!("{base}/9999zzzz.dev-edition/cache2")));
    assert_eq!(roots.len(), 3);
}

#[test]
fn skips_non_directory_entries() {
    let base = "/tmp/koscleaner-firefox-nondir/mozilla/firefox";
    let mut t = linux_tree();
    t.file(&format!("{base}/real.default/cache2/e"), 10);
    t.file(&format!("{base}/strayfile.txt"), 4);
    let env = env_with(None, Some("/tmp/koscleaner-firefox-nondir"), None, None);
    let roots = FirefoxCacheCleaner.roots(&linux_paths(&env), &t.snapshot());
    assert_eq!(roots.len(), 1);
    assert_eq!(roots[0], format!("{base}/real.default/cache2"));
}

#[test]
fn integrates_with_scanner_and_reports_files() {
    let base = "/tmp/koscleaner-firefox-scan/mozilla/firefox/scan.default/cache2";
    let mut t = linux_tree();
    t.file(&format!("{base}/a"), 100);
    t.file(&format!("{base}/nested/b"), 400);
    let fs = t.snapshot();
    let env = env_with(None, Some("/tmp/koscleaner-firefox-scan"), None, None);
    let report = scan(&FirefoxCacheCleaner, &linux_paths(&env), &env, &fs);
    assert_eq!(report.items.len(), 2);
    assert_eq!(report.total_size, 500);
    assert!(report.errors.is_empty(), "{:?}", report.errors);
}

#[test]
fn no_install_returns_empty() {
    let env = env_with(None, Some("/tmp/koscleaner-chr-absent-c"), Some("/tmp/koscleaner-chr-absent-d"), None);
    let fs = linux_tree().snapshot();
    assert!(ChromeCacheCleaner.roots(&linux_paths(&env), &fs).is_empty());
    assert!(BraveCacheCleaner.roots(&linux_paths(&env), &fs).is_empty());
    assert!(ChromiumCacheCleaner.roots(&linux_paths(&env), &fs).is_empty());
}

#[test]
fn detects_chrome_default_and_profile_caches_macos() {
    let cache = "/Users/alice/Library/Caches/Google/Chrome";
    let data = "/Users/alice/Library/Application Support/Google/Chrome";
    let mut t = macos_tree();
    t.file(&format!("{cache}/Default/Cache/data_0"), 1000);
    t.file(&format!("{cache}/Default/Code Cache/js/index"), 500);
    t.file(&format!("{cache}/Profile 1/Cache/data_0"), 200);
    t.file(&format!("{cache}/RandomFile.txt"), 10);
    t.file(&format!("{data}/Default/Service Worker/CacheStorage/x"), 333);
    let fs = t.snapshot_as(Os::Macos);
    let env = linux_env(Some("/Users/alice"));
    let paths = current(Os::Macos, env.clone());
    let roots = ChromeCacheCleaner.roots(&paths, &fs);
    assert_eq!(roots.len(), 4, "got {roots:?}");
    let report = scan(&ChromeCacheCleaner, &paths, &env, &fs);
    assert_eq!(report.total_size, 1000 + 500 + 200 + 333);
}

#[test]
fn brave_isolated_from_chrome_macos() {
    let cache = "/Users/alice/Library/Caches";
    let mut t = macos_tree();
    t.file(&format!("{cache}/BraveSoftware/Brave-Browser/Default/Cache/data"), 777);
    t.file(&format!("{cache}/Google/Chrome/Default/Cache/data"), 999);
    let fs = t.snapshot_as(Os::Macos);
    let env = linux_env(Some("/Users/alice"));
    let paths = current(Os::Macos, env.clone());
    let brave = scan(&BraveCacheCleaner, &paths, &env, &fs);
    let chrome = scan(&ChromeCacheCleaner, &paths, &env, &fs);
    assert_eq!(brave.total_size, 777);
    assert_eq!(chrome.total_size, 999);
}

#[test]
fn chrome_profiles_on_linux_live_in_the_data_dir() {
    let mut t = linux_tree();
    t.file("/home/alice/.cache/google-chrome/Default/Cache/f", 7);
    t.file("/home/alice/.local/share/google-chrome/Profile 2/Service Worker/CacheStorage/s", 5);
    t.file("/home/alice/.local/share/google-chrome/Local State", 1);
    let fs = t.snapshot();
    let env = linux_env(Some("/home/alice"));
    let paths = linux_paths(&env);
    let roots = ChromeCacheCleaner.roots(&paths, &fs);
    assert_eq!(
        roots,
        vec![
            "/home/alice/.cache/google-chrome/Default/Cache".to_string(),
            "/home/alice/.local/share/google-chrome/Profile 2/Service Worker/CacheStorage".to_string(),
        ]
    );
}

// ---- scanner ----

fn temp_env(root: &str) -> HostEnv {
    env_with(Some("/home/alice"), None, None, Some(root))
}

#[test]
fn scans_flat_temp_dir() {
    let root = "/tmp/koscleaner-scan-flat";
    let mut t = linux_tree();
    t.file(&format!("{root}/a.txt"), 100);
    t.file(&format!("{root}/b.bin"), 250);
    let fs = t.snapshot();
    let env = temp_env(root);
    let report = scan(&SystemTempCleaner, &linux_paths(&env), &env, &fs);
    assert_eq!(report.items.len(), 2);
    assert_eq!(report.total_size, 350);
    assert!(report.errors.is_empty(), "unexpected errors: {:?}", report.errors);
    assert_eq!(report.cleaner_id, "system.temp");
    assert_eq!(report.category, "System");
    assert_eq!(report.name, "Temporary files");
}

#[test]
fn scans_nested_dirs_recursively() {
    let root = "/tmp/koscleaner-scan-nested";
    let mut t = linux_tree();
    t.file(&format!("{root}/top.txt"), 10);
    t.file(&format!("{root}/sub/inner.txt"), 20);
    t.file(&format!("{root}/sub/deeper/leaf.txt"), 30);
    let fs = t.snapshot();
    let env = temp_env(root);
    let report = scan(&SystemTempCleaner, &linux_paths(&env), &env, &fs);
    assert_eq!(report.items.len(), 3);
    assert_eq!(report.total_size, 60);
}

#[test]
fn empty_or_missing_root_yields_empty_report() {
    let env = temp_env("/tmp/koscleaner-scan-missing");
    let fs = linux_tree().snapshot();
    let report = scan(&SystemTempCleaner, &linux_paths(&env), &env, &fs);
    assert!(report.items.is_empty());
    assert_eq!(report.total_size, 0);
    assert!(report.errors.is_empty(), "unexpected errors: {:?}", report.errors);
}

#[test]
fn does_not_follow_symlinks_into_other_dirs() {
    let root = "/tmp/koscleaner-scan-symlink";
    let outside = "/tmp/koscleaner-scan-symlink-outside";
    let mut t = linux_tree();
    t.file(&format!("{outside}/secret.txt"), 9999);
    t.link(&format!("{root}/escape"), outside);
    t.file(&format!("{root}/legit.txt"), 5);
    let fs = t.snapshot();
    let env = temp_env(root);
    let report = scan(&SystemTempCleaner, &linux_paths(&env), &env, &fs);
    assert!(report.items.iter().any(|i| i.path.ends_with("legit.txt") && !i.is_symlink));
    assert!(report.items.iter().any(|i| i.path.ends_with("escape") && i.is_symlink));
    assert!(!report.items.iter().any(|i| i.path.contains("secret.txt")));
}

#[test]
fn unsafe_entries_are_reported_as_errors() {
    // A temporary directory that holds the home directory of a user: the scan
    // refuses to list it as something to clean.
    let mut t = linux_tree();
    t.file("/home/alice/notes.txt", 3);
    let fs = t.snapshot();
    let env = temp_env("/home");
    let report = scan(&SystemTempCleaner, &linux_paths(&env), &env, &fs);
    assert!(report.items.is_empty());
    assert_eq!(report.errors.len(), 1);
    assert_eq!(report.errors[0].path, "/home/alice");
    assert_eq!(
        report.errors[0].message,
        "blocked by safety: path is the user home directory itself: /home/alice"
    );
}

#[test]
fn total_saturates_instead_of_overflowing() {
    let root = "/tmp/koscleaner-scan-huge";
    let mut t = linux_tree();
    t.file(&format!("{root}/a"), u64::MAX - 1);
    t.file(&format!("{root}/b"), 10);
    let fs = t.snapshot();
    let env = temp_env(root);
    let report = scan(&SystemTempCleaner, &linux_paths(&env), &env, &fs);
    assert_eq!(report.items.len(), 2);
    assert_eq!(report.total_size, u64::MAX);
}

#[test]
fn unreadable_root_is_reported() {
    let fs = FsSnapshot::new(
        Os::Linux,
        vec![FsEntry {
            path: "/tmp/locked".to_string(),
            exists: true,
            is_dir: true,
            canonical: Err(IoFailure { not_found: false, message: "Permission denied (os error 13)".to_string() }),
            metadata: Ok(Metadata { kind: EntryKind::Dir, len: 4096 }),
            listing: Ok(Vec::new()),
        }],
    );
    let env = temp_env("/tmp/locked");
    let report = scan(&SystemTempCleaner, &linux_paths(&env), &env, &fs);
    assert_eq!(report.errors.len(), 1);
    assert_eq!(report.errors[0].message, "cannot access root: Permission denied (os error 13)");
}

// ---- commands ----

#[test]
fn lists_the_system_temp_cleaner() {
    let list = list_cleaners();
    assert_eq!(list.len(), 1);
    assert_eq!(list[0].id, "system.temp");
    assert_eq!(list[0].category, "System");
}

#[test]
fn scan_by_id_refuses_unknown_cleaners() {
    let env = temp_env("/tmp/koscleaner-scan-missing");
    let fs = linux_tree().snapshot();
    let err = scan_cleaner("browsers.opera".to_string(), &linux_paths(&env), &env, &fs).unwrap_err();
    assert_eq!(err, "unknown cleaner: browsers.opera");
    let ok = scan_cleaner("system.temp".to_string(), &linux_paths(&env), &env, &fs).unwrap();
    assert_eq!(ok.cleaner_id, "system.temp");
}

// ---- executor ----

fn run(t: &Tree, root: &str, paths: &[&str], removals: Vec<Result<(), String>>) -> koscleaner::executor::ExecutionReport {
    let fs = t.snapshot();
    let env = temp_env(root);
    let hp = linux_paths(&env);
    let request = ExecutionRequest { paths: paths.iter().map(|p| p.to_string()).collect() };
    execute(&SystemTempCleaner, &hp, &request, &env, &fs, &removals)
}

#[test]
fn deletes_files_inside_root_and_writes_audit() {
    let root = "/tmp/koscleaner-exec-happy";
    let mut t = linux_tree();
    let f1 = format!("{root}/a.txt");
    let f2 = format!("{root}/b.bin");
    t.file(&f1, 100);
    t.file(&f2, 250);
    let mut report = run(&t, root, &[&f1, &f2], vec![Ok(()), Ok(())]);
    assert_eq!(report.deleted, 2);
    assert_eq!(report.freed_bytes, 350);
    assert!(report.failures.is_empty(), "{:?}", report.failures);
    let record = report.audit_record(1_700_000_000);
    assert_eq!(record.cleaner_id, "system.temp");
    assert_eq!(record.deleted, 2);
    assert_eq!(record.attempted, 2);
    report.record_audit(Ok("/home/alice/.local/share/koscleaner/audit.log".to_string()));
    assert_eq!(report.audit_log_path, Some("/home/alice/.local/share/koscleaner/audit.log".to_string()));
}

#[test]
fn rejects_path_outside_cleaner_roots() {
    let root = "/tmp/koscleaner-exec-outside";
    let mut t = linux_tree();
    t.dir(root);
    let stranger = "/tmp/koscleaner-exec-outside-other/stranger.txt";
    t.file(stranger, 50);
    let report = run(&t, root, &[stranger], vec![Ok(())]);
    assert_eq!(report.deleted, 0);
    assert_eq!(report.failures.len(), 1);
    assert!(report.failures[0].message.contains("not within"));
}

#[test]
fn refuses_to_delete_directories() {
    let root = "/tmp/koscleaner-exec-dir";
    let mut t = linux_tree();
    let subdir = format!("{root}/subdir");
    t.dir(&subdir);
    let report = run(&t, root, &[&subdir], vec![Ok(())]);
    assert_eq!(report.deleted, 0);
    assert_eq!(report.failures.len(), 1);
    assert!(report.failures[0].message.contains("directory"));
}

#[test]
fn deletes_symlink_without_following_target() {
    let root = "/tmp/koscleaner-exec-symlink";
    let target = "/tmp/koscleaner-exec-symlink-outside/target.txt";
    let mut t = linux_tree();
    t.file(target, 999);
    let link = format!("{root}/link");
    t.link(&link, target);
    let fs = t.snapshot();
    let env = temp_env(root);
    let request = ExecutionRequest { paths: vec![link.clone()] };
    let plan = plan_deletions(&SystemTempCleaner, &linux_paths(&env), &request, &env, &fs);
    // The link's own size, not the target's.
    assert_eq!(plan, vec![Ok(target.len() as u64)]);
    let report = run(&t, root, &[&link], vec![Ok(())]);
    assert_eq!(report.deleted, 1);
    assert!(report.failures.is_empty(), "{:?}", report.failures);
}

#[test]
fn audit_record_is_written_even_with_partial_failures() {
    let root = "/tmp/koscleaner-exec-partial";
    let mut t = linux_tree();
    let real = format!("{root}/real.txt");
    let missing = format!("{root}/missing.txt");
    t.file(&real, 10);
    let mut report = run(&t, root, &[&real, &missing], vec![Ok(()), Ok(())]);
    assert_eq!(report.deleted, 1);
    assert_eq!(report.failures.len(), 1);
    assert_eq!(report.failures[0].message, "stat failed: No such file or directory (os error 2)");
    let record = report.audit_record(now_unix());
    assert_eq!(record.deleted, 1);
    assert_eq!(record.attempted, 2);
    assert_eq!(record.failures.len(), 1);
    assert_eq!(record.failures[0].path, missing);
    report.record_audit(Ok("/tmp/audit.log".to_string()));
    assert!(report.audit_log_path.is_some());
}

#[test]
fn failed_removal_and_failed_audit_are_reported() {
    let root = "/tmp/koscleaner-exec-denied";
    let mut t = linux_tree();
    let f = format!("{root}/f");
    t.file(&f, 10);
    let mut report = run(&t, root, &[&f], vec![Err("Permission denied (os error 13)".to_string())]);
    assert_eq!(report.deleted, 0);
    assert_eq!(report.freed_bytes, 0);
    assert_eq!(report.failures[0].message, "remove_file failed: Permission denied (os error 13)");
    report.record_audit(Err("audit log directory is not available on this platform".to_string()));
    assert_eq!(report.audit_log_path, None);
    assert_eq!(report.failures.len(), 2);
    assert_eq!(report.failures[1].path, "<audit-log>");
    assert_eq!(
        report.failures[1].message,
        "failed to write audit log: audit log directory is not available on this platform"
    );
}

#[test]
fn windows_execution_goes_through_verbatim_paths() {
    let temp = "C:\\Users\\alice\\AppData\\Local\\Temp";
    let mut t = windows_tree();
    t.file(&format!("{temp}\\setup.log"), 40);
    let fs = t.snapshot();
    let env = windows_env();
    let paths = current(Os::Windows, env.clone());
    let report = scan(&SystemTempCleaner, &paths, &env, &fs);
    assert!(report.errors.is_empty(), "{:?}", report.errors);
    assert_eq!(report.items.len(), 1);
    assert_eq!(report.items[0].path, format!("\\\\?\\{temp}\\setup.log"));
    let request = ExecutionRequest { paths: vec![report.items[0].path.clone()] };
    let outcome = execute(&SystemTempCleaner, &paths, &request, &env, &fs, &vec![Ok(())]);
    assert_eq!(outcome.deleted, 1);
    assert_eq!(outcome.freed_bytes, 40);
}

#[test]
fn cleaning_what_was_scanned_clears_every_item() {
    let root = "/tmp/koscleaner-exec-roundtrip";
    let mut t = linux_tree();
    t.file(&format!("{root}/a"), 1);
    t.file(&format!("{root}/d/b"), 2);
    t.link(&format!("{root}/l"), "/home/alice/.cache");
    let fs = t.snapshot();
    let env = temp_env(root);
    let paths = linux_paths(&env);
    let report = scan(&SystemTempCleaner, &paths, &env, &fs);
    assert_eq!(report.items.len(), 3);
    let request = ExecutionRequest { paths: report.items.iter().map(|i| i.path.clone()).collect() };
    let removals = vec![Ok(()); 3];
    let outcome = execute(&SystemTempCleaner, &paths, &request, &env, &fs, &removals);
    assert_eq!(outcome.deleted, 3);
    assert_eq!(outcome.freed_bytes, report.total_size);
    assert!(outcome.failures.is_empty(), "{:?}", outcome.failures);
}

#[test]
fn unsafe_request_is_refused_before_anything_else() {
    let mut t = linux_tree();
    t.dir("/tmp/koscleaner-exec-unsafe");
    let roots = vec!["/".to_string()];
    let fs = t.snapshot();
    let env = linux_env(Some("/home/alice"));
    assert_eq!(
        try_delete("/etc", &roots, &env, &fs),
        Err("safety check failed: path is a critical system directory: /etc".to_string())
    );
    assert_eq!(
        try_delete("relative", &roots, &env, &fs),
        Err("safety check failed: path is not absolute: relative".to_string())
    );
}

#[test]
fn a_path_of_which_nothing_exists_resolves_to_itself() {
    let fs = FsSnapshot::new(Os::Linux, Vec::new());
    assert_eq!(resolve_or_normalize("kos-nonexistent/x", &fs), Ok("kos-nonexistent/x".to_string()));
    assert_eq!(resolve_or_normalize("", &fs), Ok(String::new()));
    assert!(ensure_within_root("kos-nonexistent/x", "kos-nonexistent", &fs).is_ok());
    let err = ensure_within_root("other/x", "kos-nonexistent", &fs).unwrap_err();
    assert_eq!(
        err,
        SafetyError::OutsideRoot { path: "other/x".to_string(), root: "kos-nonexistent".to_string() }
    );
}

#[test]
fn a_path_named_twice_is_removed_once() {
    let root = "/tmp/koscleaner-exec-twice";
    let mut t = linux_tree();
    let f = format!("{root}/f");
    t.file(&f, 7);
    let same = format!("{root}//f");
    let report = run(
        &t,
        root,
        &[&f, &same],
        vec![Ok(()), Err("No such file or directory (os error 2)".to_string())],
    );
    assert_eq!(report.deleted, 1);
    assert_eq!(report.freed_bytes, 7);
    assert_eq!(report.failures.len(), 1);
    assert_eq!(report.failures[0].path, same);
    assert_eq!(report.failures[0].message, "stat failed: No such file or directory (os error 2)");
}

#[test]
fn a_path_whose_first_removal_failed_is_tried_again() {
    let root = "/tmp/koscleaner-exec-retry";
    let mut t = linux_tree();
    let f = format!("{root}/f");
    t.file(&f, 7);
    let report = run(&t, root, &[&f, &f], vec![Err("Device or resource busy (os error 16)".to_string()), Ok(())]);
    assert_eq!(report.deleted, 1);
    assert_eq!(report.failures.len(), 1);
    assert_eq!(report.failures[0].message, "remove_file failed: Device or resource busy (os error 16)");
}

#[test]
fn pushing_onto_a_report_adds_to_its_total() {
    let mut report = ScanReport {
        cleaner_id: "x".to_string(),
        category: "y".to_string(),
        name: "z".to_string(),
        items: Vec::new(),
        total_size: 5,
        errors: Vec::new(),
    };
    report.push_item("/tmp/a".to_string(), 3, false);
    assert_eq!(report.total_size, 8);
    report.push_error("/tmp/b".to_string(), "stat failed: x".to_string());
    assert_eq!(report.total_size, 8);
    report.push_item("/tmp/c".to_string(), u64::MAX, true);
    assert_eq!(report.total_size, u64::MAX);
    assert_eq!(report.items.len(), 2);
    assert_eq!(report.errors.len(), 1);
}

#[test]
fn a_path_through_a_removed_link_is_no_longer_there() {
    let root = "/tmp/koscleaner-exec-through";
    let mut t = linux_tree();
    t.file("/tmp/koscleaner-exec-through-target/x", 3);
    let link = format!("{root}/l");
    t.link(&link, "/tmp/koscleaner-exec-through-target");
    let inner = format!("{link}/x");
    let report = run(
        &t,
        root,
        &[&link, &inner],
        vec![Ok(()), Err("No such file or directory (os error 2)".to_string())],
    );
    assert_eq!(report.deleted, 1);
    assert_eq!(report.failures.len(), 1);
    assert_eq!(report.failures[0].path, inner);
    assert_eq!(report.failures[0].message, "stat failed: No such file or directory (os error 2)");
}
