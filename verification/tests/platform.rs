use koscleaner::audit::audit_log_file;
use koscleaner::pathname::{is_absolute_path, join_path};
use koscleaner::platform::{current, HostEnv, HostPaths, LinuxPaths, MacosPaths, Os, PlatformPaths, WindowsPaths};

fn bare_env() -> HostEnv {
    HostEnv {
        home: None,
        system_temp: "/tmp".to_string(),
        tmpdir: None,
        xdg_cache_home: None,
        xdg_data_home: None,
        xdg_config_home: None,
        userprofile: None,
        temp: None,
        tmp: None,
        localappdata: None,
        appdata: None,
        system_root: None,
        program_files: None,
        program_files_x86: None,
        program_data: None,
    }
}

fn linux(home: Option<&str>) -> LinuxPaths {
    LinuxPaths { env: HostEnv { home: home.map(|h| h.to_string()), ..bare_env() } }
}

fn macos(home: Option<&str>) -> MacosPaths {
    MacosPaths { env: HostEnv { home: home.map(|h| h.to_string()), ..bare_env() } }
}

fn windows_env() -> HostEnv {
    HostEnv {
        home: Some("C:\\Users\\alice".to_string()),
        system_temp: "C:\\Windows\\Temp".to_string(),
        userprofile: Some("C:\\Users\\alice".to_string()),
        temp: Some("C:\\Users\\alice\\AppData\\Local\\Temp".to_string()),
        localappdata: Some("C:\\Users\\alice\\AppData\\Local".to_string()),
        appdata: Some("C:\\Users\\alice\\AppData\\Roaming".to_string()),
        ..bare_env()
    }
}

#[test]
fn linux_temp_dir_is_absolute() {
    let p = linux(Some("/home/alice")).temp_dir();
    assert!(is_absolute_path(&p, false), "temp_dir should be absolute, got {p:?}");
    assert_eq!(p, "/tmp");
    let with_tmpdir = LinuxPaths { env: HostEnv { tmpdir: Some("/var/tmp".to_string()), ..bare_env() } };
    assert_eq!(with_tmpdir.temp_dir(), "/var/tmp");
    let empty_tmpdir = LinuxPaths { env: HostEnv { tmpdir: Some(String::new()), ..bare_env() } };
    assert_eq!(empty_tmpdir.temp_dir(), "/tmp");
}

#[test]
fn cache_dir_resolves_when_home_is_set() {
    let paths = linux(Some("/home/alice"));
    if paths.home_dir().is_some() {
        let p = paths.user_cache_dir().expect("cache dir");
        assert!(is_absolute_path(&p, false), "cache_dir should be absolute, got {p:?}");
        assert_eq!(p, "/home/alice/.cache");
    }
}

#[test]
fn xdg_variables_take_precedence() {
    let paths = LinuxPaths {
        env: HostEnv {
            home: Some("/home/alice".to_string()),
            xdg_cache_home: Some("/srv/cache".to_string()),
            xdg_data_home: Some("/srv/data".to_string()),
            xdg_config_home: Some(String::new()),
            ..bare_env()
        },
    };
    assert_eq!(paths.user_cache_dir(), Some("/srv/cache".to_string()));
    assert_eq!(paths.user_data_dir(), Some("/srv/data".to_string()));
    assert_eq!(paths.user_config_dir(), Some("/home/alice/.config".to_string()));
    assert_eq!(paths.trash_dir(), Some("/srv/data/Trash".to_string()));
    assert_eq!(paths.audit_log_dir(), Some("/srv/data/koscleaner".to_string()));
}

#[test]
fn data_and_trash_consistent() {
    let paths = linux(Some("/home/alice"));
    if let (Some(data), Some(trash)) = (paths.user_data_dir(), paths.trash_dir()) {
        assert_eq!(trash, join_path(&data, "Trash", false));
        assert_eq!(trash, "/home/alice/.local/share/Trash");
    } else {
        panic!("a home directory gives both");
    }
}

#[test]
fn audit_log_dir_under_data_dir() {
    let paths = linux(Some("/home/alice"));
    if let (Some(data), Some(audit)) = (paths.user_data_dir(), paths.audit_log_dir()) {
        assert_eq!(audit, join_path(&data, "koscleaner", false));
    } else {
        panic!("a home directory gives both");
    }
}

#[test]
fn linux_without_home_has_no_user_directories() {
    let paths = linux(None);
    assert_eq!(paths.home_dir(), None);
    assert_eq!(paths.user_cache_dir(), None);
    assert_eq!(paths.user_data_dir(), None);
    assert_eq!(paths.trash_dir(), None);
    assert_eq!(paths.audit_log_dir(), None);
}

#[test]
fn macos_temp_dir_is_absolute() {
    let p = macos(Some("/Users/alice")).temp_dir();
    assert!(is_absolute_path(&p, false), "temp_dir should be absolute, got {p:?}");
}

#[test]
fn cache_dir_under_library() {
    let cache = macos(Some("/Users/alice")).user_cache_dir().expect("a home gives a cache");
    assert!(cache.ends_with("Library/Caches"));
    assert_eq!(cache, "/Users/alice/Library/Caches");
}

#[test]
fn data_dir_under_application_support() {
    let data = macos(Some("/Users/alice")).user_data_dir().expect("a home gives a data dir");
    assert!(data.ends_with("Library/Application Support"));
}

#[test]
fn trash_dir_is_dot_trash() {
    let trash = macos(Some("/Users/alice")).trash_dir().expect("a home gives a trash");
    assert!(trash.ends_with(".Trash"));
}

#[test]
fn audit_log_dir_under_logs() {
    let audit = macos(Some("/Users/alice/")).audit_log_dir().expect("a home gives a log dir");
    assert!(audit.ends_with("Library/Logs/KosCleaner"));
    assert_eq!(audit, "/Users/alice/Library/Logs/KosCleaner");
}

#[test]
fn windows_temp_dir_is_absolute() {
    let p = WindowsPaths { env: windows_env() }.temp_dir();
    assert!(is_absolute_path(&p, true), "temp_dir should be absolute, got {p:?}");
    assert_eq!(p, "C:\\Users\\alice\\AppData\\Local\\Temp");
    let fallback = WindowsPaths { env: HostEnv { temp: None, tmp: None, ..windows_env() } };
    assert_eq!(fallback.temp_dir(), "C:\\Windows\\Temp");
}

#[test]
fn cache_dir_resolves_when_env_is_set() {
    let paths = WindowsPaths { env: HostEnv { localappdata: None, ..windows_env() } };
    if paths.home_dir().is_some() {
        let p = paths.user_cache_dir().expect("cache dir");
        assert!(is_absolute_path(&p, true));
        assert_eq!(p, "C:\\Users\\alice\\AppData\\Local");
    }
}

#[test]
fn config_dir_falls_back_to_data_dir() {
    let paths = WindowsPaths { env: windows_env() };
    let cfg = paths.user_config_dir();
    let data = paths.user_data_dir();
    assert_eq!(cfg, data);
}

#[test]
fn trash_dir_is_none() {
    assert!(WindowsPaths { env: windows_env() }.trash_dir().is_none());
}

#[test]
fn windows_audit_dir_under_local_app_data() {
    let paths = WindowsPaths { env: windows_env() };
    assert_eq!(paths.audit_log_dir(), Some("C:\\Users\\alice\\AppData\\Local\\KosCleaner".to_string()));
}

#[test]
fn current_picks_the_layout_of_the_system() {
    let env = HostEnv { home: Some("/home/alice".to_string()), ..bare_env() };
    assert!(matches!(current(Os::Linux, env.clone()), HostPaths::Linux(_)));
    assert!(matches!(current(Os::Macos, env.clone()), HostPaths::Macos(_)));
    assert!(matches!(current(Os::Windows, env), HostPaths::Windows(_)));
}

#[test]
fn audit_log_file_sits_in_the_audit_dir() {
    let env = HostEnv { home: Some("/home/alice".to_string()), ..bare_env() };
    let paths = current(Os::Linux, env);
    assert_eq!(audit_log_file(&paths), Some("/home/alice/.local/share/koscleaner/audit.log".to_string()));
    let paths = current(Os::Linux, bare_env());
    assert_eq!(audit_log_file(&paths), None);
    let paths = current(Os::Windows, windows_env());
    assert_eq!(
        audit_log_file(&paths),
        Some("C:\\Users\\alice\\AppData\\Local\\KosCleaner\\audit.log".to_string())
    );
}
