//! The seal on every deletion: no path reaches the executor without passing here.
//!
//! `is_path_safe_to_delete` refuses the paths that are catastrophic to delete:
//! empty or relative paths, paths that climb with `..`, the user's home
//! directory itself and the operating system's critical directories, both as
//! written and after symbolic links are resolved. `ensure_within_root` keeps a
//! cleaner inside the directory it declared.
use vstd::prelude::*;
use vstd::string::*;
use crate::pathname::{
    Comp, Component, chars_of, components, components_of, comps_equal, comps_starts_with,
    comps_view, drop_cur, extends, has_parent_comp, is_absolute, is_absolute_path, join, join_path,
    path_eq, same_path, truncate_path, truncated, without_cur,
};
use crate::platform::{HostEnv, Os, os_is_windows};
use crate::snapshot::{FsSnapshot, strings_view};

verus! {

/// Why a path was refused.
#[derive(Debug, PartialEq, Eq)]
pub enum SafetyError {
    Empty,
    NotAbsolute(String),
    ParentTraversal(String),
    CriticalSystemPath(String),
    HomeDirectory(String),
    OutsideRoot { path: String, root: String },
    CanonicalizeFailed { path: String, source: String },
}

pub enum SafetyErrorView {
    Empty,
    NotAbsolute(Seq<char>),
    ParentTraversal(Seq<char>),
    CriticalSystemPath(Seq<char>),
    HomeDirectory(Seq<char>),
    OutsideRoot { path: Seq<char>, root: Seq<char> },
    CanonicalizeFailed { path: Seq<char>, source: Seq<char> },
}

impl View for SafetyError {
    type V = SafetyErrorView;

    open spec fn view(&self) -> SafetyErrorView {
        match self {
            SafetyError::Empty => SafetyErrorView::Empty,
            SafetyError::NotAbsolute(p) => SafetyErrorView::NotAbsolute(p@),
            SafetyError::ParentTraversal(p) => SafetyErrorView::ParentTraversal(p@),
            SafetyError::CriticalSystemPath(p) => SafetyErrorView::CriticalSystemPath(p@),
            SafetyError::HomeDirectory(p) => SafetyErrorView::HomeDirectory(p@),
            SafetyError::OutsideRoot { path, root } => SafetyErrorView::OutsideRoot {
                path: path@,
                root: root@,
            },
            SafetyError::CanonicalizeFailed { path, source } => SafetyErrorView::CanonicalizeFailed {
                path: path@,
                source: source@,
            },
        }
    }
}

pub open spec fn check_view(r: Result<(), SafetyError>) -> Result<(), SafetyErrorView> {
    match r {
        Ok(()) => Ok(()),
        Err(e) => Err(e@),
    }
}

pub open spec fn path_result_view(r: Result<String, SafetyError>) -> Result<Seq<char>, SafetyErrorView> {
    match r {
        Ok(p) => Ok(p@),
        Err(e) => Err(e@),
    }
}

/// The message that tells the user why a path was refused.
pub open spec fn error_message(e: SafetyErrorView) -> Seq<char> {
    match e {
        SafetyErrorView::Empty => "path is empty"@,
        SafetyErrorView::NotAbsolute(p) => "path is not absolute: "@ + p,
        SafetyErrorView::ParentTraversal(p) => "path contains parent traversal (..): "@ + p,
        SafetyErrorView::CriticalSystemPath(p) => "path is a critical system directory: "@ + p,
        SafetyErrorView::HomeDirectory(p) => "path is the user home directory itself: "@ + p,
        SafetyErrorView::OutsideRoot { path, root } => "path "@ + path + " is outside expected root "@
            + root,
        SafetyErrorView::CanonicalizeFailed { path, source } => "failed to canonicalize "@ + path
            + ": "@ + source,
    }
}

fn cat(a: &str, b: &str) -> (r: String)
    ensures
        r@ == a@ + b@,
{
    a.to_owned().concat(b)
}

impl SafetyError {
    /// The error's text, as the user reads it.
    pub fn message(&self) -> (r: String)
        ensures
            r@ == error_message(self@),
    {
        match self {
            SafetyError::Empty => "path is empty".to_owned(),
            SafetyError::NotAbsolute(p) => cat("path is not absolute: ", p.as_str()),
            SafetyError::ParentTraversal(p) => cat(
                "path contains parent traversal (..): ",
                p.as_str(),
            ),
            SafetyError::CriticalSystemPath(p) => cat(
                "path is a critical system directory: ",
                p.as_str(),
            ),
            SafetyError::HomeDirectory(p) => cat(
                "path is the user home directory itself: ",
                p.as_str(),
            ),
            SafetyError::OutsideRoot { path, root } => {
                let a = cat("path ", path.as_str());
                let b = cat(a.as_str(), " is outside expected root ");
                cat(b.as_str(), root.as_str())
            },
            SafetyError::CanonicalizeFailed { path, source } => {
                let a = cat("failed to canonicalize ", path.as_str());
                let b = cat(a.as_str(), ": ");
                cat(b.as_str(), source.as_str())
            },
        }
    }
}

pub open spec fn linux_critical() -> Seq<Seq<char>> {
    seq![
        "/"@,
        "/bin"@,
        "/boot"@,
        "/dev"@,
        "/etc"@,
        "/home"@,
        "/lib"@,
        "/lib32"@,
        "/lib64"@,
        "/libx32"@,
        "/lost+found"@,
        "/media"@,
        "/mnt"@,
        "/opt"@,
        "/proc"@,
        "/root"@,
        "/run"@,
        "/sbin"@,
        "/srv"@,
        "/sys"@,
        "/tmp"@,
        "/usr"@,
        "/var"@,
    ]
}

pub open spec fn macos_critical() -> Seq<Seq<char>> {
    seq![
        "/"@,
        "/Applications"@,
        "/Library"@,
        "/Network"@,
        "/System"@,
        "/Users"@,
        "/Volumes"@,
        "/bin"@,
        "/cores"@,
        "/dev"@,
        "/etc"@,
        "/home"@,
        "/opt"@,
        "/private"@,
        "/sbin"@,
        "/tmp"@,
        "/usr"@,
        "/var"@,
    ]
}

pub open spec fn windows_drive_roots() -> Seq<Seq<char>> {
    seq![
        "A:\\"@,
        "B:\\"@,
        "C:\\"@,
        "D:\\"@,
        "E:\\"@,
        "F:\\"@,
        "G:\\"@,
        "H:\\"@,
        "I:\\"@,
        "J:\\"@,
        "K:\\"@,
        "L:\\"@,
        "M:\\"@,
        "N:\\"@,
        "O:\\"@,
        "P:\\"@,
        "Q:\\"@,
        "R:\\"@,
        "S:\\"@,
        "T:\\"@,
        "U:\\"@,
        "V:\\"@,
        "W:\\"@,
        "X:\\"@,
        "Y:\\"@,
        "Z:\\"@,
    ]
}

pub open spec fn or_default(v: Option<String>, d: Seq<char>) -> Seq<char> {
    match v {
        Some(s) => s@,
        None => d,
    }
}

pub open spec fn windows_critical(env: HostEnv) -> Seq<Seq<char>> {
    windows_drive_roots() + seq![
        or_default(env.system_root, "C:\\Windows"@),
        or_default(env.program_files, "C:\\Program Files"@),
        or_default(env.program_files_x86, "C:\\Program Files (x86)"@),
        or_default(env.program_data, "C:\\ProgramData"@),
        "C:\\Users"@,
    ]
}

/// The directories that must never be deleted on each operating system.
pub open spec fn critical_list(os: Os, env: HostEnv) -> Seq<Seq<char>> {
    match os {
        Os::Linux => linux_critical(),
        Os::Macos => macos_critical(),
        Os::Windows => windows_critical(env),
        Os::Other => seq!["/"@],
    }
}

fn value_or(v: &Option<String>, d: &str) -> (r: String)
    ensures
        r@ == or_default(*v, d@),
{
    match v {
        Some(s) => s.clone(),
        None => d.to_owned(),
    }
}

pub fn critical_paths(os: Os, env: &HostEnv) -> (r: Vec<String>)
    ensures
        strings_view(r@) == critical_list(os, *env),
{
    match os {
        Os::Linux => {
    let mut v: Vec<String> = Vec::new();
    v.push("/".to_owned());
    v.push("/bin".to_owned());
    v.push("/boot".to_owned());
    v.push("/dev".to_owned());
    v.push("/etc".to_owned());
    v.push("/home".to_owned());
    v.push("/lib".to_owned());
    v.push("/lib32".to_owned());
    v.push("/lib64".to_owned());
    v.push("/libx32".to_owned());
    v.push("/lost+found".to_owned());
    v.push("/media".to_owned());
    v.push("/mnt".to_owned());
    v.push("/opt".to_owned());
    v.push("/proc".to_owned());
    v.push("/root".to_owned());
    v.push("/run".to_owned());
    v.push("/sbin".to_owned());
    v.push("/srv".to_owned());
    v.push("/sys".to_owned());
    v.push("/tmp".to_owned());
    v.push("/usr".to_owned());
    v.push("/var".to_owned());
            assert(strings_view(v@) =~= linux_critical());
            v
        },
        Os::Macos => {
    let mut v: Vec<String> = Vec::new();
    v.push("/".to_owned());
    v.push("/Applications".to_owned());
    v.push("/Library".to_owned());
    v.push("/Network".to_owned());
    v.push("/System".to_owned());
    v.push("/Users".to_owned());
    v.push("/Volumes".to_owned());
    v.push("/bin".to_owned());
    v.push("/cores".to_owned());
    v.push("/dev".to_owned());
    v.push("/etc".to_owned());
    v.push("/home".to_owned());
    v.push("/opt".to_owned());
    v.push("/private".to_owned());
    v.push("/sbin".to_owned());
    v.push("/tmp".to_owned());
    v.push("/usr".to_owned());
    v.push("/var".to_owned());
            assert(strings_view(v@) =~= macos_critical());
            v
        },
        Os::Windows => {
    let mut v: Vec<String> = Vec::new();
    v.push("A:\\".to_owned());
    v.push("B:\\".to_owned());
    v.push("C:\\".to_owned());
    v.push("D:\\".to_owned());
    v.push("E:\\".to_owned());
    v.push("F:\\".to_owned());
    v.push("G:\\".to_owned());
    v.push("H:\\".to_owned());
    v.push("I:\\".to_owned());
    v.push("J:\\".to_owned());
    v.push("K:\\".to_owned());
    v.push("L:\\".to_owned());
    v.push("M:\\".to_owned());
    v.push("N:\\".to_owned());
    v.push("O:\\".to_owned());
    v.push("P:\\".to_owned());
    v.push("Q:\\".to_owned());
    v.push("R:\\".to_owned());
    v.push("S:\\".to_owned());
    v.push("T:\\".to_owned());
    v.push("U:\\".to_owned());
    v.push("V:\\".to_owned());
    v.push("W:\\".to_owned());
    v.push("X:\\".to_owned());
    v.push("Y:\\".to_owned());
    v.push("Z:\\".to_owned());
            v.push(value_or(&env.system_root, "C:\\Windows"));
            v.push(value_or(&env.program_files, "C:\\Program Files"));
            v.push(value_or(&env.program_files_x86, "C:\\Program Files (x86)"));
            v.push(value_or(&env.program_data, "C:\\ProgramData"));
            v.push("C:\\Users".to_owned());
            assert(strings_view(v@) =~= windows_critical(*env));
            v
        },
        Os::Other => {
            let mut v: Vec<String> = Vec::new();
            v.push("/".to_owned());
            assert(strings_view(v@) =~= seq!["/"@]);
            v
        },
    }
}


/// On Windows, `canonicalize` answers with a verbatim `\\?\` prefix, which is dropped.
pub open spec fn strip_unc(p: Seq<char>, win: bool) -> Seq<char> {
    if win && p.len() >= 4 && p.take(4) == seq!['\\', '\\', '?', '\\'] {
        p.skip(4)
    } else {
        p
    }
}

pub fn strip_unc_prefix(p: &str, win: bool) -> (r: String)
    ensures
        r@ == strip_unc(p@, win),
{
    if !win {
        return p.to_owned();
    }
    let cs = chars_of(p);
    let n = cs.len();
    if n >= 4 && cs[0] == '\\' && cs[1] == '\\' && cs[2] == '?' && cs[3] == '\\' {
        assert(p@.take(4) =~= seq!['\\', '\\', '?', '\\']);
        p.substring_char(4, n).to_owned()
    } else {
        assert(!(n >= 4 && p@.take(4) == seq!['\\', '\\', '?', '\\'])) by {
            if n >= 4 && p@.take(4) == seq!['\\', '\\', '?', '\\'] {
                assert(p@.take(4)[0] == cs@[0]);
                assert(p@.take(4)[1] == cs@[1]);
                assert(p@.take(4)[2] == cs@[2]);
                assert(p@.take(4)[3] == cs@[3]);
            }
        }
        p.to_owned()
    }
}

/// How far the trailing normal components are popped while no such path exists.
pub open spec fn descend(c: Seq<Comp>, k: nat, fs: FsSnapshot) -> nat
    decreases k,
{
    if k > 0 && !fs.exists_key(c.take(k as int)) && c[k - 1] is Normal {
        descend(c, (k - 1) as nat, fs)
    } else {
        k
    }
}

/// `b` with the names `c[from..to]` pushed onto it, in order.
pub open spec fn push_names(b: Seq<char>, c: Seq<Comp>, from: int, to: int, win: bool) -> Seq<char>
    decreases to - from,
{
    if to <= from {
        b
    } else {
        join(push_names(b, c, from, to - 1, win), c[to - 1]->Normal_0, win)
    }
}

/// A path with its symbolic links resolved: the canonical form when the path
/// exists; otherwise the canonical form of its longest existing ancestor with
/// the missing names pushed back on; when no ancestor exists, the missing
/// names alone.
pub open spec fn spec_resolve(p: Seq<char>, fs: FsSnapshot) -> Result<Seq<char>, SafetyErrorView> {
    let win = fs.win();
    if fs.spec_exists(p) {
        match fs.spec_canonical(p) {
            Ok(c) => Ok(strip_unc(c, win)),
            Err(e) => Err(SafetyErrorView::CanonicalizeFailed { path: p, source: e.message }),
        }
    } else {
        let c = components(p, win);
        let k = descend(c, c.len(), fs);
        if k == 0 {
            Ok(push_names(seq![], c, 0, c.len() as int, win))
        } else {
            match fs.canonical_key(c.take(k as int)) {
                Ok(b) => Ok(push_names(strip_unc(b, win), c, k as int, c.len() as int, win)),
                Err(e) => Err(
                    SafetyErrorView::CanonicalizeFailed {
                        path: truncated(p, k as int, win),
                        source: e.message,
                    },
                ),
            }
        }
    }
}

proof fn lemma_descend(c: Seq<Comp>, k: nat, fs: FsSnapshot)
    requires
        k <= c.len(),
    ensures
        descend(c, k, fs) <= k,
        forall|j: int| descend(c, k, fs) <= j < k ==> #[trigger] c[j] is Normal,
    decreases k,
{
    if k > 0 && !fs.exists_key(c.take(k as int)) && c[k - 1] is Normal {
        lemma_descend(c, (k - 1) as nat, fs);
    }
}

fn push_normal_names(base: String, c: &Vec<Component>, from: usize, win: bool) -> (r: String)
    requires
        from <= c.len(),
        forall|j: int| from <= j < c.len() ==> #[trigger] comps_view(c@)[j] is Normal,
    ensures
        r@ == push_names(base@, comps_view(c@), from as int, c.len() as int, win),
{
    let ghost cv = comps_view(c@);
    let mut out = base;
    let ghost b0 = out@;
    let mut j = from;
    while j < c.len()
        invariant
            cv == comps_view(c@),
            from <= j <= c.len(),
            forall|i: int| from <= i < c.len() ==> #[trigger] cv[i] is Normal,
            out@ == push_names(b0, cv, from as int, j as int, win),
        decreases c.len() - j,
    {
        assert(cv[j as int] is Normal);
        match &c[j] {
            Component::Normal(n) => {
                out = join_path(out.as_str(), n.as_str(), win);
            },
            _ => {},
        }
        j = j + 1;
    }
    out
}

/// Resolves symbolic links as far as the path exists.
pub fn resolve_or_normalize(path: &str, fs: &FsSnapshot) -> (r: Result<String, SafetyError>)
    ensures
        path_result_view(r) == spec_resolve(path@, *fs),
{
    let win = os_is_windows(fs.os());
    if fs.path_exists(path) {
        return match fs.canonicalize(path) {
            Ok(c) => Ok(strip_unc_prefix(c.as_str(), win)),
            Err(e) => Err(SafetyError::CanonicalizeFailed { path: path.to_owned(), source: e.message }),
        };
    }
    let c = components_of(path, win);
    let ghost cv = comps_view(c@);
    let mut k = c.len();
    assert(cv.take(k as int) =~= cv);
    let mut going = true;
    while going
        invariant
            cv == comps_view(c@),
            cv == components(path@, win),
            win == fs.win(),
            k <= c.len(),
            descend(cv, k as nat, *fs) == descend(cv, c.len() as nat, *fs),
            !going ==> descend(cv, k as nat, *fs) == k,
            forall|j: int| k <= j < c.len() ==> #[trigger] cv[j] is Normal,
        decreases k + (if going { 1int } else { 0int }),
    {
        if k > 0 && !fs.exists_prefix(&c, k) && matches!(c[k - 1], Component::Normal(_)) {
            assert(cv[k - 1] is Normal);
            k = k - 1;
        } else {
            if k > 0 {
                assert(cv[k - 1] == c@[k - 1]@);
            }
            going = false;
        }
    }
    if k == 0 {
        Ok(push_normal_names(String::new(), &c, 0, win))
    } else {
        match fs.canonicalize_prefix(&c, k) {
            Ok(b) => Ok(push_normal_names(strip_unc_prefix(b.as_str(), win), &c, k, win)),
            Err(e) => Err(
                SafetyError::CanonicalizeFailed {
                    path: truncate_path(path, &c, k, win),
                    source: e.message,
                },
            ),
        }
    }
}

/// The resolved path, or the path itself when resolution fails.
pub open spec fn resolved_or_self(p: Seq<char>, fs: FsSnapshot) -> Seq<char> {
    match spec_resolve(p, fs) {
        Ok(r) => r,
        Err(_) => p,
    }
}

fn resolve_or_self(p: &str, fs: &FsSnapshot) -> (r: String)
    ensures
        r@ == resolved_or_self(p@, *fs),
{
    match resolve_or_normalize(p, fs) {
        Ok(r) => r,
        Err(_) => p.to_owned(),
    }
}

/// `r` (a resolved path) or `lex` (a path without `.`) names the directory `d`.
pub open spec fn names_dir(d: Seq<char>, r: Seq<char>, lex: Seq<Comp>, fs: FsSnapshot) -> bool {
    same_path(r, resolved_or_self(d, fs), fs.win()) || lex == components(d, fs.win())
}

pub open spec fn home_hit(env: HostEnv, r: Seq<char>, lex: Seq<Comp>, fs: FsSnapshot) -> bool {
    match env.home {
        Some(h) => names_dir(h@, r, lex, fs),
        None => false,
    }
}

pub open spec fn critical_hit(env: HostEnv, r: Seq<char>, lex: Seq<Comp>, fs: FsSnapshot) -> bool {
    let list = critical_list(fs.spec_os(), env);
    exists|i: int| 0 <= i < list.len() && names_dir(#[trigger] list[i], r, lex, fs)
}

/// Whether deleting `p` is reasonably safe. It does not say that the path
/// exists or that the caller may delete it: it only refuses the paths that
/// are notoriously catastrophic to delete.
pub open spec fn spec_path_safety(p: Seq<char>, env: HostEnv, fs: FsSnapshot) -> Result<
    (),
    SafetyErrorView,
> {
    let win = fs.win();
    if p.len() == 0 {
        Err(SafetyErrorView::Empty)
    } else if !is_absolute(p, win) {
        Err(SafetyErrorView::NotAbsolute(p))
    } else if components(p, win).contains(Comp::Parent) {
        Err(SafetyErrorView::ParentTraversal(p))
    } else {
        match spec_resolve(p, fs) {
            Err(e) => Err(e),
            Ok(r) => {
                let lex = without_cur(components(p, win));
                if home_hit(env, r, lex, fs) {
                    Err(SafetyErrorView::HomeDirectory(r))
                } else if critical_hit(env, r, lex, fs) {
                    Err(SafetyErrorView::CriticalSystemPath(r))
                } else {
                    Ok(())
                }
            },
        }
    }
}

fn names_dir_exec(d: &str, r: &str, lex: &Vec<Component>, fs: &FsSnapshot) -> (b: bool)
    ensures
        b == names_dir(d@, r@, comps_view(lex@), *fs),
{
    let win = os_is_windows(fs.os());
    let dr = resolve_or_self(d, fs);
    if path_eq(r, dr.as_str(), win) {
        return true;
    }
    let dc = components_of(d, win);
    comps_equal(lex, &dc)
}

/// Refuses the paths that must never be deleted.
pub fn is_path_safe_to_delete(path: &str, env: &HostEnv, fs: &FsSnapshot) -> (r: Result<
    (),
    SafetyError,
>)
    ensures
        check_view(r) == spec_path_safety(path@, *env, *fs),
{
    let win = os_is_windows(fs.os());
    if path.is_empty() {
        return Err(SafetyError::Empty);
    }
    if !is_absolute_path(path, win) {
        return Err(SafetyError::NotAbsolute(path.to_owned()));
    }
    let comps = components_of(path, win);
    if has_parent_comp(&comps) {
        return Err(SafetyError::ParentTraversal(path.to_owned()));
    }
    let lexical = drop_cur(&comps);
    let resolved = match resolve_or_normalize(path, fs) {
        Ok(r) => r,
        Err(e) => return Err(e),
    };
    match &env.home {
        Some(home) => {
            if names_dir_exec(home.as_str(), resolved.as_str(), &lexical, fs) {
                return Err(SafetyError::HomeDirectory(resolved));
            }
        },
        None => {},
    }
    assert(!home_hit(*env, resolved@, comps_view(lexical@), *fs));
    let list = critical_paths(fs.os(), env);
    let ghost lv = strings_view(list@);
    let mut i: usize = 0;
    while i < list.len()
        invariant
            lv == strings_view(list@),
            lv == critical_list(fs.spec_os(), *env),
            i <= list.len(),
            path@.len() > 0,
            is_absolute(path@, fs.win()),
            !components(path@, fs.win()).contains(Comp::Parent),
            spec_resolve(path@, *fs) == Ok::<Seq<char>, SafetyErrorView>(resolved@),
            comps_view(lexical@) == without_cur(components(path@, fs.win())),
            !home_hit(*env, resolved@, comps_view(lexical@), *fs),
            forall|j: int|
                0 <= j < i ==> !names_dir(#[trigger] lv[j], resolved@, comps_view(lexical@), *fs),
        decreases list.len() - i,
    {
        if names_dir_exec(list[i].as_str(), resolved.as_str(), &lexical, fs) {
            assert(names_dir(lv[i as int], resolved@, comps_view(lexical@), *fs));
            assert(critical_hit(*env, resolved@, comps_view(lexical@), *fs));
            return Err(SafetyError::CriticalSystemPath(resolved));
        }
        i = i + 1;
    }
    assert(!critical_hit(*env, resolved@, comps_view(lexical@), *fs));
    Ok(())
}

pub open spec fn spec_within_root(p: Seq<char>, root: Seq<char>, fs: FsSnapshot) -> Result<
    (),
    SafetyErrorView,
> {
    match spec_resolve(p, fs) {
        Err(e) => Err(e),
        Ok(rp) => match spec_resolve(root, fs) {
            Err(e) => Err(e),
            Ok(rr) => if components(rr, fs.win()).is_prefix_of(components(rp, fs.win())) {
                Ok(())
            } else {
                Err(SafetyErrorView::OutsideRoot { path: rp, root: rr })
            },
        },
    }
}

/// Checks that `path`, once its symbolic links are resolved, lies inside
/// `root`, so that a link inside a cleaner's directory cannot lead it out.
pub fn ensure_within_root(path: &str, root: &str, fs: &FsSnapshot) -> (r: Result<(), SafetyError>)
    ensures
        check_view(r) == spec_within_root(path@, root@, *fs),
{
    let win = os_is_windows(fs.os());
    let resolved_path = match resolve_or_normalize(path, fs) {
        Ok(r) => r,
        Err(e) => return Err(e),
    };
    let resolved_root = match resolve_or_normalize(root, fs) {
        Ok(r) => r,
        Err(e) => return Err(e),
    };
    let pc = components_of(resolved_path.as_str(), win);
    let rc = components_of(resolved_root.as_str(), win);
    if comps_starts_with(&pc, &rc) {
        Ok(())
    } else {
        Err(SafetyError::OutsideRoot { path: resolved_path, root: resolved_root })
    }
}

/// A path that passes the safety check is not empty, is absolute and has no
/// `..` component.
pub proof fn lemma_safe_path_is_plain_absolute(p: Seq<char>, env: HostEnv, fs: FsSnapshot)
    requires
        spec_path_safety(p, env, fs) is Ok,
    ensures
        p.len() > 0,
        is_absolute(p, fs.win()),
        !components(p, fs.win()).contains(Comp::Parent),
{
}

/// Every entry of the critical list of the running system is refused,
/// whatever the file system holds.
pub proof fn lemma_critical_paths_refused(env: HostEnv, fs: FsSnapshot, i: int)
    requires
        0 <= i < critical_list(fs.spec_os(), env).len(),
    ensures
        spec_path_safety(critical_list(fs.spec_os(), env)[i], env, fs) is Err,
{
    let list = critical_list(fs.spec_os(), env);
    let c = list[i];
    match spec_resolve(c, fs) {
        Ok(r) => {
            assert(resolved_or_self(c, fs) == r);
            assert(names_dir(list[i], r, without_cur(components(c, fs.win())), fs));
        },
        Err(_) => {},
    }
}

/// The home directory itself is refused, whatever the file system holds.
pub proof fn lemma_home_refused(env: HostEnv, fs: FsSnapshot)
    requires
        env.home is Some,
    ensures
        spec_path_safety(env.home->Some_0@, env, fs) is Err,
{
    let h = env.home->Some_0@;
    match spec_resolve(h, fs) {
        Ok(r) => {
            assert(resolved_or_self(h, fs) == r);
            assert(names_dir(h, r, without_cur(components(h, fs.win())), fs));
        },
        Err(_) => {},
    }
}

/// Any path that resolves to the same place as the home directory or as an
/// entry of the critical list is refused too: a link or a `.` cannot smuggle
/// such a directory past the check.
pub proof fn lemma_aliases_refused(p: Seq<char>, q: Seq<char>, env: HostEnv, fs: FsSnapshot)
    requires
        spec_resolve(p, fs) is Ok,
        spec_resolve(q, fs) is Ok,
        same_path(spec_resolve(p, fs)->Ok_0, spec_resolve(q, fs)->Ok_0, fs.win()),
        (env.home is Some && env.home->Some_0@ == q) || critical_list(fs.spec_os(), env).contains(q),
    ensures
        spec_path_safety(p, env, fs) is Err,
{
    let win = fs.win();
    if p.len() > 0 && is_absolute(p, win) && !components(p, win).contains(Comp::Parent) {
        let r = spec_resolve(p, fs)->Ok_0;
        let lex = without_cur(components(p, win));
        assert(resolved_or_self(q, fs) == spec_resolve(q, fs)->Ok_0);
        assert(names_dir(q, r, lex, fs));
        if !(env.home is Some && env.home->Some_0@ == q) {
            let list = critical_list(fs.spec_os(), env);
            let i = choose|i: int| 0 <= i < list.len() && list[i] == q;
            assert(names_dir(list[i], r, lex, fs));
        }
    }
}

/// A root lies within itself whenever it resolves.
pub proof fn lemma_root_within_itself(root: Seq<char>, fs: FsSnapshot)
    requires
        spec_resolve(root, fs) is Ok,
    ensures
        spec_within_root(root, root, fs) is Ok,
{
    let c = components(spec_resolve(root, fs)->Ok_0, fs.win());
    assert(c.subrange(0, c.len() as int) =~= c);
}

/// A path lies within a root exactly when both resolve and the resolved root
/// is the resolved path or one of its ancestors. Otherwise the path is
/// refused: with the failure to resolve the path, else with the failure to
/// resolve the root, else as lying outside the root, naming both resolved
/// paths.
pub proof fn lemma_within_root_is_ancestry(p: Seq<char>, root: Seq<char>, fs: FsSnapshot)
    ensures
        spec_within_root(p, root, fs) is Ok <==> (spec_resolve(p, fs) is Ok && spec_resolve(root, fs) is Ok
            && extends(spec_resolve(root, fs)->Ok_0, spec_resolve(p, fs)->Ok_0, fs.win())),
        spec_resolve(p, fs) is Err ==> spec_within_root(p, root, fs) == Err::<(), SafetyErrorView>(
            spec_resolve(p, fs)->Err_0,
        ),
        (spec_resolve(p, fs) is Ok && spec_resolve(root, fs) is Err) ==> spec_within_root(p, root, fs)
            == Err::<(), SafetyErrorView>(spec_resolve(root, fs)->Err_0),
        (spec_resolve(p, fs) is Ok && spec_resolve(root, fs) is Ok && !extends(
            spec_resolve(root, fs)->Ok_0,
            spec_resolve(p, fs)->Ok_0,
            fs.win(),
        )) ==> spec_within_root(p, root, fs) == Err::<(), SafetyErrorView>(
            SafetyErrorView::OutsideRoot {
                path: spec_resolve(p, fs)->Ok_0,
                root: spec_resolve(root, fs)->Ok_0,
            },
        ),
{
}

/// `d` is refused; and when it has the shape of a path to check (non-empty,
/// absolute, without `..`), resolves, and is not the home directory, it is
/// refused as a critical system path, under its resolved name.
pub open spec fn refused_as_critical(d: Seq<char>, env: HostEnv, fs: FsSnapshot) -> bool {
    &&& spec_path_safety(d, env, fs) is Err
    &&& (d.len() > 0 && is_absolute(d, fs.win()) && !components(d, fs.win()).contains(Comp::Parent)
        && spec_resolve(d, fs) is Ok && !home_hit(
        env,
        spec_resolve(d, fs)->Ok_0,
        without_cur(components(d, fs.win())),
        fs,
    )) ==> spec_path_safety(d, env, fs) == Err::<(), SafetyErrorView>(
        SafetyErrorView::CriticalSystemPath(spec_resolve(d, fs)->Ok_0),
    )
}

proof fn lemma_listed_is_refused(d: Seq<char>, env: HostEnv, fs: FsSnapshot)
    requires
        critical_list(fs.spec_os(), env).contains(d),
    ensures
        refused_as_critical(d, env, fs),
{
    let list = critical_list(fs.spec_os(), env);
    let i = choose|i: int| 0 <= i < list.len() && list[i] == d;
    match spec_resolve(d, fs) {
        Ok(r) => {
            assert(resolved_or_self(d, fs) == r);
            assert(names_dir(list[i], r, without_cur(components(d, fs.win())), fs));
        },
        Err(_) => {},
    }
}

/// On Linux every one of these directories is refused: `/`, `/bin`, `/boot`,
/// `/dev`, `/etc`, `/home`, `/lib`, `/lib32`, `/lib64`, `/libx32`,
/// `/lost+found`, `/media`, `/mnt`, `/opt`, `/proc`, `/root`, `/run`, `/sbin`,
/// `/srv`, `/sys`, `/tmp`, `/usr`, `/var`.
pub proof fn lemma_linux_system_dirs_refused(env: HostEnv, fs: FsSnapshot)
    requires
        fs.spec_os() is Linux,
    ensures
        ({
            let list = seq!["/"@, "/bin"@, "/boot"@, "/dev"@, "/etc"@, "/home"@, "/lib"@, "/lib32"@, "/lib64"@, "/libx32"@, "/lost+found"@, "/media"@, "/mnt"@, "/opt"@, "/proc"@, "/root"@, "/run"@, "/sbin"@, "/srv"@, "/sys"@, "/tmp"@, "/usr"@, "/var"@];
            forall|i: int| 0 <= i < list.len() ==> refused_as_critical(#[trigger] list[i], env, fs)
        }),
{
    let list = seq!["/"@, "/bin"@, "/boot"@, "/dev"@, "/etc"@, "/home"@, "/lib"@, "/lib32"@, "/lib64"@, "/libx32"@, "/lost+found"@, "/media"@, "/mnt"@, "/opt"@, "/proc"@, "/root"@, "/run"@, "/sbin"@, "/srv"@, "/sys"@, "/tmp"@, "/usr"@, "/var"@];
    let crit = critical_list(fs.spec_os(), env);
    assert forall|i: int| 0 <= i < list.len() implies refused_as_critical(#[trigger] list[i], env, fs) by {
        assert(crit[i] == list[i]);
        lemma_listed_is_refused(list[i], env, fs);
    }
}

/// On macOS every one of these directories is refused: `/`, `/Applications`,
/// `/Library`, `/Network`, `/System`, `/Users`, `/Volumes`, `/bin`, `/cores`,
/// `/dev`, `/etc`, `/home`, `/opt`, `/private`, `/sbin`, `/tmp`, `/usr`, `/var`.
pub proof fn lemma_macos_system_dirs_refused(env: HostEnv, fs: FsSnapshot)
    requires
        fs.spec_os() is Macos,
    ensures
        ({
            let list = seq!["/"@, "/Applications"@, "/Library"@, "/Network"@, "/System"@, "/Users"@, "/Volumes"@, "/bin"@, "/cores"@, "/dev"@, "/etc"@, "/home"@, "/opt"@, "/private"@, "/sbin"@, "/tmp"@, "/usr"@, "/var"@];
            forall|i: int| 0 <= i < list.len() ==> refused_as_critical(#[trigger] list[i], env, fs)
        }),
{
    let list = seq!["/"@, "/Applications"@, "/Library"@, "/Network"@, "/System"@, "/Users"@, "/Volumes"@, "/bin"@, "/cores"@, "/dev"@, "/etc"@, "/home"@, "/opt"@, "/private"@, "/sbin"@, "/tmp"@, "/usr"@, "/var"@];
    let crit = critical_list(fs.spec_os(), env);
    assert forall|i: int| 0 <= i < list.len() implies refused_as_critical(#[trigger] list[i], env, fs) by {
        assert(crit[i] == list[i]);
        lemma_listed_is_refused(list[i], env, fs);
    }
}

/// On Windows every drive root from `A:\` to `Z:\`, and `C:\Users`, is
/// refused, and so are the system directories `%SystemRoot%`,
/// `%ProgramFiles%`, `%ProgramFiles(x86)%` and `%ProgramData%`, or
/// `C:\Windows`, `C:\Program Files`, `C:\Program Files (x86)` and
/// `C:\ProgramData` where the variable is not set.
pub proof fn lemma_windows_system_dirs_refused(env: HostEnv, fs: FsSnapshot)
    requires
        fs.spec_os() is Windows,
    ensures
        ({
            let list = seq!["A:\\"@, "B:\\"@, "C:\\"@, "D:\\"@, "E:\\"@, "F:\\"@, "G:\\"@, "H:\\"@, "I:\\"@, "J:\\"@, "K:\\"@, "L:\\"@, "M:\\"@, "N:\\"@, "O:\\"@, "P:\\"@, "Q:\\"@, "R:\\"@, "S:\\"@, "T:\\"@, "U:\\"@, "V:\\"@, "W:\\"@, "X:\\"@, "Y:\\"@, "Z:\\"@, "C:\\Users"@];
            forall|i: int| 0 <= i < list.len() ==> refused_as_critical(#[trigger] list[i], env, fs)
        }),
        refused_as_critical(
            match env.system_root {
                Some(v) => v@,
                None => "C:\\Windows"@,
            },
            env,
            fs,
        ),
        refused_as_critical(
            match env.program_files {
                Some(v) => v@,
                None => "C:\\Program Files"@,
            },
            env,
            fs,
        ),
        refused_as_critical(
            match env.program_files_x86 {
                Some(v) => v@,
                None => "C:\\Program Files (x86)"@,
            },
            env,
            fs,
        ),
        refused_as_critical(
            match env.program_data {
                Some(v) => v@,
                None => "C:\\ProgramData"@,
            },
            env,
            fs,
        ),
{
    let crit = critical_list(fs.spec_os(), env);
    let list = seq!["A:\\"@, "B:\\"@, "C:\\"@, "D:\\"@, "E:\\"@, "F:\\"@, "G:\\"@, "H:\\"@, "I:\\"@, "J:\\"@, "K:\\"@, "L:\\"@, "M:\\"@, "N:\\"@, "O:\\"@, "P:\\"@, "Q:\\"@, "R:\\"@, "S:\\"@, "T:\\"@, "U:\\"@, "V:\\"@, "W:\\"@, "X:\\"@, "Y:\\"@, "Z:\\"@, "C:\\Users"@];
    assert forall|i: int| 0 <= i < list.len() implies refused_as_critical(#[trigger] list[i], env, fs) by {
        if i < 26 {
            assert(crit[i] == list[i]);
        } else {
            assert(crit[30] == list[i]);
        }
        lemma_listed_is_refused(list[i], env, fs);
    }
    lemma_listed_is_refused(crit[26], env, fs);
    lemma_listed_is_refused(crit[27], env, fs);
    lemma_listed_is_refused(crit[28], env, fs);
    lemma_listed_is_refused(crit[29], env, fs);
}

} // verus!
