//! The trash: everything the user already "deleted" through the desktop. The
//! safest clean-up there is: the user consented when moving the files there.
//!
//! Linux (XDG): `$XDG_DATA_HOME/Trash/{files,info}/`; macOS: `~/.Trash/`;
//! Windows keeps a per-volume, per-user Recycle Bin that is not handled here.
use vstd::prelude::*;
use crate::cleaners::{Cleaner, below, if_dir, lemma_if_dir_under, lemma_under_concat, push_if_dir, under};
use crate::pathname::{join, join_path, lemma_extends_refl, lemma_join_name_extends};
use vstd::string::*;
use crate::platform::{HostPaths, Os, PlatformPaths, os_is_windows};
use crate::snapshot::{FsSnapshot, strings_view};

verus! {

pub struct TrashCleaner;

impl Cleaner for TrashCleaner {
    open spec fn spec_id(&self) -> Seq<char> {
        "trash.user"@
    }

    open spec fn spec_category(&self) -> Seq<char> {
        "Trash"@
    }

    open spec fn spec_name(&self) -> Seq<char> {
        "Empty trash"@
    }

    open spec fn spec_description(&self) -> Seq<char> {
        "Permanently delete every item already moved to the trash."@
    }

    /// On Linux the real files are in `files/` and their metadata in `info/`;
    /// both may go, and the directories themselves stay. Elsewhere the trash
    /// directory itself is the root.
    open spec fn spec_roots(&self, paths: HostPaths, fs: FsSnapshot) -> Seq<Seq<char>> {
        match paths.spec_trash_dir() {
            None => seq![],
            Some(t) => if !fs.spec_is_dir(t) {
                seq![]
            } else if fs.spec_os() is Linux {
                if_dir(join(t, "files"@, fs.win()), fs) + if_dir(join(t, "info"@, fs.win()), fs)
            } else {
                seq![t]
            },
        }
    }

    fn id(&self) -> (r: &'static str) {
        "trash.user"
    }

    fn category(&self) -> (r: &'static str) {
        "Trash"
    }

    fn name(&self) -> (r: &'static str) {
        "Empty trash"
    }

    fn description(&self) -> (r: &'static str) {
        "Permanently delete every item already moved to the trash."
    }

    fn roots(&self, paths: &HostPaths, fs: &FsSnapshot) -> (r: Vec<String>) {
        let trash = match paths.trash_dir() {
            Some(t) => t,
            None => return Vec::new(),
        };
        if !fs.is_dir(trash.as_str()) {
            return Vec::new();
        }
        let win = os_is_windows(fs.os());
        match fs.os() {
            Os::Linux => {
                let mut out: Vec<String> = Vec::new();
                push_if_dir(&mut out, join_path(trash.as_str(), "files", win), fs);
                push_if_dir(&mut out, join_path(trash.as_str(), "info", win), fs);
                assert(strings_view(out@) =~= if_dir(join(trash@, "files"@, fs.win()), *fs)
                    + if_dir(join(trash@, "info"@, fs.win()), *fs));
                out
            },
            _ => {
                let ghost t = trash@;
                let mut out: Vec<String> = Vec::new();
                out.push(trash);
                assert(strings_view(out@) =~= seq![t]);
                out
            },
        }
    }
}

/// The trash cleaner stays inside the trash directory, and has nothing to
/// clean where there is none (on Windows, always).
pub proof fn lemma_trash_roots_under_trash(paths: HostPaths, fs: FsSnapshot)
    ensures
        under(TrashCleaner.spec_roots(paths, fs), paths.spec_trash_dir(), fs.win()),
        paths.spec_trash_dir() is None ==> TrashCleaner.spec_roots(paths, fs) == Seq::<Seq<char>>::empty(),
        paths is Windows ==> TrashCleaner.spec_roots(paths, fs) == Seq::<Seq<char>>::empty(),
{
    let win = fs.win();
    match paths.spec_trash_dir() {
        None => {},
        Some(t) => {
            if fs.spec_is_dir(t) {
                if fs.spec_os() is Linux {
                    reveal_strlit("files");
                    reveal_strlit("info");
                    lemma_join_name_extends(t, "files"@, win);
                    lemma_join_name_extends(t, "info"@, win);
                    lemma_if_dir_under(join(t, "files"@, win), fs, Some(t), win);
                    lemma_if_dir_under(join(t, "info"@, win), fs, Some(t), win);
                    lemma_under_concat(
                        if_dir(join(t, "files"@, win), fs),
                        if_dir(join(t, "info"@, win), fs),
                        Some(t),
                        win,
                    );
                } else {
                    lemma_extends_refl(t, win);
                    assert(below(Some(t), seq![t][0], win));
                }
            }
        },
    }
}

/// With a trash directory `t` that is a directory, the trash cleaner takes on
/// Linux its `files` and `info` sub-directories, each exactly when it is a
/// directory and in that order, and elsewhere `t` itself; with none, nothing.
pub proof fn lemma_trash_roots(paths: HostPaths, fs: FsSnapshot)
    ensures
        ({
            let roots = TrashCleaner.spec_roots(paths, fs);
            let win = fs.win();
            match paths.spec_trash_dir() {
                None => roots.len() == 0,
                Some(t) => if !fs.spec_is_dir(t) {
                    roots.len() == 0
                } else if fs.spec_os() is Linux {
                    let files = join(t, "files"@, win);
                    let info = join(t, "info"@, win);
                    &&& roots.len() == (if fs.spec_is_dir(files) {
                        1int
                    } else {
                        0int
                    }) + (if fs.spec_is_dir(info) {
                        1int
                    } else {
                        0int
                    })
                    &&& fs.spec_is_dir(files) ==> roots[0] == files
                    &&& fs.spec_is_dir(info) ==> roots[roots.len() - 1] == info
                } else {
                    roots == seq![t]
                },
            }
        }),
{
}

} // verus!
