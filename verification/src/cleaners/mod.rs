//! Cleaners declare what may be cleaned. They never touch the file system:
//! each one names its roots, which the scanner walks and the executor keeps
//! deletions inside.
use vstd::prelude::*;
use crate::pathname::{extends, is_plain_name, join, join_path, lemma_extends_refl, lemma_extends_trans, lemma_join_name_extends};
use crate::platform::{HostPaths, PlatformPaths};
use crate::snapshot::{FsSnapshot, strings_view};

pub mod browser;
pub mod chromium;
pub mod packages;
pub mod system;
pub mod trash;

verus! {

pub trait Cleaner {
    spec fn spec_id(&self) -> Seq<char>;

    spec fn spec_category(&self) -> Seq<char>;

    spec fn spec_name(&self) -> Seq<char>;

    spec fn spec_description(&self) -> Seq<char>;

    /// The directories this cleaner may clean, given where the system keeps
    /// things and what is on disk.
    spec fn spec_roots(&self, paths: HostPaths, fs: FsSnapshot) -> Seq<Seq<char>>;

    fn id(&self) -> (r: &'static str)
        ensures
            r@ == self.spec_id(),
    ;

    fn category(&self) -> (r: &'static str)
        ensures
            r@ == self.spec_category(),
    ;

    fn name(&self) -> (r: &'static str)
        ensures
            r@ == self.spec_name(),
    ;

    fn description(&self) -> (r: &'static str)
        ensures
            r@ == self.spec_description(),
    ;

    fn roots(&self, paths: &HostPaths, fs: &FsSnapshot) -> (r: Vec<String>)
        ensures
            strings_view(r@) == self.spec_roots(*paths, *fs),
    ;
}

/// `f` applied to each item, the results one after another.
pub open spec fn concat_map(items: Seq<Seq<char>>, f: spec_fn(Seq<char>) -> Seq<Seq<char>>) -> Seq<
    Seq<char>,
>
    decreases items.len(),
{
    if items.len() == 0 {
        seq![]
    } else {
        concat_map(items.drop_last(), f) + f(items.last())
    }
}

/// The candidates that are directories, in order.
pub open spec fn existing_dirs(cands: Seq<Seq<char>>, fs: FsSnapshot) -> Seq<Seq<char>> {
    cands.filter(|c: Seq<char>| fs.spec_is_dir(c))
}

/// `[p]` when `p` is a directory, else nothing.
pub open spec fn if_dir(p: Seq<char>, fs: FsSnapshot) -> Seq<Seq<char>> {
    if fs.spec_is_dir(p) {
        seq![p]
    } else {
        seq![]
    }
}

/// The sub-directories of `dir` with these names that exist.
pub open spec fn subdirs_present(dir: Seq<char>, names: Seq<Seq<char>>, fs: FsSnapshot) -> Seq<
    Seq<char>,
> {
    existing_dirs(names.map_values(|n: Seq<char>| join(dir, n, fs.win())), fs)
}

/// Appends to `out` each `dir/name` that is a directory.
pub fn push_subdirs_present(
    out: &mut Vec<String>,
    dir: &str,
    names: &Vec<&'static str>,
    fs: &FsSnapshot,
)
    ensures
        strings_view(final(out)@) == strings_view(old(out)@) + subdirs_present(
            dir@,
            names@.map_values(|n: &'static str| n@),
            *fs,
        ),
{
    let win = crate::platform::os_is_windows(fs.os());
    let ghost nv = names@.map_values(|n: &'static str| n@);
    let ghost cands = nv.map_values(|n: Seq<char>| join(dir@, n, fs.win()));
    let ghost start = strings_view(out@);
    let mut i: usize = 0;
    while i < names.len()
        invariant
            win == fs.win(),
            nv == names@.map_values(|n: &'static str| n@),
            cands == nv.map_values(|n: Seq<char>| join(dir@, n, fs.win())),
            i <= names.len(),
            strings_view(out@) == start + existing_dirs(cands.take(i as int), *fs),
        decreases names.len() - i,
    {
        let c = join_path(dir, names[i], win);
        assert(c@ == cands[i as int]);
        assert(cands.take(i + 1).drop_last() =~= cands.take(i as int));
        assert(cands.take(i + 1).last() == cands[i as int]);
        proof {
            reveal_with_fuel(Seq::filter, 1);
        }
        let ghost before = strings_view(out@);
        if fs.is_dir(c.as_str()) {
            out.push(c);
            assert(strings_view(out@) =~= before.push(cands[i as int]));
        }
        assert(strings_view(out@) =~= start + existing_dirs(cands.take(i + 1), *fs));
        i = i + 1;
    }
    assert(cands.take(names.len() as int) =~= cands);
}

/// Appends `p` to `out` when it is a directory.
pub fn push_if_dir(out: &mut Vec<String>, p: String, fs: &FsSnapshot)
    ensures
        strings_view(final(out)@) == strings_view(old(out)@) + if_dir(p@, *fs),
{
    let ghost before = strings_view(out@);
    let ghost pv = p@;
    if fs.is_dir(p.as_str()) {
        out.push(p);
        assert(strings_view(out@) =~= before + seq![pv]);
    } else {
        assert(strings_view(out@) =~= before + Seq::<Seq<char>>::empty());
    }
}

/// `p` lies at or below `base`, when there is a `base`.
pub open spec fn below(base: Option<Seq<char>>, p: Seq<char>, win: bool) -> bool {
    match base {
        Some(b) => extends(b, p, win),
        None => false,
    }
}

/// Every directory of `dirs` lies at or below `base`.
pub open spec fn under(dirs: Seq<Seq<char>>, base: Option<Seq<char>>, win: bool) -> bool {
    forall|i: int| 0 <= i < dirs.len() ==> #[trigger] below(base, dirs[i], win)
}

/// Every directory of `dirs` lies at or below `b1` or at or below `b2`.
pub open spec fn under_either(
    dirs: Seq<Seq<char>>,
    b1: Option<Seq<char>>,
    b2: Option<Seq<char>>,
    win: bool,
) -> bool {
    forall|i: int| 0 <= i < dirs.len() ==> #[trigger] below(b1, dirs[i], win) || below(b2, dirs[i], win)
}

pub proof fn lemma_under_concat(a: Seq<Seq<char>>, b: Seq<Seq<char>>, base: Option<Seq<char>>, win: bool)
    requires
        under(a, base, win),
        under(b, base, win),
    ensures
        under(a + b, base, win),
{
    assert forall|i: int| 0 <= i < (a + b).len() implies #[trigger] below(base, (a + b)[i], win) by {
        if i < a.len() {
            assert((a + b)[i] == a[i]);
        } else {
            assert((a + b)[i] == b[i - a.len()]);
        }
    }
}

pub proof fn lemma_under_either_concat(
    a: Seq<Seq<char>>,
    b: Seq<Seq<char>>,
    b1: Option<Seq<char>>,
    b2: Option<Seq<char>>,
    win: bool,
)
    requires
        under_either(a, b1, b2, win),
        under_either(b, b1, b2, win),
    ensures
        under_either(a + b, b1, b2, win),
{
    assert forall|i: int| 0 <= i < (a + b).len() implies #[trigger] below(b1, (a + b)[i], win) || below(
        b2,
        (a + b)[i],
        win,
    ) by {
        if i < a.len() {
            assert((a + b)[i] == a[i]);
        } else {
            assert((a + b)[i] == b[i - a.len()]);
        }
    }
}

/// Directories under `b1` are under `b1` or `b2`, and so are those under `b2`.
pub proof fn lemma_under_either_from(dirs: Seq<Seq<char>>, b1: Option<Seq<char>>, b2: Option<Seq<char>>, first: bool, win: bool)
    requires
        first ==> under(dirs, b1, win),
        !first ==> under(dirs, b2, win),
    ensures
        under_either(dirs, b1, b2, win),
{
    assert forall|i: int| 0 <= i < dirs.len() implies #[trigger] below(b1, dirs[i], win) || below(
        b2,
        dirs[i],
        win,
    ) by {
        if first {
            assert(below(b1, dirs[i], win));
        } else {
            assert(below(b2, dirs[i], win));
        }
    }
}

pub proof fn lemma_if_dir_under(p: Seq<char>, fs: FsSnapshot, base: Option<Seq<char>>, win: bool)
    requires
        below(base, p, win),
    ensures
        under(if_dir(p, fs), base, win),
{
    if fs.spec_is_dir(p) {
        assert(if_dir(p, fs)[0] == p);
    }
}

/// The sub-directories present under `dir` lie below whatever `dir` lies below.
pub proof fn lemma_subdirs_present_under(
    dir: Seq<char>,
    names: Seq<Seq<char>>,
    fs: FsSnapshot,
    base: Option<Seq<char>>,
)
    requires
        below(base, dir, fs.win()),
        forall|k: int| 0 <= k < names.len() ==> is_plain_name(#[trigger] names[k], fs.win()),
    ensures
        under(subdirs_present(dir, names, fs), base, fs.win()),
{
    let win = fs.win();
    let cands = names.map_values(|n: Seq<char>| join(dir, n, win));
    let pred = |c: Seq<char>| fs.spec_is_dir(c);
    let found = cands.filter(pred);
    assert(found == subdirs_present(dir, names, fs));
    assert forall|i: int| 0 <= i < found.len() implies #[trigger] below(base, found[i], win) by {
        assert(found.contains(found[i]));
        cands.lemma_filter_contains_rev(pred, found[i]);
        let k = choose|k: int| 0 <= k < cands.len() && cands[k] == found[i];
        assert(cands[k] == join(dir, names[k], win));
        lemma_join_name_extends(dir, names[k], win);
        lemma_extends_trans(base->Some_0, dir, found[i], win);
    }
}

/// Each of the names that is a directory under `dir` is found there.
pub proof fn lemma_subdirs_present_contains(dir: Seq<char>, names: Seq<Seq<char>>, fs: FsSnapshot, j: int)
    requires
        0 <= j < names.len(),
        fs.spec_is_dir(join(dir, names[j], fs.win())),
    ensures
        subdirs_present(dir, names, fs).contains(join(dir, names[j], fs.win())),
{
    let win = fs.win();
    let cands = names.map_values(|n: Seq<char>| join(dir, n, win));
    let pred = |c: Seq<char>| fs.spec_is_dir(c);
    assert(cands[j] == join(dir, names[j], win));
    cands.lemma_filter_contains(pred, j);
}

/// What `a` or `b` holds, `a + b` holds.
pub proof fn lemma_concat_contains(a: Seq<Seq<char>>, b: Seq<Seq<char>>, x: Seq<char>)
    requires
        a.contains(x) || b.contains(x),
    ensures
        (a + b).contains(x),
{
    if a.contains(x) {
        let k = choose|k: int| 0 <= k < a.len() && a[k] == x;
        assert((a + b)[k] == x);
    } else {
        let k = choose|k: int| 0 <= k < b.len() && b[k] == x;
        assert((a + b)[a.len() + k] == x);
    }
}

} // verus!
