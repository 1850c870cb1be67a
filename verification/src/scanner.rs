//! The dry run: walks a cleaner's roots and gathers files and sizes without
//! changing anything. Every path passes `is_path_safe_to_delete`, and every
//! path that is not a symbolic link also `ensure_within_root`, before it
//! enters the report.
use vstd::prelude::*;
use vstd::string::*;
use crate::cleaners::Cleaner;
use crate::pathname::{components, is_plain_name, join, join_path, lemma_join_plain_name};
use crate::platform::{HostEnv, HostPaths, os_is_windows};
use crate::safety::{
    check_view, ensure_within_root, error_message, is_path_safe_to_delete, spec_path_safety,
    spec_within_root,
};
use crate::snapshot::{EntryKind, FsSnapshot, Metadata, strings_view};

verus! {

/// A file, or a symbolic link, that may be deleted.
#[derive(Debug)]
pub struct ScanItem {
    pub path: String,
    pub size: u64,
    pub is_symlink: bool,
}

/// A path that could not be examined, and why.
#[derive(Debug)]
pub struct ScanError {
    pub path: String,
    pub message: String,
}

#[derive(Debug)]
pub struct ScanReport {
    pub cleaner_id: String,
    pub category: String,
    pub name: String,
    pub items: Vec<ScanItem>,
    pub total_size: u64,
    pub errors: Vec<ScanError>,
}

pub struct ItemView {
    pub path: Seq<char>,
    pub size: u64,
    pub is_symlink: bool,
}

pub struct ErrorView {
    pub path: Seq<char>,
    pub message: Seq<char>,
}

impl View for ScanItem {
    type V = ItemView;

    open spec fn view(&self) -> ItemView {
        ItemView { path: self.path@, size: self.size, is_symlink: self.is_symlink }
    }
}

impl View for ScanError {
    type V = ErrorView;

    open spec fn view(&self) -> ErrorView {
        ErrorView { path: self.path@, message: self.message@ }
    }
}

/// What a walk finds: items and errors, each in the order met.
pub struct Findings {
    pub items: Seq<ItemView>,
    pub errors: Seq<ErrorView>,
}

pub open spec fn no_findings() -> Findings {
    Findings { items: seq![], errors: seq![] }
}

pub open spec fn one_item(path: Seq<char>, size: u64, is_symlink: bool) -> Findings {
    Findings { items: seq![ItemView { path, size, is_symlink }], errors: seq![] }
}

pub open spec fn one_error(path: Seq<char>, message: Seq<char>) -> Findings {
    Findings { items: seq![], errors: seq![ErrorView { path, message }] }
}

pub open spec fn then(a: Findings, b: Findings) -> Findings {
    Findings { items: a.items + b.items, errors: a.errors + b.errors }
}

pub open spec fn items_view(v: Seq<ScanItem>) -> Seq<ItemView> {
    v.map_values(|i: ScanItem| i@)
}

pub open spec fn errors_view(v: Seq<ScanError>) -> Seq<ErrorView> {
    v.map_values(|e: ScanError| e@)
}

pub open spec fn sat_add(a: u64, b: u64) -> u64 {
    if a + b > u64::MAX {
        u64::MAX
    } else {
        (a + b) as u64
    }
}

/// `t` with the sizes added to it one by one, stopping at `u64::MAX`
/// instead of overflowing.
pub open spec fn total_after(t: u64, items: Seq<ItemView>) -> u64
    decreases items.len(),
{
    if items.len() == 0 {
        t
    } else {
        sat_add(total_after(t, items.drop_last()), items.last().size)
    }
}

/// The sizes added up, stopping at `u64::MAX` instead of overflowing.
pub open spec fn total_of(items: Seq<ItemView>) -> u64 {
    total_after(0, items)
}

pub proof fn lemma_total_after_concat(t: u64, a: Seq<ItemView>, b: Seq<ItemView>)
    ensures
        total_after(t, a + b) == total_after(total_after(t, a), b),
    decreases b.len(),
{
    if b.len() == 0 {
        assert(a + b =~= a);
    } else {
        lemma_total_after_concat(t, a, b.drop_last());
        assert((a + b).drop_last() =~= a + b.drop_last());
        assert((a + b).last() == b.last());
    }
}

proof fn lemma_total_after_one(t: u64, x: ItemView)
    ensures
        total_after(t, seq![x]) == sat_add(t, x.size),
{
    assert(seq![x].drop_last() =~= Seq::<ItemView>::empty());
    assert(total_after(t, Seq::<ItemView>::empty()) == t);
    assert(seq![x].last() == x);
}

/// How far a directory lies from the deepest observed path.
pub open spec fn room(dir: Seq<char>, fs: FsSnapshot) -> int {
    fs.depth() - components(dir, fs.win()).len()
}

/// What the `i`-th entry of the directory listing of `dir` contributes to
/// the report.
pub open spec fn walk_entry(root: Seq<char>, dir: Seq<char>, i: int, env: HostEnv, fs: FsSnapshot) -> Findings
    decreases room(dir, fs), 0int,
{
    match fs.spec_listing(dir) {
        Err(_) => no_findings(),
        Ok(names) => if 0 <= i < names.len() {
            let name = names[i];
            let path = join(dir, name, fs.win());
            match fs.spec_metadata(path) {
                Err(e) => one_error(path, "stat failed: "@ + e.message),
                Ok(meta) => match spec_path_safety(path, env, fs) {
                    Err(e) => one_error(path, "blocked by safety: "@ + error_message(e)),
                    Ok(_) => {
                        if !(meta.kind is Symlink) && spec_within_root(path, root, fs) is Err {
                            one_error(
                                path,
                                "escapes scan root: "@ + error_message(
                                    spec_within_root(path, root, fs)->Err_0,
                                ),
                            )
                        } else if meta.kind is Symlink {
                            one_item(path, meta.len, true)
                        } else if meta.kind is Dir {
                            match fs.spec_listing(path) {
                                Err(e) => one_error(path, "read_dir failed: "@ + e.message),
                                Ok(sub) => {
                                    proof {
                                        lemma_listed_child_is_deeper(dir, i, fs);
                                    }
                                    walk_names(root, path, sub.len() as int, env, fs)
                                },
                            }
                        } else {
                            one_item(path, meta.len, false)
                        }
                    },
                },
            }
        } else {
            no_findings()
        },
    }
}

/// What the first `k` entries of the directory listing of `dir` contribute, in order.
pub open spec fn walk_names(root: Seq<char>, dir: Seq<char>, k: int, env: HostEnv, fs: FsSnapshot) -> Findings
    decreases room(dir, fs), k + 1,
{
    if k <= 0 {
        no_findings()
    } else {
        then(walk_names(root, dir, k - 1, env, fs), walk_entry(root, dir, k - 1, env, fs))
    }
}

/// What walking the directory `dir` under the scan root `root` finds.
pub open spec fn walk_dir(root: Seq<char>, dir: Seq<char>, env: HostEnv, fs: FsSnapshot) -> Findings {
    match fs.spec_listing(dir) {
        Err(e) => one_error(dir, "read_dir failed: "@ + e.message),
        Ok(names) => walk_names(root, dir, names.len() as int, env, fs),
    }
}

/// A listed entry that is itself listed lies one level deeper, within the
/// observed depth.
pub proof fn lemma_listed_child_is_deeper(dir: Seq<char>, i: int, fs: FsSnapshot)
    requires
        fs.spec_listing(dir) is Ok,
        0 <= i < fs.spec_listing(dir)->Ok_0.len(),
    ensures
        ({
            let path = join(dir, fs.spec_listing(dir)->Ok_0[i], fs.win());
            fs.spec_listing(path) is Ok ==> 0 <= room(path, fs) < room(dir, fs)
        }),
{
    let names = fs.spec_listing(dir)->Ok_0;
    let raw = fs.lookup(dir)->Some_0.listing->Ok_0;
    let pred = |n: Seq<char>| is_plain_name(n, fs.win());
    assert(names == raw.filter(pred));
    raw.lemma_filter_pred(pred, i);
    let path = join(dir, names[i], fs.win());
    lemma_join_plain_name(dir, names[i], fs.win());
    fs.lemma_observed_within_depth(path);
}

/// What a scan of one declared root finds. A missing root is simply nothing
/// to clean; any other failure to reach it is reported.
pub open spec fn scan_root_findings(root: Seq<char>, env: HostEnv, fs: FsSnapshot) -> Findings {
    match fs.spec_canonical(root) {
        Err(e) => if e.not_found {
            no_findings()
        } else {
            one_error(root, "cannot access root: "@ + e.message)
        },
        Ok(c) => walk_dir(c, c, env, fs),
    }
}

/// What a scan of the roots finds, root after root.
pub open spec fn roots_findings(roots: Seq<Seq<char>>, env: HostEnv, fs: FsSnapshot) -> Findings
    decreases roots.len(),
{
    if roots.len() == 0 {
        no_findings()
    } else {
        then(roots_findings(roots.drop_last(), env, fs), scan_root_findings(roots.last(), env, fs))
    }
}

impl ScanReport {
    pub open spec fn findings(&self) -> Findings {
        Findings { items: items_view(self.items@), errors: errors_view(self.errors@) }
    }

    /// The total is the saturating sum of the item sizes.
    pub open spec fn total_consistent(&self) -> bool {
        self.total_size == total_of(items_view(self.items@))
    }

    pub fn new<C: Cleaner>(cleaner: &C) -> (r: Self)
        ensures
            r.cleaner_id@ == cleaner.spec_id(),
            r.category@ == cleaner.spec_category(),
            r.name@ == cleaner.spec_name(),
            r.findings() == no_findings(),
            r.total_consistent(),
    {
        let r = ScanReport {
            cleaner_id: cleaner.id().to_owned(),
            category: cleaner.category().to_owned(),
            name: cleaner.name().to_owned(),
            items: Vec::new(),
            total_size: 0,
            errors: Vec::new(),
        };
        assert(r.findings().items =~= Seq::<ItemView>::empty());
        assert(r.findings().errors =~= Seq::<ErrorView>::empty());
        r
    }

    pub fn push_item(&mut self, path: String, size: u64, is_symlink: bool)
        ensures
            final(self).findings() == then(old(self).findings(), one_item(path@, size, is_symlink)),
            final(self).total_size == sat_add(old(self).total_size, size),
            old(self).total_consistent() ==> final(self).total_consistent(),
            final(self).cleaner_id == old(self).cleaner_id,
            final(self).category == old(self).category,
            final(self).name == old(self).name,
    {
        let ghost p = path@;
        let ghost before = items_view(self.items@);
        self.total_size = self.total_size.saturating_add(size);
        self.items.push(ScanItem { path, size, is_symlink });
        assert(items_view(self.items@) =~= before + seq![ItemView { path: p, size, is_symlink }]);
        assert(items_view(self.items@).drop_last() =~= before);
        assert(total_of(items_view(self.items@)) == sat_add(total_of(before), size));
        assert(old(self).findings().errors + Seq::<ErrorView>::empty() =~= errors_view(
            self.errors@,
        ));
    }

    pub fn push_error(&mut self, path: String, message: String)
        ensures
            final(self).findings() == then(old(self).findings(), one_error(path@, message@)),
            final(self).total_size == old(self).total_size,
            old(self).total_consistent() ==> final(self).total_consistent(),
            final(self).cleaner_id == old(self).cleaner_id,
            final(self).category == old(self).category,
            final(self).name == old(self).name,
    {
        let ghost p = path@;
        let ghost m = message@;
        let ghost before = errors_view(self.errors@);
        self.errors.push(ScanError { path, message });
        assert(errors_view(self.errors@) =~= before + seq![ErrorView { path: p, message: m }]);
        assert(old(self).findings().items + Seq::<ItemView>::empty() =~= items_view(self.items@));
    }
}

proof fn lemma_then_assoc(a: Findings, b: Findings, c: Findings)
    ensures
        then(then(a, b), c) == then(a, then(b, c)),
{
    assert(then(then(a, b), c).items =~= then(a, then(b, c)).items);
    assert(then(then(a, b), c).errors =~= then(a, then(b, c)).errors);
}

proof fn lemma_then_none(a: Findings)
    ensures
        then(a, no_findings()) == a,
{
    assert(then(a, no_findings()).items =~= a.items);
    assert(then(a, no_findings()).errors =~= a.errors);
}

fn cat(a: &str, b: &str) -> (r: String)
    ensures
        r@ == a@ + b@,
{
    a.to_owned().concat(b)
}

/// Walks the listed entries of `dir`, descending into real directories and
/// never following a symbolic link.
fn walk_listing(
    root: &str,
    dir: &str,
    names: &Vec<String>,
    env: &HostEnv,
    fs: &FsSnapshot,
    report: &mut ScanReport,
)
    requires
        fs.spec_listing(dir@) == Ok::<Seq<Seq<char>>, crate::snapshot::IoFailureView>(
            strings_view(names@),
        ),
    ensures
        final(report).findings() == then(
            old(report).findings(),
            walk_names(root@, dir@, names.len() as int, *env, *fs),
        ),
        final(report).total_size == total_after(
            old(report).total_size,
            walk_names(root@, dir@, names.len() as int, *env, *fs).items,
        ),
        final(report).cleaner_id == old(report).cleaner_id,
        final(report).category == old(report).category,
        final(report).name == old(report).name,
    decreases room(dir@, *fs),
{
    let win = os_is_windows(fs.os());
    let ghost start = report.findings();
    let ghost t0 = report.total_size;
    let ghost nv = strings_view(names@);
    let mut i: usize = 0;
    proof {
        lemma_then_none(start);
    }
    while i < names.len()
        invariant
            win == fs.win(),
            nv == strings_view(names@),
            fs.spec_listing(dir@) == Ok::<Seq<Seq<char>>, crate::snapshot::IoFailureView>(nv),
            i <= names.len(),
            report.findings() == then(start, walk_names(root@, dir@, i as int, *env, *fs)),
            report.total_size == total_after(t0, walk_names(root@, dir@, i as int, *env, *fs).items),
            report.cleaner_id == old(report).cleaner_id,
            report.category == old(report).category,
            report.name == old(report).name,
        decreases names.len() - i,
    {
        let ghost before = report.findings();
        let ghost tb = report.total_size;
        let ghost entry_part = walk_entry(root@, dir@, i as int, *env, *fs);
        assert(nv[i as int] == names@[i as int]@);
        let path = join_path(dir, names[i].as_str(), win);
        assert(path@ == join(dir@, nv[i as int], fs.win()));
        match fs.symlink_metadata(path.as_str()) {
            Err(e) => {
                report.push_error(path, cat("stat failed: ", e.message.as_str()));
            },
            Ok(meta) => {
                match is_path_safe_to_delete(path.as_str(), env, fs) {
                    Err(e) => {
                        let m = e.message();
                        report.push_error(path, cat("blocked by safety: ", m.as_str()));
                    },
                    Ok(()) => {
                        let symlink = match meta.kind {
                            EntryKind::Symlink => true,
                            _ => false,
                        };
                        let escape = if !symlink {
                            match ensure_within_root(path.as_str(), root, fs) {
                                Err(e) => Some(e.message()),
                                Ok(()) => None,
                            }
                        } else {
                            None
                        };
                        match escape {
                            Some(m) => {
                                report.push_error(path, cat("escapes scan root: ", m.as_str()));
                            },
                            None => {
                                if symlink {
                                    report.push_item(path, meta.len, true);
                                } else {
                                    match meta.kind {
                                        EntryKind::Dir => {
                                            match fs.read_dir(path.as_str()) {
                                                Err(e) => {
                                                    report.push_error(
                                                        path,
                                                        cat("read_dir failed: ", e.message.as_str()),
                                                    );
                                                },
                                                Ok(sub) => {
                                                    proof {
                                                        lemma_listed_child_is_deeper(
                                                            dir@,
                                                            i as int,
                                                            *fs,
                                                        );
                                                    }
                                                    walk_listing(
                                                        root,
                                                        path.as_str(),
                                                        &sub,
                                                        env,
                                                        fs,
                                                        report,
                                                    );
                                                },
                                            }
                                        },
                                        _ => {
                                            report.push_item(path, meta.len, false);
                                        },
                                    }
                                }
                            },
                        }
                    },
                }
            },
        }
        assert(report.findings() == then(before, entry_part));
        proof {
            if entry_part.items.len() == 1 {
                lemma_total_after_one(tb, entry_part.items[0]);
                assert(entry_part.items =~= seq![entry_part.items[0]]);
            } else if entry_part.items.len() == 0 {
                assert(report.total_size == tb);
            }
            assert(report.total_size == total_after(tb, entry_part.items));
            lemma_total_after_concat(
                t0,
                walk_names(root@, dir@, i as int, *env, *fs).items,
                entry_part.items,
            );
            lemma_then_assoc(start, walk_names(root@, dir@, i as int, *env, *fs), entry_part);
        }
        i = i + 1;
    }
}

/// Walks the directory `dir` under the scan root `root`.
pub fn walk(root: &str, dir: &str, env: &HostEnv, fs: &FsSnapshot, report: &mut ScanReport)
    ensures
        final(report).findings() == then(old(report).findings(), walk_dir(root@, dir@, *env, *fs)),
        final(report).total_size == total_after(
            old(report).total_size,
            walk_dir(root@, dir@, *env, *fs).items,
        ),
        final(report).cleaner_id == old(report).cleaner_id,
        final(report).category == old(report).category,
        final(report).name == old(report).name,
{
    match fs.read_dir(dir) {
        Err(e) => {
            report.push_error(dir.to_owned(), cat("read_dir failed: ", e.message.as_str()));
        },
        Ok(names) => {
            walk_listing(root, dir, &names, env, fs, report);
        },
    }
}

/// Scans one declared root.
pub fn scan_root(root: &str, env: &HostEnv, fs: &FsSnapshot, report: &mut ScanReport)
    ensures
        final(report).findings() == then(old(report).findings(), scan_root_findings(root@, *env, *fs)),
        final(report).total_size == total_after(
            old(report).total_size,
            scan_root_findings(root@, *env, *fs).items,
        ),
        final(report).cleaner_id == old(report).cleaner_id,
        final(report).category == old(report).category,
        final(report).name == old(report).name,
{
    match fs.canonicalize(root) {
        Err(e) => {
            if !e.not_found {
                report.push_error(root.to_owned(), cat("cannot access root: ", e.message.as_str()));
            } else {
                proof {
                    lemma_then_none(report.findings());
                }
            }
        },
        Ok(c) => {
            walk(c.as_str(), c.as_str(), env, fs, report);
        },
    }
}

/// Scans the cleaner's roots, one after another, and reports what could be
/// cleaned. Nothing is changed.
pub fn scan<C: Cleaner>(cleaner: &C, paths: &HostPaths, env: &HostEnv, fs: &FsSnapshot) -> (r:
    ScanReport)
    ensures
        r.cleaner_id@ == cleaner.spec_id(),
        r.category@ == cleaner.spec_category(),
        r.name@ == cleaner.spec_name(),
        r.findings() == roots_findings(cleaner.spec_roots(*paths, *fs), *env, *fs),
        r.total_consistent(),
{
    let mut report = ScanReport::new(cleaner);
    let roots = cleaner.roots(paths, fs);
    let ghost rv = strings_view(roots@);
    let mut i: usize = 0;
    while i < roots.len()
        invariant
            rv == strings_view(roots@),
            rv == cleaner.spec_roots(*paths, *fs),
            i <= roots.len(),
            report.findings() == roots_findings(rv.take(i as int), *env, *fs),
            report.total_consistent(),
            report.cleaner_id@ == cleaner.spec_id(),
            report.category@ == cleaner.spec_category(),
            report.name@ == cleaner.spec_name(),
        decreases roots.len() - i,
    {
        assert(rv.take(i + 1).drop_last() =~= rv.take(i as int));
        assert(rv.take(i + 1).last() == roots@[i as int]@);
        let ghost items0 = report.findings().items;
        let ghost part = scan_root_findings(roots@[i as int]@, *env, *fs);
        scan_root(roots[i].as_str(), env, fs, &mut report);
        proof {
            lemma_total_after_concat(0, items0, part.items);
        }
        i = i + 1;
    }
    assert(rv.take(roots.len() as int) =~= rv);
    report
}

} // verus!

verus! {

/// What may stand in a scan report: a path that passes the safety check,
/// whose `symlink_metadata` is what the item says, that is no directory, and
/// that, unless it is a symbolic link, lies inside the scan root.
pub open spec fn reportable(item: ItemView, root: Seq<char>, env: HostEnv, fs: FsSnapshot) -> bool {
    &&& spec_path_safety(item.path, env, fs) is Ok
    &&& fs.spec_metadata(item.path) is Ok
    &&& item.size == fs.spec_metadata(item.path)->Ok_0.len
    &&& item.is_symlink == (fs.spec_metadata(item.path)->Ok_0.kind is Symlink)
    &&& !(fs.spec_metadata(item.path)->Ok_0.kind is Dir)
    &&& (item.is_symlink || spec_within_root(item.path, root, fs) is Ok)
}

pub open spec fn all_reportable(items: Seq<ItemView>, root: Seq<char>, env: HostEnv, fs: FsSnapshot) -> bool {
    forall|j: int| 0 <= j < items.len() ==> reportable(#[trigger] items[j], root, env, fs)
}

proof fn lemma_entry_items(root: Seq<char>, dir: Seq<char>, i: int, env: HostEnv, fs: FsSnapshot)
    ensures
        all_reportable(walk_entry(root, dir, i, env, fs).items, root, env, fs),
    decreases room(dir, fs), 0int,
{
    match fs.spec_listing(dir) {
        Err(_) => {},
        Ok(names) => if 0 <= i < names.len() {
            let path = join(dir, names[i], fs.win());
            match fs.spec_metadata(path) {
                Err(_) => {},
                Ok(meta) => match spec_path_safety(path, env, fs) {
                    Err(_) => {},
                    Ok(_) => {
                        if !(meta.kind is Symlink) && spec_within_root(path, root, fs) is Err {
                        } else if meta.kind is Symlink {
                        } else if meta.kind is Dir {
                            match fs.spec_listing(path) {
                                Err(_) => {},
                                Ok(sub) => {
                                    lemma_listed_child_is_deeper(dir, i, fs);
                                    lemma_names_items(root, path, sub.len() as int, env, fs);
                                },
                            }
                        } else {
                        }
                    },
                },
            }
        },
    }
}

proof fn lemma_names_items(root: Seq<char>, dir: Seq<char>, k: int, env: HostEnv, fs: FsSnapshot)
    requires
        k <= 0 || room(dir, fs) >= 0,
    ensures
        all_reportable(walk_names(root, dir, k, env, fs).items, root, env, fs),
    decreases room(dir, fs), k + 1,
{
    if k > 0 {
        lemma_names_items(root, dir, k - 1, env, fs);
        lemma_entry_items(root, dir, k - 1, env, fs);
        let a = walk_names(root, dir, k - 1, env, fs).items;
        let b = walk_entry(root, dir, k - 1, env, fs).items;
        assert forall|j: int| 0 <= j < (a + b).len() implies reportable(
            #[trigger] (a + b)[j],
            root,
            env,
            fs,
        ) by {
            if j < a.len() {
                assert((a + b)[j] == a[j]);
            } else {
                assert((a + b)[j] == b[j - a.len()]);
            }
        }
    }
}

/// An item found under one of `roots`: a root that canonicalizes to a path
/// under which the item is reportable.
pub open spec fn found_under(item: ItemView, roots: Seq<Seq<char>>, env: HostEnv, fs: FsSnapshot) -> bool {
    exists|j: int|
        0 <= j < roots.len() && #[trigger] fs.spec_canonical(roots[j]) is Ok && reportable(
            item,
            fs.spec_canonical(roots[j])->Ok_0,
            env,
            fs,
        )
}

/// A scan reports only what may be cleaned: every item passes the safety
/// check, exists with the size and kind reported, is no directory, and,
/// unless it is a symbolic link, lies inside the canonical form of one of the
/// cleaner's roots.
pub proof fn lemma_scan_reports_only_cleanable(roots: Seq<Seq<char>>, env: HostEnv, fs: FsSnapshot)
    ensures
        forall|j: int|
            0 <= j < roots_findings(roots, env, fs).items.len() ==> found_under(
                #[trigger] roots_findings(roots, env, fs).items[j],
                roots,
                env,
                fs,
            ),
    decreases roots.len(),
{
    if roots.len() > 0 {
        let init = roots.drop_last();
        lemma_scan_reports_only_cleanable(init, env, fs);
        let a = roots_findings(init, env, fs).items;
        let b = scan_root_findings(roots.last(), env, fs).items;
        let last = roots.len() - 1;
        assert(roots[last] == roots.last());
        match fs.spec_canonical(roots.last()) {
            Err(_) => {},
            Ok(c) => match fs.spec_listing(c) {
                Err(_) => {},
                Ok(names) => {
                    fs.lemma_observed_within_depth(c);
                    lemma_names_items(c, c, names.len() as int, env, fs);
                },
            },
        }
        assert forall|j: int| 0 <= j < (a + b).len() implies found_under(
            #[trigger] (a + b)[j],
            roots,
            env,
            fs,
        ) by {
            if j < a.len() {
                assert((a + b)[j] == a[j]);
                assert(found_under(a[j], init, env, fs));
                let w = choose|w: int|
                    0 <= w < init.len() && #[trigger] fs.spec_canonical(init[w]) is Ok
                        && reportable(a[j], fs.spec_canonical(init[w])->Ok_0, env, fs);
                assert(init[w] == roots[w]);
            } else {
                assert((a + b)[j] == b[j - a.len()]);
                assert(fs.spec_canonical(roots[last]) is Ok);
            }
        }
    }
}

proof fn lemma_items_concat_contains(a: Seq<ItemView>, b: Seq<ItemView>, x: ItemView)
    requires
        a.contains(x) || b.contains(x),
    ensures
        (a + b).contains(x),
{
    if a.contains(x) {
        let k = choose|k: int| 0 <= k < a.len() && a[k] == x;
        assert((a + b)[k] == x);
    } else {
        let k = choose|k: int| 0 <= k < b.len() && b[k] == x;
        assert((a + b)[a.len() + k] == x);
    }
}

proof fn lemma_walk_names_contain(
    root: Seq<char>,
    dir: Seq<char>,
    k: int,
    i: int,
    env: HostEnv,
    fs: FsSnapshot,
    x: ItemView,
)
    requires
        0 <= i < k,
        walk_entry(root, dir, i, env, fs).items.contains(x),
    ensures
        walk_names(root, dir, k, env, fs).items.contains(x),
    decreases k,
{
    if i < k - 1 {
        lemma_walk_names_contain(root, dir, k - 1, i, env, fs, x);
    }
    lemma_items_concat_contains(
        walk_names(root, dir, k - 1, env, fs).items,
        walk_entry(root, dir, k - 1, env, fs).items,
        x,
    );
}

/// A scan misses nothing it may clean. Of the entries that a directory
/// lists, every symbolic link that passes the safety check, and every entry
/// that is neither a link nor a directory, passes the safety check and lies
/// inside the scan root, is reported as an item with the size
/// `symlink_metadata` gives; and for every sub-directory that passes the same
/// checks, whatever is found in it is reported too.
pub proof fn lemma_walk_reports_every_cleanable_entry(
    root: Seq<char>,
    dir: Seq<char>,
    env: HostEnv,
    fs: FsSnapshot,
    i: int,
)
    requires
        fs.spec_listing(dir) is Ok,
        0 <= i < fs.spec_listing(dir)->Ok_0.len(),
    ensures
        ({
            let path = join(dir, fs.spec_listing(dir)->Ok_0[i], fs.win());
            let meta = fs.spec_metadata(path)->Ok_0;
            let passes = fs.spec_metadata(path) is Ok && spec_path_safety(path, env, fs) is Ok;
            let found = walk_dir(root, dir, env, fs).items;
            &&& (passes && meta.kind is Symlink) ==> found.contains(
                ItemView { path, size: meta.len, is_symlink: true },
            )
            &&& (passes && !(meta.kind is Symlink) && !(meta.kind is Dir) && spec_within_root(
                path,
                root,
                fs,
            ) is Ok) ==> found.contains(ItemView { path, size: meta.len, is_symlink: false })
            &&& (passes && meta.kind is Dir && spec_within_root(path, root, fs) is Ok) ==> forall|
                x: ItemView,
            |
                #![trigger walk_dir(root, path, env, fs).items.contains(x)]
                walk_dir(root, path, env, fs).items.contains(x) ==> found.contains(x)
        }),
{
    let names = fs.spec_listing(dir)->Ok_0;
    let k = names.len() as int;
    let path = join(dir, names[i], fs.win());
    let e = walk_entry(root, dir, i, env, fs).items;
    if fs.spec_metadata(path) is Ok && spec_path_safety(path, env, fs) is Ok {
        let meta = fs.spec_metadata(path)->Ok_0;
        if meta.kind is Symlink {
            let it = ItemView { path, size: meta.len, is_symlink: true };
            assert(e[0] == it);
            lemma_walk_names_contain(root, dir, k, i, env, fs, it);
        } else if !(meta.kind is Dir) && spec_within_root(path, root, fs) is Ok {
            let it = ItemView { path, size: meta.len, is_symlink: false };
            assert(e[0] == it);
            lemma_walk_names_contain(root, dir, k, i, env, fs, it);
        } else if meta.kind is Dir && spec_within_root(path, root, fs) is Ok {
            assert forall|x: ItemView| #[trigger]
                walk_dir(root, path, env, fs).items.contains(x) implies walk_dir(
                root,
                dir,
                env,
                fs,
            ).items.contains(x) by {
                match fs.spec_listing(path) {
                    Err(_) => {
                        assert(walk_dir(root, path, env, fs).items.len() == 0);
                    },
                    Ok(sub) => {
                        assert(e == walk_dir(root, path, env, fs).items);
                        lemma_walk_names_contain(root, dir, k, i, env, fs, x);
                    },
                }
            }
        }
    }
}

/// What the walk of a root's canonical form finds, the scan of the roots
/// reports.
pub proof fn lemma_scan_reports_each_root(roots: Seq<Seq<char>>, env: HostEnv, fs: FsSnapshot, j: int, x: ItemView)
    requires
        0 <= j < roots.len(),
        fs.spec_canonical(roots[j]) is Ok,
        walk_dir(
            fs.spec_canonical(roots[j])->Ok_0,
            fs.spec_canonical(roots[j])->Ok_0,
            env,
            fs,
        ).items.contains(x),
    ensures
        roots_findings(roots, env, fs).items.contains(x),
    decreases roots.len(),
{
    let init = roots.drop_last();
    if j < roots.len() - 1 {
        assert(init[j] == roots[j]);
        lemma_scan_reports_each_root(init, env, fs, j, x);
    } else {
        assert(roots.last() == roots[j]);
    }
    lemma_items_concat_contains(
        roots_findings(init, env, fs).items,
        scan_root_findings(roots.last(), env, fs).items,
        x,
    );
}

} // verus!
