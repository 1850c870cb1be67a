//! The executor is the only place where anything is deleted. What reaches it
//! must already have been scanned, and is validated again, because the request
//! crosses a trust boundary. For each requested path:
//!   1. `is_path_safe_to_delete` (blocklist, home directory, traversal);
//!   2. `ensure_within_root` against the cleaner's declared roots (skipped for
//!      a symbolic link: the link is removed, never its target);
//!   3. `symlink_metadata` for the size before deletion;
//!   4. removal of the file, which the program performs.
//! An audit record is written at the end.
use vstd::prelude::*;
use vstd::string::*;
use crate::audit::{AuditFailure, AuditRecord};
use crate::cleaners::Cleaner;
use crate::pathname::{comps_starts_with, comps_view, components_of, extends};
use crate::platform::{HostEnv, HostPaths, os_is_windows};
use crate::safety::{error_message, ensure_within_root, is_path_safe_to_delete, spec_path_safety, spec_within_root};
use crate::scanner::{found_under, lemma_scan_reports_only_cleanable, reportable, roots_findings, sat_add};
use crate::snapshot::{EntryKind, FsSnapshot, absent, absent_failure, strings_view};

verus! {

/// The paths the user confirmed for deletion.
#[derive(Debug)]
pub struct ExecutionRequest {
    pub paths: Vec<String>,
}

#[derive(Debug)]
pub struct ExecutionFailure {
    pub path: String,
    pub message: String,
}

#[derive(Debug)]
pub struct ExecutionReport {
    pub cleaner_id: String,
    pub attempted: usize,
    pub deleted: usize,
    pub freed_bytes: u64,
    pub failures: Vec<ExecutionFailure>,
    pub audit_log_path: Option<String>,
}

pub struct FailureView {
    pub path: Seq<char>,
    pub message: Seq<char>,
}

impl View for ExecutionFailure {
    type V = FailureView;

    open spec fn view(&self) -> FailureView {
        FailureView { path: self.path@, message: self.message@ }
    }
}

pub open spec fn failures_view(v: Seq<ExecutionFailure>) -> Seq<FailureView> {
    v.map_values(|f: ExecutionFailure| f@)
}

/// The canonical forms of the roots that can be canonicalized, in order.
pub open spec fn canonical_roots(roots: Seq<Seq<char>>, fs: FsSnapshot) -> Seq<Seq<char>>
    decreases roots.len(),
{
    if roots.len() == 0 {
        seq![]
    } else {
        canonical_roots(roots.drop_last(), fs) + match fs.spec_canonical(roots.last()) {
            Ok(c) => seq![c],
            Err(_) => seq![],
        }
    }
}

pub open spec fn within_some_root(p: Seq<char>, roots: Seq<Seq<char>>, fs: FsSnapshot) -> bool {
    exists|j: int| 0 <= j < roots.len() && spec_within_root(p, #[trigger] roots[j], fs) is Ok
}

/// Whether the path may be removed, and if so how many bytes that frees; else
/// why not.
pub open spec fn deletion_check(p: Seq<char>, roots: Seq<Seq<char>>, env: HostEnv, fs: FsSnapshot) -> Result<
    u64,
    Seq<char>,
> {
    match spec_path_safety(p, env, fs) {
        Err(e) => Err("safety check failed: "@ + error_message(e)),
        Ok(_) => match fs.spec_metadata(p) {
            Err(e) => Err("stat failed: "@ + e.message),
            Ok(meta) => if !(meta.kind is Symlink) && !within_some_root(p, roots, fs) {
                Err("path is not within any of the cleaner's allowed roots"@)
            } else if !(meta.kind is Symlink) && meta.kind is Dir {
                Err("refusing to delete a directory"@)
            } else {
                Ok(meta.len)
            },
        },
    }
}

/// The tally of the first `k` requested paths: how many were deleted, how
/// many bytes that freed, which failed with what message, and which paths
/// are gone because they were removed.
pub struct Tally {
    pub deleted: nat,
    pub freed: u64,
    pub failures: Seq<FailureView>,
    pub gone: Seq<Seq<char>>,
}

/// An earlier path of the same request, naming this path or one it runs
/// through, was removed: the path is no longer there.
pub open spec fn removed_earlier(p: Seq<char>, gone: Seq<Seq<char>>, win: bool) -> bool {
    exists|i: int| 0 <= i < gone.len() && extends(#[trigger] gone[i], p, win)
}

/// The decision on a requested path once the paths in `gone` were removed:
/// a path that passes the safety check but was already removed is no longer
/// there, and fails where its metadata is read; any other path is decided on
/// the observations.
pub open spec fn decision(
    p: Seq<char>,
    roots: Seq<Seq<char>>,
    env: HostEnv,
    fs: FsSnapshot,
    gone: Seq<Seq<char>>,
) -> Result<u64, Seq<char>> {
    if spec_path_safety(p, env, fs) is Ok && removed_earlier(p, gone, fs.win()) {
        Err("stat failed: "@ + absent_failure(fs.win()).message)
    } else {
        deletion_check(p, roots, env, fs)
    }
}

pub open spec fn outcome_view(r: Result<(), String>) -> Result<(), Seq<char>> {
    match r {
        Ok(()) => Ok(()),
        Err(m) => Err(m@),
    }
}

pub open spec fn tally(
    paths: Seq<Seq<char>>,
    removals: Seq<Result<(), Seq<char>>>,
    roots: Seq<Seq<char>>,
    env: HostEnv,
    fs: FsSnapshot,
    k: int,
) -> Tally
    decreases k,
{
    if k <= 0 {
        Tally { deleted: 0, freed: 0, failures: seq![], gone: seq![] }
    } else {
        let t = tally(paths, removals, roots, env, fs, k - 1);
        let p = paths[k - 1];
        match decision(p, roots, env, fs, t.gone) {
            Ok(size) => match removals[k - 1] {
                Ok(()) => Tally {
                    deleted: t.deleted + 1,
                    freed: sat_add(t.freed, size),
                    gone: t.gone.push(p),
                    ..t
                },
                Err(m) => Tally {
                    failures: t.failures.push(
                        FailureView { path: p, message: "remove_file failed: "@ + m },
                    ),
                    ..t
                },
            },
            Err(msg) => Tally { failures: t.failures.push(FailureView { path: p, message: msg }), ..t },
        }
    }
}

fn cat(a: &str, b: &str) -> (r: String)
    ensures
        r@ == a@ + b@,
{
    a.to_owned().concat(b)
}

/// The cleaner's roots that can be canonicalized, canonicalized.
pub fn allowed_roots<C: Cleaner>(cleaner: &C, paths: &HostPaths, fs: &FsSnapshot) -> (r: Vec<String>)
    ensures
        strings_view(r@) == canonical_roots(cleaner.spec_roots(*paths, *fs), *fs),
{
    let roots = cleaner.roots(paths, fs);
    let ghost rv = strings_view(roots@);
    let mut out: Vec<String> = Vec::new();
    let mut i: usize = 0;
    while i < roots.len()
        invariant
            rv == strings_view(roots@),
            i <= roots.len(),
            strings_view(out@) == canonical_roots(rv.take(i as int), *fs),
        decreases roots.len() - i,
    {
        assert(rv.take(i + 1).drop_last() =~= rv.take(i as int));
        assert(rv.take(i + 1).last() == roots@[i as int]@);
        let ghost before = strings_view(out@);
        match fs.canonicalize(roots[i].as_str()) {
            Ok(c) => {
                let ghost cv = c@;
                out.push(c);
                assert(strings_view(out@) =~= before + seq![cv]);
            },
            Err(_) => {
                assert(strings_view(out@) =~= before + Seq::<Seq<char>>::empty());
            },
        }
        i = i + 1;
    }
    assert(rv.take(roots.len() as int) =~= rv);
    out
}

/// Decides whether the path may be removed: it must be safe, it must exist,
/// and unless it is a symbolic link it must lie inside one of the allowed
/// roots and must not be a directory. Directories stay: deleting them
/// recursively is too risky at this level. On success, the size to be freed.
pub fn try_delete(path: &str, allowed_roots: &Vec<String>, env: &HostEnv, fs: &FsSnapshot) -> (r:
    Result<u64, String>)
    ensures
        match r {
            Ok(size) => deletion_check(path@, strings_view(allowed_roots@), *env, *fs) == Ok::<
                u64,
                Seq<char>,
            >(size),
            Err(m) => deletion_check(path@, strings_view(allowed_roots@), *env, *fs) == Err::<
                u64,
                Seq<char>,
            >(m@),
        },
{
    let ghost rv = strings_view(allowed_roots@);
    match is_path_safe_to_delete(path, env, fs) {
        Err(e) => {
            let m = e.message();
            return Err(cat("safety check failed: ", m.as_str()));
        },
        Ok(()) => {},
    }
    let meta = match fs.symlink_metadata(path) {
        Err(e) => return Err(cat("stat failed: ", e.message.as_str())),
        Ok(m) => m,
    };
    let symlink = match meta.kind {
        EntryKind::Symlink => true,
        _ => false,
    };
    if !symlink {
        let mut inside = false;
        let mut j: usize = 0;
        while j < allowed_roots.len() && !inside
            invariant
                rv == strings_view(allowed_roots@),
                j <= allowed_roots.len(),
                inside ==> within_some_root(path@, rv, *fs),
                !inside ==> forall|q: int|
                    0 <= q < j ==> !(spec_within_root(path@, #[trigger] rv[q], *fs) is Ok),
            decreases allowed_roots.len() - j,
        {
            assert(rv[j as int] == allowed_roots@[j as int]@);
            match ensure_within_root(path, allowed_roots[j].as_str(), fs) {
                Ok(()) => {
                    inside = true;
                },
                Err(_) => {},
            }
            j = j + 1;
        }
        if !inside {
            return Err("path is not within any of the cleaner's allowed roots".to_owned());
        }
        match meta.kind {
            EntryKind::Dir => return Err("refusing to delete a directory".to_owned()),
            _ => {},
        }
    }
    Ok(meta.len)
}

/// The audit failures as path and message.
pub open spec fn audit_failures_view(v: Seq<AuditFailure>) -> Seq<FailureView> {
    v.map_values(|f: AuditFailure| FailureView { path: f.path@, message: f.message@ })
}

/// `rec` is the audit record of the report `r`: the same cleaner and counts,
/// and the same failures in the same order.
pub open spec fn records(rec: AuditRecord, r: ExecutionReport) -> bool {
    &&& rec.cleaner_id@ == r.cleaner_id@
    &&& rec.attempted == r.attempted
    &&& rec.deleted == r.deleted
    &&& rec.freed_bytes == r.freed_bytes
    &&& audit_failures_view(rec.failures@) == r.failures_seq()
}

/// `after` is the report `before` once the outcome of writing the audit log
/// is recorded: the log's path, or one more failure that says why it failed.
pub open spec fn audit_recorded(
    before: ExecutionReport,
    after: ExecutionReport,
    outcome: Result<String, String>,
) -> bool {
    &&& after.cleaner_id == before.cleaner_id
    &&& after.attempted == before.attempted
    &&& after.deleted == before.deleted
    &&& after.freed_bytes == before.freed_bytes
    &&& match outcome {
        Ok(p) => after.audit_log_path == Some(p) && after.failures_seq() == before.failures_seq(),
        Err(e) => after.audit_log_path == before.audit_log_path && after.failures_seq()
            == before.failures_seq().push(
            FailureView { path: "<audit-log>"@, message: "failed to write audit log: "@ + e@ },
        ),
    }
}

impl ExecutionReport {
    pub open spec fn failures_seq(&self) -> Seq<FailureView> {
        failures_view(self.failures@)
    }

    /// Records how writing the audit log went: its path, or a failure.
    pub fn record_audit(&mut self, outcome: Result<String, String>)
        ensures
            audit_recorded(*old(self), *final(self), outcome),
            final(self).cleaner_id == old(self).cleaner_id,
            final(self).attempted == old(self).attempted,
            final(self).deleted == old(self).deleted,
            final(self).freed_bytes == old(self).freed_bytes,
            match outcome {
                Ok(p) => final(self).audit_log_path == Some(p) && final(self).failures_seq()
                    == old(self).failures_seq(),
                Err(e) => final(self).audit_log_path == old(self).audit_log_path
                    && final(self).failures_seq() == old(self).failures_seq().push(
                    FailureView {
                        path: "<audit-log>"@,
                        message: "failed to write audit log: "@ + e@,
                    },
                ),
            },
    {
        match outcome {
            Ok(p) => {
                self.audit_log_path = Some(p);
            },
            Err(e) => {
                let ghost before = self.failures_seq();
                let f = ExecutionFailure {
                    path: "<audit-log>".to_owned(),
                    message: cat("failed to write audit log: ", e.as_str()),
                };
                let ghost fv = f@;
                self.failures.push(f);
                assert(self.failures_seq() =~= before.push(fv));
            },
        }
    }

    /// The audit record of this execution, stamped with `timestamp_unix`.
    pub fn audit_record(&self, timestamp_unix: u64) -> (r: AuditRecord)
        ensures
            r.timestamp_unix == timestamp_unix,
            records(r, *self),
            r.cleaner_id@ == self.cleaner_id@,
            r.attempted == self.attempted,
            r.deleted == self.deleted,
            r.freed_bytes == self.freed_bytes,
            r.failures@.len() == self.failures@.len(),
            forall|i: int|
                0 <= i < r.failures@.len() ==> (#[trigger] r.failures@[i]).path@
                    == self.failures@[i].path@ && r.failures@[i].message@
                    == self.failures@[i].message@,
    {
        let mut failures: Vec<AuditFailure> = Vec::new();
        let mut i: usize = 0;
        while i < self.failures.len()
            invariant
                i <= self.failures.len(),
                failures@.len() == i,
                forall|q: int|
                    0 <= q < i ==> (#[trigger] failures@[q]).path@ == self.failures@[q].path@
                        && failures@[q].message@ == self.failures@[q].message@,
            decreases self.failures.len() - i,
        {
            failures.push(
                AuditFailure {
                    path: self.failures[i].path.clone(),
                    message: self.failures[i].message.clone(),
                },
            );
            i = i + 1;
        }
        assert(audit_failures_view(failures@) =~= self.failures_seq());
        AuditRecord {
            timestamp_unix,
            cleaner_id: self.cleaner_id.clone(),
            attempted: self.attempted,
            deleted: self.deleted,
            freed_bytes: self.freed_bytes,
            failures,
        }
    }
}

fn removed_before(p: &str, gone: &Vec<String>, win: bool) -> (r: bool)
    ensures
        r == removed_earlier(p@, strings_view(gone@), win),
{
    let ghost gv = strings_view(gone@);
    let pc = components_of(p, win);
    let mut j: usize = 0;
    while j < gone.len()
        invariant
            gv == strings_view(gone@),
            comps_view(pc@) == crate::pathname::components(p@, win),
            j <= gone.len(),
            forall|q: int| 0 <= q < j ==> !extends(#[trigger] gv[q], p@, win),
        decreases gone.len() - j,
    {
        assert(gv[j as int] == gone@[j as int]@);
        let gc = components_of(gone[j].as_str(), win);
        if comps_starts_with(&pc, &gc) {
            assert(extends(gv[j as int], p@, win));
            return true;
        }
        j = j + 1;
    }
    false
}

/// The decision on one requested path once the paths in `gone` were removed:
/// as `try_delete` decides, except that a safe path that an earlier path of
/// the request removed, or that runs through one it removed, fails where its
/// metadata is read.
pub fn decide(
    path: &str,
    allowed_roots: &Vec<String>,
    env: &HostEnv,
    fs: &FsSnapshot,
    gone: &Vec<String>,
) -> (r: Result<u64, String>)
    ensures
        decision_view(r) == decision(
            path@,
            strings_view(allowed_roots@),
            *env,
            *fs,
            strings_view(gone@),
        ),
{
    let win = os_is_windows(fs.os());
    let safe = match is_path_safe_to_delete(path, env, fs) {
        Ok(()) => true,
        Err(_) => false,
    };
    if safe && removed_before(path, gone, win) {
        let f = absent(win);
        return Err(cat("stat failed: ", f.message.as_str()));
    }
    try_delete(path, allowed_roots, env, fs)
}

/// Tallies an execution. `removals[i]` is how removing `request.paths[i]`
/// went, for each path that `decide` cleared; it is not consulted for the
/// others. A path that an earlier path of the request removed, or that runs
/// through one it removed, fails where its metadata is read. The audit record is not yet written: see `audit_record` and
/// `record_audit`.
pub fn execute<C: Cleaner>(
    cleaner: &C,
    paths_provider: &HostPaths,
    request: &ExecutionRequest,
    env: &HostEnv,
    fs: &FsSnapshot,
    removals: &Vec<Result<(), String>>,
) -> (r: ExecutionReport)
    requires
        removals.len() == request.paths.len(),
    ensures
        ({
            let t = tally(
                strings_view(request.paths@),
                removals@.map_values(|x: Result<(), String>| outcome_view(x)),
                canonical_roots(cleaner.spec_roots(*paths_provider, *fs), *fs),
                *env,
                *fs,
                request.paths.len() as int,
            );
            &&& r.cleaner_id@ == cleaner.spec_id()
            &&& r.attempted == request.paths.len()
            &&& r.deleted == t.deleted
            &&& r.freed_bytes == t.freed
            &&& r.failures_seq() == t.failures
            &&& r.audit_log_path is None
        }),
{
    let allowed = allowed_roots(cleaner, paths_provider, fs);
    let ghost pv = strings_view(request.paths@);
    let ghost ov = removals@.map_values(|x: Result<(), String>| outcome_view(x));
    let ghost rv = strings_view(allowed@);
    let mut report = ExecutionReport {
        cleaner_id: cleaner.id().to_owned(),
        attempted: request.paths.len(),
        deleted: 0,
        freed_bytes: 0,
        failures: Vec::new(),
        audit_log_path: None,
    };
    assert(report.failures_seq() =~= Seq::<FailureView>::empty());
    let mut gone: Vec<String> = Vec::new();
    assert(strings_view(gone@) =~= Seq::<Seq<char>>::empty());
    let mut i: usize = 0;
    while i < request.paths.len()
        invariant
            pv == strings_view(request.paths@),
            ov == removals@.map_values(|x: Result<(), String>| outcome_view(x)),
            removals.len() == request.paths.len(),
            rv == strings_view(allowed@),
            i <= request.paths.len(),
            report.deleted <= i,
            report.cleaner_id@ == cleaner.spec_id(),
            report.attempted == request.paths.len(),
            report.audit_log_path is None,
            ({
                let t = tally(pv, ov, rv, *env, *fs, i as int);
                &&& report.deleted == t.deleted
                &&& report.freed_bytes == t.freed
                &&& report.failures_seq() == t.failures
                &&& strings_view(gone@) == t.gone
            }),
        decreases request.paths.len() - i,
    {
        assert(pv[i as int] == request.paths@[i as int]@);
        assert(ov[i as int] == outcome_view(removals@[i as int]));
        let ghost before = report.failures_seq();
        let ghost gone_before = strings_view(gone@);
        match decide(request.paths[i].as_str(), &allowed, env, fs, &gone) {
            Ok(size) => {
                match &removals[i] {
                    Ok(()) => {
                        report.deleted = report.deleted + 1;
                        report.freed_bytes = report.freed_bytes.saturating_add(size);
                        gone.push(request.paths[i].clone());
                        assert(strings_view(gone@) =~= gone_before.push(pv[i as int]));
                    },
                    Err(m) => {
                        let f = ExecutionFailure {
                            path: request.paths[i].clone(),
                            message: cat("remove_file failed: ", m.as_str()),
                        };
                        let ghost fv = f@;
                        report.failures.push(f);
                        assert(report.failures_seq() =~= before.push(fv));
                    },
                }
            },
            Err(msg) => {
                let f = ExecutionFailure { path: request.paths[i].clone(), message: msg };
                let ghost fv = f@;
                report.failures.push(f);
                assert(report.failures_seq() =~= before.push(fv));
            },
        }
        i = i + 1;
    }
    report
}

pub open spec fn decision_view(r: Result<u64, String>) -> Result<u64, Seq<char>> {
    match r {
        Ok(n) => Ok(n),
        Err(m) => Err(m@),
    }
}

/// What `try_delete` decides for each requested path, in order, against the
/// cleaner's canonical roots, on the observations taken before any removal.
/// The program removes the paths cleared here and hands back how each removal
/// went to `execute`. A path named again, or one that runs through a path
/// cleared earlier, is cleared here as well; once the earlier one was removed,
/// `execute` reports it as no longer there, and the program's attempt to
/// remove it finds nothing.
pub fn plan_deletions<C: Cleaner>(
    cleaner: &C,
    paths_provider: &HostPaths,
    request: &ExecutionRequest,
    env: &HostEnv,
    fs: &FsSnapshot,
) -> (r: Vec<Result<u64, String>>)
    ensures
        r.len() == request.paths.len(),
        forall|i: int|
            0 <= i < r.len() ==> decision_view(#[trigger] r@[i]) == deletion_check(
                request.paths@[i]@,
                canonical_roots(cleaner.spec_roots(*paths_provider, *fs), *fs),
                *env,
                *fs,
            ),
{
    let allowed = allowed_roots(cleaner, paths_provider, fs);
    let ghost rv = strings_view(allowed@);
    let mut out: Vec<Result<u64, String>> = Vec::new();
    let mut i: usize = 0;
    while i < request.paths.len()
        invariant
            rv == strings_view(allowed@),
            rv == canonical_roots(cleaner.spec_roots(*paths_provider, *fs), *fs),
            i <= request.paths.len(),
            out.len() == i,
            forall|q: int|
                0 <= q < i ==> decision_view(#[trigger] out@[q]) == deletion_check(
                    request.paths@[q]@,
                    rv,
                    *env,
                    *fs,
                ),
        decreases request.paths.len() - i,
    {
        let d = try_delete(request.paths[i].as_str(), &allowed, env, fs);
        out.push(d);
        i = i + 1;
    }
    out
}

/// A path cleared for removal passes the safety check and exists; unless it
/// is a symbolic link, it lies inside one of the allowed roots and is no
/// directory; the size it frees is its own size, never its target's.
pub proof fn lemma_cleared_path_is_deletable(
    p: Seq<char>,
    roots: Seq<Seq<char>>,
    env: HostEnv,
    fs: FsSnapshot,
)
    requires
        deletion_check(p, roots, env, fs) is Ok,
    ensures
        spec_path_safety(p, env, fs) is Ok,
        fs.spec_metadata(p) is Ok,
        deletion_check(p, roots, env, fs)->Ok_0 == fs.spec_metadata(p)->Ok_0.len,
        fs.spec_metadata(p)->Ok_0.kind is Symlink || (within_some_root(p, roots, fs) && !(fs.spec_metadata(
            p,
        )->Ok_0.kind is Dir)),
{
}

/// Conversely, a path that passes the safety check and whose metadata can be
/// read is cleared for removal when it is a symbolic link, or when it is no
/// directory and lies inside one of the allowed roots; it then frees its own
/// size.
pub proof fn lemma_deletable_path_is_cleared(
    p: Seq<char>,
    roots: Seq<Seq<char>>,
    env: HostEnv,
    fs: FsSnapshot,
)
    requires
        spec_path_safety(p, env, fs) is Ok,
        fs.spec_metadata(p) is Ok,
        fs.spec_metadata(p)->Ok_0.kind is Symlink || (within_some_root(p, roots, fs) && !(fs.spec_metadata(
            p,
        )->Ok_0.kind is Dir)),
    ensures
        deletion_check(p, roots, env, fs) == Ok::<u64, Seq<char>>(fs.spec_metadata(p)->Ok_0.len),
{
}

/// Every requested path is accounted for exactly once: it is either counted
/// as deleted or reported as a failure, and every failure names a requested
/// path. A path refused by the checks is reported as a failure, with the
/// reason it was refused (or, if an earlier path of the request removed it,
/// with the failed metadata read).
pub proof fn lemma_tally_accounts(
    paths: Seq<Seq<char>>,
    removals: Seq<Result<(), Seq<char>>>,
    roots: Seq<Seq<char>>,
    env: HostEnv,
    fs: FsSnapshot,
    k: int,
)
    requires
        0 <= k <= paths.len(),
        removals.len() == paths.len(),
    ensures
        tally(paths, removals, roots, env, fs, k).deleted + tally(
            paths,
            removals,
            roots,
            env,
            fs,
            k,
        ).failures.len() == k,
        forall|j: int|
            0 <= j < tally(paths, removals, roots, env, fs, k).failures.len() ==> exists|q: int|
                0 <= q < k && paths[q] == (#[trigger] tally(
                    paths,
                    removals,
                    roots,
                    env,
                    fs,
                    k,
                ).failures[j]).path,
        forall|q: int|
            0 <= q < k && #[trigger] deletion_check(paths[q], roots, env, fs) is Err ==> tally(
                paths,
                removals,
                roots,
                env,
                fs,
                k,
            ).failures.contains(
                FailureView {
                    path: paths[q],
                    message: decision(
                        paths[q],
                        roots,
                        env,
                        fs,
                        tally(paths, removals, roots, env, fs, q).gone,
                    )->Err_0,
                },
            ),
    decreases k,
{
    if k > 0 {
        lemma_tally_accounts(paths, removals, roots, env, fs, k - 1);
        let t0 = tally(paths, removals, roots, env, fs, k - 1);
        let t = tally(paths, removals, roots, env, fs, k);
        assert forall|j: int| 0 <= j < t.failures.len() implies exists|q: int|
            0 <= q < k && paths[q] == (#[trigger] t.failures[j]).path by {
            if j < t0.failures.len() {
                assert(t.failures[j] == t0.failures[j]);
                let q = choose|q: int| 0 <= q < k - 1 && paths[q] == t0.failures[j].path;
            } else {
                assert(t.failures[j].path == paths[k - 1]);
            }
        }
        assert forall|q: int|
            0 <= q < k && #[trigger] deletion_check(paths[q], roots, env, fs) is Err implies t.failures.contains(
            FailureView {
                path: paths[q],
                message: decision(
                    paths[q],
                    roots,
                    env,
                    fs,
                    tally(paths, removals, roots, env, fs, q).gone,
                )->Err_0,
            },
        ) by {
            let f = FailureView {
                path: paths[q],
                message: decision(
                    paths[q],
                    roots,
                    env,
                    fs,
                    tally(paths, removals, roots, env, fs, q).gone,
                )->Err_0,
            };
            if q < k - 1 {
                assert(t0.failures.contains(f));
                let j = choose|j: int| 0 <= j < t0.failures.len() && t0.failures[j] == f;
                assert(t.failures[j] == f);
            } else {
                assert(t.failures[t.failures.len() - 1] == f);
            }
        }
    }
}

/// Every root that canonicalizes has its canonical form among the allowed roots.
proof fn lemma_canonical_roots_contain(roots: Seq<Seq<char>>, fs: FsSnapshot, w: int)
    requires
        0 <= w < roots.len(),
        fs.spec_canonical(roots[w]) is Ok,
    ensures
        canonical_roots(roots, fs).contains(fs.spec_canonical(roots[w])->Ok_0),
    decreases roots.len(),
{
    let init = roots.drop_last();
    let c = fs.spec_canonical(roots[w])->Ok_0;
    if w == roots.len() - 1 {
        assert(roots.last() == roots[w]);
        let cr = canonical_roots(roots, fs);
        assert(cr[cr.len() - 1] == c);
    } else {
        assert(init[w] == roots[w]);
        lemma_canonical_roots_contain(init, fs, w);
        let ci = canonical_roots(init, fs);
        let k = choose|k: int| 0 <= k < ci.len() && ci[k] == c;
        let cr = canonical_roots(roots, fs);
        assert(cr[k] == ci[k]);
    }
}

/// What a scan reports, the executor clears on the same observations: each
/// item passes every check against the cleaner's canonical roots, and frees
/// the size the scan reported.
pub proof fn lemma_scanned_items_are_cleared(roots: Seq<Seq<char>>, env: HostEnv, fs: FsSnapshot)
    ensures
        forall|j: int|
            0 <= j < roots_findings(roots, env, fs).items.len() ==> deletion_check(
                (#[trigger] roots_findings(roots, env, fs).items[j]).path,
                canonical_roots(roots, fs),
                env,
                fs,
            ) == Ok::<u64, Seq<char>>(roots_findings(roots, env, fs).items[j].size),
{
    lemma_scan_reports_only_cleanable(roots, env, fs);
    let items = roots_findings(roots, env, fs).items;
    let allowed = canonical_roots(roots, fs);
    assert forall|j: int| 0 <= j < items.len() implies deletion_check(
        (#[trigger] items[j]).path,
        allowed,
        env,
        fs,
    ) == Ok::<u64, Seq<char>>(items[j].size) by {
        let it = items[j];
        assert(found_under(it, roots, env, fs));
        let w = choose|w: int|
            0 <= w < roots.len() && #[trigger] fs.spec_canonical(roots[w]) is Ok && reportable(
                it,
                fs.spec_canonical(roots[w])->Ok_0,
                env,
                fs,
            );
        let c = fs.spec_canonical(roots[w])->Ok_0;
        lemma_canonical_roots_contain(roots, fs, w);
        let k = choose|k: int| 0 <= k < allowed.len() && allowed[k] == c;
        if !it.is_symlink {
            assert(spec_within_root(it.path, allowed[k], fs) is Ok);
            assert(within_some_root(it.path, allowed, fs));
        }
    }
}

/// The audit log records every execution as it was tallied: the record built
/// from `execute`'s report holds the request's size, the deletions, the bytes
/// freed and every failure in order, and every requested path is either
/// deleted or among those failures; once the outcome of writing it is
/// recorded, the report names the log, or carries one more failure that says
/// why the log could not be written.
pub proof fn lemma_audit_follows_execution(
    paths: Seq<Seq<char>>,
    removals: Seq<Result<(), Seq<char>>>,
    roots: Seq<Seq<char>>,
    env: HostEnv,
    fs: FsSnapshot,
    r: ExecutionReport,
    rec: AuditRecord,
    outcome: Result<String, String>,
    after: ExecutionReport,
)
    requires
        removals.len() == paths.len(),
        r.attempted == paths.len(),
        r.deleted == tally(paths, removals, roots, env, fs, paths.len() as int).deleted,
        r.freed_bytes == tally(paths, removals, roots, env, fs, paths.len() as int).freed,
        r.failures_seq() == tally(paths, removals, roots, env, fs, paths.len() as int).failures,
        r.audit_log_path is None,
        records(rec, r),
        audit_recorded(r, after, outcome),
    ensures
        ({
            let t = tally(paths, removals, roots, env, fs, paths.len() as int);
            &&& rec.attempted == paths.len()
            &&& rec.deleted == t.deleted
            &&& rec.freed_bytes == t.freed
            &&& audit_failures_view(rec.failures@) == t.failures
            &&& rec.deleted + rec.failures.len() == rec.attempted
            &&& after.deleted == rec.deleted
            &&& after.freed_bytes == rec.freed_bytes
            &&& match outcome {
                Ok(p) => after.audit_log_path == Some(p) && after.failures_seq() == t.failures,
                Err(e) => after.audit_log_path is None && after.failures_seq() == t.failures.push(
                    FailureView {
                        path: "<audit-log>"@,
                        message: "failed to write audit log: "@ + e@,
                    },
                ),
            }
        }),
{
    lemma_tally_accounts(paths, removals, roots, env, fs, paths.len() as int);
    assert(audit_failures_view(rec.failures@).len() == rec.failures@.len());
}

/// Whether the `q`-th requested path was deleted: cleared, then removed.
pub open spec fn deleted_at(
    paths: Seq<Seq<char>>,
    removals: Seq<Result<(), Seq<char>>>,
    roots: Seq<Seq<char>>,
    env: HostEnv,
    fs: FsSnapshot,
    q: int,
) -> bool {
    &&& decision(paths[q], roots, env, fs, tally(paths, removals, roots, env, fs, q).gone) is Ok
    &&& removals[q] is Ok
}

/// The first `k` requested paths that were not deleted, in request order.
pub open spec fn undeleted(
    paths: Seq<Seq<char>>,
    removals: Seq<Result<(), Seq<char>>>,
    roots: Seq<Seq<char>>,
    env: HostEnv,
    fs: FsSnapshot,
    k: int,
) -> Seq<Seq<char>>
    decreases k,
{
    if k <= 0 {
        seq![]
    } else {
        undeleted(paths, removals, roots, env, fs, k - 1) + if deleted_at(
            paths,
            removals,
            roots,
            env,
            fs,
            k - 1,
        ) {
            Seq::<Seq<char>>::empty()
        } else {
            seq![paths[k - 1]]
        }
    }
}

/// The sizes, as `symlink_metadata` reported them before any removal, of the
/// first `k` requested paths that were deleted, in request order.
pub open spec fn deleted_sizes(
    paths: Seq<Seq<char>>,
    removals: Seq<Result<(), Seq<char>>>,
    roots: Seq<Seq<char>>,
    env: HostEnv,
    fs: FsSnapshot,
    k: int,
) -> Seq<u64>
    decreases k,
{
    if k <= 0 {
        seq![]
    } else {
        deleted_sizes(paths, removals, roots, env, fs, k - 1) + if deleted_at(
            paths,
            removals,
            roots,
            env,
            fs,
            k - 1,
        ) {
            seq![fs.spec_metadata(paths[k - 1])->Ok_0.len]
        } else {
            Seq::<u64>::empty()
        }
    }
}

/// The sizes added up, stopping at `u64::MAX` instead of overflowing.
pub open spec fn saturating_sum(s: Seq<u64>) -> u64
    decreases s.len(),
{
    if s.len() == 0 {
        0
    } else {
        sat_add(saturating_sum(s.drop_last()), s.last())
    }
}

/// After an execution, the failures name exactly the requested paths that
/// were not deleted, in request order; the count of deletions is the number
/// of paths deleted, and the bytes freed are the saturating sum of their sizes
/// as `symlink_metadata` reported them before the call.
pub proof fn lemma_tally_is_the_undeleted_paths(
    paths: Seq<Seq<char>>,
    removals: Seq<Result<(), Seq<char>>>,
    roots: Seq<Seq<char>>,
    env: HostEnv,
    fs: FsSnapshot,
    k: int,
)
    requires
        0 <= k <= paths.len(),
        removals.len() == paths.len(),
    ensures
        tally(paths, removals, roots, env, fs, k).failures.map_values(|f: FailureView| f.path)
            == undeleted(paths, removals, roots, env, fs, k),
        tally(paths, removals, roots, env, fs, k).deleted == deleted_sizes(
            paths,
            removals,
            roots,
            env,
            fs,
            k,
        ).len(),
        tally(paths, removals, roots, env, fs, k).freed == saturating_sum(
            deleted_sizes(paths, removals, roots, env, fs, k),
        ),
    decreases k,
{
    if k > 0 {
        lemma_tally_is_the_undeleted_paths(paths, removals, roots, env, fs, k - 1);
        let t0 = tally(paths, removals, roots, env, fs, k - 1);
        let t = tally(paths, removals, roots, env, fs, k);
        let p = paths[k - 1];
        let d = decision(p, roots, env, fs, t0.gone);
        let s0 = deleted_sizes(paths, removals, roots, env, fs, k - 1);
        let s = deleted_sizes(paths, removals, roots, env, fs, k);
        if deleted_at(paths, removals, roots, env, fs, k - 1) {
            assert(d == deletion_check(p, roots, env, fs));
            lemma_cleared_path_is_deletable(p, roots, env, fs);
            assert(t.failures == t0.failures);
            assert(s.drop_last() =~= s0);
            assert(undeleted(paths, removals, roots, env, fs, k) =~= undeleted(
                paths,
                removals,
                roots,
                env,
                fs,
                k - 1,
            ));
        } else {
            assert(s =~= s0);
            let fp = |f: FailureView| f.path;
            assert(t.failures.map_values(fp) =~= t0.failures.map_values(fp).push(p));
        }
    }
}

} // verus!
