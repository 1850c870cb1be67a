//! What the program has observed of the file system.
//!
//! The library never touches the disk. The program records, for each path it
//! probed, what `Path::exists`, `Path::is_dir`, `Path::canonicalize`,
//! `fs::symlink_metadata` and `fs::read_dir` answered, and hands the record
//! over as an `FsSnapshot`. A path that was not probed counts as absent.
use vstd::prelude::*;
use crate::pathname::{Comp, Component, chars_of, comps_prefix_equal, comps_view, components, components_of, is_plain_name, is_sep};
use crate::platform::{Os, is_windows, os_is_windows};

verus! {

/// The type of a file system object, without following a symbolic link.
#[derive(Clone, Copy, Debug, PartialEq, Eq, Structural)]
pub enum EntryKind {
    File,
    Dir,
    Symlink,
    Other,
}

/// What `fs::symlink_metadata` reports: the object's type and its length.
#[derive(Clone, Copy, Debug, PartialEq, Eq, Structural)]
pub struct Metadata {
    pub kind: EntryKind,
    pub len: u64,
}

/// An I/O error: whether its kind was "not found", and its message.
#[derive(Clone, Debug)]
pub struct IoFailure {
    pub not_found: bool,
    pub message: String,
}

pub struct IoFailureView {
    pub not_found: bool,
    pub message: Seq<char>,
}

impl View for IoFailure {
    type V = IoFailureView;

    open spec fn view(&self) -> IoFailureView {
        IoFailureView { not_found: self.not_found, message: self.message@ }
    }
}

/// What was observed of one path.
#[derive(Debug)]
pub struct FsEntry {
    pub path: String,
    /// `Path::exists`, which follows symbolic links.
    pub exists: bool,
    /// `Path::is_dir`, which follows symbolic links.
    pub is_dir: bool,
    /// `Path::canonicalize`.
    pub canonical: Result<String, IoFailure>,
    /// `fs::symlink_metadata`.
    pub metadata: Result<Metadata, IoFailure>,
    /// The file names that `fs::read_dir` listed, in its order.
    pub listing: Result<Vec<String>, IoFailure>,
}

pub struct FsEntryView {
    pub path: Seq<char>,
    pub exists: bool,
    pub is_dir: bool,
    pub canonical: Result<Seq<char>, IoFailureView>,
    pub metadata: Result<Metadata, IoFailureView>,
    pub listing: Result<Seq<Seq<char>>, IoFailureView>,
}

pub open spec fn strings_view(v: Seq<String>) -> Seq<Seq<char>> {
    v.map_values(|s: String| s@)
}

pub open spec fn string_result_view(r: Result<String, IoFailure>) -> Result<Seq<char>, IoFailureView> {
    match r {
        Ok(s) => Ok(s@),
        Err(e) => Err(e@),
    }
}

pub open spec fn meta_result_view(r: Result<Metadata, IoFailure>) -> Result<Metadata, IoFailureView> {
    match r {
        Ok(m) => Ok(m),
        Err(e) => Err(e@),
    }
}

pub open spec fn listing_result_view(r: Result<Vec<String>, IoFailure>) -> Result<
    Seq<Seq<char>>,
    IoFailureView,
> {
    match r {
        Ok(v) => Ok(strings_view(v@)),
        Err(e) => Err(e@),
    }
}

impl View for FsEntry {
    type V = FsEntryView;

    open spec fn view(&self) -> FsEntryView {
        FsEntryView {
            path: self.path@,
            exists: self.exists,
            is_dir: self.is_dir,
            canonical: string_result_view(self.canonical),
            metadata: meta_result_view(self.metadata),
            listing: listing_result_view(self.listing),
        }
    }
}

/// The error that stands for an unprobed path: "not found", in the words of
/// the system.
pub open spec fn absent_failure(win: bool) -> IoFailureView {
    IoFailureView {
        not_found: true,
        message: if win {
            "The system cannot find the file specified. (os error 2)"@
        } else {
            "No such file or directory (os error 2)"@
        },
    }
}

/// A listing as it is kept: only the names that a directory can hold.
pub open spec fn plain_names(names: Seq<Seq<char>>, win: bool) -> Seq<Seq<char>> {
    names.filter(|n: Seq<char>| is_plain_name(n, win))
}

pub open spec fn kept_entry(e: FsEntryView, win: bool) -> FsEntryView {
    FsEntryView {
        listing: match e.listing {
            Ok(names) => Ok(plain_names(names, win)),
            Err(f) => Err(f),
        },
        ..e
    }
}

pub open spec fn is_first_match(es: Seq<FsEntryView>, key: Seq<Comp>, win: bool, i: int) -> bool {
    &&& 0 <= i < es.len()
    &&& components(es[i].path, win) == key
    &&& forall|j: int| 0 <= j < i ==> components(#[trigger] es[j].path, win) != key
}

/// The first observation of the path with these components.
pub open spec fn lookup_in(es: Seq<FsEntryView>, key: Seq<Comp>, win: bool) -> Option<FsEntryView> {
    if exists|i: int| is_first_match(es, key, win, i) {
        Some(es[choose|i: int| is_first_match(es, key, win, i)])
    } else {
        None
    }
}

pub open spec fn listing_is_plain(e: FsEntry, win: bool) -> bool {
    match e.listing {
        Ok(names) => forall|k: int| 0 <= k < names.len() ==> is_plain_name(#[trigger] names@[k]@, win),
        Err(_) => true,
    }
}

/// The greatest number of components among the observed paths.
pub open spec fn depth_bound(es: Seq<FsEntryView>, win: bool) -> nat
    decreases es.len(),
{
    if es.len() == 0 {
        0
    } else {
        let d = depth_bound(es.drop_last(), win);
        let l = components(es.last().path, win).len();
        if d >= l {
            d
        } else {
            l
        }
    }
}

proof fn lemma_depth_bound(es: Seq<FsEntryView>, win: bool, i: int)
    requires
        0 <= i < es.len(),
    ensures
        components(es[i].path, win).len() <= depth_bound(es, win),
    decreases es.len(),
{
    if i < es.len() - 1 {
        lemma_depth_bound(es.drop_last(), win, i);
        assert(es.drop_last()[i] == es[i]);
    }
}

pub struct FsSnapshot {
    os: Os,
    entries: Vec<FsEntry>,
    keys: Vec<Vec<Component>>,
}

impl FsSnapshot {
    pub closed spec fn spec_os(&self) -> Os {
        self.os
    }

    pub closed spec fn spec_entries(&self) -> Seq<FsEntryView> {
        self.entries@.map_values(|e: FsEntry| e@)
    }

    pub open spec fn win(&self) -> bool {
        is_windows(self.spec_os())
    }

    #[verifier::type_invariant]
    closed spec fn wf(&self) -> bool {
        &&& self.keys.len() == self.entries.len()
        &&& forall|i: int|
            0 <= i < self.keys.len() ==> comps_view(#[trigger] self.keys@[i]@) == components(
                self.entries@[i].path@,
                is_windows(self.os),
            )
        &&& forall|i: int|
            0 <= i < self.entries.len() ==> listing_is_plain(
                #[trigger] self.entries@[i],
                is_windows(self.os),
            )
    }

    /// No observed path has more components than this.
    pub open spec fn depth(&self) -> nat {
        depth_bound(self.spec_entries(), self.win())
    }

    /// A path that was observed has no more components than the bound.
    pub proof fn lemma_observed_within_depth(&self, p: Seq<char>)
        ensures
            self.lookup(p) is Some ==> components(p, self.win()).len() <= self.depth(),
    {
        let es = self.spec_entries();
        let key = components(p, self.win());
        if exists|i: int| is_first_match(es, key, self.win(), i) {
            let i = choose|i: int| is_first_match(es, key, self.win(), i);
            lemma_depth_bound(es, self.win(), i);
        }
    }

    /// A directory listing holds only plain file names.
    pub proof fn lemma_listing_plain(&self, p: Seq<char>)
        ensures
            self.spec_listing(p) is Ok ==> forall|k: int|
                0 <= k < self.spec_listing(p)->Ok_0.len() ==> is_plain_name(
                    #[trigger] self.spec_listing(p)->Ok_0[k],
                    self.win(),
                ),
    {
        if self.spec_listing(p) is Ok {
            let raw = self.lookup(p)->Some_0.listing->Ok_0;
            let pred = |n: Seq<char>| is_plain_name(n, self.win());
            assert(self.spec_listing(p)->Ok_0 == raw.filter(pred));
            assert forall|k: int| 0 <= k < self.spec_listing(p)->Ok_0.len() implies is_plain_name(
                #[trigger] self.spec_listing(p)->Ok_0[k],
                self.win(),
            ) by {
                raw.lemma_filter_pred(pred, k);
            }
        }
    }

    pub open spec fn lookup_key(&self, key: Seq<Comp>) -> Option<FsEntryView> {
        lookup_in(self.spec_entries(), key, self.win())
    }

    pub open spec fn lookup(&self, p: Seq<char>) -> Option<FsEntryView> {
        self.lookup_key(components(p, self.win()))
    }

    pub open spec fn exists_key(&self, key: Seq<Comp>) -> bool {
        match self.lookup_key(key) {
            Some(e) => e.exists,
            None => false,
        }
    }

    pub open spec fn canonical_key(&self, key: Seq<Comp>) -> Result<Seq<char>, IoFailureView> {
        match self.lookup_key(key) {
            Some(e) => e.canonical,
            None => Err(absent_failure(self.win())),
        }
    }

    pub open spec fn spec_exists(&self, p: Seq<char>) -> bool {
        match self.lookup(p) {
            Some(e) => e.exists,
            None => false,
        }
    }

    pub open spec fn spec_is_dir(&self, p: Seq<char>) -> bool {
        match self.lookup(p) {
            Some(e) => e.is_dir,
            None => false,
        }
    }

    pub open spec fn spec_canonical(&self, p: Seq<char>) -> Result<Seq<char>, IoFailureView> {
        match self.lookup(p) {
            Some(e) => e.canonical,
            None => Err(absent_failure(self.win())),
        }
    }

    pub open spec fn spec_metadata(&self, p: Seq<char>) -> Result<Metadata, IoFailureView> {
        match self.lookup(p) {
            Some(e) => e.metadata,
            None => Err(absent_failure(self.win())),
        }
    }

    /// The listing, holding only the names that a directory can hold.
    pub open spec fn spec_listing(&self, p: Seq<char>) -> Result<Seq<Seq<char>>, IoFailureView> {
        match self.lookup(p) {
            Some(e) => match e.listing {
                Ok(names) => Ok(plain_names(names, self.win())),
                Err(f) => Err(f),
            },
            None => Err(absent_failure(self.win())),
        }
    }

    /// Records the observations; listed names that no directory can hold are dropped.
    pub fn new(os: Os, entries: Vec<FsEntry>) -> (r: Self)
        ensures
            r.spec_os() == os,
            r.spec_entries() == entries@.map_values(|e: FsEntry| kept_entry(e@, is_windows(os))),
    {
        let win = os_is_windows(os);
        let mut kept: Vec<FsEntry> = Vec::new();
        let mut keys: Vec<Vec<Component>> = Vec::new();
        let mut i: usize = 0;
        while i < entries.len()
            invariant
                win == is_windows(os),
                i <= entries.len(),
                kept.len() == i,
                keys.len() == i,
                forall|j: int|
                    0 <= j < i ==> comps_view(#[trigger] keys@[j]@) == components(
                        kept@[j].path@,
                        win,
                    ),
                forall|j: int| 0 <= j < i ==> listing_is_plain(#[trigger] kept@[j], win),
                forall|j: int|
                    0 <= j < i ==> (#[trigger] kept@[j])@ == kept_entry(entries@[j]@, win),
            decreases entries.len() - i,
        {
            let e = &entries[i];
            let listing = match &e.listing {
                Ok(names) => Ok(keep_plain_names(names, win)),
                Err(f) => Err(IoFailure { not_found: f.not_found, message: f.message.clone() }),
            };
            let k = FsEntry {
                path: e.path.clone(),
                exists: e.exists,
                is_dir: e.is_dir,
                canonical: clone_string_result(&e.canonical),
                metadata: clone_meta_result(&e.metadata),
                listing,
            };
            assert(k@ == kept_entry(e@, win));
            keys.push(components_of(k.path.as_str(), win));
            kept.push(k);
            i = i + 1;
        }
        assert(kept@.map_values(|e: FsEntry| e@) =~= entries@.map_values(
            |e: FsEntry| kept_entry(e@, is_windows(os)),
        ));
        FsSnapshot { os, entries: kept, keys }
    }

    pub fn os(&self) -> (r: Os)
        ensures
            r == self.spec_os(),
    {
        self.os
    }

    /// The index of the first observation of the path whose components are
    /// the first `k` of `key`.
    fn find_key(&self, key: &Vec<Component>, k: usize) -> (r: Option<usize>)
        requires
            k <= key.len(),
        ensures
            match r {
                Some(i) => is_first_match(
                    self.spec_entries(),
                    comps_view(key@).take(k as int),
                    self.win(),
                    i as int,
                ) && self.lookup_key(comps_view(key@).take(k as int)) == Some(
                    self.spec_entries()[i as int],
                ) && i < self.entries@.len() && self.spec_entries()[i as int]
                    == self.entries@[i as int]@,
                None => self.lookup_key(comps_view(key@).take(k as int)) is None,
            },
    {
        proof {
            use_type_invariant(self);
        }
        let win = os_is_windows(self.os);
        let ghost es = self.spec_entries();
        let ghost kv = comps_view(key@).take(k as int);
        let mut i: usize = 0;
        while i < self.keys.len()
            invariant
                win == self.win(),
                k <= key.len(),
                kv == comps_view(key@).take(k as int),
                es == self.spec_entries(),
                es.len() == self.entries.len(),
                self.keys.len() == self.entries.len(),
                forall|j: int|
                    0 <= j < self.keys.len() ==> comps_view(#[trigger] self.keys@[j]@)
                        == components(self.entries@[j].path@, win),
                i <= self.keys.len(),
                forall|j: int| 0 <= j < i ==> components(#[trigger] es[j].path, win) != kv,
            decreases self.keys.len() - i,
        {
            assert(es[i as int] == self.entries@[i as int]@);
            assert(comps_view(self.keys@[i as int]@) == components(self.entries@[i as int].path@, win));
            let eq = comps_prefix_equal(&self.keys[i], key, k);
            if eq {
                assert(is_first_match(es, kv, win, i as int));
                let ghost c = choose|c: int| is_first_match(es, kv, win, c);
                assert(c == i) by {
                    if c < i {
                        assert(components(es[c].path, win) != kv);
                    } else if c > i {
                        assert(components(es[i as int].path, win) != kv);
                    }
                }
                return Some(i);
            }
            i = i + 1;
        }
        assert(!exists|c: int| is_first_match(es, kv, win, c));
        None
    }

    /// The index of the first observation of the path.
    fn find(&self, p: &str) -> (r: Option<usize>)
        ensures
            match r {
                Some(i) => self.lookup(p@) == Some(self.spec_entries()[i as int]) && i
                    < self.entries@.len() && self.spec_entries()[i as int] == self.entries@[i as int]@,
                None => self.lookup(p@) is None,
            },
    {
        let key = components_of(p, os_is_windows(self.os));
        assert(comps_view(key@).take(key.len() as int) =~= comps_view(key@));
        self.find_key(&key, key.len())
    }

    /// Whether the path made of the first `k` components exists.
    pub fn exists_prefix(&self, key: &Vec<Component>, k: usize) -> (r: bool)
        requires
            k <= key.len(),
        ensures
            r == self.exists_key(comps_view(key@).take(k as int)),
    {
        match self.find_key(key, k) {
            Some(i) => self.entries[i].exists,
            None => false,
        }
    }

    /// The canonical form of the path made of the first `k` components.
    pub fn canonicalize_prefix(&self, key: &Vec<Component>, k: usize) -> (r: Result<String, IoFailure>)
        requires
            k <= key.len(),
        ensures
            string_result_view(r) == self.canonical_key(comps_view(key@).take(k as int)),
    {
        match self.find_key(key, k) {
            Some(i) => clone_string_result(&self.entries[i].canonical),
            None => Err(absent(os_is_windows(self.os))),
        }
    }

    pub fn path_exists(&self, p: &str) -> (r: bool)
        ensures
            r == self.spec_exists(p@),
    {
        match self.find(p) {
            Some(i) => self.entries[i].exists,
            None => false,
        }
    }

    pub fn is_dir(&self, p: &str) -> (r: bool)
        ensures
            r == self.spec_is_dir(p@),
    {
        match self.find(p) {
            Some(i) => self.entries[i].is_dir,
            None => false,
        }
    }

    pub fn canonicalize(&self, p: &str) -> (r: Result<String, IoFailure>)
        ensures
            string_result_view(r) == self.spec_canonical(p@),
    {
        match self.find(p) {
            Some(i) => clone_string_result(&self.entries[i].canonical),
            None => Err(absent(os_is_windows(self.os))),
        }
    }

    pub fn symlink_metadata(&self, p: &str) -> (r: Result<Metadata, IoFailure>)
        ensures
            meta_result_view(r) == self.spec_metadata(p@),
    {
        match self.find(p) {
            Some(i) => clone_meta_result(&self.entries[i].metadata),
            None => Err(absent(os_is_windows(self.os))),
        }
    }

    pub fn read_dir(&self, p: &str) -> (r: Result<Vec<String>, IoFailure>)
        ensures
            listing_result_view(r) == self.spec_listing(p@),
    {
        proof {
            use_type_invariant(self);
        }
        match self.find(p) {
            Some(i) => match &self.entries[i].listing {
                Ok(names) => {
                    assert(listing_is_plain(self.entries@[i as int], self.win()));
                    assert forall|k: int| 0 <= k < names@.len() implies is_plain_name(
                        #[trigger] strings_view(names@)[k],
                        self.win(),
                    ) by {
                        assert(strings_view(names@)[k] == names@[k]@);
                    }
                    proof {
                        lemma_filter_all_plain(strings_view(names@), self.win());
                    }
                    Ok(clone_strings(names))
                },
                Err(f) => Err(IoFailure { not_found: f.not_found, message: f.message.clone() }),
            },
            None => Err(absent(os_is_windows(self.os))),
        }
    }
}

proof fn lemma_filter_all_plain(s: Seq<Seq<char>>, win: bool)
    requires
        forall|k: int| 0 <= k < s.len() ==> is_plain_name(#[trigger] s[k], win),
    ensures
        plain_names(s, win) == s,
    decreases s.len(),
{
    reveal_with_fuel(Seq::filter, 1);
    if s.len() > 0 {
        let t = s.drop_last();
        assert forall|k: int| 0 <= k < t.len() implies is_plain_name(#[trigger] t[k], win) by {
            assert(t[k] == s[k]);
        }
        lemma_filter_all_plain(t, win);
        assert(is_plain_name(s[s.len() - 1], win));
        assert(t.push(s.last()) =~= s);
    } else {
        assert(s.filter(|n: Seq<char>| is_plain_name(n, win)) =~= s);
    }
}

/// The error that stands for a path that is not there.
pub fn absent(win: bool) -> (r: IoFailure)
    ensures
        r@ == absent_failure(win),
{
    let m = if win {
        "The system cannot find the file specified. (os error 2)"
    } else {
        "No such file or directory (os error 2)"
    };
    IoFailure { not_found: true, message: m.to_owned() }
}

pub fn clone_strings(v: &Vec<String>) -> (r: Vec<String>)
    ensures
        strings_view(r@) == strings_view(v@),
{
    let mut r: Vec<String> = Vec::new();
    let mut i: usize = 0;
    while i < v.len()
        invariant
            i <= v.len(),
            strings_view(r@) == strings_view(v@.take(i as int)),
        decreases v.len() - i,
    {
        let ghost before = r@;
        r.push(v[i].clone());
        assert(r@ == before.push(v@[i as int]));
        assert(v@.take(i + 1) == v@.take(i as int).push(v@[i as int]));
        assert(strings_view(r@) =~= strings_view(before).push(v@[i as int]@));
        assert(strings_view(v@.take(i + 1)) =~= strings_view(v@.take(i as int)).push(v@[i as int]@));
        i = i + 1;
    }
    assert(v@.take(v.len() as int) =~= v@);
    r
}

fn clone_string_result(r: &Result<String, IoFailure>) -> (c: Result<String, IoFailure>)
    ensures
        string_result_view(c) == string_result_view(*r),
{
    match r {
        Ok(s) => Ok(s.clone()),
        Err(e) => Err(IoFailure { not_found: e.not_found, message: e.message.clone() }),
    }
}

fn clone_meta_result(r: &Result<Metadata, IoFailure>) -> (c: Result<Metadata, IoFailure>)
    ensures
        meta_result_view(c) == meta_result_view(*r),
{
    match r {
        Ok(m) => Ok(*m),
        Err(e) => Err(IoFailure { not_found: e.not_found, message: e.message.clone() }),
    }
}

fn is_plain_name_exec(n: &str, win: bool) -> (r: bool)
    ensures
        r == is_plain_name(n@, win),
{
    let cs = chars_of(n);
    let len = cs.len();
    if len == 0 {
        return false;
    }
    if len == 1 && cs[0] == '.' {
        assert(n@ =~= seq!['.']);
        return false;
    }
    if len == 1 {
        assert(n@ != seq!['.']) by {
            assert(n@[0] != '.');
        }
    } else {
        assert(n@.len() != 1);
    }
    let mut i: usize = 0;
    while i < len
        invariant
            len == cs.len(),
            cs@ == n@,
            i <= len,
            forall|j: int| 0 <= j < i ==> !is_sep(#[trigger] cs@[j], win),
        decreases len - i,
    {
        if cs[i] == '/' || (win && cs[i] == '\\') {
            return false;
        }
        i = i + 1;
    }
    if win && len >= 2 && (('a' <= cs[0] && cs[0] <= 'z') || ('A' <= cs[0] && cs[0] <= 'Z'))
        && cs[1] == ':' {
        return false;
    }
    true
}

fn keep_plain_names(names: &Vec<String>, win: bool) -> (r: Vec<String>)
    ensures
        strings_view(r@) == plain_names(strings_view(names@), win),
        forall|k: int| 0 <= k < r.len() ==> is_plain_name(#[trigger] r@[k]@, win),
{
    let mut r: Vec<String> = Vec::new();
    let mut i: usize = 0;
    while i < names.len()
        invariant
            i <= names.len(),
            strings_view(r@) == plain_names(strings_view(names@.take(i as int)), win),
            forall|k: int| 0 <= k < r.len() ==> is_plain_name(#[trigger] r@[k]@, win),
        decreases names.len() - i,
    {
        let ghost before = strings_view(names@.take(i as int));
        assert(strings_view(names@.take(i + 1)) =~= before.push(names@[i as int]@));
        proof {
            reveal_with_fuel(Seq::filter, 1);
        }
        assert(before.push(names@[i as int]@).drop_last() =~= before);
        if is_plain_name_exec(names[i].as_str(), win) {
            r.push(names[i].clone());
            assert(strings_view(r@) =~= plain_names(before, win).push(names@[i as int]@));
        } else {
            assert(strings_view(r@) =~= plain_names(before, win));
        }
        i = i + 1;
    }
    assert(names@.take(names.len() as int) =~= names@);
    r
}

} // verus!
