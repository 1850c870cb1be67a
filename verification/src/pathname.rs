//! Path names as the host operating system reads them.
//!
//! A path is a string. Its meaning is the sequence of its components, parsed
//! the way Rust's `std::path` parses them: on Unix-like systems `/` separates
//! components; on Windows both `/` and `\` do, and a leading drive letter such
//! as `C:`, or the verbatim drive `\\?\C:` that `canonicalize` returns there,
//! is a prefix component. Two paths are equal when their components are.
//!
//! Inside a verbatim path `std` treats only `\` as a separator and keeps `.`
//! as a component; here verbatim paths are split like the others. The two
//! readings agree on every path that `canonicalize` returns and on those built
//! from them by pushing file names.
//!
//! Only these two prefixes are read. A network or device prefix
//! (`\\server\share`, `\\?\UNC\server\share`, `\\.\COM1`, `\\?\name`) is not:
//! such a path reads as a rooted path without a prefix, which on Windows is
//! not absolute, so the safety check refuses it.
use vstd::prelude::*;
use vstd::string::*;

verus! {

/// One component of a parsed path, as a mathematical value.
pub enum Comp {
    /// A drive prefix such as `C:`, holding the upper-case drive letter.
    Prefix(char),
    /// A verbatim drive prefix such as `\\?\C:`, holding the upper-case drive letter.
    Verbatim(char),
    Root,
    Cur,
    Parent,
    Normal(Seq<char>),
}

/// One component of a parsed path.
#[derive(Clone, Debug)]
pub enum Component {
    Prefix(char),
    VerbatimDisk(char),
    RootDir,
    CurDir,
    ParentDir,
    Normal(String),
}

impl View for Component {
    type V = Comp;

    open spec fn view(&self) -> Comp {
        match self {
            Component::Prefix(c) => Comp::Prefix(*c),
            Component::VerbatimDisk(c) => Comp::Verbatim(*c),
            Component::RootDir => Comp::Root,
            Component::CurDir => Comp::Cur,
            Component::ParentDir => Comp::Parent,
            Component::Normal(s) => Comp::Normal(s@),
        }
    }
}

pub open spec fn comps_view(v: Seq<Component>) -> Seq<Comp> {
    v.map_values(|c: Component| c@)
}

pub open spec fn is_sep(c: char, win: bool) -> bool {
    c == '/' || (win && c == '\\')
}

pub open spec fn is_ascii_letter(c: char) -> bool {
    ('a' <= c && c <= 'z') || ('A' <= c && c <= 'Z')
}

pub open spec fn upper(c: char) -> char {
    if 'a' <= c && c <= 'z' {
        ((c as int) - 32) as char
    } else {
        c
    }
}

/// The path starts with a drive prefix (`C:`), which only Windows knows.
pub open spec fn has_drive(s: Seq<char>, win: bool) -> bool {
    win && s.len() >= 2 && is_ascii_letter(s[0]) && s[1] == ':'
}

/// The path starts with a verbatim drive prefix (`\\?\C:`), which only
/// Windows knows.
pub open spec fn has_vdisk(s: Seq<char>, win: bool) -> bool {
    &&& win
    &&& s.len() >= 6
    &&& s[0] == '\\'
    &&& s[1] == '\\'
    &&& s[2] == '?'
    &&& s[3] == '\\'
    &&& is_ascii_letter(s[4])
    &&& s[5] == ':'
}

pub open spec fn has_prefix(s: Seq<char>, win: bool) -> bool {
    has_drive(s, win) || has_vdisk(s, win)
}

/// How many characters the prefix takes.
pub open spec fn plen(s: Seq<char>, win: bool) -> int {
    if has_vdisk(s, win) {
        6
    } else if has_drive(s, win) {
        2
    } else {
        0
    }
}

/// What follows the prefix.
pub open spec fn body(s: Seq<char>, win: bool) -> Seq<char> {
    s.skip(plen(s, win))
}

pub open spec fn has_root(s: Seq<char>, win: bool) -> bool {
    let b = body(s, win);
    b.len() > 0 && is_sep(b[0], win)
}

/// A relative path that starts with `.` keeps it as its first component.
pub open spec fn has_leading_cur(s: Seq<char>, win: bool) -> bool {
    let b = body(s, win);
    !has_root(s, win) && !has_vdisk(s, win) && b.len() >= 1 && b[0] == '.' && (b.len() == 1 || is_sep(b[1], win))
}

/// The maximal runs of non-separator characters, in order.
pub open spec fn split_segs(s: Seq<char>, win: bool) -> Seq<Seq<char>>
    decreases s.len(),
{
    if s.len() == 0 {
        seq![]
    } else {
        let p = s.drop_last();
        let c = s.last();
        let r = split_segs(p, win);
        if is_sep(c, win) {
            r
        } else if p.len() > 0 && !is_sep(p.last(), win) {
            r.update(r.len() - 1, r.last().push(c))
        } else {
            r.push(seq![c])
        }
    }
}

/// The components that the segments stand for: `.` vanishes, `..` is the parent.
pub open spec fn seg_comps(segs: Seq<Seq<char>>) -> Seq<Comp>
    decreases segs.len(),
{
    if segs.len() == 0 {
        seq![]
    } else {
        let rest = seg_comps(segs.drop_last());
        let g = segs.last();
        if g == seq!['.'] {
            rest
        } else if g == seq!['.', '.'] {
            rest.push(Comp::Parent)
        } else {
            rest.push(Comp::Normal(g))
        }
    }
}

pub open spec fn prefix_comps(s: Seq<char>, win: bool) -> Seq<Comp> {
    if has_vdisk(s, win) {
        seq![Comp::Verbatim(upper(s[4]))]
    } else if has_drive(s, win) {
        seq![Comp::Prefix(upper(s[0]))]
    } else {
        seq![]
    }
}

pub open spec fn head_comps(s: Seq<char>, win: bool) -> Seq<Comp> {
    prefix_comps(s, win) + (if has_root(s, win) {
        seq![Comp::Root]
    } else {
        seq![]
    }) + (if has_leading_cur(s, win) {
        seq![Comp::Cur]
    } else {
        seq![]
    })
}

/// The components of a path.
pub open spec fn components(s: Seq<char>, win: bool) -> Seq<Comp> {
    head_comps(s, win) + seg_comps(split_segs(body(s, win), win))
}

/// Absolute: rooted, and on Windows also with a drive prefix; a verbatim
/// prefix is rooted by itself.
pub open spec fn is_absolute(s: Seq<char>, win: bool) -> bool {
    if win {
        (has_drive(s, win) && has_root(s, win)) || has_vdisk(s, win)
    } else {
        has_root(s, win)
    }
}

pub open spec fn same_path(a: Seq<char>, b: Seq<char>, win: bool) -> bool {
    components(a, win) == components(b, win)
}

pub open spec fn main_sep(win: bool) -> char {
    if win {
        '\\'
    } else {
        '/'
    }
}

/// Whether pushing a relative path onto `a` puts a separator in between.
pub open spec fn needs_sep(a: Seq<char>, win: bool) -> bool {
    a.len() > 0 && !is_sep(a.last(), win) && !(has_drive(a, win) && a.len() == 2)
}

/// `a` with `b` pushed onto it, as `PathBuf::push` does.
pub open spec fn join(a: Seq<char>, b: Seq<char>, win: bool) -> Seq<char> {
    if is_absolute(b, win) || has_prefix(b, win) {
        b
    } else if has_root(b, win) {
        a.take(plen(a, win)) + b
    } else if needs_sep(a, win) {
        a.push(main_sep(win)) + b
    } else {
        a + b
    }
}

/// The last component, when it is a normal one.
pub open spec fn file_name(c: Seq<Comp>) -> Option<Seq<char>> {
    if c.len() > 0 && c.last() is Normal {
        Some(c.last()->Normal_0)
    } else {
        None
    }
}

/// The text of one component that follows a prefix.
pub open spec fn render_comp(c: Comp, win: bool) -> Seq<char> {
    match c {
        Comp::Prefix(_) => seq![],
        Comp::Verbatim(_) => seq![],
        Comp::Root => seq![main_sep(win)],
        Comp::Cur => seq!['.'],
        Comp::Parent => seq!['.', '.'],
        Comp::Normal(n) => n,
    }
}

/// The text that `pre` followed by these components makes.
pub open spec fn render_onto(pre: Seq<char>, c: Seq<Comp>, win: bool) -> Seq<char>
    decreases c.len(),
{
    if c.len() == 0 {
        pre
    } else {
        join(render_onto(pre, c.drop_last(), win), render_comp(c.last(), win), win)
    }
}

/// The text of the path that keeps the first `k` components of `s`: its own
/// prefix, then the remaining components.
pub open spec fn truncated(s: Seq<char>, k: int, win: bool) -> Seq<char> {
    let c = components(s, win).take(k);
    if k == 0 {
        seq![]
    } else if has_prefix(s, win) {
        render_onto(s.take(plen(s, win)), c.skip(1), win)
    } else {
        render_onto(seq![], c, win)
    }
}

/// Without the `.` components.
pub open spec fn without_cur(c: Seq<Comp>) -> Seq<Comp> {
    c.filter(|x: Comp| !(x is Cur))
}

pub proof fn lemma_split_open_nonempty(s: Seq<char>, win: bool)
    requires
        s.len() > 0,
        !is_sep(s.last(), win),
    ensures
        split_segs(s, win).len() > 0,
    decreases s.len(),
{
    let p = s.drop_last();
    if p.len() > 0 && !is_sep(p.last(), win) {
        lemma_split_open_nonempty(p, win);
    }
}

/// A single file name: what a directory listing holds.
pub open spec fn is_plain_name(n: Seq<char>, win: bool) -> bool {
    &&& n.len() > 0
    &&& n != seq!['.']
    &&& forall|i: int| 0 <= i < n.len() ==> !is_sep(#[trigger] n[i], win)
    &&& !has_drive(n, win)
}

/// The component that a plain name stands for.
pub open spec fn name_comp(n: Seq<char>) -> Comp {
    if n == seq!['.', '.'] {
        Comp::Parent
    } else {
        Comp::Normal(n)
    }
}

proof fn lemma_split_sep_concat(p: Seq<char>, q: Seq<char>, win: bool)
    requires
        p.len() > 0,
        is_sep(p.last(), win),
    ensures
        split_segs(p + q, win) == split_segs(p, win) + split_segs(q, win),
    decreases q.len(),
{
    if q.len() == 0 {
        assert(p + q =~= p);
        assert(split_segs(p, win) + split_segs(q, win) =~= split_segs(p, win));
    } else {
        let q1 = q.drop_last();
        let c = q.last();
        lemma_split_sep_concat(p, q1, win);
        assert((p + q).drop_last() =~= p + q1);
        assert((p + q).last() == c);
        let a = split_segs(p, win);
        let b1 = split_segs(q1, win);
        if is_sep(c, win) {
        } else if q1.len() > 0 && !is_sep(q1.last(), win) {
            assert((p + q1).last() == q1.last());
            lemma_split_open_nonempty(q1, win);
            assert((a + b1).update((a + b1).len() - 1, (a + b1).last().push(c)) =~= a + b1.update(
                b1.len() - 1,
                b1.last().push(c),
            ));
        } else {
            if q1.len() == 0 {
                assert((p + q1).last() == p.last());
            } else {
                assert((p + q1).last() == q1.last());
            }
            assert((a + b1).push(seq![c]) =~= a + b1.push(seq![c]));
        }
    }
}

proof fn lemma_split_plain(n: Seq<char>, win: bool)
    requires
        n.len() > 0,
        forall|i: int| 0 <= i < n.len() ==> !is_sep(#[trigger] n[i], win),
    ensures
        split_segs(n, win) == seq![n],
    decreases n.len(),
{
    let n1 = n.drop_last();
    assert(!is_sep(n[n.len() - 1], win));
    if n1.len() == 0 {
        assert(n =~= seq![n.last()]);
        assert(n.drop_last() =~= Seq::<char>::empty());
        assert(split_segs(n1, win) =~= Seq::<Seq<char>>::empty());
        assert(split_segs(n, win) =~= seq![seq![n.last()]]);
    } else {
        assert forall|i: int| 0 <= i < n1.len() implies !is_sep(#[trigger] n1[i], win) by {
            assert(n1[i] == n[i]);
        }
        lemma_split_plain(n1, win);
        assert(!is_sep(n1.last(), win)) by {
            assert(n1.last() == n[n1.len() - 1]);
        }
        assert(n1.push(n.last()) =~= n);
        assert(seq![n1].update(0, n1.push(n.last())) =~= seq![n]);
        assert(split_segs(n, win) == seq![n1].update(0, n1.push(n.last())));
    }
}

/// Pushing `n1` and then `rest` is pushing `n1`, a separator and `rest` at once,
/// when `n1` is a plain name and `rest` is relative and neither rooted nor
/// drive-prefixed.
pub proof fn lemma_join_nested(a: Seq<char>, n1: Seq<char>, rest: Seq<char>, win: bool)
    requires
        is_plain_name(n1, win),
        rest.len() > 0,
        !is_sep(rest[0], win),
        !has_drive(rest, win),
    ensures
        join(a, n1 + seq![main_sep(win)] + rest, win) == join(join(a, n1, win), rest, win),
{
    let x = n1 + seq![main_sep(win)] + rest;
    assert(x[0] == n1[0]);
    assert(!is_sep(n1[0], win));
    if n1.len() >= 2 {
        assert(x[1] == n1[1]);
    } else {
        assert(x[1] == main_sep(win));
    }
    assert(!has_drive(x, win));
    assert(body(x, win) == x);
    assert(!has_root(x, win));
    assert(!has_drive(n1, win));
    assert(body(n1, win) == n1);
    assert(!has_root(n1, win));
    let j = join(a, n1, win);
    assert(body(rest, win) == rest);
    assert(!has_root(rest, win));
    let pre = if needs_sep(a, win) {
        a.push(main_sep(win))
    } else {
        a
    };
    assert(j == pre + n1);
    assert(j.len() > 0);
    assert(j.last() == n1.last()) by {
        assert(j[j.len() - 1] == n1[n1.len() - 1]);
    }
    assert(!is_sep(n1.last(), win)) by {
        assert(n1.last() == n1[n1.len() - 1]);
    }
    if has_drive(j, win) && j.len() == 2 {
        if pre.len() == 0 {
            assert(j =~= n1);
        } else if needs_sep(a, win) {
            assert(pre.len() >= 2);
        } else {
            assert(a.len() == 1);
            assert(j[0] == a[0]);
            assert(false);
        }
    }
    assert(needs_sep(j, win));
    assert(join(j, rest, win) == j.push(main_sep(win)) + rest);
    assert(pre + x =~= (pre + n1).push(main_sep(win)) + rest);
}

/// What pushing a plain name onto `a` adds to the components: the name's own
/// component, after a root when `a` is a bare verbatim prefix such as
/// `\\?\C:` (pushing there puts a separator in, as `PathBuf::push` does).
pub open spec fn pushed_comps(a: Seq<char>, n: Seq<char>, win: bool) -> Seq<Comp> {
    if has_vdisk(a, win) && a.len() == 6 {
        components(a, win).push(Comp::Root).push(name_comp(n))
    } else {
        components(a, win).push(name_comp(n))
    }
}

/// `j` is `a`, then at most one separator, then the plain name `n`: its
/// prefix is that of `a`.
proof fn lemma_push_keeps_prefix(a: Seq<char>, mid: Seq<char>, n: Seq<char>, win: bool)
    requires
        is_plain_name(n, win),
        mid.len() <= 1,
        mid.len() == 1 ==> is_sep(mid[0], win),
        mid.len() == 1 ==> a.len() > 0 && !is_sep(a.last(), win),
        mid.len() == 0 ==> a.len() == 0 || is_sep(a.last(), win) || (has_drive(a, win) && a.len()
            == 2),
    ensures
        has_vdisk(a + mid + n, win) == has_vdisk(a, win),
        has_drive(a + mid + n, win) == has_drive(a, win),
        plen(a + mid + n, win) == plen(a, win),
{
    let j = a + mid + n;
    assert forall|k: int| 0 <= k < a.len() implies j[k] == a[k] by {}
    assert forall|k: int| 0 <= k < n.len() implies j[a.len() + mid.len() + k] == n[k] by {}
    if mid.len() == 1 {
        assert(j[a.len() as int] == mid[0]);
    }
    if a.len() == 0 && mid.len() == 0 {
        assert(j =~= n);
        assert(!has_vdisk(n, win)) by {
            if has_vdisk(n, win) {
                assert(is_sep(n[0], win));
            }
        }
    }
    if has_vdisk(j, win) && !has_vdisk(a, win) && a.len() < 6 {
        // The pattern `\\?\X:` cannot straddle `a` and a plain name.
        if a.len() + mid.len() <= 0 {
            assert(is_sep(n[0], win));
        } else if a.len() + mid.len() == 1 {
            assert(j[3] == n[2 - a.len() - mid.len()] || j[3] == n[2]);
            assert(is_sep(j[3], win));
        } else if a.len() + mid.len() == 2 {
            assert(is_sep(j[3], win));
            assert(j[3] == n[1]);
        } else if a.len() + mid.len() == 3 {
            if mid.len() == 1 {
                assert(a.len() == 2 && j[2] == mid[0]);
            } else {
                assert(has_drive(n, win)) by {
                    assert(j[4] == n[1]);
                    assert(j[3] == n[0]);
                }
            }
        } else if a.len() + mid.len() == 4 {
            if mid.len() == 1 {
                assert(j[4] == n[0] && j[5] == n[1]);
                assert(has_drive(n, win));
            } else {
                assert(a.last() == a[3]);
                assert(is_sep(a[3], win));
                assert(has_drive(n, win)) by {
                    assert(j[4] == n[0] && j[5] == n[1]);
                }
            }
        } else if a.len() + mid.len() == 5 {
            if mid.len() == 1 {
                assert(a.len() == 4 && a.last() == a[3] && a[3] == j[3]);
            } else {
                assert(a.last() == a[4]);
                assert(is_sep(a[4], win));
            }
        } else {
            assert(mid.len() == 1 && a.len() == 5);
            assert(j[5] == mid[0]);
        }
    }
    if has_drive(j, win) && !has_drive(a, win) {
        if a.len() == 0 && mid.len() == 0 {
        } else if a.len() == 1 {
            if mid.len() == 1 {
                assert(j[1] == mid[0]);
            } else {
                assert(j[1] == n[0]);
                assert(a.last() == a[0]);
            }
        } else if a.len() == 0 {
            assert(mid.len() == 0);
        }
    }
}

/// Pushing a plain name adds exactly one component (two onto a bare verbatim
/// prefix, which gains a root).
#[verifier::spinoff_prover]
#[verifier::rlimit(40)]
pub proof fn lemma_join_plain_name(a: Seq<char>, n: Seq<char>, win: bool)
    requires
        is_plain_name(n, win),
    ensures
        components(join(a, n, win), win) == pushed_comps(a, n, win),
        components(join(a, n, win), win).len() > components(a, win).len(),
{
    let j = join(a, n, win);
    assert(!is_sep(n[0], win));
    assert(!has_vdisk(n, win));
    assert(body(n, win) == n);
    assert(!has_root(n, win));
    lemma_split_plain(n, win);
    assert(seg_comps(seq![n]) == seq![name_comp(n)]) by {
        assert(seq![n].drop_last() =~= Seq::<Seq<char>>::empty());
        assert(seg_comps(Seq::<Seq<char>>::empty()) =~= Seq::<Comp>::empty());
        assert(Seq::<Comp>::empty().push(name_comp(n)) =~= seq![name_comp(n)]);
    }
    let sa = split_segs(body(a, win), win);
    assert(seg_comps(sa + seq![n]) == seg_comps(sa).push(name_comp(n))) by {
        assert((sa + seq![n]).drop_last() =~= sa);
        assert((sa + seq![n]).last() == n);
    }
    let ln = if n.len() == 1 { true } else { !is_sep(n[1], win) };
    assert(ln);
    if a.len() == 0 {
        lemma_push_keeps_prefix(a, seq![], n, win);
        assert(j =~= a + Seq::<char>::empty() + n);
        assert(!has_leading_cur(n, win)) by {
            if n.len() == 1 {
                assert(n =~= seq![n[0]]);
            }
        }
        assert(body(a, win) =~= a);
        assert(split_segs(a, win) =~= Seq::<Seq<char>>::empty());
        assert(seg_comps(Seq::<Seq<char>>::empty()).len() == 0);
        assert(components(a, win) =~= Seq::<Comp>::empty());
        assert(components(j, win) =~= seq![name_comp(n)]);
    } else if needs_sep(a, win) {
        let sep = main_sep(win);
        assert(is_sep(sep, win));
        let mid = seq![sep];
        lemma_push_keeps_prefix(a, mid, n, win);
        assert(j =~= a + mid + n);
        let ba = body(a, win);
        assert(body(j, win) =~= ba.push(sep) + n);
        assert(prefix_comps(j, win) == prefix_comps(a, win));
        lemma_split_sep_concat(ba.push(sep), n, win);
        assert(split_segs(ba.push(sep), win) == sa) by {
            assert(ba.push(sep).drop_last() =~= ba);
        }
        if ba.len() == 0 {
            // Only a bare verbatim prefix has an empty body and needs a separator.
            assert(has_vdisk(a, win) && a.len() == 6);
            assert(body(j, win)[0] == sep);
            assert(has_root(j, win));
            assert(!has_root(a, win));
            assert(!has_leading_cur(a, win));
            assert(!has_leading_cur(j, win));
            assert(sa =~= Seq::<Seq<char>>::empty());
            assert(head_comps(j, win) =~= head_comps(a, win).push(Comp::Root));
            assert(components(a, win) =~= head_comps(a, win));
            assert(components(j, win) =~= components(a, win).push(Comp::Root).push(name_comp(n)));
        } else {
            assert(body(j, win)[0] == ba[0]);
            if ba.len() >= 2 {
                assert(body(j, win)[1] == ba[1]);
            } else {
                assert(body(j, win)[1] == sep);
            }
            assert(has_root(j, win) == has_root(a, win));
            assert(has_leading_cur(j, win) == has_leading_cur(a, win));
            assert(head_comps(j, win) == head_comps(a, win));
            assert(components(j, win) =~= components(a, win).push(name_comp(n)));
        }
    } else if has_drive(a, win) && a.len() == 2 {
        lemma_push_keeps_prefix(a, seq![], n, win);
        assert(j =~= a + Seq::<char>::empty() + n);
        assert(has_drive(j, win));
        assert(!has_vdisk(a, win));
        assert(body(j, win) =~= n);
        assert(body(a, win) =~= Seq::<char>::empty());
        assert(split_segs(body(a, win), win) =~= Seq::<Seq<char>>::empty());
        assert(!has_leading_cur(j, win)) by {
            if n.len() == 1 {
                assert(n =~= seq![n[0]]);
            }
        }
        assert(prefix_comps(j, win) == prefix_comps(a, win));
        assert(head_comps(j, win) =~= prefix_comps(a, win));
        assert(head_comps(a, win) =~= prefix_comps(a, win));
        assert(sa =~= Seq::<Seq<char>>::empty());
        assert(sa + seq![n] =~= seq![n]);
        assert(components(j, win) =~= components(a, win).push(name_comp(n)));
    } else {
        assert(is_sep(a.last(), win));
        lemma_push_keeps_prefix(a, seq![], n, win);
        assert(j =~= a + Seq::<char>::empty() + n);
        let ba = body(a, win);
        assert(body(j, win) =~= ba + n);
        assert(ba.len() > 0) by {
            assert(a.last() == a[a.len() - 1]);
            if has_vdisk(a, win) && a.len() == 6 {
                assert(a[5] == ':');
            }
            if has_drive(a, win) && a.len() == 2 {
            }
        }
        assert(ba.last() == a.last());
        assert(body(j, win)[0] == ba[0]);
        if ba.len() >= 2 {
            assert(body(j, win)[1] == ba[1]);
        }
        assert(has_root(j, win) == has_root(a, win));
        assert(has_leading_cur(j, win) == has_leading_cur(a, win));
        assert(prefix_comps(j, win) == prefix_comps(a, win));
        assert(head_comps(j, win) == head_comps(a, win));
        lemma_split_sep_concat(ba, n, win);
        assert(components(j, win) =~= components(a, win).push(name_comp(n)));
    }
}

/// `p` lies at or below `base`: the components of `base` begin those of `p`.
pub open spec fn extends(base: Seq<char>, p: Seq<char>, win: bool) -> bool {
    components(base, win).is_prefix_of(components(p, win))
}

pub proof fn lemma_extends_trans(a: Seq<char>, b: Seq<char>, c: Seq<char>, win: bool)
    requires
        extends(a, b, win),
        extends(b, c, win),
    ensures
        extends(a, c, win),
{
    let ca = components(a, win);
    let cb = components(b, win);
    let cc = components(c, win);
    assert(ca =~= cc.subrange(0, ca.len() as int)) by {
        assert forall|i: int| 0 <= i < ca.len() implies ca[i] == cc[i] by {
            assert(ca[i] == cb.subrange(0, ca.len() as int)[i]);
            assert(cb[i] == cc.subrange(0, cb.len() as int)[i]);
        }
    }
}

pub proof fn lemma_extends_refl(a: Seq<char>, win: bool)
    ensures
        extends(a, a, win),
{
    let c = components(a, win);
    assert(c =~= c.subrange(0, c.len() as int));
}

/// Pushing the empty path onto `a` at most adds a trailing separator, which
/// changes no component (Unix-like systems).
pub proof fn lemma_join_empty_extends(a: Seq<char>)
    ensures
        extends(a, join(a, seq![], false), false),
{
    let e = Seq::<char>::empty();
    assert(body(e, false) =~= e);
    assert(!has_root(e, false));
    assert(!is_absolute(e, false));
    if needs_sep(a, false) {
        let j = a.push('/');
        assert(join(a, e, false) =~= j);
        assert(body(j, false) =~= j);
        assert(body(a, false) =~= a);
        assert(j[0] == a[0]);
        if a.len() >= 2 {
            assert(j[1] == a[1]);
        } else {
            assert(j[1] == '/');
        }
        assert(has_root(j, false) == has_root(a, false));
        assert(has_leading_cur(j, false) == has_leading_cur(a, false));
        assert(split_segs(j, false) == split_segs(a, false)) by {
            assert(j.drop_last() =~= a);
        }
        lemma_extends_refl(a, false);
    } else {
        assert(join(a, e, false) =~= a + e);
        assert(a + e =~= a);
        lemma_extends_refl(a, false);
    }
}

/// A plain name pushed onto `a` lies below `a`.
pub proof fn lemma_join_name_extends(a: Seq<char>, n: Seq<char>, win: bool)
    requires
        is_plain_name(n, win),
    ensures
        extends(a, join(a, n, win), win),
{
    lemma_join_plain_name(a, n, win);
    let ca = components(a, win);
    let cj = components(join(a, n, win), win);
    assert(ca =~= cj.subrange(0, ca.len() as int));
}

/// `n1` and `n2`, pushed at once with a separator between, lie below `a`.
pub proof fn lemma_join_two_names_extends(a: Seq<char>, n1: Seq<char>, n2: Seq<char>, win: bool)
    requires
        is_plain_name(n1, win),
        is_plain_name(n2, win),
    ensures
        extends(a, join(a, n1 + seq![main_sep(win)] + n2, win), win),
{
    assert(n2[0] == n2[0]);
    lemma_join_nested(a, n1, n2, win);
    lemma_join_name_extends(a, n1, win);
    lemma_join_name_extends(join(a, n1, win), n2, win);
    lemma_extends_trans(a, join(a, n1, win), join(join(a, n1, win), n2, win), win);
}

/// Three plain names, pushed at once with separators between, lie below `a`.
pub proof fn lemma_join_three_names_extends(
    a: Seq<char>,
    n1: Seq<char>,
    n2: Seq<char>,
    n3: Seq<char>,
    win: bool,
)
    requires
        is_plain_name(n1, win),
        is_plain_name(n2, win),
        is_plain_name(n3, win),
    ensures
        extends(a, join(a, n1 + seq![main_sep(win)] + n2 + seq![main_sep(win)] + n3, win), win),
{
    let sep = seq![main_sep(win)];
    let rest = n2 + sep + n3;
    assert(rest[0] == n2[0]);
    if n2.len() >= 2 {
        assert(rest[1] == n2[1]);
    } else {
        assert(rest[1] == main_sep(win));
    }
    assert(n1 + sep + n2 + sep + n3 =~= n1 + sep + rest);
    lemma_join_nested(a, n1, rest, win);
    lemma_join_name_extends(a, n1, win);
    lemma_join_two_names_extends(join(a, n1, win), n2, n3, win);
    lemma_extends_trans(a, join(a, n1, win), join(join(a, n1, win), rest, win), win);
}

fn is_sep_exec(c: char, win: bool) -> (r: bool)
    ensures
        r == is_sep(c, win),
{
    c == '/' || (win && c == '\\')
}

fn is_letter_exec(c: char) -> (r: bool)
    ensures
        r == is_ascii_letter(c),
{
    ('a' <= c && c <= 'z') || ('A' <= c && c <= 'Z')
}

fn upper_exec(c: char) -> (r: char)
    ensures
        r == upper(c),
{
    if 'a' <= c && c <= 'z' {
        let b: u8 = c as u8;
        assert(b as int == c as int);
        ((b - 32) as char)
    } else {
        c
    }
}

/// How many characters the prefix of the path takes.
fn prefix_len_of(cs: &Vec<char>, win: bool) -> (r: usize)
    ensures
        r == plen(cs@, win),
{
    let n = cs.len();
    if win && n >= 6 && cs[0] == '\\' && cs[1] == '\\' && cs[2] == '?' && cs[3] == '\\'
        && is_letter_exec(cs[4]) && cs[5] == ':' {
        6
    } else if win && n >= 2 && is_letter_exec(cs[0]) && cs[1] == ':' {
        2
    } else {
        0
    }
}

/// The characters of a string.
pub fn chars_of(s: &str) -> (v: Vec<char>)
    ensures
        v@ == s@,
{
    let n = s.unicode_len();
    let mut v: Vec<char> = Vec::new();
    let mut i: usize = 0;
    while i < n
        invariant
            n == s@.len(),
            i <= n,
            v@ == s@.take(i as int),
        decreases n - i,
    {
        let c = s.get_char(i);
        v.push(c);
        i = i + 1;
        assert(v@ =~= s@.take(i as int));
    }
    assert(v@ =~= s@);
    v
}

pub open spec fn pair_segs(cs: Seq<char>, pairs: Seq<(usize, usize)>) -> Seq<Seq<char>> {
    pairs.map_values(|p: (usize, usize)| cs.subrange(p.0 as int, p.1 as int))
}

fn push_bounded(r: &mut Vec<(usize, usize)>, b: usize, e: usize, lo: usize, hi: usize)
    requires
        forall|k: int| 0 <= k < old(r).len() ==> lo <= #[trigger] old(r)@[k].0 <= old(r)@[k].1 <= hi,
        lo <= b <= e <= hi,
    ensures
        final(r)@ == old(r)@.push((b, e)),
        forall|k: int| 0 <= k < final(r).len() ==> lo <= #[trigger] final(r)@[k].0 <= final(r)@[k].1 <= hi,
{
    let ghost before = r@;
    r.push((b, e));
    assert forall|k: int| 0 <= k < r.len() implies lo <= #[trigger] r@[k].0 <= r@[k].1 <= hi by {
        if k < before.len() {
            assert(r@[k] == before[k]);
        }
    }
}

/// The segments of `cs[start..]`, as index ranges.
fn split_segments(cs: &Vec<char>, start: usize, win: bool) -> (r: Vec<(usize, usize)>)
    requires
        start <= cs.len(),
    ensures
        pair_segs(cs@, r@) == split_segs(cs@.skip(start as int), win),
        forall|k: int| 0 <= k < r.len() ==> start <= #[trigger] r@[k].0 <= r@[k].1 <= cs.len(),
{
    let n = cs.len();
    let mut r: Vec<(usize, usize)> = Vec::new();
    let mut i = start;
    let mut seg_begin = start;
    let mut open = false;
    assert(cs@.subrange(start as int, start as int) =~= Seq::<char>::empty());
    while i < n
        invariant
            n == cs.len(),
            start <= i <= n,
            open == (i > start && !is_sep(cs@[i - 1], win)),
            open ==> start <= seg_begin < i,
            forall|k: int| 0 <= k < r.len() ==> start <= #[trigger] r@[k].0 <= r@[k].1 <= i,
            split_segs(cs@.subrange(start as int, i as int), win) == pair_segs(cs@, r@) + (if open {
                seq![cs@.subrange(seg_begin as int, i as int)]
            } else {
                Seq::<Seq<char>>::empty()
            }),
        decreases n - i,
    {
        let c = cs[i];
        let ghost b = cs@.subrange(start as int, i as int);
        let ghost b2 = cs@.subrange(start as int, i + 1);
        assert(b2.drop_last() =~= b);
        assert(b2.last() == c);
        if is_sep_exec(c, win) {
            if open {
                push_bounded(&mut r, seg_begin, i, start, i + 1);
                assert(pair_segs(cs@, r@) =~= pair_segs(cs@, r@.drop_last()).push(
                    cs@.subrange(seg_begin as int, i as int),
                ));
            }
            open = false;
            assert(split_segs(b2, win) == split_segs(b, win));
            assert(split_segs(b2, win) =~= pair_segs(cs@, r@));
        } else {
            if open {
                assert(b.len() > 0 && b.last() == cs@[i - 1]);
                let ghost old_segs = split_segs(b, win);
                assert(cs@.subrange(seg_begin as int, i + 1) =~= cs@.subrange(
                    seg_begin as int,
                    i as int,
                ).push(c));
                assert(split_segs(b2, win) =~= pair_segs(cs@, r@) + seq![
                    cs@.subrange(seg_begin as int, i + 1),
                ]);
            } else {
                seg_begin = i;
                assert(cs@.subrange(i as int, i + 1) =~= seq![c]);
                assert(split_segs(b2, win) =~= pair_segs(cs@, r@) + seq![
                    cs@.subrange(seg_begin as int, i + 1),
                ]);
            }
            open = true;
        }
        i = i + 1;
    }
    if open {
        push_bounded(&mut r, seg_begin, n, start, n);
        assert(pair_segs(cs@, r@) =~= pair_segs(cs@, r@.drop_last()).push(
            cs@.subrange(seg_begin as int, n as int),
        ));
    }
    assert(cs@.subrange(start as int, n as int) =~= cs@.skip(start as int));
    assert(pair_segs(cs@, r@) =~= split_segs(cs@.skip(start as int), win));
    r
}

/// The components of a path, as `Path::components` yields them.
pub fn components_of(s: &str, win: bool) -> (r: Vec<Component>)
    ensures
        comps_view(r@) == components(s@, win),
{
    let cs = chars_of(s);
    let n = cs.len();
    let start = prefix_len_of(&cs, win);
    assert(start <= n);
    assert(body(s@, win) =~= cs@.skip(start as int));
    let mut out: Vec<Component> = Vec::new();
    if start == 6 {
        out.push(Component::VerbatimDisk(upper_exec(cs[4])));
    } else if start == 2 {
        out.push(Component::Prefix(upper_exec(cs[0])));
    }
    let root = start < n && is_sep_exec(cs[start], win);
    if root {
        out.push(Component::RootDir);
    }
    let cur = !root && start != 6 && start < n && cs[start] == '.' && (start + 1 == n || is_sep_exec(
        cs[start + 1],
        win,
    ));
    if cur {
        out.push(Component::CurDir);
    }
    assert(comps_view(out@) =~= head_comps(s@, win));
    let pairs = split_segments(&cs, start, win);
    let ghost segs = pair_segs(cs@, pairs@);
    let ghost head = comps_view(out@);
    let mut k: usize = 0;
    while k < pairs.len()
        invariant
            cs@ == s@,
            segs == pair_segs(cs@, pairs@),
            forall|j: int|
                0 <= j < pairs.len() ==> #[trigger] pairs@[j].0 <= pairs@[j].1 <= cs.len(),
            k <= pairs.len(),
            comps_view(out@) == head + seg_comps(segs.take(k as int)),
        decreases pairs.len() - k,
    {
        let (b, e) = pairs[k];
        let ghost g = cs@.subrange(b as int, e as int);
        let ghost before = comps_view(out@);
        assert(segs.take(k + 1).drop_last() =~= segs.take(k as int));
        assert(segs.take(k + 1).last() == g);
        let len = e - b;
        if len == 1 && cs[b] == '.' {
            assert(g =~= seq!['.']);
            assert(seg_comps(segs.take(k + 1)) == seg_comps(segs.take(k as int)));
        } else if len == 2 && cs[b] == '.' && cs[b + 1] == '.' {
            assert(g =~= seq!['.', '.']);
            out.push(Component::ParentDir);
            assert(comps_view(out@) =~= before.push(Comp::Parent));
            assert(seg_comps(segs.take(k + 1)) == seg_comps(segs.take(k as int)).push(Comp::Parent));
        } else {
            assert(g != seq!['.']) by {
                if len == 1 {
                    assert(g[0] == cs@[b as int]);
                } else {
                    assert(g.len() != 1);
                }
            }
            assert(g != seq!['.', '.']) by {
                if len == 2 {
                    assert(g[0] == cs@[b as int] && g[1] == cs@[b + 1]);
                } else {
                    assert(g.len() != 2);
                }
            }
            let name = s.substring_char(b, e).to_owned();
            assert(name@ == g);
            out.push(Component::Normal(name));
            assert(comps_view(out@) =~= before.push(Comp::Normal(g)));
            assert(seg_comps(segs.take(k + 1)) == seg_comps(segs.take(k as int)).push(Comp::Normal(g)));
        }
        assert(comps_view(out@) =~= head + seg_comps(segs.take(k + 1)));
        k = k + 1;
    }
    assert(segs.take(pairs.len() as int) =~= segs);
    out
}

pub fn component_eq(a: &Component, b: &Component) -> (r: bool)
    ensures
        r == (a@ == b@),
{
    match a {
        Component::Prefix(x) => match b {
            Component::Prefix(y) => *x == *y,
            _ => false,
        },
        Component::VerbatimDisk(x) => match b {
            Component::VerbatimDisk(y) => *x == *y,
            _ => false,
        },
        Component::RootDir => match b {
            Component::RootDir => true,
            _ => false,
        },
        Component::CurDir => match b {
            Component::CurDir => true,
            _ => false,
        },
        Component::ParentDir => match b {
            Component::ParentDir => true,
            _ => false,
        },
        Component::Normal(x) => match b {
            Component::Normal(y) => {
                let r = *x == *y;
                if !r {
                    assert(x@ != y@);
                }
                r
            },
            _ => false,
        },
    }
}

/// `b` is a prefix of `a`, component by component.
pub fn comps_starts_with(a: &Vec<Component>, b: &Vec<Component>) -> (r: bool)
    ensures
        r == comps_view(b@).is_prefix_of(comps_view(a@)),
{
    if b.len() > a.len() {
        return false;
    }
    let mut i: usize = 0;
    while i < b.len()
        invariant
            b.len() <= a.len(),
            i <= b.len(),
            forall|j: int| 0 <= j < i ==> a@[j]@ == #[trigger] b@[j]@,
        decreases b.len() - i,
    {
        if !component_eq(&a[i], &b[i]) {
            assert(comps_view(a@)[i as int] != comps_view(b@)[i as int]);
            return false;
        }
        i = i + 1;
    }
    assert(comps_view(b@) =~= comps_view(a@).subrange(0, b.len() as int));
    true
}

pub fn comps_equal(a: &Vec<Component>, b: &Vec<Component>) -> (r: bool)
    ensures
        r == (comps_view(a@) == comps_view(b@)),
{
    if a.len() != b.len() {
        assert(comps_view(a@).len() != comps_view(b@).len());
        return false;
    }
    let r = comps_starts_with(a, b);
    if r {
        assert(comps_view(b@) =~= comps_view(a@));
    }
    r
}

/// `a` equals the first `k` components of `b`.
pub fn comps_prefix_equal(a: &Vec<Component>, b: &Vec<Component>, k: usize) -> (r: bool)
    requires
        k <= b.len(),
    ensures
        r == (comps_view(a@) == comps_view(b@).take(k as int)),
{
    if a.len() != k {
        assert(comps_view(a@).len() != comps_view(b@).take(k as int).len());
        return false;
    }
    let mut i: usize = 0;
    while i < k
        invariant
            a.len() == k,
            k <= b.len(),
            i <= k,
            forall|j: int| 0 <= j < i ==> a@[j]@ == #[trigger] b@[j]@,
        decreases k - i,
    {
        if !component_eq(&a[i], &b[i]) {
            assert(comps_view(a@)[i as int] != comps_view(b@).take(k as int)[i as int]);
            return false;
        }
        i = i + 1;
    }
    assert(comps_view(a@) =~= comps_view(b@).take(k as int));
    true
}

fn render_comp_exec(c: &Component, win: bool) -> (r: String)
    ensures
        r@ == render_comp(c@, win),
{
    match c {
        Component::Prefix(_) => String::new(),
        Component::VerbatimDisk(_) => String::new(),
        Component::RootDir => {
            if win {
                proof {
                    reveal_strlit("\\");
                }
                "\\".to_owned()
            } else {
                proof {
                    reveal_strlit("/");
                }
                "/".to_owned()
            }
        },
        Component::CurDir => {
            proof {
                reveal_strlit(".");
            }
            ".".to_owned()
        },
        Component::ParentDir => {
            proof {
                reveal_strlit("..");
            }
            "..".to_owned()
        },
        Component::Normal(n) => n.clone(),
    }
}

/// The path that keeps the first `k` components of `s`, as `PathBuf::pop`
/// leaves it.
pub fn truncate_path(s: &str, comps: &Vec<Component>, k: usize, win: bool) -> (r: String)
    requires
        comps_view(comps@) == components(s@, win),
        k <= comps.len(),
    ensures
        r@ == truncated(s@, k as int, win),
{
    if k == 0 {
        return String::new();
    }
    let cs = chars_of(s);
    let pl = prefix_len_of(&cs, win);
    let drive = pl > 0;
    let ghost c = components(s@, win).take(k as int);
    let mut out: String;
    let mut i: usize;
    if drive {
        out = s.substring_char(0, pl).to_owned();
        i = 1;
        assert(c.skip(1).take(0) =~= Seq::<Comp>::empty());
    } else {
        out = String::new();
        i = 0;
        assert(c.take(0) =~= Seq::<Comp>::empty());
    }
    let ghost pre = out@;
    let ghost first = i;
    while i < k
        invariant
            comps_view(comps@) == components(s@, win),
            k <= comps.len(),
            c == components(s@, win).take(k as int),
            first <= i <= k,
            first == 0 || first == 1,
            out@ == render_onto(pre, c.skip(first as int).take(i - first), win),
        decreases k - i,
    {
        let piece = render_comp_exec(&comps[i], win);
        assert(c.skip(first as int).take(i + 1 - first).drop_last() =~= c.skip(first as int).take(
            i - first,
        ));
        assert(c.skip(first as int).take(i + 1 - first).last() == comps@[i as int]@);
        out = join_path(out.as_str(), piece.as_str(), win);
        i = i + 1;
    }
    assert(c.skip(first as int).take(k - first) =~= c.skip(first as int));
    if !drive {
        assert(c.skip(0) =~= c);
    }
    out
}

/// The components without `.`, as `safety`'s lexical cleaning keeps them.
pub fn drop_cur(c: &Vec<Component>) -> (r: Vec<Component>)
    ensures
        comps_view(r@) == without_cur(comps_view(c@)),
{
    let mut r: Vec<Component> = Vec::new();
    let mut i: usize = 0;
    while i < c.len()
        invariant
            i <= c.len(),
            comps_view(r@) == without_cur(comps_view(c@.take(i as int))),
        decreases c.len() - i,
    {
        let ghost before = comps_view(c@.take(i as int));
        assert(comps_view(c@.take(i + 1)) =~= before.push(c@[i as int]@));
        assert(before.push(c@[i as int]@).drop_last() =~= before);
        proof {
            reveal_with_fuel(Seq::filter, 1);
        }
        let ghost rb = comps_view(r@);
        match &c[i] {
            Component::CurDir => {},
            other => {
                r.push(other.clone_component());
                assert(comps_view(r@) =~= rb.push(c@[i as int]@));
            },
        }
        i = i + 1;
    }
    assert(c@.take(c.len() as int) =~= c@);
    r
}

impl Component {
    pub fn clone_component(&self) -> (r: Component)
        ensures
            r@ == self@,
    {
        match self {
            Component::Prefix(x) => Component::Prefix(*x),
            Component::VerbatimDisk(x) => Component::VerbatimDisk(*x),
            Component::RootDir => Component::RootDir,
            Component::CurDir => Component::CurDir,
            Component::ParentDir => Component::ParentDir,
            Component::Normal(n) => Component::Normal(n.clone()),
        }
    }
}

/// Whether any component is `..`.
pub fn has_parent_comp(c: &Vec<Component>) -> (r: bool)
    ensures
        r == comps_view(c@).contains(Comp::Parent),
{
    let mut i: usize = 0;
    while i < c.len()
        invariant
            i <= c.len(),
            forall|j: int| 0 <= j < i ==> c@[j]@ != Comp::Parent,
        decreases c.len() - i,
    {
        match &c[i] {
            Component::ParentDir => {
                assert(comps_view(c@)[i as int] == Comp::Parent);
                return true;
            },
            _ => {},
        }
        i = i + 1;
    }
    assert forall|j: int| 0 <= j < comps_view(c@).len() implies comps_view(c@)[j] != Comp::Parent by {
        assert(comps_view(c@)[j] == c@[j]@);
    }
    false
}

/// Two paths name the same place, as `Path`'s `==` says.
pub fn path_eq(a: &str, b: &str, win: bool) -> (r: bool)
    ensures
        r == same_path(a@, b@, win),
{
    let ca = components_of(a, win);
    let cb = components_of(b, win);
    comps_equal(&ca, &cb)
}

pub fn is_absolute_path(s: &str, win: bool) -> (r: bool)
    ensures
        r == is_absolute(s@, win),
{
    let cs = chars_of(s);
    let n = cs.len();
    let start = prefix_len_of(&cs, win);
    assert(body(s@, win) =~= cs@.skip(start as int));
    let root = start < n && is_sep_exec(cs[start], win);
    if win {
        (start == 2 && root) || start == 6
    } else {
        root
    }
}

/// `base` with `name` pushed onto it, as `PathBuf::push` does.
pub fn join_path(base: &str, name: &str, win: bool) -> (r: String)
    ensures
        r@ == join(base@, name@, win),
{
    let bc = chars_of(base);
    let nc = chars_of(name);
    let nn = nc.len();
    let bn = bc.len();
    let nstart = prefix_len_of(&nc, win);
    assert(body(name@, win) =~= nc@.skip(nstart as int));
    let name_root = nstart < nn && is_sep_exec(nc[nstart], win);
    let name_abs = if win {
        (nstart == 2 && name_root) || nstart == 6
    } else {
        name_root
    };
    let bstart = prefix_len_of(&bc, win);
    let base_drive = bstart == 2;
    if name_abs || nstart > 0 {
        name.to_owned()
    } else if name_root {
        let p = base.substring_char(0, bstart).to_owned();
        assert(p@ =~= base@.take(bstart as int));
        p.concat(name)
    } else if bn > 0 && !is_sep_exec(bc[bn - 1], win) && !(base_drive && bn == 2) {
        let mut r = base.to_owned();
        if win {
            r.append("\\");
            proof {
                reveal_strlit("\\");
            }
        } else {
            r.append("/");
            proof {
                reveal_strlit("/");
            }
        }
        r.append(name);
        assert(r@ =~= base@.push(main_sep(win)) + name@);
        r
    } else {
        base.to_owned().concat(name)
    }
}

} // verus!
