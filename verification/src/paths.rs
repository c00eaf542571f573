//! The components of a Windows path: its prefix, its root and the names
//! along it.

use vstd::prelude::*;

verus! {

/// The kinds of prefix a Windows path can start with.
#[derive(Clone, Copy, Debug, PartialEq, Eq, Structural)]
pub enum PrefixKind {
    /// `\\?\name`
    Verbatim,
    /// `\\?\UNC\server\share`
    VerbatimUnc,
    /// `\\?\C:`
    VerbatimDisk,
    /// `\\.\device`
    DeviceNs,
    /// `\\server\share`
    Unc,
    /// `C:`
    Disk,
}

/// Either slash separates the components of an ordinary Windows path.
pub open spec fn is_separator(c: char) -> bool {
    c == '\\' || c == '/'
}

/// In a verbatim path only the backslash separates components.
pub open spec fn separates(c: char, verbatim: bool) -> bool {
    if verbatim {
        c == '\\'
    } else {
        is_separator(c)
    }
}

pub open spec fn is_ascii_letter(c: char) -> bool {
    ('a' <= c && c <= 'z') || ('A' <= c && c <= 'Z')
}

/// A drive letter followed by a colon stands at `i`.
pub open spec fn drive_at(s: Seq<char>, i: int) -> bool {
    0 <= i && i + 2 <= s.len() && is_ascii_letter(s[i]) && s[i + 1] == ':'
}

/// The end of the component that starts at `i`: the first separator at or
/// after `i`, or the end of the path.
pub open spec fn component_end(s: Seq<char>, i: int, verbatim: bool) -> int
    decreases s.len() - i,
{
    if i >= s.len() {
        s.len() as int
    } else if separates(s[i], verbatim) {
        i
    } else {
        component_end(s, i + 1, verbatim)
    }
}

pub proof fn lemma_component_end_bounds(s: Seq<char>, i: int, verbatim: bool)
    requires
        0 <= i,
    ensures
        i <= s.len() ==> i <= component_end(s, i, verbatim) <= s.len(),
        i > s.len() ==> component_end(s, i, verbatim) == s.len(),
        component_end(s, i, verbatim) < s.len() ==> separates(s[component_end(s, i, verbatim)], verbatim),
        forall|k: int| i <= k < component_end(s, i, verbatim) ==> !separates(#[trigger] s[k], verbatim),
    decreases s.len() - i,
{
    if i < s.len() && !separates(s[i], verbatim) {
        lemma_component_end_bounds(s, i + 1, verbatim);
    }
}

/// The path opens with the four characters `\\?\`, written with backslashes.
pub open spec fn starts_verbatim(s: Seq<char>) -> bool {
    &&& s.len() >= 4
    &&& s[0] == '\\' && s[1] == '\\' && s[2] == '?' && s[3] == '\\'
}

/// After `\\?\` comes `UNC` and a separator of either kind.
pub open spec fn starts_unc_marker(s: Seq<char>) -> bool {
    s.len() >= 8 && s[4] == 'U' && s[5] == 'N' && s[6] == 'C' && is_separator(s[7])
}

/// The end of the `server\share` part that starts at `i`, as far as it is
/// there: the share and its separator count only where the share is not empty.
pub open spec fn server_share_end(s: Seq<char>, i: int, verbatim: bool) -> int {
    let e1 = component_end(s, i, verbatim);
    if e1 < s.len() && component_end(s, e1 + 1, verbatim) > e1 + 1 {
        component_end(s, e1 + 1, verbatim)
    } else {
        e1
    }
}

/// The prefix the path starts with, and its length.
pub open spec fn windows_prefix(s: Seq<char>) -> Option<(PrefixKind, int)> {
    if starts_verbatim(s) {
        if starts_unc_marker(s) {
            Some((PrefixKind::VerbatimUnc, server_share_end(s, 8, true)))
        } else if drive_at(s, 4) && (s.len() == 6 || is_separator(s[6])) {
            Some((PrefixKind::VerbatimDisk, 6))
        } else {
            Some((PrefixKind::Verbatim, component_end(s, 4, true)))
        }
    } else if s.len() >= 2 && is_separator(s[0]) && is_separator(s[1]) {
        if s.len() >= 4 && s[2] == '.' && is_separator(s[3]) {
            Some((PrefixKind::DeviceNs, component_end(s, 4, false)))
        } else {
            let e1 = component_end(s, 2, false);
            if e1 > 2 && e1 < s.len() && component_end(s, e1 + 1, false) > e1 + 1 {
                Some((PrefixKind::Unc, component_end(s, e1 + 1, false)))
            } else {
                None
            }
        }
    } else if drive_at(s, 0) {
        Some((PrefixKind::Disk, 2))
    } else {
        None
    }
}

pub open spec fn is_verbatim_kind(k: PrefixKind) -> bool {
    k == PrefixKind::Verbatim || k == PrefixKind::VerbatimUnc || k == PrefixKind::VerbatimDisk
}

/// Whether the components of `s` are separated by backslashes alone.
pub open spec fn verbatim_path(s: Seq<char>) -> bool {
    windows_prefix(s) matches Some((k, _)) && is_verbatim_kind(k)
}

/// Where the prefix of `s` ends (0 where it has none).
pub open spec fn prefix_end(s: Seq<char>) -> int {
    match windows_prefix(s) {
        Some((_, n)) => n,
        None => 0,
    }
}

/// A separator, of either kind, follows the prefix (also after a verbatim
/// one).
pub open spec fn physical_root(s: Seq<char>) -> bool {
    prefix_end(s) < s.len() && is_separator(s[prefix_end(s)])
}

/// The path has a root directory: one written after the prefix, or the one
/// that a server share or a device implies.
pub open spec fn has_root(s: Seq<char>) -> bool {
    ||| physical_root(s)
    ||| windows_prefix(s) matches Some((k, _)) && (k == PrefixKind::Unc || k == PrefixKind::DeviceNs)
}

/// Where the components after the prefix and the root start.
pub open spec fn body_start(s: Seq<char>) -> int {
    if physical_root(s) {
        prefix_end(s) + 1
    } else {
        prefix_end(s)
    }
}

/// A component that names an entry: not empty, not `.`, not `..`.
pub open spec fn is_normal_name(p: Seq<char>) -> bool {
    &&& p.len() > 0
    &&& p != seq!['.']
    &&& p != seq!['.', '.']
}

/// The names of the components from `i` on, in order.
pub open spec fn names_from(s: Seq<char>, i: int, verbatim: bool) -> Seq<Seq<char>>
    decreases s.len() - i,
{
    if i < 0 || i >= s.len() {
        seq![]
    } else {
        let e = component_end(s, i, verbatim);
        let rest = if e < s.len() {
            proof {
                lemma_component_end_bounds(s, i, verbatim);
            }
            names_from(s, e + 1, verbatim)
        } else {
            seq![]
        };
        if is_normal_name(s.subrange(i, e)) {
            seq![s.subrange(i, e)] + rest
        } else {
            rest
        }
    }
}

/// The names of the entries along the path `s`.
pub open spec fn path_names(s: Seq<char>) -> Seq<Seq<char>> {
    names_from(s, body_start(s), verbatim_path(s))
}

} // verus!

verus! {

fn separates_exec(c: char, verbatim: bool) -> (r: bool)
    ensures
        r == separates(c, verbatim),
{
    if verbatim {
        c == '\\'
    } else {
        c == '\\' || c == '/'
    }
}

fn is_ascii_letter_exec(c: char) -> (r: bool)
    ensures
        r == is_ascii_letter(c),
{
    ('a' <= c && c <= 'z') || ('A' <= c && c <= 'Z')
}

fn drive_at_exec(cs: &Vec<char>, i: usize) -> (r: bool)
    ensures
        r == drive_at(cs@, i as int),
{
    i < cs.len() && cs.len() - i >= 2 && is_ascii_letter_exec(cs[i]) && cs[i + 1] == ':'
}

/// The first separator at or after `i`, or the length of `cs`.
pub fn component_end_exec(cs: &Vec<char>, i: usize, verbatim: bool) -> (e: usize)
    requires
        i <= cs@.len(),
    ensures
        e == component_end(cs@, i as int, verbatim),
        i <= e <= cs@.len(),
{
    let mut j = i;
    while j < cs.len() && !separates_exec(cs[j], verbatim)
        invariant
            i <= j <= cs@.len(),
            component_end(cs@, i as int, verbatim) == component_end(cs@, j as int, verbatim),
        decreases cs@.len() - j,
    {
        j = j + 1;
    }
    j
}

fn server_share_end_exec(cs: &Vec<char>, i: usize, verbatim: bool) -> (e: usize)
    requires
        i <= cs@.len(),
    ensures
        e == server_share_end(cs@, i as int, verbatim),
        i <= e <= cs@.len(),
{
    let e1 = component_end_exec(cs, i, verbatim);
    if e1 < cs.len() {
        let e2 = component_end_exec(cs, e1 + 1, verbatim);
        if e2 > e1 + 1 {
            return e2;
        }
    }
    e1
}

/// Recognises the prefix that `cs` starts with.
pub fn parse_windows_prefix(cs: &Vec<char>) -> (r: Option<(PrefixKind, usize)>)
    ensures
        match windows_prefix(cs@) {
            Some((k, n)) => r == Some((k, n as usize)) && 0 <= n <= cs@.len(),
            None => r is None,
        },
{
    let len = cs.len();
    let verbatim = len >= 4 && cs[0] == '\\' && cs[1] == '\\' && cs[2] == '?' && cs[3] == '\\';
    if verbatim {
        if len >= 8 && cs[4] == 'U' && cs[5] == 'N' && cs[6] == 'C' && (cs[7] == '\\' || cs[7] == '/') {
            let e = server_share_end_exec(cs, 8, true);
            Some((PrefixKind::VerbatimUnc, e))
        } else if drive_at_exec(cs, 4) && (len == 6 || cs[6] == '\\' || cs[6] == '/') {
            Some((PrefixKind::VerbatimDisk, 6))
        } else {
            let e = component_end_exec(cs, 4, true);
            Some((PrefixKind::Verbatim, e))
        }
    } else if len >= 2 && (cs[0] == '\\' || cs[0] == '/') && (cs[1] == '\\' || cs[1] == '/') {
        if len >= 4 && cs[2] == '.' && (cs[3] == '\\' || cs[3] == '/') {
            let e = component_end_exec(cs, 4, false);
            Some((PrefixKind::DeviceNs, e))
        } else {
            let e1 = component_end_exec(cs, 2, false);
            if e1 > 2 && e1 < len {
                let e2 = component_end_exec(cs, e1 + 1, false);
                if e2 > e1 + 1 {
                    return Some((PrefixKind::Unc, e2));
                }
            }
            None
        }
    } else if drive_at_exec(cs, 0) {
        Some((PrefixKind::Disk, 2))
    } else {
        None
    }
}

} // verus!

verus! {

/// `c` with an ASCII lower-case letter made upper case.
pub open spec fn upper_ascii(c: char) -> char {
    if 'a' <= c && c <= 'z' {
        ((c as int) - 32) as char
    } else {
        c
    }
}

/// The prefix as paths compare it: its kind and the parts it names (server
/// and share, device, verbatim name, or drive letter in upper case),
/// whatever separators it is written with.
pub open spec fn prefix_parts(s: Seq<char>) -> Option<(PrefixKind, Seq<char>, Seq<char>)> {
    match windows_prefix(s) {
        None => None,
        Some((k, _)) => Some(
            match k {
                PrefixKind::Verbatim => (k, s.subrange(4, component_end(s, 4, true)), seq![]),
                PrefixKind::VerbatimUnc => {
                    let e1 = component_end(s, 8, true);
                    let share = if e1 < s.len() {
                        s.subrange(e1 + 1, component_end(s, e1 + 1, true))
                    } else {
                        seq![]
                    };
                    (k, s.subrange(8, e1), share)
                },
                PrefixKind::VerbatimDisk => (k, seq![upper_ascii(s[4])], seq![]),
                PrefixKind::DeviceNs => (k, s.subrange(4, component_end(s, 4, false)), seq![]),
                PrefixKind::Unc => {
                    let e1 = component_end(s, 2, false);
                    (k, s.subrange(2, e1), s.subrange(e1 + 1, component_end(s, e1 + 1, false)))
                },
                PrefixKind::Disk => (k, seq![upper_ascii(s[0])], seq![]),
            },
        ),
    }
}

/// A piece between separators that is a component: not empty, and, outside
/// verbatim paths, not `.`.
pub open spec fn is_component(p: Seq<char>, verbatim: bool) -> bool {
    p.len() > 0 && (verbatim || p != seq!['.'])
}

/// The components from `i` on, in order (`..` included).
pub open spec fn items_from(s: Seq<char>, i: int, verbatim: bool) -> Seq<Seq<char>>
    decreases s.len() - i,
{
    if i < 0 || i >= s.len() {
        seq![]
    } else {
        let e = component_end(s, i, verbatim);
        let rest = if e < s.len() {
            proof {
                lemma_component_end_bounds(s, i, verbatim);
            }
            items_from(s, e + 1, verbatim)
        } else {
            seq![]
        };
        if is_component(s.subrange(i, e), verbatim) {
            seq![s.subrange(i, e)] + rest
        } else {
            rest
        }
    }
}

/// A path with no prefix and no root that starts with `.` keeps it as its
/// first component.
pub open spec fn leading_cur_dir(s: Seq<char>) -> bool {
    let p = prefix_end(s);
    &&& windows_prefix(s) is None
    &&& !has_root(s)
    &&& p < s.len()
    &&& s[p] == '.'
    &&& (p + 1 == s.len() || is_separator(s[p + 1]))
}

/// The components of `s` after its prefix and root.
pub open spec fn path_items(s: Seq<char>) -> Seq<Seq<char>> {
    (if leading_cur_dir(s) { seq![seq!['.']] } else { seq![] }) + items_from(s, body_start(s), verbatim_path(s))
}

/// `a` and `b` name the same path: the same prefix, both or neither with a
/// root, and the same components, however they are written (either slash,
/// repeated or trailing separators, `.` components).
pub open spec fn same_path(a: Seq<char>, b: Seq<char>) -> bool {
    &&& prefix_parts(a) == prefix_parts(b)
    &&& has_root(a) == has_root(b)
    &&& path_items(a) == path_items(b)
}

/// The parts of a path that comparison looks at.
pub struct PathKey {
    pub prefix: Option<(PrefixKind, Vec<char>, Vec<char>)>,
    pub root: bool,
    pub items: Vec<Vec<char>>,
}

pub open spec fn key_prefix_view(p: Option<(PrefixKind, Vec<char>, Vec<char>)>) -> Option<(PrefixKind, Seq<char>, Seq<char>)> {
    match p {
        Some((k, a, b)) => Some((k, a@, b@)),
        None => None,
    }
}

pub open spec fn key_of(k: PathKey, s: Seq<char>) -> bool {
    &&& key_prefix_view(k.prefix) == prefix_parts(s)
    &&& k.root == has_root(s)
    &&& k.items@.len() == path_items(s).len()
    &&& forall|i: int| 0 <= i < k.items@.len() ==> (#[trigger] k.items@[i])@ == path_items(s)[i]
}

fn upper_ascii_exec(c: char) -> (r: char)
    ensures
        r == upper_ascii(c),
{
    if 'a' <= c && c <= 'z' {
        let v = c as u8 - 32;
        v as char
    } else {
        c
    }
}

fn sub_chars(cs: &Vec<char>, from: usize, to: usize) -> (r: Vec<char>)
    requires
        from <= to <= cs@.len(),
    ensures
        r@ == cs@.subrange(from as int, to as int),
{
    let mut r: Vec<char> = Vec::new();
    let mut i = from;
    while i < to
        invariant
            from <= i <= to <= cs@.len(),
            r@ == cs@.subrange(from as int, i as int),
        decreases to - i,
    {
        r.push(cs[i]);
        i = i + 1;
    }
    r
}

fn chars_equal(a: &Vec<char>, b: &Vec<char>) -> (r: bool)
    ensures
        r == (a@ == b@),
{
    if a.len() != b.len() {
        return false;
    }
    let mut i: usize = 0;
    while i < a.len()
        invariant
            i <= a@.len() == b@.len(),
            forall|k: int| 0 <= k < i ==> a@[k] == b@[k],
        decreases a@.len() - i,
    {
        if a[i] != b[i] {
            return false;
        }
        i = i + 1;
    }
    assert(a@ =~= b@);
    true
}

fn prefix_parts_exec(cs: &Vec<char>, kind: PrefixKind) -> (r: (PrefixKind, Vec<char>, Vec<char>))
    requires
        windows_prefix(cs@) matches Some((k, _)) && k == kind,
    ensures
        prefix_parts(cs@) == Some((r.0, r.1@, r.2@)),
{
    let len = cs.len();
    match kind {
        PrefixKind::Verbatim => {
            let e = component_end_exec(cs, 4, true);
            (kind, sub_chars(cs, 4, e), Vec::new())
        },
        PrefixKind::VerbatimUnc => {
            let e1 = component_end_exec(cs, 8, true);
            let share = if e1 < len {
                let e2 = component_end_exec(cs, e1 + 1, true);
                sub_chars(cs, e1 + 1, e2)
            } else {
                Vec::new()
            };
            (kind, sub_chars(cs, 8, e1), share)
        },
        PrefixKind::VerbatimDisk => {
            let mut v: Vec<char> = Vec::new();
            v.push(upper_ascii_exec(cs[4]));
            (kind, v, Vec::new())
        },
        PrefixKind::DeviceNs => {
            let e = component_end_exec(cs, 4, false);
            (kind, sub_chars(cs, 4, e), Vec::new())
        },
        PrefixKind::Unc => {
            let e1 = component_end_exec(cs, 2, false);
            let e2 = component_end_exec(cs, e1 + 1, false);
            (kind, sub_chars(cs, 2, e1), sub_chars(cs, e1 + 1, e2))
        },
        PrefixKind::Disk => {
            let mut v: Vec<char> = Vec::new();
            v.push(upper_ascii_exec(cs[0]));
            (kind, v, Vec::new())
        },
    }
}

/// The prefix, root and components of the path `cs`.
pub fn path_key(cs: &Vec<char>) -> (k: PathKey)
    ensures
        key_of(k, cs@),
{
    let ghost s = cs@;
    let len = cs.len();
    let (prefix, pre_end, verbatim, implied_root) = match parse_windows_prefix(cs) {
        Some((kind, n)) => {
            let parts = prefix_parts_exec(cs, kind);
            let verbatim = kind == PrefixKind::Verbatim || kind == PrefixKind::VerbatimUnc || kind == PrefixKind::VerbatimDisk;
            (Some(parts), n, verbatim, kind == PrefixKind::Unc || kind == PrefixKind::DeviceNs)
        },
        None => (None, 0, false, false),
    };
    assert(verbatim == verbatim_path(s));
    assert(pre_end == prefix_end(s));
    let physical = pre_end < len && (cs[pre_end] == '\\' || cs[pre_end] == '/');
    assert(physical == physical_root(s));
    let root = physical || implied_root;
    let mut items: Vec<Vec<char>> = Vec::new();
    let cur = prefix.is_none() && !root && pre_end < len && cs[pre_end] == '.'
        && (pre_end + 1 == len || cs[pre_end + 1] == '\\' || cs[pre_end + 1] == '/');
    assert(cur == leading_cur_dir(s));
    if cur {
        let mut dot: Vec<char> = Vec::new();
        dot.push('.');
        items.push(dot);
    }
    let ghost head: Seq<Seq<char>> = if cur { seq![seq!['.']] } else { seq![] };
    let mut i: usize = if physical { pre_end + 1 } else { pre_end };
    let ghost all = items_from(s, i as int, verbatim);
    let ghost done: Seq<Seq<char>> = seq![];
    proof {
        assert(path_items(s) == head + all);
        assert(items@.len() == head.len());
    }
    while i < len
        invariant
            s == cs@,
            len == cs@.len(),
            i <= len,
            all == done + items_from(s, i as int, verbatim),
            items@.len() == head.len() + done.len(),
            path_items(s) == head + all,
            forall|k: int| 0 <= k < head.len() ==> (#[trigger] items@[k])@ == head[k],
            forall|k: int| 0 <= k < done.len() ==> (#[trigger] items@[head.len() + k])@ == done[k],
        decreases len - i,
    {
        let e = component_end_exec(cs, i, verbatim);
        proof {
            lemma_component_end_bounds(s, i as int, verbatim);
        }
        let ghost piece = s.subrange(i as int, e as int);
        let ghost rest = if e < len { items_from(s, e + 1, verbatim) } else { Seq::empty() };
        let n = e - i;
        let dot = n == 1 && cs[i] == '.';
        proof {
            assert(piece.len() == n);
            if n == 1 {
                assert(piece =~= seq![cs@[i as int]]);
            }
            if piece == seq!['.'] {
                assert(piece[0] == '.');
            }
            assert(dot == (piece == seq!['.']));
        }
        if n > 0 && (verbatim || !dot) {
            let v = sub_chars(cs, i, e);
            items.push(v);
            proof {
                assert(items_from(s, i as int, verbatim) == seq![piece] + rest);
                assert(done.push(piece) + rest =~= done + (seq![piece] + rest));
                done = done.push(piece);
            }
        } else {
            assert(items_from(s, i as int, verbatim) == rest);
        }
        if e < len {
            i = e + 1;
        } else {
            i = len;
        }
    }
    proof {
        assert(all =~= done);
        assert forall|k: int| 0 <= k < items@.len() implies (#[trigger] items@[k])@ == path_items(s)[k] by {
            if k >= head.len() {
                assert(items@[head.len() + (k - head.len())] == items@[k]);
            }
        }
    }
    PathKey { prefix, root, items }
}

/// Whether the paths `a` and `b` name the same path, compared component by
/// component.
pub fn same_path_text(a: &String, b: &String) -> (r: bool)
    ensures
        r == same_path(a@, b@),
{
    let ka = path_key(&crate::text::chars_of(a.as_str()));
    let kb = path_key(&crate::text::chars_of(b.as_str()));
    let prefix_eq = match (&ka.prefix, &kb.prefix) {
        (Some((k1, x1, y1)), Some((k2, x2, y2))) => *k1 == *k2 && chars_equal(x1, x2) && chars_equal(y1, y2),
        (None, None) => true,
        _ => false,
    };
    if !prefix_eq || ka.root != kb.root || ka.items.len() != kb.items.len() {
        return false;
    }
    let mut i: usize = 0;
    while i < ka.items.len()
        invariant
            key_of(ka, a@),
            key_of(kb, b@),
            ka.items@.len() == kb.items@.len(),
            i <= ka.items@.len(),
            forall|k: int| 0 <= k < i ==> path_items(a@)[k] == path_items(b@)[k],
        decreases ka.items@.len() - i,
    {
        if !chars_equal(&ka.items[i], &kb.items[i]) {
            assert(ka.items@[i as int]@ == path_items(a@)[i as int]);
            return false;
        }
        i = i + 1;
    }
    assert(path_items(a@) =~= path_items(b@));
    true
}

} // verus!
