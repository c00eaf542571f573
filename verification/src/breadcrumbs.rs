//! The breadcrumbs of a path and their layout in the bar.

use vstd::prelude::*;
use crate::paths::{
    PrefixKind, windows_prefix, prefix_end, has_root, physical_root, verbatim_path, path_names,
    names_from, component_end_exec, parse_windows_prefix, lemma_component_end_bounds,
    is_normal_name, separates, component_end, body_start,
};
use crate::text::{chars_of, push_char, string_of};

verus! {

/// One step of the path shown in the navigation bar: the text shown and the
/// directory it leads to.
#[derive(Clone, Debug)]
pub struct Breadcrumb {
    pub label: String,
    pub path: String,
}

/// What the walk along the path has built before its first name: the prefix,
/// and a backslash where the path has a root.
pub open spec fn start_path(s: Seq<char>) -> Seq<char> {
    let pre = s.subrange(0, prefix_end(s));
    if has_root(s) {
        pre.push('\\')
    } else {
        pre
    }
}

/// A backslash stands between the prefix and the first name: there is a
/// prefix, no root, and the prefix is not a bare drive such as `C:`.
pub open spec fn first_name_needs_separator(s: Seq<char>) -> bool {
    windows_prefix(s) matches Some((k, _)) && !has_root(s) && k != PrefixKind::Disk
}

/// The path reached after the first `k` names have been appended to `start`.
pub open spec fn joined_path(start: Seq<char>, first_sep: bool, names: Seq<Seq<char>>, k: nat) -> Seq<char>
    decreases k,
{
    if k == 0 {
        start
    } else {
        let prev = joined_path(start, first_sep, names, (k - 1) as nat);
        if k == 1 && !first_sep {
            prev + names[k - 1]
        } else {
            prev.push('\\') + names[k - 1]
        }
    }
}

/// The breadcrumb of the `k`-th name of `s`: the name, and the path up to it.
pub open spec fn name_crumb(s: Seq<char>, k: int) -> (Seq<char>, Seq<char>) {
    (path_names(s)[k], joined_path(start_path(s), first_name_needs_separator(s), path_names(s), (k + 1) as nat))
}

/// The trail of breadcrumbs of the path `s`, as (label, path) pairs: the
/// prefix, where there is one, leading to itself, then one crumb for each
/// name along the path.
pub open spec fn breadcrumb_trail(s: Seq<char>) -> Seq<(Seq<char>, Seq<char>)> {
    let named = Seq::new(path_names(s).len(), |k: int| name_crumb(s, k));
    match windows_prefix(s) {
        Some((_, n)) => seq![(s.subrange(0, n), s.subrange(0, n))] + named,
        None => named,
    }
}

/// `crumbs` holds exactly the breadcrumbs of `trail`.
pub open spec fn crumbs_match(crumbs: Seq<Breadcrumb>, trail: Seq<(Seq<char>, Seq<char>)>) -> bool {
    &&& crumbs.len() == trail.len()
    &&& forall|k: int| 0 <= k < crumbs.len() ==> (#[trigger] crumbs[k]).label@ == trail[k].0 && crumbs[k].path@ == trail[k].1
}

/// Splits a Windows path into the breadcrumbs of the navigation bar.
pub fn build_breadcrumbs(path: &str) -> (crumbs: Vec<Breadcrumb>)
    ensures
        crumbs_match(crumbs@, breadcrumb_trail(path@)),
{
    let cs = chars_of(path);
    let ghost s = cs@;
    let len = cs.len();
    let prefix = parse_windows_prefix(&cs);
    let mut crumbs: Vec<Breadcrumb> = Vec::new();
    let mut acc = String::new();
    let mut verbatim = false;
    let mut implied_root = false;
    let mut first_sep = false;
    let mut pre_end: usize = 0;
    match prefix {
        Some((kind, n)) => {
            let pre = string_of(&cs, 0, n);
            crumbs.push(Breadcrumb { label: pre.clone(), path: pre.clone() });
            acc = pre;
            pre_end = n;
            verbatim = kind == PrefixKind::Verbatim || kind == PrefixKind::VerbatimUnc || kind == PrefixKind::VerbatimDisk;
            implied_root = kind == PrefixKind::Unc || kind == PrefixKind::DeviceNs;
            first_sep = kind != PrefixKind::Disk;
        },
        None => {},
    }
    assert(verbatim == verbatim_path(s));
    assert(pre_end == prefix_end(s));
    let physical = pre_end < len && (cs[pre_end] == '\\' || cs[pre_end] == '/');
    assert(physical == physical_root(s));
    let root = physical || implied_root;
    assert(root == has_root(s));
    if root {
        push_char(&mut acc, '\\');
        first_sep = false;
    }
    assert(first_sep == first_name_needs_separator(s));
    assert(acc@ == start_path(s));
    let head: usize = crumbs.len();
    let mut i: usize = if physical { pre_end + 1 } else { pre_end };
    let mut count: usize = 0;
    let ghost names = path_names(s);
    let ghost start = start_path(s);
    proof {
        assert(names == names_from(s, i as int, verbatim));
    }
    while i < len
        invariant
            s == cs@,
            len == cs@.len(),
            i <= len,
            names == path_names(s),
            start == start_path(s),
            first_sep == first_name_needs_separator(s),
            head == (if windows_prefix(s) is Some { 1int } else { 0int }),
            crumbs@.len() == head + count,
            count <= names.len(),
            count <= i,
            names == names.subrange(0, count as int) + names_from(s, i as int, verbatim),
            acc@ == joined_path(start, first_sep, names, count as nat),
            forall|k: int| 0 <= k < head ==>
                (#[trigger] crumbs@[k]).label@ == breadcrumb_trail(s)[k].0
                && crumbs@[k].path@ == breadcrumb_trail(s)[k].1,
            forall|k: int| 0 <= k < count ==>
                (#[trigger] crumbs@[head + k]).label@ == names[k]
                && crumbs@[head + k].path@ == joined_path(start, first_sep, names, (k + 1) as nat),
        decreases len - i,
    {
        let e = component_end_exec(&cs, i, verbatim);
        proof {
            lemma_component_end_bounds(s, i as int, verbatim);
        }
        let ghost piece = s.subrange(i as int, e as int);
        let n = e - i;
        let dot_like = (n == 1 && cs[i] == '.') || (n == 2 && cs[i] == '.' && cs[i + 1] == '.');
        proof {
            if n == 1 {
                assert(piece =~= seq![cs@[i as int]]);
            }
            if n == 2 {
                assert(piece =~= seq![cs@[i as int], cs@[i + 1]]);
            }
            assert(piece.len() == n);
            if piece == seq!['.'] {
                assert(piece[0] == '.');
            }
            if piece == seq!['.', '.'] {
                assert(piece[0] == '.' && piece[1] == '.');
            }
            assert(dot_like == (piece == seq!['.'] || piece == seq!['.', '.']));
        }
        let ghost rest = if e < len { names_from(s, e + 1, verbatim) } else { Seq::empty() };
        if n > 0 && !dot_like {
            let name = string_of(&cs, i, e);
            assert(names_from(s, i as int, verbatim) == seq![piece] + rest);
            assert(names[count as int] == piece);
            if count > 0 || first_sep {
                push_char(&mut acc, '\\');
            }
            let name_str = name.as_str();
            acc.append(name_str);
            proof {
                assert(acc@ == joined_path(start, first_sep, names, (count + 1) as nat));
            }
            crumbs.push(Breadcrumb { label: name, path: acc.clone() });
            proof {
                assert(names.subrange(0, count + 1) =~= names.subrange(0, count as int).push(piece));
                assert(names == names.subrange(0, count + 1) + rest);
            }
            count = count + 1;
        } else {
            assert(names_from(s, i as int, verbatim) == rest);
        }
        if e < len {
            i = e + 1;
        } else {
            i = len;
        }
    }
    proof {
        assert(names.subrange(0, count as int) =~= names);
        let trail = breadcrumb_trail(s);
        assert forall|k: int| 0 <= k < crumbs@.len() implies
            (#[trigger] crumbs@[k]).label@ == trail[k].0 && crumbs@[k].path@ == trail[k].1 by {
            if k >= head {
                assert(crumbs@[head + (k - head)] == crumbs@[k]);
            }
        }
    }
    crumbs
}

} // verus!

verus! {

/// The trail handed over by a portable-path resolver, as (label, path)
/// pairs; a resolver that failed yields no breadcrumb.
pub open spec fn segment_trail(segments: Option<Seq<(String, String)>>) -> Seq<(Seq<char>, Seq<char>)> {
    match segments {
        Some(v) => Seq::new(v.len(), |k: int| (v[k].0@, v[k].1@)),
        None => seq![],
    }
}

/// Turns the (label, path) segments of a portable path into breadcrumbs.
pub fn breadcrumbs_from_segments(segments: Option<Vec<(String, String)>>) -> (crumbs: Vec<Breadcrumb>)
    ensures
        crumbs_match(crumbs@, segment_trail(match segments { Some(v) => Some(v@), None => None })),
{
    let mut crumbs: Vec<Breadcrumb> = Vec::new();
    match segments {
        Some(v) => {
            let mut i: usize = 0;
            while i < v.len()
                invariant
                    i <= v@.len(),
                    crumbs@.len() == i,
                    forall|k: int| 0 <= k < i ==> (#[trigger] crumbs@[k]).label@ == v@[k].0@ && crumbs@[k].path@ == v@[k].1@,
                decreases v@.len() - i,
            {
                crumbs.push(Breadcrumb { label: v[i].0.clone(), path: v[i].1.clone() });
                i = i + 1;
            }
        },
        None => {},
    }
    crumbs
}

/// A breadcrumb as laid out in the bar: the label shown, possibly cut short,
/// the full label, the directory, and whether it stands for omitted crumbs.
#[derive(Clone, Debug)]
pub struct RenderedBreadcrumb {
    pub label: String,
    pub full_label: String,
    pub path: String,
    pub truncated: bool,
    pub is_ellipsis: bool,
}

pub open spec fn ellipsis_text() -> Seq<char> {
    seq!['.', '.', '.']
}

fn ellipsis() -> (r: String)
    ensures
        r@ == ellipsis_text(),
{
    let mut r = String::new();
    push_char(&mut r, '.');
    push_char(&mut r, '.');
    push_char(&mut r, '.');
    r
}

/// `r` shows the crumb `c` whole.
pub open spec fn renders_whole(r: RenderedBreadcrumb, c: Breadcrumb) -> bool {
    &&& r.label@ == c.label@
    &&& r.full_label@ == c.label@
    &&& r.path@ == c.path@
    &&& !r.truncated
    &&& !r.is_ellipsis
}

/// Every breadcrumb, shown whole, before any of them is measured.
pub fn render_whole(crumbs: &Vec<Breadcrumb>) -> (r: Vec<RenderedBreadcrumb>)
    ensures
        r@.len() == crumbs@.len(),
        forall|k: int| 0 <= k < r@.len() ==> renders_whole(#[trigger] r@[k], crumbs@[k]),
{
    let mut r: Vec<RenderedBreadcrumb> = Vec::new();
    let mut i: usize = 0;
    while i < crumbs.len()
        invariant
            i <= crumbs@.len(),
            r@.len() == i,
            forall|k: int| 0 <= k < i ==> renders_whole(#[trigger] r@[k], crumbs@[k]),
        decreases crumbs@.len() - i,
    {
        r.push(RenderedBreadcrumb {
            label: crumbs[i].label.clone(),
            full_label: crumbs[i].label.clone(),
            path: crumbs[i].path.clone(),
            truncated: false,
            is_ellipsis: false,
        });
        i = i + 1;
    }
    r
}

/// The crumb that stands for those left out: `...`, leading to `path`.
pub open spec fn is_ellipsis_crumb(r: RenderedBreadcrumb, path: Seq<char>) -> bool {
    &&& r.label@ == ellipsis_text()
    &&& r.full_label@ == ellipsis_text()
    &&& r.path@ == path
    &&& !r.truncated
    &&& r.is_ellipsis
}

/// The layout that keeps the first crumb and the last `kept` ones: where
/// crumbs are left out between them, an ellipsis leading to the first
/// crumb's directory takes their place.
pub open spec fn kept_layout(crumbs: Seq<RenderedBreadcrumb>, kept: int, r: Seq<RenderedBreadcrumb>) -> bool {
    let n = crumbs.len() as int;
    let omitted = kept < n - 1;
    let gap: int = if omitted { 1 } else { 0 };
    &&& r.len() == 1 + gap + kept
    &&& r[0] == crumbs[0]
    &&& omitted ==> is_ellipsis_crumb(r[1], crumbs[0].path@)
    &&& forall|i: int| 1 + gap <= i < r.len() ==> #[trigger] r[i] == crumbs[n - kept + (i - 1 - gap)]
}

/// Lays out the crumbs when they do not all fit: the first one, an ellipsis
/// where some are left out, and the last `kept` ones in their order.
pub fn keep_first_and_last(crumbs: Vec<RenderedBreadcrumb>, kept: usize) -> (r: Vec<RenderedBreadcrumb>)
    requires
        crumbs@.len() >= 1,
        kept < crumbs@.len(),
    ensures
        kept_layout(crumbs@, kept as int, r@),
        kept + 1 < crumbs@.len() ==> r@.len() == kept + 2 && r@[1].is_ellipsis && r@[1].path@ == crumbs@[0].path@,
        kept + 1 == crumbs@.len() ==> r@ == crumbs@,
        r@.len() >= 1 && r@[0] == crumbs@[0],
        r@.last() == (if kept == 0 && crumbs@.len() > 1 { r@[1] } else { crumbs@.last() }),
{
    let n = crumbs.len();
    let mut r: Vec<RenderedBreadcrumb> = Vec::new();
    let first = RenderedBreadcrumb {
        label: crumbs[0].label.clone(),
        full_label: crumbs[0].full_label.clone(),
        path: crumbs[0].path.clone(),
        truncated: crumbs[0].truncated,
        is_ellipsis: crumbs[0].is_ellipsis,
    };
    r.push(first);
    let omitted = kept < n - 1;
    if omitted {
        r.push(RenderedBreadcrumb {
            label: ellipsis(),
            full_label: ellipsis(),
            path: crumbs[0].path.clone(),
            truncated: false,
            is_ellipsis: true,
        });
    }
    let gap: usize = if omitted { 1 } else { 0 };
    let mut i: usize = n - kept;
    while i < n
        invariant
            n == crumbs@.len(),
            kept < n,
            n - kept <= i <= n,
            gap == (if omitted { 1usize } else { 0usize }),
            omitted == (kept < n - 1),
            r@.len() == 1 + gap + (i - (n - kept)),
            r@[0] == crumbs@[0],
            omitted ==> is_ellipsis_crumb(r@[1], crumbs@[0].path@),
            forall|j: int| 1 + gap <= j < r@.len() ==> #[trigger] r@[j] == crumbs@[n - kept + (j - 1 - gap)],
        decreases n - i,
    {
        let c = RenderedBreadcrumb {
            label: crumbs[i].label.clone(),
            full_label: crumbs[i].full_label.clone(),
            path: crumbs[i].path.clone(),
            truncated: crumbs[i].truncated,
            is_ellipsis: crumbs[i].is_ellipsis,
        };
        r.push(c);
        i = i + 1;
    }
    proof {
        lemma_layout_marks_omission(crumbs@, kept as int, r@);
    }
    r
}

/// The label `full` cut to its first `keep` characters, followed by `...`.
pub fn shortened_label(full: &String, keep: usize) -> (r: String)
    requires
        keep <= full@.len(),
    ensures
        r@ == full@.subrange(0, keep as int) + ellipsis_text(),
{
    let cs = chars_of(full.as_str());
    let mut r = string_of(&cs, 0, keep);
    push_char(&mut r, '.');
    push_char(&mut r, '.');
    push_char(&mut r, '.');
    r
}

/// Sets the label of the last crumb: its full label where it fits (`keep` is
/// `None`), else its first `keep` characters followed by `...`, marked as cut.
pub fn fit_last_label(crumbs: &mut Vec<RenderedBreadcrumb>, keep: Option<usize>)
    requires
        old(crumbs)@.len() >= 1,
        keep matches Some(k) ==> k <= old(crumbs)@[old(crumbs)@.len() - 1].full_label@.len(),
    ensures
        final(crumbs)@.len() == old(crumbs)@.len(),
        forall|k: int| 0 <= k < final(crumbs)@.len() - 1 ==> #[trigger] final(crumbs)@[k] == old(crumbs)@[k],
        ({
            let last = old(crumbs)@.len() - 1;
            let before = old(crumbs)@[last];
            let after = final(crumbs)@[last];
            &&& after.full_label@ == before.full_label@
            &&& after.path@ == before.path@
            &&& after.is_ellipsis == before.is_ellipsis
            &&& match keep {
                Some(k) => after.label@ == before.full_label@.subrange(0, k as int) + ellipsis_text() && after.truncated,
                None => after.label@ == before.full_label@ && !after.truncated,
            }
        }),
{
    let last = crumbs.len() - 1;
    let label = match keep {
        Some(k) => shortened_label(&crumbs[last].full_label, k),
        None => crumbs[last].full_label.clone(),
    };
    let updated = RenderedBreadcrumb {
        label,
        full_label: crumbs[last].full_label.clone(),
        path: crumbs[last].path.clone(),
        truncated: keep.is_some(),
        is_ellipsis: crumbs[last].is_ellipsis,
    };
    crumbs.set(last, updated);
}

} // verus!

verus! {

proof fn lemma_names_from_clean(s: Seq<char>, i: int, verbatim: bool)
    ensures
        forall|k: int| 0 <= k < names_from(s, i, verbatim).len() ==> {
            let name = #[trigger] names_from(s, i, verbatim)[k];
            &&& is_normal_name(name)
            &&& forall|m: int| 0 <= m < name.len() ==> !separates(#[trigger] name[m], verbatim)
        },
    decreases s.len() - i,
{
    if 0 <= i < s.len() {
        let e = component_end(s, i, verbatim);
        lemma_component_end_bounds(s, i, verbatim);
        let piece = s.subrange(i, e);
        let rest = if e < s.len() { names_from(s, e + 1, verbatim) } else { seq![] };
        if e < s.len() {
            lemma_names_from_clean(s, e + 1, verbatim);
        }
        assert forall|m: int| 0 <= m < piece.len() implies !separates(#[trigger] piece[m], verbatim) by {
            assert(piece[m] == s[i + m]);
        }
        let all = names_from(s, i, verbatim);
        assert forall|k: int| 0 <= k < all.len() implies {
            let name = #[trigger] all[k];
            &&& is_normal_name(name)
            &&& forall|m: int| 0 <= m < name.len() ==> !separates(#[trigger] name[m], verbatim)
        } by {
            if is_normal_name(piece) {
                assert(all == seq![piece] + rest);
                if k > 0 {
                    assert(all[k] == rest[k - 1]);
                }
            } else {
                assert(all == rest);
            }
        }
    }
}

/// Every breadcrumb after the prefix names one entry: its label is not
/// empty, not `.` or `..`, and holds no backslash.
pub proof fn lemma_crumb_labels_are_names(s: Seq<char>, k: int)
    requires
        0 <= k < path_names(s).len(),
    ensures
        path_names(s)[k].len() > 0,
        path_names(s)[k] != seq!['.'],
        path_names(s)[k] != seq!['.', '.'],
        forall|m: int| 0 <= m < path_names(s)[k].len() ==> #[trigger] path_names(s)[k][m] != '\\',
{
    lemma_names_from_clean(s, body_start(s), verbatim_path(s));
    let name = path_names(s)[k];
    assert forall|m: int| 0 <= m < name.len() implies #[trigger] name[m] != '\\' by {
        assert(!separates(name[m], verbatim_path(s)));
    }
}

/// Each breadcrumb leads to the directory of the one before it, extended by
/// its own label, with or without a backslash between them: with one from
/// the second name on, and after a prefix followed by a root.
pub proof fn lemma_crumb_paths_extend(s: Seq<char>, k: int)
    requires
        1 <= k < breadcrumb_trail(s).len(),
    ensures
        ({
            let t = breadcrumb_trail(s);
            ||| t[k].1 == t[k - 1].1 + t[k].0
            ||| t[k].1 == t[k - 1].1.push('\\') + t[k].0
        }),
        k > (if windows_prefix(s) is Some { 1int } else { 0int }) ==>
            breadcrumb_trail(s)[k].1 == breadcrumb_trail(s)[k - 1].1.push('\\') + breadcrumb_trail(s)[k].0,
        windows_prefix(s) is Some && has_root(s) && k == 1 ==>
            breadcrumb_trail(s)[1].1 == breadcrumb_trail(s)[0].1.push('\\') + breadcrumb_trail(s)[1].0,
{
    let t = breadcrumb_trail(s);
    let names = path_names(s);
    let named = Seq::new(names.len(), |j: int| name_crumb(s, j));
    let start = start_path(s);
    let fs = first_name_needs_separator(s);
    match windows_prefix(s) {
        Some((kind, n)) => {
            assert(t == seq![(s.subrange(0, n), s.subrange(0, n))] + named);
            assert(t[k] == named[k - 1]);
            assert(t[k - 1] == (if k == 1 { (s.subrange(0, n), s.subrange(0, n)) } else { named[k - 2] }));
            if k == 1 {
                assert(prefix_end(s) == n);
                assert(joined_path(start, fs, names, 0) == start);
            }
        },
        None => {
            assert(t == named);
        },
    }
}

} // verus!

verus! {

/// The breadcrumbs of `path`: those its portable-path resolver gave, where
/// the path is a portable one (`portable_segments` is `Some`), else those of
/// its components.
pub fn breadcrumbs_for(path: &str, portable_segments: Option<Option<Vec<(String, String)>>>) -> (crumbs: Vec<Breadcrumb>)
    ensures
        match portable_segments {
            Some(segments) => crumbs_match(crumbs@, segment_trail(match segments { Some(v) => Some(v@), None => None })),
            None => crumbs_match(crumbs@, breadcrumb_trail(path@)),
        },
{
    match portable_segments {
        Some(segments) => breadcrumbs_from_segments(segments),
        None => build_breadcrumbs(path),
    }
}

proof fn lemma_component_end_le(s: Seq<char>, t: int, k: int, verbatim: bool)
    requires
        0 <= t <= k < s.len(),
        separates(s[k], verbatim),
    ensures
        component_end(s, t, verbatim) <= k,
    decreases k - t,
{
    if t < k && !separates(s[t], verbatim) {
        lemma_component_end_le(s, t + 1, k, verbatim);
    }
}

proof fn lemma_component_end_reaches(s: Seq<char>, m: int, j: int, verbatim: bool)
    requires
        0 <= m <= j <= s.len(),
        forall|q: int| m <= q < j ==> s[q] != '\\' && s[q] != '/',
        j == s.len() || s[j] == '\\',
    ensures
        component_end(s, m, verbatim) == j,
    decreases j - m,
{
    if m < j {
        assert(!separates(s[m], verbatim));
        lemma_component_end_reaches(s, m + 1, j, verbatim);
    }
}

proof fn lemma_names_from_has_piece(s: Seq<char>, t: int, i: int, j: int, verbatim: bool)
    requires
        0 <= t <= i < j <= s.len(),
        t == i || s[i - 1] == '\\',
        forall|q: int| i <= q < j ==> s[q] != '\\' && s[q] != '/',
        j == s.len() || s[j] == '\\',
        s.subrange(i, j) != seq!['.'],
        s.subrange(i, j) != seq!['.', '.'],
    ensures
        names_from(s, t, verbatim).contains(s.subrange(i, j)),
    decreases i - t,
{
    lemma_component_end_bounds(s, t, verbatim);
    let e = component_end(s, t, verbatim);
    let rest = if e < s.len() { names_from(s, e + 1, verbatim) } else { seq![] };
    if t == i {
        lemma_component_end_reaches(s, i, j, verbatim);
        assert(is_normal_name(s.subrange(i, j)));
        assert(names_from(s, t, verbatim) == seq![s.subrange(i, j)] + rest);
        assert(names_from(s, t, verbatim)[0] == s.subrange(i, j));
    } else {
        lemma_component_end_le(s, t, i - 1, verbatim);
        lemma_names_from_has_piece(s, e + 1, i, j, verbatim);
        let x = s.subrange(i, j);
        let idx = choose|idx: int| 0 <= idx < rest.len() && rest[idx] == x;
        if is_normal_name(s.subrange(t, e)) {
            assert(names_from(s, t, verbatim) == seq![s.subrange(t, e)] + rest);
            assert(names_from(s, t, verbatim)[idx + 1] == x);
        } else {
            assert(names_from(s, t, verbatim) == rest);
        }
    }
}

/// Every piece of the path between backslashes (or the start of the
/// components and the end) that names an entry, that is every piece other
/// than an empty one, `.` and `..` (a name such as `.git` included), is the
/// label of one of the breadcrumbs after the prefix.
pub proof fn lemma_every_name_gets_a_crumb(s: Seq<char>, i: int, j: int)
    requires
        body_start(s) <= i < j <= s.len(),
        i == body_start(s) || s[i - 1] == '\\',
        j == s.len() || s[j] == '\\',
        forall|q: int| i <= q < j ==> s[q] != '\\' && s[q] != '/',
        s.subrange(i, j) != seq!['.'],
        s.subrange(i, j) != seq!['.', '.'],
    ensures
        exists|k: int|
            (if windows_prefix(s) is Some { 1int } else { 0int }) <= k < breadcrumb_trail(s).len()
            && #[trigger] breadcrumb_trail(s)[k].0 == s.subrange(i, j),
{
    lemma_component_end_bounds(s, 0, false);
    assert(body_start(s) >= 0) by {
        if windows_prefix(s) is Some {
            let (kind, n) = windows_prefix(s).unwrap();
            lemma_component_end_bounds(s, 4, true);
            lemma_component_end_bounds(s, 4, false);
            lemma_component_end_bounds(s, 2, false);
            lemma_component_end_bounds(s, 8, true);
        }
    }
    lemma_names_from_has_piece(s, body_start(s), i, j, verbatim_path(s));
    let names = path_names(s);
    let x = s.subrange(i, j);
    let idx = choose|idx: int| 0 <= idx < names.len() && names[idx] == x;
    let head: int = if windows_prefix(s) is Some { 1int } else { 0int };
    let t = breadcrumb_trail(s);
    let named = Seq::new(names.len(), |k: int| name_crumb(s, k));
    if windows_prefix(s) is Some {
        let (kind, n) = windows_prefix(s).unwrap();
        assert(t == seq![(s.subrange(0, n), s.subrange(0, n))] + named);
    } else {
        assert(t == named);
    }
    assert(t[head + idx] == named[idx]);
    assert(t[head + idx].0 == x);
}

/// A layout keeps the first crumb; where any crumb is left out, however few,
/// the ellipsis comes second and leads to the first crumb's directory, and
/// the layout holds the first crumb, the ellipsis and the kept ones; where none
/// is left out, the layout is the crumbs themselves; the last entry is the
/// last crumb, unless none was kept after the ellipsis.
pub proof fn lemma_layout_marks_omission(crumbs: Seq<RenderedBreadcrumb>, kept: int, r: Seq<RenderedBreadcrumb>)
    requires
        0 <= kept < crumbs.len(),
        kept_layout(crumbs, kept, r),
    ensures
        r.len() >= 1 && r[0] == crumbs[0],
        kept + 1 < crumbs.len() ==> r.len() == kept + 2 && r[1].is_ellipsis && r[1].path@ == crumbs[0].path@,
        kept + 1 == crumbs.len() ==> r == crumbs,
        r.last() == (if kept == 0 && crumbs.len() > 1 { r[1] } else { crumbs.last() }),
{
    let n = crumbs.len() as int;
    if kept + 1 == n {
        assert forall|i: int| 0 <= i < r.len() implies r[i] == crumbs[i] by {
            if i >= 1 {
                assert(r[i] == crumbs[n - kept + (i - 1)]);
            }
        }
        assert(r =~= crumbs);
    }
    if kept > 0 {
        assert(r[r.len() - 1] == crumbs[n - 1]);
    }
}

} // verus!
