//! Typing a path into the bar in place of the breadcrumbs.

use vstd::prelude::*;
use crate::text::{chars_of, string_of};

verus! {

/// Whether `c` has Unicode's White_Space property, the characters that
/// `char::is_whitespace` accepts: the controls U+0009 to U+000D, the space,
/// U+0085, U+00A0, U+1680, U+2000 to U+200A, U+2028, U+2029, U+202F, U+205F
/// and U+3000.
pub open spec fn unicode_white_space(c: char) -> bool {
    let v = c as int;
    ||| 0x9 <= v <= 0xD
    ||| v == 0x20
    ||| v == 0x85
    ||| v == 0xA0
    ||| v == 0x1680
    ||| 0x2000 <= v <= 0x200A
    ||| v == 0x2028
    ||| v == 0x2029
    ||| v == 0x202F
    ||| v == 0x205F
    ||| v == 0x3000
}

fn is_white_space(c: char) -> (r: bool)
    ensures
        r == unicode_white_space(c),
{
    let v = c as u32;
    (0x9 <= v && v <= 0xD) || v == 0x20 || v == 0x85 || v == 0xA0 || v == 0x1680
        || (0x2000 <= v && v <= 0x200A) || v == 0x2028 || v == 0x2029 || v == 0x202F
        || v == 0x205F || v == 0x3000
}

/// Where the run of characters satisfying `strip` that starts at `i` ends.
pub open spec fn strip_front(s: Seq<char>, strip: spec_fn(char) -> bool, i: int) -> int
    decreases s.len() - i,
{
    if i < 0 || i >= s.len() {
        s.len() as int
    } else if strip(s[i]) {
        strip_front(s, strip, i + 1)
    } else {
        i
    }
}

/// Where the run of characters satisfying `strip` that ends at `j` starts.
pub open spec fn strip_back(s: Seq<char>, strip: spec_fn(char) -> bool, j: int) -> int
    decreases j,
{
    if j <= 0 || j > s.len() {
        0
    } else if strip(s[j - 1]) {
        strip_back(s, strip, j - 1)
    } else {
        j
    }
}

/// `s` without the characters satisfying `strip` at either end.
pub open spec fn trimmed(s: Seq<char>, strip: spec_fn(char) -> bool) -> Seq<char> {
    let a = strip_front(s, strip, 0);
    let b = strip_back(s, strip, s.len() as int);
    if a <= b {
        s.subrange(a, b)
    } else {
        seq![]
    }
}

pub open spec fn is_quote(c: char) -> bool {
    c == '"'
}

/// The characters trimmed: double quotes, or white space.
pub open spec fn trims(quotes: bool, c: char) -> bool {
    if quotes {
        is_quote(c)
    } else {
        unicode_white_space(c)
    }
}

/// The path typed into the bar: the text without surrounding white space,
/// then without surrounding double quotes.
pub open spec fn typed_path(buffer: Seq<char>) -> Seq<char> {
    trimmed(trimmed(buffer, |c: char| trims(false, c)), |c: char| trims(true, c))
}

fn strips(c: char, quotes: bool) -> (r: bool)
    ensures
        r == trims(quotes, c),
{
    if quotes {
        c == '"'
    } else {
        is_white_space(c)
    }
}

fn trim_chars(cs: &Vec<char>, quotes: bool) -> (r: String)
    ensures
        r@ == trimmed(cs@, |c: char| trims(quotes, c)),
{
    let ghost strip = |c: char| trims(quotes, c);
    let len = cs.len();
    let mut a: usize = 0;
    while a < len && strips(cs[a], quotes)
        invariant
            a <= len == cs@.len(),
            strip == (|c: char| trims(quotes, c)),
            strip_front(cs@, strip, 0) == strip_front(cs@, strip, a as int),
        decreases len - a,
    {
        a = a + 1;
    }
    let mut b: usize = len;
    while b > 0 && strips(cs[b - 1], quotes)
        invariant
            b <= len == cs@.len(),
            strip == (|c: char| trims(quotes, c)),
            strip_back(cs@, strip, len as int) == strip_back(cs@, strip, b as int),
        decreases b,
    {
        b = b - 1;
    }
    if a <= b {
        string_of(cs, a, b)
    } else {
        String::new()
    }
}

/// The path typed into the bar, as it is looked up: without surrounding
/// white space, then without surrounding double quotes.
pub fn typed_path_text(buffer: &String) -> (r: String)
    ensures
        r@ == typed_path(buffer@),
{
    let cs = chars_of(buffer.as_str());
    let once = trim_chars(&cs, false);
    let cs2 = chars_of(once.as_str());
    trim_chars(&cs2, true)
}

} // verus!

verus! {

/// The state of the path field that replaces the breadcrumbs while the user
/// types a path.
#[derive(Clone, Debug)]
pub struct BreadcrumbEditState {
    pub editing: bool,
    pub select_all_on_focus: bool,
    pub just_started_editing: bool,
    pub path_error: bool,
    pub buffer: String,
}

/// A click on the empty part of the bar starts editing the current path.
pub fn start_path_editing(state: &mut BreadcrumbEditState, current_path: &String)
    ensures
        final(state).editing,
        final(state).buffer@ == current_path@,
        final(state).select_all_on_focus == old(state).select_all_on_focus,
        final(state).just_started_editing == old(state).just_started_editing,
        final(state).path_error == old(state).path_error,
{
    state.editing = true;
    state.buffer = current_path.clone();
}

/// First half of a frame in the path field, once the field reported whether
/// its text changed: a change clears the error; focus is requested on the
/// first frame and while the path is in error. Returns whether to request it.
pub fn edit_frame_begin(state: &mut BreadcrumbEditState, changed: bool) -> (request_focus: bool)
    ensures
        final(state).path_error == (old(state).path_error && !changed),
        request_focus == (!old(state).just_started_editing || final(state).path_error),
        final(state).just_started_editing == (old(state).just_started_editing || request_focus),
        final(state).editing == old(state).editing,
        final(state).select_all_on_focus == old(state).select_all_on_focus,
        final(state).buffer == old(state).buffer,
{
    if changed {
        state.path_error = false;
    }
    let request = !state.just_started_editing || state.path_error;
    if request {
        state.just_started_editing = true;
    }
    request
}

/// What the user did with the path field in this frame.
#[derive(Clone, Debug)]
pub enum PathEditCommand {
    /// Enter: the typed path, with its variables expanded, and whether it exists.
    Submit { expanded: String, exists: bool },
    /// Escape, or the field lost focus.
    Cancel,
    /// Nothing that ends the edit.
    Continue,
}

/// What the second half of a frame asks of its caller.
#[derive(Clone, Debug)]
pub struct PathEditOutcome {
    /// The directory to open.
    pub nav_to: Option<String>,
    /// The field has the keyboard focus.
    pub edit_active: bool,
    /// Editing ended: the field gives up the focus.
    pub left_editing: bool,
    /// The submitted path does not exist: report it and start the shake.
    pub rejected: bool,
}

/// Second half of a frame in the path field: the field reported whether it
/// has focus, and what the user did. An existing submitted path is opened and
/// ends editing; a missing one is rejected and marks the error; a cancel
/// restores the current path and ends editing; ending editing clears the
/// editing flags.
pub fn edit_frame_end(
    state: &mut BreadcrumbEditState,
    has_focus: bool,
    command: PathEditCommand,
    current_path: &String,
) -> (r: PathEditOutcome)
    ensures
        r.edit_active == has_focus,
        final(state).select_all_on_focus == (old(state).select_all_on_focus && !has_focus),
        match command {
            PathEditCommand::Submit { expanded, exists } => {
                &&& r.nav_to == (if exists { Some(expanded) } else { None })
                &&& r.left_editing == exists
                &&& r.rejected == !exists
                &&& final(state).buffer == old(state).buffer
            },
            PathEditCommand::Cancel => {
                &&& r.nav_to is None
                &&& r.left_editing
                &&& !r.rejected
                &&& final(state).buffer@ == current_path@
            },
            PathEditCommand::Continue => {
                &&& r.nav_to is None
                &&& !r.left_editing
                &&& !r.rejected
                &&& final(state).buffer == old(state).buffer
            },
        },
        r.left_editing ==> !final(state).editing && !final(state).just_started_editing && !final(state).path_error,
        !r.left_editing ==> final(state).editing == old(state).editing
            && final(state).just_started_editing == old(state).just_started_editing
            && final(state).path_error == (old(state).path_error || r.rejected),
{
    if has_focus {
        state.select_all_on_focus = false;
    }
    let mut outcome = PathEditOutcome { nav_to: None, edit_active: has_focus, left_editing: false, rejected: false };
    match command {
        PathEditCommand::Submit { expanded, exists } => {
            if exists {
                outcome.nav_to = Some(expanded);
                outcome.left_editing = true;
            } else {
                state.path_error = true;
                outcome.rejected = true;
            }
        },
        PathEditCommand::Cancel => {
            state.buffer = current_path.clone();
            outcome.left_editing = true;
        },
        PathEditCommand::Continue => {},
    }
    if outcome.left_editing {
        state.editing = false;
        state.just_started_editing = false;
        state.path_error = false;
    }
    outcome
}

} // verus!

verus! {

proof fn lemma_strip_front(s: Seq<char>, strip: spec_fn(char) -> bool, i: int)
    requires
        0 <= i <= s.len(),
    ensures
        i <= strip_front(s, strip, i) <= s.len(),
        strip_front(s, strip, i) < s.len() ==> !strip(s[strip_front(s, strip, i)]),
        forall|k: int| i <= k < strip_front(s, strip, i) ==> strip(#[trigger] s[k]),
    decreases s.len() - i,
{
    if i < s.len() && strip(s[i]) {
        lemma_strip_front(s, strip, i + 1);
    }
}

proof fn lemma_strip_back(s: Seq<char>, strip: spec_fn(char) -> bool, j: int)
    requires
        0 <= j <= s.len(),
    ensures
        0 <= strip_back(s, strip, j) <= j,
        strip_back(s, strip, j) > 0 ==> !strip(s[strip_back(s, strip, j) - 1]),
        forall|k: int| strip_back(s, strip, j) <= k < j ==> strip(#[trigger] s[k]),
    decreases j,
{
    if j > 0 && strip(s[j - 1]) {
        lemma_strip_back(s, strip, j - 1);
    }
}

/// `trimmed(s, strip)` is a part of `s` that neither starts nor ends with a
/// character to strip, and what it leaves out at either end is all stripped.
proof fn lemma_trimmed(s: Seq<char>, strip: spec_fn(char) -> bool)
    ensures
        exists|i: int, j: int| 0 <= i <= j <= s.len() && trimmed(s, strip) == s.subrange(i, j)
            && (forall|k: int| 0 <= k < i ==> strip(#[trigger] s[k]))
            && (forall|k: int| j <= k < s.len() ==> strip(#[trigger] s[k])),
        trimmed(s, strip).len() > 0 ==> !strip(trimmed(s, strip)[0]) && !strip(trimmed(s, strip).last()),
        s.len() > 0 && !strip(s[0]) && !strip(s.last()) ==> trimmed(s, strip) == s,
{
    let len = s.len() as int;
    lemma_strip_front(s, strip, 0);
    lemma_strip_back(s, strip, len);
    let a = strip_front(s, strip, 0);
    let b = strip_back(s, strip, len);
    if a <= b {
        assert(trimmed(s, strip) == s.subrange(a, b));
        if a < b {
            assert(trimmed(s, strip)[0] == s[a]);
            assert(trimmed(s, strip).last() == s[b - 1]);
        }
    } else {
        assert(forall|k: int| 0 <= k < len ==> strip(#[trigger] s[k]));
        assert(trimmed(s, strip) == s.subrange(len, len));
    }
    if s.len() > 0 && !strip(s[0]) && !strip(s.last()) {
        assert(a == 0);
        assert(b == len);
        assert(s.subrange(0, len) =~= s);
    }
}

proof fn lemma_trim_twice(s: Seq<char>, f: spec_fn(char) -> bool, g: spec_fn(char) -> bool)
    ensures
        exists|i: int, j: int| 0 <= i <= j <= s.len() && trimmed(trimmed(s, f), g) == s.subrange(i, j)
            && (forall|k: int| 0 <= k < i ==> f(#[trigger] s[k]) || g(s[k]))
            && (forall|k: int| j <= k < s.len() ==> f(#[trigger] s[k]) || g(s[k])),
        trimmed(trimmed(s, f), g).len() > 0 ==> !g(trimmed(trimmed(s, f), g)[0]) && !g(trimmed(trimmed(s, f), g).last()),
        s.len() > 0 && !f(s[0]) && !g(s[0]) && !f(s.last()) && !g(s.last()) ==> trimmed(trimmed(s, f), g) == s,
{
    lemma_trimmed(s, f);
    let inner = trimmed(s, f);
    lemma_trimmed(inner, g);
    let (i1, j1) = choose|i: int, j: int| 0 <= i <= j <= s.len() && inner == s.subrange(i, j)
        && (forall|k: int| 0 <= k < i ==> f(#[trigger] s[k]))
        && (forall|k: int| j <= k < s.len() ==> f(#[trigger] s[k]));
    let (i2, j2) = choose|i: int, j: int| 0 <= i <= j <= inner.len() && trimmed(inner, g) == inner.subrange(i, j)
        && (forall|k: int| 0 <= k < i ==> g(#[trigger] inner[k]))
        && (forall|k: int| j <= k < inner.len() ==> g(#[trigger] inner[k]));
    assert(trimmed(inner, g) =~= s.subrange(i1 + i2, i1 + j2));
    assert forall|k: int| 0 <= k < i1 + i2 implies f(#[trigger] s[k]) || g(s[k]) by {
        if k >= i1 {
            assert(inner[k - i1] == s[k]);
        }
    }
    assert forall|k: int| i1 + j2 <= k < s.len() implies f(#[trigger] s[k]) || g(s[k]) by {
        if k < j1 {
            assert(inner[k - i1] == s[k]);
        }
    }
    if s.len() > 0 && !f(s[0]) && !g(s[0]) && !f(s.last()) && !g(s.last()) {
        assert(inner == s);
    }
}

/// The path typed into the bar is a part of what was typed: all it leaves out
/// at either end is white space or double quotes; it neither starts nor ends
/// with a double quote; and text that starts and ends with neither is taken
/// whole.
pub proof fn lemma_typed_path_is_trimmed(buffer: Seq<char>)
    ensures
        exists|i: int, j: int| 0 <= i <= j <= buffer.len() && typed_path(buffer) == buffer.subrange(i, j)
            && (forall|k: int| 0 <= k < i ==> unicode_white_space(#[trigger] buffer[k]) || buffer[k] == '"')
            && (forall|k: int| j <= k < buffer.len() ==> unicode_white_space(#[trigger] buffer[k]) || buffer[k] == '"'),
        typed_path(buffer).len() > 0 ==> typed_path(buffer)[0] != '"' && typed_path(buffer).last() != '"',
        buffer.len() > 0 && !unicode_white_space(buffer[0]) && buffer[0] != '"'
            && !unicode_white_space(buffer.last()) && buffer.last() != '"' ==> typed_path(buffer) == buffer,
{
    let f = |c: char| trims(false, c);
    let g = |c: char| trims(true, c);
    lemma_trim_twice(buffer, f, g);
    assert(typed_path(buffer) == trimmed(trimmed(buffer, f), g));
}

} // verus!
