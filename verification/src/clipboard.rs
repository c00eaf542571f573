//! The clipboard exchange: the blocks placed on the clipboard, and the
//! order of operations of each exchange with what it releases and reports.

use vstd::prelude::*;
use crate::utf16::{
    utf16_encode, append_utf16, utf16_with_nul, utf16_decode_lossy, utf16_to_string_lossy, lemma_encode_concat,
    lemma_utf16_roundtrip,
};

verus! {

/// How often opening the clipboard is tried before giving up.
pub const CLIPBOARD_OPEN_ATTEMPTS: usize = 5;

/// The pause, in milliseconds, between two attempts to open the clipboard.
pub const CLIPBOARD_OPEN_RETRY_DELAY_MS: u64 = 10;

/// The value of the "Preferred DropEffect" format that marks a cut.
pub const DROPEFFECT_MOVE: u32 = 2;

/// The value of the "Preferred DropEffect" format that marks a copy.
pub const DROPEFFECT_COPY: u32 = 1;

/// What reading the files on the clipboard found.
#[derive(Clone, Debug)]
pub enum ClipboardFileRead {
    Files(Vec<String>),
    Empty,
    Unavailable,
}

/// What to do after an attempt to open the clipboard.
#[derive(Clone, Copy, Debug, PartialEq, Eq, Structural)]
pub enum OpenRetry {
    Opened,
    RetryAfterDelay,
    GiveUp,
}

/// After attempt number `attempt` (from 0): done when it opened, else wait
/// and try again while attempts are left, else give up.
pub fn open_retry_step(attempt: usize, opened: bool) -> (r: OpenRetry)
    requires
        attempt < CLIPBOARD_OPEN_ATTEMPTS,
    ensures
        r == (if opened {
            OpenRetry::Opened
        } else if attempt + 1 < CLIPBOARD_OPEN_ATTEMPTS {
            OpenRetry::RetryAfterDelay
        } else {
            OpenRetry::GiveUp
        }),
{
    if opened {
        OpenRetry::Opened
    } else if attempt + 1 < CLIPBOARD_OPEN_ATTEMPTS {
        OpenRetry::RetryAfterDelay
    } else {
        OpenRetry::GiveUp
    }
}

/// The paths, given as UTF-16 units, each followed by a zero unit.
pub open spec fn terminated_list(paths: Seq<Seq<u16>>) -> Seq<u16>
    decreases paths.len(),
{
    if paths.len() == 0 {
        seq![]
    } else {
        terminated_list(paths.drop_last()) + paths.last().push(0)
    }
}

/// The file list of a drop: each path followed by a zero unit, and a final
/// zero unit that ends the list.
pub open spec fn file_list_units(paths: Seq<Seq<u16>>) -> Seq<u16> {
    terminated_list(paths).push(0)
}

/// The UTF-16 encodings of the texts `paths`.
pub open spec fn encoded(paths: Seq<Seq<char>>) -> Seq<Seq<u16>> {
    Seq::new(paths.len(), |k: int| utf16_encode(paths[k]))
}

/// The units of the vectors `paths`.
pub open spec fn units_of(paths: Seq<Vec<u16>>) -> Seq<Seq<u16>> {
    Seq::new(paths.len(), |k: int| paths[k]@)
}

/// The UTF-16 units of a path given as text.
pub fn path_units(path: &str) -> (r: Vec<u16>)
    ensures
        r@ == utf16_encode(path@),
{
    let mut r: Vec<u16> = Vec::new();
    append_utf16(path, &mut r);
    assert(r@ =~= utf16_encode(path@));
    r
}

/// The little-endian bytes of the units `u`.
pub open spec fn le_bytes(u: Seq<u16>) -> Seq<u8>
    decreases u.len(),
{
    if u.len() == 0 {
        seq![]
    } else {
        le_bytes(u.drop_last()) + seq![(u.last() % 256) as u8, (u.last() / 256) as u8]
    }
}

/// The DROPFILES header: the list starts after these twenty bytes, at no
/// particular point, outside the non-client area, in wide characters.
pub open spec fn dropfiles_header() -> Seq<u8> {
    seq![20u8, 0, 0, 0, 0, 0, 0, 0, 0, 0, 0, 0, 0, 0, 0, 0, 1, 0, 0, 0]
}

/// The bytes of the file-drop block placed on the clipboard for `paths`.
pub open spec fn drop_payload(paths: Seq<Seq<u16>>) -> Seq<u8> {
    dropfiles_header() + le_bytes(file_list_units(paths))
}

fn append_units(out: &mut Vec<u16>, units: &Vec<u16>)
    ensures
        final(out)@ == old(out)@ + units@,
{
    let ghost start = out@;
    let mut i: usize = 0;
    while i < units.len()
        invariant
            i <= units@.len(),
            out@ == start + units@.take(i as int),
        decreases units@.len() - i,
    {
        out.push(units[i]);
        proof {
            assert(units@.take(i + 1) =~= units@.take(i as int).push(units@[i as int]));
            assert(out@ =~= start + units@.take(i + 1));
        }
        i = i + 1;
    }
    assert(units@.take(units@.len() as int) =~= units@);
}

/// The file list of a drop of `paths`, given as their UTF-16 units (as the
/// system keeps file names, unpaired surrogates included).
pub fn file_list(paths: &Vec<Vec<u16>>) -> (r: Vec<u16>)
    ensures
        r@ == file_list_units(units_of(paths@)),
{
    let mut wide: Vec<u16> = Vec::new();
    let mut i: usize = 0;
    while i < paths.len()
        invariant
            i <= paths@.len(),
            wide@ == terminated_list(units_of(paths@).take(i as int)),
        decreases paths@.len() - i,
    {
        proof {
            assert(units_of(paths@).take(i + 1).drop_last() =~= units_of(paths@).take(i as int));
        }
        append_units(&mut wide, &paths[i]);
        wide.push(0);
        proof {
            assert(wide@ =~= terminated_list(units_of(paths@).take(i + 1)));
        }
        i = i + 1;
    }
    assert(units_of(paths@).take(paths@.len() as int) =~= units_of(paths@));
    wide.push(0);
    wide
}

/// The block that a drop of `paths` places on the clipboard: the DROPFILES
/// header followed by the file list.
pub fn drop_files_payload(paths: &Vec<Vec<u16>>) -> (r: Vec<u8>)
    ensures
        r@ == drop_payload(units_of(paths@)),
        r@.len() == 20 + 2 * file_list_units(units_of(paths@)).len(),
        forall|k: int| 0 <= k < file_list_units(units_of(paths@)).len() ==>
            #[trigger] file_list_units(units_of(paths@))[k] as int == r@[20 + 2 * k] as int + 256 * r@[20 + 2 * k + 1] as int,
{
    let wide = file_list(paths);
    let mut r: Vec<u8> = vec![20u8, 0, 0, 0, 0, 0, 0, 0, 0, 0, 0, 0, 0, 0, 0, 0, 1, 0, 0, 0];
    assert(r@ =~= dropfiles_header());
    let mut i: usize = 0;
    while i < wide.len()
        invariant
            i <= wide@.len(),
            r@ == dropfiles_header() + le_bytes(wide@.take(i as int)),
        decreases wide@.len() - i,
    {
        let u = wide[i];
        proof {
            assert(wide@.take(i + 1).drop_last() =~= wide@.take(i as int));
        }
        r.push((u % 256) as u8);
        r.push((u / 256) as u8);
        proof {
            assert(r@ =~= dropfiles_header() + le_bytes(wide@.take(i + 1)));
        }
        i = i + 1;
    }
    assert(wide@.take(wide@.len() as int) =~= wide@);
    proof {
        lemma_payload_layout(units_of(paths@));
    }
    r
}

/// The value of the "Preferred DropEffect" format: a move for a cut, a copy
/// otherwise.
pub fn drop_effect(cut: bool) -> (r: u32)
    ensures
        r == (if cut { DROPEFFECT_MOVE } else { DROPEFFECT_COPY }),
{
    if cut {
        DROPEFFECT_MOVE
    } else {
        DROPEFFECT_COPY
    }
}

/// The little-endian bytes of `v`.
pub open spec fn u32_le(v: u32) -> Seq<u8> {
    seq![(v % 256) as u8, ((v / 256) % 256) as u8, ((v / 65536) % 256) as u8, (v / 16777216) as u8]
}

/// The block placed under the "Preferred DropEffect" format.
pub fn drop_effect_bytes(cut: bool) -> (r: Vec<u8>)
    ensures
        r@ == u32_le(if cut { DROPEFFECT_MOVE } else { DROPEFFECT_COPY }),
{
    let v = drop_effect(cut);
    let r = vec![(v % 256) as u8, ((v / 256) % 256) as u8, ((v / 65536) % 256) as u8, (v / 16777216) as u8];
    assert(r@ =~= u32_le(v));
    r
}

/// Whether the value found under the "Preferred DropEffect" format marks the
/// files on the clipboard as cut.
pub fn is_move_effect(value: u32) -> (r: bool)
    ensures
        r == (value == DROPEFFECT_MOVE),
{
    value == DROPEFFECT_MOVE
}

/// The name of the registered clipboard format that tells a cut from a copy.
pub open spec fn drop_effect_format() -> Seq<char> {
    seq!['P', 'r', 'e', 'f', 'e', 'r', 'r', 'e', 'd', ' ', 'D', 'r', 'o', 'p', 'E', 'f', 'f', 'e', 'c', 't']
}

/// The name of that format, in UTF-16 and ended by a zero unit.
pub fn drop_effect_format_name() -> (r: Vec<u16>)
    ensures
        r@ == utf16_encode(drop_effect_format()).push(0),
{
    let name = "Preferred DropEffect";
    proof {
        reveal_strlit("Preferred DropEffect");
        assert(name@ =~= drop_effect_format());
    }
    utf16_with_nul(name)
}

/// `text` in UTF-16, ended by a zero unit, as the text format holds it.
pub fn clipboard_text_units(text: &str) -> (r: Vec<u16>)
    ensures
        r@ == utf16_encode(text@).push(0),
{
    utf16_with_nul(text)
}

/// One entry of a file drop, from the length the drop reported for it and the
/// units copied into `buf`: an entry of length zero is skipped, as is one of
/// which nothing was copied; otherwise its path is the copied units decoded.
pub fn file_entry(reported_len: u32, copied: u32, buf: &Vec<u16>) -> (r: Option<String>)
    requires
        copied as int <= buf@.len(),
    ensures
        match r {
            Some(p) => reported_len != 0 && copied > 0
                && p@ == utf16_decode_lossy(buf@.take(copied as int)),
            None => reported_len == 0 || copied == 0,
        },
{
    if reported_len == 0 || copied == 0 {
        None
    } else {
        let n = copied as usize;
        let slice = vstd::slice::slice_subrange(buf.as_slice(), 0, n);
        assert(slice@ =~= buf@.take(n as int));
        Some(utf16_to_string_lossy(slice))
    }
}

/// The files read: none is reported as an empty clipboard.
pub fn files_read(paths: Vec<String>) -> (r: ClipboardFileRead)
    ensures
        match r {
            ClipboardFileRead::Files(v) => paths@.len() > 0 && v@ == paths@,
            ClipboardFileRead::Empty => paths@.len() == 0,
            ClipboardFileRead::Unavailable => false,
        },
{
    if paths.len() == 0 {
        ClipboardFileRead::Empty
    } else {
        ClipboardFileRead::Files(paths)
    }
}

} // verus!

verus! {

/// Something a finished clipboard exchange hands back to the system.
#[derive(Clone, Copy, Debug, PartialEq, Eq, Structural)]
pub enum Release {
    /// Free the memory block that holds the main data.
    FreeData,
    /// Free the memory block that holds the drop effect.
    FreeEffect,
    /// Close the clipboard.
    CloseClipboard,
}

/// What an exchange holds at a given moment.
#[derive(Clone, Copy, Debug, PartialEq, Eq, Structural)]
pub struct Holdings {
    /// A memory block with the main data is ours to free.
    pub data_held: bool,
    /// A memory block with the drop effect is ours to free.
    pub effect_held: bool,
    /// The clipboard is open.
    pub clipboard_open: bool,
    /// The main data was handed to the clipboard.
    pub data_placed: bool,
}

/// The releases that leave nothing held, in this order: the data block, the
/// effect block, the clipboard.
pub open spec fn releases_for(h: Holdings) -> Seq<Release> {
    (if h.data_held { seq![Release::FreeData] } else { seq![] })
    + (if h.effect_held { seq![Release::FreeEffect] } else { seq![] })
    + (if h.clipboard_open { seq![Release::CloseClipboard] } else { seq![] })
}

fn releases(h: &Holdings) -> (r: Vec<Release>)
    ensures
        r@ == releases_for(*h),
{
    let mut r: Vec<Release> = Vec::new();
    if h.data_held {
        r.push(Release::FreeData);
    }
    if h.effect_held {
        r.push(Release::FreeEffect);
    }
    if h.clipboard_open {
        r.push(Release::CloseClipboard);
    }
    assert(r@ =~= releases_for(*h));
    r
}

/// The operations of placing files on the clipboard, in their order.
#[derive(Clone, Copy, Debug, PartialEq, Eq, Structural)]
pub enum SetFilesPhase {
    /// Allocate a movable block of the size of the file-drop block.
    AllocFiles,
    /// Lock it, write the file-drop block into it, unlock it.
    WriteFiles,
    /// Register the "Preferred DropEffect" format (success: a nonzero id).
    RegisterFormat,
    /// Open the clipboard for the window.
    OpenClipboard,
    /// Empty the clipboard, which makes the window its owner.
    EmptyClipboard,
    /// Place the file-drop block under the file-drop format.
    PlaceFiles,
    /// Allocate a movable block of four bytes.
    AllocEffect,
    /// Lock it, write the drop effect into it, unlock it.
    WriteEffect,
    /// Place the effect block under the registered format.
    PlaceEffect,
}

pub open spec fn set_files_index(p: SetFilesPhase) -> int {
    match p {
        SetFilesPhase::AllocFiles => 0,
        SetFilesPhase::WriteFiles => 1,
        SetFilesPhase::RegisterFormat => 2,
        SetFilesPhase::OpenClipboard => 3,
        SetFilesPhase::EmptyClipboard => 4,
        SetFilesPhase::PlaceFiles => 5,
        SetFilesPhase::AllocEffect => 6,
        SetFilesPhase::WriteEffect => 7,
        SetFilesPhase::PlaceEffect => 8,
    }
}

/// A file copy in progress: the operation to perform next, and what is held.
#[derive(Debug)]
pub struct SetFilesState {
    phase: SetFilesPhase,
    held: Holdings,
}

impl SetFilesState {
    /// What is held is what the next operation finds held.
    #[verifier::type_invariant]
    spec fn tracks_phase(self) -> bool {
        self.held == set_files_holdings(self.phase)
    }

    /// The operation to perform next.
    pub closed spec fn next_op(self) -> SetFilesPhase {
        self.phase
    }

    /// The operation to perform next.
    pub fn phase(&self) -> (r: SetFilesPhase)
        ensures
            r == self.next_op(),
    {
        self.phase
    }
}

/// What is held before each operation of a file copy.
pub open spec fn set_files_holdings(p: SetFilesPhase) -> Holdings {
    let i = set_files_index(p);
    Holdings {
        data_held: 1 <= i <= 5,
        effect_held: i == 7 || i == 8,
        clipboard_open: i >= 4,
        data_placed: i >= 6,
    }
}

/// What is held once the operation of `p` has succeeded or failed.
pub open spec fn set_files_after(p: SetFilesPhase, ok: bool) -> Holdings {
    let h = set_files_holdings(p);
    if !ok {
        h
    } else {
        match p {
            SetFilesPhase::AllocFiles => Holdings { data_held: true, ..h },
            SetFilesPhase::OpenClipboard => Holdings { clipboard_open: true, ..h },
            SetFilesPhase::PlaceFiles => Holdings { data_held: false, data_placed: true, ..h },
            SetFilesPhase::AllocEffect => Holdings { effect_held: true, ..h },
            SetFilesPhase::PlaceEffect => Holdings { effect_held: false, ..h },
            _ => h,
        }
    }
}

/// The next step of an exchange: the operation to perform, or the end, with
/// what to release and what to report.
#[derive(Clone, Debug)]
pub enum Step<S> {
    Continue(S),
    Finish { release: Vec<Release>, result: bool },
}

/// The first step of placing `path_count` files on the clipboard for a
/// window: nothing is done without a window or without files.
pub fn set_files_start(has_window: bool, path_count: usize) -> (r: Option<SetFilesState>)
    ensures
        r is Some <==> has_window && path_count > 0,
        r matches Some(s) ==> s.next_op() == SetFilesPhase::AllocFiles,
{
    if !has_window || path_count == 0 {
        None
    } else {
        Some(SetFilesState {
            phase: SetFilesPhase::AllocFiles,
            held: Holdings { data_held: false, effect_held: false, clipboard_open: false, data_placed: false },
        })
    }
}

/// The step after the current operation of a file copy succeeded (`ok`) or
/// failed. It goes on to the next operation while they succeed; it ends
/// after a failure or after the last operation, releasing all that is held,
/// and reports success exactly when the files were placed on the clipboard.
pub fn set_files_step(s: SetFilesState, ok: bool) -> (r: Step<SetFilesState>)
    ensures
        match r {
            Step::Continue(n) => {
                &&& ok
                &&& set_files_index(n.next_op()) == set_files_index(s.next_op()) + 1
                &&& set_files_holdings(n.next_op()) == set_files_after(s.next_op(), ok)
            },
            Step::Finish { release, result } => {
                &&& (!ok || s.next_op() == SetFilesPhase::PlaceEffect)
                &&& release@ == releases_for(set_files_after(s.next_op(), ok))
                &&& result == set_files_after(s.next_op(), ok).data_placed
            },
        },
{
    proof {
        use_type_invariant(&s);
    }
    let mut h = s.held;
    if ok {
        match s.phase {
            SetFilesPhase::AllocFiles => { h.data_held = true; },
            SetFilesPhase::OpenClipboard => { h.clipboard_open = true; },
            SetFilesPhase::PlaceFiles => { h.data_held = false; h.data_placed = true; },
            SetFilesPhase::AllocEffect => { h.effect_held = true; },
            SetFilesPhase::PlaceEffect => { h.effect_held = false; },
            _ => {},
        }
    }
    assert(h == set_files_after(s.phase, ok));
    let next = match s.phase {
        SetFilesPhase::AllocFiles => Some(SetFilesPhase::WriteFiles),
        SetFilesPhase::WriteFiles => Some(SetFilesPhase::RegisterFormat),
        SetFilesPhase::RegisterFormat => Some(SetFilesPhase::OpenClipboard),
        SetFilesPhase::OpenClipboard => Some(SetFilesPhase::EmptyClipboard),
        SetFilesPhase::EmptyClipboard => Some(SetFilesPhase::PlaceFiles),
        SetFilesPhase::PlaceFiles => Some(SetFilesPhase::AllocEffect),
        SetFilesPhase::AllocEffect => Some(SetFilesPhase::WriteEffect),
        SetFilesPhase::WriteEffect => Some(SetFilesPhase::PlaceEffect),
        SetFilesPhase::PlaceEffect => None,
    };
    match next {
        Some(p) => {
            if ok {
                return Step::Continue(SetFilesState { phase: p, held: h });
            }
        },
        None => {},
    }
    let release = releases(&h);
    Step::Finish { release, result: h.data_placed }
}

} // verus!

verus! {

/// The operations of placing text on the clipboard, in their order.
#[derive(Clone, Copy, Debug, PartialEq, Eq, Structural)]
pub enum CopyTextPhase {
    /// Open the clipboard for the window.
    OpenClipboard,
    /// Empty the clipboard, which makes the window its owner.
    EmptyClipboard,
    /// Allocate a movable block of the size of the text's units.
    AllocText,
    /// Lock it, write the text's units into it, unlock it.
    WriteText,
    /// Place the block under the Unicode text format.
    PlaceText,
}

pub open spec fn copy_text_index(p: CopyTextPhase) -> int {
    match p {
        CopyTextPhase::OpenClipboard => 0,
        CopyTextPhase::EmptyClipboard => 1,
        CopyTextPhase::AllocText => 2,
        CopyTextPhase::WriteText => 3,
        CopyTextPhase::PlaceText => 4,
    }
}

/// A text copy in progress: the operation to perform next, and what is held.
#[derive(Debug)]
pub struct CopyTextState {
    phase: CopyTextPhase,
    held: Holdings,
}

impl CopyTextState {
    /// What is held is what the next operation finds held.
    #[verifier::type_invariant]
    spec fn tracks_phase(self) -> bool {
        self.held == copy_text_holdings(self.phase)
    }

    /// The operation to perform next.
    pub closed spec fn next_op(self) -> CopyTextPhase {
        self.phase
    }

    /// The operation to perform next.
    pub fn phase(&self) -> (r: CopyTextPhase)
        ensures
            r == self.next_op(),
    {
        self.phase
    }
}

/// What is held before each operation of a text copy.
pub open spec fn copy_text_holdings(p: CopyTextPhase) -> Holdings {
    let i = copy_text_index(p);
    Holdings { data_held: i >= 3, effect_held: false, clipboard_open: i >= 1, data_placed: false }
}

/// What is held once the operation of `p` has succeeded or failed.
pub open spec fn copy_text_after(p: CopyTextPhase, ok: bool) -> Holdings {
    let h = copy_text_holdings(p);
    if !ok {
        h
    } else {
        match p {
            CopyTextPhase::OpenClipboard => Holdings { clipboard_open: true, ..h },
            CopyTextPhase::AllocText => Holdings { data_held: true, ..h },
            CopyTextPhase::PlaceText => Holdings { data_held: false, data_placed: true, ..h },
            _ => h,
        }
    }
}

/// The first step of placing text on the clipboard: nothing is done without
/// a window.
pub fn copy_text_start(has_window: bool) -> (r: Option<CopyTextState>)
    ensures
        r is Some <==> has_window,
        r matches Some(s) ==> s.next_op() == CopyTextPhase::OpenClipboard,
{
    if has_window {
        Some(CopyTextState {
            phase: CopyTextPhase::OpenClipboard,
            held: Holdings { data_held: false, effect_held: false, clipboard_open: false, data_placed: false },
        })
    } else {
        None
    }
}

/// The step after the current operation of a text copy succeeded (`ok`) or
/// failed: on to the next operation while they succeed; at a failure or
/// after the last one, release all that is held, and report success exactly
/// when the text was placed on the clipboard.
pub fn copy_text_step(s: CopyTextState, ok: bool) -> (r: Step<CopyTextState>)
    ensures
        match r {
            Step::Continue(n) => {
                &&& ok
                &&& copy_text_index(n.next_op()) == copy_text_index(s.next_op()) + 1
                &&& copy_text_holdings(n.next_op()) == copy_text_after(s.next_op(), ok)
            },
            Step::Finish { release, result } => {
                &&& (!ok || s.next_op() == CopyTextPhase::PlaceText)
                &&& release@ == releases_for(copy_text_after(s.next_op(), ok))
                &&& result == copy_text_after(s.next_op(), ok).data_placed
            },
        },
{
    proof {
        use_type_invariant(&s);
    }
    let mut h = s.held;
    if ok {
        match s.phase {
            CopyTextPhase::OpenClipboard => { h.clipboard_open = true; },
            CopyTextPhase::AllocText => { h.data_held = true; },
            CopyTextPhase::PlaceText => { h.data_held = false; h.data_placed = true; },
            _ => {},
        }
    }
    assert(h == copy_text_after(s.phase, ok));
    let next = match s.phase {
        CopyTextPhase::OpenClipboard => Some(CopyTextPhase::EmptyClipboard),
        CopyTextPhase::EmptyClipboard => Some(CopyTextPhase::AllocText),
        CopyTextPhase::AllocText => Some(CopyTextPhase::WriteText),
        CopyTextPhase::WriteText => Some(CopyTextPhase::PlaceText),
        CopyTextPhase::PlaceText => None,
    };
    match next {
        Some(p) => {
            if ok {
                return Step::Continue(CopyTextState { phase: p, held: h });
            }
        },
        None => {},
    }
    let release = releases(&h);
    Step::Finish { release, result: h.data_placed }
}

/// The operations of reading the files on the clipboard, before its entries.
#[derive(Clone, Copy, Debug, PartialEq, Eq, Structural)]
pub enum ReadFilesPhase {
    /// Open the clipboard.
    OpenClipboard,
    /// Ask whether a file drop is available.
    CheckFormat,
    /// Get the file drop (success: a non-null handle).
    GetData,
}

/// The next step of reading the files on the clipboard.
#[derive(Clone, Debug)]
pub enum ReadFilesStep {
    Next(ReadFilesPhase),
    /// Read each entry of the drop (see `file_entry`), then finish with
    /// `read_files_finish`.
    ReadEntries,
    Finish { close: bool, result: ClipboardFileRead },
}

/// After an operation of a read: a clipboard that does not open is
/// unavailable; one without a file drop is empty; one whose drop cannot be
/// had is unavailable; the clipboard, once open, is closed at the end.
pub fn read_files_step(phase: ReadFilesPhase, ok: bool) -> (r: ReadFilesStep)
    ensures
        match phase {
            ReadFilesPhase::OpenClipboard => if ok {
                r == ReadFilesStep::Next(ReadFilesPhase::CheckFormat)
            } else {
                r matches ReadFilesStep::Finish { close, result } && !close && result is Unavailable
            },
            ReadFilesPhase::CheckFormat => if ok {
                r == ReadFilesStep::Next(ReadFilesPhase::GetData)
            } else {
                r matches ReadFilesStep::Finish { close, result } && close && result is Empty
            },
            ReadFilesPhase::GetData => if ok {
                r is ReadEntries
            } else {
                r matches ReadFilesStep::Finish { close, result } && close && result is Unavailable
            },
        },
{
    match phase {
        ReadFilesPhase::OpenClipboard => if ok {
            ReadFilesStep::Next(ReadFilesPhase::CheckFormat)
        } else {
            ReadFilesStep::Finish { close: false, result: ClipboardFileRead::Unavailable }
        },
        ReadFilesPhase::CheckFormat => if ok {
            ReadFilesStep::Next(ReadFilesPhase::GetData)
        } else {
            ReadFilesStep::Finish { close: true, result: ClipboardFileRead::Empty }
        },
        ReadFilesPhase::GetData => if ok {
            ReadFilesStep::ReadEntries
        } else {
            ReadFilesStep::Finish { close: true, result: ClipboardFileRead::Unavailable }
        },
    }
}

/// The end of a read once its entries are collected: the clipboard is
/// closed, and the files found are reported, none as an empty clipboard.
pub fn read_files_finish(paths: Vec<String>) -> (r: ReadFilesStep)
    ensures
        r matches ReadFilesStep::Finish { close, result } && close && match result {
            ClipboardFileRead::Files(v) => paths@.len() > 0 && v@ == paths@,
            ClipboardFileRead::Empty => paths@.len() == 0,
            ClipboardFileRead::Unavailable => false,
        },
{
    ReadFilesStep::Finish { close: true, result: files_read(paths) }
}

/// The operations of asking whether the files on the clipboard were cut.
#[derive(Clone, Copy, Debug, PartialEq, Eq, Structural)]
pub enum CutCheckPhase {
    /// Open the clipboard.
    OpenClipboard,
    /// Register the "Preferred DropEffect" format (success: a nonzero id).
    RegisterFormat,
    /// Get the block under that format (success: a non-null handle).
    GetData,
    /// Lock the block (success: a non-null pointer).
    LockData,
}

/// How a check for cut files ends: whether to unlock the block, whether to
/// close the clipboard, and whether the files were cut.
#[derive(Clone, Copy, Debug, PartialEq, Eq, Structural)]
pub struct CutCheckOutcome {
    pub unlock: bool,
    pub close: bool,
    pub cut: bool,
}

/// The next step of asking whether the files were cut.
#[derive(Clone, Debug)]
pub enum CutCheckStep {
    Next(CutCheckPhase),
    /// Read the value in the locked block and end with `cut_check_finish`.
    ReadValue,
    Finish(CutCheckOutcome),
}

/// After an operation of the check: any failure reports no cut, closing the
/// clipboard where it was opened.
pub fn cut_check_step(phase: CutCheckPhase, ok: bool) -> (r: CutCheckStep)
    ensures
        !ok ==> r == CutCheckStep::Finish(
            CutCheckOutcome { unlock: false, close: phase != CutCheckPhase::OpenClipboard, cut: false },
        ),
        ok ==> r == (match phase {
            CutCheckPhase::OpenClipboard => CutCheckStep::Next(CutCheckPhase::RegisterFormat),
            CutCheckPhase::RegisterFormat => CutCheckStep::Next(CutCheckPhase::GetData),
            CutCheckPhase::GetData => CutCheckStep::Next(CutCheckPhase::LockData),
            CutCheckPhase::LockData => CutCheckStep::ReadValue,
        }),
{
    if !ok {
        return CutCheckStep::Finish(
            CutCheckOutcome { unlock: false, close: phase != CutCheckPhase::OpenClipboard, cut: false },
        );
    }
    match phase {
        CutCheckPhase::OpenClipboard => CutCheckStep::Next(CutCheckPhase::RegisterFormat),
        CutCheckPhase::RegisterFormat => CutCheckStep::Next(CutCheckPhase::GetData),
        CutCheckPhase::GetData => CutCheckStep::Next(CutCheckPhase::LockData),
        CutCheckPhase::LockData => CutCheckStep::ReadValue,
    }
}

/// The end of a check once the value in the block is read: unlock the
/// block, close the clipboard, and report a cut exactly when the value marks
/// a move.
pub fn cut_check_finish(value: u32) -> (r: CutCheckOutcome)
    ensures
        r == (CutCheckOutcome { unlock: true, close: true, cut: value == DROPEFFECT_MOVE }),
{
    CutCheckOutcome { unlock: true, close: true, cut: is_move_effect(value) }
}

} // verus!

verus! {

/// The operations of a file copy, by their place in the order.
pub open spec fn set_files_phase_at(i: int) -> SetFilesPhase {
    if i <= 0 {
        SetFilesPhase::AllocFiles
    } else if i == 1 {
        SetFilesPhase::WriteFiles
    } else if i == 2 {
        SetFilesPhase::RegisterFormat
    } else if i == 3 {
        SetFilesPhase::OpenClipboard
    } else if i == 4 {
        SetFilesPhase::EmptyClipboard
    } else if i == 5 {
        SetFilesPhase::PlaceFiles
    } else if i == 6 {
        SetFilesPhase::AllocEffect
    } else if i == 7 {
        SetFilesPhase::WriteEffect
    } else {
        SetFilesPhase::PlaceEffect
    }
}

/// What a file copy that is at operation `i` reports when its operations
/// succeed or fail as `outcomes` says, following `set_files_step`; `None`
/// where the outcomes run out first.
pub open spec fn set_files_run(i: int, outcomes: Seq<bool>) -> Option<bool>
    decreases outcomes.len(),
{
    if outcomes.len() == 0 || i < 0 || i > 8 {
        None
    } else if outcomes[0] && i < 8 {
        set_files_run(i + 1, outcomes.skip(1))
    } else {
        Some(set_files_after(set_files_phase_at(i), outcomes[0]).data_placed)
    }
}

/// The first `n` operations succeed.
pub open spec fn all_succeed(outcomes: Seq<bool>, n: int) -> bool {
    forall|j: int| 0 <= j < n ==> outcomes[j]
}

proof fn lemma_set_files_run_from(i: int, outcomes: Seq<bool>)
    requires
        0 <= i <= 8,
        outcomes.len() >= 9 - i,
    ensures
        set_files_run(i, outcomes) == Some(if i <= 5 { all_succeed(outcomes, 6 - i) } else { true }),
    decreases 8 - i,
{
    if outcomes[0] && i < 8 {
        lemma_set_files_run_from(i + 1, outcomes.skip(1));
        if i <= 5 {
            assert(all_succeed(outcomes.skip(1), 5 - i) == all_succeed(outcomes, 6 - i)) by {
                if all_succeed(outcomes.skip(1), 5 - i) {
                    assert forall|j: int| 0 <= j < 6 - i implies outcomes[j] by {
                        if j > 0 {
                            assert(outcomes.skip(1)[j - 1] == outcomes[j]);
                        }
                    }
                }
                if all_succeed(outcomes, 6 - i) {
                    assert forall|j: int| 0 <= j < 5 - i implies outcomes.skip(1)[j] by {
                        assert(outcomes.skip(1)[j] == outcomes[j + 1]);
                    }
                }
            }
        }
    } else if !outcomes[0] && i <= 5 {
        assert(!all_succeed(outcomes, 6 - i));
    }
}

/// A file copy reports success exactly when its first six operations (up to
/// placing the file list) succeed: a failure to mark the copy as a copy or a
/// cut does not undo it.
pub proof fn lemma_set_files_result(outcomes: Seq<bool>)
    requires
        outcomes.len() >= 9,
    ensures
        set_files_run(0, outcomes) == Some(all_succeed(outcomes, 6)),
{
    lemma_set_files_run_from(0, outcomes);
}

/// The operations of a text copy, by their place in the order.
pub open spec fn copy_text_phase_at(i: int) -> CopyTextPhase {
    if i <= 0 {
        CopyTextPhase::OpenClipboard
    } else if i == 1 {
        CopyTextPhase::EmptyClipboard
    } else if i == 2 {
        CopyTextPhase::AllocText
    } else if i == 3 {
        CopyTextPhase::WriteText
    } else {
        CopyTextPhase::PlaceText
    }
}

/// What a text copy at operation `i` reports for the given outcomes,
/// following `copy_text_step`.
pub open spec fn copy_text_run(i: int, outcomes: Seq<bool>) -> Option<bool>
    decreases outcomes.len(),
{
    if outcomes.len() == 0 || i < 0 || i > 4 {
        None
    } else if outcomes[0] && i < 4 {
        copy_text_run(i + 1, outcomes.skip(1))
    } else {
        Some(copy_text_after(copy_text_phase_at(i), outcomes[0]).data_placed)
    }
}

proof fn lemma_copy_text_run_from(i: int, outcomes: Seq<bool>)
    requires
        0 <= i <= 4,
        outcomes.len() >= 5 - i,
    ensures
        copy_text_run(i, outcomes) == Some(all_succeed(outcomes, 5 - i)),
    decreases 4 - i,
{
    if outcomes[0] && i < 4 {
        lemma_copy_text_run_from(i + 1, outcomes.skip(1));
        if all_succeed(outcomes.skip(1), 4 - i) {
            assert forall|j: int| 0 <= j < 5 - i implies outcomes[j] by {
                if j > 0 {
                    assert(outcomes.skip(1)[j - 1] == outcomes[j]);
                }
            }
        }
        if all_succeed(outcomes, 5 - i) {
            assert forall|j: int| 0 <= j < 4 - i implies outcomes.skip(1)[j] by {
                assert(outcomes.skip(1)[j] == outcomes[j + 1]);
            }
        }
    } else if !outcomes[0] {
        assert(!all_succeed(outcomes, 5 - i));
    }
}

/// A text copy reports success exactly when all five of its operations
/// succeed.
pub proof fn lemma_copy_text_result(outcomes: Seq<bool>)
    requires
        outcomes.len() >= 5,
    ensures
        copy_text_run(0, outcomes) == Some(all_succeed(outcomes, 5)),
{
    lemma_copy_text_run_from(0, outcomes);
}

/// Whether opening the clipboard from attempt `attempt` on succeeds when the
/// attempts turn out as `results`, following `open_retry_step`.
pub open spec fn open_run(attempt: int, results: Seq<bool>) -> Option<bool>
    decreases results.len(),
{
    if results.len() == 0 || attempt < 0 || attempt >= CLIPBOARD_OPEN_ATTEMPTS {
        None
    } else if results[0] {
        Some(true)
    } else if attempt + 1 < CLIPBOARD_OPEN_ATTEMPTS {
        open_run(attempt + 1, results.skip(1))
    } else {
        Some(false)
    }
}

proof fn lemma_open_run_from(attempt: int, results: Seq<bool>)
    requires
        0 <= attempt < CLIPBOARD_OPEN_ATTEMPTS,
        results.len() >= CLIPBOARD_OPEN_ATTEMPTS - attempt,
    ensures
        open_run(attempt, results) == Some(exists|j: int| 0 <= j < CLIPBOARD_OPEN_ATTEMPTS - attempt && results[j]),
    decreases CLIPBOARD_OPEN_ATTEMPTS - attempt,
{
    if !results[0] && attempt + 1 < CLIPBOARD_OPEN_ATTEMPTS {
        lemma_open_run_from(attempt + 1, results.skip(1));
        if exists|j: int| 0 <= j < CLIPBOARD_OPEN_ATTEMPTS - attempt && results[j] {
            let j = choose|j: int| 0 <= j < CLIPBOARD_OPEN_ATTEMPTS - attempt && results[j];
            assert(results.skip(1)[j - 1] == results[j]);
        }
        if exists|j: int| 0 <= j < CLIPBOARD_OPEN_ATTEMPTS - attempt - 1 && results.skip(1)[j] {
            let j = choose|j: int| 0 <= j < CLIPBOARD_OPEN_ATTEMPTS - attempt - 1 && results.skip(1)[j];
            assert(results[j + 1] == results.skip(1)[j]);
        }
    } else if results[0] {
        assert(results[0]);
    }
}

/// Opening the clipboard succeeds exactly when one of the first five
/// attempts does.
pub proof fn lemma_open_retry_result(results: Seq<bool>)
    requires
        results.len() >= CLIPBOARD_OPEN_ATTEMPTS,
    ensures
        open_run(0, results) == Some(exists|j: int| 0 <= j < CLIPBOARD_OPEN_ATTEMPTS && results[j]),
{
    lemma_open_run_from(0, results);
}

/// Files placed as cut are found cut, and files placed as copied are not.
pub proof fn lemma_cut_marker_roundtrip(cut: bool)
    ensures
        ((if cut { DROPEFFECT_MOVE } else { DROPEFFECT_COPY }) == DROPEFFECT_MOVE) == cut,
{
}

/// The paths, each followed by a NUL character.
pub open spec fn nul_terminated(paths: Seq<Seq<char>>) -> Seq<char>
    decreases paths.len(),
{
    if paths.len() == 0 {
        seq![]
    } else {
        nul_terminated(paths.drop_last()) + paths.last().push('\0')
    }
}

proof fn lemma_encode_nul()
    ensures
        utf16_encode(seq!['\0']) == seq![0u16],
{
    assert(seq!['\0'].skip(1) =~= Seq::<char>::empty());
    assert(utf16_encode(seq!['\0']) =~= seq![0u16] + utf16_encode(Seq::<char>::empty()));
}

proof fn lemma_encode_push_nul(s: Seq<char>)
    ensures
        utf16_encode(s.push('\0')) == utf16_encode(s).push(0),
{
    lemma_encode_concat(s, seq!['\0']);
    lemma_encode_nul();
    assert(s + seq!['\0'] =~= s.push('\0'));
    assert(utf16_encode(s) + seq![0u16] =~= utf16_encode(s).push(0));
}

proof fn lemma_terminated_list_encodes(paths: Seq<Seq<char>>)
    ensures
        terminated_list(encoded(paths)) == utf16_encode(nul_terminated(paths)),
    decreases paths.len(),
{
    if paths.len() > 0 {
        lemma_terminated_list_encodes(paths.drop_last());
        assert(encoded(paths).drop_last() =~= encoded(paths.drop_last()));
        assert(encoded(paths).last() == utf16_encode(paths.last()));
        lemma_encode_concat(nul_terminated(paths.drop_last()), paths.last().push('\0'));
        lemma_encode_push_nul(paths.last());
    }
}

/// The file list placed for `paths` reads back, in UTF-16, as the paths, each
/// followed by a NUL, and a final NUL that ends the list.
pub proof fn lemma_file_list_reads_back(paths: Seq<Seq<char>>)
    ensures
        utf16_decode_lossy(file_list_units(encoded(paths))) == nul_terminated(paths).push('\0'),
{
    lemma_terminated_list_encodes(paths);
    lemma_encode_push_nul(nul_terminated(paths));
    lemma_utf16_roundtrip(nul_terminated(paths).push('\0'));
}

/// The units placed for a text read back as the text followed by a NUL.
pub proof fn lemma_clipboard_text_reads_back(text: Seq<char>)
    ensures
        utf16_decode_lossy(utf16_encode(text).push(0)) == text.push('\0'),
{
    lemma_encode_push_nul(text);
    lemma_utf16_roundtrip(text.push('\0'));
}

/// Where the first zero unit at or after `i` stands, or the end of `u`.
pub open spec fn zero_at(u: Seq<u16>, i: int) -> int
    decreases u.len() - i,
{
    if i < 0 || i >= u.len() {
        u.len() as int
    } else if u[i] == 0 {
        i
    } else {
        zero_at(u, i + 1)
    }
}

pub proof fn lemma_zero_at_bounds(u: Seq<u16>, i: int)
    requires
        0 <= i <= u.len(),
    ensures
        i <= zero_at(u, i) <= u.len(),
    decreases u.len() - i,
{
    if i < u.len() && u[i] != 0 {
        lemma_zero_at_bounds(u, i + 1);
    }
}

/// The entries of a double-null-terminated list: the runs of units before
/// each zero unit, up to the empty entry that ends the list.
pub open spec fn list_entries(u: Seq<u16>) -> Seq<Seq<u16>>
    decreases u.len(),
{
    if u.len() == 0 || u[0] == 0 {
        seq![]
    } else {
        let e = zero_at(u, 0);
        let rest = if e < u.len() {
            proof {
                lemma_zero_at_bounds(u, 0);
            }
            list_entries(u.skip(e + 1))
        } else {
            seq![]
        };
        seq![u.subrange(0, e)] + rest
    }
}

proof fn lemma_terminated_list_front(ws: Seq<Seq<u16>>)
    requires
        ws.len() > 0,
    ensures
        terminated_list(ws) == ws[0].push(0) + terminated_list(ws.skip(1)),
    decreases ws.len(),
{
    if ws.len() == 1 {
        assert(ws.drop_last() =~= Seq::<Seq<u16>>::empty());
        assert(ws.skip(1) =~= Seq::<Seq<u16>>::empty());
        assert(terminated_list(ws) =~= ws[0].push(0) + terminated_list(ws.skip(1)));
    } else {
        lemma_terminated_list_front(ws.drop_last());
        assert(ws.drop_last().skip(1) =~= ws.skip(1).drop_last());
        assert(ws.drop_last()[0] == ws[0]);
        assert(ws.skip(1).last() == ws.last());
        assert(terminated_list(ws) =~= ws[0].push(0) + terminated_list(ws.skip(1)));
    }
}

proof fn lemma_zero_at_entry(w: Seq<u16>, rest: Seq<u16>, i: int)
    requires
        0 <= i <= w.len(),
        forall|k: int| 0 <= k < w.len() ==> w[k] != 0,
    ensures
        zero_at(w.push(0) + rest, i) == w.len(),
    decreases w.len() - i,
{
    let u = w.push(0) + rest;
    if i < w.len() {
        assert(u[i] == w[i]);
        lemma_zero_at_entry(w, rest, i + 1);
    } else {
        assert(u[i] == 0);
    }
}

/// Every entry is a path: not empty, and no zero unit inside.
pub open spec fn entries_are_paths(ws: Seq<Seq<u16>>) -> bool {
    forall|k: int| 0 <= k < ws.len() ==> (#[trigger] ws[k]).len() > 0 && forall|m: int| 0 <= m < ws[k].len() ==> ws[k][m] != 0
}

/// A file list splits back into the paths it was made of, where none of them
/// is empty or holds a zero unit.
pub proof fn lemma_file_list_entries(ws: Seq<Seq<u16>>)
    requires
        entries_are_paths(ws),
    ensures
        list_entries(file_list_units(ws)) == ws,
    decreases ws.len(),
{
    if ws.len() == 0 {
        assert(file_list_units(ws) =~= seq![0u16]);
    } else {
        let w = ws[0];
        let rest = file_list_units(ws.skip(1));
        lemma_terminated_list_front(ws);
        let u = file_list_units(ws);
        assert(u =~= w.push(0) + rest);
        lemma_zero_at_entry(w, rest, 0);
        assert(u[0] == w[0]);
        assert(u.subrange(0, w.len() as int) =~= w);
        assert(u.skip(w.len() + 1int) =~= rest);
        assert(entries_are_paths(ws.skip(1))) by {
            assert forall|k: int| 0 <= k < ws.skip(1).len() implies (#[trigger] ws.skip(1)[k]).len() > 0
                && forall|m: int| 0 <= m < ws.skip(1)[k].len() ==> ws.skip(1)[k][m] != 0 by {
                assert(ws.skip(1)[k] == ws[k + 1]);
            }
        }
        lemma_file_list_entries(ws.skip(1));
        assert(seq![w] + ws.skip(1) =~= ws);
    }
}

proof fn lemma_char_units_nonzero(c: char)
    requires
        c != '\0',
    ensures
        forall|m: int| 0 <= m < crate::utf16::char_units(c).len() ==> crate::utf16::char_units(c)[m] != 0,
{
    let head = crate::utf16::char_units(c);
    let v = c as int;
    if v < 0x10000 {
        let x = v as u16;
        assert(x as int == v);
        assert(head == seq![x]);
    } else {
        let w = v - 0x10000;
        assert(0 <= w <= 0xFFFFF);
        assert(w / 0x400 <= 0x3FF && w % 0x400 <= 0x3FF) by (nonlinear_arith)
            requires
                0 <= w <= 0xFFFFF,
        ;
        let hi = (0xD800 + w / 0x400) as u16;
        let lo = (0xDC00 + w % 0x400) as u16;
        assert(hi as int == 0xD800 + w / 0x400);
        assert(lo as int == 0xDC00 + w % 0x400);
        assert(head == seq![hi, lo]);
    }
}

proof fn lemma_encode_without_nul(p: Seq<char>)
    requires
        forall|m: int| 0 <= m < p.len() ==> p[m] != '\0',
    ensures
        forall|m: int| 0 <= m < utf16_encode(p).len() ==> utf16_encode(p)[m] != 0,
        p.len() > 0 ==> utf16_encode(p).len() > 0,
    decreases p.len(),
{
    if p.len() > 0 {
        lemma_encode_without_nul(p.skip(1));
        let c = p[0];
        assert(c != '\0');
        assert(c as int != 0);
        let e = utf16_encode(p);
        let head = crate::utf16::char_units(c);
        assert(e == head + utf16_encode(p.skip(1)));
        lemma_char_units_nonzero(c);
        assert forall|m: int| 0 <= m < e.len() implies e[m] != 0 by {
            if m >= head.len() {
                assert(e[m] == utf16_encode(p.skip(1))[m - head.len()]);
            }
        }
    }
}

/// Paths given as text, none empty or holding a NUL, are found again in the
/// entries of their file list, each entry decoding to its path.
pub proof fn lemma_file_list_reads_back_as_entries(paths: Seq<Seq<char>>)
    requires
        forall|k: int| 0 <= k < paths.len() ==> (#[trigger] paths[k]).len() > 0
            && forall|m: int| 0 <= m < paths[k].len() ==> paths[k][m] != '\0',
    ensures
        list_entries(file_list_units(encoded(paths))) == encoded(paths),
        forall|k: int| 0 <= k < paths.len() ==> utf16_decode_lossy(#[trigger] encoded(paths)[k]) == paths[k],
{
    assert forall|k: int| 0 <= k < encoded(paths).len() implies (#[trigger] encoded(paths)[k]).len() > 0
        && forall|m: int| 0 <= m < encoded(paths)[k].len() ==> encoded(paths)[k][m] != 0 by {
        lemma_encode_without_nul(paths[k]);
    }
    lemma_file_list_entries(encoded(paths));
    assert forall|k: int| 0 <= k < paths.len() implies utf16_decode_lossy(#[trigger] encoded(paths)[k]) == paths[k] by {
        lemma_utf16_roundtrip(paths[k]);
    }
}

} // verus!

verus! {

proof fn lemma_le_bytes_units(u: Seq<u16>)
    ensures
        le_bytes(u).len() == 2 * u.len(),
        forall|k: int| 0 <= k < u.len() ==>
            #[trigger] le_bytes(u)[2 * k] as int + 256 * le_bytes(u)[2 * k + 1] as int == u[k] as int,
    decreases u.len(),
{
    if u.len() > 0 {
        let init = u.drop_last();
        lemma_le_bytes_units(init);
        let x = u.last();
        assert((x % 256) as u8 as int == x % 256);
        assert((x / 256) as u8 as int == x / 256);
        assert(x % 256 + 256 * (x / 256) == x as int);
        let b = le_bytes(u);
        assert(b == le_bytes(init) + seq![(x % 256) as u8, (x / 256) as u8]);
        assert forall|k: int| 0 <= k < u.len() implies
            #[trigger] b[2 * k] as int + 256 * b[2 * k + 1] as int == u[k] as int by {
            if k < init.len() {
                assert(b[2 * k] == le_bytes(init)[2 * k]);
                assert(b[2 * k + 1] == le_bytes(init)[2 * k + 1]);
                assert(u[k] == init[k]);
            } else {
                assert(k == init.len());
                assert(b[2 * k] == (x % 256) as u8);
                assert(b[2 * k + 1] == (x / 256) as u8);
            }
        }
    }
}

/// The file-drop block is the twenty-byte DROPFILES header (the list starts
/// at byte 20 and is made of wide characters) followed by the file list, each
/// unit as two bytes, low byte first: the units are read back unchanged.
pub proof fn lemma_payload_layout(paths: Seq<Seq<u16>>)
    ensures
        drop_payload(paths).len() == 20 + 2 * file_list_units(paths).len(),
        drop_payload(paths)[0] == 20 && drop_payload(paths)[1] == 0,
        drop_payload(paths)[2] == 0 && drop_payload(paths)[3] == 0,
        drop_payload(paths)[16] == 1,
        forall|k: int| 4 <= k < 20 && k != 16 ==> drop_payload(paths)[k] == 0,
        forall|k: int| 0 <= k < file_list_units(paths).len() ==>
            #[trigger] file_list_units(paths)[k] as int
                == drop_payload(paths)[20 + 2 * k] as int + 256 * drop_payload(paths)[20 + 2 * k + 1] as int,
{
    let u = file_list_units(paths);
    lemma_le_bytes_units(u);
    let p = drop_payload(paths);
    assert(dropfiles_header().len() == 20);
    assert forall|k: int| 0 <= k < u.len() implies
        #[trigger] u[k] as int == p[20 + 2 * k] as int + 256 * p[20 + 2 * k + 1] as int by {
        assert(p[20 + 2 * k] == le_bytes(u)[2 * k]);
        assert(p[20 + 2 * k + 1] == le_bytes(u)[2 * k + 1]);
    }
}

/// Ending an exchange releases each thing held exactly once and nothing
/// else: the data block is freed exactly when held, the effect block exactly
/// when held, and the clipboard is closed exactly when open, the clipboard
/// last.
pub proof fn lemma_releases_exactly_held(h: Holdings)
    ensures
        releases_for(h).contains(Release::FreeData) <==> h.data_held,
        releases_for(h).contains(Release::FreeEffect) <==> h.effect_held,
        releases_for(h).contains(Release::CloseClipboard) <==> h.clipboard_open,
        releases_for(h).len() == (if h.data_held { 1int } else { 0int }) + (if h.effect_held { 1int } else { 0int })
            + (if h.clipboard_open { 1int } else { 0int }),
        h.clipboard_open ==> releases_for(h).last() == Release::CloseClipboard,
{
    let r = releases_for(h);
    if h.data_held {
        assert(r[0] == Release::FreeData);
    }
    if h.effect_held {
        assert(r[if h.data_held { 1int } else { 0int }] == Release::FreeEffect);
    }
    if h.clipboard_open {
        assert(r[r.len() - 1] == Release::CloseClipboard);
    }
}

/// While a file copy runs, the file list is placed only after the clipboard
/// was opened and emptied: whatever holds the placed list also has the
/// clipboard open; and a block is never held by us once placed.
pub proof fn lemma_set_files_order(p: SetFilesPhase, ok: bool)
    ensures
        set_files_after(p, ok).data_placed ==> set_files_after(p, ok).clipboard_open,
        set_files_after(p, ok).data_placed ==> !set_files_after(p, ok).data_held,
        set_files_index(p) < 5 ==> !set_files_after(p, ok).data_placed,
{
}

} // verus!
