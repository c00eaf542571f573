use itemviewer::clipboard::{
    clipboard_text_units, copy_text_start, copy_text_step, cut_check_finish, cut_check_step, path_units, drop_effect, drop_effect_bytes,
    drop_effect_format_name, drop_files_payload, file_entry, file_list, files_read, is_move_effect,
    open_retry_step, read_files_finish, read_files_step, set_files_start, set_files_step, ClipboardFileRead,
    CopyTextPhase, CutCheckOutcome, CutCheckPhase, CutCheckStep, OpenRetry, ReadFilesPhase, ReadFilesStep, Release,
    SetFilesPhase, Step, CLIPBOARD_OPEN_ATTEMPTS,
};
use itemviewer::utf16::utf16_to_string_lossy;

fn run_set_files(outcomes: &[bool]) -> (Vec<SetFilesPhase>, Vec<Release>, bool) {
    let mut s = set_files_start(true, 1).unwrap();
    let mut phases = Vec::new();
    for &ok in outcomes {
        phases.push(s.phase());
        match set_files_step(s, ok) {
            Step::Continue(n) => s = n,
            Step::Finish { release, result } => return (phases, release, result),
        }
    }
    panic!("the copy did not finish");
}

fn run_copy_text(outcomes: &[bool]) -> (Vec<CopyTextPhase>, Vec<Release>, bool) {
    let mut s = copy_text_start(true).unwrap();
    let mut phases = Vec::new();
    for &ok in outcomes {
        phases.push(s.phase());
        match copy_text_step(s, ok) {
            Step::Continue(n) => s = n,
            Step::Finish { release, result } => return (phases, release, result),
        }
    }
    panic!("the copy did not finish");
}

#[test]
fn text_units_are_utf16_with_terminator() {
    assert_eq!(clipboard_text_units("a€😀"), vec![0x61, 0x20AC, 0xD83D, 0xDE00, 0]);
    assert_eq!(clipboard_text_units(""), vec![0]);
}

#[test]
fn format_name_is_preferred_drop_effect() {
    let expected: Vec<u16> = "Preferred DropEffect".encode_utf16().chain(std::iter::once(0)).collect();
    assert_eq!(drop_effect_format_name(), expected);
}

#[test]
fn file_list_is_double_terminated() {
    let paths = vec![path_units("C:\\a"), path_units("D:\\é")];
    assert_eq!(
        file_list(&paths),
        vec![0x43, 0x3A, 0x5C, 0x61, 0, 0x44, 0x3A, 0x5C, 0xE9, 0, 0]
    );
}

#[test]
fn payload_has_dropfiles_header_then_list() {
    let payload = drop_files_payload(&vec![path_units("C:\\a")]);
    let mut expected = vec![20u8, 0, 0, 0, 0, 0, 0, 0, 0, 0, 0, 0, 0, 0, 0, 0, 1, 0, 0, 0];
    for u in [0x43u16, 0x3A, 0x5C, 0x61, 0, 0] {
        expected.extend_from_slice(&u.to_le_bytes());
    }
    assert_eq!(payload, expected);
    assert_eq!(payload.len(), 20 + 6 * 2);
}

#[test]
fn drop_effect_marks_cut_and_copy() {
    assert_eq!(drop_effect(true), 2);
    assert_eq!(drop_effect(false), 1);
    assert_eq!(drop_effect_bytes(true), vec![2, 0, 0, 0]);
    assert_eq!(drop_effect_bytes(false), vec![1, 0, 0, 0]);
    assert!(is_move_effect(drop_effect(true)));
    assert!(!is_move_effect(drop_effect(false)));
    assert!(!is_move_effect(5));
}

#[test]
fn lossy_decoding_replaces_lone_surrogates() {
    assert_eq!(utf16_to_string_lossy(&[0x61, 0xD83D, 0xDE00, 0x62]), "a😀b");
    assert_eq!(utf16_to_string_lossy(&[0xD800, 0x61, 0xDC00]), "\u{FFFD}a\u{FFFD}");
    assert_eq!(utf16_to_string_lossy(&[]), "");
}

#[test]
fn text_round_trips_through_utf16() {
    for text in ["", "plain", "C:\\Données\\日本", "emoji 😀🎉", "\u{FFFF}\u{10000}\u{10FFFF}"] {
        let units = clipboard_text_units(text);
        assert_eq!(utf16_to_string_lossy(&units[..units.len() - 1]), text);
    }
}

#[test]
fn file_entries_are_read_or_skipped() {
    let buf: Vec<u16> = vec![0x43, 0x3A, 0x5C, 0x78, 0];
    assert_eq!(file_entry(4, 4, &buf), Some("C:\\x".to_string()));
    assert_eq!(file_entry(0, 4, &buf), None);
    assert_eq!(file_entry(4, 0, &buf), None);
    assert_eq!(file_entry(4, 2, &buf), Some("C:".to_string()));
}

#[test]
fn no_files_is_empty() {
    assert!(matches!(files_read(Vec::new()), ClipboardFileRead::Empty));
    match files_read(vec!["C:\\x".to_string()]) {
        ClipboardFileRead::Files(v) => assert_eq!(v, vec!["C:\\x".to_string()]),
        _ => panic!("expected files"),
    }
}

#[test]
fn open_is_tried_five_times() {
    assert_eq!(CLIPBOARD_OPEN_ATTEMPTS, 5);
    assert_eq!(open_retry_step(0, true), OpenRetry::Opened);
    for attempt in 0..4 {
        assert_eq!(open_retry_step(attempt, false), OpenRetry::RetryAfterDelay);
    }
    assert_eq!(open_retry_step(4, false), OpenRetry::GiveUp);
}

#[test]
fn set_files_needs_window_and_files() {
    assert!(set_files_start(false, 3).is_none());
    assert!(set_files_start(true, 0).is_none());
    assert!(set_files_start(true, 1).is_some());
}

#[test]
fn set_files_full_success() {
    let (phases, release, result) = run_set_files(&[true; 9]);
    assert_eq!(phases.len(), 9);
    assert_eq!(phases[0], SetFilesPhase::AllocFiles);
    assert_eq!(phases[8], SetFilesPhase::PlaceEffect);
    assert_eq!(release, vec![Release::CloseClipboard]);
    assert!(result);
}

#[test]
fn set_files_alloc_failure_releases_nothing() {
    let (_, release, result) = run_set_files(&[false]);
    assert!(release.is_empty());
    assert!(!result);
}

#[test]
fn set_files_lock_failure_frees_block() {
    let (_, release, result) = run_set_files(&[true, false]);
    assert_eq!(release, vec![Release::FreeData]);
    assert!(!result);
}

#[test]
fn set_files_empty_failure_frees_and_closes() {
    let (phases, release, result) = run_set_files(&[true, true, true, true, false]);
    assert_eq!(phases[4], SetFilesPhase::EmptyClipboard);
    assert_eq!(release, vec![Release::FreeData, Release::CloseClipboard]);
    assert!(!result);
}

#[test]
fn set_files_place_failure_frees_and_closes() {
    let (_, release, result) = run_set_files(&[true, true, true, true, true, false]);
    assert_eq!(release, vec![Release::FreeData, Release::CloseClipboard]);
    assert!(!result);
}

#[test]
fn set_files_effect_failures_still_succeed() {
    let (_, release, result) = run_set_files(&[true, true, true, true, true, true, false]);
    assert_eq!(release, vec![Release::CloseClipboard]);
    assert!(result);
    let (_, release, result) = run_set_files(&[true, true, true, true, true, true, true, false]);
    assert_eq!(release, vec![Release::FreeEffect, Release::CloseClipboard]);
    assert!(result);
    let (_, release, result) = run_set_files(&[true, true, true, true, true, true, true, true, false]);
    assert_eq!(release, vec![Release::FreeEffect, Release::CloseClipboard]);
    assert!(result);
}

#[test]
fn copy_text_runs() {
    assert!(copy_text_start(false).is_none());
    let (phases, release, result) = run_copy_text(&[true; 5]);
    assert_eq!(phases.len(), 5);
    assert_eq!(release, vec![Release::CloseClipboard]);
    assert!(result);
    let (_, release, result) = run_copy_text(&[false]);
    assert!(release.is_empty() && !result);
    let (_, release, result) = run_copy_text(&[true, false]);
    assert_eq!(release, vec![Release::CloseClipboard]);
    assert!(!result);
    let (_, release, result) = run_copy_text(&[true, true, true, false]);
    assert_eq!(release, vec![Release::FreeData, Release::CloseClipboard]);
    assert!(!result);
    let (_, release, result) = run_copy_text(&[true, true, true, true, false]);
    assert_eq!(release, vec![Release::FreeData, Release::CloseClipboard]);
    assert!(!result);
}

#[test]
fn read_files_steps() {
    assert!(matches!(
        read_files_step(ReadFilesPhase::OpenClipboard, false),
        ReadFilesStep::Finish { close: false, result: ClipboardFileRead::Unavailable }
    ));
    assert!(matches!(
        read_files_step(ReadFilesPhase::OpenClipboard, true),
        ReadFilesStep::Next(ReadFilesPhase::CheckFormat)
    ));
    assert!(matches!(
        read_files_step(ReadFilesPhase::CheckFormat, false),
        ReadFilesStep::Finish { close: true, result: ClipboardFileRead::Empty }
    ));
    assert!(matches!(
        read_files_step(ReadFilesPhase::GetData, false),
        ReadFilesStep::Finish { close: true, result: ClipboardFileRead::Unavailable }
    ));
    assert!(matches!(read_files_step(ReadFilesPhase::GetData, true), ReadFilesStep::ReadEntries));
    assert!(matches!(
        read_files_finish(Vec::new()),
        ReadFilesStep::Finish { close: true, result: ClipboardFileRead::Empty }
    ));
}

#[test]
fn cut_check_steps() {
    assert!(matches!(
        cut_check_step(CutCheckPhase::OpenClipboard, false),
        CutCheckStep::Finish(CutCheckOutcome { unlock: false, close: false, cut: false })
    ));
    assert!(matches!(
        cut_check_step(CutCheckPhase::GetData, false),
        CutCheckStep::Finish(CutCheckOutcome { unlock: false, close: true, cut: false })
    ));
    assert!(matches!(
        cut_check_step(CutCheckPhase::RegisterFormat, true),
        CutCheckStep::Next(CutCheckPhase::GetData)
    ));
    assert!(matches!(cut_check_step(CutCheckPhase::LockData, true), CutCheckStep::ReadValue));
}

#[test]
fn file_list_reads_back_as_nul_terminated_paths() {
    let paths = vec![path_units("C:\\a"), path_units("D:\\é😀")];
    let units = file_list(&paths);
    assert_eq!(utf16_to_string_lossy(&units), "C:\\a\0D:\\é😀\0\0");
    assert_eq!(&units[units.len() - 2..], &[0, 0]);
}

#[test]
fn cut_check_finishes_by_the_value_read() {
    assert_eq!(cut_check_finish(2), CutCheckOutcome { unlock: true, close: true, cut: true });
    assert_eq!(cut_check_finish(1), CutCheckOutcome { unlock: true, close: true, cut: false });
    assert_eq!(cut_check_finish(6), CutCheckOutcome { unlock: true, close: true, cut: false });
}

#[test]
fn file_list_keeps_units_as_given() {
    let lone = vec![0x43u16, 0x3A, 0x5C, 0xD800, 0x61];
    assert_eq!(file_list(&vec![lone]), vec![0x43, 0x3A, 0x5C, 0xD800, 0x61, 0, 0]);
    assert_eq!(file_list(&Vec::new()), vec![0]);
}
