use itemviewer::terminal::{first_terminal, terminal_after_failure, terminal_start_dir, TerminalLauncher};

#[test]
fn terminal_opens_in_existing_directory() {
    let dir = terminal_start_dir(&"C:\\work".to_string(), &"::this-pc".to_string(), true, Some("C:\\Users\\me".to_string()));
    assert_eq!(dir, "C:\\work");
}

#[test]
fn terminal_falls_back_to_home() {
    let pc = "::this-pc".to_string();
    let home = Some("C:\\Users\\me".to_string());
    assert_eq!(terminal_start_dir(&pc, &pc, true, home.clone()), "C:\\Users\\me");
    assert_eq!(terminal_start_dir(&"C:\\gone".to_string(), &pc, false, home), "C:\\Users\\me");
    assert_eq!(terminal_start_dir(&"C:\\gone".to_string(), &pc, false, None), "C:\\gone");
}

#[test]
fn terminals_are_tried_in_order() {
    let mut tried = vec![first_terminal()];
    while let Some(next) = terminal_after_failure(*tried.last().unwrap()) {
        tried.push(next);
    }
    assert_eq!(
        tried,
        vec![TerminalLauncher::WindowsTerminal, TerminalLauncher::PowerShell, TerminalLauncher::Cmd]
    );
}
