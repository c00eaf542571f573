//! Opening a terminal in the current directory.

use vstd::prelude::*;

verus! {

/// The terminals tried, in their order.
#[derive(Clone, Copy, Debug, PartialEq, Eq, Structural)]
pub enum TerminalLauncher {
    /// `wt.exe -d <dir>`
    WindowsTerminal,
    /// `powershell.exe`, started in the directory.
    PowerShell,
    /// `cmd.exe`, started in the directory.
    Cmd,
}

/// The directory a terminal opens in: the home directory, where one is known,
/// for the "This PC" location or a directory that does not exist; else the
/// directory itself.
pub fn terminal_start_dir(
    current_dir: &String,
    this_pc_path: &String,
    dir_exists: bool,
    home_dir: Option<String>,
) -> (r: String)
    ensures
        r@ == (if current_dir@ == this_pc_path@ || !dir_exists {
            match home_dir {
                Some(h) => h@,
                None => current_dir@,
            }
        } else {
            current_dir@
        }),
{
    if current_dir.eq(this_pc_path) || !dir_exists {
        match home_dir {
            Some(h) => h,
            None => current_dir.clone(),
        }
    } else {
        current_dir.clone()
    }
}

/// The terminal tried first.
pub fn first_terminal() -> (r: TerminalLauncher)
    ensures
        r == TerminalLauncher::WindowsTerminal,
{
    TerminalLauncher::WindowsTerminal
}

/// The terminal tried when `failed` could not be started: Windows Terminal,
/// then PowerShell, then the command prompt, then none.
pub fn terminal_after_failure(failed: TerminalLauncher) -> (r: Option<TerminalLauncher>)
    ensures
        r == (match failed {
            TerminalLauncher::WindowsTerminal => Some(TerminalLauncher::PowerShell),
            TerminalLauncher::PowerShell => Some(TerminalLauncher::Cmd),
            TerminalLauncher::Cmd => None,
        }),
{
    match failed {
        TerminalLauncher::WindowsTerminal => Some(TerminalLauncher::PowerShell),
        TerminalLauncher::PowerShell => Some(TerminalLauncher::Cmd),
        TerminalLauncher::Cmd => None,
    }
}

} // verus!
