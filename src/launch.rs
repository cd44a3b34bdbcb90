//! How a session's terminal is opened and what is started on it.
use vstd::prelude::*;

verus! {

/// Rows of every session's terminal.
pub const TERMINAL_ROWS: u16 = 24;

/// Columns of every session's terminal.
pub const TERMINAL_COLS: u16 = 80;

/// The geometry a terminal is opened with.
#[derive(Debug, Clone, Copy, PartialEq, Eq, Structural)]
pub struct TerminalSize {
    pub rows: u16,
    pub cols: u16,
    pub pixel_width: u16,
    pub pixel_height: u16,
}

/// The fixed geometry of a session's terminal: 24 rows of 80 columns, with
/// no pixel size.
pub fn terminal_size() -> (r: TerminalSize)
    ensures
        r.rows == 24,
        r.cols == 80,
        r.pixel_width == 0,
        r.pixel_height == 0,
{
    TerminalSize { rows: TERMINAL_ROWS, cols: TERMINAL_COLS, pixel_width: 0, pixel_height: 0 }
}

/// What is started on a new session's terminal.
#[derive(Debug, PartialEq, Eq)]
pub enum LaunchCommand {
    /// The user's login shell, as the terminal layer picks it.
    DefaultShell,
    /// A program and its arguments, the program first.
    Program(Vec<String>),
}

/// The interactive shell that every session runs on a Windows host.
pub open spec fn windows_shell() -> Seq<char> {
    seq!['p', 'o', 'w', 'e', 'r', 's', 'h', 'e', 'l', 'l', '.', 'e', 'x', 'e']
}

/// What to start for a session asked for with `initial_command`. On a
/// Windows host it is always the interactive shell; elsewhere it is the
/// command as given, or the default shell when none is given.
pub fn launch_command(initial_command: Vec<String>, host_is_windows: bool) -> (r: LaunchCommand)
    ensures
        host_is_windows ==> (r matches LaunchCommand::Program(argv) && argv@.len() == 1
            && argv@[0]@ == windows_shell()),
        !host_is_windows && initial_command@.len() == 0 ==> r is DefaultShell,
        !host_is_windows && initial_command@.len() > 0 ==> r == LaunchCommand::Program(
            initial_command,
        ),
{
    if host_is_windows {
        let shell = String::from_str("powershell.exe");
        proof {
            reveal_strlit("powershell.exe");
        }
        let mut argv: Vec<String> = Vec::new();
        argv.push(shell);
        LaunchCommand::Program(argv)
    } else if initial_command.len() == 0 {
        LaunchCommand::DefaultShell
    } else {
        LaunchCommand::Program(initial_command)
    }
}

} // verus!
