use jet_pilot::{launch_command, terminal_size, LaunchCommand, TerminalSize};

#[test]
fn terminal_is_24_by_80() {
    assert_eq!(
        terminal_size(),
        TerminalSize { rows: 24, cols: 80, pixel_width: 0, pixel_height: 0 }
    );
}

#[test]
fn command_is_used_verbatim_off_windows() {
    let argv = vec!["echo".to_string(), "hello".to_string()];
    assert_eq!(launch_command(argv.clone(), false), LaunchCommand::Program(argv));
}

#[test]
fn empty_command_starts_default_shell_off_windows() {
    assert_eq!(launch_command(Vec::new(), false), LaunchCommand::DefaultShell);
}

#[test]
fn empty_command_starts_shell_on_windows() {
    assert_eq!(
        launch_command(Vec::new(), true),
        LaunchCommand::Program(vec!["powershell.exe".to_string()])
    );
}

#[test]
fn windows_always_starts_its_shell() {
    let argv = vec!["echo".to_string(), "hello".to_string()];
    assert_eq!(
        launch_command(argv, true),
        LaunchCommand::Program(vec!["powershell.exe".to_string()])
    );
}
