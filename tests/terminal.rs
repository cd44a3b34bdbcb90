use std::io::{Read, Write};

use jet_pilot::{
    launch_command, terminal_size, InputSink, LaunchCommand, OutputPump, PumpAction, ReadOutcome,
    SessionRegistry,
};
use portable_pty::{native_pty_system, Child, CommandBuilder, PtySize};

struct PtyInput(Box<dyn Write + Send>);

impl InputSink for PtyInput {
    fn send(&mut self, bytes: &[u8]) -> bool {
        self.0.write_all(bytes).and_then(|_| self.0.flush()).is_ok()
    }
}

struct Session {
    registry: SessionRegistry<PtyInput>,
    id: String,
    pump: OutputPump,
    reader: Box<dyn Read + Send>,
    child: Box<dyn Child + Send + Sync>,
}

fn start(argv: Vec<&str>) -> Session {
    let size = terminal_size();
    let pair = native_pty_system()
        .openpty(PtySize {
            rows: size.rows,
            cols: size.cols,
            pixel_width: size.pixel_width,
            pixel_height: size.pixel_height,
        })
        .unwrap();
    let argv: Vec<String> = argv.into_iter().map(String::from).collect();
    let cmd = match launch_command(argv, false) {
        LaunchCommand::Program(argv) => {
            CommandBuilder::from_argv(argv.into_iter().map(Into::into).collect())
        }
        LaunchCommand::DefaultShell => CommandBuilder::new_default_prog(),
    };
    let child = pair.slave.spawn_command(cmd).unwrap();
    drop(pair.slave);
    let reader = pair.master.try_clone_reader().unwrap();
    let mut registry = SessionRegistry::new();
    let id = registry
        .create(PtyInput(pair.master.take_writer().unwrap()))
        .unwrap();
    let pump = OutputPump::new(&id);
    Session { registry, id, pump, reader, child }
}

fn drain(session: &mut Session, until: &str, times: usize) -> Vec<u8> {
    let mut received = Vec::new();
    let mut buf = [0u8; 1024];
    while session.pump.is_running() {
        let outcome = match session.reader.read(&mut buf) {
            Ok(0) => ReadOutcome::Closed,
            Ok(n) => ReadOutcome::Bytes(buf[..n].to_vec()),
            Err(_) => ReadOutcome::Failed,
        };
        if let PumpAction::Emit(bytes) = session.pump.step(outcome) {
            assert_eq!(session.pump.event(), format!("tty-data-{}", session.id));
            assert!(!bytes.is_empty());
            received.extend(bytes);
            if times > 0 && String::from_utf8_lossy(&received).matches(until).count() >= times {
                break;
            }
        }
    }
    received
}

#[test]
fn echo_hello_reaches_an_event() {
    let mut session = start(vec!["echo", "hello"]);
    let received = drain(&mut session, "", 0);
    session.child.wait().unwrap();
    assert!(String::from_utf8_lossy(&received).contains("hello"));
}

#[test]
fn cat_echoes_written_bytes() {
    let mut session = start(vec!["cat"]);
    let id = session.id.clone();
    assert!(session.registry.write(&id, b"ping-1\n"));
    assert!(session.registry.write(&id, b"ping-2\n"));
    let received = drain(&mut session, "ping-2", 2);
    let text = String::from_utf8_lossy(&received).to_string();
    let first = text.find("ping-1").unwrap();
    let second = text.find("ping-2").unwrap();
    assert!(first < second);
    assert!(session.registry.write(&id, &[4u8]));
    drain(&mut session, "", 0);
    session.child.wait().unwrap();
}
