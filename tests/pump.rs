use jet_pilot::{event_name, OutputPump, PumpAction, ReadOutcome};

fn emitted(action: PumpAction) -> Vec<u8> {
    match action {
        PumpAction::Emit(bytes) => bytes,
        PumpAction::Idle => panic!("expected an event, got idle"),
        PumpAction::Finish => panic!("expected an event, got finish"),
    }
}

#[test]
fn event_name_prefixes_identity() {
    assert_eq!(event_name("1234"), "tty-data-1234");
    assert_eq!(event_name(""), "tty-data-");
    let pump = OutputPump::new("abc");
    assert_eq!(pump.event(), "tty-data-abc");
    assert!(pump.is_running());
}

#[test]
fn non_empty_drain_is_emitted_verbatim() {
    let mut pump = OutputPump::new("s");
    let bytes = vec![0u8, 27, b'[', b'm', 255, b'\n'];
    assert_eq!(emitted(pump.step(ReadOutcome::Bytes(bytes.clone()))), bytes);
    assert!(pump.is_running());
}

#[test]
fn empty_drain_emits_nothing() {
    let mut pump = OutputPump::new("s");
    assert!(matches!(pump.step(ReadOutcome::Bytes(Vec::new())), PumpAction::Idle));
    assert!(pump.is_running());
}

#[test]
fn closed_output_finishes_the_pump() {
    let mut pump = OutputPump::new("s");
    assert!(matches!(pump.step(ReadOutcome::Closed), PumpAction::Finish));
    assert!(!pump.is_running());
    assert!(matches!(pump.step(ReadOutcome::Bytes(b"late".to_vec())), PumpAction::Finish));
}

#[test]
fn failed_read_finishes_the_pump() {
    let mut pump = OutputPump::new("s");
    assert_eq!(emitted(pump.step(ReadOutcome::Bytes(b"a".to_vec()))), b"a".to_vec());
    assert!(matches!(pump.step(ReadOutcome::Failed), PumpAction::Finish));
    assert!(!pump.is_running());
    assert!(matches!(pump.step(ReadOutcome::Bytes(Vec::new())), PumpAction::Finish));
}

#[test]
fn events_carry_the_output_in_order() {
    let mut pump = OutputPump::new("cat");
    let chunks: Vec<Vec<u8>> = vec![
        b"hel".to_vec(),
        Vec::new(),
        b"lo ".to_vec(),
        b"world\r\n".to_vec(),
        Vec::new(),
    ];
    let mut events: Vec<Vec<u8>> = Vec::new();
    for chunk in &chunks {
        if let PumpAction::Emit(bytes) = pump.step(ReadOutcome::Bytes(chunk.clone())) {
            assert!(!bytes.is_empty());
            events.push(bytes);
        }
    }
    assert_eq!(events.len(), 3);
    assert_eq!(events.concat(), b"hello world\r\n".to_vec());
    assert!(matches!(pump.step(ReadOutcome::Closed), PumpAction::Finish));
    assert!(matches!(pump.step(ReadOutcome::Bytes(b"x".to_vec())), PumpAction::Finish));
}
