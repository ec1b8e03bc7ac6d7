use only_cut::bridge::{
    dispatch_event, drain_events, ffprobe_args, LogEntry, LogLevel, ProcessEvent,
    TerminationPayload, HIDE_BANNER_FLAG,
};

fn exit_ok() -> TerminationPayload {
    TerminationPayload { code: Some(0), signal: None }
}

#[test]
fn drain_logs_in_order_and_stops_at_termination() {
    let events = vec![
        ProcessEvent::Stdout(b"first".to_vec()),
        ProcessEvent::Stderr(b"warning".to_vec()),
        ProcessEvent::Stdout(b"second".to_vec()),
        ProcessEvent::Terminated(exit_ok()),
        ProcessEvent::Stdout(b"never processed".to_vec()),
    ];
    let log = drain_events(&events);
    assert_eq!(log.len(), 4);
    assert_eq!(log[0], LogEntry::Stdout("first".to_string()));
    assert_eq!(log[1], LogEntry::Stderr("warning".to_string()));
    assert_eq!(log[2], LogEntry::Stdout("second".to_string()));
    assert_eq!(log[3], LogEntry::Terminated(exit_ok()));
    let levels: Vec<LogLevel> = log.iter().map(|e| e.level()).collect();
    assert_eq!(
        levels,
        vec![LogLevel::Info, LogLevel::Error, LogLevel::Info, LogLevel::Info]
    );
}

#[test]
fn drain_without_termination_processes_everything() {
    let events = vec![
        ProcessEvent::Stdout(b"a".to_vec()),
        ProcessEvent::Stderr(b"b".to_vec()),
    ];
    let log = drain_events(&events);
    assert_eq!(log.len(), 2);
}

#[test]
fn runtime_error_is_logged_but_does_not_stop_the_drain() {
    let events = vec![
        ProcessEvent::RuntimeError("spawn hiccup".to_string()),
        ProcessEvent::Stdout(b"still running".to_vec()),
    ];
    let log = drain_events(&events);
    assert_eq!(log.len(), 2);
    assert_eq!(log[0], LogEntry::RuntimeError("spawn hiccup".to_string()));
    assert_eq!(log[0].level(), LogLevel::Error);
    assert_eq!(log[1], LogEntry::Stdout("still running".to_string()));
}

#[test]
fn unknown_events_are_logged_and_skipped_over() {
    let events = vec![ProcessEvent::Unknown, ProcessEvent::Terminated(exit_ok())];
    let log = drain_events(&events);
    assert_eq!(log.len(), 2);
    assert_eq!(log[0], LogEntry::Unknown);
    assert_eq!(log[0].level(), LogLevel::Info);
}

#[test]
fn empty_queue_drains_to_nothing() {
    let events: Vec<ProcessEvent> = Vec::new();
    assert!(drain_events(&events).is_empty());
}

#[test]
fn invalid_utf8_is_replaced_not_rejected() {
    let event = ProcessEvent::Stdout(vec![0xff, b'h', b'i']);
    let (entry, keep_going) = dispatch_event(&event);
    assert!(keep_going);
    assert_eq!(entry, LogEntry::Stdout("\u{fffd}hi".to_string()));
}

#[test]
fn valid_utf8_passes_through_unchanged() {
    let event = ProcessEvent::Stderr("café".as_bytes().to_vec());
    let (entry, keep_going) = dispatch_event(&event);
    assert!(keep_going);
    assert_eq!(entry, LogEntry::Stderr("café".to_string()));
}

#[test]
fn termination_event_ends_the_loop() {
    let payload = TerminationPayload { code: None, signal: Some(9) };
    let (entry, keep_going) = dispatch_event(&ProcessEvent::Terminated(payload));
    assert!(!keep_going);
    assert_eq!(entry, LogEntry::Terminated(payload));
}

#[test]
fn ffprobe_invocation_is_flag_then_path() {
    let args = ffprobe_args("/media/clip.mp4");
    assert_eq!(args.len(), 2);
    assert_eq!(args[0], HIDE_BANNER_FLAG);
    assert_eq!(args[0], "-hide_banner");
    assert_eq!(args[1], "/media/clip.mp4");
}
