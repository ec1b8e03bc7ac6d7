use vstd::prelude::*;

verus! {

/// The banner-suppression flag handed to the analysis tool.
pub const HIDE_BANNER_FLAG: &'static str = "-hide_banner";

/// How a child process terminated: its exit code, or the signal that ended it,
/// where the platform reports one.
#[derive(Debug, Clone, Copy, PartialEq, Eq)]
pub struct TerminationPayload {
    pub code: Option<i32>,
    pub signal: Option<i32>,
}

/// One event from a monitored child process: a line of standard output or
/// standard error (raw bytes, possibly invalid UTF-8), a spawn or runtime
/// error report, termination, or an event variant this bridge does not know.
#[derive(Debug, PartialEq, Eq)]
pub enum ProcessEvent {
    Stdout(Vec<u8>),
    Stderr(Vec<u8>),
    RuntimeError(String),
    Terminated(TerminationPayload),
    Unknown,
}

/// How loud a log entry is: ordinary output is informational; standard-error
/// lines and runtime error reports are error-level.
#[derive(Debug, Clone, Copy, PartialEq, Eq, Structural)]
pub enum LogLevel {
    Info,
    Error,
}

/// What the bridge logs for one event: the decoded text of an output line,
/// a runtime error message, the termination notice, or an unrecognized event.
#[derive(Debug, PartialEq, Eq)]
pub enum LogEntry {
    Stdout(String),
    Stderr(String),
    RuntimeError(String),
    Terminated(TerminationPayload),
    Unknown,
}

/// What `String::from_utf8_lossy` decodes the given bytes to: a function of
/// the bytes alone.
pub uninterp spec fn utf8_lossy(bytes: Seq<u8>) -> Seq<char>;

/// Relies on `String::from_utf8_lossy`: the decoding depends on the bytes
/// alone — invalid sequences become replacement characters and the call never
/// fails, so every byte payload yields a string.
#[verifier::external_body]
fn decode_utf8_lossy(bytes: &Vec<u8>) -> (text: String)
    ensures
        text@ == utf8_lossy(bytes@),
{
    String::from_utf8_lossy(bytes).into_owned()
}

/// The log entry that belongs to one process event: output lines carry their
/// lossily decoded text, the other variants pass through.
pub open spec fn entry_matches(event: ProcessEvent, entry: LogEntry) -> bool {
    match (event, entry) {
        (ProcessEvent::Stdout(bytes), LogEntry::Stdout(text)) => text@ == utf8_lossy(bytes@),
        (ProcessEvent::Stderr(bytes), LogEntry::Stderr(text)) => text@ == utf8_lossy(bytes@),
        (ProcessEvent::RuntimeError(message), LogEntry::RuntimeError(text)) => text@ == message@,
        (ProcessEvent::Terminated(payload), LogEntry::Terminated(noted)) => noted == payload,
        (ProcessEvent::Unknown, LogEntry::Unknown) => true,
        _ => false,
    }
}

impl LogEntry {
    /// The level each entry is logged at: standard-error lines and runtime
    /// error reports are error-level, everything else informational.
    pub open spec fn spec_level(self) -> LogLevel {
        match self {
            LogEntry::Stdout(_) => LogLevel::Info,
            LogEntry::Stderr(_) => LogLevel::Error,
            LogEntry::RuntimeError(_) => LogLevel::Error,
            LogEntry::Terminated(_) => LogLevel::Info,
            LogEntry::Unknown => LogLevel::Info,
        }
    }

    pub fn level(&self) -> (level: LogLevel)
        ensures
            level == self.spec_level(),
    {
        match self {
            LogEntry::Stdout(_) => LogLevel::Info,
            LogEntry::Stderr(_) => LogLevel::Error,
            LogEntry::RuntimeError(_) => LogLevel::Error,
            LogEntry::Terminated(_) => LogLevel::Info,
            LogEntry::Unknown => LogLevel::Info,
        }
    }
}

/// Decides what one event means for the bridge: the entry to log, and whether
/// the drain loop keeps running. Only a termination event stops the loop; a
/// runtime error is logged and the loop continues.
pub fn dispatch_event(event: &ProcessEvent) -> (decision: (LogEntry, bool))
    ensures
        entry_matches(*event, decision.0),
        decision.1 == !(*event is Terminated),
{
    match event {
        ProcessEvent::Stdout(bytes) => (LogEntry::Stdout(decode_utf8_lossy(bytes)), true),
        ProcessEvent::Stderr(bytes) => (LogEntry::Stderr(decode_utf8_lossy(bytes)), true),
        ProcessEvent::RuntimeError(message) => (LogEntry::RuntimeError(message.clone()), true),
        ProcessEvent::Terminated(payload) => (LogEntry::Terminated(*payload), false),
        ProcessEvent::Unknown => (LogEntry::Unknown, true),
    }
}

/// How many queued events one drain processes: everything up to and including
/// the first termination event, or the whole queue if none terminates.
pub open spec fn drain_count(events: Seq<ProcessEvent>) -> nat
    decreases events.len(),
{
    if events.len() == 0 {
        0
    } else if events.first() is Terminated {
        1
    } else {
        1 + drain_count(events.drop_first())
    }
}

/// Helper for relating a scan of the queue to `drain_count`: as long as no
/// event so far terminated, the drain covers the prefix scanned; the first
/// termination event is the last one processed.
proof fn lemma_drain_count_prefix(events: Seq<ProcessEvent>, scanned: int)
    requires
        0 <= scanned <= events.len(),
        forall|j: int| 0 <= j < scanned ==> !(#[trigger] events[j] is Terminated),
    ensures
        scanned == events.len() ==> drain_count(events) == scanned,
        scanned < events.len() && events[scanned] is Terminated ==> drain_count(events) == scanned
            + 1,
    decreases scanned,
{
    if scanned == 0 {
    } else {
        let rest = events.drop_first();
        assert(!(events.first() is Terminated));
        assert forall|j: int| 0 <= j < scanned - 1 implies !(#[trigger] rest[j] is Terminated) by {
            assert(rest[j] == events[j + 1]);
        }
        lemma_drain_count_prefix(rest, scanned - 1);
        if scanned < events.len() && events[scanned] is Terminated {
            assert(rest[scanned - 1] == events[scanned]);
        }
    }
}

/// Drains a queue of subprocess events in order: each event processed yields
/// its log entry; the first termination event ends the drain even if further
/// events are already queued, and without one the whole queue is processed.
pub fn drain_events(events: &Vec<ProcessEvent>) -> (log: Vec<LogEntry>)
    ensures
        log@.len() == drain_count(events@),
        forall|i: int| 0 <= i < log@.len() ==> entry_matches(events@[i], #[trigger] log@[i]),
{
    let mut log: Vec<LogEntry> = Vec::new();
    let mut scanned: usize = 0;
    let mut stopped = false;
    while scanned < events.len() && !stopped
        invariant
            scanned <= events.len(),
            log@.len() == scanned,
            forall|i: int| 0 <= i < log@.len() ==> entry_matches(events@[i], #[trigger] log@[i]),
            !stopped ==> forall|j: int| 0 <= j < scanned ==> !(#[trigger] events@[j] is Terminated),
            stopped ==> scanned >= 1 && events@[scanned - 1] is Terminated && forall|j: int|
                0 <= j < scanned - 1 ==> !(#[trigger] events@[j] is Terminated),
        decreases events.len() - scanned,
    {
        let (entry, keep_going) = dispatch_event(&events[scanned]);
        log.push(entry);
        stopped = !keep_going;
        scanned = scanned + 1;
    }
    proof {
        if stopped {
            lemma_drain_count_prefix(events@, scanned - 1);
        } else {
            lemma_drain_count_prefix(events@, scanned as int);
        }
    }
    log
}

/// The exact invocation the bridge builds for the analysis tool: the
/// banner-suppression flag, then the resolved target path — two arguments and
/// nothing else.
pub fn ffprobe_args(resolved_path: &str) -> (args: Vec<String>)
    ensures
        args@.len() == 2,
        args@[0]@ == HIDE_BANNER_FLAG@,
        args@[1]@ == resolved_path@,
{
    let mut args: Vec<String> = Vec::new();
    args.push(HIDE_BANNER_FLAG.to_owned());
    args.push(resolved_path.to_owned());
    args
}

} // verus!
