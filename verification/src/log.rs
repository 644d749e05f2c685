//! The log that a unit writes to: the messages that the host's logging sink
//! is to emit, in the order in which they were written.

use vstd::prelude::*;

verus! {

/// How grave a message is.
#[derive(Clone, Copy, Debug, PartialEq, Eq, Structural)]
pub enum Severity {
    Info,
    Warning,
    Error,
}

/// A message as the contracts see it.
pub struct LogEntry {
    pub severity: Severity,
    pub text: Seq<char>,
}

/// A message for the host's logging sink: a text with a severity.
#[derive(Debug, PartialEq, Eq)]
pub struct LogMessage {
    pub severity: Severity,
    pub text: String,
}

impl View for LogMessage {
    type V = LogEntry;

    open spec fn view(&self) -> LogEntry {
        LogEntry { severity: self.severity, text: self.text@ }
    }
}

/// The messages written so far, oldest first. Writing never fails.
#[derive(Debug)]
pub struct Log {
    messages: Vec<LogMessage>,
}

impl View for Log {
    type V = Seq<LogEntry>;

    closed spec fn view(&self) -> Seq<LogEntry> {
        self.messages@.map_values(|m: LogMessage| m@)
    }
}

impl Log {
    /// A log without messages.
    pub fn new() -> (r: Log)
        ensures
            r@ == Seq::<LogEntry>::empty(),
    {
        let r = Log { messages: Vec::new() };
        assert(r@ =~= Seq::<LogEntry>::empty());
        r
    }

    /// Writes one message at the end of the log.
    pub fn emit(&mut self, severity: Severity, text: String)
        ensures
            final(self)@ == old(self)@.push(LogEntry { severity, text: text@ }),
    {
        self.messages.push(LogMessage { severity, text });
        assert(self@ =~= old(self)@.push(LogEntry { severity, text: text@ }));
    }

    /// The number of messages written so far.
    pub fn len(&self) -> (r: usize)
        ensures
            r == self@.len(),
    {
        self.messages.len()
    }

    /// The message at place `i`, counted from the oldest; none past the end.
    pub fn get(&self, i: usize) -> (r: Option<&LogMessage>)
        ensures
            r is Some <==> i < self@.len(),
            r matches Some(m) ==> m@ == self@[i as int],
    {
        if i < self.messages.len() {
            Some(&self.messages[i])
        } else {
            None
        }
    }
}

} // verus!
