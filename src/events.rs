use vstd::prelude::*;

verus! {

#[derive(Clone, Copy, Debug, PartialEq, Eq, Structural)]
pub enum LogLevel {
    Error,
    Warn,
    Info,
    Debug,
    Trace,
}

/// Progress reported while a prompt is processed.
#[derive(Clone, Debug, PartialEq, Eq)]
pub enum Event {
    /// A snippet of output text received from a model
    Snippet(String),
    /// The preflight check suite has started
    PreflightStart,
    /// The preflight check suite has ended
    PreflightEnd,
    /// The formatting suite has started
    FormattingStart,
    /// The formatting suite has ended
    FormattingEnd,
    /// A formatter has run successfully
    FormattingOk(String),
    /// The validation suite has started
    ValidationStart,
    /// The validation suite has ended
    ValidationEnd,
    CheckStart(String),
    CheckOk(String),
    /// A log message with a specified log level
    Log(LogLevel, String),
}

/// The snake-case name of an event's variant.
pub open spec fn event_name(e: Event) -> Seq<char> {
    match e {
        Event::Snippet(_) => "snippet"@,
        Event::PreflightStart => "preflight_start"@,
        Event::PreflightEnd => "preflight_end"@,
        Event::FormattingStart => "formatting_start"@,
        Event::FormattingEnd => "formatting_end"@,
        Event::FormattingOk(_) => "formatting_ok"@,
        Event::ValidationStart => "validation_start"@,
        Event::ValidationEnd => "validation_end"@,
        Event::CheckStart(_) => "check_start"@,
        Event::CheckOk(_) => "check_ok"@,
        Event::Log(_, _) => "log"@,
    }
}

impl Event {
    /// The snake-case name of the event's variant.
    pub fn name(&self) -> (r: &'static str)
        ensures
            r@ == event_name(*self),
    {
        match self {
            Event::Snippet(_) => "snippet",
            Event::PreflightStart => "preflight_start",
            Event::PreflightEnd => "preflight_end",
            Event::FormattingStart => "formatting_start",
            Event::FormattingEnd => "formatting_end",
            Event::FormattingOk(_) => "formatting_ok",
            Event::ValidationStart => "validation_start",
            Event::ValidationEnd => "validation_end",
            Event::CheckStart(_) => "check_start",
            Event::CheckOk(_) => "check_ok",
            Event::Log(_, _) => "log",
        }
    }

    /// The enclosed string if any, otherwise an empty string.
    pub fn display(&self) -> (r: String)
        ensures
            r@ == match *self {
                Event::Snippet(s) => s@,
                Event::FormattingOk(s) => s@,
                Event::CheckStart(s) => s@,
                Event::CheckOk(s) => s@,
                Event::Log(_, s) => s@,
                _ => Seq::<char>::empty(),
            },
    {
        match self {
            Event::Snippet(s) | Event::FormattingOk(s) | Event::CheckStart(s) | Event::CheckOk(s) => s.clone(),
            Event::Log(_, s) => s.clone(),
            _ => String::new(),
        }
    }
}

} // verus!
