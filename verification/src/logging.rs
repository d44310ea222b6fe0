//! What the logging setup decides: the format of the log, whether spans are
//! captured for errors, the label under which an event is counted, and
//! whether the panic hook is taken back when its guard goes away.

use vstd::prelude::*;

verus! {

/// The formats in which the log can be written.
#[derive(Clone, Copy, Debug, PartialEq, Eq, Structural)]
pub enum LogFormat {
    Plain,
    Json,
    Test,
}

/// A log format was asked for under a name that none has.
#[derive(Clone, Copy, Debug, PartialEq, Eq, Structural)]
pub struct UnrecognizedLogFormat;

impl UnrecognizedLogFormat {
    /// The message for the operator, with the names that are accepted.
    pub fn message(&self) -> (r: String)
        ensures
            r@ == "Unrecognized log format. Please specify one of: [\"plain\", \"json\", \"test\"]"@,
    {
        "Unrecognized log format. Please specify one of: [\"plain\", \"json\", \"test\"]".to_owned()
    }
}

/// Whether two strings hold the same characters.
fn same_text(a: &str, b: &str) -> (r: bool)
    ensures
        r == (a@ == b@),
{
    a.to_owned() == b.to_owned()
}

impl LogFormat {
    /// The format that the configuration names `s`, if it names one.
    pub open spec fn spec_from_config(s: Seq<char>) -> Result<LogFormat, UnrecognizedLogFormat> {
        if s == "plain"@ {
            Ok(LogFormat::Plain)
        } else if s == "json"@ {
            Ok(LogFormat::Json)
        } else if s == "test"@ {
            Ok(LogFormat::Test)
        } else {
            Err(UnrecognizedLogFormat)
        }
    }

    /// Reads the log format from its name in the configuration: `plain`,
    /// `json` or `test`, in lower case. Any other name is refused.
    pub fn from_config(s: &str) -> (r: Result<LogFormat, UnrecognizedLogFormat>)
        ensures
            r == Self::spec_from_config(s@),
    {
        if same_text(s, "plain") {
            Ok(LogFormat::Plain)
        } else if same_text(s, "json") {
            Ok(LogFormat::Json)
        } else if same_text(s, "test") {
            Ok(LogFormat::Test)
        } else {
            Err(UnrecognizedLogFormat)
        }
    }

    /// The name of the format in the configuration.
    pub fn name(&self) -> (r: &'static str)
        ensures
            Self::spec_from_config(r@) == Ok::<LogFormat, UnrecognizedLogFormat>(*self),
    {
        proof {
            reveal_strlit("plain");
            reveal_strlit("json");
            reveal_strlit("test");
            assert("plain"@.len() == 5);
            assert("json"@.len() == 4);
            assert("json"@[0] == 'j');
            assert("test"@[0] == 't');
        }
        match self {
            LogFormat::Plain => "plain",
            LogFormat::Json => "json",
            LogFormat::Test => "test",
        }
    }
}

/// Whether spans are captured when an error is created.
#[derive(Clone, Copy, Debug, PartialEq, Eq, Structural)]
pub enum TracingErrorLayerEnablement {
    /// Do not capture spans.
    Disabled,
    /// Capture the spans that pass the filter of the log, which defaults to
    /// `info`.
    EnableWithRustLogFilter,
}

/// The severities of log events.
#[derive(Clone, Copy, Debug, PartialEq, Eq, Structural)]
pub enum EventLevel {
    Error,
    Warn,
    Info,
    Debug,
    Trace,
}

/// The label under which events of a severity are counted.
pub open spec fn spec_level_label(level: EventLevel) -> Seq<char> {
    match level {
        EventLevel::Error => "error"@,
        EventLevel::Warn => "warn"@,
        EventLevel::Info => "info"@,
        EventLevel::Debug => "debug"@,
        EventLevel::Trace => "trace"@,
    }
}

/// The label under which events of a severity are counted.
pub fn level_label(level: EventLevel) -> (r: &'static str)
    ensures
        r@ == spec_level_label(level),
{
    match level {
        EventLevel::Error => "error",
        EventLevel::Warn => "warn",
        EventLevel::Info => "info",
        EventLevel::Debug => "debug",
        EventLevel::Trace => "trace",
    }
}

/// Stands for a panic hook that was installed: while the guard is armed, the
/// hook is to be taken back when the guard goes away.
#[derive(Debug)]
pub struct TracingPanicHookGuard {
    act: bool,
}

impl TracingPanicHookGuard {
    /// Whether the hook is taken back when the guard goes away.
    pub closed spec fn spec_is_armed(&self) -> bool {
        self.act
    }

    /// An armed guard.
    pub fn new() -> (r: Self)
        ensures
            r.spec_is_armed(),
    {
        TracingPanicHookGuard { act: true }
    }

    /// Make this guard not do anything when it goes away.
    pub fn forget(&mut self)
        ensures
            !final(self).spec_is_armed(),
    {
        self.act = false;
    }

    /// Whether the hook is taken back when the guard goes away.
    #[verifier::when_used_as_spec(spec_is_armed)]
    pub fn is_armed(&self) -> (r: bool)
        ensures
            r == self.spec_is_armed(),
    {
        self.act
    }
}

} // verus!
