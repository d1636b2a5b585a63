//! The log record and its parts.

use crate::text::same_text;
use vstd::prelude::*;

verus! {

/// Nanoseconds in one second.
pub const NANOS_PER_SEC: u32 = 1_000_000_000;

/// How urgent a record is.
///
/// The set is closed: a record on the wire names one of these four variants
/// or does not decode.
#[derive(Clone, Copy, Debug, PartialEq, Eq, Structural)]
pub enum LogPriority {
    Critical,
    Error,
    Info,
    Debug,
}

/// The name under which a priority goes over the wire.
pub open spec fn priority_name(priority: LogPriority) -> Seq<char> {
    match priority {
        LogPriority::Critical => "Critical"@,
        LogPriority::Error => "Error"@,
        LogPriority::Info => "Info"@,
        LogPriority::Debug => "Debug"@,
    }
}

/// The priority that goes by `name`, if there is one.
pub open spec fn priority_named(name: Seq<char>) -> Option<LogPriority> {
    if name == "Critical"@ {
        Some(LogPriority::Critical)
    } else if name == "Error"@ {
        Some(LogPriority::Error)
    } else if name == "Info"@ {
        Some(LogPriority::Info)
    } else if name == "Debug"@ {
        Some(LogPriority::Debug)
    } else {
        None
    }
}

/// Each priority is found again by its name, and by no other.
pub proof fn lemma_priority_names(priority: LogPriority, name: Seq<char>)
    ensures
        priority_named(priority_name(priority)) == Some(priority),
        priority_named(name) == Some(priority) <==> name == priority_name(priority),
{
    reveal_strlit("Critical");
    reveal_strlit("Error");
    reveal_strlit("Info");
    reveal_strlit("Debug");
    assert("Info"@.len() == 4);
    assert("Error"@.len() == 5 && "Error"@[0] == 'E');
    assert("Debug"@.len() == 5 && "Debug"@[0] == 'D');
}

impl LogPriority {
    /// The name under which the priority goes over the wire.
    pub fn name(self) -> (name: &'static str)
        ensures
            name@ == priority_name(self),
    {
        match self {
            LogPriority::Critical => "Critical",
            LogPriority::Error => "Error",
            LogPriority::Info => "Info",
            LogPriority::Debug => "Debug",
        }
    }

    /// The priority that goes by `name`; none for any other text.
    pub fn from_name(name: &str) -> (priority: Option<LogPriority>)
        ensures
            priority == priority_named(name@),
    {
        if same_text(name, "Critical") {
            Some(LogPriority::Critical)
        } else if same_text(name, "Error") {
            Some(LogPriority::Error)
        } else if same_text(name, "Info") {
            Some(LogPriority::Info)
        } else if same_text(name, "Debug") {
            Some(LogPriority::Debug)
        } else {
            None
        }
    }
}

/// Time elapsed since the Unix epoch, as whole seconds and the nanoseconds
/// of the second under way.
///
/// The nanoseconds always stay below one second.
#[derive(Clone, Copy, Debug, PartialEq, Eq)]
pub struct Timestamp {
    secs: u64,
    nanos: u32,
}

impl Timestamp {
    #[verifier::type_invariant]
    spec fn normalized(self) -> bool {
        self.nanos < NANOS_PER_SEC
    }

    /// Whole seconds since the epoch.
    pub closed spec fn seconds(self) -> nat {
        self.secs as nat
    }

    /// Nanoseconds past the last whole second.
    pub closed spec fn subsec(self) -> nat {
        self.nanos as nat
    }

    /// The epoch itself.
    pub fn zero() -> (t: Timestamp)
        ensures
            t.seconds() == 0,
            t.subsec() == 0,
    {
        Timestamp { secs: 0, nanos: 0 }
    }

    /// The time `secs` seconds and `nanos` nanoseconds after the epoch.
    ///
    /// Whole seconds held in `nanos` are carried over into the seconds. There
    /// is no such time when the carry does not fit in 64 bits.
    pub fn new(secs: u64, nanos: u32) -> (t: Option<Timestamp>)
        ensures
            t is Some <==> secs + nanos / NANOS_PER_SEC <= u64::MAX,
            t matches Some(t) ==> {
                &&& t.seconds() == secs + nanos / NANOS_PER_SEC
                &&& t.subsec() == nanos % NANOS_PER_SEC
            },
    {
        let carry: u64 = (nanos / NANOS_PER_SEC) as u64;
        if secs > u64::MAX - carry {
            None
        } else {
            Some(Timestamp { secs: secs + carry, nanos: nanos % NANOS_PER_SEC })
        }
    }

    /// Whole seconds since the epoch.
    pub fn as_secs(&self) -> (secs: u64)
        ensures
            secs == self.seconds(),
    {
        self.secs
    }

    /// Nanoseconds past the last whole second, always below one second.
    pub fn subsec_nanos(&self) -> (nanos: u32)
        ensures
            nanos == self.subsec(),
            nanos < NANOS_PER_SEC,
    {
        proof {
            use_type_invariant(self);
        }
        self.nanos
    }
}

/// One log entry: the payload, the program that emitted it, its urgency and
/// the wall-clock time at which it was made.
#[derive(Clone, Debug, PartialEq, Eq)]
pub struct LogLine {
    /// The payload, one or more lines of text.
    pub line: String,
    /// The emitting program. Any string is a valid name, the empty one too.
    pub prog_name: String,
    pub priority: LogPriority,
    /// When the record was made. It is carried along, never ordered by.
    pub time: Timestamp,
}

/// What a [`LogLine`] stands for.
pub struct Record {
    pub text: Seq<char>,
    pub source_name: Seq<char>,
    pub priority: LogPriority,
    pub secs: nat,
    pub nanos: nat,
}

impl View for LogLine {
    type V = Record;

    open spec fn view(&self) -> Record {
        Record {
            text: self.line@,
            source_name: self.prog_name@,
            priority: self.priority,
            secs: self.time.seconds(),
            nanos: self.time.subsec(),
        }
    }
}

} // verus!
