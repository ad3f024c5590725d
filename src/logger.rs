use vstd::prelude::*;

verus! {

/// Severity of a log entry, from the most to the least severe.
pub enum LogLevel {
    Error,
    Warn,
    Info,
    Debug,
    Trace,
}

pub open spec fn level_code(l: LogLevel) -> u32 {
    match l {
        LogLevel::Error => 1,
        LogLevel::Warn => 2,
        LogLevel::Info => 3,
        LogLevel::Debug => 4,
        LogLevel::Trace => 5,
    }
}

impl LogLevel {
    /// The number under which the host receives this level: 1 for errors up to 5 for traces.
    pub fn code(&self) -> (r: u32)
        ensures
            r == level_code(*self),
            1 <= r <= 5,
    {
        match self {
            LogLevel::Error => 1,
            LogLevel::Warn => 2,
            LogLevel::Info => 3,
            LogLevel::Debug => 4,
            LogLevel::Trace => 5,
        }
    }
}

/// Filter of the log entries sent to the host: those whose level code is at most the
/// maximum pass.
pub struct Logger {
    max_log_level: u32,
}

impl Logger {
    pub closed spec fn spec_max_level(&self) -> u32 {
        self.max_log_level
    }

    pub fn new(max_log_level: u32) -> (r: Self)
        ensures
            r.spec_max_level() == max_log_level,
    {
        Logger { max_log_level }
    }

    pub fn set_max_level(&mut self, max_log_level: u32)
        ensures
            final(self).spec_max_level() == max_log_level,
    {
        self.max_log_level = max_log_level;
    }

    pub fn max_level(&self) -> (r: u32)
        ensures
            r == self.spec_max_level(),
    {
        self.max_log_level
    }

    /// The code under which an entry of this level goes to the host, or `None` where the
    /// entry is filtered out.
    pub fn filter(&self, level: LogLevel) -> (r: Option<u32>)
        ensures
            level_code(level) <= self.spec_max_level() ==> r == Some(level_code(level)),
            level_code(level) > self.spec_max_level() ==> r is None,
    {
        let code = level.code();
        if code > self.max_log_level {
            None
        } else {
            Some(code)
        }
    }
}

} // verus!
