//! Log lines: what a program prints and what it appends to its log file.

use vstd::prelude::*;
use vstd::string::StringExecFns;

verus! {

/// How serious a logged event is.
#[derive(Clone, Copy, Debug, PartialEq, Eq, Structural)]
pub enum Importance {
    /// Basic telemetry.
    Info,
    /// Something went wrong, but it is fine.
    Warn,
    /// Something serious went wrong.
    Error,
    /// The program has to stop.
    Fatal,
}

/// How a program logs: whether it echoes lines to the terminal, whether informational
/// lines reach the file, and where the file lies and for which program. The directory and
/// the program name are set once; later attempts leave them as they were.
#[derive(Debug)]
pub struct LogSettings {
    pub verbose: bool,
    pub info_log: bool,
    /// The directory's path, as the bytes the operating system names it by.
    pub directory: Option<Vec<u8>>,
    pub program_name: Option<String>,
}

impl LogSettings {
    /// Quiet on the terminal, informational lines logged, no directory or name yet.
    pub fn new() -> (s: LogSettings)
        ensures
            !s.verbose,
            s.info_log,
            s.directory is None,
            s.program_name is None,
    {
        LogSettings { verbose: false, info_log: true, directory: None, program_name: None }
    }

    /// Echo log lines on the terminal, or not.
    pub fn set_verbose(&mut self, v: bool)
        ensures
            *final(self) == (LogSettings { verbose: v, ..*old(self) }),
    {
        self.verbose = v;
    }

    /// Let informational lines reach the log file, or not.
    pub fn set_info_log(&mut self, v: bool)
        ensures
            *final(self) == (LogSettings { info_log: v, ..*old(self) }),
    {
        self.info_log = v;
    }

    /// Sets the directory of the log files, if it was not set before.
    pub fn set_log_directory(&mut self, directory: Vec<u8>)
        ensures
            old(self).directory is None ==> *final(self) == (LogSettings {
                directory: Some(directory),
                ..*old(self)
            }),
            old(self).directory is Some ==> *final(self) == *old(self),
    {
        if self.directory.is_none() {
            self.directory = Some(directory);
        }
    }

    /// Sets the name of the program that logs, if it was not set before.
    pub fn set_program_name(&mut self, name: String)
        ensures
            old(self).program_name is None ==> *final(self) == (LogSettings {
                program_name: Some(name),
                ..*old(self)
            }),
            old(self).program_name is Some ==> *final(self) == *old(self),
    {
        if self.program_name.is_none() {
            self.program_name = Some(name);
        }
    }
}

/// The tag of a level, as the log file shows it.
pub open spec fn level_tag(level: Importance) -> Seq<char> {
    match level {
        Importance::Info => "[INFO] "@,
        Importance::Warn => "[WARN] "@,
        Importance::Error => "[ERROR] "@,
        Importance::Fatal => "[FATAL] "@,
    }
}

/// The terminal colour that a level's line starts with (none for information).
pub open spec fn level_colour(level: Importance) -> Seq<char> {
    match level {
        Importance::Info => Seq::empty(),
        Importance::Warn => "\x1b[0;33m"@,
        Importance::Error => "\x1b[0;31m"@,
        Importance::Fatal => "\x1b[1;31m"@,
    }
}

/// What resets the terminal colour after a line (nothing for information).
pub open spec fn level_reset(level: Importance) -> Seq<char> {
    match level {
        Importance::Info => Seq::empty(),
        _ => "\x1b[0m"@,
    }
}

/// The line written to the log file: the time, the level's tag and the message.
pub open spec fn file_line_of(time: Seq<char>, msg: Seq<char>, level: Importance) -> Seq<char> {
    time + " "@ + level_tag(level) + msg
}

/// The line echoed on the terminal: as in the file, coloured by level.
pub open spec fn console_line_of(time: Seq<char>, msg: Seq<char>, level: Importance) -> Seq<char> {
    time + " "@ + level_colour(level) + level_tag(level) + msg + level_reset(level)
}

fn tag(level: Importance) -> (s: &'static str)
    ensures
        s@ == level_tag(level),
{
    match level {
        Importance::Info => "[INFO] ",
        Importance::Warn => "[WARN] ",
        Importance::Error => "[ERROR] ",
        Importance::Fatal => "[FATAL] ",
    }
}

fn colour(level: Importance) -> (s: &'static str)
    ensures
        s@ == level_colour(level),
{
    proof {
        reveal_strlit("");
        assert(""@ =~= Seq::<char>::empty());
    }
    match level {
        Importance::Info => "",
        Importance::Warn => "\x1b[0;33m",
        Importance::Error => "\x1b[0;31m",
        Importance::Fatal => "\x1b[1;31m",
    }
}

fn reset(level: Importance) -> (s: &'static str)
    ensures
        s@ == level_reset(level),
{
    proof {
        reveal_strlit("");
        assert(""@ =~= Seq::<char>::empty());
    }
    match level {
        Importance::Info => "",
        _ => "\x1b[0m",
    }
}

/// The two lines of one logged event: the one to echo on the terminal, if any, and the
/// one to append to the log file, if any.
#[derive(Debug)]
pub struct LogLines {
    pub console: Option<String>,
    pub file: Option<String>,
}

/// The lines of a logged event at `time`: echoed (coloured) when the settings are verbose,
/// and written to the file unless it is informational and informational lines are off.
pub fn pluton_log(settings: &LogSettings, time: &str, msg: &str, level: Importance) -> (lines: LogLines)
    ensures
        settings.verbose ==> (lines.console matches Some(c) && c@ == console_line_of(time@, msg@, level)),
        !settings.verbose ==> lines.console is None,
        level == Importance::Info && !settings.info_log ==> lines.file is None,
        !(level == Importance::Info && !settings.info_log) ==> (lines.file matches Some(f) && f@
            == file_line_of(time@, msg@, level)),
{
    let console = if settings.verbose {
        let mut c = String::from_str(time);
        c.append(" ");
        c.append(colour(level));
        c.append(tag(level));
        c.append(msg);
        c.append(reset(level));
        Some(c)
    } else {
        None
    };
    let file = if level == Importance::Info && !settings.info_log {
        None
    } else {
        let mut f = String::from_str(time);
        f.append(" ");
        f.append(tag(level));
        f.append(msg);
        Some(f)
    };
    LogLines { console, file }
}

/// The name of the log file a program is writing now.
pub fn latest_log_name(program_name: &str) -> (s: String)
    ensures
        s@ == "latest "@ + program_name@,
{
    let mut s = String::from_str("latest ");
    s.append(program_name);
    s
}

/// The name an earlier log file is kept under, after the time it was last written.
pub fn archived_log_name(time: &str, program_name: &str) -> (s: String)
    ensures
        s@ == time@ + " "@ + program_name@,
{
    let mut s = String::from_str(time);
    s.append(" ");
    s.append(program_name);
    s
}

} // verus!
