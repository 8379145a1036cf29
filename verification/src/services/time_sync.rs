//! Keeping the system clock: when to synchronise it and with which tools.

use vstd::prelude::*;
use vstd::string::*;

verus! {

/// The seconds between the start and the first synchronisation.
pub const FIRST_SYNC_DELAY_SECS: u64 = 10;

/// The seconds between two synchronisations: six hours.
pub const SYNC_INTERVAL_SECS: u64 = 21600;

/// The time synchronisation service.
pub struct TimeSyncService;

/// How an attempt to synchronise the clock ended.
#[derive(Debug, Clone, Copy, PartialEq, Eq, Structural)]
pub enum SyncOutcome {
    /// The tool ran and reported success.
    Synced,
    /// The tool ran and reported failure.
    Failed,
    /// The tool could not be run.
    Unavailable,
}

/// A command line: a program and its arguments.
#[derive(Debug, Clone)]
pub struct CommandLine {
    pub program: String,
    pub args: Vec<String>,
}

impl TimeSyncService {
    /// The command that synchronises the clock.
    pub fn sync_once() -> (c: CommandLine)
        ensures
            c.program@ == "ntpdate"@,
            c.args.deep_view() == seq!["-u"@, "pool.ntp.org"@],
    {
        let mut args: Vec<String> = Vec::new();
        args.push("-u".to_owned());
        args.push("pool.ntp.org".to_owned());
        assert(args.deep_view() =~= seq!["-u"@, "pool.ntp.org"@]);
        CommandLine { program: "ntpdate".to_owned(), args }
    }

    /// The command to run after an attempt: when the tool reported failure,
    /// the system's own synchronisation is switched on; otherwise nothing
    /// more is done.
    pub fn after_sync(outcome: SyncOutcome) -> (c: Option<CommandLine>)
        ensures
            c is Some == (outcome == SyncOutcome::Failed),
            c matches Some(line) ==> line.program@ == "timedatectl"@ && line.args.deep_view()
                == seq!["set-ntp"@, "true"@],
    {
        match outcome {
            SyncOutcome::Failed => {
                let mut args: Vec<String> = Vec::new();
                args.push("set-ntp".to_owned());
                args.push("true".to_owned());
                assert(args.deep_view() =~= seq!["set-ntp"@, "true"@]);
                Some(CommandLine { program: "timedatectl".to_owned(), args })
            },
            _ => None,
        }
    }

    /// The command that sets the clock to a date and time.
    pub fn set_time(datetime: &str) -> (c: CommandLine)
        ensures
            c.program@ == "date"@,
            c.args.deep_view() == seq!["-s"@, datetime@],
    {
        let mut args: Vec<String> = Vec::new();
        args.push("-s".to_owned());
        args.push(datetime.to_owned());
        assert(args.deep_view() =~= seq!["-s"@, datetime@]);
        CommandLine { program: "date".to_owned(), args }
    }
}

} // verus!
