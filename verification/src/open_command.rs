//! Opening a chosen match: with the system opener, or with the user's command.

use crate::error::PluckError;
use crate::model::{OpenSettings, PickerSnapshot};
use crate::text::{debug_quote, debug_quoted, views};
use vstd::prelude::*;
use vstd::string::StringExecFns;

verus! {

/// The system opener reports which tool opened the URL.
#[derive(Debug, Clone, PartialEq, Eq)]
pub struct OpenUrlSuccess {
    pub tool: String,
}

/// Why the system opener failed.
#[derive(Debug, Clone, PartialEq, Eq)]
pub struct UrlOpenError {
    pub message: String,
}

/// A process to start: the match goes to its standard input, the source pane
/// and tab go to its environment.
#[derive(Debug, Clone, PartialEq, Eq)]
pub struct OpenCommand {
    pub program: String,
    pub args: Vec<String>,
    pub env: Vec<(String, String)>,
    pub stdin: String,
    pub cwd: Option<String>,
}

/// What opens a match. `open` hands a URL to the system opener; `run_open_command`
/// starts a process and waits a bounded time for it.
pub trait UrlOpener {
    fn open(&self, url: &str) -> Result<OpenUrlSuccess, UrlOpenError>;

    fn run_open_command(&self, command: &OpenCommand) -> Result<(), PluckError>;
}

pub open spec fn env_views(env: Seq<(String, String)>) -> Seq<(Seq<char>, Seq<char>)> {
    env.map_values(|p: (String, String)| (p.0@, p.1@))
}

/// `c` runs the configured command on `text`, for pane `pane` of tab `tab`.
pub open spec fn is_open_command(c: OpenCommand, settings: OpenSettings, text: Seq<char>, pane: Seq<char>, tab: Seq<char>) -> bool {
    &&& settings.command@.len() > 0
    &&& c.program@ == settings.command@[0]@
    &&& views(c.args@) == views(settings.command@).drop_first()
    &&& env_views(c.env@) == seq![("HERDR_PLUCK_PANE_ID"@, pane), ("HERDR_PLUCK_TAB_ID"@, tab)]
    &&& c.stdin@ == text
    &&& match settings.cwd {
        Some(d) => c.cwd matches Some(e) && e@ == d@,
        None => c.cwd is None,
    }
}

/// The process that opens `text` with the configured command.
pub fn build_open_command(settings: &OpenSettings, text: &str, pane_id: &str, tab_id: &str) -> (r: Result<OpenCommand, PluckError>)
    ensures
        settings.command@.len() == 0 ==> r == Err::<OpenCommand, PluckError>(PluckError::EmptyOpenCommand),
        settings.command@.len() > 0 ==> (r matches Ok(c) && is_open_command(c, *settings, text@, pane_id@, tab_id@)),
{
    if settings.command.len() == 0 {
        return Err(PluckError::EmptyOpenCommand);
    }
    let program = settings.command[0].clone();
    let mut args: Vec<String> = Vec::new();
    let mut i: usize = 1;
    while i < settings.command.len()
        invariant
            1 <= i <= settings.command@.len(),
            views(args@) == views(settings.command@).subrange(1, i as int),
        decreases settings.command@.len() - i,
    {
        let ghost before = args@;
        args.push(settings.command[i].clone());
        assert(views(args@) =~= views(before).push(settings.command@[i as int]@));
        assert(views(settings.command@).subrange(1, i + 1) =~= views(settings.command@).subrange(1, i as int).push(settings.command@[i as int]@));
        i = i + 1;
    }
    assert(views(settings.command@).subrange(1, settings.command@.len() as int) =~= views(settings.command@).drop_first());
    let mut env: Vec<(String, String)> = Vec::new();
    env.push((String::from_str("HERDR_PLUCK_PANE_ID"), pane_id.to_owned()));
    env.push((String::from_str("HERDR_PLUCK_TAB_ID"), tab_id.to_owned()));
    assert(env_views(env@) =~= seq![("HERDR_PLUCK_PANE_ID"@, pane_id@), ("HERDR_PLUCK_TAB_ID"@, tab_id@)]);
    let cwd = match &settings.cwd {
        Some(d) => Some(d.clone()),
        None => None,
    };
    Ok(OpenCommand { program, args, env, stdin: text.to_owned(), cwd })
}

/// The error reported when the system opener could not open `text`.
pub fn open_failure(text: &str, error: UrlOpenError) -> (r: PluckError)
    ensures
        r matches PluckError::OpenFailed { text: t, cause } && t@ == text@ && cause@ == error.message@,
{
    PluckError::OpenFailed { text: text.to_owned(), cause: error.message }
}

/// A call made to an opener, with what it returned.
#[allow(inconsistent_fields)]
pub ghost enum OpenerCall {
    Open { url: Seq<char>, result: Result<OpenUrlSuccess, UrlOpenError> },
    Run { command: OpenCommand, result: Result<(), PluckError> },
}

/// An opener together with the calls made through it, oldest first.
pub struct RecordedOpener<O> {
    pub opener: O,
    pub calls: Ghost<Seq<OpenerCall>>,
}

impl<O: UrlOpener> RecordedOpener<O> {
    pub fn new(opener: O) -> (r: Self)
        ensures
            r.calls@ == Seq::<OpenerCall>::empty(),
            r.opener == opener,
    {
        RecordedOpener { opener, calls: Ghost(Seq::empty()) }
    }

    fn open(&mut self, url: &str) -> (r: Result<OpenUrlSuccess, UrlOpenError>)
        ensures
            final(self).calls@ == old(self).calls@.push(OpenerCall::Open { url: url@, result: r }),
    {
        let r = self.opener.open(url);
        proof {
            self.calls@ = self.calls@.push(OpenerCall::Open { url: url@, result: r });
        }
        r
    }

    fn run_open_command(&mut self, command: &OpenCommand) -> (r: Result<(), PluckError>)
        ensures
            final(self).calls@ == old(self).calls@.push(OpenerCall::Run { command: *command, result: r }),
    {
        let r = self.opener.run_open_command(command);
        proof {
            self.calls@ = self.calls@.push(OpenerCall::Run { command: *command, result: r });
        }
        r
    }
}

/// Opens a chosen match: with the system opener when no command is configured,
/// else by running the command for the source pane and tab.
///
/// With no command, the system opener gets the match, and its failure is reported
/// as a failure to open that match. Otherwise only the configured command runs,
/// on the match, for the snapshot's target pane and return tab, and its result is returned.
pub fn open_selection_with<O: UrlOpener>(url_opener: &mut RecordedOpener<O>, snapshot: &PickerSnapshot, text: &str) -> (r: Result<(), PluckError>)
    ensures
        final(url_opener).calls@.len() == old(url_opener).calls@.len() + 1,
        final(url_opener).calls@.drop_last() == old(url_opener).calls@,
        snapshot.open.command@.len() == 0 ==> {
            &&& final(url_opener).calls@.last() matches OpenerCall::Open { url, result }
            &&& url == text@
            &&& match result {
                Ok(_) => r is Ok,
                Err(e) => r matches Err(PluckError::OpenFailed { text: t, cause }) && t@ == text@ && cause@ == e.message@,
            }
        },
        snapshot.open.command@.len() > 0 ==> {
            &&& final(url_opener).calls@.last() matches OpenerCall::Run { command, result }
            &&& is_open_command(
                command,
                snapshot.open,
                text@,
                snapshot.source.target_pane_id.0@,
                snapshot.session.return_tab_id@,
            )
            &&& r == result
        },
{
    let ghost before = url_opener.calls@;
    if snapshot.open.command.len() == 0 {
        let opened = url_opener.open(text);
        assert(url_opener.calls@.drop_last() =~= before);
        return match opened {
            Ok(_) => Ok(()),
            Err(e) => Err(open_failure(text, e)),
        };
    }
    let command = match build_open_command(
        &snapshot.open,
        text,
        snapshot.source.target_pane_id.0.as_str(),
        snapshot.session.return_tab_id.as_str(),
    ) {
        Ok(c) => c,
        Err(e) => {
            proof {
                assert(false);
            }
            return Err(e);
        },
    };
    let r = url_opener.run_open_command(&command);
    assert(url_opener.calls@.drop_last() =~= before);
    r
}

} // verus!

verus! {

/// How a finished open command exited.
#[derive(Debug, Clone, PartialEq, Eq)]
pub struct ExitReport {
    pub success: bool,
    /// The exit status as the system describes it, such as `exit status: 3`.
    pub description: String,
}

/// What the wait for an open command does next.
#[derive(Debug, Clone, Copy, PartialEq, Eq, Structural)]
pub enum WaitAction {
    /// The command exited: report its status.
    Report,
    /// The command ran past its time: kill it and report nothing.
    KillSilently,
    /// Sleep a little and look again.
    PollAgain,
}

/// The next step of waiting for an open command that may have exited.
pub fn wait_decision(exited: bool, elapsed_ms: u64, timeout_ms: u64) -> (r: WaitAction)
    ensures
        exited ==> r == WaitAction::Report,
        !exited && elapsed_ms >= timeout_ms ==> r == WaitAction::KillSilently,
        !exited && elapsed_ms < timeout_ms ==> r == WaitAction::PollAgain,
{
    if exited {
        WaitAction::Report
    } else if elapsed_ms >= timeout_ms {
        WaitAction::KillSilently
    } else {
        WaitAction::PollAgain
    }
}

/// The message of a command that exited with failure.
pub open spec fn command_failed_message(program: Seq<char>, status: Seq<char>) -> Seq<char> {
    "open command "@ + debug_quoted(program) + " failed: "@ + status
}

/// The result of an open command: a command killed after its time counts as
/// done; one that exited with failure is an error naming the program and status.
pub fn open_command_outcome(program: &str, status: Option<ExitReport>) -> (r: Result<(), PluckError>)
    ensures
        match status {
            None => r is Ok,
            Some(s) => if s.success {
                r is Ok
            } else {
                r matches Err(PluckError::Other(m)) && m@ == command_failed_message(program@, s.description@)
            },
        },
{
    match status {
        None => Ok(()),
        Some(s) => {
            if s.success {
                Ok(())
            } else {
                let mut m = String::from_str("open command ");
                let quoted = debug_quote(program);
                m.append(quoted.as_str());
                m.append(" failed: ");
                m.append(s.description.as_str());
                Err(PluckError::Other(m))
            }
        },
    }
}

} // verus!
