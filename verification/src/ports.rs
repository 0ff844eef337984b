//! The decisions of the background pollers of the terminal UI: which job's
//! log is watched, how a device login goes on, and the tasks handed to the
//! background worker.
use vstd::prelude::*;

verus! {

/// What the log watcher is told to do.
#[derive(Debug, Clone, Copy, PartialEq, Eq, Structural)]
pub enum JobLogAction {
    /// Watch the log of this job, starting with its standard output.
    Job(usize),
    /// Switch between standard output and standard error.
    SwitchLog,
    /// Stop watching.
    Stop,
}

/// The state of the log watcher: the job whose log is fetched on each poll,
/// and whether its standard error (rather than its output) is shown.
#[derive(Debug, Clone, Copy, PartialEq, Eq, Structural)]
pub struct JobLogWatch {
    pub current_job: Option<usize>,
    pub stderr: bool,
}

impl JobLogWatch {
    /// A watcher that watches nothing yet.
    pub fn new() -> (r: JobLogWatch)
        ensures
            r.current_job is None,
            !r.stderr,
    {
        JobLogWatch { current_job: None, stderr: false }
    }

    pub open spec fn applied(self, action: JobLogAction) -> JobLogWatch {
        match action {
            JobLogAction::Job(id) => JobLogWatch { current_job: Some(id), stderr: false },
            JobLogAction::SwitchLog => JobLogWatch { current_job: self.current_job, stderr: !self.stderr },
            JobLogAction::Stop => JobLogWatch { current_job: None, stderr: self.stderr },
        }
    }

    /// Takes in an action received by the watcher.
    pub fn apply(&mut self, action: JobLogAction)
        ensures
            *final(self) == old(self).applied(action),
    {
        match action {
            JobLogAction::Job(id) => {
                self.current_job = Some(id);
                self.stderr = false;
            },
            JobLogAction::SwitchLog => {
                self.stderr = !self.stderr;
            },
            JobLogAction::Stop => {
                self.current_job = None;
            },
        }
    }

    pub open spec fn after_error(self) -> JobLogWatch {
        if self.stderr {
            JobLogWatch { current_job: self.current_job, stderr: false }
        } else {
            JobLogWatch { current_job: None, stderr: false }
        }
    }

    /// Fetching the log failed: a missing standard error falls back to the
    /// standard output, which always exists; when the output cannot be had
    /// either, the watching stops so that errors do not pile up.
    pub fn log_failed(&mut self)
        ensures
            *final(self) == old(self).after_error(),
    {
        if self.stderr {
            self.stderr = false;
        } else {
            self.current_job = None;
        }
    }

    /// Which log a poll fetches: the job and whether it is the standard
    /// error; none when nothing is watched.
    pub fn log_to_fetch(&self) -> (r: Option<(usize, bool)>)
        ensures
            match self.current_job {
                Some(id) => r == Some((id, self.stderr)),
                None => r is None,
            },
    {
        match self.current_job {
            Some(id) => Some((id, self.stderr)),
            None => None,
        }
    }
}

/// Watching a job shows its standard output first, whatever was shown before.
pub proof fn law_watch_starts_with_output(w: JobLogWatch, id: usize)
    ensures
        w.applied(JobLogAction::Job(id)).current_job == Some(id),
        !w.applied(JobLogAction::Job(id)).stderr,
{
}

/// Switching the log twice comes back to the log shown before.
pub proof fn law_switch_twice_restores(w: JobLogWatch)
    ensures
        w.applied(JobLogAction::SwitchLog).applied(JobLogAction::SwitchLog) == w,
{
}

/// Two failed fetches in a row stop the watching, from any state.
pub proof fn law_two_failures_stop(w: JobLogWatch)
    ensures
        w.after_error().after_error().current_job is None,
{
}

/// A failure never moves the watcher to another job.
pub proof fn law_failure_keeps_job(w: JobLogWatch)
    ensures
        w.after_error().current_job is Some ==> w.after_error().current_job == w.current_job,
{
}

/// A task for the background worker of the terminal UI. Paths are remote
/// (and, for downloads, local) paths as text.
#[derive(Debug, Clone, PartialEq, Eq)]
pub enum BackgroundTask {
    ListPaths(String),
    DownloadFile(String, String),
    GetJobDetails(usize),
    CancelJob(usize),
}

/// The poller that fetches the job list; it has no state.
#[derive(Debug, Clone, Copy)]
pub struct AsyncFetchWorkloadsPort {}

impl AsyncFetchWorkloadsPort {
    pub fn new() -> (r: AsyncFetchWorkloadsPort) {
        AsyncFetchWorkloadsPort {  }
    }
}

/// The share of a download that is done, in percent (rounded down).
pub fn download_progress(done: usize, total: usize) -> (r: usize)
    requires
        total > 0,
        100 * done <= usize::MAX,
    ensures
        r == (100 * done) / (total as int),
{
    (100 * done) / total
}

/// The device login of the terminal UI: first the flow is started and the
/// user is sent to the verification page, then it is finished with the
/// tokens. `waiting` says that a started login is to be finished.
#[derive(Debug, Clone, Copy, PartialEq, Eq, Structural)]
pub struct DeviceFlow {
    pub waiting: bool,
}

/// What a poll of the device login does.
#[derive(Debug, Clone, Copy, PartialEq, Eq, Structural)]
pub enum FlowStep {
    /// Finish the started login and store its tokens.
    Finish,
    /// Wait for a login to be started.
    AwaitStart,
}

/// How finishing a login went.
#[derive(Debug, Clone, Copy, PartialEq, Eq, Structural)]
pub enum FlowOutcome {
    /// The tokens were had and stored.
    Stored,
    /// The access token could not be stored.
    AccessNotStored,
    /// The access token was stored, the refresh token could not be.
    RefreshNotStored,
    /// No token could be had.
    LoginFailed,
}

/// What the UI is told after finishing a login.
#[derive(Debug, Clone, Copy, PartialEq, Eq)]
pub enum FlowReply {
    LoggedIn,
    /// An error, with what could not be done.
    Error(&'static str),
}

impl DeviceFlow {
    pub fn new() -> (r: DeviceFlow)
        ensures
            !r.waiting,
    {
        DeviceFlow { waiting: false }
    }

    pub fn next_step(&self) -> (r: FlowStep)
        ensures
            self.waiting ==> r == FlowStep::Finish,
            !self.waiting ==> r == FlowStep::AwaitStart,
    {
        if self.waiting {
            FlowStep::Finish
        } else {
            FlowStep::AwaitStart
        }
    }

    /// A login was started: it is to be finished next, and the user is told
    /// where to authorize it.
    pub fn started(&mut self, url: &str) -> (r: String)
        ensures
            final(self).waiting,
            r@ == "Please visit "@ + url@ + " and authorize this application."@,
    {
        self.waiting = true;
        let mut r = String::from_str("Please visit ");
        r.append(url);
        r.append(" and authorize this application.");
        r
    }

    /// A login was finished. Once the tokens are stored, or no token could
    /// be had, the flow is over; where storing a token failed, the login is
    /// finished again on the next poll.
    pub fn finished(&mut self, outcome: FlowOutcome) -> (r: FlowReply)
        ensures
            final(self).waiting == (old(self).waiting && (outcome == FlowOutcome::AccessNotStored
                || outcome == FlowOutcome::RefreshNotStored)),
            match outcome {
                FlowOutcome::Stored => r is LoggedIn,
                FlowOutcome::AccessNotStored => r matches FlowReply::Error(m) && m@
                    == "couldn't save access token"@,
                FlowOutcome::RefreshNotStored => r matches FlowReply::Error(m) && m@
                    == "couldn't save refresh token"@,
                FlowOutcome::LoginFailed => r matches FlowReply::Error(m) && m@
                    == "couldn't get access token"@,
            },
    {
        match outcome {
            FlowOutcome::Stored => {
                self.waiting = false;
                FlowReply::LoggedIn
            },
            FlowOutcome::AccessNotStored => FlowReply::Error("couldn't save access token"),
            FlowOutcome::RefreshNotStored => FlowReply::Error("couldn't save refresh token"),
            FlowOutcome::LoginFailed => {
                self.waiting = false;
                FlowReply::Error("couldn't get access token")
            },
        }
    }
}

} // verus!
