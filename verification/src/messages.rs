//! The identifiers, messages and events of the terminal UI.
use vstd::prelude::*;
use vstd::view::View as _;
use crate::cscs::{Job, JobDetail, PathEntry, System};

verus! {

/// The components of the terminal UI.
#[derive(Debug, Clone, Copy, PartialEq, Eq, Structural, Hash)]
pub enum Id {
    StatusBar,
    Toolbar,
    WorkloadList,
    WorkloadLogs,
    WorkloadDetails,
    WorkloadResourceUsage,
    GlobalListener,
    Menu,
    InfoPopup,
    ErrorPopup,
    LoginPopup,
    DownloadPopup,
    SystemSelectPopup,
    FileView,
}

/// The main views of the terminal UI.
#[derive(Debug, Clone, Copy, PartialEq, Eq, Structural)]
pub enum View {
    Workloads,
    Files,
}

impl Default for View {
    fn default() -> (r: View)
        ensures
            r == View::Workloads,
    {
        View::Workloads
    }
}

impl View {
    /// The view's name, as the UI displays it.
    pub fn name(&self) -> (r: &'static str)
        ensures
            *self == View::Workloads ==> r@ == "Workloads"@,
            *self == View::Files ==> r@ == "Files"@,
    {
        match self {
            View::Workloads => "Workloads",
            View::Files => "Files",
        }
    }
}

/// A message for the status bar.
#[derive(Debug, Clone, PartialEq, Eq)]
pub enum StatusMsg {
    Progress(String, usize),
    Info(String),
    Warning(String),
}

/// A status bar event.
#[derive(Debug, Clone, PartialEq, Eq)]
pub enum StatusEvent {
    Progress(String, usize),
    Info(String),
    Warning(String),
}

/// An event about the selected job.
#[derive(Debug, Clone, Copy, PartialEq, Eq, Structural)]
pub enum JobEvent {
    Cancel,
}

/// An event from the CSCS side.
#[derive(Debug, Clone)]
pub enum CscsEvent {
    LoggedIn,
    GotWorkloadData(Vec<Job>),
    GotJobLog(String),
    GotJobDetails(JobDetail),
    SelectSystemList(Vec<System>),
    SystemSelected(String),
}

/// An event of the file browser; a listing carries the listed path and its
/// entries.
#[derive(Debug, Clone)]
pub enum FileEvent {
    List(String, Vec<PathEntry>),
    DownloadCurrentFile,
    DownloadSuccessful,
    DeleteCurrentFile,
    DeleteSuccessful(String),
}

/// An event that the application itself raises.
#[derive(Debug, Clone)]
pub enum UserEvent {
    Cscs(CscsEvent),
    File(FileEvent),
    Error(String),
    Info(String),
    Job(JobEvent),
    Status(StatusEvent),
    SwitchedToView(View),
}

impl UserEvent {
    pub open spec fn subscribes_spec(&self, other: &UserEvent) -> bool {
        (self is Cscs && other is Cscs) || (self is Error && other is Error) || (self is Info
            && other is Info)
    }

    /// Whether a subscription to `other` receives this event: CSCS, error
    /// and info events match any event of their kind, other events none.
    pub fn subscribes(&self, other: &UserEvent) -> (r: bool)
        ensures
            r == self.subscribes_spec(other),
    {
        match (self, other) {
            (UserEvent::Cscs(_), UserEvent::Cscs(_)) => true,
            (UserEvent::Error(_), UserEvent::Error(_)) => true,
            (UserEvent::Info(_), UserEvent::Info(_)) => true,
            _ => false,
        }
    }
}

/// A message of the context menu.
#[derive(Debug, Clone)]
pub enum MenuMsg {
    Opened,
    Closed,
    CscsLogin,
    CscsSwitchSystem,
    Event(UserEvent),
}

/// A message of the info popup.
#[derive(Debug, Clone, PartialEq, Eq)]
pub enum InfoPopupMsg {
    Opened(String),
    Closed,
}

/// A message of the error popup.
#[derive(Debug, Clone, PartialEq, Eq)]
pub enum ErrorPopupMsg {
    Opened(String),
    Closed,
}

/// A message of the login popup; a finished login carries the client id and
/// the client secret.
#[derive(Debug, Clone, PartialEq, Eq)]
pub enum LoginPopupMsg {
    Opened,
    Closed,
    LoginDone(String, String),
}

/// A message of the download popup; paths are remote and local paths.
#[derive(Debug, Clone, PartialEq, Eq)]
pub enum DownloadPopupMsg {
    Opened(String),
    PathSet(String, String),
    Closed,
}

/// A message of the system selection popup.
#[derive(Debug, Clone)]
pub enum SystemSelectMsg {
    Opened(Vec<System>),
    Closed,
    SystemSelected(String),
}

/// A request to the CSCS side.
#[derive(Debug, Clone, PartialEq, Eq)]
pub enum CscsMsg {
    Login(String, String),
    SelectSystem,
    SystemSelected(String),
}

/// A message about jobs.
#[derive(Debug, Clone)]
pub enum JobMsg {
    Log(usize),
    Details(JobDetail),
    GetDetails(usize),
    Switch,
    Close,
}

/// A message to the application model.
#[derive(Debug, Clone)]
pub enum Msg {
    AppClose,
    Menu(MenuMsg),
    InfoPopup(InfoPopupMsg),
    ErrorPopup(ErrorPopupMsg),
    LoginPopup(LoginPopupMsg),
    DownloadPopup(DownloadPopupMsg),
    SystemSelectPopup(SystemSelectMsg),
    Error(String),
    Info(String),
    Cscs(CscsMsg),
    Job(JobMsg),
    Status(StatusMsg),
    ChangeView(View),
    CreateEvent(UserEvent),
    Nothing,
}

} // verus!
