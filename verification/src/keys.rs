//! What the terminal UI's components do with a key press or an event: move
//! or edit their widget, answer with a message, or ignore it.
use vstd::prelude::*;
use vstd::view::View as _;
use crate::cscs::System;
use crate::messages::{
    CscsEvent, ErrorPopupMsg, FileEvent, InfoPopupMsg, JobMsg, LoginPopupMsg, MenuMsg, Msg,
    DownloadPopupMsg, StatusMsg, SystemSelectMsg, UserEvent, View, Id,
};

verus! {

/// A key of the keyboard.
#[derive(Debug, Clone, Copy, PartialEq, Eq, Structural)]
pub enum KeyCode {
    Char(char),
    Enter,
    Esc,
    Tab,
    Backspace,
    Delete,
    Up,
    Down,
    Left,
    Right,
    PageUp,
    PageDown,
    Home,
    End,
    Other,
}

/// The modifier keys held with a key.
#[derive(Debug, Clone, Copy, PartialEq, Eq, Structural)]
pub struct Modifiers {
    pub shift: bool,
    pub control: bool,
    pub alt: bool,
}

/// A key press.
#[derive(Debug, Clone, Copy, PartialEq, Eq, Structural)]
pub struct KeyPress {
    pub key: KeyCode,
    pub modifiers: Modifiers,
}

impl KeyPress {
    /// No modifier is held.
    pub open spec fn plain(self) -> bool {
        !self.modifiers.shift && !self.modifiers.control && !self.modifiers.alt
    }

    /// Control alone is held.
    pub open spec fn control_only(self) -> bool {
        !self.modifiers.shift && self.modifiers.control && !self.modifiers.alt
    }
}

/// A direction in a widget.
#[derive(Debug, Clone, Copy, PartialEq, Eq, Structural)]
pub enum Direction {
    Up,
    Down,
    Left,
    Right,
}

/// A command passed to a widget.
#[derive(Debug, Clone, Copy, PartialEq, Eq, Structural)]
pub enum WidgetCmd {
    Move(Direction),
    Scroll(Direction),
    GoToBegin,
    GoToEnd,
    /// Deletes the character under the cursor.
    Cancel,
    /// Deletes the character before the cursor.
    Delete,
    Type(char),
    Toggle,
    /// Moves to the next input field.
    NextField,
}

/// How a component answers a key.
#[derive(Debug)]
pub enum Reply {
    /// Passes the command to its widget and answers with no message.
    Perform(WidgetCmd),
    /// Answers with the message.
    Answer(Msg),
    /// Answers with what the widget's current selection stands for.
    Selection,
    /// Answers with no message and does nothing.
    Idle,
    /// Does not answer.
    Silent,
}

/// The moves of a list: arrows and page keys step, Home and End jump.
pub open spec fn list_move(k: KeyPress) -> Option<WidgetCmd> {
    match k.key {
        KeyCode::Down | KeyCode::PageDown => Some(WidgetCmd::Move(Direction::Down)),
        KeyCode::Up | KeyCode::PageUp => Some(WidgetCmd::Move(Direction::Up)),
        KeyCode::Home => Some(WidgetCmd::GoToBegin),
        KeyCode::End => Some(WidgetCmd::GoToEnd),
        _ => None,
    }
}

/// How a list menu (the context menu, the workload menu, the system
/// selection) answers a key: the moves of a list, Esc or `x` close it with
/// `close`, Enter picks the selection.
pub open spec fn menu_reply(k: KeyPress, close: Msg) -> Reply {
    match list_move(k) {
        Some(c) => Reply::Perform(c),
        None => match k.key {
            KeyCode::Esc => Reply::Answer(close),
            KeyCode::Char(c) => if c == 'x' {
                Reply::Answer(close)
            } else {
                Reply::Idle
            },
            KeyCode::Enter => Reply::Selection,
            _ => Reply::Idle,
        },
    }
}

pub fn menu_key(k: KeyPress, close: Msg) -> (r: Reply)
    ensures
        r == menu_reply(k, close),
{
    match k.key {
        KeyCode::Down | KeyCode::PageDown => Reply::Perform(WidgetCmd::Move(Direction::Down)),
        KeyCode::Up | KeyCode::PageUp => Reply::Perform(WidgetCmd::Move(Direction::Up)),
        KeyCode::Home => Reply::Perform(WidgetCmd::GoToBegin),
        KeyCode::End => Reply::Perform(WidgetCmd::GoToEnd),
        KeyCode::Esc => Reply::Answer(close),
        KeyCode::Char(c) => if c == 'x' {
            Reply::Answer(close)
        } else {
            Reply::Idle
        },
        KeyCode::Enter => Reply::Selection,
        _ => Reply::Idle,
    }
}

/// The workload menu's one entry logs in; any other selection closes it.
pub fn workload_menu_choice(index: Option<usize>) -> (r: Msg)
    ensures
        index == Some(0usize) ==> r == Msg::Menu(MenuMsg::CscsLogin),
        index != Some(0usize) ==> r == Msg::Menu(MenuMsg::Closed),
{
    match index {
        Some(0) => Msg::Menu(MenuMsg::CscsLogin),
        _ => Msg::Menu(MenuMsg::Closed),
    }
}

/// What an entry of the context menu does.
#[derive(Debug, Clone, Copy, PartialEq, Eq, Structural)]
pub enum MenuChoice {
    CancelJob,
    FilterByStatus,
    Login,
    SwitchSystem,
    Download,
    Delete,
    Quit,
    Close,
}

/// The context menu's entries in each view, by what they show.
pub open spec fn menu_entries(view: View) -> Seq<Seq<char>> {
    match view {
        View::Workloads => seq![
            "Cancel Job"@,
            "Filter by Status"@,
            "Login to CSCS"@,
            "Switch System"@,
            "Quit"@,
        ],
        View::Files => seq!["Login to CSCS"@, "Switch System"@, "Download"@, "Delete"@, "Quit"@],
    }
}

pub fn context_menu_entries(view: View) -> (r: Vec<&'static str>)
    ensures
        r@.map_values(|s: &str| s@) == menu_entries(view),
{
    let r = match view {
        View::Workloads => vec!["Cancel Job", "Filter by Status", "Login to CSCS", "Switch System", "Quit"],
        View::Files => vec!["Login to CSCS", "Switch System", "Download", "Delete", "Quit"],
    };
    proof {
        reveal_strlit("Cancel Job");
        reveal_strlit("Filter by Status");
        reveal_strlit("Login to CSCS");
        reveal_strlit("Switch System");
        reveal_strlit("Quit");
        reveal_strlit("Download");
        reveal_strlit("Delete");
        assert(r@.map_values(|s: &str| s@) =~= menu_entries(view));
    }
    r
}

/// What the selected entry of the context menu does. In the workloads
/// view the choices follow the entries' positions as the menu wires them:
/// the third entry switches the system and the fourth quits.
pub open spec fn menu_choice(view: View, index: Option<usize>) -> MenuChoice {
    match index {
        None => MenuChoice::Close,
        Some(i) => match view {
            View::Workloads => if i == 0 {
                MenuChoice::CancelJob
            } else if i == 1 {
                MenuChoice::FilterByStatus
            } else if i == 2 {
                MenuChoice::SwitchSystem
            } else if i == 3 {
                MenuChoice::Quit
            } else {
                MenuChoice::Close
            },
            View::Files => if i == 0 {
                MenuChoice::Login
            } else if i == 1 {
                MenuChoice::SwitchSystem
            } else if i == 2 {
                MenuChoice::Download
            } else if i == 3 {
                MenuChoice::Delete
            } else if i == 4 {
                MenuChoice::Quit
            } else {
                MenuChoice::Close
            },
        },
    }
}

pub fn context_menu_choice(view: View, index: Option<usize>) -> (r: MenuChoice)
    ensures
        r == menu_choice(view, index),
{
    match index {
        None => MenuChoice::Close,
        Some(i) => match view {
            View::Workloads => if i == 0 {
                MenuChoice::CancelJob
            } else if i == 1 {
                MenuChoice::FilterByStatus
            } else if i == 2 {
                MenuChoice::SwitchSystem
            } else if i == 3 {
                MenuChoice::Quit
            } else {
                MenuChoice::Close
            },
            View::Files => if i == 0 {
                MenuChoice::Login
            } else if i == 1 {
                MenuChoice::SwitchSystem
            } else if i == 2 {
                MenuChoice::Download
            } else if i == 3 {
                MenuChoice::Delete
            } else if i == 4 {
                MenuChoice::Quit
            } else {
                MenuChoice::Close
            },
        },
    }
}

impl MenuChoice {
    /// The message the choice is answered with; filtering by status has
    /// no message among the UI's messages.
    pub fn message(self) -> (r: Option<Msg>)
        ensures
            self == MenuChoice::CancelJob ==> r == Some(
                Msg::Menu(MenuMsg::Event(UserEvent::Job(crate::messages::JobEvent::Cancel))),
            ),
            self == MenuChoice::FilterByStatus ==> r is None,
            self == MenuChoice::Login ==> r == Some(Msg::Menu(MenuMsg::CscsLogin)),
            self == MenuChoice::SwitchSystem ==> r == Some(Msg::Menu(MenuMsg::CscsSwitchSystem)),
            self == MenuChoice::Download ==> r == Some(
                Msg::Menu(MenuMsg::Event(UserEvent::File(FileEvent::DownloadCurrentFile))),
            ),
            self == MenuChoice::Delete ==> r == Some(
                Msg::Menu(MenuMsg::Event(UserEvent::File(FileEvent::DeleteCurrentFile))),
            ),
            self == MenuChoice::Quit ==> r == Some(Msg::AppClose),
            self == MenuChoice::Close ==> r == Some(Msg::Menu(MenuMsg::Closed)),
    {
        match self {
            MenuChoice::CancelJob => Some(
                Msg::Menu(MenuMsg::Event(UserEvent::Job(crate::messages::JobEvent::Cancel))),
            ),
            MenuChoice::FilterByStatus => None,
            MenuChoice::Login => Some(Msg::Menu(MenuMsg::CscsLogin)),
            MenuChoice::SwitchSystem => Some(Msg::Menu(MenuMsg::CscsSwitchSystem)),
            MenuChoice::Download => Some(
                Msg::Menu(MenuMsg::Event(UserEvent::File(FileEvent::DownloadCurrentFile))),
            ),
            MenuChoice::Delete => Some(
                Msg::Menu(MenuMsg::Event(UserEvent::File(FileEvent::DeleteCurrentFile))),
            ),
            MenuChoice::Quit => Some(Msg::AppClose),
            MenuChoice::Close => Some(Msg::Menu(MenuMsg::Closed)),
        }
    }
}

/// The system picked in the system selection, or closing it where nothing
/// is selected.
pub fn system_choice(systems: &Vec<System>, index: Option<usize>) -> (r: Msg)
    requires
        index matches Some(i) ==> i < systems.len(),
    ensures
        match index {
            Some(i) => r == Msg::SystemSelectPopup(SystemSelectMsg::SystemSelected(systems@[i as int].name)),
            None => r == Msg::SystemSelectPopup(SystemSelectMsg::Closed),
        },
{
    match index {
        Some(i) => Msg::SystemSelectPopup(SystemSelectMsg::SystemSelected(systems[i].name.clone())),
        None => Msg::SystemSelectPopup(SystemSelectMsg::Closed),
    }
}

/// The error and info popups close on Esc or Enter and ignore the rest.
pub open spec fn popup_reply(k: KeyPress, close: Msg) -> Reply {
    match k.key {
        KeyCode::Esc | KeyCode::Enter => Reply::Answer(close),
        _ => Reply::Silent,
    }
}

pub fn error_popup_key(k: KeyPress) -> (r: Reply)
    ensures
        r == popup_reply(k, Msg::ErrorPopup(ErrorPopupMsg::Closed)),
{
    match k.key {
        KeyCode::Esc | KeyCode::Enter => Reply::Answer(Msg::ErrorPopup(ErrorPopupMsg::Closed)),
        _ => Reply::Silent,
    }
}

pub fn info_popup_key(k: KeyPress) -> (r: Reply)
    ensures
        r == popup_reply(k, Msg::InfoPopup(InfoPopupMsg::Closed)),
{
    match k.key {
        KeyCode::Esc | KeyCode::Enter => Reply::Answer(Msg::InfoPopup(InfoPopupMsg::Closed)),
        _ => Reply::Silent,
    }
}

/// The editing keys of a text input: the cursor moves and jumps, Delete
/// and Backspace remove a character.
pub open spec fn input_edit(k: KeyPress) -> Option<WidgetCmd> {
    match k.key {
        KeyCode::Left => Some(WidgetCmd::Move(Direction::Left)),
        KeyCode::Right => Some(WidgetCmd::Move(Direction::Right)),
        KeyCode::Home => Some(WidgetCmd::GoToBegin),
        KeyCode::End => Some(WidgetCmd::GoToEnd),
        KeyCode::Delete => Some(WidgetCmd::Cancel),
        KeyCode::Backspace => Some(WidgetCmd::Delete),
        _ => None,
    }
}

/// How the download target input answers a key: characters typed without
/// modifiers are typed in, Enter without modifiers confirms the target,
/// Esc closes it.
pub open spec fn download_reply(k: KeyPress) -> Reply {
    match input_edit(k) {
        Some(c) => Reply::Perform(c),
        None => match k.key {
            KeyCode::Char(ch) => if k.plain() {
                Reply::Perform(WidgetCmd::Type(ch))
            } else {
                Reply::Idle
            },
            KeyCode::Enter => if k.plain() {
                Reply::Selection
            } else {
                Reply::Idle
            },
            KeyCode::Esc => Reply::Answer(Msg::DownloadPopup(DownloadPopupMsg::Closed)),
            _ => Reply::Idle,
        },
    }
}

pub fn download_popup_key(k: KeyPress) -> (r: Reply)
    ensures
        r == download_reply(k),
{
    let plain = !k.modifiers.shift && !k.modifiers.control && !k.modifiers.alt;
    match k.key {
        KeyCode::Left => Reply::Perform(WidgetCmd::Move(Direction::Left)),
        KeyCode::Right => Reply::Perform(WidgetCmd::Move(Direction::Right)),
        KeyCode::Home => Reply::Perform(WidgetCmd::GoToBegin),
        KeyCode::End => Reply::Perform(WidgetCmd::GoToEnd),
        KeyCode::Delete => Reply::Perform(WidgetCmd::Cancel),
        KeyCode::Backspace => Reply::Perform(WidgetCmd::Delete),
        KeyCode::Char(ch) => if plain {
            Reply::Perform(WidgetCmd::Type(ch))
        } else {
            Reply::Idle
        },
        KeyCode::Enter => if plain {
            Reply::Selection
        } else {
            Reply::Idle
        },
        KeyCode::Esc => Reply::Answer(Msg::DownloadPopup(DownloadPopupMsg::Closed)),
        _ => Reply::Idle,
    }
}

/// How the login popup answers a key: characters are typed in whatever the
/// modifiers, Tab moves to the other field, Enter sends both fields, Esc
/// closes it.
pub open spec fn login_reply(k: KeyPress) -> Reply {
    match input_edit(k) {
        Some(c) => Reply::Perform(c),
        None => match k.key {
            KeyCode::Char(ch) => Reply::Perform(WidgetCmd::Type(ch)),
            KeyCode::Tab => Reply::Perform(WidgetCmd::NextField),
            KeyCode::Enter => Reply::Selection,
            KeyCode::Esc => Reply::Answer(Msg::LoginPopup(LoginPopupMsg::Closed)),
            _ => Reply::Idle,
        },
    }
}

pub fn login_popup_key(k: KeyPress) -> (r: Reply)
    ensures
        r == login_reply(k),
{
    match k.key {
        KeyCode::Left => Reply::Perform(WidgetCmd::Move(Direction::Left)),
        KeyCode::Right => Reply::Perform(WidgetCmd::Move(Direction::Right)),
        KeyCode::Home => Reply::Perform(WidgetCmd::GoToBegin),
        KeyCode::End => Reply::Perform(WidgetCmd::GoToEnd),
        KeyCode::Delete => Reply::Perform(WidgetCmd::Cancel),
        KeyCode::Backspace => Reply::Perform(WidgetCmd::Delete),
        KeyCode::Char(ch) => Reply::Perform(WidgetCmd::Type(ch)),
        KeyCode::Tab => Reply::Perform(WidgetCmd::NextField),
        KeyCode::Enter => Reply::Selection,
        KeyCode::Esc => Reply::Answer(Msg::LoginPopup(LoginPopupMsg::Closed)),
        _ => Reply::Idle,
    }
}

/// What the login popup sends once both fields are filled in.
pub fn login_done(client_id: String, client_secret: String) -> (r: Msg)
    ensures
        r == Msg::LoginPopup(LoginPopupMsg::LoginDone(client_id, client_secret)),
{
    Msg::LoginPopup(LoginPopupMsg::LoginDone(client_id, client_secret))
}

/// The global keys: `q` or control-`c` quit, `x` opens the menu, `f` and
/// `w` switch to the files and the workloads view. Gives the message and
/// the view shown afterwards.
pub open spec fn global_reply(k: KeyPress, view: View) -> (Option<Msg>, View) {
    match k.key {
        KeyCode::Char(c) => if c == 'q' || (c == 'c' && k.control_only()) {
            (Some(Msg::AppClose), view)
        } else if c == 'x' {
            (Some(Msg::Menu(MenuMsg::Opened)), view)
        } else if c == 'f' {
            (Some(Msg::ChangeView(View::Files)), View::Files)
        } else if c == 'w' {
            (Some(Msg::ChangeView(View::Workloads)), View::Workloads)
        } else {
            (None, view)
        },
        _ => (None, view),
    }
}

pub fn global_key(k: KeyPress, view: View) -> (r: (Option<Msg>, View))
    ensures
        r == global_reply(k, view),
{
    match k.key {
        KeyCode::Char(c) => {
            let control_only = !k.modifiers.shift && k.modifiers.control && !k.modifiers.alt;
            if c == 'q' || (c == 'c' && control_only) {
                (Some(Msg::AppClose), view)
            } else if c == 'x' {
                (Some(Msg::Menu(MenuMsg::Opened)), view)
            } else if c == 'f' {
                (Some(Msg::ChangeView(View::Files)), View::Files)
            } else if c == 'w' {
                (Some(Msg::ChangeView(View::Workloads)), View::Workloads)
            } else {
                (None, view)
            }
        },
        _ => (None, view),
    }
}

/// The events that the global listener turns into messages: errors and
/// notices, a login, the systems to choose from, a job's details and a
/// finished download.
pub fn global_event(ev: UserEvent) -> (r: Option<Msg>)
    ensures
        match ev {
            UserEvent::Error(m) => r == Some(Msg::Error(m)),
            UserEvent::Info(m) => r == Some(Msg::Info(m)),
            UserEvent::Cscs(CscsEvent::LoggedIn) => r matches Some(Msg::Status(StatusMsg::Info(t)))
                && t@ == "Successfully logged in"@,
            UserEvent::Cscs(CscsEvent::SelectSystemList(systems)) => r == Some(
                Msg::SystemSelectPopup(SystemSelectMsg::Opened(systems)),
            ),
            UserEvent::Cscs(CscsEvent::GotJobDetails(d)) => r == Some(Msg::Job(JobMsg::Details(d))),
            UserEvent::File(FileEvent::DownloadSuccessful) => r matches Some(
                Msg::Status(StatusMsg::Info(t)),
            ) && t@ == "File successfully downloaded"@,
            _ => r is None,
        },
{
    match ev {
        UserEvent::Error(m) => Some(Msg::Error(m)),
        UserEvent::Info(m) => Some(Msg::Info(m)),
        UserEvent::Cscs(CscsEvent::LoggedIn) => Some(
            Msg::Status(StatusMsg::Info(String::from_str("Successfully logged in"))),
        ),
        UserEvent::Cscs(CscsEvent::SelectSystemList(systems)) => Some(
            Msg::SystemSelectPopup(SystemSelectMsg::Opened(systems)),
        ),
        UserEvent::Cscs(CscsEvent::GotJobDetails(d)) => Some(Msg::Job(JobMsg::Details(d))),
        UserEvent::File(FileEvent::DownloadSuccessful) => Some(
            Msg::Status(StatusMsg::Info(String::from_str("File successfully downloaded"))),
        ),
        _ => None,
    }
}

/// How the log view answers a key: the moves of a text view, Tab switches
/// between standard output and standard error (and says which in the
/// title), Esc closes it.
#[derive(Debug)]
pub enum LogReply {
    Perform(WidgetCmd),
    /// Shows the other stream: whether it is standard error, and the title.
    Switch(bool, &'static str),
    Close,
    Idle,
}

pub fn log_key(k: KeyPress, stderr: bool) -> (r: LogReply)
    ensures
        match k.key {
            KeyCode::Down => r == LogReply::Perform(WidgetCmd::Move(Direction::Down)),
            KeyCode::Up => r == LogReply::Perform(WidgetCmd::Move(Direction::Up)),
            KeyCode::PageDown => r == LogReply::Perform(WidgetCmd::Scroll(Direction::Down)),
            KeyCode::PageUp => r == LogReply::Perform(WidgetCmd::Scroll(Direction::Up)),
            KeyCode::Home => r == LogReply::Perform(WidgetCmd::GoToBegin),
            KeyCode::End => r == LogReply::Perform(WidgetCmd::GoToEnd),
            KeyCode::Tab => r matches LogReply::Switch(e, title) && e == !stderr && title@ == (if e {
                "Workload Log (stderr)"@
            } else {
                "Workload Log (stdout)"@
            }),
            KeyCode::Esc => r == LogReply::Close,
            _ => r == LogReply::Idle,
        },
{
    match k.key {
        KeyCode::Down => LogReply::Perform(WidgetCmd::Move(Direction::Down)),
        KeyCode::Up => LogReply::Perform(WidgetCmd::Move(Direction::Up)),
        KeyCode::PageDown => LogReply::Perform(WidgetCmd::Scroll(Direction::Down)),
        KeyCode::PageUp => LogReply::Perform(WidgetCmd::Scroll(Direction::Up)),
        KeyCode::Home => LogReply::Perform(WidgetCmd::GoToBegin),
        KeyCode::End => LogReply::Perform(WidgetCmd::GoToEnd),
        KeyCode::Tab => {
            let e = !stderr;
            if e {
                LogReply::Switch(e, "Workload Log (stderr)")
            } else {
                LogReply::Switch(e, "Workload Log (stdout)")
            }
        },
        KeyCode::Esc => LogReply::Close,
        _ => LogReply::Idle,
    }
}

impl LogReply {
    /// The message the log view answers with.
    pub fn message(&self) -> (r: Msg)
        ensures
            *self matches LogReply::Switch(..) ==> r == Msg::Job(JobMsg::Switch),
            *self matches LogReply::Close ==> r == Msg::Job(JobMsg::Close),
            (*self matches LogReply::Perform(_)) || (*self matches LogReply::Idle) ==> r == Msg::Nothing,
    {
        match self {
            LogReply::Switch(..) => Msg::Job(JobMsg::Switch),
            LogReply::Close => Msg::Job(JobMsg::Close),
            _ => Msg::Nothing,
        }
    }
}

/// What a key asks of the workload list.
#[derive(Debug, Clone, Copy, PartialEq, Eq, Structural)]
pub enum ListKey {
    Perform(WidgetCmd),
    /// Enter: the selected job's details.
    Details,
    /// `l` without modifiers: the selected job's log.
    Log,
    /// `r` without modifiers: the selected job's resource usage.
    ResourceUsage,
    Idle,
}

pub fn workload_list_key(k: KeyPress) -> (r: ListKey)
    ensures
        match k.key {
            KeyCode::Down => r == ListKey::Perform(WidgetCmd::Move(Direction::Down)),
            KeyCode::Up => r == ListKey::Perform(WidgetCmd::Move(Direction::Up)),
            KeyCode::PageDown => r == ListKey::Perform(WidgetCmd::Scroll(Direction::Down)),
            KeyCode::PageUp => r == ListKey::Perform(WidgetCmd::Scroll(Direction::Up)),
            KeyCode::Home => r == ListKey::Perform(WidgetCmd::GoToBegin),
            KeyCode::End => r == ListKey::Perform(WidgetCmd::GoToEnd),
            KeyCode::Enter => r == ListKey::Details,
            KeyCode::Char(c) => r == (if c == 'l' && k.plain() {
                ListKey::Log
            } else if c == 'r' && k.plain() {
                ListKey::ResourceUsage
            } else {
                ListKey::Idle
            }),
            _ => r == ListKey::Idle,
        },
{
    let plain = !k.modifiers.shift && !k.modifiers.control && !k.modifiers.alt;
    match k.key {
        KeyCode::Down => ListKey::Perform(WidgetCmd::Move(Direction::Down)),
        KeyCode::Up => ListKey::Perform(WidgetCmd::Move(Direction::Up)),
        KeyCode::PageDown => ListKey::Perform(WidgetCmd::Scroll(Direction::Down)),
        KeyCode::PageUp => ListKey::Perform(WidgetCmd::Scroll(Direction::Up)),
        KeyCode::Home => ListKey::Perform(WidgetCmd::GoToBegin),
        KeyCode::End => ListKey::Perform(WidgetCmd::GoToEnd),
        KeyCode::Enter => ListKey::Details,
        KeyCode::Char(c) => if c == 'l' && plain {
            ListKey::Log
        } else if c == 'r' && plain {
            ListKey::ResourceUsage
        } else {
            ListKey::Idle
        },
        _ => ListKey::Idle,
    }
}

/// What a key asks of the status filter popup.
#[derive(Debug, Clone, Copy, PartialEq, Eq, Structural)]
pub enum FilterKey {
    Perform(WidgetCmd),
    /// Space: toggle the checkbox under the cursor.
    Toggle,
    /// Esc: close without filtering.
    Close,
    /// Enter: filter by the checked statuses.
    Confirm,
    Idle,
}

pub fn filter_popup_key(k: KeyPress) -> (r: FilterKey)
    ensures
        match k.key {
            KeyCode::Right => r == FilterKey::Perform(WidgetCmd::Move(Direction::Right)),
            KeyCode::Left => r == FilterKey::Perform(WidgetCmd::Move(Direction::Left)),
            KeyCode::Char(c) => r == (if c == ' ' {
                FilterKey::Toggle
            } else {
                FilterKey::Idle
            }),
            KeyCode::Esc => r == FilterKey::Close,
            KeyCode::Enter => r == FilterKey::Confirm,
            _ => r == FilterKey::Idle,
        },
{
    match k.key {
        KeyCode::Right => FilterKey::Perform(WidgetCmd::Move(Direction::Right)),
        KeyCode::Left => FilterKey::Perform(WidgetCmd::Move(Direction::Left)),
        KeyCode::Char(c) => if c == ' ' {
            FilterKey::Toggle
        } else {
            FilterKey::Idle
        },
        KeyCode::Esc => FilterKey::Close,
        KeyCode::Enter => FilterKey::Confirm,
        _ => FilterKey::Idle,
    }
}

/// A popup that keeps the global shortcuts from the views while it is
/// open: the menu, or the error, login, download or system selection popup.
pub open spec fn blocks_shortcuts(id: Id) -> bool {
    id == Id::Menu || id == Id::ErrorPopup || id == Id::LoginPopup || id == Id::DownloadPopup || id
        == Id::SystemSelectPopup
}

/// Whether the global listener is subscribed to a key press while the
/// given components are mounted: `q` unless the login popup is open,
/// Ctrl-C always, and `x`, `f` and `w` while no popup that blocks the
/// shortcuts is open (each without other modifiers).
pub open spec fn global_listener_takes(k: KeyPress, mounted: Seq<Id>) -> bool {
    ||| k.key == KeyCode::Char('q') && k.plain() && !(exists|i: int|
        0 <= i < mounted.len() && #[trigger] mounted[i] == Id::LoginPopup)
    ||| k.key == KeyCode::Char('c') && k.control_only()
    ||| (k.key == KeyCode::Char('x') || k.key == KeyCode::Char('f') || k.key == KeyCode::Char('w'))
        && k.plain() && !(exists|i: int| 0 <= i < mounted.len() && blocks_shortcuts(#[trigger] mounted[i]))
}

/// Decides `global_listener_takes` for a key press and the mounted
/// components.
pub fn global_listener_subscribed(k: &KeyPress, mounted: &Vec<Id>) -> (r: bool)
    ensures
        r == global_listener_takes(*k, mounted@),
{
    let mut login = false;
    let mut blocked = false;
    let mut i: usize = 0;
    while i < mounted.len()
        invariant
            i <= mounted.len(),
            login == (exists|j: int| 0 <= j < i && #[trigger] mounted@[j] == Id::LoginPopup),
            blocked == (exists|j: int| 0 <= j < i && blocks_shortcuts(#[trigger] mounted@[j])),
        decreases mounted.len() - i,
    {
        let id = mounted[i];
        if id == Id::LoginPopup {
            login = true;
        }
        if id == Id::Menu || id == Id::ErrorPopup || id == Id::LoginPopup || id == Id::DownloadPopup || id
            == Id::SystemSelectPopup {
            blocked = true;
        }
        i = i + 1;
    }
    let plain = !k.modifiers.shift && !k.modifiers.control && !k.modifiers.alt;
    let control_only = !k.modifiers.shift && k.modifiers.control && !k.modifiers.alt;
    (k.key == KeyCode::Char('q') && plain && !login) || (k.key == KeyCode::Char('c') && control_only) || ((
    k.key == KeyCode::Char('x') || k.key == KeyCode::Char('f') || k.key == KeyCode::Char('w')) && plain
        && !blocked)
}

} // verus!
