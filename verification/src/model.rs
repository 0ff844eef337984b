//! The application model of the terminal UI: how each message changes which
//! components are mounted and shown, and what is handed to the UI runtime and
//! the background workers.
use vstd::prelude::*;
use vstd::view::View as _;
use crate::cscs::{JobDetail, System};
use crate::messages::{
    CscsMsg, DownloadPopupMsg, ErrorPopupMsg, Id, InfoPopupMsg, JobMsg, LoginPopupMsg, MenuMsg, Msg,
    StatusEvent, StatusMsg, SystemSelectMsg, UserEvent, View,
};
use crate::ports::{BackgroundTask, JobLogAction};

verus! {

/// The position of a component's flag in `Mounted`.
pub open spec fn id_index(id: Id) -> int {
    match id {
        Id::StatusBar => 0,
        Id::Toolbar => 1,
        Id::WorkloadList => 2,
        Id::WorkloadLogs => 3,
        Id::WorkloadDetails => 4,
        Id::WorkloadResourceUsage => 5,
        Id::GlobalListener => 6,
        Id::Menu => 7,
        Id::InfoPopup => 8,
        Id::ErrorPopup => 9,
        Id::LoginPopup => 10,
        Id::DownloadPopup => 11,
        Id::SystemSelectPopup => 12,
        Id::FileView => 13,
    }
}

fn index_of(id: Id) -> (r: usize)
    ensures
        r == id_index(id),
        r < 14,
{
    match id {
        Id::StatusBar => 0,
        Id::Toolbar => 1,
        Id::WorkloadList => 2,
        Id::WorkloadLogs => 3,
        Id::WorkloadDetails => 4,
        Id::WorkloadResourceUsage => 5,
        Id::GlobalListener => 6,
        Id::Menu => 7,
        Id::InfoPopup => 8,
        Id::ErrorPopup => 9,
        Id::LoginPopup => 10,
        Id::DownloadPopup => 11,
        Id::SystemSelectPopup => 12,
        Id::FileView => 13,
    }
}

/// Distinct components have distinct flags.
pub proof fn lemma_id_index_injective(a: Id, b: Id)
    ensures
        id_index(a) == id_index(b) ==> a == b,
        0 <= id_index(a) < 14,
{
}

/// Which components are mounted in the UI; its view is the set of them.
#[derive(Debug, Clone)]
pub struct Mounted {
    flags: Vec<bool>,
}

impl vstd::view::View for Mounted {
    type V = Set<Id>;

    closed spec fn view(&self) -> Set<Id> {
        Set::new(|id: Id| id_index(id) < self.flags@.len() && self.flags@[id_index(id)])
    }
}

impl Mounted {
    /// Nothing mounted.
    pub fn empty() -> (r: Mounted)
        ensures
            r@ == Set::<Id>::empty(),
    {
        let flags: Vec<bool> = vec![false; 14];
        let r = Mounted { flags };
        assert(r@ =~= Set::<Id>::empty());
        r
    }

    /// Whether `id` is mounted.
    pub fn contains(&self, id: Id) -> (r: bool)
        ensures
            r == self@.contains(id),
    {
        let i = index_of(id);
        if i < self.flags.len() {
            self.flags[i]
        } else {
            false
        }
    }

    /// Marks `id` as mounted or not.
    pub fn set(&mut self, id: Id, v: bool)
        ensures
            final(self)@ == (if v {
                old(self)@.insert(id)
            } else {
                old(self)@.remove(id)
            }),
    {
        let i = index_of(id);
        while self.flags.len() <= i
            invariant
                i < 14,
                old(self).flags@.len() <= self.flags@.len(),
                forall|k: int|
                    0 <= k < self.flags@.len() ==> #[trigger] self.flags@[k] == (k < old(
                        self,
                    ).flags@.len() && old(self).flags@[k]),
            decreases 14 - self.flags.len(),
        {
            self.flags.push(false);
        }
        self.flags.set(i, v);
        proof {
            assert forall|j: Id| #[trigger] self@.contains(j) == (if v {
                old(self)@.insert(id)
            } else {
                old(self)@.remove(id)
            }).contains(j) by {
                lemma_id_index_injective(j, id);
            }
            assert(self@ =~= (if v {
                old(self)@.insert(id)
            } else {
                old(self)@.remove(id)
            }));
        }
    }
}

/// A component to mount, with what it is built from.
#[derive(Debug, Clone)]
pub enum Widget {
    LoginPopup,
    SystemSelectPopup(Vec<System>),
    ErrorPopup(String),
    InfoPopup(String),
    DownloadTarget(String),
    ContextMenu(View),
    WorkloadLog,
    WorkloadDetails(JobDetail),
    WorkloadList,
}

/// A fixed status text.
#[derive(Debug, Clone, Copy, PartialEq, Eq, Structural)]
pub enum Notice {
    GettingJobDetails,
}

impl Notice {
    /// The text shown.
    pub fn text(&self) -> (r: &'static str)
        ensures
            *self == Notice::GettingJobDetails ==> r@ == "getting job details..."@,
    {
        match self {
            Notice::GettingJobDetails => "getting job details...",
        }
    }
}

/// Work for the UI runtime and the background workers, in the order given.
#[derive(Debug, Clone)]
pub enum Effect {
    Mount(Id, Widget),
    Umount(Id),
    /// Give the component the focus.
    Activate(Id),
    /// Show or hide a mounted component.
    Display(Id, bool),
    /// Tell the log watcher.
    JobLog(JobLogAction),
    /// Hand a task to the background worker.
    Background(BackgroundTask),
    /// Raise an application event.
    Emit(UserEvent),
    /// Raise a status event with a fixed info text.
    StatusInfo(Notice),
    /// Log in with a client id and secret: on success raise the logged-in
    /// event, else report the error.
    Login(String, String),
    /// Fetch the list of systems to choose from.
    SelectSystem,
    /// Make the system the current one, report a failure, then raise the
    /// system-selected event.
    SetSystem(String),
}

/// The state of the application model, as the contracts see it.
#[verifier::ext_equal]
pub struct ModelState {
    pub quit: bool,
    pub redraw: bool,
    pub current_view: View,
    pub mounted: Set<Id>,
    pub list_visible: bool,
}

/// The state of the application model.
#[derive(Debug, Clone)]
pub struct Model {
    /// The application must quit.
    pub quit: bool,
    /// The interface must be drawn again.
    pub redraw: bool,
    pub current_view: View,
    pub mounted: Mounted,
    /// Whether the workload list is shown (it stays mounted while hidden).
    pub list_visible: bool,
}

impl vstd::view::View for Model {
    type V = ModelState;

    open spec fn view(&self) -> ModelState {
        ModelState {
            quit: self.quit,
            redraw: self.redraw,
            current_view: self.current_view,
            mounted: self.mounted@,
            list_visible: self.list_visible,
        }
    }
}

pub open spec fn status_event(s: StatusMsg) -> StatusEvent {
    match s {
        StatusMsg::Progress(m, p) => StatusEvent::Progress(m, p),
        StatusMsg::Info(m) => StatusEvent::Info(m),
        StatusMsg::Warning(m) => StatusEvent::Warning(m),
    }
}

impl ModelState {
    /// The same state with `id` mounted or not.
    pub open spec fn mount_as(self, id: Id, v: bool) -> ModelState {
        ModelState {
            mounted: if v {
                self.mounted.insert(id)
            } else {
                self.mounted.remove(id)
            },
            ..self
        }
    }

    /// A popup that may already be open is opened anew.
    pub open spec fn reopen(self, id: Id, w: Widget) -> (ModelState, Seq<Effect>) {
        let pre = if self.mounted.contains(id) {
            seq![Effect::Umount(id)]
        } else {
            Seq::empty()
        };
        (self.mount_as(id, true), pre + seq![Effect::Mount(id, w), Effect::Activate(id)])
    }

    pub open spec fn open(self, id: Id, w: Widget) -> (ModelState, Seq<Effect>) {
        (self.mount_as(id, true), seq![Effect::Mount(id, w), Effect::Activate(id)])
    }

    pub open spec fn close(self, id: Id) -> (ModelState, Seq<Effect>) {
        (self.mount_as(id, false), seq![Effect::Umount(id)])
    }

    /// Hides the workload list where it is mounted.
    pub open spec fn hide_list(self) -> (ModelState, Seq<Effect>) {
        if self.mounted.contains(Id::WorkloadList) {
            (
                ModelState { list_visible: false, ..self },
                seq![Effect::Display(Id::WorkloadList, false)],
            )
        } else {
            (self, Seq::empty())
        }
    }

    pub open spec fn close_if_mounted(self, id: Id) -> (ModelState, Seq<Effect>) {
        if self.mounted.contains(id) {
            self.close(id)
        } else {
            (self, Seq::empty())
        }
    }

    pub open spec fn mount_if_absent(self, id: Id, w: Widget) -> (ModelState, Seq<Effect>) {
        if self.mounted.contains(id) {
            (self, Seq::empty())
        } else {
            (self.mount_as(id, true), seq![Effect::Mount(id, w)])
        }
    }

    /// Whether the model can take `msg` in this state: a popup is closed
    /// only while it is mounted, and opened (where it is not opened anew)
    /// only while it is not.
    pub open spec fn accepts(self, msg: Msg) -> bool {
        match msg {
            Msg::Menu(MenuMsg::Opened) => !self.mounted.contains(Id::Menu),
            Msg::Menu(_) => self.mounted.contains(Id::Menu),
            Msg::ErrorPopup(ErrorPopupMsg::Closed) => self.mounted.contains(Id::ErrorPopup),
            Msg::InfoPopup(InfoPopupMsg::Closed) => self.mounted.contains(Id::InfoPopup),
            Msg::DownloadPopup(DownloadPopupMsg::Opened(_)) => true,
            Msg::DownloadPopup(_) => self.mounted.contains(Id::DownloadPopup),
            Msg::LoginPopup(LoginPopupMsg::Opened) => !self.mounted.contains(Id::LoginPopup),
            Msg::LoginPopup(_) => self.mounted.contains(Id::LoginPopup),
            Msg::SystemSelectPopup(SystemSelectMsg::Opened(_)) => !self.mounted.contains(
                Id::SystemSelectPopup,
            ),
            Msg::SystemSelectPopup(_) => self.mounted.contains(Id::SystemSelectPopup),
            _ => true,
        }
    }

    pub open spec fn job_step(self, msg: JobMsg) -> (ModelState, Seq<Effect>) {
        match msg {
            JobMsg::Log(id) => {
                let (s1, e1) = self.hide_list();
                let (s2, e2) = s1.close_if_mounted(Id::WorkloadDetails);
                let (s3, e3) = s2.mount_if_absent(Id::WorkloadLogs, Widget::WorkloadLog);
                (
                    s3,
                    e1 + e2 + e3 + seq![
                        Effect::Activate(Id::WorkloadLogs),
                        Effect::JobLog(JobLogAction::Job(id)),
                    ],
                )
            },
            JobMsg::GetDetails(id) => (
                self,
                seq![
                    Effect::Background(BackgroundTask::GetJobDetails(id)),
                    Effect::StatusInfo(Notice::GettingJobDetails),
                ],
            ),
            JobMsg::Details(d) => {
                let (s1, e1) = self.hide_list();
                let (s2, e2) = s1.mount_if_absent(Id::WorkloadDetails, Widget::WorkloadDetails(d));
                (s2, e1 + e2 + seq![Effect::Activate(Id::WorkloadDetails)])
            },
            JobMsg::Switch => (self, seq![Effect::JobLog(JobLogAction::SwitchLog)]),
            JobMsg::Close => {
                let (s1, e1) = self.close_if_mounted(Id::WorkloadLogs);
                let (s2, e2) = s1.close_if_mounted(Id::WorkloadDetails);
                let (s3, e3) = s2.mount_if_absent(Id::WorkloadList, Widget::WorkloadList);
                (
                    ModelState { list_visible: true, ..s3 },
                    e1 + e2 + e3 + seq![
                        Effect::Display(Id::WorkloadList, true),
                        Effect::Activate(Id::WorkloadList),
                        Effect::JobLog(JobLogAction::Stop),
                    ],
                )
            },
        }
    }

    /// What a message does: the next state (before the redraw flag is set),
    /// the work handed out, and the message that follows.
    pub open spec fn step(self, msg: Msg) -> (ModelState, Seq<Effect>, Option<Msg>) {
        match msg {
            Msg::AppClose => (ModelState { quit: true, ..self }, Seq::empty(), None),
            Msg::Error(m) => (self, Seq::empty(), Some(Msg::ErrorPopup(ErrorPopupMsg::Opened(m)))),
            Msg::Info(m) => (self, Seq::empty(), Some(Msg::InfoPopup(InfoPopupMsg::Opened(m)))),
            Msg::Menu(MenuMsg::Opened) => {
                let (s, e) = self.open(Id::Menu, Widget::ContextMenu(self.current_view));
                (s, e, None)
            },
            Msg::Menu(m) => {
                let (s, e) = self.close(Id::Menu);
                (
                    s,
                    e,
                    match m {
                        MenuMsg::CscsLogin => Some(Msg::LoginPopup(LoginPopupMsg::Opened)),
                        MenuMsg::CscsSwitchSystem => Some(Msg::Cscs(CscsMsg::SelectSystem)),
                        MenuMsg::Event(ev) => Some(Msg::CreateEvent(ev)),
                        _ => None,
                    },
                )
            },
            Msg::ErrorPopup(ErrorPopupMsg::Opened(m)) => {
                let (s, e) = self.reopen(Id::ErrorPopup, Widget::ErrorPopup(m));
                (s, e, None)
            },
            Msg::ErrorPopup(ErrorPopupMsg::Closed) => {
                let (s, e) = self.close(Id::ErrorPopup);
                (s, e, None)
            },
            Msg::InfoPopup(InfoPopupMsg::Opened(m)) => {
                let (s, e) = self.reopen(Id::InfoPopup, Widget::InfoPopup(m));
                (s, e, None)
            },
            Msg::InfoPopup(InfoPopupMsg::Closed) => {
                let (s, e) = self.close(Id::InfoPopup);
                (s, e, None)
            },
            Msg::DownloadPopup(DownloadPopupMsg::Opened(p)) => {
                let (s, e) = self.reopen(Id::DownloadPopup, Widget::DownloadTarget(p));
                (s, e, None)
            },
            Msg::DownloadPopup(DownloadPopupMsg::PathSet(remote, local)) => {
                let (s, e) = self.close(Id::DownloadPopup);
                (s, e.push(Effect::Background(BackgroundTask::DownloadFile(remote, local))), None)
            },
            Msg::DownloadPopup(DownloadPopupMsg::Closed) => {
                let (s, e) = self.close(Id::DownloadPopup);
                (s, e, None)
            },
            Msg::Cscs(CscsMsg::Login(id, secret)) => (self, seq![Effect::Login(id, secret)], None),
            Msg::Cscs(CscsMsg::SelectSystem) => (self, seq![Effect::SelectSystem], None),
            Msg::Cscs(CscsMsg::SystemSelected(s)) => (self, seq![Effect::SetSystem(s)], None),
            Msg::LoginPopup(LoginPopupMsg::Opened) => {
                let (s, e) = self.open(Id::LoginPopup, Widget::LoginPopup);
                (s, e, None)
            },
            Msg::LoginPopup(LoginPopupMsg::Closed) => {
                let (s, e) = self.close(Id::LoginPopup);
                (s, e, None)
            },
            Msg::LoginPopup(LoginPopupMsg::LoginDone(id, secret)) => {
                let (s, e) = self.close(Id::LoginPopup);
                (s, e, Some(Msg::Cscs(CscsMsg::Login(id, secret))))
            },
            Msg::SystemSelectPopup(SystemSelectMsg::Opened(systems)) => {
                let (s, e) = self.open(Id::SystemSelectPopup, Widget::SystemSelectPopup(systems));
                (s, e, None)
            },
            Msg::SystemSelectPopup(SystemSelectMsg::Closed) => {
                let (s, e) = self.close(Id::SystemSelectPopup);
                (s, e, None)
            },
            Msg::SystemSelectPopup(SystemSelectMsg::SystemSelected(system)) => {
                let (s, e) = self.close(Id::SystemSelectPopup);
                (s, e, Some(Msg::Cscs(CscsMsg::SystemSelected(system))))
            },
            Msg::Job(m) => {
                let (s, e) = self.job_step(m);
                (s, e, None)
            },
            Msg::ChangeView(v) => (
                ModelState { current_view: v, ..self },
                seq![Effect::Emit(UserEvent::SwitchedToView(v))],
                None,
            ),
            Msg::CreateEvent(ev) => (self, seq![Effect::Emit(ev)], None),
            Msg::Status(st) => (self, seq![Effect::Emit(UserEvent::Status(status_event(st)))], None),
            Msg::Nothing => (self, Seq::empty(), None),
        }
    }
}

impl Model {
    /// The state right after start: the given components mounted, the
    /// workloads view shown.
    pub fn new(mounted: Mounted) -> (r: Model)
        ensures
            r@ == (ModelState {
                quit: false,
                redraw: true,
                current_view: View::Workloads,
                mounted: mounted@,
                list_visible: true,
            }),
    {
        Model { quit: false, redraw: true, current_view: View::Workloads, mounted, list_visible: true }
    }

    fn mount_as(&mut self, id: Id, v: bool)
        ensures
            final(self)@ == old(self)@.mount_as(id, v),
    {
        self.mounted.set(id, v);
    }

    fn reopen(&mut self, effects: &mut Vec<Effect>, id: Id, w: Widget)
        ensures
            final(self)@ == old(self)@.reopen(id, w).0,
            final(effects)@ == old(effects)@ + old(self)@.reopen(id, w).1,
    {
        let ghost w0 = w;
        if self.mounted.contains(id) {
            effects.push(Effect::Umount(id));
        }
        self.mount_as(id, true);
        effects.push(Effect::Mount(id, w));
        effects.push(Effect::Activate(id));
        proof {
            assert(final(effects)@ =~= old(effects)@ + old(self)@.reopen(id, w0).1);
        }
    }

    fn open(&mut self, effects: &mut Vec<Effect>, id: Id, w: Widget)
        ensures
            final(self)@ == old(self)@.open(id, w).0,
            final(effects)@ == old(effects)@ + old(self)@.open(id, w).1,
    {
        let ghost w0 = w;
        self.mount_as(id, true);
        effects.push(Effect::Mount(id, w));
        effects.push(Effect::Activate(id));
        proof {
            assert(final(effects)@ =~= old(effects)@ + old(self)@.open(id, w0).1);
        }
    }

    fn close(&mut self, effects: &mut Vec<Effect>, id: Id)
        ensures
            final(self)@ == old(self)@.close(id).0,
            final(effects)@ == old(effects)@ + old(self)@.close(id).1,
    {
        self.mount_as(id, false);
        effects.push(Effect::Umount(id));
        proof {
            assert(final(effects)@ =~= old(effects)@ + old(self)@.close(id).1);
        }
    }

    fn hide_list(&mut self, effects: &mut Vec<Effect>)
        ensures
            final(self)@ == old(self)@.hide_list().0,
            final(effects)@ == old(effects)@ + old(self)@.hide_list().1,
    {
        if self.mounted.contains(Id::WorkloadList) {
            self.list_visible = false;
            effects.push(Effect::Display(Id::WorkloadList, false));
        }
        proof {
            assert(final(effects)@ =~= old(effects)@ + old(self)@.hide_list().1);
        }
    }

    fn close_if_mounted(&mut self, effects: &mut Vec<Effect>, id: Id)
        ensures
            final(self)@ == old(self)@.close_if_mounted(id).0,
            final(effects)@ == old(effects)@ + old(self)@.close_if_mounted(id).1,
    {
        if self.mounted.contains(id) {
            self.close(effects, id);
        } else {
            proof {
                assert(final(effects)@ =~= old(effects)@ + old(self)@.close_if_mounted(id).1);
            }
        }
    }

    fn mount_if_absent(&mut self, effects: &mut Vec<Effect>, id: Id, w: Widget)
        ensures
            final(self)@ == old(self)@.mount_if_absent(id, w).0,
            final(effects)@ == old(effects)@ + old(self)@.mount_if_absent(id, w).1,
    {
        let ghost w0 = w;
        if !self.mounted.contains(id) {
            self.mount_as(id, true);
            effects.push(Effect::Mount(id, w));
        }
        proof {
            assert(final(effects)@ =~= old(effects)@ + old(self)@.mount_if_absent(id, w0).1);
        }
    }

    #[verifier::rlimit(40)]
    fn handle_job_msg(&mut self, effects: &mut Vec<Effect>, msg: JobMsg)
        ensures
            final(self)@ == old(self)@.job_step(msg).0,
            final(effects)@ == old(effects)@ + old(self)@.job_step(msg).1,
    {
        let ghost m0 = msg;
        match msg {
            JobMsg::Log(id) => {
                self.hide_list(effects);
                self.close_if_mounted(effects, Id::WorkloadDetails);
                self.mount_if_absent(effects, Id::WorkloadLogs, Widget::WorkloadLog);
                effects.push(Effect::Activate(Id::WorkloadLogs));
                effects.push(Effect::JobLog(JobLogAction::Job(id)));
            },
            JobMsg::GetDetails(id) => {
                effects.push(Effect::Background(BackgroundTask::GetJobDetails(id)));
                effects.push(Effect::StatusInfo(Notice::GettingJobDetails));
            },
            JobMsg::Details(d) => {
                self.hide_list(effects);
                self.mount_if_absent(effects, Id::WorkloadDetails, Widget::WorkloadDetails(d));
                effects.push(Effect::Activate(Id::WorkloadDetails));
            },
            JobMsg::Switch => {
                effects.push(Effect::JobLog(JobLogAction::SwitchLog));
            },
            JobMsg::Close => {
                self.close_if_mounted(effects, Id::WorkloadLogs);
                self.close_if_mounted(effects, Id::WorkloadDetails);
                self.mount_if_absent(effects, Id::WorkloadList, Widget::WorkloadList);
                self.list_visible = true;
                effects.push(Effect::Display(Id::WorkloadList, true));
                effects.push(Effect::Activate(Id::WorkloadList));
                effects.push(Effect::JobLog(JobLogAction::Stop));
            },
        }
        proof {
            assert(final(effects)@ =~= old(effects)@ + old(self)@.job_step(m0).1);
        }
    }

    /// Takes in one message: sets the redraw flag, changes the state, and
    /// gives back the message that follows and the work to hand out, in
    /// order. Without a message nothing changes.
    pub fn update(&mut self, msg: Option<Msg>) -> (r: (Option<Msg>, Vec<Effect>))
        requires
            match msg {
                Some(m) => old(self)@.accepts(m),
                None => true,
            },
        ensures
            match msg {
                Some(m) => {
                    &&& final(self)@ == (ModelState { redraw: true, ..old(self)@.step(m).0 })
                    &&& r.1@ == old(self)@.step(m).1
                    &&& r.0 == old(self)@.step(m).2
                },
                None => final(self)@ == old(self)@ && r.0 is None && r.1@.len() == 0,
            },
    {
        let mut effects: Vec<Effect> = Vec::new();
        let msg = match msg {
            Some(m) => m,
            None => {
                return (None, effects);
            },
        };
        let ghost m0 = msg;
        let ghost s0 = self@;
        let next = match msg {
            Msg::AppClose => {
                self.quit = true;
                None
            },
            Msg::Error(m) => Some(Msg::ErrorPopup(ErrorPopupMsg::Opened(m))),
            Msg::Info(m) => Some(Msg::InfoPopup(InfoPopupMsg::Opened(m))),
            Msg::Menu(MenuMsg::Opened) => {
                let v = self.current_view;
                self.open(&mut effects, Id::Menu, Widget::ContextMenu(v));
                None
            },
            Msg::Menu(m) => {
                self.close(&mut effects, Id::Menu);
                match m {
                    MenuMsg::CscsLogin => Some(Msg::LoginPopup(LoginPopupMsg::Opened)),
                    MenuMsg::CscsSwitchSystem => Some(Msg::Cscs(CscsMsg::SelectSystem)),
                    MenuMsg::Event(ev) => Some(Msg::CreateEvent(ev)),
                    _ => None,
                }
            },
            Msg::ErrorPopup(ErrorPopupMsg::Opened(m)) => {
                self.reopen(&mut effects, Id::ErrorPopup, Widget::ErrorPopup(m));
                None
            },
            Msg::ErrorPopup(ErrorPopupMsg::Closed) => {
                self.close(&mut effects, Id::ErrorPopup);
                None
            },
            Msg::InfoPopup(InfoPopupMsg::Opened(m)) => {
                self.reopen(&mut effects, Id::InfoPopup, Widget::InfoPopup(m));
                None
            },
            Msg::InfoPopup(InfoPopupMsg::Closed) => {
                self.close(&mut effects, Id::InfoPopup);
                None
            },
            Msg::DownloadPopup(DownloadPopupMsg::Opened(p)) => {
                self.reopen(&mut effects, Id::DownloadPopup, Widget::DownloadTarget(p));
                None
            },
            Msg::DownloadPopup(DownloadPopupMsg::PathSet(remote, local)) => {
                self.close(&mut effects, Id::DownloadPopup);
                effects.push(Effect::Background(BackgroundTask::DownloadFile(remote, local)));
                None
            },
            Msg::DownloadPopup(DownloadPopupMsg::Closed) => {
                self.close(&mut effects, Id::DownloadPopup);
                None
            },
            Msg::Cscs(CscsMsg::Login(id, secret)) => {
                effects.push(Effect::Login(id, secret));
                None
            },
            Msg::Cscs(CscsMsg::SelectSystem) => {
                effects.push(Effect::SelectSystem);
                None
            },
            Msg::Cscs(CscsMsg::SystemSelected(s)) => {
                effects.push(Effect::SetSystem(s));
                None
            },
            Msg::LoginPopup(LoginPopupMsg::Opened) => {
                self.open(&mut effects, Id::LoginPopup, Widget::LoginPopup);
                None
            },
            Msg::LoginPopup(LoginPopupMsg::Closed) => {
                self.close(&mut effects, Id::LoginPopup);
                None
            },
            Msg::LoginPopup(LoginPopupMsg::LoginDone(id, secret)) => {
                self.close(&mut effects, Id::LoginPopup);
                Some(Msg::Cscs(CscsMsg::Login(id, secret)))
            },
            Msg::SystemSelectPopup(SystemSelectMsg::Opened(systems)) => {
                self.open(&mut effects, Id::SystemSelectPopup, Widget::SystemSelectPopup(systems));
                None
            },
            Msg::SystemSelectPopup(SystemSelectMsg::Closed) => {
                self.close(&mut effects, Id::SystemSelectPopup);
                None
            },
            Msg::SystemSelectPopup(SystemSelectMsg::SystemSelected(system)) => {
                self.close(&mut effects, Id::SystemSelectPopup);
                Some(Msg::Cscs(CscsMsg::SystemSelected(system)))
            },
            Msg::Job(m) => {
                self.handle_job_msg(&mut effects, m);
                None
            },
            Msg::ChangeView(v) => {
                self.current_view = v;
                effects.push(Effect::Emit(UserEvent::SwitchedToView(v)));
                None
            },
            Msg::CreateEvent(ev) => {
                effects.push(Effect::Emit(ev));
                None
            },
            Msg::Status(st) => {
                let event = match st {
                    StatusMsg::Progress(m, p) => StatusEvent::Progress(m, p),
                    StatusMsg::Info(m) => StatusEvent::Info(m),
                    StatusMsg::Warning(m) => StatusEvent::Warning(m),
                };
                effects.push(Effect::Emit(UserEvent::Status(event)));
                None
            },
            Msg::Nothing => None,
        };
        self.redraw = true;
        proof {
            assert(effects@ =~= s0.step(m0).1);
        }
        (next, effects)
    }
}

/// Only the close message makes the application quit; a quit stays.
pub proof fn law_only_close_quits(s: ModelState, m: Msg)
    ensures
        s.step(m).0.quit == (s.quit || m is AppClose),
{
}

/// The shown view changes only on a change of view, to that view.
pub proof fn law_view_changes_only_on_request(s: ModelState, m: Msg)
    ensures
        s.step(m).0.current_view == (match m {
            Msg::ChangeView(v) => v,
            _ => s.current_view,
        }),
{
}

/// Closing the job panes, from any state, leaves the workload list mounted,
/// shown and focused, with no log or details pane, and stops the log
/// watcher.
pub proof fn law_close_returns_to_list(s: ModelState)
    ensures
        ({
            let (t, e, next) = s.step(Msg::Job(JobMsg::Close));
            &&& t.mounted.contains(Id::WorkloadList)
            &&& !t.mounted.contains(Id::WorkloadLogs)
            &&& !t.mounted.contains(Id::WorkloadDetails)
            &&& t.list_visible
            &&& e.len() >= 3
            &&& e[e.len() - 2] == Effect::Activate(Id::WorkloadList)
            &&& e[e.len() - 1] == Effect::JobLog(JobLogAction::Stop)
            &&& next is None
        }),
{
    let (s1, e1) = s.close_if_mounted(Id::WorkloadLogs);
    let (s2, e2) = s1.close_if_mounted(Id::WorkloadDetails);
    let (s3, e3) = s2.mount_if_absent(Id::WorkloadList, Widget::WorkloadList);
    assert(!s1.mounted.contains(Id::WorkloadLogs));
    assert(!s2.mounted.contains(Id::WorkloadLogs));
    assert(!s2.mounted.contains(Id::WorkloadDetails));
    assert(!s3.mounted.contains(Id::WorkloadLogs));
    assert(!s3.mounted.contains(Id::WorkloadDetails));
}

/// Watching a job's log hides the list, drops the details pane, shows and
/// focuses the log pane and points the log watcher at the job.
pub proof fn law_log_shows_log_pane(s: ModelState, id: usize)
    ensures
        ({
            let (t, e, next) = s.step(Msg::Job(JobMsg::Log(id)));
            &&& t.mounted.contains(Id::WorkloadLogs)
            &&& !t.mounted.contains(Id::WorkloadDetails)
            &&& (s.mounted.contains(Id::WorkloadList) ==> !t.list_visible)
            &&& e.len() >= 2
            &&& e[e.len() - 2] == Effect::Activate(Id::WorkloadLogs)
            &&& e[e.len() - 1] == Effect::JobLog(JobLogAction::Job(id))
            &&& next is None
        }),
{
    let (s1, e1) = s.hide_list();
    let (s2, e2) = s1.close_if_mounted(Id::WorkloadDetails);
    let (s3, e3) = s2.mount_if_absent(Id::WorkloadLogs, Widget::WorkloadLog);
    assert(!s2.mounted.contains(Id::WorkloadDetails));
    assert(!s3.mounted.contains(Id::WorkloadDetails));
}

/// Opening an error popup always ends with it mounted and focused, whether
/// one was open before or not; closing it then unmounts it.
pub proof fn law_error_popup_reopens(s: ModelState, text: String)
    ensures
        ({
            let (t, e, next) = s.step(Msg::ErrorPopup(ErrorPopupMsg::Opened(text)));
            &&& t.mounted.contains(Id::ErrorPopup)
            &&& e.last() == Effect::Activate(Id::ErrorPopup)
            &&& e[e.len() - 2] == Effect::Mount(Id::ErrorPopup, Widget::ErrorPopup(text))
            &&& (s.mounted.contains(Id::ErrorPopup) <==> e.len() == 3)
            &&& t.accepts(Msg::ErrorPopup(ErrorPopupMsg::Closed))
            &&& !t.step(Msg::ErrorPopup(ErrorPopupMsg::Closed)).0.mounted.contains(Id::ErrorPopup)
            &&& next is None
        }),
{
}

/// Opening the login popup and closing it again leaves the same components
/// mounted as before.
pub proof fn law_login_popup_round_trip(s: ModelState)
    requires
        s.accepts(Msg::LoginPopup(LoginPopupMsg::Opened)),
    ensures
        ({
            let t = s.step(Msg::LoginPopup(LoginPopupMsg::Opened)).0;
            &&& t.accepts(Msg::LoginPopup(LoginPopupMsg::Closed))
            &&& t.step(Msg::LoginPopup(LoginPopupMsg::Closed)).0.mounted == s.mounted
        }),
{
    let t = s.step(Msg::LoginPopup(LoginPopupMsg::Opened)).0;
    assert(t.step(Msg::LoginPopup(LoginPopupMsg::Closed)).0.mounted =~= s.mounted);
}

/// A finished login closes the popup and asks for the login with the same
/// credentials.
pub proof fn law_login_done_requests_login(s: ModelState, id: String, secret: String)
    requires
        s.accepts(Msg::LoginPopup(LoginPopupMsg::LoginDone(id, secret))),
    ensures
        ({
            let (t, e, next) = s.step(Msg::LoginPopup(LoginPopupMsg::LoginDone(id, secret)));
            &&& !t.mounted.contains(Id::LoginPopup)
            &&& next == Some(Msg::Cscs(CscsMsg::Login(id, secret)))
            &&& t.step(next.unwrap()).1 == seq![Effect::Login(id, secret)]
        }),
{
}

/// The popup drawn over the view: the first mounted of the menu, the
/// error, info, login, system selection and download popups.
pub open spec fn popup_drawn(m: Set<Id>) -> Option<Id> {
    if m.contains(Id::Menu) {
        Some(Id::Menu)
    } else if m.contains(Id::ErrorPopup) {
        Some(Id::ErrorPopup)
    } else if m.contains(Id::InfoPopup) {
        Some(Id::InfoPopup)
    } else if m.contains(Id::LoginPopup) {
        Some(Id::LoginPopup)
    } else if m.contains(Id::SystemSelectPopup) {
        Some(Id::SystemSelectPopup)
    } else if m.contains(Id::DownloadPopup) {
        Some(Id::DownloadPopup)
    } else {
        None
    }
}

pub fn drawn_popup(m: &Mounted) -> (r: Option<Id>)
    ensures
        r == popup_drawn(m@),
{
    if m.contains(Id::Menu) {
        Some(Id::Menu)
    } else if m.contains(Id::ErrorPopup) {
        Some(Id::ErrorPopup)
    } else if m.contains(Id::InfoPopup) {
        Some(Id::InfoPopup)
    } else if m.contains(Id::LoginPopup) {
        Some(Id::LoginPopup)
    } else if m.contains(Id::SystemSelectPopup) {
        Some(Id::SystemSelectPopup)
    } else if m.contains(Id::DownloadPopup) {
        Some(Id::DownloadPopup)
    } else {
        None
    }
}

/// The components asked to draw themselves, from top to bottom: the status
/// bar, the body of the view (the workload list, log and details, which
/// draw nothing where they are not mounted; or the file view where it is
/// mounted), the toolbar, then the popup on top.
pub open spec fn screen(view: View, m: Set<Id>) -> Seq<Id> {
    let body = match view {
        View::Workloads => seq![Id::WorkloadList, Id::WorkloadLogs, Id::WorkloadDetails],
        View::Files => if m.contains(Id::FileView) {
            seq![Id::FileView]
        } else {
            seq![]
        },
    };
    let popup = match popup_drawn(m) {
        Some(p) => seq![p],
        None => seq![],
    };
    seq![Id::StatusBar] + body + seq![Id::Toolbar] + popup
}

pub fn drawn_components(view: View, m: &Mounted) -> (r: Vec<Id>)
    ensures
        r@ == screen(view, m@),
{
    let mut r: Vec<Id> = vec![Id::StatusBar];
    match view {
        View::Workloads => {
            r.push(Id::WorkloadList);
            r.push(Id::WorkloadLogs);
            r.push(Id::WorkloadDetails);
        },
        View::Files => {
            if m.contains(Id::FileView) {
                r.push(Id::FileView);
            }
        },
    }
    r.push(Id::Toolbar);
    match drawn_popup(m) {
        Some(p) => {
            r.push(p);
        },
        None => {},
    }
    proof {
        assert(r@ =~= screen(view, m@));
    }
    r
}

} // verus!
