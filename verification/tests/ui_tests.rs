use coman::app_loop::{AppState, LoopEffect};
use coman::components::{
    child_node_id, mouse_row_index, open_action, resource_usage_target, selected_job_id,
    selected_statuses, sort_newest_first, toggle_status_filter, Area, Button, MouseKind, OpenAction,
};
use coman::cscs::{Job, JobDetail, JobStatus, PathType};
use coman::focus::{footer_focus_update, Action, Focus, FocusManager, Mode, SubMode};
use coman::messages::{
    CscsMsg, ErrorPopupMsg, Id, InfoPopupMsg, JobMsg, LoginPopupMsg, MenuMsg, Msg, StatusMsg,
    UserEvent, View,
};
use coman::model::{Effect, Model, Mounted, Notice, Widget};
use coman::ports::{download_progress, BackgroundTask, JobLogAction, JobLogWatch};

fn announced(a: &Option<Action>) -> Option<(String, Focus)> {
    match a {
        Some(Action::FocusChanged(id, f)) => Some((id.clone(), *f)),
        _ => None,
    }
}

#[test]
fn test_focus_request_and_release() {
    let mut fm = FocusManager::new("list".to_string());
    let a = fm.request_focus("popup".to_string(), Focus::Active);
    assert_eq!(announced(&a), Some(("popup".to_string(), Focus::Active)));
    let a = fm.release_focus("popup".to_string());
    assert_eq!(announced(&a), Some(("list".to_string(), Focus::Active)));
    assert!(fm.should_receive_event("anything".to_string()));
}

#[test]
fn test_focus_exclusive_isolates() {
    let mut fm = FocusManager::new("list".to_string());
    let a = fm.request_focus("error".to_string(), Focus::Exclusive);
    assert_eq!(announced(&a), Some(("error".to_string(), Focus::Exclusive)));
    assert!(fm.should_receive_event("error".to_string()));
    assert!(!fm.should_receive_event("list".to_string()));
    // an active request cannot take an exclusive focus away
    assert!(fm.request_focus("other".to_string(), Focus::Active).is_none());
    let a = fm.release_focus("error".to_string());
    assert_eq!(announced(&a), Some(("list".to_string(), Focus::Active)));
    assert!(fm.should_receive_event("other".to_string()));
}

#[test]
fn test_focus_release_by_other() {
    let mut fm = FocusManager::new("list".to_string());
    fm.request_focus("popup".to_string(), Focus::Active);
    let a = fm.release_focus("stranger".to_string());
    assert_eq!(announced(&a), Some(("stranger".to_string(), Focus::Inactive)));
    let a = fm.request_focus("footer".to_string(), Focus::Permanent);
    assert_eq!(announced(&a), Some(("footer".to_string(), Focus::Permanent)));
    assert!(fm.update(Action::Tick).is_none());
}

#[test]
fn test_footer_focus_update() {
    let me = "footer".to_string();
    let other = "list".to_string();
    assert_eq!(footer_focus_update(&me, Focus::Inactive, &me, Focus::Active), Focus::Active);
    assert_eq!(footer_focus_update(&me, Focus::Permanent, &other, Focus::Exclusive), Focus::PermanentInactive);
    assert_eq!(footer_focus_update(&me, Focus::PermanentInactive, &other, Focus::Active), Focus::Permanent);
    assert_eq!(footer_focus_update(&me, Focus::Permanent, &other, Focus::Active), Focus::Permanent);
}

fn model() -> Model {
    let mut m = Mounted::empty();
    m.set(Id::StatusBar, true);
    m.set(Id::Toolbar, true);
    m.set(Id::WorkloadList, true);
    Model::new(m)
}

#[test]
fn test_model_quit() {
    let mut m = model();
    let (next, effects) = m.update(Some(Msg::AppClose));
    assert!(next.is_none());
    assert!(effects.is_empty());
    assert!(m.quit);
    assert!(m.redraw);
    let mut m = model();
    m.redraw = false;
    let (next, effects) = m.update(None);
    assert!(next.is_none() && effects.is_empty());
    assert!(!m.redraw && !m.quit);
}

#[test]
fn test_model_error_message_opens_popup() {
    let mut m = model();
    let (next, _) = m.update(Some(Msg::Error("boom".to_string())));
    let next = next.expect("a popup message");
    assert!(matches!(next, Msg::ErrorPopup(ErrorPopupMsg::Opened(ref t)) if t == "boom"));
    let (next2, effects) = m.update(Some(next));
    assert!(next2.is_none());
    assert_eq!(effects.len(), 2);
    assert!(matches!(effects[0], Effect::Mount(Id::ErrorPopup, Widget::ErrorPopup(ref t)) if t == "boom"));
    assert!(matches!(effects[1], Effect::Activate(Id::ErrorPopup)));
    assert!(m.mounted.contains(Id::ErrorPopup));
    // opening it again replaces the one shown
    let (_, effects) = m.update(Some(Msg::ErrorPopup(ErrorPopupMsg::Opened("again".to_string()))));
    assert_eq!(effects.len(), 3);
    assert!(matches!(effects[0], Effect::Umount(Id::ErrorPopup)));
    let (_, effects) = m.update(Some(Msg::ErrorPopup(ErrorPopupMsg::Closed)));
    assert!(matches!(effects[0], Effect::Umount(Id::ErrorPopup)));
    assert!(!m.mounted.contains(Id::ErrorPopup));
}

#[test]
fn test_model_info_message() {
    let mut m = model();
    let (next, _) = m.update(Some(Msg::Info("hi".to_string())));
    assert!(matches!(next, Some(Msg::InfoPopup(InfoPopupMsg::Opened(ref t))) if t == "hi"));
}

#[test]
fn test_model_login_flow() {
    let mut m = model();
    let (_, effects) = m.update(Some(Msg::Menu(MenuMsg::Opened)));
    assert!(matches!(effects[0], Effect::Mount(Id::Menu, Widget::ContextMenu(View::Workloads))));
    let (next, effects) = m.update(Some(Msg::Menu(MenuMsg::CscsLogin)));
    assert!(matches!(effects[0], Effect::Umount(Id::Menu)));
    assert!(matches!(next, Some(Msg::LoginPopup(LoginPopupMsg::Opened))));
    let (_, effects) = m.update(next);
    assert!(matches!(effects[0], Effect::Mount(Id::LoginPopup, Widget::LoginPopup)));
    let (next, _) = m.update(Some(Msg::LoginPopup(LoginPopupMsg::LoginDone("id".to_string(), "secret".to_string()))));
    assert!(!m.mounted.contains(Id::LoginPopup));
    assert!(matches!(next, Some(Msg::Cscs(CscsMsg::Login(ref a, ref b))) if a == "id" && b == "secret"));
    let (next, effects) = m.update(next);
    assert!(next.is_none());
    assert!(matches!(effects[0], Effect::Login(ref a, ref b) if a == "id" && b == "secret"));
}

fn detail() -> JobDetail {
    JobDetail {
        id: 3,
        name: "j".to_string(),
        start_date: None,
        end_date: None,
        status: JobStatus::Running,
        status_reason: String::new(),
        exit_code: 0,
        user: "u".to_string(),
        stdout: "/o".to_string(),
        stderr: "/e".to_string(),
        stdin: String::new(),
    }
}

#[test]
fn test_model_job_panes() {
    let mut m = model();
    let (_, effects) = m.update(Some(Msg::Job(JobMsg::Details(detail()))));
    assert!(matches!(effects[0], Effect::Display(Id::WorkloadList, false)));
    assert!(matches!(effects[1], Effect::Mount(Id::WorkloadDetails, Widget::WorkloadDetails(_))));
    assert!(!m.list_visible);
    let (_, effects) = m.update(Some(Msg::Job(JobMsg::Log(3))));
    assert!(matches!(effects.last(), Some(Effect::JobLog(JobLogAction::Job(3)))));
    assert!(m.mounted.contains(Id::WorkloadLogs));
    assert!(!m.mounted.contains(Id::WorkloadDetails));
    let (_, effects) = m.update(Some(Msg::Job(JobMsg::Close)));
    assert!(matches!(effects.last(), Some(Effect::JobLog(JobLogAction::Stop))));
    assert!(m.mounted.contains(Id::WorkloadList));
    assert!(!m.mounted.contains(Id::WorkloadLogs));
    assert!(m.list_visible);
    let (_, effects) = m.update(Some(Msg::Job(JobMsg::GetDetails(3))));
    assert!(matches!(effects[0], Effect::Background(BackgroundTask::GetJobDetails(3))));
    assert!(matches!(effects[1], Effect::StatusInfo(Notice::GettingJobDetails)));
    assert_eq!(Notice::GettingJobDetails.text(), "getting job details...");
}

#[test]
fn test_model_view_and_status() {
    let mut m = model();
    let (_, effects) = m.update(Some(Msg::ChangeView(View::Files)));
    assert_eq!(m.current_view, View::Files);
    assert!(matches!(effects[0], Effect::Emit(UserEvent::SwitchedToView(View::Files))));
    let (_, effects) = m.update(Some(Msg::Status(StatusMsg::Info("x".to_string()))));
    assert_eq!(effects.len(), 1);
    assert_eq!(View::Files.name(), "Files");
}

#[test]
fn test_user_event_subscriptions() {
    let e = UserEvent::Error("a".to_string());
    assert!(e.subscribes(&UserEvent::Error("b".to_string())));
    assert!(!e.subscribes(&UserEvent::Info("a".to_string())));
    let v = UserEvent::SwitchedToView(View::Files);
    assert!(!v.subscribes(&UserEvent::SwitchedToView(View::Files)));
}

#[test]
fn test_job_log_watch() {
    let mut w = JobLogWatch::new();
    assert_eq!(w.log_to_fetch(), None);
    w.apply(JobLogAction::Job(5));
    assert_eq!(w.log_to_fetch(), Some((5, false)));
    w.apply(JobLogAction::SwitchLog);
    assert_eq!(w.log_to_fetch(), Some((5, true)));
    w.log_failed();
    assert_eq!(w.log_to_fetch(), Some((5, false)));
    w.log_failed();
    assert_eq!(w.log_to_fetch(), None);
    w.apply(JobLogAction::Job(6));
    w.apply(JobLogAction::SwitchLog);
    w.apply(JobLogAction::SwitchLog);
    assert_eq!(w.log_to_fetch(), Some((6, false)));
    w.apply(JobLogAction::Stop);
    assert_eq!(w.current_job, None);
}

#[test]
fn test_download_progress() {
    assert_eq!(download_progress(50, 200), 25);
    assert_eq!(download_progress(199, 200), 99);
}

fn job(id: usize, start: Option<i64>) -> Job {
    Job { id, name: format!("j{}", id), status: JobStatus::Running, user: String::new(), start_date: start, end_date: None }
}

#[test]
fn test_sort_newest_first() {
    let jobs = vec![job(1, Some(10)), job(2, None), job(3, Some(30)), job(4, Some(10)), job(5, None)];
    let sorted = sort_newest_first(jobs);
    let ids: Vec<usize> = sorted.iter().map(|j| j.id).collect();
    assert_eq!(ids, vec![3, 1, 4, 2, 5]);
    assert!(sort_newest_first(vec![]).is_empty());
}

#[test]
fn test_selected_job() {
    let jobs = vec![job(1, None), job(2, None)];
    assert_eq!(selected_job_id(&jobs, Some(1)), Some(2));
    assert_eq!(selected_job_id(&jobs, None), None);
    assert_eq!(selected_job_id(&vec![], Some(4)), None);
    assert_eq!(resource_usage_target(&jobs[0]), Ok(1));
    let mut pending = job(9, None);
    pending.status = JobStatus::Pending;
    assert_eq!(
        resource_usage_target(&pending),
        Err("Can only get resource usage for jobs in 'Running' state".to_string())
    );
}

#[test]
fn test_status_filter_toggle() {
    let all: Vec<usize> = (0..7).collect();
    // unchecking one status unchecks "all"
    let r = toggle_status_filter(&all, vec![0, 1, 2, 4, 5, 6], 7);
    assert_eq!(r, vec![1, 2, 4, 5, 6]);
    // checking it again checks "all"
    let r2 = toggle_status_filter(&r, vec![1, 2, 4, 5, 6, 3], 7);
    assert_eq!(r2, vec![1, 2, 4, 5, 6, 3, 0]);
    // unchecking "all" unchecks everything
    assert_eq!(toggle_status_filter(&all, vec![1, 2, 3, 4, 5, 6], 7), Vec::<usize>::new());
    // checking "all" checks everything
    assert_eq!(toggle_status_filter(&vec![2], vec![2, 0], 7), all);
    assert_eq!(
        selected_statuses(&vec![0, 1, 6]),
        vec![JobStatus::Pending, JobStatus::Timeout]
    );
}

#[test]
fn test_file_tree_helpers() {
    assert_eq!(child_node_id("/scratch/alice", "data"), "/scratch/alice/data");
    assert_eq!(child_node_id("/", "/scratch"), "/scratch");
    assert_eq!(open_action(PathType::Directory, false), OpenAction::LoadChildren);
    assert_eq!(open_action(PathType::Directory, true), OpenAction::Open);
    assert_eq!(open_action(PathType::File, true), OpenAction::Nothing);
    // a click on the first row below the border, nothing scrolled
    assert_eq!(mouse_row_index(11, 10, 12, 5, 1), 0);
    // a click below the last row is clamped to it
    assert_eq!(mouse_row_index(30, 10, 12, 50, 1), 9);
    // the view is scrolled to keep the selected node in the middle
    assert_eq!(mouse_row_index(11, 10, 12, 50, 20), 15);
}

#[test]
fn test_button_click() {
    let mut b = Button::new("ok".to_string()).on_click(Action::Quit);
    b.last_area = Area { x: 5, y: 5, width: 10, height: 3 };
    assert!(b.handle_mouse_event(MouseKind::LeftDown, 1, 1).is_none());
    assert!(!b.is_pressed);
    assert!(b.handle_mouse_event(MouseKind::LeftDown, 6, 6).is_none());
    assert!(b.is_pressed);
    assert!(matches!(b.handle_mouse_event(MouseKind::LeftUp, 0, 0), Some(Action::Quit)));
    assert!(!b.is_pressed);
    assert!(b.handle_mouse_event(MouseKind::LeftUp, 6, 6).is_none());
    assert!(Area { x: 0, y: 0, width: 2, height: 2 }.contains(1, 1));
    assert!(!Area { x: 0, y: 0, width: 2, height: 2 }.contains(2, 1));
}

#[test]
fn test_app_loop() {
    let mut app = AppState::new("list".to_string());
    let (effects, follow) = app.handle_action(Action::Menu);
    assert!(effects.is_empty());
    assert!(matches!(follow[0], Action::SubMode(SubMode::Menu)));
    app.handle_action(Action::SubMode(SubMode::Menu));
    assert_eq!(app.sub_mode, SubMode::Menu);
    let (_, follow) = app.handle_action(Action::Escape);
    assert!(matches!(follow[0], Action::SubMode(SubMode::Main)));
    let (effects, _) = app.handle_action(Action::Tick);
    assert!(matches!(effects[0], LoopEffect::ClearPendingKeys));
    let (effects, _) = app.handle_action(Action::CSCSToken("a".to_string(), None));
    assert!(matches!(effects[0], LoopEffect::StoreTokens(ref a, None) if a == "a"));
    app.handle_action(Action::Suspend);
    assert!(app.should_suspend);
    app.handle_action(Action::Resume);
    assert!(!app.should_suspend);
    app.handle_action(Action::Mode(Mode::Main));
    let (_, follow) = app.handle_action(Action::RequestFocus("popup".to_string(), Focus::Exclusive));
    assert!(matches!(follow[0], Action::FocusChanged(ref id, Focus::Exclusive) if id == "popup"));
    let r = app.receivers(&vec!["list".to_string(), "popup".to_string()]);
    assert_eq!(r, vec![false, true]);
    app.handle_action(Action::Quit);
    assert!(app.should_quit);
}
