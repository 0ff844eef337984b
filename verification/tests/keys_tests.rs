use coman::config::ComputePlatform;
use coman::cscs::System;
use coman::status_bar::{BarEvent, StatusBar};
use coman::ports::{DeviceFlow, FlowOutcome, FlowReply, FlowStep};
use coman::model::{drawn_components, drawn_popup, Mounted};
use coman::keys::{
    context_menu_choice, context_menu_entries, download_popup_key, error_popup_key, filter_popup_key,
    global_event, global_key, global_listener_subscribed, info_popup_key, log_key, login_done, login_popup_key, menu_key, system_choice,
    workload_list_key, workload_menu_choice, Direction, FilterKey, KeyCode, KeyPress, ListKey, LogReply,
    MenuChoice, Modifiers, Reply, WidgetCmd,
};
use coman::messages::{
    CscsEvent, DownloadPopupMsg, ErrorPopupMsg, FileEvent, Id, InfoPopupMsg, JobMsg, LoginPopupMsg, MenuMsg, Msg,
    StatusEvent, StatusMsg, SystemSelectMsg, UserEvent, View,
};

const NONE: Modifiers = Modifiers { shift: false, control: false, alt: false };
const CONTROL: Modifiers = Modifiers { shift: false, control: true, alt: false };

fn press(key: KeyCode) -> KeyPress {
    KeyPress { key, modifiers: NONE }
}

#[test]
fn test_global_keys() {
    assert!(matches!(global_key(press(KeyCode::Char('q')), View::Files), (Some(Msg::AppClose), View::Files)));
    assert!(matches!(
        global_key(KeyPress { key: KeyCode::Char('c'), modifiers: CONTROL }, View::Workloads),
        (Some(Msg::AppClose), View::Workloads)
    ));
    assert!(matches!(global_key(press(KeyCode::Char('c')), View::Workloads), (None, View::Workloads)));
    assert!(matches!(global_key(press(KeyCode::Char('x')), View::Workloads), (Some(Msg::Menu(MenuMsg::Opened)), _)));
    assert!(matches!(
        global_key(press(KeyCode::Char('f')), View::Workloads),
        (Some(Msg::ChangeView(View::Files)), View::Files)
    ));
    assert!(matches!(
        global_key(press(KeyCode::Char('w')), View::Files),
        (Some(Msg::ChangeView(View::Workloads)), View::Workloads)
    ));
    assert!(matches!(global_key(press(KeyCode::Enter), View::Files), (None, View::Files)));
}

#[test]
fn test_global_events() {
    match global_event(UserEvent::Cscs(CscsEvent::LoggedIn)) {
        Some(Msg::Status(StatusMsg::Info(t))) => assert_eq!(t, "Successfully logged in"),
        other => panic!("unexpected {:?}", other),
    }
    match global_event(UserEvent::File(FileEvent::DownloadSuccessful)) {
        Some(Msg::Status(StatusMsg::Info(t))) => assert_eq!(t, "File successfully downloaded"),
        other => panic!("unexpected {:?}", other),
    }
    match global_event(UserEvent::Error("boom".to_string())) {
        Some(Msg::Error(t)) => assert_eq!(t, "boom"),
        other => panic!("unexpected {:?}", other),
    }
    match global_event(UserEvent::Cscs(CscsEvent::SelectSystemList(vec![]))) {
        Some(Msg::SystemSelectPopup(SystemSelectMsg::Opened(s))) => assert!(s.is_empty()),
        other => panic!("unexpected {:?}", other),
    }
    assert!(global_event(UserEvent::File(FileEvent::DeleteCurrentFile)).is_none());
    assert!(global_event(UserEvent::Cscs(CscsEvent::GotJobLog("x".to_string()))).is_none());
}

#[test]
fn test_menu_keys() {
    assert!(matches!(
        menu_key(press(KeyCode::PageDown), Msg::Menu(MenuMsg::Closed)),
        Reply::Perform(WidgetCmd::Move(Direction::Down))
    ));
    assert!(matches!(menu_key(press(KeyCode::Home), Msg::Menu(MenuMsg::Closed)), Reply::Perform(WidgetCmd::GoToBegin)));
    assert!(matches!(
        menu_key(press(KeyCode::Char('x')), Msg::Menu(MenuMsg::Closed)),
        Reply::Answer(Msg::Menu(MenuMsg::Closed))
    ));
    assert!(matches!(
        menu_key(press(KeyCode::Esc), Msg::SystemSelectPopup(SystemSelectMsg::Closed)),
        Reply::Answer(Msg::SystemSelectPopup(SystemSelectMsg::Closed))
    ));
    assert!(matches!(menu_key(press(KeyCode::Enter), Msg::Menu(MenuMsg::Closed)), Reply::Selection));
    assert!(matches!(menu_key(press(KeyCode::Char('a')), Msg::Menu(MenuMsg::Closed)), Reply::Idle));
}

#[test]
fn test_context_menu_choices() {
    assert_eq!(
        context_menu_entries(View::Workloads),
        vec!["Cancel Job", "Filter by Status", "Login to CSCS", "Switch System", "Quit"]
    );
    assert_eq!(context_menu_entries(View::Files), vec!["Login to CSCS", "Switch System", "Download", "Delete", "Quit"]);
    assert_eq!(context_menu_choice(View::Workloads, Some(0)), MenuChoice::CancelJob);
    assert_eq!(context_menu_choice(View::Workloads, Some(1)), MenuChoice::FilterByStatus);
    assert_eq!(context_menu_choice(View::Workloads, Some(2)), MenuChoice::SwitchSystem);
    assert_eq!(context_menu_choice(View::Workloads, Some(3)), MenuChoice::Quit);
    assert_eq!(context_menu_choice(View::Workloads, Some(4)), MenuChoice::Close);
    assert_eq!(context_menu_choice(View::Files, Some(2)), MenuChoice::Download);
    assert_eq!(context_menu_choice(View::Files, Some(3)), MenuChoice::Delete);
    assert_eq!(context_menu_choice(View::Files, Some(4)), MenuChoice::Quit);
    assert_eq!(context_menu_choice(View::Files, None), MenuChoice::Close);
    assert!(matches!(MenuChoice::Quit.message(), Some(Msg::AppClose)));
    assert!(MenuChoice::FilterByStatus.message().is_none());
    assert!(matches!(
        MenuChoice::Delete.message(),
        Some(Msg::Menu(MenuMsg::Event(UserEvent::File(FileEvent::DeleteCurrentFile))))
    ));
    assert!(matches!(workload_menu_choice(Some(0)), Msg::Menu(MenuMsg::CscsLogin)));
    assert!(matches!(workload_menu_choice(Some(1)), Msg::Menu(MenuMsg::Closed)));
    assert!(matches!(workload_menu_choice(None), Msg::Menu(MenuMsg::Closed)));
}

#[test]
fn test_system_choice() {
    let systems = vec![
        System { name: "daint".to_string(), file_systems: vec![], services_health: None },
        System { name: "eiger".to_string(), file_systems: vec![], services_health: None },
    ];
    match system_choice(&systems, Some(1)) {
        Msg::SystemSelectPopup(SystemSelectMsg::SystemSelected(n)) => assert_eq!(n, "eiger"),
        other => panic!("unexpected {:?}", other),
    }
    assert!(matches!(system_choice(&systems, None), Msg::SystemSelectPopup(SystemSelectMsg::Closed)));
}

#[test]
fn test_popup_keys() {
    assert!(matches!(error_popup_key(press(KeyCode::Enter)), Reply::Answer(Msg::ErrorPopup(ErrorPopupMsg::Closed))));
    assert!(matches!(info_popup_key(press(KeyCode::Esc)), Reply::Answer(Msg::InfoPopup(InfoPopupMsg::Closed))));
    assert!(matches!(info_popup_key(press(KeyCode::Char('a'))), Reply::Silent));
}

#[test]
fn test_input_keys() {
    assert!(matches!(download_popup_key(press(KeyCode::Char('a'))), Reply::Perform(WidgetCmd::Type('a'))));
    assert!(matches!(download_popup_key(KeyPress { key: KeyCode::Char('a'), modifiers: CONTROL }), Reply::Idle));
    assert!(matches!(download_popup_key(press(KeyCode::Backspace)), Reply::Perform(WidgetCmd::Delete)));
    assert!(matches!(download_popup_key(press(KeyCode::Delete)), Reply::Perform(WidgetCmd::Cancel)));
    assert!(matches!(download_popup_key(press(KeyCode::Enter)), Reply::Selection));
    assert!(matches!(download_popup_key(KeyPress { key: KeyCode::Enter, modifiers: CONTROL }), Reply::Idle));
    assert!(matches!(download_popup_key(press(KeyCode::Esc)), Reply::Answer(Msg::DownloadPopup(DownloadPopupMsg::Closed))));
    assert!(matches!(
        login_popup_key(KeyPress { key: KeyCode::Char('A'), modifiers: Modifiers { shift: true, control: false, alt: false } }),
        Reply::Perform(WidgetCmd::Type('A'))
    ));
    assert!(matches!(login_popup_key(press(KeyCode::Tab)), Reply::Perform(WidgetCmd::NextField)));
    assert!(matches!(login_popup_key(press(KeyCode::Esc)), Reply::Answer(Msg::LoginPopup(LoginPopupMsg::Closed))));
    match login_done("id".to_string(), "secret".to_string()) {
        Msg::LoginPopup(LoginPopupMsg::LoginDone(a, b)) => {
            assert_eq!(a, "id");
            assert_eq!(b, "secret");
        }
        other => panic!("unexpected {:?}", other),
    }
}

#[test]
fn test_log_keys() {
    match log_key(press(KeyCode::Tab), false) {
        LogReply::Switch(e, title) => {
            assert!(e);
            assert_eq!(title, "Workload Log (stderr)");
        }
        other => panic!("unexpected {:?}", other),
    }
    match log_key(press(KeyCode::Tab), true) {
        LogReply::Switch(e, title) => {
            assert!(!e);
            assert_eq!(title, "Workload Log (stdout)");
        }
        other => panic!("unexpected {:?}", other),
    }
    assert!(matches!(log_key(press(KeyCode::Tab), true).message(), Msg::Job(JobMsg::Switch)));
    assert!(matches!(log_key(press(KeyCode::Esc), true).message(), Msg::Job(JobMsg::Close)));
    assert!(matches!(log_key(press(KeyCode::PageUp), true), LogReply::Perform(WidgetCmd::Scroll(Direction::Up))));
    assert!(matches!(log_key(press(KeyCode::Char('a')), true).message(), Msg::Nothing));
}

#[test]
fn test_list_and_filter_keys() {
    assert_eq!(workload_list_key(press(KeyCode::Enter)), ListKey::Details);
    assert_eq!(workload_list_key(press(KeyCode::Char('l'))), ListKey::Log);
    assert_eq!(workload_list_key(press(KeyCode::Char('r'))), ListKey::ResourceUsage);
    assert_eq!(workload_list_key(KeyPress { key: KeyCode::Char('r'), modifiers: CONTROL }), ListKey::Idle);
    assert_eq!(workload_list_key(press(KeyCode::PageDown)), ListKey::Perform(WidgetCmd::Scroll(Direction::Down)));
    assert_eq!(filter_popup_key(press(KeyCode::Char(' '))), FilterKey::Toggle);
    assert_eq!(filter_popup_key(press(KeyCode::Enter)), FilterKey::Confirm);
    assert_eq!(filter_popup_key(press(KeyCode::Esc)), FilterKey::Close);
    assert_eq!(filter_popup_key(press(KeyCode::Left)), FilterKey::Perform(WidgetCmd::Move(Direction::Left)));
}

#[test]
fn test_status_bar_clears_after_ten_seconds() {
    let mut bar = StatusBar::new(ComputePlatform::ML, "daint".to_string(), 0);
    assert_eq!(bar.platform_label(), "ML");
    bar.on(BarEvent::Status(StatusEvent::Info("done".to_string()), 1_000));
    bar.on(BarEvent::Tick(11_000));
    assert_eq!(bar.current_status, Some(StatusEvent::Info("done".to_string())));
    bar.on(BarEvent::Tick(11_001));
    assert_eq!(bar.current_status, None);
    bar.on(BarEvent::SystemSelected("eiger".to_string()));
    assert_eq!(bar.current_system, "eiger");
    bar.on(BarEvent::Status(StatusEvent::Warning("w".to_string()), 20_000));
    bar.on(BarEvent::Tick(5_000));
    assert_eq!(bar.current_status, Some(StatusEvent::Warning("w".to_string())));
}

#[test]
fn test_device_login_flow() {
    let mut flow = DeviceFlow::new();
    assert_eq!(flow.next_step(), FlowStep::AwaitStart);
    assert_eq!(
        flow.started("https://auth.example/verify"),
        "Please visit https://auth.example/verify and authorize this application."
    );
    assert_eq!(flow.next_step(), FlowStep::Finish);
    assert_eq!(flow.finished(FlowOutcome::AccessNotStored), FlowReply::Error("couldn't save access token"));
    assert_eq!(flow.next_step(), FlowStep::Finish);
    assert_eq!(flow.finished(FlowOutcome::RefreshNotStored), FlowReply::Error("couldn't save refresh token"));
    assert_eq!(flow.finished(FlowOutcome::Stored), FlowReply::LoggedIn);
    assert_eq!(flow.next_step(), FlowStep::AwaitStart);
    flow.started("u");
    assert_eq!(flow.finished(FlowOutcome::LoginFailed), FlowReply::Error("couldn't get access token"));
    assert_eq!(flow.next_step(), FlowStep::AwaitStart);
}

#[test]
fn test_drawn_components() {
    let mut m = Mounted::empty();
    assert_eq!(drawn_popup(&m), None);
    assert_eq!(
        drawn_components(View::Workloads, &m),
        vec![Id::StatusBar, Id::WorkloadList, Id::WorkloadLogs, Id::WorkloadDetails, Id::Toolbar]
    );
    assert_eq!(drawn_components(View::Files, &m), vec![Id::StatusBar, Id::Toolbar]);
    m.set(Id::FileView, true);
    m.set(Id::DownloadPopup, true);
    m.set(Id::ErrorPopup, true);
    assert_eq!(drawn_popup(&m), Some(Id::ErrorPopup));
    assert_eq!(
        drawn_components(View::Files, &m),
        vec![Id::StatusBar, Id::FileView, Id::Toolbar, Id::ErrorPopup]
    );
    m.set(Id::Menu, true);
    assert_eq!(drawn_popup(&m), Some(Id::Menu));
    m.set(Id::Menu, false);
    m.set(Id::ErrorPopup, false);
    assert_eq!(drawn_popup(&m), Some(Id::DownloadPopup));
}

fn char_press(c: char, control: bool) -> KeyPress {
    KeyPress { key: KeyCode::Char(c), modifiers: Modifiers { shift: false, control, alt: false } }
}

#[test]
fn test_global_listener_subscriptions() {
    let q = char_press('q', false);
    assert!(global_listener_subscribed(&q, &vec![Id::WorkloadList, Id::StatusBar]));
    assert!(global_listener_subscribed(&q, &vec![Id::Menu]));
    assert!(!global_listener_subscribed(&q, &vec![Id::WorkloadList, Id::LoginPopup]));
    let ctrl_c = char_press('c', true);
    assert!(global_listener_subscribed(&ctrl_c, &vec![Id::LoginPopup]));
    assert!(!global_listener_subscribed(&char_press('c', false), &vec![]));
    assert!(!global_listener_subscribed(&char_press('q', true), &vec![]));
    for c in ['x', 'f', 'w'] {
        assert!(global_listener_subscribed(&char_press(c, false), &vec![Id::WorkloadList, Id::InfoPopup]));
        assert!(!global_listener_subscribed(&char_press(c, false), &vec![Id::ErrorPopup]));
        assert!(!global_listener_subscribed(&char_press(c, false), &vec![Id::WorkloadList, Id::SystemSelectPopup]));
        assert!(!global_listener_subscribed(&char_press(c, false), &vec![Id::DownloadPopup]));
        assert!(!global_listener_subscribed(&char_press(c, false), &vec![Id::Menu]));
    }
    assert!(!global_listener_subscribed(&char_press('z', false), &vec![]));
}
