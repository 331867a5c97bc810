use librepods::single_instance::{
    method_name, name_request, on_method, settle_claim, AppMethod, ClaimEvent, InstanceRole, NameReply,
    UiMessage, APP_IFACE, BUS_NAME, OBJ_PATH,
};
use librepods::supervisor::{supervise, Action, LinkEvent, Phase};

fn run(events: &[LinkEvent]) -> (Phase, Vec<Action>) {
    let mut phase = Phase::Waiting;
    let mut actions = Vec::new();
    for event in events {
        let (next, action) = supervise(phase, *event);
        phase = next;
        actions.push(action);
    }
    (phase, actions)
}

#[test]
fn the_monitor_runs_while_nothing_is_connected() {
    let (phase, actions) = run(&[
        LinkEvent::Connected(true),
        LinkEvent::Connected(false),
        LinkEvent::Connected(false),
        LinkEvent::Connected(true),
        LinkEvent::Connected(true),
        LinkEvent::Connected(false),
    ]);
    assert_eq!(phase, Phase::Monitoring);
    assert_eq!(
        actions,
        vec![
            Action::AwaitChange,
            Action::StartMonitor,
            Action::AwaitChange,
            Action::StopMonitor,
            Action::AwaitChange,
            Action::StartMonitor,
        ]
    );
}

#[test]
fn shutdown_stops_a_running_monitor() {
    let (phase, actions) = run(&[LinkEvent::Connected(false), LinkEvent::Closed]);
    assert_eq!(phase, Phase::Stopped);
    assert_eq!(actions, vec![Action::StartMonitor, Action::StopMonitorAndExit]);
}

#[test]
fn shutdown_while_connected_just_ends() {
    let (phase, actions) =
        run(&[LinkEvent::Connected(true), LinkEvent::Closed, LinkEvent::Connected(false)]);
    assert_eq!(phase, Phase::Stopped);
    assert_eq!(actions, vec![Action::AwaitChange, Action::Exit, Action::Exit]);
}

#[test]
fn the_owner_of_the_name_is_primary_and_serves() {
    for reply in [NameReply::PrimaryOwner, NameReply::AlreadyOwner] {
        for raise in [false, true] {
            let claim = settle_claim(ClaimEvent::Answered(reply), raise);
            assert_eq!(claim.role, InstanceRole::Primary);
            assert!(claim.serve);
            assert!(!claim.raise);
        }
    }
}

#[test]
fn a_later_launch_is_secondary() {
    for reply in [NameReply::Exists, NameReply::InQueue] {
        for raise in [false, true] {
            let claim = settle_claim(ClaimEvent::Answered(reply), raise);
            assert_eq!(claim.role, InstanceRole::Secondary);
            assert!(!claim.serve);
            assert_eq!(claim.raise, raise);
        }
    }
}

#[test]
fn without_a_bus_the_application_runs_unguarded() {
    for event in [
        ClaimEvent::WorkerNotStarted,
        ClaimEvent::BusUnavailable,
        ClaimEvent::RequestFailed,
        ClaimEvent::WorkerLost,
    ] {
        let claim = settle_claim(event, true);
        assert_eq!(claim.role, InstanceRole::Primary);
        assert!(!claim.serve);
        assert!(!claim.raise);
    }
}

#[test]
fn the_name_is_asked_for_without_queueing() {
    let request = name_request();
    assert!(!request.allow_replacement);
    assert!(request.replace_existing);
    assert!(request.do_not_queue);
}

#[test]
fn activating_and_opening_raise_the_window() {
    assert_eq!(on_method(AppMethod::Activate), Some(UiMessage::OpenWindow));
    assert_eq!(on_method(AppMethod::Open), Some(UiMessage::OpenWindow));
    assert_eq!(on_method(AppMethod::ActivateAction), None);
}

#[test]
fn the_object_path_follows_the_bus_name() {
    assert_eq!(OBJ_PATH, format!("/{}", BUS_NAME.replace('.', "/")));
    assert_eq!(APP_IFACE, "org.freedesktop.Application");
}

#[test]
fn methods_have_their_names_on_the_bus() {
    assert_eq!(method_name(AppMethod::Activate), "Activate");
    assert_eq!(method_name(AppMethod::Open), "Open");
    assert_eq!(method_name(AppMethod::ActivateAction), "ActivateAction");
}
