use pipeshare::audio::AudioRoute;
use pipeshare::command::CommandError;
use pipeshare::daemon::{run_daemon, Daemon, DaemonAction, DaemonEvent, GRACE_MILLIS, REST_MILLIS};
use pipeshare::tracker::ScreenShareEvent;

fn started(node_id: u32) -> DaemonEvent {
    DaemonEvent::Share { event: ScreenShareEvent::Started { app_name: None, node_id } }
}

fn stopped(node_id: u32) -> DaemonEvent {
    DaemonEvent::Share { event: ScreenShareEvent::Stopped { node_id } }
}

fn route() -> AudioRoute {
    AudioRoute {
        module_ids: vec![1, 2, 3],
        target_apps: vec!["Firefox".to_string(), "mpv".to_string()],
        previous_default_source: None,
    }
}

fn ready() -> Daemon {
    let (mut daemon, action) = run_daemon();
    assert!(matches!(action, DaemonAction::CheckPortal));
    let action = daemon.step(DaemonEvent::PortalChecked { available: true });
    assert!(matches!(action, DaemonAction::Watch));
    assert!(matches!(daemon.step(DaemonEvent::Watching), DaemonAction::Wait));
    daemon
}

fn sharing(node_id: u32) -> Daemon {
    let mut daemon = ready();
    assert!(matches!(daemon.step(started(node_id)), DaemonAction::AskUser));
    let apps = vec!["Firefox".to_string(), "mpv".to_string()];
    match daemon.step(DaemonEvent::Chosen { apps }) {
        DaemonAction::BuildRoute { apps } => assert_eq!(apps, ["Firefox", "mpv"]),
        other => panic!("{:?}", other),
    }
    match daemon.step(DaemonEvent::RouteBuilt { route: route() }) {
        DaemonAction::Notify { title, body } => {
            assert_eq!(title, "Audio Routing Enabled");
            assert_eq!(
                body,
                "Routing audio for Firefox, mpv. It will be cleaned up automatically once sharing concludes."
            );
        }
        other => panic!("{:?}", other),
    }
    assert!(matches!(daemon.step(DaemonEvent::Notified), DaemonAction::Wait));
    daemon
}

fn is_grace(action: DaemonAction) -> bool {
    matches!(action, DaemonAction::WaitAtMost { millis: GRACE_MILLIS })
}

#[test]
fn without_a_portal_the_service_gives_up() {
    let (mut daemon, _) = run_daemon();
    match daemon.step(DaemonEvent::PortalChecked { available: false }) {
        DaemonAction::Fail { message } => assert_eq!(message, "XDG Desktop Portal is required"),
        other => panic!("{:?}", other),
    }
}

#[test]
fn a_share_runs_full_circle() {
    assert_eq!(GRACE_MILLIS, 3000);
    let mut daemon = sharing(7);
    assert!(is_grace(daemon.step(stopped(7))));
    match daemon.step(DaemonEvent::TimedOut) {
        DaemonAction::Destroy { route } => assert_eq!(route.module_ids, [1, 2, 3]),
        other => panic!("{:?}", other),
    }
    assert!(matches!(daemon.step(DaemonEvent::Destroyed), DaemonAction::Wait));
    assert!(matches!(daemon.step(started(8)), DaemonAction::AskUser));
}

#[test]
fn a_reconnect_keeps_the_route() {
    let mut daemon = sharing(7);
    assert!(is_grace(daemon.step(stopped(7))));
    match daemon.step(started(8)) {
        DaemonAction::Relink { apps } => assert_eq!(apps, ["Firefox", "mpv"]),
        other => panic!("{:?}", other),
    }
    assert!(matches!(daemon.step(DaemonEvent::Relinked), DaemonAction::Wait));
    assert!(matches!(daemon.step(stopped(7)), DaemonAction::Wait));
    assert!(is_grace(daemon.step(stopped(8))));
}

#[test]
fn a_new_node_takes_the_route_over() {
    let mut daemon = sharing(7);
    assert!(matches!(daemon.step(started(8)), DaemonAction::Relink { .. }));
    daemon.step(DaemonEvent::Relinked);
    assert!(matches!(daemon.step(stopped(7)), DaemonAction::Wait));
    assert!(is_grace(daemon.step(stopped(8))));
    assert!(matches!(daemon.step(DaemonEvent::TimedOut), DaemonAction::Destroy { .. }));
}

#[test]
fn the_end_of_another_share_does_not_end_the_grace() {
    let mut daemon = sharing(7);
    assert!(is_grace(daemon.step(stopped(7))));
    assert!(is_grace(daemon.step(stopped(99))));
    assert!(matches!(daemon.step(DaemonEvent::TimedOut), DaemonAction::Destroy { .. }));
}

#[test]
fn a_user_who_declines_is_not_asked_again_for_a_reconnect() {
    let mut daemon = ready();
    assert!(matches!(daemon.step(started(7)), DaemonAction::AskUser));
    assert!(matches!(daemon.step(DaemonEvent::NotChosen), DaemonAction::Wait));
    assert!(is_grace(daemon.step(stopped(7))));
    assert!(matches!(daemon.step(started(8)), DaemonAction::Wait));
    assert!(is_grace(daemon.step(stopped(8))));
    assert!(matches!(daemon.step(DaemonEvent::TimedOut), DaemonAction::Wait));
    assert!(matches!(daemon.step(started(9)), DaemonAction::AskUser));
}

#[test]
fn a_failed_route_is_told() {
    let mut daemon = ready();
    daemon.step(started(7));
    daemon.step(DaemonEvent::Chosen { apps: vec!["x".to_string()] });
    let error = CommandError::System { reason: "boom".to_string() };
    match daemon.step(DaemonEvent::RouteFailed { error }) {
        DaemonAction::Notify { title, body } => {
            assert_eq!(title, "Error");
            assert_eq!(body, "Route creation failed: boom");
        }
        other => panic!("{:?}", other),
    }
    assert!(matches!(daemon.step(DaemonEvent::Notified), DaemonAction::Wait));
    assert!(matches!(daemon.step(started(8)), DaemonAction::AskUser));
}

#[test]
fn the_service_never_ends_by_itself() {
    assert_eq!(REST_MILLIS, 5000);
    let mut daemon = sharing(7);
    for _ in 0..3 {
        let action = daemon.step(DaemonEvent::Closed);
        assert!(matches!(action, DaemonAction::Rest { millis: REST_MILLIS }));
        assert!(matches!(daemon.step(DaemonEvent::Rested), DaemonAction::Watch));
        assert!(matches!(daemon.step(DaemonEvent::Watching), DaemonAction::Wait));
    }
    assert!(is_grace(daemon.step(stopped(7))));
    daemon.step(DaemonEvent::Closed);
    daemon.step(DaemonEvent::Rested);
    assert!(is_grace(daemon.step(DaemonEvent::Watching)));
    assert!(matches!(daemon.step(DaemonEvent::TimedOut), DaemonAction::Destroy { .. }));
}
