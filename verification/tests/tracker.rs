use pipeshare::monitor::{monitor_screen_share, MonitorAction, MonitorEvent};
use pipeshare::tracker::{
    get_current_screencast_nodes, PwDumpInfo, PwDumpObject, PwDumpProps, ScreenShareEvent,
    ShareTracker,
};
use std::collections::HashSet;

fn node(id: u32, class: &str, name: Option<&str>, app: Option<&str>) -> PwDumpObject {
    PwDumpObject {
        id,
        info: Some(PwDumpInfo {
            props: Some(PwDumpProps {
                media_class: Some(class.to_string()),
                node_name: name.map(String::from),
                application_name: app.map(String::from),
            }),
        }),
    }
}

fn share(id: u32) -> PwDumpObject {
    node(id, "Stream/Input/Video", Some("webrtc"), Some("Element"))
}

fn gone(id: u32) -> PwDumpObject {
    PwDumpObject { id, info: None }
}

fn shown(events: &[ScreenShareEvent]) -> Vec<String> {
    events.iter().map(|event| format!("{:?}", event)).collect()
}

fn line(text: &str) -> MonitorEvent {
    MonitorEvent::Line { text: text.to_string() }
}

#[test]
fn test_baseline_screencast_nodes() {
    let objects = vec![
        share(3),
        node(4, "Stream/Output/Video", None, None),
        node(5, "Audio/Sink", None, None),
        node(6, "Stream/Input/Video", Some("xdg-desktop-portal-kde"), None),
        gone(7),
        PwDumpObject { id: 8, info: Some(PwDumpInfo { props: None }) },
    ];
    let node_list = get_current_screencast_nodes(&objects);
    println!("Found {} baseline ScreenCast nodes", node_list.len());
    assert_eq!(node_list, HashSet::from([3, 4]));
}

#[test]
fn system_nodes_are_no_shares() {
    for name in ["kwin_wayland", "plasmashell", "xdg-desktop-portal-kde", "my xdg-desktop-portal!"] {
        assert!(!node(1, "Stream/Output/Video", Some(name), None).shows_share());
    }
    assert!(node(1, "Stream/Output/Video", Some("kwin"), None).shows_share());
    assert!(!node(1, "Stream/Output/Video2", Some("kwin"), None).shows_share());
}

#[test]
fn a_share_has_the_name_of_its_application_or_node() {
    let named = |name, app| node(1, "Stream/Input/Video", name, app).announced_name();
    assert_eq!(named(Some("n"), Some("a")).as_deref(), Some("a"));
    assert_eq!(named(Some("n"), None).as_deref(), Some("n"));
    assert_eq!(named(None, None), None);
    assert_eq!(gone(1).announced_name(), None);
}

#[test]
fn a_share_is_announced_once_and_ends_once() {
    let mut tracker = ShareTracker::new(HashSet::new());
    assert_eq!(
        shown(&tracker.update(&vec![share(9), share(9)])),
        ["Started { app_name: Some(\"Element\"), node_id: 9 }"]
    );
    assert!(tracker.update(&vec![share(9)]).is_empty());
    assert_eq!(shown(&tracker.update(&vec![gone(9)])), ["Stopped { node_id: 9 }"]);
    assert!(tracker.update(&vec![gone(9)]).is_empty());
    assert_eq!(tracker.update(&vec![share(9)]).len(), 1);
}

#[test]
fn ends_come_before_starts() {
    let mut tracker = ShareTracker::new(HashSet::new());
    tracker.update(&vec![share(1)]);
    let events = tracker.update(&vec![share(2), gone(1)]);
    assert_eq!(
        shown(&events),
        ["Stopped { node_id: 1 }", "Started { app_name: Some(\"Element\"), node_id: 2 }"]
    );
}

#[test]
fn a_node_may_end_and_start_in_one_update() {
    let mut tracker = ShareTracker::new(HashSet::new());
    tracker.update(&vec![share(1)]);
    let events = tracker.update(&vec![share(1), gone(1)]);
    assert_eq!(events.len(), 2);
    assert!(tracker.update(&vec![share(1)]).is_empty());
}

#[test]
fn the_baseline_is_never_announced() {
    let mut tracker = ShareTracker::new(HashSet::from([5]));
    assert!(tracker.update(&vec![share(5)]).is_empty());
    assert!(tracker.update(&vec![gone(5)]).is_empty());
    assert!(tracker.update(&vec![share(5)]).is_empty());
}

#[test]
fn nothing_is_announced_of_an_empty_update() {
    let mut tracker = ShareTracker::new(HashSet::new());
    assert!(tracker.update(&vec![]).is_empty());
}

#[test]
fn the_monitor_reads_the_graph_and_then_its_changes() {
    let (mut monitor, action) = monitor_screen_share();
    assert!(matches!(action, MonitorAction::ReadBaseline));
    let stdout = b"[ { \"id\": 3 }, \"Audio/Sink\" ]".to_vec();
    match monitor.step(MonitorEvent::BaselinePrinted { stdout }) {
        MonitorAction::DecodeBaseline { values } => assert_eq!(values.len(), 1),
        other => panic!("{:?}", other),
    }
    let action = monitor.step(MonitorEvent::BaselineDecoded { objects: vec![Some(share(3)), None] });
    assert!(matches!(action, MonitorAction::Launch));
    assert!(matches!(monitor.step(MonitorEvent::Launched), MonitorAction::ReadLine));
    assert!(matches!(monitor.step(line("[\n")), MonitorAction::ReadLine));
    assert!(matches!(monitor.step(line("{ \"id\": 3 }, \"x\", { \"id\": 4 }\n")), MonitorAction::ReadLine));
    match monitor.step(line("]\n")) {
        MonitorAction::Decode { values } => {
            assert_eq!(values.len(), 2);
            assert_eq!(values[1]["id"].as_u64(), Some(4));
        }
        other => panic!("{:?}", other),
    }
    match monitor.step(MonitorEvent::Decoded { objects: vec![Some(share(3)), None, Some(share(4))] }) {
        MonitorAction::Announce { events } => assert_eq!(
            shown(&events),
            ["Started { app_name: Some(\"Element\"), node_id: 4 }"]
        ),
        other => panic!("{:?}", other),
    }
    assert!(matches!(monitor.step(MonitorEvent::Announced), MonitorAction::ReadLine));
}

#[test]
fn the_monitor_restarts_with_what_it_knew() {
    let (mut monitor, _) = monitor_screen_share();
    let action = monitor.step(MonitorEvent::BaselinePrinted { stdout: b"no array".to_vec() });
    assert!(matches!(action, MonitorAction::Launch));
    monitor.step(MonitorEvent::Launched);
    monitor.step(MonitorEvent::Decoded { objects: vec![Some(share(4))] });
    monitor.step(line("["));
    assert!(matches!(monitor.step(MonitorEvent::Ended), MonitorAction::Pause { millis: 5000 }));
    assert!(matches!(monitor.step(MonitorEvent::Rested), MonitorAction::Launch));
    assert!(matches!(monitor.step(MonitorEvent::Launched), MonitorAction::ReadLine));
    assert!(matches!(monitor.step(line("]")), MonitorAction::ReadLine));
    match monitor.step(MonitorEvent::Decoded { objects: vec![Some(share(4)), Some(gone(4))] }) {
        MonitorAction::Announce { events } => assert_eq!(events.len(), 2),
        other => panic!("{:?}", other),
    }
}

#[test]
fn the_monitor_gives_up_without_a_baseline() {
    let (mut monitor, _) = monitor_screen_share();
    match monitor.step(MonitorEvent::BaselineFailed) {
        MonitorAction::Fail { message } => assert_eq!(message, "Failed to run pw-dump"),
        other => panic!("{:?}", other),
    }
}

#[test]
fn an_update_that_is_no_array_is_skipped() {
    let (mut monitor, _) = monitor_screen_share();
    monitor.step(MonitorEvent::Launched);
    monitor.step(line("["));
    monitor.step(line("oops"));
    assert!(matches!(monitor.step(line("]")), MonitorAction::ReadLine));
}

#[test]
fn a_node_with_a_bracket_in_its_name_is_detected() {
    let (mut monitor, _) = monitor_screen_share();
    monitor.step(MonitorEvent::Launched);
    monitor.step(line("[\n"));
    monitor.step(line("{\"id\":7,\"info\":{\"props\":{\"node.name\":\"tab [1\"}}}\n"));
    match monitor.step(line("]\n")) {
        MonitorAction::Decode { values } => assert_eq!(values[0]["id"].as_u64(), Some(7)),
        other => panic!("{:?}", other),
    }
}

#[test]
fn the_events_of_a_node_alternate() {
    let mut tracker = ShareTracker::new(HashSet::from([1]));
    let mut events = Vec::new();
    for _ in 0..3 {
        events.extend(tracker.update(&vec![share(2), share(1)]));
        events.extend(tracker.update(&vec![share(2)]));
        events.extend(tracker.update(&vec![gone(2), gone(1)]));
    }
    let starts: Vec<bool> =
        events.iter().map(|event| matches!(event, ScreenShareEvent::Started { .. })).collect();
    assert_eq!(starts, [true, false, true, false, true, false]);
    assert!(shown(&events).iter().all(|event| event.contains("node_id: 2")));
}

#[test]
fn a_graph_of_objects_is_the_baseline() {
    let (mut monitor, _) = monitor_screen_share();
    let action = monitor.step(MonitorEvent::BaselineRead { objects: vec![share(3)] });
    assert!(matches!(action, MonitorAction::Launch));
    match monitor.step(MonitorEvent::Decoded { objects: vec![Some(share(3)), Some(share(4))] }) {
        MonitorAction::Announce { events } => assert_eq!(
            shown(&events),
            ["Started { app_name: Some(\"Element\"), node_id: 4 }"]
        ),
        other => panic!("{:?}", other),
    }
}
