use pipeshare::audio::{audio_sources, AudioNode};
use pipeshare::cli::{
    event_report, kdialog_status, list_report, pactl_status, parse_args, pipewire_status,
    portal_status, read_version, session_report, sessions_status, stop_report, tool_found,
    wireplumber_status, Invocation,
};
use pipeshare::command::CommandReply;
use pipeshare::tracker::ScreenShareEvent;

fn parse(args: &[&str]) -> Invocation {
    parse_args(&args.iter().map(|arg| arg.to_string()).collect())
}

fn finished(success: bool, text: &str) -> CommandReply {
    CommandReply::Finished { success, stdout: text.as_bytes().to_vec(), stderr: Vec::new() }
}

fn missing() -> CommandReply {
    CommandReply::NotStarted { reason: "gone".to_string() }
}

#[test]
fn commands_are_told_by_the_first_argument() {
    assert!(matches!(parse(&["pipeshare", "daemon"]), Invocation::Daemon));
    assert!(matches!(parse(&["pipeshare", "start"]), Invocation::Daemon));
    assert!(matches!(parse(&["pipeshare", "list"]), Invocation::List));
    assert!(matches!(parse(&["pipeshare", "stop"]), Invocation::Stop));
    assert!(matches!(parse(&["pipeshare", "status"]), Invocation::Status));
    assert!(matches!(parse(&["pipeshare", "monitor", "x"]), Invocation::Monitor));
    for help in ["help", "--help", "-h"] {
        assert!(matches!(parse(&["pipeshare", help]), Invocation::Help));
    }
    assert!(matches!(parse(&["pipeshare"]), Invocation::Help));
    assert!(matches!(parse(&[]), Invocation::Help));
}

#[test]
fn a_route_needs_an_application() {
    match parse(&["pipeshare", "route", "Google Chrome", "x"]) {
        Invocation::Route { app } => assert_eq!(app, "Google Chrome"),
        other => panic!("{:?}", other),
    }
    assert!(matches!(parse(&["pipeshare", "route"]), Invocation::RouteWithoutApp));
}

#[test]
fn other_commands_are_unknown() {
    match parse(&["pipeshare", "Daemon"]) {
        Invocation::Unknown { command } => assert_eq!(command, "Daemon"),
        other => panic!("{:?}", other),
    }
}

#[test]
fn applications_are_listed_in_a_table() {
    let sources = audio_sources("Firefox:output_FL\nGoogle Chrome:output_FL\n");
    assert_eq!(
        list_report(&sources),
        [
            "  ┌─────┬────────────────────────────────────┐",
            "  │  #  │ Application                        │",
            "  ├─────┼────────────────────────────────────┤",
            "  │   1 │ Firefox                            │",
            "  │   2 │ Google Chrome                      │",
            "  └─────┴────────────────────────────────────┘",
            "",
            "    Hint: run `pipeshare route \"Firefox\"`",
        ]
    );
}

#[test]
fn long_names_widen_the_table() {
    let name = "x".repeat(40);
    let sources = vec![AudioNode { id: 1, app_name: name.clone() }];
    assert_eq!(list_report(&sources)[3], format!("  │ {:>3} │ {:<34} │", 1, name));
}

#[test]
fn an_empty_list_has_a_hint() {
    assert_eq!(
        list_report(&vec![]),
        [
            "[-] No audio-producing applications found currently.",
            "    Hint: Start playing a video in a browser or open a music player.",
        ]
    );
}

#[test]
fn removed_modules_are_counted() {
    assert_eq!(stop_report(0), "[-] No active PipeShare modules found to clean.");
    assert_eq!(stop_report(6), "\n[+] Successfully cleaned 6 module(s).");
}

#[test]
fn events_are_reported_with_their_time() {
    let event = ScreenShareEvent::Started { app_name: Some("Element".to_string()), node_id: 42 };
    assert_eq!(
        event_report("12:34:56", &event),
        [
            "[12:34:56] Screen sharing STARTED",
            "    Application : Element",
            "    Node ID     : 42",
            "    Hint: use `pipeshare route <app>` to route audio manually.",
        ]
    );
    let event = ScreenShareEvent::Started { app_name: None, node_id: 1 };
    assert_eq!(event_report("12:34:56", &event)[1], "    Application : Unknown");
    let event = ScreenShareEvent::Stopped { node_id: 42 };
    assert_eq!(event_report("00:00:01", &event), ["[00:00:01] Screen sharing STOPPED (node: 42)"]);
}

#[test]
fn the_version_is_on_the_last_line() {
    assert_eq!(read_version("pw-cli\nCompiled 1.0\n Linked 1.0.5 \n"), "Linked 1.0.5");
    assert_eq!(read_version(""), "unknown");
    assert_eq!(read_version("x\n\n"), "");
    assert_eq!(pipewire_status(&finished(false, "a\nb\n")), "  [+] PipeWire       : b");
    assert_eq!(pipewire_status(&missing()), "  [-] PipeWire       : Not found!");
}

#[test]
fn services_are_there_or_not() {
    assert_eq!(wireplumber_status(&finished(true, "")), "  [+] WirePlumber    : Active");
    assert_eq!(wireplumber_status(&finished(false, "")), "  [-] WirePlumber    : Not found");
    assert_eq!(wireplumber_status(&missing()), "  [-] WirePlumber    : Not found");
    assert_eq!(portal_status(true), "  [+] XDG Portal      : Active");
    assert_eq!(portal_status(false), "  [-] XDG Portal      : Not found");
}

#[test]
fn tools_show_their_version() {
    assert_eq!(tool_found("x: ", " 1 \n"), "x: 1");
    assert_eq!(kdialog_status(&finished(true, "kdialog 23.08\n")), "  [+] kdialog        : kdialog 23.08");
    let none = "  [-] kdialog        : Not found (dialog prompts will fail back)";
    assert_eq!(kdialog_status(&finished(false, "x")), none);
    assert_eq!(kdialog_status(&missing()), none);
    assert_eq!(pactl_status(&finished(false, "pactl 16.1\n")), "  [+] pactl          : pactl 16.1");
    assert_eq!(pactl_status(&missing()), "  [-] pactl          : Not found");
}

#[test]
fn sessions_are_the_own_modules() {
    let listing = "1\tmodule-x\n2\tmodule-null-sink\tsink_name=PipeShare_Mix\n";
    let expected = ["  * 2\tmodule-null-sink\tsink_name=PipeShare_Mix"];
    assert_eq!(session_report(listing), expected);
    assert_eq!(sessions_status(&finished(false, listing)).unwrap(), expected);
    assert_eq!(session_report(""), ["  [-] No active PipeShare sessions detected."]);
    assert_eq!(sessions_status(&missing()).unwrap_err().message(), "gone");
}
