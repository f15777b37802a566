use pipeshare::audio::{
    app_ports, audio_sources, filtered, find_in_info, get_default_sink, get_default_source,
    is_ours, leftover_modules, list_audio_sources, mix_target, picked_streams, real_microphone,
    StreamPick,
};
use pipeshare::command::{CommandError, CommandReply};
use pipeshare::text::chars_of;

const PORTS: &str = "Firefox:output_FL\nFirefox:output_FR\n\n  Spotify : output_0  \n\
alsa_output.pci:monitor_FL\nalsa_input.pci:capture_FL\nDiscord:monitor_FL\nOBS:capture_1\n\
Midi-Bridge:out\nPipeShare_Mix:output_FL\nkwin_wayland:output_0\nFirefox:output_FL\nmpv\n";

const INFO: &str = "Server String: /run/user/1000/pulse/native\n\
Server Name: PulseAudio (on PipeWire 1.0.5)\n\
Default Sink: alsa_output.pci-0000_00_1f.3.analog-stereo\n\
Default Source: alsa_input.pci-0000_00_1f.3.analog-stereo\n\
Cookie: 1234:5678\n";

const INPUTS: &str = "Sink Input #12\n\tDriver: PipeWire\n\tProperties:\n\
\t\tapplication.name = \"Firefox\"\n\t\tnode.name = \"Firefox\"\n\
Sink Input #15\n\tProperties:\n\t\tapplication.name = \"Google Chrome\"\n\
\t\tmedia.name = \"firefox\"\n\
Sink Input #16\n\t\tnode.name = \"FIREFOX Nightly\"\n";

const OUTPUTS: &str = "Source Output #31\n\tSource: 55\n\t\tapplication.name = \"Element\"\n\
Source Output #32\n\t\tapplication.name = \"PipeShare loop\"\n\
Source Output #33\n\t\tnode.target = \"PipeShare_Mic\"\n\t\tapplication.name = \"Discord\"\n";

fn printed(text: &str) -> CommandReply {
    CommandReply::Finished { success: true, stdout: text.as_bytes().to_vec(), stderr: Vec::new() }
}

fn missing() -> CommandReply {
    CommandReply::NotStarted { reason: "not found".to_string() }
}

#[test]
fn test_list_audio_sources() {
    assert!(list_audio_sources(&missing()).is_err());
    let result = list_audio_sources(&printed(PORTS));
    let sources = result.unwrap();
    println!("Found {} audio sources", sources.len());
    assert_eq!(sources.len(), 3);
}

#[test]
fn test_get_default_source() {
    assert!(get_default_source(&missing()).is_err());
    let source = get_default_source(&printed(INFO)).unwrap();
    assert!(!source.is_empty(), "Default source should not be empty");
    println!("Default source: {}", source);
    assert_eq!(source, "alsa_input.pci-0000_00_1f.3.analog-stereo");
}

#[test]
fn sources_are_named_once_in_order() {
    let sources = audio_sources(PORTS);
    let names: Vec<&str> = sources.iter().map(|node| node.app_name.as_str()).collect();
    assert_eq!(names, ["Firefox", "Spotify", "mpv"]);
    let ids: Vec<u32> = sources.iter().map(|node| node.id).collect();
    assert_eq!(ids, [1, 2, 3]);
    assert!(audio_sources("").is_empty());
}

#[test]
fn a_port_without_a_name_counts_as_one_of_the_empty_name() {
    let names: Vec<String> = audio_sources(":output_FL").into_iter().map(|n| n.app_name).collect();
    assert_eq!(names, [""]);
}

#[test]
fn sources_come_with_the_error_of_the_listing() {
    let reply = CommandReply::Finished {
        success: false,
        stdout: Vec::new(),
        stderr: b"can't connect\n".to_vec(),
    };
    assert_eq!(
        list_audio_sources(&reply).unwrap_err().message(),
        "pw-link error: can't connect"
    );
}

#[test]
fn names_of_the_audio_system_are_filtered() {
    let prefixes = [
        "pipewire", "PipeWire", "pipeshare", "PipeShare", "alsa_output", "alsa_input",
        "Midi-Bridge", "bluez_", "kwin_", "xdg-desktop-portal",
    ];
    for prefix in prefixes {
        assert!(filtered(&chars_of(prefix)));
        assert!(filtered(&chars_of(&format!("{}.x", prefix))));
        assert!(!filtered(&chars_of(&format!("x{}", prefix))));
    }
    assert!(!filtered(&chars_of("Pipewire")));
    assert!(!filtered(&chars_of("")));
}

#[test]
fn default_devices_are_read_from_the_information() {
    assert_eq!(
        get_default_sink(&printed(INFO)).unwrap(),
        "alsa_output.pci-0000_00_1f.3.analog-stereo"
    );
    assert_eq!(find_in_info(INFO, "Cookie:").unwrap(), "1234:5678");
    assert_eq!(find_in_info(INFO, "Default").unwrap(), "alsa_output.pci-0000_00_1f.3.analog-stereo");
    assert_eq!(find_in_info("no colon\n", "no").unwrap(), "");
    assert!(find_in_info(INFO, "Nothing:").is_none());
}

#[test]
fn names_of_devices_may_hold_colons() {
    let info = "Default Sink: bluez_output.00:11:22.1\nDefault Source: bluez_input.00:11:22\n";
    assert_eq!(get_default_source(&printed(info)).unwrap(), "bluez_input.00:11:22");
    assert_eq!(get_default_sink(&printed(info)).unwrap(), "bluez_output.00:11:22.1");
}

#[test]
fn a_value_stands_behind_its_label() {
    let info = "a: Default Source: x\nb: Default Sink: y:z\n";
    assert_eq!(get_default_source(&printed(info)).unwrap(), "x");
    assert_eq!(get_default_sink(&printed(info)).unwrap(), "y:z");
}

#[test]
fn an_empty_default_source_is_none() {
    for info in ["Default Source:\n", "Default Source:  \n"] {
        let source = get_default_source(&printed(info)).unwrap_err();
        assert!(matches!(source, CommandError::NoDefaultSource));
    }
}

#[test]
fn missing_default_devices_are_errors() {
    let source = get_default_source(&printed("Server Name: x\n")).unwrap_err();
    assert!(matches!(source, CommandError::NoDefaultSource));
    let sink = get_default_sink(&printed("Server Name: x\n")).unwrap_err();
    assert!(matches!(sink, CommandError::NoDefaultSink));
    assert_eq!(
        get_default_sink(&missing()).unwrap_err().message(),
        "Failed to execute pactl command"
    );
}

#[test]
fn streams_of_an_application_are_picked_in_any_case() {
    let pick = StreamPick::Named { app: "fireFOX".to_string() };
    assert_eq!(picked_streams(INPUTS, "Sink Input #", &pick), ["12", "12", "16"]);
    let pick = StreamPick::Named { app: "chrome".to_string() };
    assert_eq!(picked_streams(INPUTS, "Sink Input #", &pick), ["15"]);
    let pick = StreamPick::Named { app: "vlc".to_string() };
    assert!(picked_streams(INPUTS, "Sink Input #", &pick).is_empty());
}

#[test]
fn letters_beyond_ascii_have_lower_case_too() {
    let pick = StreamPick::Named { app: "ÄRGER".to_string() };
    let listing = "Sink Input #3\napplication.name = \"ärger\"\n";
    assert_eq!(picked_streams(listing, "Sink Input #", &pick), ["3"]);
}

#[test]
fn names_may_hold_an_equals_sign() {
    let pick = StreamPick::Named { app: "a=b".to_string() };
    let listing = "Sink Input #3\napplication.name = \"a=b\"\n";
    assert_eq!(picked_streams(listing, "Sink Input #", &pick), ["3"]);
}

#[test]
fn recording_streams_are_picked_without_those_of_the_system() {
    assert_eq!(picked_streams(OUTPUTS, "Source Output #", &StreamPick::Recording), ["31", "33"]);
}

#[test]
fn streams_on_own_devices_are_picked() {
    assert_eq!(picked_streams(OUTPUTS, "Source Output #", &StreamPick::OnPipeShare), ["32", "33"]);
}

#[test]
fn a_line_before_the_first_heading_picks_nothing() {
    let listing = "application.name = \"Element\"\nSource Output #4\n";
    assert!(picked_streams(listing, "Source Output #", &StreamPick::Recording).is_empty());
}

#[test]
fn ports_of_an_application_are_its_playback_ports() {
    assert_eq!(
        app_ports(PORTS, "Firefox"),
        ["Firefox:output_FL", "Firefox:output_FR", "Firefox:output_FL"]
    );
    assert_eq!(app_ports(PORTS, "Fire").len(), 3);
    assert_eq!(app_ports(PORTS, "Spotify"), ["Spotify : output_0"]);
    assert!(app_ports(PORTS, "Discord").is_empty());
    assert!(app_ports(PORTS, "OBS").is_empty());
}

#[test]
fn ports_go_to_the_channel_that_they_name() {
    for port in ["a:output_FL", "a:output_0", "a:front-left", "a:mono", "a:output_FL_FR", ""] {
        assert_eq!(mix_target(port), "PipeShare_Mix:playback_FL", "{}", port);
    }
    for port in ["a:output_FR", "a:output_1", "a:front-right"] {
        assert_eq!(mix_target(port), "PipeShare_Mix:playback_FR", "{}", port);
    }
    assert_eq!(mix_target("FL Studio:output_FR"), "PipeShare_Mix:playback_FR");
    assert_eq!(mix_target("FR front-right:output_FL"), "PipeShare_Mix:playback_FL");
    assert_eq!(mix_target("Firefox_FR"), "PipeShare_Mix:playback_FR");
    assert_eq!(mix_target("Firefox_FL"), "PipeShare_Mix:playback_FL");
    assert_eq!(mix_target("FRAPS:mono"), "PipeShare_Mix:playback_FL");
}

#[test]
fn own_modules_are_told_by_their_lines() {
    let listing = "1\tmodule-foo\n536870916\tmodule-null-sink\tsink_name=PipeShare_Mix\n\
                   17\tx\tpipeshare\nPIPESHARE\n";
    assert_eq!(leftover_modules(listing), ["536870916", "17"]);
    assert!(is_ours(&chars_of("a PipeShare b")));
    assert!(!is_ours(&chars_of("Pipeshare")));
}

#[test]
fn the_first_real_microphone_is_found() {
    let listing = "1\tPipeShare_alsa_input\tx\n2 alsa_output.x\nalsa_input.lonely\n\
                   3\talsa_input.usb\tPipeWire\n4\talsa_input.pci\n";
    assert_eq!(real_microphone(listing).unwrap(), "alsa_input.usb");
    assert!(real_microphone("2 alsa_output.x\n").is_none());
}
